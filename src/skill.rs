use vstd::prelude::*;

use crate::error::GameError;
use crate::status::Status;

verus! {

/// What a skill's side effect does.
#[derive(Clone, Debug)]
pub enum SideEffectType {
    /// Puts a status on the affected players.
    AddsStatus(Status),
    /// Uses a skill of another player.
    UsesSkill,
}

/// Whom a skill's side effect affects.
#[derive(Clone, Copy, PartialEq, Eq, Structural, Debug)]
pub enum SideEffectAffects {
    Themselves,
    SomeoneElse,
    Both,
}

impl SideEffectAffects {
    /// The user of the skill is affected.
    pub open spec fn spec_affects_self(self) -> bool {
        self is Themselves || self is Both
    }

    /// Another player is affected.
    pub open spec fn spec_affects_other(self) -> bool {
        self is SomeoneElse || self is Both
    }

    #[verifier::when_used_as_spec(spec_affects_self)]
    pub fn affects_self(self) -> (r: bool)
        ensures
            r == self.spec_affects_self(),
    {
        match self {
            SideEffectAffects::Themselves | SideEffectAffects::Both => true,
            SideEffectAffects::SomeoneElse => false,
        }
    }

    #[verifier::when_used_as_spec(spec_affects_other)]
    pub fn affects_other(self) -> (r: bool)
        ensures
            r == self.spec_affects_other(),
    {
        match self {
            SideEffectAffects::SomeoneElse | SideEffectAffects::Both => true,
            SideEffectAffects::Themselves => false,
        }
    }
}

/// A declarative trigger that a skill carries out after a successful use.
#[derive(Clone, Debug)]
pub struct SideEffect {
    pub side_effect_type: SideEffectType,
    pub affects: SideEffectAffects,
}

/// An ability that, once used, cannot be used again for `cooldown` turns.
#[derive(Clone, Debug)]
pub struct Skill {
    pub name: String,
    /// Turns between two uses.
    pub cooldown: u32,
    /// Turns left before the next use.
    pub cooldown_left: u32,
    pub side_effect: Option<SideEffect>,
}

impl Skill {
    /// The remaining cooldown never exceeds the configured one.
    pub open spec fn wf(&self) -> bool {
        self.cooldown_left <= self.cooldown
    }

    /// A skill that is ready to use and has no side effect.
    pub fn new(name: String, cooldown: u32) -> (r: Self)
        ensures
            r.name == name,
            r.cooldown == cooldown,
            r.cooldown_left == 0,
            r.side_effect is None,
            r.wf(),
    {
        Skill { name, cooldown, cooldown_left: 0, side_effect: None }
    }

    /// Uses the skill: when it is ready its full cooldown starts; otherwise it
    /// fails with `OnCooldown` and nothing changes.
    pub fn use_skill(&mut self) -> (r: Result<(), GameError>)
        ensures
            old(self).cooldown_left == 0 ==> r is Ok && final(self).cooldown_left
                == old(self).cooldown,
            old(self).cooldown_left > 0 ==> r == Err::<(), GameError>(GameError::OnCooldown)
                && final(self).cooldown_left == old(self).cooldown_left,
            final(self).name == old(self).name,
            final(self).cooldown == old(self).cooldown,
            final(self).side_effect == old(self).side_effect,
            old(self).wf() ==> final(self).wf(),
    {
        if self.cooldown_left > 0 {
            Err(GameError::OnCooldown)
        } else {
            self.cooldown_left = self.cooldown;
            Ok(())
        }
    }

    /// One turn passes: the remaining cooldown drops by one, stopping at zero.
    pub fn tick(&mut self)
        ensures
            final(self).cooldown_left == if old(self).cooldown_left > 0 {
                old(self).cooldown_left - 1
            } else {
                0
            },
            final(self).name == old(self).name,
            final(self).cooldown == old(self).cooldown,
            final(self).side_effect == old(self).side_effect,
            old(self).wf() ==> final(self).wf(),
    {
        if self.cooldown_left > 0 {
            self.cooldown_left = self.cooldown_left - 1;
        }
    }
}

} // verus!
