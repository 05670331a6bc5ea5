use vstd::prelude::*;

verus! {

/// What can go wrong in the game's bookkeeping; each is recovered by the caller.
#[derive(Clone, Copy, PartialEq, Eq, Structural, Debug)]
pub enum GameError {
    /// An identifier, position or name does not resolve to a live entry.
    NotFound,
    /// A skill was used before its cooldown ran out.
    OnCooldown,
}

} // verus!
