use vstd::prelude::*;

verus! {

/// The stats that the character editor walks through, in its order.
#[derive(Clone, Copy, PartialEq, Eq, Structural, Debug)]
pub enum StatType {
    Strength,
    Dexterity,
    Poise,
    Wisdom,
    Intelligence,
    Charisma,
}

/// A field of the character editor: the name, a stat, or the name or
/// cooldown of the skill at a position.
#[derive(Clone, Copy, PartialEq, Eq, Structural, Debug)]
pub enum PlayerField {
    Name,
    Stat(StatType),
    SkillName(usize),
    SkillCD(usize),
}

/// The stat after `s` in editor order; the last has none.
pub open spec fn stat_after(s: StatType) -> Option<StatType> {
    match s {
        StatType::Strength => Some(StatType::Dexterity),
        StatType::Dexterity => Some(StatType::Poise),
        StatType::Poise => Some(StatType::Wisdom),
        StatType::Wisdom => Some(StatType::Intelligence),
        StatType::Intelligence => Some(StatType::Charisma),
        StatType::Charisma => None,
    }
}

/// The stat before `s` in editor order; the first has none.
pub open spec fn stat_before(s: StatType) -> Option<StatType> {
    match s {
        StatType::Strength => None,
        StatType::Dexterity => Some(StatType::Strength),
        StatType::Poise => Some(StatType::Dexterity),
        StatType::Wisdom => Some(StatType::Poise),
        StatType::Intelligence => Some(StatType::Wisdom),
        StatType::Charisma => Some(StatType::Intelligence),
    }
}

impl PlayerField {
    /// The field after this one: name, the six stats, then each skill's name
    /// and cooldown in turn, without end.
    pub open spec fn spec_next(self) -> PlayerField {
        match self {
            PlayerField::Name => PlayerField::Stat(StatType::Strength),
            PlayerField::Stat(s) => match stat_after(s) {
                Some(t) => PlayerField::Stat(t),
                None => PlayerField::SkillName(0),
            },
            PlayerField::SkillName(i) => PlayerField::SkillCD(i),
            PlayerField::SkillCD(i) => PlayerField::SkillName((i + 1) as usize),
        }
    }

    /// The field before this one; the name is the first and stays put.
    pub open spec fn spec_prev(self) -> PlayerField {
        match self {
            PlayerField::Name => PlayerField::Name,
            PlayerField::Stat(s) => match stat_before(s) {
                Some(t) => PlayerField::Stat(t),
                None => PlayerField::Name,
            },
            PlayerField::SkillName(i) => if i == 0 {
                PlayerField::Stat(StatType::Charisma)
            } else {
                PlayerField::SkillCD((i - 1) as usize)
            },
            PlayerField::SkillCD(i) => PlayerField::SkillName(i),
        }
    }

    pub fn next(&self) -> (r: PlayerField)
        requires
            *self matches PlayerField::SkillCD(i) ==> i < usize::MAX,
        ensures
            r == self.spec_next(),
    {
        match self {
            PlayerField::Name => PlayerField::Stat(StatType::Strength),
            PlayerField::Stat(stat) => match stat {
                StatType::Strength => PlayerField::Stat(StatType::Dexterity),
                StatType::Dexterity => PlayerField::Stat(StatType::Poise),
                StatType::Poise => PlayerField::Stat(StatType::Wisdom),
                StatType::Wisdom => PlayerField::Stat(StatType::Intelligence),
                StatType::Intelligence => PlayerField::Stat(StatType::Charisma),
                StatType::Charisma => PlayerField::SkillName(0),
            },
            PlayerField::SkillName(i) => PlayerField::SkillCD(*i),
            PlayerField::SkillCD(i) => PlayerField::SkillName(*i + 1),
        }
    }

    pub fn prev(&self) -> (r: PlayerField)
        ensures
            r == self.spec_prev(),
    {
        match self {
            PlayerField::Name => PlayerField::Name,
            PlayerField::Stat(stat) => match stat {
                StatType::Strength => PlayerField::Name,
                StatType::Dexterity => PlayerField::Stat(StatType::Strength),
                StatType::Poise => PlayerField::Stat(StatType::Dexterity),
                StatType::Wisdom => PlayerField::Stat(StatType::Poise),
                StatType::Intelligence => PlayerField::Stat(StatType::Wisdom),
                StatType::Charisma => PlayerField::Stat(StatType::Intelligence),
            },
            PlayerField::SkillName(i) => {
                if *i == 0 {
                    PlayerField::Stat(StatType::Charisma)
                } else {
                    PlayerField::SkillCD(*i - 1)
                }
            },
            PlayerField::SkillCD(i) => PlayerField::SkillName(*i),
        }
    }

    /// The label of the field; skill fields have none of their own.
    pub open spec fn spec_label(self) -> Seq<char> {
        match self {
            PlayerField::Name => "Name"@,
            PlayerField::Stat(StatType::Strength) => "Strength"@,
            PlayerField::Stat(StatType::Dexterity) => "Dexterity"@,
            PlayerField::Stat(StatType::Poise) => "Poise"@,
            PlayerField::Stat(StatType::Wisdom) => "Wisdom"@,
            PlayerField::Stat(StatType::Intelligence) => "Intelligence"@,
            PlayerField::Stat(StatType::Charisma) => "Charisma"@,
            PlayerField::SkillName(_) | PlayerField::SkillCD(_) => Seq::empty(),
        }
    }

    pub fn label(&self) -> (r: &'static str)
        ensures
            r@ == self.spec_label(),
    {
        match self {
            PlayerField::Name => "Name",
            PlayerField::Stat(StatType::Strength) => "Strength",
            PlayerField::Stat(StatType::Dexterity) => "Dexterity",
            PlayerField::Stat(StatType::Poise) => "Poise",
            PlayerField::Stat(StatType::Wisdom) => "Wisdom",
            PlayerField::Stat(StatType::Intelligence) => "Intelligence",
            PlayerField::Stat(StatType::Charisma) => "Charisma",
            PlayerField::SkillName(_) | PlayerField::SkillCD(_) => {
                proof {
                    reveal_strlit("");
                }
                ""
            },
        }
    }
}

/// Going to the next field and back returns to the same field.
pub proof fn lemma_prev_undoes_next(f: PlayerField)
    requires
        f matches PlayerField::SkillCD(i) ==> i < usize::MAX,
    ensures
        f.spec_next().spec_prev() == f,
{
}

} // verus!
