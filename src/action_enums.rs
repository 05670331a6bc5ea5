use vstd::prelude::*;

use crate::player_field::PlayerField;
use crate::status::StatusCooldownType;

verus! {

/// A choice in the main menu.
#[derive(Clone, Copy, PartialEq, Eq, Structural, Debug)]
pub enum MainMenuAction {
    Play,
    EditPlayers,
    ReorderPlayers,
    Settings,
    Quit,
}

/// A choice in the settings menu.
#[derive(Clone, Copy, PartialEq, Eq, Structural, Debug)]
pub enum SettingsAction {
    EditStats,
    EditStatuses,
    GoBack,
}

/// A choice in the menu of the player whose turn it is.
#[derive(Clone, Copy, PartialEq, Eq, Structural, Debug)]
pub enum GameAction {
    UseSkill,
    AddStatus,
    /// Drains statuses of the given type; `Normal` ones only drain at the end of a turn.
    DrainStatus(StatusCooldownType),
    ClearStatuses,
    ResetSkillsCD,
    ManageMoney,
    /// Ends the turn with its end-of-turn effects.
    MakeTurn,
    /// Ends the turn without them.
    SkipTurn,
    /// Asks to jump to a chosen player.
    NextPlayerPick,
    Quit,
}

/// A choice in the roster editor; positions are in roster order.
#[derive(Clone, Copy, PartialEq, Eq, Structural, Debug)]
pub enum CharacterMenuAction {
    Add,
    Edit(usize),
    Delete(usize),
    Quit,
}

/// What the roster editor shows.
#[derive(Clone, Copy, PartialEq, Eq, Structural, Debug)]
pub enum CharacterMenuMode {
    View { selected: Option<usize> },
    Edit { selected: usize, selected_field: PlayerField },
}

} // verus!
