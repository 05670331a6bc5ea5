//! Bookkeeping for tabletop role-playing sessions: players under durable
//! identifiers, registries of stat and status names, cooldown-gated skills,
//! timed statuses, and the turn cycle over a game master's player order.

pub mod action_enums;
pub mod error;
pub mod game;
pub mod id;
pub mod list;
pub mod player;
pub mod player_field;
pub mod setlist;
pub mod skill;
pub mod stats;
pub mod status;
pub mod turn;
