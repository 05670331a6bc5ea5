use dnd_gm_helper::action_enums::GameAction;
use dnd_gm_helper::error::GameError;
use dnd_gm_helper::game::{GameState, Games, PlayError};
use dnd_gm_helper::id::Uid;
use dnd_gm_helper::player::{name_le, Player, Players};
use dnd_gm_helper::player_field::{PlayerField, StatType};
use dnd_gm_helper::skill::{SideEffectAffects, Skill};
use dnd_gm_helper::status::{Status, StatusCooldownType};

fn status_names(players: &Players, id: Uid) -> Vec<String> {
    let p = players.get(id).unwrap();
    let mut r = Vec::new();
    let mut i = 0;
    while let Some((_, s)) = p.statuses.get_by_index(i) {
        r.push(s.status_type.clone());
        i += 1;
    }
    r
}

#[test]
fn drain_manual_removes_only_the_chosen_status() {
    let mut players = Players::new();
    let a = players.push(Player::new("A".to_string(), Vec::new()));
    players
        .add_status(a, Status::new("Poison".to_string(), StatusCooldownType::Manual, 3))
        .unwrap();
    players
        .add_status(a, Status::new("Burn".to_string(), StatusCooldownType::OnAttacking, 1))
        .unwrap();
    let removed = players.drain_manual_status(a, 0).unwrap();
    assert_eq!(removed.status_type, "Poison");
    assert_eq!(status_names(&players, a), vec!["Burn"]);
    assert_eq!(players.drain_manual_status(a, 0).unwrap_err(), GameError::NotFound);
}

#[test]
fn actions_on_a_missing_player_are_not_found() {
    let mut players = Players::new();
    let ghost = Uid(42);
    assert_eq!(players.make_turn(ghost), Err(GameError::NotFound));
    assert_eq!(players.use_skill(ghost, 0), Err(GameError::NotFound));
    assert_eq!(players.manage_money(ghost, 5), Err(GameError::NotFound));
    assert_eq!(players.clear_statuses(ghost), Err(GameError::NotFound));
    assert_eq!(players.reset_skills_cd(ghost), Err(GameError::NotFound));
}

#[test]
fn use_skill_through_the_roster() {
    let mut players = Players::new();
    let a = players.push(Player::new("A".to_string(), vec![Skill::new("Slash".to_string(), 2)]));
    assert_eq!(players.use_skill(a, 1), Err(GameError::NotFound));
    assert_eq!(players.use_skill(a, 0), Ok(()));
    assert_eq!(players.get(a).unwrap().skills[0].cooldown_left, 2);
    assert_eq!(players.use_skill(a, 0), Err(GameError::OnCooldown));
    assert_eq!(players.make_turn(a), Ok(()));
    assert_eq!(players.get(a).unwrap().skills[0].cooldown_left, 1);
    assert_eq!(players.reset_skills_cd(a), Ok(()));
    assert_eq!(players.use_skill(a, 0), Ok(()));
}

#[test]
fn money_through_the_roster() {
    let mut players = Players::new();
    let a = players.push(Player::new("A".to_string(), Vec::new()));
    let b = players.push(Player::new("B".to_string(), Vec::new()));
    assert_eq!(players.manage_money(a, -7), Ok(-7));
    assert_eq!(players.get(a).unwrap().money, -7);
    assert_eq!(players.get(b).unwrap().money, 0);
}

#[test]
fn status_side_effect_reaches_self_and_target() {
    let mut players = Players::new();
    let a = players.push(Player::new("A".to_string(), Vec::new()));
    let b = players.push(Player::new("B".to_string(), Vec::new()));
    let st = Status::new("Shield".to_string(), StatusCooldownType::Normal, 1);
    assert_eq!(players.apply_status_effect(a, &st, SideEffectAffects::Both, Some(b)), 2);
    assert_eq!(status_names(&players, a), vec!["Shield"]);
    assert_eq!(status_names(&players, b), vec!["Shield"]);
    // the user is never their own "someone else"
    assert_eq!(players.apply_status_effect(a, &st, SideEffectAffects::SomeoneElse, Some(a)), 0);
    assert_eq!(players.apply_status_effect(a, &st, SideEffectAffects::Themselves, Some(b)), 1);
    assert_eq!(status_names(&players, a).len(), 2);
    assert_eq!(status_names(&players, b).len(), 1);
}

#[test]
fn clearing_statuses() {
    let mut players = Players::new();
    let a = players.push(Player::new("A".to_string(), Vec::new()));
    players
        .add_status(a, Status::new("X".to_string(), StatusCooldownType::Manual, 1))
        .unwrap();
    assert_eq!(players.drain_status_by_type(a, StatusCooldownType::Manual), Ok(()));
    assert!(players.get(a).unwrap().statuses.is_empty());
    players
        .add_status(a, Status::new("Y".to_string(), StatusCooldownType::OnAttacking, 1))
        .unwrap();
    assert_eq!(players.clear_statuses(a), Ok(()));
    assert!(players.get(a).unwrap().statuses.is_empty());
    assert!(players.can_add_status(a));
}

#[test]
fn players_record_their_ids() {
    let mut players = Players::new();
    let a = players.push(Player::new("A".to_string(), Vec::new()));
    assert_eq!(players.get(a).unwrap().id, Some(a));
    let replaced = players.insert(a, Player::new("A2".to_string(), Vec::new()));
    assert_eq!(replaced.unwrap().name, "A");
    assert_eq!(players.get(a).unwrap().name, "A2");
    assert_eq!(players.get(a).unwrap().id, Some(a));
    assert_eq!(players.ids(), vec![a]);
    assert_eq!(players.remove(a).unwrap().name, "A2");
    assert!(players.is_empty());
}

#[test]
fn game_needs_players_and_order() {
    let mut g = GameState::new();
    assert_eq!(g.can_play(), Err(PlayError::NoPlayers));
    let a = g.players.push(Player::new("A".to_string(), Vec::new()));
    let b = g.players.push(Player::new("B".to_string(), Vec::new()));
    assert_eq!(g.can_play(), Err(PlayError::EmptyOrder));
    g.fill_default_order();
    assert_eq!(g.order, vec![a, b]);
    assert_eq!(g.can_play(), Ok(()));
}

#[test]
fn reordering_the_turn_order() {
    let mut g = GameState::new();
    let a = g.players.push(Player::new("A".to_string(), Vec::new()));
    let b = g.players.push(Player::new("B".to_string(), Vec::new()));
    let c = g.players.push(Player::new("C".to_string(), Vec::new()));
    g.reset_order();
    assert_eq!(g.move_in_order(0, true), 0);
    assert_eq!(g.move_in_order(0, false), 1);
    assert_eq!(g.order, vec![b, a, c]);
    assert_eq!(g.move_in_order(2, false), 2);
    assert_eq!(g.move_in_order(2, true), 1);
    assert_eq!(g.order, vec![b, c, a]);
    assert_eq!(g.remove_from_order(0), b);
    assert_eq!(g.order, vec![c, a]);
    g.reset_order();
    assert_eq!(g.order, vec![a, b, c]);
}

#[test]
fn player_field_walk() {
    let f = PlayerField::Name.next();
    assert_eq!(f, PlayerField::Stat(StatType::Strength));
    assert_eq!(PlayerField::Stat(StatType::Charisma).next(), PlayerField::SkillName(0));
    assert_eq!(PlayerField::SkillName(3).next(), PlayerField::SkillCD(3));
    assert_eq!(PlayerField::SkillCD(3).next(), PlayerField::SkillName(4));
    assert_eq!(PlayerField::SkillName(0).prev(), PlayerField::Stat(StatType::Charisma));
    assert_eq!(PlayerField::SkillName(4).prev(), PlayerField::SkillCD(3));
    assert_eq!(PlayerField::Name.prev(), PlayerField::Name);
    assert_eq!(PlayerField::Stat(StatType::Strength).prev(), PlayerField::Name);
    assert_eq!(PlayerField::Stat(StatType::Poise).label(), "Poise");
    assert_eq!(PlayerField::SkillCD(1).label(), "");
}

#[test]
fn drain_action_carries_its_type() {
    let act = GameAction::DrainStatus(StatusCooldownType::Manual);
    assert_eq!(act, GameAction::DrainStatus(StatusCooldownType::Manual));
    assert_ne!(act, GameAction::DrainStatus(StatusCooldownType::OnAttacking));
}

#[test]
fn roster_sorts_by_name_keeping_ids() {
    let mut players = Players::new();
    let c = players.push(Player::new("Cleric".to_string(), Vec::new()));
    let a = players.push(Player::new("Archer".to_string(), Vec::new()));
    let b = players.push(Player::new("Bard".to_string(), Vec::new()));
    let a2 = players.push(Player::new("Archer".to_string(), Vec::new()));
    players.sort();
    assert_eq!(players.ids(), vec![a, a2, b, c]);
    assert_eq!(players.get(c).unwrap().name, "Cleric");
    assert_eq!(players.get(c).unwrap().id, Some(c));
}

#[test]
fn name_order_is_bytewise() {
    assert!(name_le(&"Ab".to_string(), &"Abc".to_string()));
    assert!(!name_le(&"Abc".to_string(), &"Ab".to_string()));
    assert!(name_le(&"B".to_string(), &"a".to_string()));
    assert!(name_le(&"".to_string(), &"".to_string()));
}

#[test]
fn games_stay_in_name_order() {
    let mut games = Games::new();
    assert_eq!(games.add("Tomb".to_string(), GameState::new()), 0);
    assert_eq!(games.add("Abyss".to_string(), GameState::new()), 0);
    assert_eq!(games.add("Keep".to_string(), GameState::new()), 1);
    assert_eq!(games.add("Tomb".to_string(), GameState::new()), 2);
    assert_eq!(games.len(), 3);
    assert_eq!(games.names(), vec!["Abyss", "Keep", "Tomb"]);
    assert_eq!(games.find(&"Keep".to_string()), Some(1));
    assert_eq!(games.find(&"Nope".to_string()), None);
    let g = games.get_mut(1);
    g.players.push(Player::new("A".to_string(), Vec::new()));
    assert_eq!(games.get_mut(1).players.len(), 1);
    assert_eq!(games.get_mut(0).players.len(), 0);
}

#[test]
fn games_hand_out_their_states() {
    let mut games = Games::new();
    let mut g = GameState::new();
    g.stat_list.insert("Luck".to_string());
    let i = games.add("One".to_string(), g);
    assert_eq!(games.get(i).stat_list.get_names(), vec!["Luck"]);
}
