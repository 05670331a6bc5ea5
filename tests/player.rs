use dnd_gm_helper::player::{Player, PlayerState};
use dnd_gm_helper::skill::Skill;
use dnd_gm_helper::status::{Status, StatusCooldownType};

fn skill(cd: u32, left: u32) -> Skill {
    let mut s = Skill::new(format!("skill {}", cd), cd);
    s.cooldown_left = left;
    s
}

fn status(name: &str, t: StatusCooldownType) -> Status {
    Status::new(name.to_string(), t, 2)
}

fn names(p: &Player) -> Vec<String> {
    let mut r = Vec::new();
    let mut i = 0;
    while let Some((_, s)) = p.statuses.get_by_index(i) {
        r.push(s.status_type.clone());
        i += 1;
    }
    r
}

#[test]
fn end_of_turn_ticks_cooldowns_and_drains_normal() {
    let mut p = Player::new("A".to_string(), vec![skill(0, 0), skill(2, 1), skill(5, 3)]);
    p.add_status(status("Haste", StatusCooldownType::Normal));
    p.add_status(status("Rage", StatusCooldownType::OnAttacking));
    p.add_status(status("Guard", StatusCooldownType::OnGettingAttacked));
    p.add_status(status("Curse", StatusCooldownType::Manual));
    p.add_status(status("Bless", StatusCooldownType::Normal));
    p.turn();
    let left: Vec<u32> = p.skills.iter().map(|s| s.cooldown_left).collect();
    assert_eq!(left, vec![0, 0, 2]);
    assert_eq!(names(&p), vec!["Rage", "Guard", "Curse"]);
}

#[test]
fn new_player_is_blank() {
    let p = Player::new("Bob".to_string(), Vec::new());
    assert_eq!(p.name, "Bob");
    assert_eq!(p.id, None);
    assert_eq!(p.hp, 0);
    assert_eq!(p.max_hp, 0);
    assert_eq!(p.money, 0);
    assert!(p.statuses.is_empty());
    assert_eq!(p.get_player_state(), PlayerState::Dead);
}

#[test]
fn money_may_go_negative() {
    let mut p = Player::new("Bob".to_string(), Vec::new());
    assert_eq!(p.manage_money(10), 10);
    assert_eq!(p.manage_money(-25), -15);
    assert_eq!(p.money, -15);
}

#[test]
fn heal_stops_at_max() {
    let mut p = Player::new("Bob".to_string(), Vec::new());
    p.max_hp = 10;
    p.hp = 4;
    assert_eq!(p.heal(3), PlayerState::Alive(7));
    assert_eq!(p.heal(100), PlayerState::Alive(10));
    assert_eq!(p.hp, 10);
}

#[test]
fn damage_adds_unless_it_overflows() {
    let mut p = Player::new("Bob".to_string(), Vec::new());
    assert_eq!(p.damage(5), PlayerState::Alive(5));
    p.hp = u16::MAX - 1;
    assert_eq!(p.damage(5), PlayerState::Alive(u16::MAX - 1));
}

#[test]
fn drain_by_type_leaves_other_types() {
    let mut p = Player::new("A".to_string(), Vec::new());
    p.add_status(status("Rage", StatusCooldownType::OnAttacking));
    p.add_status(status("Guard", StatusCooldownType::OnGettingAttacked));
    p.add_status(status("Fury", StatusCooldownType::OnAttacking));
    p.drain_status_by_type(StatusCooldownType::OnAttacking);
    assert_eq!(names(&p), vec!["Guard"]);
}

#[test]
fn reset_skills_cd_readies_everything() {
    let mut p = Player::new("A".to_string(), vec![skill(3, 3), skill(1, 1)]);
    p.reset_skills_cd();
    let left: Vec<u32> = p.skills.iter().map(|s| s.cooldown_left).collect();
    assert_eq!(left, vec![0, 0]);
}

#[test]
fn stats_default_to_zero() {
    let mut p = Player::new("A".to_string(), Vec::new());
    assert_eq!(p.stats.get(&"Strength".to_string()), 0);
    p.stats.set("Strength".to_string(), 12);
    p.stats.set("Wisdom".to_string(), -1);
    p.stats.set("Strength".to_string(), 14);
    assert_eq!(p.stats.get(&"Strength".to_string()), 14);
    assert_eq!(p.stats.get(&"Wisdom".to_string()), -1);
}

#[test]
fn stats_entries_list_each_stat_once() {
    let mut p = Player::new("A".to_string(), Vec::new());
    p.stats.set("Str".to_string(), 3);
    p.stats.set("Dex".to_string(), 4);
    p.stats.set("Str".to_string(), 5);
    let mut e = p.stats.entries();
    e.sort();
    assert_eq!(e, vec![("Dex".to_string(), 4), ("Str".to_string(), 5)]);
}
