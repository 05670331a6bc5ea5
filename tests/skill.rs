use dnd_gm_helper::error::GameError;
use dnd_gm_helper::skill::{SideEffectAffects, Skill};

#[test]
fn ready_skill_is_used_and_starts_cooldown() {
    let mut sk = Skill::new("Fireball".to_string(), 3);
    assert_eq!(sk.cooldown_left, 0);
    assert_eq!(sk.use_skill(), Ok(()));
    assert_eq!(sk.cooldown_left, 3);
}

#[test]
fn skill_on_cooldown_fails_and_stays() {
    let mut sk = Skill::new("Fireball".to_string(), 3);
    sk.cooldown_left = 2;
    assert_eq!(sk.use_skill(), Err(GameError::OnCooldown));
    assert_eq!(sk.cooldown_left, 2);
}

#[test]
fn tick_stops_at_zero() {
    let mut sk = Skill::new("Dash".to_string(), 1);
    sk.cooldown_left = 1;
    sk.tick();
    assert_eq!(sk.cooldown_left, 0);
    sk.tick();
    assert_eq!(sk.cooldown_left, 0);
    assert_eq!(sk.cooldown, 1);
}

#[test]
fn side_effect_affects() {
    assert!(SideEffectAffects::Themselves.affects_self());
    assert!(!SideEffectAffects::Themselves.affects_other());
    assert!(!SideEffectAffects::SomeoneElse.affects_self());
    assert!(SideEffectAffects::SomeoneElse.affects_other());
    assert!(SideEffectAffects::Both.affects_self());
    assert!(SideEffectAffects::Both.affects_other());
}
