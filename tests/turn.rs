use dnd_gm_helper::game::GameState;
use dnd_gm_helper::id::Uid;
use dnd_gm_helper::player::{Player, Players};
use dnd_gm_helper::turn::{NextPlayerState, TurnEngine, TurnStep};

fn roster(n: usize) -> (Players, Vec<Uid>) {
    let mut players = Players::new();
    let mut ids = Vec::new();
    for i in 0..n {
        ids.push(players.push(Player::new(format!("P{}", i), Vec::new())));
    }
    (players, ids)
}

#[test]
fn turns_follow_the_order_and_wrap() {
    let (players, ids) = roster(3);
    let order = vec![ids[2], ids[0], ids[1]];
    let mut e = TurnEngine::new();
    assert_eq!(e.advance(&order, &players), TurnStep::Play(ids[2]));
    assert_eq!(e.advance(&order, &players), TurnStep::Play(ids[0]));
    assert_eq!(e.advance(&order, &players), TurnStep::Play(ids[1]));
    assert_eq!(e.advance(&order, &players), TurnStep::Play(ids[2]));
}

#[test]
fn next_player_pick_jumps_then_resumes_from_the_top() {
    let (players, ids) = roster(3);
    let (a, c) = (ids[0], ids[2]);
    let order = vec![ids[0], ids[1], ids[2]];
    let mut e = TurnEngine::new();
    assert_eq!(e.advance(&order, &players), TurnStep::Play(a));
    e.request_pick();
    assert_eq!(e.advance(&order, &players), TurnStep::PickNext);
    e.pick(Some(c));
    assert_eq!(e.next_player, NextPlayerState::Picked(c));
    assert_eq!(e.advance(&order, &players), TurnStep::Play(c));
    assert_eq!(e.next_player, NextPlayerState::Default);
    assert_eq!(e.advance(&order, &players), TurnStep::Play(a));
    assert_eq!(e.advance(&order, &players), TurnStep::Play(ids[1]));
}

#[test]
fn dangling_order_entry_is_skipped() {
    let (mut players, ids) = roster(2);
    let (a, b) = (ids[0], ids[1]);
    let order = vec![a, b];
    players.remove(b);
    let mut e = TurnEngine::new();
    assert_eq!(e.advance(&order, &players), TurnStep::Play(a));
    assert_eq!(e.advance(&order, &players), TurnStep::Play(a));
    assert_eq!(e.advance(&order, &players), TurnStep::Play(a));
}

#[test]
fn pick_declined_keeps_pending_and_plays_normally() {
    let (players, ids) = roster(2);
    let order = vec![ids[0], ids[1]];
    let mut e = TurnEngine::new();
    e.request_pick();
    assert_eq!(e.advance(&order, &players), TurnStep::PickNext);
    e.pick(None);
    assert_eq!(e.next_player, NextPlayerState::Pending);
    assert_eq!(e.advance(&order, &players), TurnStep::Play(ids[0]));
    assert_eq!(e.advance(&order, &players), TurnStep::Play(ids[1]));
    assert_eq!(e.advance(&order, &players), TurnStep::PickNext);
}

#[test]
fn nobody_to_play() {
    let (mut players, ids) = roster(1);
    let order = vec![ids[0]];
    players.remove(ids[0]);
    let mut e = TurnEngine::new();
    assert_eq!(e.advance(&order, &players), TurnStep::NoPlayable);
    let empty: Vec<Uid> = Vec::new();
    assert_eq!(e.advance(&empty, &players), TurnStep::NoPlayable);
}

#[test]
fn picked_target_outside_the_order_finds_nobody() {
    let (players, ids) = roster(2);
    let order = vec![ids[0]];
    let mut e = TurnEngine::new();
    e.request_pick();
    assert_eq!(e.advance(&order, &players), TurnStep::PickNext);
    e.pick(Some(ids[1]));
    assert_eq!(e.advance(&order, &players), TurnStep::NoPlayable);
}

#[test]
fn dangling_entries_are_listed() {
    let mut g = GameState::new();
    let a = g.players.push(Player::new("A".to_string(), Vec::new()));
    let b = g.players.push(Player::new("B".to_string(), Vec::new()));
    g.reset_order();
    assert!(g.dangling_order_entries().is_empty());
    g.players.remove(b);
    assert_eq!(g.dangling_order_entries(), vec![b]);
    assert_eq!(g.order, vec![a, b]);
}
