use rusty_battle_tank::api::player::Details;
use rusty_battle_tank::api::position::Position;
use rusty_battle_tank::players::laurikainen::{DetectedPlayer, Sightings, PLAYER_LIFETIME};

fn seen(id: u8, x: usize) -> DetectedPlayer {
    DetectedPlayer { position: Position { x, y: 4 }, details: Details::new('X', id), lifetime: PLAYER_LIFETIME }
}

#[test]
fn a_player_not_seen_again_is_forgotten_after_its_lifetime() {
    let mut s = Sightings::new();
    s.remember(seen(2, 5));
    s.remember(seen(3, 6));
    for _ in 1..PLAYER_LIFETIME {
        assert!(!s.age());
        assert_eq!(s.len(), 2);
    }
    assert!(s.age());
    assert_eq!(s.len(), 0);
}

#[test]
fn seeing_a_player_again_replaces_its_entry_in_place() {
    let mut s = Sightings::new();
    s.remember(seen(2, 5));
    s.remember(seen(3, 6));
    s.age();
    s.remember(seen(2, 9));
    assert_eq!(s.len(), 2);
    assert_eq!(s.get(0).position, Position { x: 9, y: 4 });
    assert_eq!(s.get(0).lifetime, PLAYER_LIFETIME);
    assert_eq!(s.get(1).lifetime, PLAYER_LIFETIME - 1);
}
