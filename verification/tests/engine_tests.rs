use rusty_battle_tank::engine::game::{avatar, DEFAULT_AVATAR, ENABLE_SHELL_ANIMATION};

#[test]
fn test_animation_is_off() {
    assert!(!ENABLE_SHELL_ANIMATION);
}

#[test]
fn test_default_avatar() {
    assert_eq!(DEFAULT_AVATAR, avatar(1000));
}

#[test]
fn only_the_ready_players_are_registered_in_order() {
    let championship = rusty_battle_tank::engine::championship::Championship::new(
        rusty_battle_tank::api::world_size::WorldSize { x: 60, y: 45 },
    );
    let mut outcome = rusty_battle_tank::engine::outcome::ChampionshipOutcome::new();
    let answers = vec![(true, "Alpha".to_string()), (false, String::new()), (true, "Gamma".to_string())];
    assert_eq!(championship.register_players(&answers, &mut outcome), 2);
    assert_eq!(outcome.get_player_name(1), Some("Alpha".to_string()));
    assert_eq!(outcome.get_player_name(2), Some("Gamma".to_string()));
    assert_eq!(outcome.get_player_name(3), None);
}
