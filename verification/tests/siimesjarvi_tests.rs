use rusty_battle_tank::api::player::Player;
use rusty_battle_tank::api::map_cell::{MapCell, Terrain};
use rusty_battle_tank::api::orientation::Orientation;
use rusty_battle_tank::api::position::SCANNING_DISTANCE;
use rusty_battle_tank::api::scan::{ScanResult, ScanType};
use rusty_battle_tank::engine::game::avatar;
use rusty_battle_tank::players::siimesjarvi::{AdvancedStrategy, BasicStrategy, PlayerDetails};

#[test]
fn basic_strategy_provides_next_orientation_clockwise() {
    let mut s: BasicStrategy = BasicStrategy {
        orientation: Orientation::North,
    };
    assert_eq!(Orientation::North, s.get_next_orientation());
    assert_eq!(Orientation::NorthEast, s.get_next_orientation());
    assert_eq!(Orientation::East, s.get_next_orientation());
    assert_eq!(Orientation::SouthEast, s.get_next_orientation());
    assert_eq!(Orientation::South, s.get_next_orientation());
    assert_eq!(Orientation::SouthWest, s.get_next_orientation());
    assert_eq!(Orientation::West, s.get_next_orientation());
    assert_eq!(Orientation::NorthWest, s.get_next_orientation());
    assert_eq!(Orientation::North, s.get_next_orientation());
}

#[test]
fn advanced_strategy_check_players_in_scan_result() {
    let s: AdvancedStrategy = AdvancedStrategy::new();

    let mut scan_result: ScanResult = ScanResult {
        scan_type: ScanType::Omni,
        data: Box::new(
            [[MapCell::Terrain(Terrain::Field); SCANNING_DISTANCE]; SCANNING_DISTANCE],
        ),
    };
    let my_player_details = PlayerDetails::new(avatar(1), 1);
    // Should be false when completely empty
    assert_eq!(
        false,
        s.are_other_players_in_scan_result(my_player_details.id, &scan_result)
    );

    // Should be false when scan result has a player but the player is myself
    scan_result.data[1][1] = MapCell::Player(my_player_details, Terrain::Field);
    assert_eq!(
        false,
        s.are_other_players_in_scan_result(my_player_details.id, &scan_result)
    );

    // Should be false when scan result has dead player
    let dead_player = PlayerDetails {avatar: avatar(1), alive: false, id: 2, orientation: Orientation::North};
    scan_result.data[1][2] = MapCell::Player(dead_player, Terrain::Field);
    assert_eq!(
        false,
        s.are_other_players_in_scan_result(my_player_details.id, &scan_result)
    );

    // Should be true if there is alive player other than myself
    scan_result.data[1][3] = MapCell::Player(PlayerDetails::new(avatar(1), 2), Terrain::Field);
    assert_eq!(
        true,
        s.are_other_players_in_scan_result(my_player_details.id, &scan_result)
    );
}

#[test]
fn check_initial_player_values() {
    let s = rusty_battle_tank::players::siimesjarvi::Siimesjarvi::new();
    assert_eq!(false, s.is_ready());
}
