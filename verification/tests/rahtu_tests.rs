use rusty_battle_tank::api::action::Action;
use rusty_battle_tank::api::aiming::Aiming;
use rusty_battle_tank::api::context::Context;
use rusty_battle_tank::api::orientation::Orientation;
use rusty_battle_tank::api::path_finder::{Navigator, PathFinder};
use rusty_battle_tank::api::player::Details;
use rusty_battle_tank::api::position::Position;
use rusty_battle_tank::api::scan::ScanType;
use rusty_battle_tank::api::world_size::WorldSize;
use rusty_battle_tank::players::rahtu::plans::{danger_close, get_next_action, keep_scans_fresh};
use rusty_battle_tank::players::rahtu::shared::{Data, SensorData, Track};

fn at(position: Position, turn: usize) -> Context {
    Context::new(
        100,
        1000,
        Action::Idle,
        Details::new('A', 1),
        position,
        None,
        turn,
        WorldSize { x: 60, y: 45 },
    )
}

fn world() -> WorldSize {
    WorldSize { x: 60, y: 45 }
}

#[test]
fn an_open_map_gives_the_shortest_way_in_reverse() {
    let data = Data::new();
    let from = Position { x: 5, y: 5 };
    let to = Position { x: 8, y: 5 };
    let path = PathFinder::find_path(&data.map, &from, &to, &Orientation::East, &world());
    assert_eq!(path, vec![Position { x: 8, y: 5 }, Position { x: 7, y: 5 }, Position { x: 6, y: 5 }]);
}

#[test]
fn a_way_around_a_wall_is_found() {
    let mut data = Data::new();
    for y in 0..45 {
        if y != 30 {
            data.map.sensor_data[7][y] = SensorData::Blocked;
        }
    }
    let from = Position { x: 5, y: 5 };
    let to = Position { x: 9, y: 5 };
    let path = PathFinder::find_path(&data.map, &from, &to, &Orientation::East, &world());
    assert!(!path.is_empty());
    assert_eq!(path[0], to);
    assert!(path.contains(&Position { x: 7, y: 30 }));
}

#[test]
fn a_walled_in_target_gives_no_way() {
    let mut data = Data::new();
    for y in 0..45 {
        data.map.sensor_data[7][y] = SensorData::Blocked;
    }
    let from = Position { x: 5, y: 5 };
    let to = Position { x: 9, y: 5 };
    let path = PathFinder::find_path(&data.map, &from, &to, &Orientation::East, &world());
    assert!(path.is_empty());
}

#[test]
fn the_first_action_is_a_scan_all_around() {
    let mut data = Data::new();
    assert_eq!(get_next_action(&mut data, &at(Position { x: 5, y: 5 }, 0)), Action::Scan(ScanType::Omni));
    assert_eq!(data.map.actions_since_last_scan_northwest, 101);
}

#[test]
fn a_fresh_track_within_reach_is_shot_at() {
    let mut data = Data::new();
    data.map.tracks.push(Track { x: 30, y: 30, timestamp: 4 });
    data.map.tracks.push(Track { x: 7, y: 6, timestamp: 4 });
    data.map.tracks.push(Track { x: 6, y: 5, timestamp: 4 });
    assert_eq!(
        get_next_action(&mut data, &at(Position { x: 5, y: 5 }, 4)),
        Action::Fire(Aiming::Positional(Position { x: 7, y: 6 }))
    );
    assert_eq!(data.map.tracks.len(), 3);
}

#[test]
fn a_recent_track_within_reach_calls_for_a_scan() {
    let mut data = Data::new();
    data.map.tracks.push(Track { x: 6, y: 5, timestamp: 3 });
    assert_eq!(danger_close(&mut data, &at(Position { x: 5, y: 5 }, 4)), Some(Action::Scan(ScanType::Omni)));
    assert_eq!(data.map.tracks.len(), 1);
}

#[test]
fn old_tracks_are_forgotten() {
    let mut data = Data::new();
    data.map.tracks.push(Track { x: 6, y: 5, timestamp: 1 });
    assert_eq!(danger_close(&mut data, &at(Position { x: 5, y: 5 }, 4)), None);
    assert!(data.map.tracks.is_empty());
}

#[test]
fn a_stale_diagonal_is_scanned_again() {
    let mut data = Data::new();
    data.map.initial_scan_done = true;
    data.map.actions_since_last_scan_northwest = 3;
    data.map.actions_since_last_scan_northeast = 9;
    data.map.actions_since_last_scan_southeast = 0;
    data.map.actions_since_last_scan_southwest = 12;
    assert_eq!(
        keep_scans_fresh(&mut data, &at(Position { x: 5, y: 5 }, 4)),
        Some(Action::Scan(ScanType::Mono(Orientation::NorthEast)))
    );
    data.map.actions_since_last_scan_northeast = 0;
    data.map.actions_since_last_scan_southwest = 8;
    assert_eq!(keep_scans_fresh(&mut data, &at(Position { x: 5, y: 5 }, 4)), None);
}

#[test]
fn a_way_around_a_wall_visits_no_cell_twice() {
    let mut data = Data::new();
    for y in 0..45 {
        if y != 30 {
            data.map.sensor_data[7][y] = SensorData::Blocked;
        }
    }
    let from = Position { x: 5, y: 5 };
    let to = Position { x: 9, y: 5 };
    let path = PathFinder::find_path(&data.map, &from, &to, &Orientation::East, &world());
    assert!(!path.is_empty());
    for i in 0..path.len() {
        assert_ne!(path[i], from);
        for j in (i + 1)..path.len() {
            assert_ne!(path[i], path[j]);
        }
    }
}

#[test]
fn the_default_distance_is_the_same_both_ways() {
    let data = Data::new();
    let a = Position { x: 0, y: 0 };
    let b = Position { x: 3, y: 4 };
    let c = Position { x: 1, y: 1 };
    assert_eq!(data.map.distance(&a, &b), 5);
    assert_eq!(data.map.distance(&b, &a), 5);
    assert_eq!(data.map.distance(&a, &c), 1);
    assert_eq!(data.map.distance(&c, &a), 1);
    assert_eq!(data.map.distance(&b, &b), 0);
    assert_ne!(data.map.distance(&a, &Position { x: 0, y: 1 }), 0);
}

#[test]
fn the_default_turning_cost_counts_the_fewest_turns() {
    let data = Data::new();
    assert_eq!(data.map.turning_steps(&Orientation::North, &Orientation::North), 0);
    assert_eq!(data.map.turning_steps(&Orientation::North, &Orientation::NorthWest), 1);
    assert_eq!(data.map.turning_steps(&Orientation::North, &Orientation::East), 2);
    assert_eq!(data.map.turning_steps(&Orientation::East, &Orientation::North), 2);
    assert_eq!(data.map.turning_steps(&Orientation::North, &Orientation::South), 4);
    assert_eq!(data.map.turning_steps(&Orientation::West, &Orientation::SouthEast), 3);
}

#[test]
fn a_straight_open_row_comes_back_straight() {
    let data = Data::new();
    let path = PathFinder::find_path(
        &data.map,
        &Position { x: 0, y: 0 },
        &Position { x: 3, y: 0 },
        &Orientation::North,
        &WorldSize { x: 10, y: 10 },
    );
    assert_eq!(path, vec![Position { x: 3, y: 0 }, Position { x: 2, y: 0 }, Position { x: 1, y: 0 }]);
}
