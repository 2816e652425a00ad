use rusty_battle_tank::api::action::Action;
use rusty_battle_tank::api::map_cell::{MapCell, Terrain};
use rusty_battle_tank::api::position::SCANNING_DISTANCE;
use rusty_battle_tank::api::scan::{ScanResult, ScanType};
use rusty_battle_tank::players::alvarez::scanner::ScanProces;
use rusty_battle_tank::players::alvarez::tanks::TanksTracker;
use rusty_battle_tank::api::aiming::Aiming;
use rusty_battle_tank::api::context::Context;
use rusty_battle_tank::api::direction::Direction;
use rusty_battle_tank::api::orientation::Orientation;
use rusty_battle_tank::api::player::Details;
use rusty_battle_tank::api::position::Position;
use rusty_battle_tank::api::rotation::Rotation;
use rusty_battle_tank::api::world_size::WorldSize;
use rusty_battle_tank::players::alvarez::strategy::{ActionLimits, CombatStrategy, LimitOverride};
use rusty_battle_tank::players::alvarez::tanks::TankInfo;

fn tank(id: u8, orientation: Orientation, sightings: Vec<(Position, u128, usize)>) -> TankInfo {
    TankInfo { id, alive: true, known_positions: sightings, orientation, prediction: None }
}

fn facing(orientation: Orientation) -> Context {
    let mut details = Details::new('A', 1);
    details.orientation = orientation;
    Context::new(
        100,
        1000,
        Action::Idle,
        details,
        Position { x: 10, y: 10 },
        None,
        5,
        WorldSize { x: 30, y: 30 },
    )
}

#[test]
fn the_closest_tank_in_positional_reach_is_shot_at() {
    let s = CombatStrategy::new();
    let me = Position { x: 10, y: 10 };
    let enemies = vec![
        tank(2, Orientation::North, vec![(Position { x: 12, y: 12 }, 8, 5)]),
        tank(3, Orientation::North, vec![(Position { x: 13, y: 9 }, 1, 5)]),
        tank(4, Orientation::North, vec![(Position { x: 11, y: 10 }, 0, 4)]),
    ];
    assert_eq!(
        s.find_best_shot(&me, &enemies, 5),
        Some(Action::Fire(Aiming::Positional(Position { x: 13, y: 9 })))
    );
}

#[test]
fn equally_close_tanks_leave_the_first_one_as_the_target() {
    let s = CombatStrategy::new();
    let me = Position { x: 10, y: 10 };
    let enemies = vec![
        tank(2, Orientation::North, vec![(Position { x: 12, y: 12 }, 8, 5)]),
        tank(3, Orientation::North, vec![(Position { x: 8, y: 8 }, 8, 5)]),
    ];
    assert_eq!(
        s.find_best_shot(&me, &enemies, 5),
        Some(Action::Fire(Aiming::Positional(Position { x: 12, y: 12 })))
    );
}

#[test]
fn a_far_tank_in_line_is_shot_at_cardinally() {
    let s = CombatStrategy::new();
    let me = Position { x: 10, y: 10 };
    let enemies = vec![
        tank(2, Orientation::North, vec![(Position { x: 22, y: 11 }, 145, 5)]),
        tank(3, Orientation::North, vec![(Position { x: 10, y: 22 }, 144, 5)]),
    ];
    assert_eq!(s.find_best_shot(&me, &enemies, 5), Some(Action::Fire(Aiming::Cardinal(Orientation::South))));
}

#[test]
fn tanks_seen_on_other_turns_are_not_shot_at() {
    let s = CombatStrategy::new();
    let me = Position { x: 10, y: 10 };
    let enemies = vec![
        tank(2, Orientation::North, vec![(Position { x: 11, y: 10 }, 1, 4)]),
        tank(3, Orientation::North, vec![]),
    ];
    assert_eq!(s.find_best_shot(&me, &enemies, 5), None);
}

#[test]
fn a_fire_line_stops_at_the_edge_and_after_eight_cells() {
    let s = CombatStrategy::new();
    let world = WorldSize { x: 30, y: 30 };
    let enemies = vec![tank(2, Orientation::North, vec![(Position { x: 3, y: 20 }, 0, 5)])];
    // The tank at (3, 20) faces north; turned either way it faces north-east or north-west,
    // and it is no neighbour of (10, 10), so no shot is aimed straight at it.
    let danger = s.danger_positions(&enemies, &Position { x: 10, y: 10 }, &world);
    for k in 1..=8 {
        assert!(danger.contains(&Position { x: 3 + k, y: 20 - k }));
    }
    assert!(!danger.contains(&Position { x: 12, y: 11 }));
    for k in 1..=3 {
        assert!(danger.contains(&Position { x: 3 - k, y: 20 - k }));
    }
    assert!(!danger.contains(&Position { x: 3, y: 19 }));
    assert!(!danger.contains(&Position { x: 3, y: 20 }));
}

#[test]
fn a_neighbour_aims_straight_through_the_tank() {
    let s = CombatStrategy::new();
    let world = WorldSize { x: 30, y: 30 };
    let enemies = vec![tank(2, Orientation::East, vec![(Position { x: 10, y: 11 }, 0, 5)])];
    let danger = s.danger_positions(&enemies, &Position { x: 10, y: 10 }, &world);
    for k in 1..=8 {
        assert!(danger.contains(&Position { x: 10, y: 11 - k }));
    }
    assert!(!danger.contains(&Position { x: 10, y: 1 }));
    assert!(danger.contains(&Position { x: 11, y: 12 }));
    assert!(danger.contains(&Position { x: 11, y: 10 }));
}

#[test]
fn turning_towards_a_cell_takes_the_short_way_then_drives() {
    let s = CombatStrategy::new();
    assert_eq!(
        s.actions_to_position(&facing(Orientation::North), &Orientation::West),
        vec![
            Action::Rotate(Rotation::CounterClockwise),
            Action::Rotate(Rotation::CounterClockwise),
            Action::Move(Direction::Forward),
        ]
    );
    assert_eq!(
        s.actions_to_position(&facing(Orientation::North), &Orientation::SouthEast),
        vec![
            Action::Rotate(Rotation::Clockwise),
            Action::Rotate(Rotation::Clockwise),
            Action::Rotate(Rotation::Clockwise),
            Action::Move(Direction::Forward),
        ]
    );
    assert_eq!(
        s.actions_to_position(&facing(Orientation::East), &Orientation::East),
        vec![Action::Move(Direction::Forward)]
    );
}

#[test]
fn a_scan_tracks_the_living_tanks_it_shows() {
    let mut data = Box::new([[MapCell::Terrain(Terrain::Field); SCANNING_DISTANCE]; SCANNING_DISTANCE]);
    data[7][7] = MapCell::Player(Details::new('A', 1), Terrain::Field);
    let mut enemy = Details::new('B', 2);
    enemy.orientation = Orientation::West;
    data[7][9] = MapCell::Player(enemy, Terrain::Field);
    let mut dead = Details::new('C', 3);
    dead.alive = false;
    data[3][3] = MapCell::Player(dead, Terrain::Field);
    let scan = ScanResult { scan_type: ScanType::Omni, data };

    let mut process = ScanProces::new(1, Position { x: 10, y: 10 });
    let mut tanks = TanksTracker::new(1);
    process.process(&mut tanks, &scan, 4, &Position { x: 10, y: 10 }, &WorldSize { x: 30, y: 30 });
    let found = tanks.enemies_found(4);
    assert_eq!(found.len(), 1);
    assert_eq!(found[0].id, 2);
    assert_eq!(found[0].orientation, Orientation::West);
    assert_eq!(found[0].known_positions, vec![(Position { x: 12, y: 10 }, 4, 4)]);
}

#[test]
fn a_long_run_of_moves_is_broken_by_a_scan_the_way_of_the_move() {
    let mut limits = ActionLimits::new();
    let ctx = facing(Orientation::East);
    let back = Action::Move(Direction::Backward);
    for _ in 0..3 {
        assert_eq!(limits.check_action_limits(&back, &ctx), None);
        limits.update_consecutive_counters(&back);
    }
    assert_eq!(limits.consecutive_moves, 3);
    assert_eq!(
        limits.check_action_limits(&back, &ctx),
        Some(LimitOverride::Act(Action::Scan(ScanType::Mono(Orientation::West))))
    );
    assert_eq!(limits.consecutive_moves, 0);
    assert_eq!(limits.consecutive_scans, 0);
}

#[test]
fn turns_count_as_moves_and_scans_end_the_run() {
    let mut limits = ActionLimits::new();
    let ctx = facing(Orientation::North);
    limits.update_consecutive_counters(&Action::Rotate(Rotation::Clockwise));
    limits.update_consecutive_counters(&Action::Move(Direction::Forward));
    limits.update_consecutive_counters(&Action::Rotate(Rotation::Clockwise));
    assert_eq!(
        limits.check_action_limits(&Action::Rotate(Rotation::Clockwise), &ctx),
        Some(LimitOverride::Act(Action::Scan(ScanType::Omni)))
    );
    limits.update_consecutive_counters(&Action::Scan(ScanType::Omni));
    limits.update_consecutive_counters(&Action::Scan(ScanType::Omni));
    assert_eq!(limits.consecutive_scans, 2);
    assert_eq!(limits.consecutive_moves, 0);
    assert_eq!(
        limits.check_action_limits(&Action::Scan(ScanType::Omni), &ctx),
        Some(LimitOverride::Reconsider)
    );
    limits.update_consecutive_counters(&Action::Idle);
    assert_eq!(limits.consecutive_scans, 0);
    assert_eq!(limits.check_action_limits(&Action::Idle, &ctx), None);
}

fn small_world() -> WorldSize {
    WorldSize { x: 6, y: 6 }
}

fn terrain_with_open_corner() -> rusty_battle_tank::players::alvarez::terrain::MappedTerrain {
    let mut t = rusty_battle_tank::players::alvarez::terrain::MappedTerrain::new(small_world());
    for p in [
        Position { x: 1, y: 1 },
        Position { x: 2, y: 1 },
        Position { x: 1, y: 2 },
        Position { x: 2, y: 2 },
    ] {
        t.update_tile(&p, &MapCell::Terrain(Terrain::Field), 1);
    }
    t
}

#[test]
fn unexplored_cells_come_row_by_row() {
    let t = rusty_battle_tank::players::alvarez::terrain::MappedTerrain::new(WorldSize { x: 4, y: 4 });
    assert_eq!(
        t.unexplored_cells(),
        vec![
            Position { x: 1, y: 1 },
            Position { x: 2, y: 1 },
            Position { x: 1, y: 2 },
            Position { x: 2, y: 2 },
        ]
    );
}

#[test]
fn an_open_cell_with_few_open_neighbours_is_a_choke_point() {
    let mut t = rusty_battle_tank::players::alvarez::terrain::MappedTerrain::new(small_world());
    let p = Position { x: 2, y: 2 };
    t.update_tile(&p, &MapCell::Terrain(Terrain::Field), 3);
    assert!(t.is_position_transitable(&p));
    assert!(!t.is_unexplored(&p));
    assert!(t.is_choke_point(&p));
    for q in [
        Position { x: 1, y: 1 },
        Position { x: 2, y: 1 },
        Position { x: 3, y: 1 },
    ] {
        t.update_tile(&q, &MapCell::Terrain(Terrain::Field), 4);
    }
    t.update_tile(&p, &MapCell::Terrain(Terrain::Field), 5);
    assert!(!t.is_choke_point(&p));
    assert_eq!(t.peek_terrain()[2][2].times_seen, 2);
    assert_eq!(t.peek_terrain()[2][2].last_seen_turn, 5);
}

#[test]
fn a_forest_next_door_is_noticed() {
    let mut t = rusty_battle_tank::players::alvarez::terrain::MappedTerrain::new(small_world());
    let p = Position { x: 2, y: 2 };
    assert!(!t.has_adjacent_forest(&p, &small_world()));
    t.update_tile(
        &Position { x: 3, y: 3 },
        &MapCell::Terrain(Terrain::Forest(rusty_battle_tank::api::map_cell::TreeType::Deciduous)),
        1,
    );
    assert!(t.has_adjacent_forest(&p, &small_world()));
}

#[test]
fn the_way_to_the_nearest_unexplored_cell_turns_then_drives() {
    let t = terrain_with_open_corner();
    let ctx = Context::new(
        100,
        1000,
        Action::Idle,
        Details::new('A', 1),
        Position { x: 2, y: 2 },
        None,
        1,
        small_world(),
    );
    assert_eq!(
        t.actions_to_nearest_unexplored(&ctx),
        Some(vec![Action::Rotate(Rotation::Clockwise), Action::Move(Direction::Forward)])
    );
}

#[test]
fn no_way_leads_off_unknown_ground() {
    let t = rusty_battle_tank::players::alvarez::terrain::MappedTerrain::new(small_world());
    let ctx = Context::new(
        100,
        1000,
        Action::Idle,
        Details::new('A', 1),
        Position { x: 2, y: 2 },
        None,
        1,
        small_world(),
    );
    assert_eq!(t.actions_to_nearest_unexplored(&ctx), None);
}

#[test]
fn the_one_unexplored_cell_next_door_is_reached() {
    let mut t = rusty_battle_tank::players::alvarez::terrain::MappedTerrain::new(WorldSize { x: 4, y: 4 });
    for p in [Position { x: 1, y: 1 }, Position { x: 2, y: 1 }, Position { x: 1, y: 2 }] {
        t.update_tile(&p, &MapCell::Terrain(Terrain::Field), 1);
    }
    let ctx = Context::new(
        100,
        1000,
        Action::Idle,
        Details::new('A', 1),
        Position { x: 1, y: 1 },
        None,
        1,
        WorldSize { x: 4, y: 4 },
    );
    assert_eq!(
        t.actions_to_nearest_unexplored(&ctx),
        Some(vec![
            Action::Rotate(Rotation::Clockwise),
            Action::Rotate(Rotation::Clockwise),
            Action::Rotate(Rotation::Clockwise),
            Action::Move(Direction::Forward),
        ])
    );
}

#[test]
fn a_new_cell_is_scanned_around_west_first() {
    let mut plan = rusty_battle_tank::players::alvarez::strategy::ActionPlan::new();
    assert_eq!(plan.scan_around(), Action::Scan(ScanType::Mono(Orientation::West)));
    assert_eq!(
        plan.cache,
        vec![
            Action::Scan(ScanType::Mono(Orientation::North)),
            Action::Scan(ScanType::Mono(Orientation::East)),
            Action::Scan(ScanType::Mono(Orientation::South)),
        ]
    );
}

#[test]
fn planned_actions_come_in_order_until_an_enemy_shows() {
    let mut plan = rusty_battle_tank::players::alvarez::strategy::ActionPlan::new();
    let ctx = facing(Orientation::North);
    assert_eq!(
        plan.adopt(
            Action::Rotate(Rotation::Clockwise),
            &vec![Action::Move(Direction::Forward), Action::Move(Direction::Forward), Action::Idle],
            &ctx
        ),
        LimitOverride::Act(Action::Rotate(Rotation::Clockwise))
    );
    assert_eq!(
        plan.cache,
        vec![
            Action::Move(Direction::Forward),
            Action::Move(Direction::Forward),
            Action::Scan(ScanType::Mono(Orientation::West)),
            Action::Scan(ScanType::Mono(Orientation::East)),
        ]
    );
    assert_eq!(plan.next_planned(true, &ctx), None);
    assert_eq!(plan.next_planned(false, &ctx), Some(LimitOverride::Act(Action::Move(Direction::Forward))));
    // a third move in a row is broken by a scan ahead, and the plan is dropped
    assert_eq!(
        plan.next_planned(false, &ctx),
        Some(LimitOverride::Act(Action::Scan(ScanType::Mono(Orientation::North))))
    );
    assert!(plan.cache.is_empty());
    assert_eq!(plan.next_planned(false, &ctx), None);
}

#[test]
fn a_shot_is_planned_twice_then_a_move() {
    let strategy = CombatStrategy::new();
    let fire = Action::Fire(Aiming::Cardinal(Orientation::East));
    let (now, plan) = strategy.decide_with_plan(
        None,
        Some(fire),
        None,
        Some(vec![Action::Move(Direction::Backward), Action::Idle]),
        Action::Idle,
        None,
    );
    assert_eq!(now, fire);
    assert_eq!(plan, vec![fire, Action::Move(Direction::Backward)]);
}

#[test]
fn an_escape_comes_before_a_shot_and_the_way_to_unexplored_ground_before_a_safe_step() {
    let strategy = CombatStrategy::new();
    let fire = Action::Fire(Aiming::Cardinal(Orientation::East));
    let (now, plan) = strategy.decide_with_plan(
        Some(vec![Action::Move(Direction::Forward), Action::Rotate(Rotation::Clockwise)]),
        Some(fire),
        None,
        None,
        Action::Idle,
        None,
    );
    assert_eq!(now, Action::Move(Direction::Forward));
    assert_eq!(plan, vec![Action::Rotate(Rotation::Clockwise)]);
    let (now, plan) = strategy.decide_with_plan(
        None,
        None,
        None,
        Some(vec![Action::Move(Direction::Backward)]),
        Action::Idle,
        Some(vec![Action::Rotate(Rotation::CounterClockwise), Action::Move(Direction::Forward)]),
    );
    assert_eq!(now, Action::Rotate(Rotation::CounterClockwise));
    assert_eq!(plan, vec![Action::Move(Direction::Forward)]);
    let (now, plan) = strategy.decide_with_plan(None, None, None, None, Action::Idle, None);
    assert_eq!(now, Action::Idle);
    assert!(plan.is_empty());
}
