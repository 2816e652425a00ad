use rusty_battle_tank::api::action::Action;
use rusty_battle_tank::api::aiming::Aiming;
use rusty_battle_tank::api::context::Context;
use rusty_battle_tank::api::direction::Direction;
use rusty_battle_tank::api::map_cell::{MapCell, Terrain};
use rusty_battle_tank::api::orientation::Orientation;
use rusty_battle_tank::api::player::{Details, Player};
use rusty_battle_tank::api::position::{Position, SCANNING_DISTANCE};
use rusty_battle_tank::api::rotation::Rotation;
use rusty_battle_tank::api::scan::{ScanResult, ScanType};
use rusty_battle_tank::api::world_size::WorldSize;
use rusty_battle_tank::chance::{chance, number_between, weighted_index, weighted_sample};
use rusty_battle_tank::players::arola::map::WorldMap;
use rusty_battle_tank::players::arola::Arola;
use rusty_battle_tank::players::fox::TwentyCenturyFox;
use rusty_battle_tank::players::karjalainen::evaluator::Evaluator;
use rusty_battle_tank::players::karjalainen::Miklas;
use rusty_battle_tank::players::moykkynen::positionbuffer::PositionBuffer;
use rusty_battle_tank::players::moykkynen::Joonas;
use rusty_battle_tank::players::niemisto::{decide, last_character};
use rusty_battle_tank::players::rantala::PlayerTeemu;
use rusty_battle_tank::players::salonen::Es;
use rusty_battle_tank::players::player::{Action as OldAction, Rotation as OldRotation};

fn context(previous_action: Action, position: Position, scan: Option<ScanResult>, turn: usize) -> Context {
    Context::new(
        100,
        1000,
        previous_action,
        Details::new('A', 1),
        position,
        scan,
        turn,
        WorldSize { x: 60, y: 45 },
    )
}

fn field_scan(scan_type: ScanType) -> ScanResult {
    ScanResult {
        scan_type,
        data: Box::new([[MapCell::Terrain(Terrain::Field); SCANNING_DISTANCE]; SCANNING_DISTANCE]),
    }
}

#[test]
fn a_still_position_fills_the_buffer_and_stays_recognised() {
    let mut b = PositionBuffer::new();
    let p = Position { x: 4, y: 4 };
    assert!(!b.is_full());
    assert!(!b.all_equal());
    for _ in 0..9 {
        b.push(p);
    }
    assert!(!b.is_full());
    assert!(b.all_equal());
    b.push(p);
    assert!(b.is_full());
    assert!(b.all_equal());
    b.push(p);
    assert!(b.is_full());
    assert!(b.all_equal());
    assert_eq!(Some(p), b._last());
    b.push(Position { x: 5, y: 4 });
    assert!(!b.all_equal());
}

#[test]
fn joonas_scans_all_around_after_idling_and_turning() {
    let mut j = Joonas::new();
    let here = Position { x: 10, y: 10 };
    assert_eq!(Action::Scan(ScanType::Omni), j.act(context(Action::Idle, here, None, 1)));
    assert_eq!(
        Action::Scan(ScanType::Omni),
        j.act(context(Action::Rotate(Rotation::Clockwise), here, None, 2))
    );
    assert_eq!(
        Action::Scan(ScanType::Mono(Orientation::North)),
        j.act(context(Action::Fire(Aiming::Cardinal(Orientation::East)), here, None, 3))
    );
}

#[test]
fn joonas_shoots_a_tank_within_reach() {
    let mut j = Joonas::new();
    let here = Position { x: 20, y: 20 };
    let mut scan = field_scan(ScanType::Omni);
    scan.data[7][7] = MapCell::Player(Details::new('A', 1), Terrain::Field);
    scan.data[7][10] = MapCell::Player(Details::new('B', 2), Terrain::Field);
    let action = j.act(context(Action::Scan(ScanType::Omni), here, Some(scan), 1));
    assert_eq!(Action::Fire(Aiming::Positional(Position { x: 23, y: 20 })), action);
}

#[test]
fn joonas_drives_onto_open_field() {
    let mut j = Joonas::new();
    let here = Position { x: 20, y: 20 };
    let scan = field_scan(ScanType::Omni);
    let action = j.act(context(Action::Scan(ScanType::Omni), here, Some(scan), 1));
    assert_eq!(Action::Move(Direction::Forward), action);
}

#[test]
fn arola_starts_with_an_omni_scan_then_scans_diagonally() {
    let mut a = Arola::new();
    let here = Position { x: 20, y: 20 };
    assert_eq!(Action::Scan(ScanType::Omni), a.act(context(Action::Idle, here, None, 1)));
    // Without a scan to read, it scans the next diagonal clockwise from North.
    assert_eq!(
        Action::Scan(ScanType::Mono(Orientation::NorthEast)),
        a.act(context(Action::Scan(ScanType::Omni), here, None, 2))
    );
    assert_eq!(
        Action::Scan(ScanType::Mono(Orientation::SouthEast)),
        a.act(context(Action::Scan(ScanType::Omni), here, None, 3))
    );
}

#[test]
fn arola_attacks_a_tank_it_sees() {
    let mut a = Arola::new();
    let here = Position { x: 20, y: 20 };
    a.act(context(Action::Idle, here, None, 1));
    let mut scan = field_scan(ScanType::Omni);
    scan.data[7][7] = MapCell::Player(Details::new('A', 1), Terrain::Field);
    scan.data[9][8] = MapCell::Player(Details::new('B', 2), Terrain::Field);
    assert_eq!(
        Action::Fire(Aiming::Positional(Position { x: 21, y: 22 })),
        a.act(context(Action::Scan(ScanType::Omni), here, Some(scan), 2))
    );
}

#[test]
fn arola_routes_lead_through_open_cells() {
    let mut map = WorldMap::new();
    let scan = {
        let mut s = field_scan(ScanType::Omni);
        // A wall of lake east of the tank, with a gap at the bottom row.
        for y in 0..SCANNING_DISTANCE - 1 {
            s.data[y][9] = MapCell::Terrain(Terrain::Lake);
        }
        s
    };
    let here = Position { x: 10, y: 10 };
    map.collect_data(&scan, &here);
    let target = Position { x: 14, y: 10 };
    let path = map.find_path(here, Orientation::East, &target).unwrap();
    assert_eq!(target, *path.last().unwrap());
    let mut previous = here;
    for p in &path {
        assert!(previous.x.abs_diff(p.x) <= 1 && previous.y.abs_diff(p.y) <= 1);
        assert_ne!(previous, *p);
        assert!(matches!(
            map.get_cell(p),
            MapCell::Terrain(Terrain::Field) | MapCell::Unallocated
        ));
        previous = *p;
    }
    assert!(map.find_path(here, Orientation::East, &here).is_none());
}

#[test]
fn fox_plans_and_counts_its_shots() {
    let mut f = TwentyCenturyFox::new();
    let here = Position { x: 20, y: 20 };
    assert_eq!(Action::Scan(ScanType::Omni), f.act(context(Action::Idle, here, None, 1)));
    // Facing North onto open field: it plans to drive forward.
    let scan = field_scan(ScanType::Omni);
    assert_eq!(
        Action::Move(Direction::Forward),
        f.act(context(Action::Scan(ScanType::Omni), here, Some(scan), 2))
    );
    // After a turn it fires ahead three times, then scans.
    for turn in 3..6 {
        assert_eq!(
            Action::Fire(Aiming::Cardinal(Orientation::North)),
            f.act(context(Action::Rotate(Rotation::Clockwise), here, None, turn))
        );
    }
    assert_eq!(
        Action::Scan(ScanType::Omni),
        f.act(context(Action::Rotate(Rotation::Clockwise), here, None, 6))
    );
}

#[test]
fn miklas_prefers_a_kind_of_move_it_knows() {
    let mut m = Miklas::new();
    let here = Position { x: 20, y: 20 };
    let action = m.act(context(Action::Idle, here, None, 1));
    // Nothing known ahead: the only move is a scan ahead.
    assert_eq!(Action::Scan(ScanType::Mono(Orientation::North)), action);
}

#[test]
fn miklas_shoots_at_a_tank_it_saw() {
    let mut m = Miklas::new();
    let here = Position { x: 20, y: 20 };
    let mut scan = field_scan(ScanType::Omni);
    scan.data[7][7] = MapCell::Player(Details::new('A', 1), Terrain::Field);
    scan.data[7][9] = MapCell::Player(Details::new('B', 2), Terrain::Field);
    let action = m.act(context(Action::Scan(ScanType::Omni), here, Some(scan), 1));
    // The move is weighed on the map as it was before this scan: nothing known ahead.
    assert!(
        action == Action::Fire(Aiming::Positional(Position { x: 22, y: 20 }))
            || action == Action::Scan(ScanType::Mono(Orientation::North))
    );
}

#[test]
fn evaluator_scores_a_scan_length_from_the_edge_best() {
    let world = WorldSize { x: 60, y: 45 };
    assert_eq!(300, Evaluator::evaluate_position(&world, &Position { x: 15, y: 20 }));
    assert_eq!(150, Evaluator::evaluate_position(&world, &Position { x: 0, y: 20 }));
    assert_eq!(250, Evaluator::evaluate_position(&world, &Position { x: 20, y: 20 }));
}

#[test]
fn niemisto_reads_the_last_character_and_fires() {
    assert_eq!('b', last_character(&[b'a', b'b', 0, 0]));
    assert_eq!('\0', last_character(&[0, 0]));
    assert_eq!('\0', last_character(&[]));
    assert!(matches!(decide(false, 'a'), (OldAction::Fire, false)));
    assert!(matches!(decide(true, 'a'), (OldAction::Rotate(OldRotation::Clockwise), false)));
}

#[test]
fn teemu_idles() {
    let mut t = PlayerTeemu::new();
    assert_eq!(Action::Idle, t.act(context(Action::Idle, Position { x: 1, y: 1 }, None, 1)));
}

#[test]
fn draws_stay_within_their_bounds() {
    assert!(chance(3, 3));
    assert!(!chance(0, 3));
    for _ in 0..20 {
        assert_eq!(3, number_between(3, 4));
        let n = number_between(5, 9);
        assert!(5 <= n && n < 9);
    }
}

#[test]
fn weighted_draws_never_pick_a_zero_weight() {
    assert!(weighted_index(&vec![]).is_none());
    assert!(weighted_index(&vec![0, 0]).is_none());
    assert!(weighted_index(&vec![3, -1]).is_none());
    let d = weighted_index(&vec![0, 5, 0]).unwrap();
    for _ in 0..20 {
        assert_eq!(1, weighted_sample(&d));
    }
}

#[test]
fn es_keeps_nothing_of_its_first_turn() {
    let mut e = Es::new();
    let here = Position { x: 10, y: 10 };
    assert_eq!(
        Action::Scan(ScanType::Omni),
        e.act(context(Action::Idle, here, Some(field_scan(ScanType::Omni)), 1))
    );
    assert_eq!(Action::Idle, e.act(context(Action::Scan(ScanType::Omni), here, None, 2)));
}
