use rusty_battle_tank::api::aiming::Aiming;
use rusty_battle_tank::api::orientation::Orientation;
use rusty_battle_tank::api::player::Details;
use rusty_battle_tank::api::position::{distance_along, floor_sqrt, Position};
use rusty_battle_tank::api::rotation::Rotation;
use rusty_battle_tank::api::world_size::WorldSize;
use rusty_battle_tank::engine::context::Context as EngineContext;
use rusty_battle_tank::engine::game::rank_by_score;
use rusty_battle_tank::engine::shell::{Shell, ShellState};
use rusty_battle_tank::table::PositionTable;
use rusty_battle_tank::text::push_char;

const ALL: [Orientation; 8] = [
    Orientation::North,
    Orientation::NorthEast,
    Orientation::East,
    Orientation::SouthEast,
    Orientation::South,
    Orientation::SouthWest,
    Orientation::West,
    Orientation::NorthWest,
];

#[test]
fn turning_back_undoes_a_turn() {
    for o in ALL {
        assert_eq!(o, o.rotated_clockwise().rotated_counter_clockwise());
        assert_eq!(o, o.rotated_counter_clockwise().rotated_clockwise());
    }
}

#[test]
fn eight_turns_make_a_full_circle() {
    for o in ALL {
        let mut c = o;
        for _ in 0..4 {
            c = c.rotated_clockwise();
        }
        assert_eq!(o.opposite(), c);
        for _ in 0..4 {
            c = c.rotated_clockwise();
        }
        assert_eq!(o, c);
    }
}

#[test]
fn quick_turn_reaches_the_other_orientation() {
    for a in ALL {
        for b in ALL {
            let (rotation, steps) = a.quick_turn(&b);
            assert!(steps <= 4);
            let mut c = a;
            for _ in 0..steps {
                c = match rotation {
                    Rotation::Clockwise => c.rotated_clockwise(),
                    Rotation::CounterClockwise => c.rotated_counter_clockwise(),
                };
            }
            assert_eq!(b, c);
        }
    }
}

#[test]
fn a_step_and_a_step_back_return() {
    let world = WorldSize { x: 10, y: 10 };
    let p = Position { x: 5, y: 5 };
    for o in ALL {
        let q = p.follow(&o, &world).unwrap();
        assert_eq!(Some(p), q.follow(&o.opposite(), &world));
    }
    // No step leads off the world.
    let corner = Position { x: 0, y: 0 };
    assert_eq!(None, corner.follow(&Orientation::North, &world));
    assert_eq!(None, corner.follow(&Orientation::West, &world));
}

#[test]
fn distances_between_positions() {
    let a = Position { x: 2, y: 3 };
    let b = Position { x: 5, y: 7 };
    assert_eq!(5, a.pythagorean_distance(&b));
    assert_eq!(4, distance_along(3, 7));
    assert_eq!(4, distance_along(7, 3));
    assert_eq!(12, floor_sqrt(168));
    assert_eq!(13, floor_sqrt(169));
    assert!(a.could_hit_positionally(&b));
    assert!(!a.could_hit_cardinally(&b));
    assert!(a.could_hit_cardinally(&Position { x: 6, y: 7 }));
    assert!(!a.could_hit_positionally(&a));
}

#[test]
fn a_table_gives_back_what_was_written() {
    let mut t: PositionTable<u32> = PositionTable::new();
    let p = Position { x: 1, y: 2 };
    let q = Position { x: 2, y: 1 };
    assert_eq!(None, t.get(&p));
    t.insert(p, 7);
    t.insert(q, 9);
    t.insert(p, 8);
    assert_eq!(Some(8), t.get(&p));
    assert_eq!(Some(9), t.get(&q));
    assert!(t.contains(&q));
}

#[test]
fn pushing_a_character_appends_it() {
    let mut s = String::from("ab");
    push_char(&mut s, 'c');
    assert_eq!("abc", s);
}

fn engine_context(id: u8) -> EngineContext {
    EngineContext::new(
        Details::new('A', id),
        Position { x: 3, y: 3 },
        WorldSize { x: 10, y: 10 },
    )
}

#[test]
fn damage_never_heals_and_kills_at_zero() {
    let mut c = engine_context(1);
    assert_eq!(100, c.health());
    c.damage_collision_forest();
    assert_eq!(90, c.health());
    let reward = c.damage_direct_hit(2);
    assert_eq!(15, c.health());
    assert_eq!(2, reward);
    let reward = c.damage_indirect_hit(2);
    assert_eq!(0, c.health());
    assert_eq!(1 + 3, reward);
    assert!(!c.player_details().alive);
    // A dead tank takes no more damage and gives no reward.
    let reward = c.damage_direct_hit(2);
    assert_eq!(0, c.health());
    assert_eq!(0, reward);
}

#[test]
fn hitting_oneself_earns_nothing() {
    let mut c = engine_context(1);
    assert_eq!(0, c.damage_direct_hit(1));
    assert_eq!(25, c.health());
}

#[test]
fn rotating_back_undoes_a_rotation() {
    let mut c = engine_context(1);
    let before = c.player_details().orientation;
    c.rotate(&Rotation::Clockwise);
    assert_eq!(Orientation::NorthEast, c.player_details().orientation);
    c.rotate(&Rotation::CounterClockwise);
    assert_eq!(before, c.player_details().orientation);
}

#[test]
fn survivors_and_hits_are_rewarded() {
    let mut c = engine_context(1);
    c.reward_survivor();
    c.reward_hits(3);
    assert_eq!(8, c.score());
}

#[test]
fn a_cardinal_shell_flies_forward_and_burns_out() {
    let world = WorldSize { x: 20, y: 20 };
    let mut shell = Shell::new(Aiming::Cardinal(Orientation::East), Position { x: 2, y: 2 });
    assert_eq!(ShellState::NotLaunched, shell.state());
    shell.evolve(&world);
    assert_eq!(ShellState::Flying, shell.state());
    shell.evolve(&world);
    assert_eq!(Some(Position { x: 3, y: 2 }), shell.pos());
    shell.evolve(&world);
    assert_eq!(Some(Position { x: 4, y: 2 }), shell.pos());
}

#[test]
fn a_positional_shell_lands_on_its_target() {
    let world = WorldSize { x: 20, y: 20 };
    let target = Position { x: 6, y: 7 };
    let mut shell = Shell::new(Aiming::Positional(target), Position { x: 2, y: 2 });
    shell.evolve(&world);
    shell.evolve(&world);
    assert_eq!(Some(target), shell.pos());
    assert!(shell.try_to_land());
    assert_eq!(ShellState::Impact, shell.state());
    shell.evolve(&world);
    assert_eq!(ShellState::Explosion, shell.state());
    shell.evolve(&world);
    assert_eq!(ShellState::Exploded, shell.state());
    shell.evolve(&world);
    assert_eq!(ShellState::Spent, shell.state());
    shell.evolve(&world);
    assert_eq!(ShellState::Spent, shell.state());
}

#[test]
fn ranks_follow_the_scores() {
    let ranks = rank_by_score(&vec![(1, 10), (2, 30), (3, 10), (4, 5)]);
    let rank_of = |id: u8| ranks.iter().find(|(p, _)| *p == id).unwrap().1;
    assert_eq!(1, rank_of(2));
    assert_eq!(2, rank_of(1));
    assert_eq!(2, rank_of(3));
    assert_eq!(3, rank_of(4));
    assert_eq!(4, ranks.len());
}

#[test]
fn the_largest_possible_score_still_ranks_first() {
    let ranks = rank_by_score(&vec![(1, u16::MAX), (2, 7), (3, u16::MAX), (4, 3)]);
    assert_eq!(ranks, vec![(1, 1), (2, 2), (3, 1), (4, 3)]);
}
