use rusty_battle_tank::players::player::{Orientation, Rotation};

#[test]
fn player_test_orientation_quick_turn() {
    let a = Orientation::North;
    let b = Orientation::SouthWest;

    let steps = a.quick_turn(&b);
    assert_eq!((Rotation::CounterClockwise, 3), (steps.0, steps.1));

    let a = Orientation::West;
    let b = Orientation::North;

    let steps = a.quick_turn(&b);
    assert_eq!((Rotation::Clockwise, 2), (steps.0, steps.1));

    let a = Orientation::North;
    let b = Orientation::South;

    let steps = a.quick_turn(&b);
    assert_eq!((Rotation::Clockwise, 4), (steps.0, steps.1));

    let a = Orientation::West;
    let b = Orientation::West;

    let steps = a.quick_turn(&b);
    assert_eq!((Rotation::CounterClockwise, 0), (steps.0, steps.1));
}

#[test]
fn player_test_position_distance() {
    let a = rusty_battle_tank::players::player::Position { x: 2, y: 3 };
    let b = rusty_battle_tank::players::player::Position { x: 5, y: 7 };

    let manhattan = a.manhattan_distance(&b);
    let pythagorean = a.pythagorean_distance(&b);

    assert_eq!(3 + 4, manhattan);
    assert_eq!(5.0, pythagorean as f32);
}
