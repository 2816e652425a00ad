use vstd::prelude::*;

use super::rotation::Rotation;

verus! {

#[derive(Clone, Copy, Debug, Default, Hash, PartialEq, Eq, PartialOrd, Ord, Structural)]
pub enum Orientation {
    #[default]
    North,
    NorthEast,
    East,
    SouthEast,
    South,
    SouthWest,
    West,
    NorthWest,
}

/// The position of an orientation on the compass, counted clockwise from North.
pub open spec fn orientation_index(o: Orientation) -> int {
    match o {
        Orientation::North => 0,
        Orientation::NorthEast => 1,
        Orientation::East => 2,
        Orientation::SouthEast => 3,
        Orientation::South => 4,
        Orientation::SouthWest => 5,
        Orientation::West => 6,
        Orientation::NorthWest => 7,
    }
}

/// The orientation at a compass index; every index from 7 up names North-West.
pub open spec fn orientation_at(i: int) -> Orientation {
    if i <= 0 {
        Orientation::North
    } else if i == 1 {
        Orientation::NorthEast
    } else if i == 2 {
        Orientation::East
    } else if i == 3 {
        Orientation::SouthEast
    } else if i == 4 {
        Orientation::South
    } else if i == 5 {
        Orientation::SouthWest
    } else if i == 6 {
        Orientation::West
    } else {
        Orientation::NorthWest
    }
}

/// The orientation reached after one turn in the given direction.
pub open spec fn turned(o: Orientation, r: Rotation) -> Orientation {
    match r {
        Rotation::Clockwise => orientation_at((orientation_index(o) + 1) % 8),
        Rotation::CounterClockwise => orientation_at((orientation_index(o) + 7) % 8),
    }
}

/// The orientation reached after `n` turns in the given direction.
pub open spec fn turned_times(o: Orientation, r: Rotation, n: nat) -> Orientation
    decreases n,
{
    if n == 0 {
        o
    } else {
        turned(turned_times(o, r, (n - 1) as nat), r)
    }
}

/// The result of `quick_turn`: turn counter-clockwise when the other orientation lies
/// fewer than four counter-clockwise steps away, otherwise clockwise.
pub open spec fn quick_turn_spec(a: Orientation, b: Orientation) -> (Rotation, int) {
    let ccw = (orientation_index(a) - orientation_index(b) + 8) % 8;
    if ccw < 4 {
        (Rotation::CounterClockwise, ccw)
    } else {
        (Rotation::Clockwise, 8 - ccw)
    }
}

impl Orientation {
    pub fn get_cardinal_direction_count() -> (r: usize)
        ensures
            r == 8,
    {
        8
    }

    pub fn rotated_clockwise(&self) -> (r: Self)
        ensures
            r == turned(*self, Rotation::Clockwise),
    {
        match self {
            Self::North => Self::NorthEast,
            Self::NorthEast => Self::East,
            Self::East => Self::SouthEast,
            Self::SouthEast => Self::South,
            Self::South => Self::SouthWest,
            Self::SouthWest => Self::West,
            Self::West => Self::NorthWest,
            Self::NorthWest => Self::North,
        }
    }

    pub fn rotated_counter_clockwise(&self) -> (r: Self)
        ensures
            r == turned(*self, Rotation::CounterClockwise),
    {
        match self {
            Self::North => Self::NorthWest,
            Self::NorthWest => Self::West,
            Self::West => Self::SouthWest,
            Self::SouthWest => Self::South,
            Self::South => Self::SouthEast,
            Self::SouthEast => Self::East,
            Self::East => Self::NorthEast,
            Self::NorthEast => Self::North,
        }
    }

    pub fn opposite(&self) -> (r: Self)
        ensures
            r == orientation_at((orientation_index(*self) + 4) % 8),
    {
        match self {
            Self::North => Self::South,
            Self::NorthEast => Self::SouthWest,
            Self::East => Self::West,
            Self::SouthEast => Self::NorthWest,
            Self::South => Self::North,
            Self::SouthWest => Self::NorthEast,
            Self::West => Self::East,
            Self::NorthWest => Self::SouthEast,
        }
    }

    /// The position of an orientation on the compass, counted clockwise from North.
    pub fn index(&self) -> (r: usize)
        ensures
            r as int == orientation_index(*self),
    {
        match self {
            Orientation::North => 0,
            Orientation::NorthEast => 1,
            Orientation::East => 2,
            Orientation::SouthEast => 3,
            Orientation::South => 4,
            Orientation::SouthWest => 5,
            Orientation::West => 6,
            Orientation::NorthWest => 7,
        }
    }

    /// Computes the fastest way to turn towards a new `Orientation`.
    ///
    /// The result is a tuple containing the Rotation and the number of
    /// steps to repeat the same rotation in order to change orientation
    /// to the desired one.
    pub fn quick_turn(&self, other: &Self) -> (r: (Rotation, usize))
        ensures
            r.0 == quick_turn_spec(*self, *other).0,
            r.1 as int == quick_turn_spec(*self, *other).1,
    {
        let mut my_index: usize = self.index();
        let their_index: usize = other.index();

        if my_index < their_index {
            my_index += Orientation::get_cardinal_direction_count();
        }

        let mut delta = my_index - their_index;
        let rotation = if delta < 4 {
            Rotation::CounterClockwise
        } else {
            Rotation::Clockwise
        };
        if delta > 4 {
            delta = Orientation::get_cardinal_direction_count() - delta;
        }

        (rotation, delta)
    }

    /// The name under which an orientation is shown to people.
    pub fn label(&self) -> (r: &'static str)
        ensures
            r@.len() == 3,
            *self == Orientation::North ==> r@ == " N "@,
            *self == Orientation::NorthEast ==> r@ == "N-E"@,
            *self == Orientation::East ==> r@ == " E "@,
            *self == Orientation::SouthEast ==> r@ == "S-E"@,
            *self == Orientation::South ==> r@ == " S "@,
            *self == Orientation::SouthWest ==> r@ == "S-W"@,
            *self == Orientation::West ==> r@ == " W "@,
            *self == Orientation::NorthWest ==> r@ == "N-W"@,
    {
        proof {
            reveal_strlit(" N ");
            reveal_strlit("N-E");
            reveal_strlit(" E ");
            reveal_strlit("S-E");
            reveal_strlit(" S ");
            reveal_strlit("S-W");
            reveal_strlit(" W ");
            reveal_strlit("N-W");
        }
        match self {
            Self::North => " N ",
            Self::NorthEast => "N-E",
            Self::East => " E ",
            Self::SouthEast => "S-E",
            Self::South => " S ",
            Self::SouthWest => "S-W",
            Self::West => " W ",
            Self::NorthWest => "N-W",
        }
    }
}

impl From<usize> for Orientation {
    fn from(value: usize) -> (r: Self) {
        match value {
            0 => Self::North,
            1 => Self::NorthEast,
            2 => Self::East,
            3 => Self::SouthEast,
            4 => Self::South,
            5 => Self::SouthWest,
            6 => Self::West,
            _ => Self::NorthWest,
        }
    }
}

impl vstd::std_specs::convert::FromSpecImpl<usize> for Orientation {
    open spec fn obeys_from_spec() -> bool {
        true
    }

    open spec fn from_spec(v: usize) -> Orientation {
        orientation_at(v as int)
    }
}

impl<'a> From<&'a Orientation> for usize {
    fn from(value: &'a Orientation) -> (r: Self) {
        match value {
            Orientation::North => 0,
            Orientation::NorthEast => 1,
            Orientation::East => 2,
            Orientation::SouthEast => 3,
            Orientation::South => 4,
            Orientation::SouthWest => 5,
            Orientation::West => 6,
            Orientation::NorthWest => 7,
        }
    }
}

impl<'a> vstd::std_specs::convert::FromSpecImpl<&'a Orientation> for usize {
    open spec fn obeys_from_spec() -> bool {
        true
    }

    open spec fn from_spec(v: &'a Orientation) -> usize {
        orientation_index(*v) as usize
    }
}

/// Turning clockwise undoes a counter-clockwise turn, and the other way round.
pub proof fn lemma_turns_cancel(o: Orientation)
    ensures
        turned(turned(o, Rotation::Clockwise), Rotation::CounterClockwise) == o,
        turned(turned(o, Rotation::CounterClockwise), Rotation::Clockwise) == o,
{
}

/// The compass index `n` clockwise steps after index `i`.
pub open spec fn index_after_clockwise(i: int, n: int) -> int {
    (i + n) % 8
}

/// The compass index `n` counter-clockwise steps after index `i`.
pub open spec fn index_after_counter_clockwise(i: int, n: int) -> int {
    (i - n) % 8
}

/// The compass index reached after `n` turns: `n` more for clockwise turns, `n` fewer
/// for counter-clockwise ones, counted modulo eight.
#[verifier::rlimit(60)]
pub proof fn lemma_turned_times_index(o: Orientation, r: Rotation, n: nat)
    ensures
        r == Rotation::Clockwise ==> turned_times(o, r, n) == orientation_at(
            index_after_clockwise(orientation_index(o), n as int),
        ),
        r == Rotation::CounterClockwise ==> turned_times(o, r, n) == orientation_at(
            index_after_counter_clockwise(orientation_index(o), n as int),
        ),
    decreases n,
{
    if n > 0 {
        lemma_turned_times_index(o, r, (n - 1) as nat);
        let i = orientation_index(o);
        let prev = turned_times(o, r, (n - 1) as nat);
        if r == Rotation::Clockwise {
            let k = index_after_clockwise(i, n - 1);
            assert(0 <= k < 8);
            lemma_index_roundtrip(prev, k);
            assert(orientation_index(prev) == k);
            assert((k + 1) % 8 == index_after_clockwise(i, n as int));
        } else {
            let k = index_after_counter_clockwise(i, n - 1);
            assert(0 <= k < 8);
            lemma_index_roundtrip(prev, k);
            assert(orientation_index(prev) == k);
            assert((k + 7) % 8 == index_after_counter_clockwise(i, n as int));
        }
    }
}

/// Eight turns in the same direction lead back to the start, and four lead to the opposite.
pub proof fn lemma_full_circle(o: Orientation, r: Rotation)
    ensures
        turned_times(o, r, 8) == o,
        turned_times(o, r, 4) == orientation_at((orientation_index(o) + 4) % 8),
{
    lemma_turned_times_index(o, r, 8);
    lemma_turned_times_index(o, r, 4);
}

/// The compass index and the orientation at an index undo each other.
pub proof fn lemma_index_roundtrip(o: Orientation, i: int)
    ensures
        orientation_at(orientation_index(o)) == o,
        0 <= i < 8 ==> orientation_index(orientation_at(i)) == i,
        0 <= orientation_index(o) < 8,
{
}

/// Distinct compass indices name distinct orientations.
pub proof fn lemma_at_injective(i: int, j: int)
    requires
        0 <= i < 8,
        0 <= j < 8,
        orientation_at(i) == orientation_at(j),
    ensures
        i == j,
{
}

/// The arithmetic behind `quick_turn`: the chosen number of steps lands on the target index
/// and no smaller number of steps does, in either direction.
proof fn lemma_quick_turn_arith(ia: int, ib: int)
    requires
        0 <= ia < 8,
        0 <= ib < 8,
    ensures
        ({
            let ccw = (ia - ib + 8) % 8;
            &&& ccw < 4 ==> (ia - ccw) % 8 == ib
            &&& ccw >= 4 ==> (ia + (8 - ccw)) % 8 == ib
            &&& forall|n: int|
                #![trigger index_after_clockwise(ia, n)]
                #![trigger index_after_counter_clockwise(ia, n)]
                0 <= n < (if ccw < 4 { ccw } else { 8 - ccw }) ==> index_after_clockwise(ia, n)
                    != ib && index_after_counter_clockwise(ia, n) != ib
        }),
{
}

/// `quick_turn` reaches the other orientation: turning the given way the given number of
/// times leads there, in at most four steps, and no turn in either direction gets there
/// in fewer steps.
#[verifier::rlimit(40)]
pub proof fn lemma_quick_turn_reaches(a: Orientation, b: Orientation)
    ensures
        turned_times(a, quick_turn_spec(a, b).0, quick_turn_spec(a, b).1 as nat) == b,
        0 <= quick_turn_spec(a, b).1 <= 4,
        forall|r: Rotation, n: nat|
            n < quick_turn_spec(a, b).1 ==> #[trigger] turned_times(a, r, n) != b,
{
    let q = quick_turn_spec(a, b);
    let ia = orientation_index(a);
    let ib = orientation_index(b);
    lemma_quick_turn_arith(ia, ib);
    lemma_turned_times_index(a, q.0, q.1 as nat);
    lemma_index_roundtrip(b, 0);
    assert forall|r: Rotation, n: nat| n < q.1 implies #[trigger] turned_times(a, r, n) != b by {
        lemma_turned_times_index(a, r, n);
        let k = if r == Rotation::Clockwise {
            index_after_clockwise(ia, n as int)
        } else {
            index_after_counter_clockwise(ia, n as int)
        };
        if turned_times(a, r, n) == b {
            lemma_at_injective(k, ib);
        }
    }
}

} // verus!
