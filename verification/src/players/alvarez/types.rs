use vstd::prelude::*;

use crate::api::orientation::{orientation_at, Orientation};

verus! {

impl Orientation {
    /// Returns all 8 orientations in clockwise order
    pub fn all() -> (r: [Orientation; 8])
        ensures
            forall|i: int| 0 <= i < 8 ==> #[trigger] r@[i] == orientation_at(i),
    {
        [
            Orientation::North,
            Orientation::NorthEast,
            Orientation::East,
            Orientation::SouthEast,
            Orientation::South,
            Orientation::SouthWest,
            Orientation::West,
            Orientation::NorthWest,
        ]
    }

    /// Returns the 4 cardinal orientations
    pub fn cardinals() -> (r: [Orientation; 4])
        ensures
            forall|i: int| 0 <= i < 4 ==> #[trigger] r@[i] == orientation_at(2 * i),
    {
        [Orientation::North, Orientation::East, Orientation::South, Orientation::West]
    }

    /// Returns the 4 diagonal orientations
    pub fn diagonals() -> (r: [Orientation; 4])
        ensures
            forall|i: int| 0 <= i < 4 ==> #[trigger] r@[i] == orientation_at(2 * i + 1),
    {
        [
            Orientation::NorthEast,
            Orientation::SouthEast,
            Orientation::SouthWest,
            Orientation::NorthWest,
        ]
    }
}

} // verus!
