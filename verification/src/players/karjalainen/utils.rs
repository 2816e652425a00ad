use vstd::prelude::*;

use crate::api::orientation::Orientation;
use crate::api::position::Position;

verus! {

/// The orientation `get_orientation_to_pos` reads off the offset of `target` from `me`:
/// the compass direction of a neighbouring offset, and South-East otherwise.
pub open spec fn orientation_of_offset(me: Position, target: Position) -> Orientation {
    let dx = target.x - me.x;
    let dy = target.y - me.y;
    if dx == -1 && dy == -1 {
        Orientation::NorthWest
    } else if dx == 0 && dy == -1 {
        Orientation::North
    } else if dx == -1 && dy == 0 {
        Orientation::West
    } else if dx == 1 && dy == 0 {
        Orientation::East
    } else if dx == 0 && dy == 1 {
        Orientation::South
    } else if dx == 1 && dy == -1 {
        Orientation::NorthEast
    } else if dx == -1 && dy == 1 {
        Orientation::SouthWest
    } else {
        Orientation::SouthEast
    }
}

impl Position {
    /// Each coordinate that is not zero becomes one.
    pub(super) fn direction_normalize(self) -> (r: Self)
        ensures
            r.x == (if self.x != 0 {
                1usize
            } else {
                0
            }),
            r.y == (if self.y != 0 {
                1usize
            } else {
                0
            }),
    {
        let mut p = self;
        if p.x != 0 {
            p.x = p.x / p.x;
        }
        if p.y != 0 {
            p.y = p.y / p.y;
        }
        return p;
    }

    pub(super) fn get_orientation_to_pos(&self, target: &Position) -> (r: Orientation)
        requires
            self.fits(),
            target.fits(),
        ensures
            r == orientation_of_offset(*self, *target),
    {
        match target.manhattan_distance(self) {
            (-1, -1) => Orientation::NorthWest,
            (0, -1) => Orientation::North,
            (-1, 0) => Orientation::West,
            (1, 0) => Orientation::East,
            (0, 1) => Orientation::South,
            (1, -1) => Orientation::NorthEast,
            (-1, 1) => Orientation::SouthWest,
            (1, 1) => Orientation::SouthEast,
            (_, _) => {
                return Orientation::SouthEast;
            },
        }
    }
}

} // verus!
