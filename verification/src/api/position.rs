use vstd::prelude::*;

use super::orientation::{orientation_at, orientation_index, Orientation};
use super::world_size::WorldSize;

verus! {

/// Specifies the size of the scanning data array. It should always be an odd number.
pub const SCANNING_DISTANCE: usize = 15;

/// Specifies the maximum range of a cardinal attack
pub const CARDINAL_SHOT_DISTANCE: usize = SCANNING_DISTANCE - 1;

/// Specifies the maximum range of a positional attack
pub const POSITIONAL_SHOT_DISTANCE: usize = CARDINAL_SHOT_DISTANCE / 2;

#[derive(Clone, Copy, Debug, Hash, PartialEq, Eq, PartialOrd, Ord, Structural)]
pub struct Position {
    pub x: usize,
    pub y: usize,
}

/// The change of the x coordinate when stepping towards an orientation.
pub open spec fn step_x(o: Orientation) -> int {
    match o {
        Orientation::East | Orientation::NorthEast | Orientation::SouthEast => 1,
        Orientation::West | Orientation::NorthWest | Orientation::SouthWest => -1,
        _ => 0,
    }
}

/// The change of the y coordinate when stepping towards an orientation (North is up).
pub open spec fn step_y(o: Orientation) -> int {
    match o {
        Orientation::North | Orientation::NorthWest | Orientation::NorthEast => -1,
        Orientation::South | Orientation::SouthWest | Orientation::SouthEast => 1,
        _ => 0,
    }
}

/// The absolute value of an integer.
pub open spec fn abs(v: int) -> int {
    if v < 0 {
        -v
    } else {
        v
    }
}

/// The magnitude of a signed value, as an unsigned one.
pub fn magnitude(v: isize) -> (r: usize)
    requires
        v > isize::MIN,
    ensures
        r == abs(v as int),
{
    if v < 0 {
        (-v) as usize
    } else {
        v as usize
    }
}

/// How far apart two coordinates lie on their axis.
pub fn distance_along(a: usize, b: usize) -> (r: usize)
    ensures
        r == abs(a - b),
{
    if a >= b {
        a - b
    } else {
        b - a
    }
}

impl Position {
    /// Coordinates that the engine's signed arithmetic can hold.
    pub open spec fn fits(self) -> bool {
        self.x <= isize::MAX && self.y <= isize::MAX
    }

    /// The cell one step away towards `o`, when it lies inside the world.
    pub open spec fn followed(self, o: Orientation, world_size: WorldSize) -> Option<Position> {
        let x = self.x + step_x(o);
        let y = self.y + step_y(o);
        if 0 <= x < world_size.x && 0 <= y < world_size.y {
            Some(Position { x: x as usize, y: y as usize })
        } else {
            None
        }
    }

    /// Whether the position lies inside a world of the given size.
    pub open spec fn inside(self, world_size: WorldSize) -> bool {
        self.x < world_size.x && self.y < world_size.y
    }

    /// Two distinct positions that touch, sideways or diagonally.
    pub open spec fn touches(self, other: Position) -> bool {
        &&& self != other
        &&& abs(self.x - other.x) <= 1
        &&& abs(self.y - other.y) <= 1
    }

    pub open spec fn within_spec(self, other: Position, range: int) -> bool {
        abs(self.x - other.x) <= range && abs(self.y - other.y) <= range
    }

    pub open spec fn hits_cardinally(self, other: Position) -> bool {
        let dx = self.x - other.x;
        let dy = self.y - other.y;
        &&& abs(dx) + abs(dy) > 0
        &&& (dx * dy == 0 || abs(dx) == abs(dy))
        &&& self.within_spec(other, CARDINAL_SHOT_DISTANCE as int)
    }

    pub open spec fn hits_positionally(self, other: Position) -> bool {
        let dx = self.x - other.x;
        let dy = self.y - other.y;
        &&& abs(dx) + abs(dy) > 0
        &&& self.within_spec(other, POSITIONAL_SHOT_DISTANCE as int)
    }

    /// Follows a "path" from the current Position according to the provided orientation.
    ///
    /// It takes into account the provided world size, guaranteeing that the result will
    /// either be a valid Position within the bounds of the provided world size, or None.
    pub fn follow(&self, orientation: &Orientation, world_size: &WorldSize) -> (r: Option<Self>)
        ensures
            r == self.followed(*orientation, *world_size),
            r matches Some(p) ==> p.inside(*world_size) && p.touches(*self),
    {
        let x = self.x;
        let y = self.y;
        let nx = match orientation {
            Orientation::East | Orientation::NorthEast | Orientation::SouthEast => {
                if x >= world_size.x || x + 1 >= world_size.x {
                    return None;
                }
                x + 1
            },
            Orientation::West | Orientation::NorthWest | Orientation::SouthWest => {
                if x == 0 || x - 1 >= world_size.x {
                    return None;
                }
                x - 1
            },
            _ => {
                if x >= world_size.x {
                    return None;
                }
                x
            },
        };
        let ny = match orientation {
            Orientation::South | Orientation::SouthWest | Orientation::SouthEast => {
                if y >= world_size.y || y + 1 >= world_size.y {
                    return None;
                }
                y + 1
            },
            Orientation::North | Orientation::NorthWest | Orientation::NorthEast => {
                if y == 0 || y - 1 >= world_size.y {
                    return None;
                }
                y - 1
            },
            _ => {
                if y >= world_size.y {
                    return None;
                }
                y
            },
        };
        Some(Position { x: nx, y: ny })
    }

    /// Computes the manhattan distance between `self` and the provided `Position`
    ///
    /// The `manhattan distance` is defined as the distance between two points
    /// that it would take to navigate if one could only travel along the
    /// x and y axis (ie. not diagonally). Similar to computing the walking
    /// distance between two points in Manhattan.
    ///
    /// This distance is expressed separately on the X and Y axis. Please note
    /// that the distances are relative, to allow relative positioning.
    pub fn manhattan_distance(&self, other: &Position) -> (r: (isize, isize))
        requires
            self.fits(),
            other.fits(),
        ensures
            r.0 == self.x - other.x,
            r.1 == self.y - other.y,
    {
        let dx = self.x as isize - other.x as isize;
        let dy = self.y as isize - other.y as isize;

        (dx, dy)
    }

    /// Indicates whether cardinal shoothing from this position towards the
    /// `other` position, would be successful
    pub fn could_hit_cardinally(&self, other: &Position) -> (r: bool)
        ensures
            r == self.hits_cardinally(*other),
    {
        let dx = distance_along(self.x, other.x);
        let dy = distance_along(self.y, other.y);
        proof {
            assert(((self.x - other.x) * (self.y - other.y) == 0) <==> (dx == 0 || dy == 0))
                by (nonlinear_arith)
                requires
                    dx == abs(self.x - other.x),
                    dy == abs(self.y - other.y),
            ;
        }
        (dx != 0 || dy != 0) && (dx == 0 || dy == 0 || dx == dy) && self.within_distance(
            other,
            CARDINAL_SHOT_DISTANCE,
        )
    }

    /// Indicates whether positional shoothing from this position towards the
    /// `other` position, would be successful
    pub fn could_hit_positionally(&self, other: &Position) -> (r: bool)
        ensures
            r == self.hits_positionally(*other),
    {
        let dx = distance_along(self.x, other.x);
        let dy = distance_along(self.y, other.y);

        (dx != 0 || dy != 0) && self.within_distance(other, POSITIONAL_SHOT_DISTANCE)
    }

    /// Indicates whether the `other` position is within a certain range or not
    pub fn within_distance(&self, other: &Position, range: usize) -> (r: bool)
        ensures
            r == self.within_spec(*other, range as int),
    {
        distance_along(self.x, other.x) <= range && distance_along(self.y, other.y) <= range
    }

    /// Provides a list with all the valid adjacent position of self
    pub fn list_adjacent_positions(&self, world_size: &WorldSize) -> (r: Vec<Position>)
        ensures
            r@ == adjacent_positions(*self, *world_size, 8),
    {
        let mut adjacents = Vec::new();

        let mut orientation = Orientation::North;
        let mut k: usize = 0;
        loop
            invariant_except_break
                k < 8,
                orientation == orientation_at(k as int),
                adjacents@ == adjacent_positions(*self, *world_size, k as nat),
            ensures
                adjacents@ == adjacent_positions(*self, *world_size, 8),
            decreases 8 - k,
        {
            if let Some(adjacent_position) = self.follow(&orientation, world_size) {
                adjacents.push(adjacent_position);
            }
            assert(adjacents@ == adjacent_positions(*self, *world_size, (k + 1) as nat));
            orientation = orientation.rotated_clockwise();
            if orientation == Orientation::North {
                assert(k == 7);
                break;
            }
            k = k + 1;
        }

        adjacents
    }
}

/// `r` is the whole part of the square root of `n`.
pub open spec fn is_floor_sqrt(r: int, n: int) -> bool {
    0 <= r && r * r <= n && n < (r + 1) * (r + 1)
}

/// The whole part of the square root of `n`, found by halving an interval.
pub fn floor_sqrt(n: u128) -> (r: u128)
    ensures
        is_floor_sqrt(r as int, n as int),
        r < 0x1_0000_0000_0000_0000,
{
    let mut lo: u128 = 0;
    let mut hi: u128 = 0x1_0000_0000_0000_0000;
    assert(n < hi * hi) by (nonlinear_arith)
        requires
            hi == 0x1_0000_0000_0000_0000u128,
            n <= u128::MAX,
    ;
    while hi - lo > 1
        invariant
            lo < hi <= 0x1_0000_0000_0000_0000,
            lo * lo <= n,
            n < hi * hi,
        decreases hi - lo,
    {
        let mid = lo + (hi - lo) / 2;
        assert(mid * mid < 0x1_0000_0000_0000_0000_0000_0000_0000_0000) by (nonlinear_arith)
            requires
                mid < 0x1_0000_0000_0000_0000,
        ;
        if mid * mid <= n {
            lo = mid;
        } else {
            hi = mid;
        }
    }
    lo
}

impl Position {
    /// The square of the straight-line distance between two positions.
    pub open spec fn squared_distance(self, other: Position) -> int {
        (self.x - other.x) * (self.x - other.x) + (self.y - other.y) * (self.y - other.y)
    }

    /// Computes the pythagorean (geometric) distance between `self` and the provided
    /// `Position`, rounded down to a whole number of cells.
    ///
    /// A squared distance beyond what 128 bits hold is counted as the largest such value,
    /// and a distance beyond `usize::MAX` as `usize::MAX`.
    pub fn pythagorean_distance(&self, other: &Position) -> (r: usize)
        ensures
            ({
                let n = if self.squared_distance(*other) > u128::MAX {
                    u128::MAX as int
                } else {
                    self.squared_distance(*other)
                };
                &&& r < usize::MAX ==> is_floor_sqrt(r as int, n)
                &&& r == usize::MAX ==> usize::MAX * usize::MAX <= n
            }),
    {
        let dx: usize = if self.x >= other.x {
            self.x - other.x
        } else {
            other.x - self.x
        };
        let dy: usize = if self.y >= other.y {
            self.y - other.y
        } else {
            other.y - self.y
        };
        let wx = dx as u128;
        let wy = dy as u128;
        assert(wx * wx <= u128::MAX && wy * wy <= u128::MAX) by (nonlinear_arith)
            requires
                wx <= usize::MAX,
                wy <= usize::MAX,
                usize::MAX < 0x1_0000_0000_0000_0000,
        ;
        assert(wx * wx == (self.x - other.x) * (self.x - other.x)) by (nonlinear_arith)
            requires
                wx == abs(self.x - other.x),
        ;
        assert(wy * wy == (self.y - other.y) * (self.y - other.y)) by (nonlinear_arith)
            requires
                wy == abs(self.y - other.y),
        ;
        let n = (wx * wx).saturating_add(wy * wy);
        let root = floor_sqrt(n);
        if root >= usize::MAX as u128 {
            assert(usize::MAX * usize::MAX <= n) by (nonlinear_arith)
                requires
                    root >= usize::MAX,
                    root * root <= n,
            ;
            usize::MAX
        } else {
            root as usize
        }
    }
}

/// The cells around `p` that lie inside the world, listed clockwise from North over the
/// first `n` orientations.
pub open spec fn adjacent_positions(p: Position, world_size: WorldSize, n: nat) -> Seq<Position>
    decreases n,
{
    if n == 0 {
        Seq::empty()
    } else {
        let before = adjacent_positions(p, world_size, (n - 1) as nat);
        match p.followed(orientation_at(n - 1), world_size) {
            Some(q) => before.push(q),
            None => before,
        }
    }
}

/// Stepping one way and then the opposite way leads back to where one started.
pub proof fn lemma_follow_back(p: Position, o: Orientation, world_size: WorldSize)
    requires
        p.inside(world_size),
    ensures
        p.followed(o, world_size) matches Some(q) ==> q.followed(
            orientation_at((orientation_index(o) + 4) % 8),
            world_size,
        ) == Some(p),
{
}

/// Every adjacent position lies in the world and touches the position it was listed for.
pub proof fn lemma_adjacent_inside(p: Position, world_size: WorldSize, n: nat)
    ensures
        forall|i: int|
            0 <= i < adjacent_positions(p, world_size, n).len() ==> (#[trigger] adjacent_positions(
                p,
                world_size,
                n,
            )[i]).inside(world_size) && adjacent_positions(p, world_size, n)[i].touches(p),
    decreases n,
{
    if n > 0 {
        lemma_adjacent_inside(p, world_size, (n - 1) as nat);
        let before = adjacent_positions(p, world_size, (n - 1) as nat);
        let all = adjacent_positions(p, world_size, n);
        assert forall|i: int| 0 <= i < all.len() implies (#[trigger] all[i]).inside(world_size)
            && all[i].touches(p) by {
            if i < before.len() {
                assert(all[i] == before[i]);
            } else {
                let o = orientation_at(n - 1);
                assert(all[i] == p.followed(o, world_size)->0);
            }
        }
    }
}

} // verus!
