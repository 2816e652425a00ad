//! Provides the interfaces necessary to implement a working Rusty Battle Tank
//!
//! Every player needs to create their own data structure(s), of which one must
//! implement the `Player` trait. That trait provides the mechanism necessary
//! for the RBT game engine to interact with the player, and vice-versa.
//!
//! This module also provides a host of useful ancilary data structures, like
//! `Context`, `MapCell`, `Terrain`, `Position`, `Rotation`, `Direction`,
//! `Orientation`, etc. The players should check the (free) functionality
//! offered by these data structures, and avoid re-implementing already
//! provided behavior.
use vstd::prelude::*;

verus! {

/// Specifies the maximum horizontal or vertical size of the game map
pub const MAX_WORLD_SIZE: usize = 64;

pub const DIV: usize = 4;

/// Specifies the size of the scanning data array. It should always be an odd number.
pub const SCANNING_DISTANCE: usize = (MAX_WORLD_SIZE / DIV) - (MAX_WORLD_SIZE / DIV + 1) % 2;

/// Public trait that players need to implement, in order for the game engine
/// to be able to interact with the player.
pub trait Player {
    /// Implement this method if and only if you need to perform expensive and
    /// potentially failing initialization.
    ///
    /// The return value should indicate the initialization success.
    fn initialized(&mut self) -> (r: bool)
        default_ensures
            r,
    {
        true
    }

    /// This is the player's turn to fight.
    ///
    /// The changes performed by the game engine are provided in the `context`.
    fn act(&mut self, context: &Context) -> Action;

    /// Returns the player's name
    fn name(&self) -> String;

    /// This indicates whether the player is ready for battle or not.
    fn is_ready(&self) -> (r: bool)
        default_ensures
            !r,
    {
        false
    }
}

/// Represents the context that the game engine is sharing with the player logic with
/// every interaction.
#[derive(Debug)]
pub struct Context {
    player_id: u8,
    health: u8,
    mobile: bool,
    position: Position,
    orientation: Orientation,
    scan: Option<ScanResult>,
    world_size: WorldSize,
}

impl Context {
    pub closed spec fn player_id_spec(self) -> u8 {
        self.player_id
    }

    pub closed spec fn health_spec(self) -> u8 {
        self.health
    }

    pub closed spec fn mobile_spec(self) -> bool {
        self.mobile
    }

    pub closed spec fn position_spec(self) -> Position {
        self.position
    }

    pub closed spec fn orientation_spec(self) -> Orientation {
        self.orientation
    }

    pub closed spec fn scan_spec(self) -> Option<ScanResult> {
        self.scan
    }

    pub closed spec fn world_size_spec(self) -> WorldSize {
        self.world_size
    }

    pub fn new(player_id: u8, position: Position, world_size: WorldSize) -> (r: Self)
        ensures
            r.player_id_spec() == player_id,
            r.health_spec() == 100,
            r.mobile_spec(),
            r.position_spec() == position,
            r.orientation_spec() == Orientation::North,
            r.scan_spec() is None,
            r.world_size_spec() == world_size,
    {
        Self {
            player_id,
            health: 100,
            mobile: true,
            position,
            orientation: Orientation::North,
            scan: None,
            world_size,
        }
    }

    pub fn player_id(&self) -> (r: u8)
        ensures
            r == self.player_id_spec(),
    {
        self.player_id
    }

    pub fn health(&self) -> (r: u8)
        ensures
            r == self.health_spec(),
    {
        self.health
    }

    pub fn is_mobile(&self) -> (r: bool)
        ensures
            r == self.mobile_spec(),
    {
        self.mobile
    }

    pub fn position(&self) -> (r: &Position)
        ensures
            *r == self.position_spec(),
    {
        &self.position
    }

    pub fn orientation(&self) -> (r: &Orientation)
        ensures
            *r == self.orientation_spec(),
    {
        &self.orientation
    }

    pub fn world_size(&self) -> (r: &WorldSize)
        ensures
            *r == self.world_size_spec(),
    {
        &self.world_size
    }

    /// Turns the tank one step in the given direction.
    pub fn rotate(&mut self, rotation: &Rotation)
        ensures
            final(self).orientation_spec() == turned(old(self).orientation_spec(), *rotation),
            final(self).health_spec() == old(self).health_spec(),
            final(self).position_spec() == old(self).position_spec(),
            final(self).player_id_spec() == old(self).player_id_spec(),
            final(self).mobile_spec() == old(self).mobile_spec(),
    {
        self.orientation = match rotation {
            Rotation::Clockwise => self.orientation.rotated_clockwise(),
            Rotation::CounterClockwise => self.orientation.rotated_counter_clockwise(),
        }
    }

    /// Takes away health, down to zero at the least.
    pub fn damage(&mut self, damage: u8)
        ensures
            final(self).health_spec() == (if old(self).health_spec() > damage {
                old(self).health_spec() - damage
            } else {
                0
            }),
            final(self).orientation_spec() == old(self).orientation_spec(),
            final(self).position_spec() == old(self).position_spec(),
            final(self).player_id_spec() == old(self).player_id_spec(),
            final(self).mobile_spec() == old(self).mobile_spec(),
    {
        let taken = if self.health < damage {
            self.health
        } else {
            damage
        };
        self.health -= taken;
    }

    /// Moves the tank: a lake leaves it without health, a swamp holds it.
    pub fn relocate(&mut self, new_position: &Position, walk_on: Terrain) -> (r: bool)
        ensures
            r,
            final(self).position_spec() == *new_position,
            final(self).health_spec() == (if walk_on == Terrain::Lake {
                0
            } else {
                old(self).health_spec()
            }),
            final(self).mobile_spec() == (old(self).mobile_spec() && walk_on != Terrain::Swamp),
            final(self).orientation_spec() == old(self).orientation_spec(),
            final(self).player_id_spec() == old(self).player_id_spec(),
    {
        self.position = *new_position;

        match walk_on {
            Terrain::Lake => self.health = 0,
            Terrain::Swamp => self.mobile = false,
            _ => {},
        }

        true
    }

    pub fn scanned_data(&self) -> (r: &Option<ScanResult>)
        ensures
            *r == self.scan_spec(),
    {
        &self.scan
    }

    pub fn set_scanned_data(&mut self, scan: Option<ScanResult>)
        ensures
            final(self).scan_spec() == scan,
            final(self).health_spec() == old(self).health_spec(),
            final(self).position_spec() == old(self).position_spec(),
            final(self).orientation_spec() == old(self).orientation_spec(),
            final(self).player_id_spec() == old(self).player_id_spec(),
            final(self).mobile_spec() == old(self).mobile_spec(),
    {
        self.scan = scan;
    }
}

#[derive(Clone, Copy, Debug, Default, PartialEq, Eq, Structural)]
pub enum MapCell {
    Player(u8, Terrain),
    Terrain(Terrain),
    #[default]
    Unknown,
}

#[derive(Clone, Copy, Debug, Default, PartialEq, Eq, Structural)]
pub enum Terrain {
    #[default]
    Field,
    Lake,
    Forest(TreeType),
    Swamp,
}

#[derive(Clone, Copy, Debug, Default, PartialEq, Eq, Structural)]
pub enum TreeType {
    #[default]
    Deciduous,
    Evergreen,
}

#[derive(Debug, Default)]
pub enum Action {
    #[default]
    Idle,
    Fire,
    Move(Direction),
    Rotate(Rotation),
    Scan(ScanType),
}

#[derive(Clone, Copy, Debug, PartialEq, Eq, Structural)]
pub struct Position {
    pub x: usize,
    pub y: usize,
}

/// The change of the x coordinate when stepping towards an orientation.
pub open spec fn step_x(o: Orientation) -> int {
    match o {
        Orientation::East | Orientation::NorthEast | Orientation::SouthEast => 1,
        Orientation::West | Orientation::NorthWest | Orientation::SouthWest => -1,
        _ => 0,
    }
}

/// The change of the y coordinate when stepping towards an orientation (North is up).
pub open spec fn step_y(o: Orientation) -> int {
    match o {
        Orientation::North | Orientation::NorthWest | Orientation::NorthEast => -1,
        Orientation::South | Orientation::SouthWest | Orientation::SouthEast => 1,
        _ => 0,
    }
}

/// The absolute value of an integer.
pub open spec fn abs(v: int) -> int {
    if v < 0 {
        -v
    } else {
        v
    }
}

impl Position {
    /// Coordinates that signed arithmetic can hold.
    pub open spec fn fits(self) -> bool {
        self.x <= isize::MAX && self.y <= isize::MAX
    }

    /// The cell one step away towards `o`, when it lies inside the world.
    pub open spec fn followed(self, o: Orientation, world_size: WorldSize) -> Option<Position> {
        let x = self.x + step_x(o);
        let y = self.y + step_y(o);
        if 0 <= x < world_size.x && 0 <= y < world_size.y {
            Some(Position { x: x as usize, y: y as usize })
        } else {
            None
        }
    }

    /// Follows a "path" from the current Position according to the provided orientation.
    ///
    /// It takes into account the provided world size, guaranteeing that the result will
    /// either be a valid Position within the bounds of the provided world size, or None.
    pub fn follow(&self, orientation: &Orientation, world_size: &WorldSize) -> (r: Option<Self>)
        ensures
            r == self.followed(*orientation, *world_size),
    {
        let nx = match orientation {
            Orientation::East | Orientation::NorthEast | Orientation::SouthEast => {
                if self.x >= world_size.x || self.x + 1 >= world_size.x {
                    return None;
                }
                self.x + 1
            },
            Orientation::West | Orientation::NorthWest | Orientation::SouthWest => {
                if self.x == 0 || self.x - 1 >= world_size.x {
                    return None;
                }
                self.x - 1
            },
            _ => {
                if self.x >= world_size.x {
                    return None;
                }
                self.x
            },
        };
        let ny = match orientation {
            Orientation::South | Orientation::SouthWest | Orientation::SouthEast => {
                if self.y >= world_size.y || self.y + 1 >= world_size.y {
                    return None;
                }
                self.y + 1
            },
            Orientation::North | Orientation::NorthWest | Orientation::NorthEast => {
                if self.y == 0 || self.y - 1 >= world_size.y {
                    return None;
                }
                self.y - 1
            },
            _ => {
                if self.y >= world_size.y {
                    return None;
                }
                self.y
            },
        };
        Some(Self { x: nx, y: ny })
    }

    /// Computes the (x,y) delta between self and the provided `Position`
    ///
    /// In other words, this computes the delta between two Positions
    /// on the X and Y axes separately.
    ///
    /// Please note that the distances may be negative.
    pub fn delta(&self, other: &Position) -> (r: (isize, isize))
        requires
            self.fits(),
            other.fits(),
        ensures
            r.0 == self.x - other.x,
            r.1 == self.y - other.y,
    {
        let dx = self.x as isize - other.x as isize;
        let dy = self.y as isize - other.y as isize;

        (dx, dy)
    }

    /// Computes the manhattan distance between self and the provided `Position`
    ///
    /// The `manhattan distance` is defined as the distance between two points
    /// that it would take to navigate if one could only travel along the
    /// x and y axis (ie. not diagonally). Similar to computing the walking
    /// distance between two points in Manhattan.
    pub fn manhattan_distance(&self, other: &Position) -> (r: usize)
        requires
            self.fits(),
            other.fits(),
            abs(self.x - other.x) + abs(self.y - other.y) <= isize::MAX,
        ensures
            r == abs(self.x - other.x) + abs(self.y - other.y),
    {
        let (dx, dy) = self.delta(other);
        let ax: isize = if dx < 0 {
            -dx
        } else {
            dx
        };
        let ay: isize = if dy < 0 {
            -dy
        } else {
            dy
        };

        (ax + ay) as usize
    }

    /// Computes the pythagorean (geometric) distance between self and the provided
    /// `Position`, rounded down; see the map position's `pythagorean_distance`.
    pub fn pythagorean_distance(&self, other: &Position) -> (r: usize)
        ensures
            ({
                let a = crate::api::position::Position { x: self.x, y: self.y };
                let b = crate::api::position::Position { x: other.x, y: other.y };
                let n = if a.squared_distance(b) > u128::MAX {
                    u128::MAX as int
                } else {
                    a.squared_distance(b)
                };
                &&& r < usize::MAX ==> crate::api::position::is_floor_sqrt(r as int, n)
                &&& r == usize::MAX ==> usize::MAX * usize::MAX <= n
            }),
    {
        let a = crate::api::position::Position { x: self.x, y: self.y };
        let b = crate::api::position::Position { x: other.x, y: other.y };
        a.pythagorean_distance(&b)
    }
}

#[derive(Debug)]
pub enum Direction {
    Forward,
    Backward,
}

#[derive(Clone, Copy, Debug, Default, PartialEq, Eq, Hash, Structural)]
pub enum Orientation {
    #[default]
    North,
    NorthEast,
    East,
    SouthEast,
    South,
    SouthWest,
    West,
    NorthWest,
}

/// The position of an orientation on the compass, counted clockwise from North.
pub open spec fn orientation_index(o: Orientation) -> int {
    match o {
        Orientation::North => 0,
        Orientation::NorthEast => 1,
        Orientation::East => 2,
        Orientation::SouthEast => 3,
        Orientation::South => 4,
        Orientation::SouthWest => 5,
        Orientation::West => 6,
        Orientation::NorthWest => 7,
    }
}

/// The orientation at a compass index; every index from 7 up names North-West.
pub open spec fn orientation_at(i: int) -> Orientation {
    if i <= 0 {
        Orientation::North
    } else if i == 1 {
        Orientation::NorthEast
    } else if i == 2 {
        Orientation::East
    } else if i == 3 {
        Orientation::SouthEast
    } else if i == 4 {
        Orientation::South
    } else if i == 5 {
        Orientation::SouthWest
    } else if i == 6 {
        Orientation::West
    } else {
        Orientation::NorthWest
    }
}

/// The orientation reached after one turn in the given direction.
pub open spec fn turned(o: Orientation, r: Rotation) -> Orientation {
    match r {
        Rotation::Clockwise => orientation_at((orientation_index(o) + 1) % 8),
        Rotation::CounterClockwise => orientation_at((orientation_index(o) + 7) % 8),
    }
}

/// The quickest turn from `a` to `b`: counter-clockwise when `b` lies fewer than four
/// counter-clockwise steps away, otherwise clockwise, with the number of steps.
pub open spec fn quick_turn_spec(a: Orientation, b: Orientation) -> (Rotation, int) {
    let ccw = (orientation_index(a) - orientation_index(b) + 8) % 8;
    if ccw < 4 {
        (Rotation::CounterClockwise, ccw)
    } else {
        (Rotation::Clockwise, 8 - ccw)
    }
}

impl Orientation {
    pub fn get_cardinal_direction_count() -> (r: usize)
        ensures
            r == 8,
    {
        8
    }

    pub fn rotated_clockwise(&self) -> (r: Self)
        ensures
            r == turned(*self, Rotation::Clockwise),
    {
        match self {
            Self::North => Self::NorthEast,
            Self::NorthEast => Self::East,
            Self::East => Self::SouthEast,
            Self::SouthEast => Self::South,
            Self::South => Self::SouthWest,
            Self::SouthWest => Self::West,
            Self::West => Self::NorthWest,
            Self::NorthWest => Self::North,
        }
    }

    pub fn rotated_counter_clockwise(&self) -> (r: Self)
        ensures
            r == turned(*self, Rotation::CounterClockwise),
    {
        match self {
            Self::North => Self::NorthWest,
            Self::NorthWest => Self::West,
            Self::West => Self::SouthWest,
            Self::SouthWest => Self::South,
            Self::South => Self::SouthEast,
            Self::SouthEast => Self::East,
            Self::East => Self::NorthEast,
            Self::NorthEast => Self::North,
        }
    }

    pub fn opposite(&self) -> (r: Self)
        ensures
            r == orientation_at((orientation_index(*self) + 4) % 8),
    {
        match self {
            Self::North => Self::South,
            Self::NorthEast => Self::SouthWest,
            Self::East => Self::West,
            Self::SouthEast => Self::NorthWest,
            Self::South => Self::North,
            Self::SouthWest => Self::NorthEast,
            Self::West => Self::East,
            Self::NorthWest => Self::SouthEast,
        }
    }

    /// Computes the fastest way to turn towards a new `Orientation`.
    ///
    /// The result is a tuple containing the Rotation and the number of
    /// steps to repeat the same rotation in order to change orientation
    /// to the desired one.
    pub fn quick_turn(&self, other: &Self) -> (r: (Rotation, usize))
        ensures
            r.0 == quick_turn_spec(*self, *other).0,
            r.1 as int == quick_turn_spec(*self, *other).1,
    {
        let mut my_index: usize = self.index();
        let their_index: usize = other.index();

        if my_index < their_index {
            my_index += Orientation::get_cardinal_direction_count();
        }

        let mut delta = my_index - their_index;
        let rotation = if delta < 4 {
            Rotation::CounterClockwise
        } else {
            Rotation::Clockwise
        };
        if delta > 4 {
            delta = Orientation::get_cardinal_direction_count() - delta;
        }

        (rotation, delta)
    }
}

impl Orientation {
    /// The orientation at a compass index; every index from 7 up names North-West.
    pub fn from_index(value: usize) -> (r: Self)
        ensures
            r == orientation_at(value as int),
    {
        match value {
            0 => Self::North,
            1 => Self::NorthEast,
            2 => Self::East,
            3 => Self::SouthEast,
            4 => Self::South,
            5 => Self::SouthWest,
            6 => Self::West,
            _ => Self::NorthWest,
        }
    }

    /// The position of an orientation on the compass, counted clockwise from North.
    pub fn index(&self) -> (r: usize)
        ensures
            r as int == orientation_index(*self),
    {
        match self {
            Orientation::North => 0,
            Orientation::NorthEast => 1,
            Orientation::East => 2,
            Orientation::SouthEast => 3,
            Orientation::South => 4,
            Orientation::SouthWest => 5,
            Orientation::West => 6,
            Orientation::NorthWest => 7,
        }
    }
}

#[derive(Clone, Copy, Debug, PartialEq, Eq, Structural)]
pub enum Rotation {
    Clockwise,
    CounterClockwise,
}

#[derive(Clone, Copy, Debug, PartialEq, Eq, Structural)]
pub enum ScanType {
    Directional(Orientation),
    Omni,
}

#[derive(Debug)]
pub struct ScanResult {
    pub scan_type: ScanType,
    pub data: Box<[[MapCell; SCANNING_DISTANCE]; SCANNING_DISTANCE]>,
}

impl Clone for ScanResult {
    fn clone(&self) -> (r: Self)
        ensures
            r == *self,
    {
        ScanResult { scan_type: self.scan_type, data: Box::new(*self.data) }
    }
}

#[derive(Clone, Copy, Debug, PartialEq, Eq, Structural)]
pub struct WorldSize {
    pub x: usize,
    pub y: usize,
}

/// The quickest turn reaches the other orientation: turning the given way, one step at a
/// time, for the given number of steps leads there, and it takes at most four steps.
pub proof fn lemma_quick_turn_is_short(a: Orientation, b: Orientation)
    ensures
        0 <= quick_turn_spec(a, b).1 <= 4,
        quick_turn_spec(a, b).0 == Rotation::CounterClockwise ==> orientation_index(b) == (
        orientation_index(a) + 8 - quick_turn_spec(a, b).1) % 8,
        quick_turn_spec(a, b).0 == Rotation::Clockwise ==> orientation_index(b) == (
        orientation_index(a) + quick_turn_spec(a, b).1) % 8,
{
}

} // verus!
