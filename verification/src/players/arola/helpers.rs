use vstd::prelude::*;

use crate::api::{
    map_cell::MapCell,
    orientation::{
        lemma_quick_turn_reaches, orientation_at, orientation_index, quick_turn_spec, turned_times,
        Orientation,
    },
    player::{invalid_player, invalid_player_spec, Details, PlayerId},
    position::{step_x, step_y, Position, SCANNING_DISTANCE},
    rotation::Rotation,
    scan::{ScanResult, ScanType},
    world_size::MAX_WORLD_SIZE,
};

verus! {

impl Position {
    /// The orientation in which a neighbouring position lies.
    pub(super) fn get_orientation_to(&self, neighbor: &Position) -> (r: Orientation)
        requires
            neighbor.touches(*self),
            self.fits(),
            neighbor.fits(),
        ensures
            neighbor.x == self.x + step_x(r),
            neighbor.y == self.y + step_y(r),
    {
        match neighbor.manhattan_distance(self) {
            (1, 0) => Orientation::East,
            (1, 1) => Orientation::SouthEast,
            (0, 1) => Orientation::South,
            (-1, 1) => Orientation::SouthWest,
            (-1, 0) => Orientation::West,
            (-1, -1) => Orientation::NorthWest,
            (0, -1) => Orientation::North,
            _ => Orientation::NorthEast,
        }
    }
}

/// The turn that `quick_turn_bidirectional` picks: the quick turn when it takes at most
/// two steps, else the turn the other way round onto the opposite orientation.
pub open spec fn bidirectional_turn_spec(a: Orientation, b: Orientation) -> (Rotation, int) {
    let q = quick_turn_spec(a, b);
    if q.1 <= 2 {
        q
    } else {
        (q.0.opposite_spec(), 4 - q.1)
    }
}

impl Orientation {
    /// The quickest turn that leaves the tank facing `other` or its back towards it.
    pub(super) fn quick_turn_bidirectional(&self, other: &Self) -> (r: (Rotation, usize))
        ensures
            r.0 == bidirectional_turn_spec(*self, *other).0,
            r.1 as int == bidirectional_turn_spec(*self, *other).1,
            r.1 <= 2,
    {
        let result = self.quick_turn(other);
        proof {
            lemma_quick_turn_reaches(*self, *other);
        }
        if result.1 <= 2 {
            result
        } else {
            (result.0.opposite(), 4 - result.1)
        }
    }
}

/// After the bidirectional quick turn, the tank faces the other orientation or the
/// opposite one.
#[verifier::rlimit(40)]
pub proof fn lemma_bidirectional_turn_aligns(a: Orientation, b: Orientation)
    ensures
        ({
            let t = bidirectional_turn_spec(a, b);
            let end = turned_times(a, t.0, t.1 as nat);
            end == b || end == orientation_at((orientation_index(b) + 4) % 8)
        }),
        0 <= bidirectional_turn_spec(a, b).1 <= 2,
{
    crate::api::orientation::lemma_index_roundtrip(a, 0);
    crate::api::orientation::lemma_index_roundtrip(b, 0);
    let t = bidirectional_turn_spec(a, b);
    let ia = orientation_index(a);
    let ib = orientation_index(b);
    let ccw = (ia - ib + 8) % 8;
    crate::api::orientation::lemma_turned_times_index(a, t.0, t.1 as nat);
    if t.0 == Rotation::Clockwise {
        let k = crate::api::orientation::index_after_clockwise(ia, t.1);
        assert(k == ib || k == (ib + 4) % 8);
    } else {
        let k = crate::api::orientation::index_after_counter_clockwise(ia, t.1);
        assert(k == ib || k == (ib + 4) % 8);
    }
}

pub const SCAN_TOP: usize = 0;

pub const SCAN_LEFT: usize = 0;

pub const SCAN_CENTER: usize = SCANNING_DISTANCE / 2;

pub const SCAN_BOTTOM: usize = SCANNING_DISTANCE - 1;

pub const SCAN_RIGHT: usize = SCANNING_DISTANCE - 1;

/// Where the scanning tank stands in a scan of the type.
pub open spec fn scan_own_cell(scan_type: ScanType) -> Position {
    match scan_type {
        ScanType::Mono(o) => match o {
            Orientation::North => Position { x: SCAN_CENTER, y: SCAN_BOTTOM },
            Orientation::NorthEast => Position { x: SCAN_LEFT, y: SCAN_BOTTOM },
            Orientation::East => Position { x: SCAN_LEFT, y: SCAN_CENTER },
            Orientation::SouthEast => Position { x: SCAN_LEFT, y: SCAN_TOP },
            Orientation::South => Position { x: SCAN_CENTER, y: SCAN_TOP },
            Orientation::SouthWest => Position { x: SCAN_RIGHT, y: SCAN_TOP },
            Orientation::West => Position { x: SCAN_RIGHT, y: SCAN_CENTER },
            Orientation::NorthWest => Position { x: SCAN_RIGHT, y: SCAN_BOTTOM },
        },
        ScanType::Omni => Position { x: SCAN_CENTER, y: SCAN_CENTER },
    }
}

/// The tank a cell shows, or the invalid player.
pub open spec fn cell_details(cell: MapCell) -> Details {
    match cell {
        MapCell::Explosion(d, _) => d,
        MapCell::Player(d, _) => d,
        MapCell::Shell(d, _) => d,
        _ => invalid_player_spec(),
    }
}

/// The world coordinates of the scan's first cell for a tank at `me`.
pub open spec fn scan_world_origin(scan_type: ScanType, me: Position) -> (int, int) {
    (me.x - scan_own_cell(scan_type).x, me.y - scan_own_cell(scan_type).y)
}

/// Another living tank that the scan cell (`y`, `x`) shows, with its world position.
pub open spec fn other_player_at(
    scan: ScanResult,
    my_id: PlayerId,
    origin: (int, int),
    y: int,
    x: int,
) -> Option<(Details, Position)> {
    let d = cell_details(scan.cell(y, x));
    let px = origin.0 + x;
    let py = origin.1 + y;
    if d != invalid_player_spec() && d.id != my_id && d.alive && px >= 0 && py >= 0 {
        Some((d, Position { x: px as usize, y: py as usize }))
    } else {
        None
    }
}

/// The other living tanks shown in the first `n` cells of the scan, row by row.
pub open spec fn others_upto(
    scan: ScanResult,
    my_id: PlayerId,
    origin: (int, int),
    n: nat,
) -> Seq<(Details, Position)>
    decreases n,
{
    if n == 0 {
        Seq::empty()
    } else {
        let i = n - 1;
        let prev = others_upto(scan, my_id, origin, i as nat);
        match other_player_at(
            scan,
            my_id,
            origin,
            i / (SCANNING_DISTANCE as int),
            i % (SCANNING_DISTANCE as int),
        ) {
            Some(p) => prev.push(p),
            None => prev,
        }
    }
}

/// The other living tanks shown in the whole scan, row by row.
pub open spec fn others_seen(scan: ScanResult, my_id: PlayerId, me: Position) -> Seq<
    (Details, Position),
> {
    others_upto(
        scan,
        my_id,
        scan_world_origin(scan.scan_type, me),
        (SCANNING_DISTANCE * SCANNING_DISTANCE) as nat,
    )
}

impl ScanResult {
    fn get_my_position(&self) -> (r: Position)
        ensures
            r == scan_own_cell(self.scan_type),
    {
        match &self.scan_type {
            ScanType::Mono(orientation) => match orientation {
                Orientation::North => Position { x: SCAN_CENTER, y: SCAN_BOTTOM },
                Orientation::NorthEast => Position { x: SCAN_LEFT, y: SCAN_BOTTOM },
                Orientation::East => Position { x: SCAN_LEFT, y: SCAN_CENTER },
                Orientation::SouthEast => Position { x: SCAN_LEFT, y: SCAN_TOP },
                Orientation::South => Position { x: SCAN_CENTER, y: SCAN_TOP },
                Orientation::SouthWest => Position { x: SCAN_RIGHT, y: SCAN_TOP },
                Orientation::West => Position { x: SCAN_RIGHT, y: SCAN_CENTER },
                Orientation::NorthWest => Position { x: SCAN_RIGHT, y: SCAN_BOTTOM },
            },
            ScanType::Omni => Position { y: SCAN_CENTER, x: SCAN_CENTER },
        }
    }

    fn get_player_details(map_cell: &MapCell) -> (r: Details)
        ensures
            r == cell_details(*map_cell),
    {
        match map_cell {
            MapCell::Explosion(player_details, _) => *player_details,
            MapCell::Player(player_details, _) => *player_details,
            MapCell::Shell(player_details, _) => *player_details,
            _ => invalid_player(),
        }
    }

    /// The other living tanks that the scan shows, row by row, at their world positions.
    /// A tank that would lie off the world's top or left edge is passed over.
    pub(super) fn find_other_players(&self, my_id: PlayerId, my_world_position: &Position) -> (r:
        Vec<(Details, Position)>)
        requires
            my_world_position.x <= MAX_WORLD_SIZE,
            my_world_position.y <= MAX_WORLD_SIZE,
        ensures
            r@ == others_seen(*self, my_id, *my_world_position),
    {
        let mut other_players: Vec<(Details, Position)> = Vec::new();
        let scan_world_position = self.get_world_position(my_world_position);
        let ghost origin = (scan_world_position.0 as int, scan_world_position.1 as int);
        let d = SCANNING_DISTANCE;

        let mut y: usize = 0;
        while y < d
            invariant
                y <= d,
                d == SCANNING_DISTANCE,
                origin == scan_world_origin(self.scan_type, *my_world_position),
                scan_world_position.0 == origin.0,
                scan_world_position.1 == origin.1,
                -(SCANNING_DISTANCE as int) <= origin.0 <= MAX_WORLD_SIZE,
                -(SCANNING_DISTANCE as int) <= origin.1 <= MAX_WORLD_SIZE,
                other_players@ == others_upto(*self, my_id, origin, (y * d) as nat),
            decreases d - y,
        {
            let mut x: usize = 0;
            while x < d
                invariant
                    y < d,
                    x <= d,
                    d == SCANNING_DISTANCE,
                    origin == scan_world_origin(self.scan_type, *my_world_position),
                    scan_world_position.0 == origin.0,
                    scan_world_position.1 == origin.1,
                    -(SCANNING_DISTANCE as int) <= origin.0 <= MAX_WORLD_SIZE,
                    -(SCANNING_DISTANCE as int) <= origin.1 <= MAX_WORLD_SIZE,
                    other_players@ == others_upto(*self, my_id, origin, (y * d + x) as nat),
                decreases d - x,
            {
                let player_details = ScanResult::get_player_details(&self.data[y][x]);
                let position_x = x as isize + scan_world_position.0;
                let position_y = y as isize + scan_world_position.1;
                proof {
                    let i = y * d + x;
                    vstd::arithmetic::div_mod::lemma_fundamental_div_mod_converse(
                        i as int,
                        d as int,
                        y as int,
                        x as int,
                    );
                    assert(self.data@[y as int]@[x as int] == self.cell(y as int, x as int));
                }
                if player_details != invalid_player() && player_details.id != my_id
                    && player_details.alive && position_x >= 0 && position_y >= 0 {
                    other_players.push(
                        (player_details, Position { x: position_x as usize, y: position_y as usize }),
                    );
                }
                x = x + 1;
            }
            proof {
                assert(y * d + d == (y + 1) * d) by (nonlinear_arith);
            }
            y = y + 1;
        }
        proof {
            assert(d * d == SCANNING_DISTANCE * SCANNING_DISTANCE);
        }
        return other_players;
    }

    /// The world coordinates of the scan's first cell.
    pub(super) fn get_world_position(&self, my_world_position: &Position) -> (r: (isize, isize))
        requires
            my_world_position.fits(),
        ensures
            r.0 == scan_world_origin(self.scan_type, *my_world_position).0,
            r.1 == scan_world_origin(self.scan_type, *my_world_position).1,
    {
        let my_scan_position = self.get_my_position();
        let scan_world_x = my_world_position.x as isize - my_scan_position.x as isize;
        let scan_world_y = my_world_position.y as isize - my_scan_position.y as isize;

        return (scan_world_x, scan_world_y);
    }
}

} // verus!
