use vstd::prelude::*;

use crate::api::{
    map_cell::MapCell,
    orientation::Orientation,
    player::PlayerId,
    position::{Position, SCANNING_DISTANCE},
    scan::{ScanResult, ScanType},
    world_size::WorldSize,
};

use super::tanks::{after_sighting, tank_views, TankView, TanksTracker, Turn};

verus! {

#[derive(Clone, Copy, Debug)]
pub struct PositionDelta {
    pub x: isize,
    pub y: isize,
}

/// Reads where scanned cells lie in the world, from where the player shows in the scan.
pub trait PositionResolver {
    /// Whether the scan shows the player itself.
    spec fn shows_me(&self, scan: ScanResult) -> bool;

    fn position_delta(&self, scan: &ScanResult) -> PositionDelta
        requires
            self.shows_me(*scan),
    ;

    fn position_absolute(&self, delta: &PositionDelta, rel_pos: Position, world_size: &WorldSize) -> Option<
        Position,
    >;

    fn player_rel_pos(&self, scan: &ScanResult) -> Position
        requires
            self.shows_me(*scan),
    ;
}

pub struct ScanProces {
    id: PlayerId,  // Own Player ID
    abs_pos: Position,  // Own absolute position
}

/// Whether a cell holds the player with the given id.
pub open spec fn holds_player(cell: MapCell, id: PlayerId) -> bool {
    cell matches MapCell::Player(d, _) && d.id == id
}

/// Where the player stands in a scan of the given kind, when the scan is centred on it
/// or lies in front of it.
pub open spec fn expected_spot(scan_type: ScanType) -> (int, int) {
    let center = (SCANNING_DISTANCE / 2) as int;
    let max = (SCANNING_DISTANCE - 1) as int;
    match scan_type {
        ScanType::Omni => (center, center),
        ScanType::Mono(o) => match o {
            Orientation::North => (center, max),
            Orientation::East => (0, center),
            Orientation::South => (center, 0),
            Orientation::West => (max, center),
            Orientation::NorthEast => (0, max),
            Orientation::SouthEast => (0, 0),
            Orientation::SouthWest => (max, 0),
            Orientation::NorthWest => (max, max),
        },
    }
}

/// The first cell, read row by row from the `k`-th, that holds the player.
pub open spec fn first_spot(scan: ScanResult, id: PlayerId, k: int) -> (int, int)
    decreases SCANNING_DISTANCE * SCANNING_DISTANCE - k,
{
    if k < 0 || k >= SCANNING_DISTANCE * SCANNING_DISTANCE {
        (0, 0)
    } else {
        let y = k / (SCANNING_DISTANCE as int);
        let x = k % (SCANNING_DISTANCE as int);
        if holds_player(scan.cell(y, x), id) {
            (x, y)
        } else {
            first_spot(scan, id, k + 1)
        }
    }
}

/// Where the player shows in a scan: where it is expected, or else its first cell.
pub open spec fn player_spot(scan: ScanResult, id: PlayerId) -> (int, int) {
    let (x, y) = expected_spot(scan.scan_type);
    if holds_player(scan.cell(y, x), id) {
        (x, y)
    } else {
        first_spot(scan, id, 0)
    }
}

/// The world cell of a scan cell offset by `delta`, when it lies inside the world's
/// border ring.
pub open spec fn absolute(delta: PositionDelta, rel_pos: Position, world_size: WorldSize) -> Option<Position> {
    let ax = if delta.x + rel_pos.x > 0 {
        delta.x + rel_pos.x
    } else {
        0
    };
    let ay = if delta.y + rel_pos.y > 0 {
        delta.y + rel_pos.y
    } else {
        0
    };
    if ay == 0 || ax == 0 || ay + 1 >= world_size.y || ax + 1 >= world_size.x {
        None
    } else {
        Some(Position { x: ax as usize, y: ay as usize })
    }
}

/// What the tracker knows after the first `n` cells of a scan, read row by row, are
/// looked at: each living tank shown in a cell that lies inside the world's border ring is
/// sighted there.
pub open spec fn scan_tracked(
    s: Seq<TankView>,
    scan: ScanResult,
    delta: PositionDelta,
    world_size: WorldSize,
    turn: Turn,
    ref_point: Position,
    n: int,
) -> Seq<TankView>
    decreases n,
{
    if n <= 0 {
        s
    } else {
        let prev = scan_tracked(s, scan, delta, world_size, turn, ref_point, n - 1);
        let y = (n - 1) / (SCANNING_DISTANCE as int);
        let x = (n - 1) % (SCANNING_DISTANCE as int);
        match absolute(delta, Position { x: x as usize, y: y as usize }, world_size) {
            Some(abs) => match scan.cell(y, x) {
                MapCell::Player(d, _) => if d.alive {
                    after_sighting(prev, d, abs, turn, ref_point)
                } else {
                    prev
                },
                _ => prev,
            },
            None => prev,
        }
    }
}

impl ScanProces {
    pub closed spec fn id_spec(self) -> PlayerId {
        self.id
    }

    pub closed spec fn abs_pos_spec(self) -> Position {
        self.abs_pos
    }

    pub fn new(id: PlayerId, abs_pos: Position) -> (r: Self)
        ensures
            r.id_spec() == id,
            r.abs_pos_spec() == abs_pos,
    {
        Self { id, abs_pos }
    }

    /// The offset from the cells of a scan to the world's cells.
    pub open spec fn delta_spec(self, scan: ScanResult) -> PositionDelta {
        PositionDelta {
            x: (self.abs_pos_spec().x - player_spot(scan, self.id_spec()).0) as isize,
            y: (self.abs_pos_spec().y - player_spot(scan, self.id_spec()).1) as isize,
        }
    }

    /// Tracks the tanks that a scan shows: every living tank in a cell that lies inside
    /// the world's border ring is sighted there on the turn; see `scan_tracked`.
    pub fn process(
        &mut self,
        tanks: &mut TanksTracker,
        scan: &ScanResult,
        turn: Turn,
        ref_pos: &Position,
        world_size: &WorldSize,
    )
        requires
            self.shows_me(*scan),
            old(tanks).wf(),
        ensures
            final(tanks).wf(),
            final(tanks).own_id_spec() == old(tanks).own_id_spec(),
            tank_views(final(tanks).tanks_spec()) == scan_tracked(
                tank_views(old(tanks).tanks_spec()),
                *scan,
                old(self).delta_spec(*scan),
                *world_size,
                turn,
                *ref_pos,
                (SCANNING_DISTANCE * SCANNING_DISTANCE) as int,
            ),
            *final(self) == *old(self),
    {
        let delta = self.position_delta(scan);
        let ghost start = tank_views(tanks.tanks_spec());
        let mut y: usize = 0;
        while y < SCANNING_DISTANCE
            invariant
                y <= SCANNING_DISTANCE,
                tanks.wf(),
                tanks.own_id_spec() == old(tanks).own_id_spec(),
                start == tank_views(old(tanks).tanks_spec()),
                delta == self.delta_spec(*scan),
                tank_views(tanks.tanks_spec()) == scan_tracked(
                    start,
                    *scan,
                    delta,
                    *world_size,
                    turn,
                    *ref_pos,
                    (y * SCANNING_DISTANCE) as int,
                ),
            decreases SCANNING_DISTANCE - y,
        {
            let mut x: usize = 0;
            while x < SCANNING_DISTANCE
                invariant
                    y < SCANNING_DISTANCE,
                    x <= SCANNING_DISTANCE,
                    tanks.wf(),
                    tanks.own_id_spec() == old(tanks).own_id_spec(),
                    start == tank_views(old(tanks).tanks_spec()),
                    delta == self.delta_spec(*scan),
                    tank_views(tanks.tanks_spec()) == scan_tracked(
                        start,
                        *scan,
                        delta,
                        *world_size,
                        turn,
                        *ref_pos,
                        (y * SCANNING_DISTANCE + x) as int,
                    ),
                decreases SCANNING_DISTANCE - x,
            {
                proof {
                    vstd::arithmetic::div_mod::lemma_fundamental_div_mod_converse(
                        (y * SCANNING_DISTANCE + x) as int,
                        SCANNING_DISTANCE as int,
                        y as int,
                        x as int,
                    );
                }
                if let Some(abs_pos) = self.position_absolute(&delta, Position { x, y }, world_size) {
                    if let MapCell::Player(d, _) = scan.data[y][x] {
                        if d.alive {
                            tanks.track(&d, abs_pos, turn, ref_pos);
                        }
                    }
                }
                x = x + 1;
            }
            y = y + 1;
        }
    }
}

impl PositionResolver for ScanProces {
    open spec fn shows_me(&self, scan: ScanResult) -> bool {
        exists|y: int, x: int|
            0 <= y < SCANNING_DISTANCE && 0 <= x < SCANNING_DISTANCE && holds_player(
                #[trigger] scan.cell(y, x),
                self.id_spec(),
            )
    }

    /// The offset from scan cells to world cells: the player's world position less its
    /// place in the scan.
    fn position_delta(&self, scan: &ScanResult) -> (r: PositionDelta)
        ensures
            r.x == (self.abs_pos_spec().x - player_spot(*scan, self.id_spec()).0) as isize,
            r.y == (self.abs_pos_spec().y - player_spot(*scan, self.id_spec()).1) as isize,
    {
        let rel_pos = self.player_rel_pos(scan);
        PositionDelta {
            x: (self.abs_pos.x as i128 - rel_pos.x as i128) as isize,
            y: (self.abs_pos.y as i128 - rel_pos.y as i128) as isize,
        }
    }

    /// The world cell of a scan cell, when it lies inside the world's border ring.
    fn position_absolute(&self, delta: &PositionDelta, rel_pos: Position, world_size: &WorldSize) -> (r:
        Option<Position>)
        ensures
            r == absolute(*delta, rel_pos, *world_size),
    {
        let sum_x: i128 = delta.x as i128 + rel_pos.x as i128;
        let sum_y: i128 = delta.y as i128 + rel_pos.y as i128;
        let abs_x: i128 = if sum_x > 0 {
            sum_x
        } else {
            0
        };
        let abs_y: i128 = if sum_y > 0 {
            sum_y
        } else {
            0
        };
        if abs_y == 0 || abs_x == 0 || abs_y + 1 >= world_size.y as i128 || abs_x + 1
            >= world_size.x as i128 {
            return None;
        }
        let abs_pos = Position { x: abs_x as usize, y: abs_y as usize };
        Some(abs_pos)
    }

    /// Where the player shows in the scan.
    fn player_rel_pos(&self, scan: &ScanResult) -> (r: Position)
        ensures
            r.x == player_spot(*scan, self.id_spec()).0,
            r.y == player_spot(*scan, self.id_spec()).1,
    {
        let center = SCANNING_DISTANCE / 2;
        let max = SCANNING_DISTANCE - 1;
        let (x, y) = match scan.scan_type {
            ScanType::Omni => (center, center),
            ScanType::Mono(orientation) => match orientation {
                Orientation::North => (center, max),
                Orientation::East => (0, center),
                Orientation::South => (center, 0),
                Orientation::West => (max, center),
                Orientation::NorthEast => (0, max),
                Orientation::SouthEast => (0, 0),
                Orientation::SouthWest => (max, 0),
                Orientation::NorthWest => (max, max),
            },
        };

        if let MapCell::Player(details, _) = scan.data[y][x] {
            if details.id == self.id {
                return Position { x, y };
            }
        }
        assert(player_spot(*scan, self.id_spec()) == first_spot(*scan, self.id_spec(), 0));
        let mut yy: usize = 0;
        while yy < SCANNING_DISTANCE
            invariant
                yy <= SCANNING_DISTANCE,
                self.shows_me(*scan),
                player_spot(*scan, self.id_spec()) == first_spot(*scan, self.id_spec(), 0),
                forall|ry: int, rx: int|
                    0 <= ry < yy && 0 <= rx < SCANNING_DISTANCE ==> !holds_player(
                        #[trigger] scan.cell(ry, rx),
                        self.id,
                    ),
                first_spot(*scan, self.id, 0) == first_spot(
                    *scan,
                    self.id,
                    (yy * SCANNING_DISTANCE) as int,
                ),
            decreases SCANNING_DISTANCE - yy,
        {
            let mut xx: usize = 0;
            while xx < SCANNING_DISTANCE
                invariant
                    yy < SCANNING_DISTANCE,
                    xx <= SCANNING_DISTANCE,
                    self.shows_me(*scan),
                    player_spot(*scan, self.id_spec()) == first_spot(*scan, self.id_spec(), 0),
                    forall|ry: int, rx: int|
                        0 <= ry < yy && 0 <= rx < SCANNING_DISTANCE ==> !holds_player(
                            #[trigger] scan.cell(ry, rx),
                            self.id,
                        ),
                    forall|rx: int|
                        0 <= rx < xx ==> !holds_player(
                            #[trigger] scan.cell(yy as int, rx),
                            self.id,
                        ),
                    first_spot(*scan, self.id, 0) == first_spot(
                        *scan,
                        self.id,
                        (yy * SCANNING_DISTANCE + xx) as int,
                    ),
                decreases SCANNING_DISTANCE - xx,
            {
                proof {
                    vstd::arithmetic::div_mod::lemma_fundamental_div_mod_converse(
                        (yy * SCANNING_DISTANCE + xx) as int,
                        SCANNING_DISTANCE as int,
                        yy as int,
                        xx as int,
                    );
                }
                if let MapCell::Player(player, _) = scan.data[yy][xx] {
                    if player.id == self.id {
                        return Position { x: xx, y: yy };
                    }
                }
                xx = xx + 1;
            }
            yy = yy + 1;
        }
        proof {
            let (wy, wx) = choose|y: int, x: int|
                0 <= y < SCANNING_DISTANCE && 0 <= x < SCANNING_DISTANCE && holds_player(
                    #[trigger] scan.cell(y, x),
                    self.id,
                );
            assert(!holds_player(scan.cell(wy, wx), self.id));
        }
        Position { x: 0, y: 0 }
    }
}

} // verus!
