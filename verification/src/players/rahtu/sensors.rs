use vstd::prelude::*;

use crate::api::{
    context::Context,
    map_cell::{MapCell, Terrain, TreeType},
    orientation::Orientation,
    path_finder::Navigator,
    player::Details,
    position::{Position, SCANNING_DISTANCE},
    scan::{ScanResult, ScanType},
    world_size::MAX_WORLD_SIZE,
};

use super::shared::{SensorData, SensorMap, Track};

verus! {

/// The width of the world that the tank explores.
pub const WORLD_WIDTH: usize = 60;

/// The height of the world that the tank explores.
pub const WORLD_HEIGHT: usize = 45;

/// For the scans that the map records, how far a scanned cell lies from its grid cell:
/// the grid cell of scan cell (sx, sy) is (sx + ox, sy + oy).
pub open spec fn scan_offset(scan_type: ScanType, pos: Position) -> Option<(int, int)> {
    let d = SCANNING_DISTANCE as int;
    match scan_type {
        ScanType::Mono(Orientation::NorthWest) => Some((pos.x - (d - 1), pos.y - (d - 1))),
        ScanType::Mono(Orientation::NorthEast) => Some((pos.x as int, pos.y - (d - 1))),
        ScanType::Mono(Orientation::SouthEast) => Some((pos.x as int, pos.y as int)),
        ScanType::Mono(Orientation::SouthWest) => Some((pos.x - (d - 1), pos.y as int)),
        ScanType::Mono(_) => None,
        ScanType::Omni => Some((pos.x - d / 2, pos.y - d / 2)),
    }
}

/// The first grid column that a scan records (a north-west scan leaves out the column
/// at the western edge).
pub open spec fn first_column(scan_type: ScanType) -> int {
    if scan_type == ScanType::Mono(Orientation::NorthWest) {
        1
    } else {
        0
    }
}

/// Whether the grid cell (gx, gy) is recorded from the scan, and from which scan cell.
pub open spec fn covered(scan_type: ScanType, pos: Position, gx: int, gy: int) -> bool {
    match scan_offset(scan_type, pos) {
        Some((ox, oy)) => {
            &&& gx >= first_column(scan_type)
            &&& gy >= 0
            &&& 0 <= gx - ox < SCANNING_DISTANCE
            &&& 0 <= gy - oy < SCANNING_DISTANCE
        },
        None => false,
    }
}

/// What the map records for a terrain.
pub open spec fn terrain_state(t: Terrain) -> SensorData {
    if t == Terrain::Field {
        SensorData::Empty
    } else {
        SensorData::Blocked
    }
}

/// What the map records for a scanned cell: the state of its terrain, blocked for an
/// unexplored cell or a dead tank.
pub open spec fn sensed_state(cell: MapCell) -> SensorData {
    match cell {
        MapCell::Explosion(_, t) => terrain_state(t),
        MapCell::Player(d, t) => if d.alive {
            terrain_state(t)
        } else {
            SensorData::Blocked
        },
        MapCell::Shell(_, t) => terrain_state(t),
        MapCell::Terrain(t) => terrain_state(t),
        MapCell::Unallocated => SensorData::Blocked,
    }
}

/// The scan cell that the `k`-th store of `update_map` reads: columns outside, rows inside.
pub open spec fn store_cell(k: int) -> (int, int) {
    (k / (SCANNING_DISTANCE as int), k % (SCANNING_DISTANCE as int))
}

/// The tracks after the first `n` stores of a scan: each living tank other than `me`
/// seen on the grid goes in front, stamped with the turn.
pub open spec fn tracks_after(
    old_tracks: Seq<Track>,
    scan: ScanResult,
    pos: Position,
    me: u8,
    turn: usize,
    n: int,
) -> Seq<Track>
    decreases n,
{
    if n <= 0 {
        old_tracks
    } else {
        let before = tracks_after(old_tracks, scan, pos, me, turn, n - 1);
        let (sx, sy) = store_cell(n - 1);
        let (ox, oy) = scan_offset(scan.scan_type, pos)->0;
        let gx = sx + ox;
        let gy = sy + oy;
        if scan_offset(scan.scan_type, pos) is Some && covered(scan.scan_type, pos, gx, gy) && gx
            < MAX_WORLD_SIZE && gy < MAX_WORLD_SIZE && (scan.cell(sy, sx) matches MapCell::Player(
            d,
            _,
        ) && d.id != me && d.alive) {
            seq![Track { x: gx as usize, y: gy as usize, timestamp: turn as i32 }] + before
        } else {
            before
        }
    }
}

/// The direction in which `target` lies, as the tank reads it: a shared column counts
/// as East, a shared row as South, and the diagonals by their quadrant.
pub open spec fn direction_spec(me: Position, target: Position) -> Option<Orientation> {
    let rx = target.x - me.x;
    let ry = target.y - me.y;
    if target.x == me.x {
        Some(Orientation::East)
    } else if target.y == me.y {
        Some(Orientation::South)
    } else if rx == ry {
        if rx < 0 {
            Some(Orientation::NorthWest)
        } else {
            Some(Orientation::SouthEast)
        }
    } else if rx == -ry {
        if rx < 0 {
            Some(Orientation::SouthWest)
        } else {
            Some(Orientation::NorthEast)
        }
    } else {
        None
    }
}

/// The diagonal quadrant in which `target` lies.
pub open spec fn ordinal_spec(me: Position, target: Position) -> Orientation {
    let rx = target.x - me.x;
    let ry = target.y - me.y;
    if rx < 0 {
        if ry < 0 {
            Orientation::NorthWest
        } else {
            Orientation::SouthWest
        }
    } else {
        if ry < 0 {
            Orientation::NorthEast
        } else {
            Orientation::SouthEast
        }
    }
}

impl SensorMap {
    pub fn new() -> (r: Self)
        ensures
            r.wf(),
            forall|x: int, y: int|
                0 <= x < MAX_WORLD_SIZE && 0 <= y < MAX_WORLD_SIZE ==> #[trigger] r.sensed(x, y)
                    == SensorData::NotScanned,
            r.tracks@.len() == 0,
            !r.initial_scan_done,
            r.actions_since_last_scan_northwest == 100,
            r.actions_since_last_scan_northeast == 100,
            r.actions_since_last_scan_southeast == 100,
            r.actions_since_last_scan_southwest == 100,
    {
        let mut v: Vec<Vec<SensorData>> = Vec::new();
        // initialize
        let mut i: usize = 0;
        while i < MAX_WORLD_SIZE
            invariant
                i <= MAX_WORLD_SIZE,
                v@.len() == i,
                forall|x: int| 0 <= x < i ==> (#[trigger] v@[x])@.len() == MAX_WORLD_SIZE,
                forall|x: int, y: int|
                    0 <= x < i && 0 <= y < MAX_WORLD_SIZE ==> #[trigger] v@[x]@[y]
                        == SensorData::NotScanned,
            decreases MAX_WORLD_SIZE - i,
        {
            let mut line: Vec<SensorData> = Vec::new();
            let mut j: usize = 0;
            while j < MAX_WORLD_SIZE
                invariant
                    j <= MAX_WORLD_SIZE,
                    line@.len() == j,
                    forall|y: int| 0 <= y < j ==> #[trigger] line@[y] == SensorData::NotScanned,
                decreases MAX_WORLD_SIZE - j,
            {
                line.push(SensorData::NotScanned);
                j = j + 1;
            }
            v.push(line);
            i = i + 1;
        }
        Self {
            sensor_data: v,
            tracks: Vec::new(),
            initial_scan_done: false,
            actions_since_last_scan_northwest: 100,
            actions_since_last_scan_northeast: 100,
            actions_since_last_scan_southeast: 100,  // "never"
            actions_since_last_scan_southwest: 100,
        }
    }

    /// Records a scan: the cells it covers go on the grid, the tanks it shows go on the
    /// tracks, and the clock of that kind of scan is reset (an omni scan marks the
    /// first scan as done).
    pub fn update_map(&mut self, context: &Context)
        ensures
            map_updated(*old(self), *final(self), *context),
    {
        if let Some(scanned_data) = context.scanned_data() {
            let pos = context.position();
            match scanned_data.scan_type {
                ScanType::Mono(Orientation::NorthWest) => {
                    self.actions_since_last_scan_northwest = 0;
                },
                ScanType::Mono(Orientation::NorthEast) => {
                    self.actions_since_last_scan_northeast = 0;
                },
                ScanType::Mono(Orientation::SouthEast) => {
                    self.actions_since_last_scan_southeast = 0;
                },
                ScanType::Mono(Orientation::SouthWest) => {
                    self.actions_since_last_scan_southwest = 0;
                },
                ScanType::Mono(_) => {},
                ScanType::Omni => {
                    self.initial_scan_done = true;
                },
            }
            let recorded = match scanned_data.scan_type {
                ScanType::Mono(Orientation::NorthWest) => true,
                ScanType::Mono(Orientation::NorthEast) => true,
                ScanType::Mono(Orientation::SouthEast) => true,
                ScanType::Mono(Orientation::SouthWest) => true,
                ScanType::Mono(_) => false,
                ScanType::Omni => true,
            };
            if recorded {
                self.store_scan(context, scanned_data);
            } else {
                proof {
                    assert(tracks_after(
                        self.tracks@,
                        *scanned_data,
                        *pos,
                        context.details().id,
                        context.turn_spec(),
                        SCANNING_DISTANCE * SCANNING_DISTANCE,
                    ) == self.tracks@) by {
                        lemma_no_tracks(
                            self.tracks@,
                            *scanned_data,
                            *pos,
                            context.details().id,
                            context.turn_spec(),
                            SCANNING_DISTANCE * SCANNING_DISTANCE,
                        );
                    }
                }
            }
        }
    }

    /// Copies every cell of a recorded scan onto the grid, columns outside and rows inside.
    fn store_scan(&mut self, context: &Context, scanned_data: &ScanResult)
        requires
            scan_offset(scanned_data.scan_type, context.position_spec()) is Some,
        ensures
            old(self).wf() ==> final(self).wf(),
            old(self).wf() ==> forall|gx: int, gy: int|
                0 <= gx < MAX_WORLD_SIZE && 0 <= gy < MAX_WORLD_SIZE ==> #[trigger] final(self).sensed(
                    gx,
                    gy,
                ) == if covered(scanned_data.scan_type, context.position_spec(), gx, gy) {
                    let (ox, oy) = scan_offset(scanned_data.scan_type, context.position_spec())->0;
                    sensed_state(scanned_data.cell(gy - oy, gx - ox))
                } else {
                    old(self).sensed(gx, gy)
                },
            old(self).wf() ==> final(self).tracks@ == tracks_after(
                old(self).tracks@,
                *scanned_data,
                context.position_spec(),
                context.details().id,
                context.turn_spec(),
                SCANNING_DISTANCE * SCANNING_DISTANCE,
            ),
            final(self).initial_scan_done == old(self).initial_scan_done,
            final(self).actions_since_last_scan_northwest == old(self).actions_since_last_scan_northwest,
            final(self).actions_since_last_scan_northeast == old(self).actions_since_last_scan_northeast,
            final(self).actions_since_last_scan_southeast == old(self).actions_since_last_scan_southeast,
            final(self).actions_since_last_scan_southwest == old(self).actions_since_last_scan_southwest,
    {
        let pos = context.position();
        let ghost scan_type = scanned_data.scan_type;
        let ghost (ox, oy) = scan_offset(scan_type, *pos)->0;
        let ghost start = *self;
        let d = SCANNING_DISTANCE;
        let mut scan_x: usize = 0;
        while scan_x < d
            invariant
                scan_x <= d,
                d == SCANNING_DISTANCE,
                pos.x < MAX_WORLD_SIZE,
                pos.y < MAX_WORLD_SIZE,
                *pos == context.position_spec(),
                scan_offset(scan_type, *pos) == Some((ox, oy)),
                scan_type == scanned_data.scan_type,
                start.wf() ==> self.wf(),
                start.wf() ==> forall|gx: int, gy: int|
                    0 <= gx < MAX_WORLD_SIZE && 0 <= gy < MAX_WORLD_SIZE ==> #[trigger] self.sensed(
                        gx,
                        gy,
                    ) == if covered(scan_type, *pos, gx, gy) && gx - ox < scan_x {
                        sensed_state(scanned_data.cell(gy - oy, gx - ox))
                    } else {
                        start.sensed(gx, gy)
                    },
                start.wf() ==> self.tracks@ == tracks_after(
                    start.tracks@,
                    *scanned_data,
                    *pos,
                    context.details().id,
                    context.turn_spec(),
                    scan_x * SCANNING_DISTANCE,
                ),
                self.initial_scan_done == start.initial_scan_done,
                self.actions_since_last_scan_northwest == start.actions_since_last_scan_northwest,
                self.actions_since_last_scan_northeast == start.actions_since_last_scan_northeast,
                self.actions_since_last_scan_southeast == start.actions_since_last_scan_southeast,
                self.actions_since_last_scan_southwest == start.actions_since_last_scan_southwest,
            decreases d - scan_x,
        {
            let mut scan_y: usize = 0;
            while scan_y < d
                invariant
                    scan_x < d,
                    scan_y <= d,
                    d == SCANNING_DISTANCE,
                    pos.x < MAX_WORLD_SIZE,
                    pos.y < MAX_WORLD_SIZE,
                    *pos == context.position_spec(),
                    scan_offset(scan_type, *pos) == Some((ox, oy)),
                    scan_type == scanned_data.scan_type,
                    start.wf() ==> self.wf(),
                    start.wf() ==> forall|gx: int, gy: int|
                        0 <= gx < MAX_WORLD_SIZE && 0 <= gy < MAX_WORLD_SIZE ==> #[trigger] self.sensed(
                            gx,
                            gy,
                        ) == if covered(scan_type, *pos, gx, gy) && (gx - ox < scan_x || (gx - ox
                            == scan_x && gy - oy < scan_y)) {
                            sensed_state(scanned_data.cell(gy - oy, gx - ox))
                        } else {
                            start.sensed(gx, gy)
                        },
                    start.wf() ==> self.tracks@ == tracks_after(
                        start.tracks@,
                        *scanned_data,
                        *pos,
                        context.details().id,
                        context.turn_spec(),
                        scan_x * SCANNING_DISTANCE + scan_y,
                    ),
                    self.initial_scan_done == start.initial_scan_done,
                    self.actions_since_last_scan_northwest
                        == start.actions_since_last_scan_northwest,
                    self.actions_since_last_scan_northeast
                        == start.actions_since_last_scan_northeast,
                    self.actions_since_last_scan_southeast
                        == start.actions_since_last_scan_southeast,
                    self.actions_since_last_scan_southwest
                        == start.actions_since_last_scan_southwest,
                decreases d - scan_y,
            {
                let ghost k = scan_x * SCANNING_DISTANCE + scan_y;
                proof {
                    assert(store_cell(k) == (scan_x as int, scan_y as int)) by {
                        vstd::arithmetic::div_mod::lemma_fundamental_div_mod_converse(
                            k,
                            SCANNING_DISTANCE as int,
                            scan_x as int,
                            scan_y as int,
                        );
                    }
                }
                let target = self.landing(&scanned_data.scan_type, pos, scan_x, scan_y);
                if let Some((global_x, global_y)) = target {
                    self.store_map_tile(context, global_x, global_y, scanned_data.data[scan_y][scan_x]);
                }
                scan_y = scan_y + 1;
            }
            scan_x = scan_x + 1;
        }
    }

    /// The grid cell of a scan cell, or none when the scan leaves it out.
    fn landing(&self, scan_type: &ScanType, pos: &Position, scan_x: usize, scan_y: usize) -> (r:
        Option<(usize, usize)>)
        requires
            scan_offset(*scan_type, *pos) is Some,
            scan_x < SCANNING_DISTANCE,
            scan_y < SCANNING_DISTANCE,
            pos.x < MAX_WORLD_SIZE,
            pos.y < MAX_WORLD_SIZE,
        ensures
            ({
                let (ox, oy) = scan_offset(*scan_type, *pos)->0;
                &&& r matches Some((gx, gy)) ==> gx == scan_x + ox && gy == scan_y + oy && covered(
                    *scan_type,
                    *pos,
                    gx as int,
                    gy as int,
                )
                &&& r is None ==> !covered(*scan_type, *pos, scan_x + ox, scan_y + oy)
            }),
    {
        let d = SCANNING_DISTANCE;
        match scan_type {
            ScanType::Mono(Orientation::NorthWest) => {
                if pos.x + scan_x < d || pos.y + scan_y < d - 1 {
                    None
                } else {
                    Some((pos.x + scan_x - (d - 1), pos.y + scan_y - (d - 1)))
                }
            },
            ScanType::Mono(Orientation::NorthEast) => {
                if pos.y + scan_y < d - 1 {
                    None
                } else {
                    Some((pos.x + scan_x, pos.y + scan_y - (d - 1)))
                }
            },
            ScanType::Mono(Orientation::SouthWest) => {
                if pos.x + scan_x < d - 1 {
                    None
                } else {
                    Some((pos.x + scan_x - (d - 1), pos.y + scan_y))
                }
            },
            ScanType::Omni => {
                if pos.x + scan_x < d / 2 || pos.y + scan_y < d / 2 {
                    None
                } else {
                    Some((pos.x + scan_x - d / 2, pos.y + scan_y - d / 2))
                }
            },
            _ => Some((pos.x + scan_x, pos.y + scan_y)),
        }
    }

    fn store_track(&mut self, context: &Context, global_x: usize, global_y: usize, player: Details)
        ensures
            final(self).tracks@ == if player.id != context.details().id && player.alive {
                seq![
                    Track {
                        timestamp: context.turn_spec() as i32,
                        x: global_x,
                        y: global_y,
                    },
                ] + old(self).tracks@
            } else {
                old(self).tracks@
            },
            final(self).sensor_data == old(self).sensor_data,
            final(self).initial_scan_done == old(self).initial_scan_done,
            final(self).actions_since_last_scan_northwest == old(self).actions_since_last_scan_northwest,
            final(self).actions_since_last_scan_northeast == old(self).actions_since_last_scan_northeast,
            final(self).actions_since_last_scan_southeast == old(self).actions_since_last_scan_southeast,
            final(self).actions_since_last_scan_southwest == old(self).actions_since_last_scan_southwest,
    {
        if player.id != context.player_details().id && player.alive {
            let track = Track { timestamp: context.turn() as i32, x: global_x, y: global_y };
            self.tracks.insert(0, track);
            assert(self.tracks@ =~= seq![track] + old(self).tracks@);
        }
    }

    fn store_map_tile(&mut self, context: &Context, global_x: usize, global_y: usize, data: MapCell)
        ensures
            old(self).wf() ==> final(self).wf(),
            old(self).wf() ==> forall|gx: int, gy: int|
                0 <= gx < MAX_WORLD_SIZE && 0 <= gy < MAX_WORLD_SIZE ==> #[trigger] final(self).sensed(
                    gx,
                    gy,
                ) == if gx == global_x && gy == global_y {
                    sensed_state(data)
                } else {
                    old(self).sensed(gx, gy)
                },
            old(self).wf() ==> final(self).tracks@ == if global_x < MAX_WORLD_SIZE && global_y
                < MAX_WORLD_SIZE && (data matches MapCell::Player(d, _) && d.id
                != context.details().id && d.alive) {
                seq![
                    Track {
                        timestamp: context.turn_spec() as i32,
                        x: global_x,
                        y: global_y,
                    },
                ] + old(self).tracks@
            } else {
                old(self).tracks@
            },
            final(self).initial_scan_done == old(self).initial_scan_done,
            final(self).actions_since_last_scan_northwest == old(self).actions_since_last_scan_northwest,
            final(self).actions_since_last_scan_northeast == old(self).actions_since_last_scan_northeast,
            final(self).actions_since_last_scan_southeast == old(self).actions_since_last_scan_southeast,
            final(self).actions_since_last_scan_southwest == old(self).actions_since_last_scan_southwest,
    {
        if global_x >= MAX_WORLD_SIZE || global_y >= MAX_WORLD_SIZE {
            return;
        }
        if global_x >= self.sensor_data.len() || global_y >= self.sensor_data[global_x].len() {
            return;
        }
        let mut cell = Terrain::Swamp;
        let mut player: Option<Details> = None;
        match data {
            MapCell::Explosion(_, terrain) => cell = terrain,
            MapCell::Player(details, terrain) => {
                player = Some(details);
                cell = terrain;
            },
            MapCell::Shell(_, terrain) => cell = terrain,
            MapCell::Terrain(terrain) => cell = terrain,
            MapCell::Unallocated => (),
        }

        let mut state = match cell {
            Terrain::Field => SensorData::Empty,
            Terrain::Lake => SensorData::Blocked,
            Terrain::Forest(_) => SensorData::Blocked,
            Terrain::Swamp => SensorData::Blocked,
        };

        if let Some(player) = player {
            self.store_track(context, global_x, global_y, player);
            if !player.alive {
                state = SensorData::Blocked;
            }
        }
        let mut column = self.sensor_data[global_x].clone();
        column.set(global_y, state);
        self.sensor_data.set(global_x, column);
        proof {
            assert forall|gx: int, gy: int|
                0 <= gx < MAX_WORLD_SIZE && 0 <= gy < MAX_WORLD_SIZE && old(self).wf() implies #[trigger] self.sensed(
                gx,
                gy,
            ) == if gx == global_x && gy == global_y {
                sensed_state(data)
            } else {
                old(self).sensed(gx, gy)
            } by {
                if gx != global_x {
                    assert(self.sensor_data@[gx] == old(self).sensor_data@[gx]);
                }
            }
        }
    }

    /// The sensed state of a cell; cells beyond the grid's edges count as blocked.
    fn get_map_tile(&self, x: isize, y: isize) -> (r: SensorData)
        ensures
            r == if x < 0 || y < 0 {
                SensorData::Blocked
            } else {
                self.tile(x as int, y as int)
            },
    {
        if x < 0 || x >= MAX_WORLD_SIZE as isize {
            return SensorData::Blocked;
        }
        if y < 0 || y >= MAX_WORLD_SIZE as isize {
            return SensorData::Blocked;
        }
        if x as usize >= self.sensor_data.len() || y as usize >= self.sensor_data[x as usize].len() {
            return SensorData::Blocked;
        }
        return self.sensor_data[x as usize][y as usize];
    }

    /// The first cell, column by column, that was never scanned, away from the edges of
    /// the world.
    pub fn get_any_unexplored_tile(&self) -> (r: Option<Position>)
        ensures
            r matches Some(p) ==> first_unexplored(*self, p),
            r is None ==> forall|x: int, y: int|
                3 <= x < WORLD_WIDTH - 3 && 3 <= y < WORLD_HEIGHT - 3 ==> #[trigger] self.tile(x, y)
                    != SensorData::NotScanned,
    {
        let mut x: usize = 3;
        while x < WORLD_WIDTH - 3
            invariant
                3 <= x <= WORLD_WIDTH - 3,
                forall|xx: int, yy: int|
                    3 <= xx < x && 3 <= yy < WORLD_HEIGHT - 3 ==> #[trigger] self.tile(xx, yy)
                        != SensorData::NotScanned,
            decreases WORLD_WIDTH - 3 - x,
        {
            let mut y: usize = 3;
            while y < WORLD_HEIGHT - 3
                invariant
                    3 <= x < WORLD_WIDTH - 3,
                    3 <= y <= WORLD_HEIGHT - 3,
                        forall|xx: int, yy: int|
                        3 <= xx < x && 3 <= yy < WORLD_HEIGHT - 3 ==> #[trigger] self.tile(xx, yy)
                            != SensorData::NotScanned,
                    forall|yy: int|
                        3 <= yy < y ==> #[trigger] self.tile(x as int, yy)
                            != SensorData::NotScanned,
                decreases WORLD_HEIGHT - 3 - y,
            {
                match self.get_map_tile(x as isize, y as isize) {
                    SensorData::NotScanned => return Some(Position { x: x, y: y }),
                    _ => (),
                }
                y = y + 1;
            }
            x = x + 1;
        }
        return None;
    }

    /// The direction of the first track stamped this turn or the turn before that lies
    /// in a direction the tank can read.
    pub fn available_cardinal_shot(&self, context: &Context) -> (r: Option<Orientation>)
        requires
            context.turn_spec() > 0 || forall|i: int|
                0 <= i < self.tracks@.len() ==> (#[trigger] self.tracks@[i]).timestamp as usize
                    == context.turn_spec(),
        ensures
            r matches Some(o) ==> exists|i: int|
                0 <= i < self.tracks@.len() && recent(self.tracks@[i], context.turn_spec())
                    && direction_spec(
                    context.position_spec(),
                    Position { x: self.tracks@[i].x, y: self.tracks@[i].y },
                ) == Some(o) && forall|j: int|
                    0 <= j < i ==> !(recent(#[trigger] self.tracks@[j], context.turn_spec())
                        && direction_spec(
                        context.position_spec(),
                        Position { x: self.tracks@[j].x, y: self.tracks@[j].y },
                    ) is Some),
            r is None ==> forall|j: int|
                0 <= j < self.tracks@.len() ==> !(recent(#[trigger] self.tracks@[j], context.turn_spec())
                    && direction_spec(
                    context.position_spec(),
                    Position { x: self.tracks@[j].x, y: self.tracks@[j].y },
                ) is Some),
    {
        let mut i: usize = 0;
        while i < self.tracks.len()
            invariant
                i <= self.tracks@.len(),
                context.turn_spec() > 0 || forall|k: int|
                    0 <= k < self.tracks@.len() ==> (#[trigger] self.tracks@[k]).timestamp as usize
                        == context.turn_spec(),
                forall|j: int|
                    0 <= j < i ==> !(recent(#[trigger] self.tracks@[j], context.turn_spec())
                        && direction_spec(
                        context.position_spec(),
                        Position { x: self.tracks@[j].x, y: self.tracks@[j].y },
                    ) is Some),
            decreases self.tracks@.len() - i,
        {
            let track = self.tracks[i];
            if track.timestamp as usize == context.turn() || track.timestamp as usize
                == context.turn() - 1 {
                if let Some(direction) = self.get_direction_to_position(
                    context,
                    &Position { x: track.x, y: track.y },
                ) {
                    return Some(direction);
                }
            }
            i = i + 1;
        }
        return None;
    }

    pub fn get_direction_to_position(&self, context: &Context, position: &Position) -> (r: Option<
        Orientation,
    >)
        ensures
            r == direction_spec(context.position_spec(), *position),
    {
        let me = context.position();
        if position.x == me.x {
            if position.x < me.x {
                return Some(Orientation::West);
            } else {
                return Some(Orientation::East);
            }
        }
        if position.y == me.y {
            if position.y < me.y {
                return Some(Orientation::North);
            } else {
                return Some(Orientation::South);
            }
        }
        let relative_x = position.x as i128 - me.x as i128;
        let relative_y = position.y as i128 - me.y as i128;
        if relative_x == relative_y {
            if relative_x < 0 {
                return Some(Orientation::NorthWest);
            } else {
                return Some(Orientation::SouthEast);
            }
        }
        if relative_x == -relative_y {
            if relative_x < 0 {
                return Some(Orientation::SouthWest);
            } else {
                return Some(Orientation::NorthEast);
            }
        }
        return None;
    }

    pub fn get_closest_ordinal_direction_to_position(&self, context: &Context, position: &Position) -> (r:
        Orientation)
        ensures
            r == ordinal_spec(context.position_spec(), *position),
    {
        let me = context.position();
        let relative_x = position.x as i128 - me.x as i128;
        let relative_y = position.y as i128 - me.y as i128;
        if relative_x < 0 {
            if relative_y < 0 {
                return Orientation::NorthWest;
            } else {
                return Orientation::SouthWest;
            }
        } else {
            if relative_y < 0 {
                return Orientation::NorthEast;
            } else {
                return Orientation::SouthEast;
            }
        }
    }
}

/// A track stamped this turn or the turn before.
pub open spec fn recent(track: Track, turn: usize) -> bool {
    track.timestamp as usize == turn || (turn > 0 && track.timestamp as usize == turn - 1)
}

/// A scan whose kind the map does not record leaves the tracks as they were.
proof fn lemma_no_tracks(
    old_tracks: Seq<Track>,
    scan: ScanResult,
    pos: Position,
    me: u8,
    turn: usize,
    n: int,
)
    requires
        scan_offset(scan.scan_type, pos) is None,
    ensures
        tracks_after(old_tracks, scan, pos, me, turn, n) == old_tracks,
    decreases n,
{
    if n > 0 {
        lemma_no_tracks(old_tracks, scan, pos, me, turn, n - 1);
    }
}

/// What recording a scan does to the map: the cells the scan covers go on the grid, the
/// tanks it shows go on the tracks, and the clock of that kind of scan is reset (an omni
/// scan marks the first scan as done); without a scan the map stays as it was.
pub open spec fn map_updated(old: SensorMap, new: SensorMap, context: Context) -> bool {
    &&& (old.wf() ==> new.wf())
    &&& (context.scan_spec() is None ==> new == old)
    &&& (context.scan_spec() matches Some(scan) ==> {
                &&& scan_offset(scan.scan_type, context.position_spec()) is None ==> new.sensor_data
                    == old.sensor_data && new.tracks == old.tracks
                &&& old.wf() ==> forall|gx: int, gy: int|
                    0 <= gx < MAX_WORLD_SIZE && 0 <= gy < MAX_WORLD_SIZE ==> #[trigger] new.sensed(gx, gy) == if covered(scan.scan_type, context.position_spec(), gx, gy) {
                        let (ox, oy) = scan_offset(scan.scan_type, context.position_spec())->0;
                        sensed_state(scan.cell(gy - oy, gx - ox))
                    } else {
                        old.sensed(gx, gy)
                    }
                &&& old.wf() ==> new.tracks@ == tracks_after(
                    old.tracks@,
                    scan,
                    context.position_spec(),
                    context.details().id,
                    context.turn_spec(),
                    SCANNING_DISTANCE * SCANNING_DISTANCE,
                )
                &&& new.initial_scan_done == (old.initial_scan_done
                    || scan.scan_type == ScanType::Omni)
                &&& new.actions_since_last_scan_northwest == if scan.scan_type
                    == ScanType::Mono(Orientation::NorthWest) {
                    0
                } else {
                    old.actions_since_last_scan_northwest
                }
                &&& new.actions_since_last_scan_northeast == if scan.scan_type
                    == ScanType::Mono(Orientation::NorthEast) {
                    0
                } else {
                    old.actions_since_last_scan_northeast
                }
                &&& new.actions_since_last_scan_southeast == if scan.scan_type
                    == ScanType::Mono(Orientation::SouthEast) {
                    0
                } else {
                    old.actions_since_last_scan_southeast
                }
                &&& new.actions_since_last_scan_southwest == if scan.scan_type
                    == ScanType::Mono(Orientation::SouthWest) {
                    0
                } else {
                    old.actions_since_last_scan_southwest
                }
            })
}

/// Whether `p` is the first cell, column by column and away from the edges of the world,
/// that was never scanned.
pub open spec fn first_unexplored(map: SensorMap, p: Position) -> bool {
    &&& 3 <= p.x < WORLD_WIDTH - 3
    &&& 3 <= p.y < WORLD_HEIGHT - 3
    &&& map.tile(p.x as int, p.y as int) == SensorData::NotScanned
    &&& forall|x: int, y: int|
        3 <= x < WORLD_WIDTH - 3 && 3 <= y < WORLD_HEIGHT - 3 && (x < p.x || (x == p.x && y
            < p.y)) ==> #[trigger] map.tile(x, y) != SensorData::NotScanned
}

/// The cell that the tank's map shows for a position: unexplored, open field, or an
/// obstacle, which it shows as a tree; positions beyond the grid show as obstacles.
pub open spec fn grid_cell(map: SensorMap, p: Position) -> MapCell {
    match map.tile(p.x as int, p.y as int) {
        SensorData::NotScanned => MapCell::Unallocated,
        SensorData::Empty => MapCell::Terrain(Terrain::Field),
        SensorData::Blocked => MapCell::Terrain(Terrain::Forest(TreeType::Deciduous)),
    }
}

impl Navigator for SensorMap {
    open spec fn cell_spec(&self, position: Position) -> MapCell {
        grid_cell(*self, position)
    }

    fn cell_at(&self, position: &Position) -> (r: MapCell) {
        let state = if position.x >= MAX_WORLD_SIZE || position.y >= MAX_WORLD_SIZE || position.x
            >= self.sensor_data.len() || position.y >= self.sensor_data[position.x].len() {
            SensorData::Blocked
        } else {
            self.sensor_data[position.x][position.y]
        };
        match state {
            SensorData::NotScanned => MapCell::Unallocated,
            SensorData::Empty => MapCell::Terrain(Terrain::Field),
            SensorData::Blocked => MapCell::Terrain(Terrain::Forest(TreeType::Deciduous)),
        }
    }
}

} // verus!
