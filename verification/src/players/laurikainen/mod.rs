use vstd::prelude::*;

use crate::api::{
    action::Action,
    aiming::Aiming,
    context::Context,
    direction::Direction,
    map_cell::{MapCell, Terrain},
    orientation::{orientation_index, Orientation},
    player::{Details, Player},
    position::{Position, SCANNING_DISTANCE},
    rotation::Rotation,
    scan::{ScanResult, ScanType},
    world_size::{WorldSize, MAX_WORLD_SIZE},
};
use crate::chance::chance;

verus! {

pub const PLAYER_LIFETIME: u8 = 3;

pub const SCAN_EVERY_NTH_STEP: u8 = 1;

pub const CORNER_OFFSET_X: usize = 6;

pub const CORNER_OFFSET_Y: usize = 4;

pub const CORNER_CAMPING_LIMIT: u32 = 100;

/// Where a scan's first cell lies in the world, as (column, row), for a tank standing at
/// `pos`: an omni scan is centred on the tank, a mono scan lies in front of it.
pub open spec fn scan_origin(scan_type: ScanType, pos: Position) -> (int, int) {
    let d = SCANNING_DISTANCE as int;
    let x = pos.x as int;
    let y = pos.y as int;
    match scan_type {
        ScanType::Mono(o) => match o {
            Orientation::North => (x - d / 2, y - d + 1),
            Orientation::NorthEast => (x, y - d + 1),
            Orientation::East => (x, y - d / 2),
            Orientation::SouthEast => (x, y),
            Orientation::South => (x - d / 2, y),
            Orientation::SouthWest => (x - d + 1, y),
            Orientation::West => (x - d + 1, y - d / 2),
            Orientation::NorthWest => (x - d + 1, y - d + 1),
        },
        ScanType::Omni => (x - d / 2, y - d / 2),
    }
}

/// The world coordinates of a scan's first cell.
pub fn scan_start(scan_type: &ScanType, pos: &Position) -> (r: (isize, isize))
    requires
        pos.x <= MAX_WORLD_SIZE,
        pos.y <= MAX_WORLD_SIZE,
    ensures
        r.0 == scan_origin(*scan_type, *pos).0,
        r.1 == scan_origin(*scan_type, *pos).1,
{
    let dist = SCANNING_DISTANCE as isize;
    let (x, y) = (pos.x as isize, pos.y as isize);
    match scan_type {
        ScanType::Mono(orientation) => match orientation {
            Orientation::North => (x - dist / 2, y - dist + 1),
            Orientation::NorthEast => (x, y - dist + 1),
            Orientation::East => (x, y - dist / 2),
            Orientation::SouthEast => (x, y),
            Orientation::South => (x - dist / 2, y),
            Orientation::SouthWest => (x - dist + 1, y),
            Orientation::West => (x - dist + 1, y - dist / 2),
            Orientation::NorthWest => (x - dist + 1, y - dist + 1),
        },
        ScanType::Omni => (x - dist / 2, y - dist / 2),
    }
}

#[derive(Clone, Copy)]
pub struct DetectedPlayer {
    pub position: Position,
    pub details: Details,
    pub lifetime: u8,
}

pub struct Surroundings {
    pub valid_to_step: Vec<Orientation>,
    pub with_unknown: Vec<Orientation>,
}

pub struct PlayerOne {
    last_action: Action,
    last_scan: Option<ScanResult>,
    scan_counter: u8,
    scan_wall_counter: u8,
    own_map: Option<Vec<Vec<MapCell>>>,
    counter: u32,
    prev_position: Option<Position>,
    detected_players: Sightings,
    turns_without_seeing_a_player: u32,
}

/// The players that the tank keeps track of, each once.
pub struct Sightings {
    entries: Vec<DetectedPlayer>,
}

/// A list of remembered players with `p` recorded: the entry of its player replaced, or
/// `p` added last when its player is new.
pub open spec fn upsert(s: Seq<DetectedPlayer>, p: DetectedPlayer) -> Seq<DetectedPlayer> {
    if exists|i: int| 0 <= i < s.len() && #[trigger] s[i].details == p.details {
        let i = choose|i: int| 0 <= i < s.len() && #[trigger] s[i].details == p.details;
        s.update(i, p)
    } else {
        s.push(p)
    }
}

/// The player that the `k`-th scan cell spots, as the tank records it: where the cell lies
/// in the world, with a fresh lifetime.
pub open spec fn sighting(scan: ScanResult, o: (int, int), me: Position, k: int, d: Details) -> DetectedPlayer {
    let sy = k / (SCANNING_DISTANCE as int);
    let sx = k % (SCANNING_DISTANCE as int);
    DetectedPlayer {
        position: Position { x: (o.0 + sx) as usize, y: (o.1 + sy) as usize },
        details: d,
        lifetime: PLAYER_LIFETIME,
    }
}

/// The remembered players after the first `n` scan cells are looked at: each spotted
/// player recorded in turn.
pub open spec fn remembered_upto(
    s: Seq<DetectedPlayer>,
    scan: ScanResult,
    o: (int, int),
    me: Position,
    n: int,
) -> Seq<DetectedPlayer>
    decreases n,
{
    if n <= 0 {
        s
    } else {
        let prev = remembered_upto(s, scan, o, me, n - 1);
        match spots(scan, o, me, n - 1) {
            Some(d) => upsert(prev, sighting(scan, o, me, n - 1, d)),
            None => prev,
        }
    }
}

impl Sightings {
    /// No player is remembered twice.
    pub closed spec fn wf(self) -> bool {
        forall|i: int, j: int|
            0 <= i < j < self.entries@.len() ==> (#[trigger] self.entries@[i]).details != (
            #[trigger] self.entries@[j]).details
    }

    pub closed spec fn view(self) -> Seq<DetectedPlayer> {
        self.entries@
    }

    pub fn new() -> (r: Self)
        ensures
            r.wf(),
            r@ == Seq::<DetectedPlayer>::empty(),
    {
        Sightings { entries: Vec::new() }
    }

    pub fn len(&self) -> (r: usize)
        ensures
            r == self@.len(),
    {
        self.entries.len()
    }

    pub fn get(&self, i: usize) -> (r: DetectedPlayer)
        requires
            i < self@.len(),
        ensures
            r == self@[i as int],
    {
        self.entries[i]
    }
    /// Records a spotted player: its entry is replaced, or added when it is new.
    /// Ages every remembered player by one turn, as `aged` says, and tells whether one was
    /// dropped.
    pub fn age(&mut self) -> (removed: bool)
        requires
            old(self).wf(),
        ensures
            final(self).wf(),
            final(self)@ == aged(old(self)@),
            removed == (aged(old(self)@).len() < old(self)@.len()),
    {
        let mut removed = false;
        let mut kept: Vec<DetectedPlayer> = Vec::new();
        let ghost all = self.entries@;
        let mut k: usize = 0;
        while k < self.entries.len()
            invariant
                k <= all.len(),
                self.entries@ == all,
                kept@ == aged(all.take(k as int)),
                removed <==> kept@.len() < k,
                kept@.len() <= k,
            decreases all.len() - k,
        {
            let mut player = self.entries[k];
            proof {
                assert(all.take(k + 1).drop_last() =~= all.take(k as int));
                assert(all.take(k + 1).last() == all[k as int]);
            }
            if player.details.alive && player.lifetime > 0 {
                player.lifetime = player.lifetime - 1;
                if player.lifetime > 0 {
                    kept.push(player);
                } else {
                    removed = true;
                }
            } else {
                removed = true;
            }
            k = k + 1;
        }
        proof {
            assert(all.take(all.len() as int) =~= all);
            lemma_aged_distinct(all);
        }
        self.entries = kept;
        removed
    }

    pub fn remember(&mut self, detected: DetectedPlayer)
        requires
            old(self).wf(),
        ensures
            final(self).wf(),
            final(self)@ == upsert(old(self)@, detected),
            exists|i: int|
                0 <= i < final(self)@.len() && final(self)@[i] == detected,
            forall|d: Details|
                #[trigger] tracks(final(self)@, d) <==> (d == detected.details || tracks(
                    old(self)@,
                    d,
                )),
            forall|i: int|
                0 <= i < old(self)@.len() && old(self)@[i].details
                    != detected.details ==> final(self)@.contains(
                    #[trigger] old(self)@[i],
                ),
            forall|i: int|
                0 <= i < final(self)@.len() && final(self)@[i].details
                    != detected.details ==> old(self)@.contains(
                    #[trigger] final(self)@[i],
                ),
    {
        let ghost start = self.entries@;
        let mut i: usize = 0;
        while i < self.entries.len()
            invariant
                i <= self.entries@.len(),
                self.entries@ == start,
                start == old(self)@,
                old(self).wf(),
                forall|j: int| 0 <= j < i ==> self.entries@[j].details != detected.details,
            decreases self.entries@.len() - i,
        {
            if self.entries[i].details == detected.details {
                let ghost before = self.entries@;
                self.entries.set(i, detected);
                proof {
                    assert forall|a: int, b: int|
                        0 <= a < b < self.entries@.len() implies (
                        #[trigger] self.entries@[a]).details != (
                        #[trigger] self.entries@[b]).details by {
                        assert(before[a].details != before[b].details);
                    }
                    assert forall|k: int|
                        0 <= k < before.len() && before[k].details != detected.details implies self.entries@.contains(
                        #[trigger] before[k],
                    ) by {
                        assert(self.entries@[k] == before[k]);
                    }
                    assert forall|k: int|
                        0 <= k < self.entries@.len()
                            && self.entries@[k].details != detected.details implies before.contains(
                        #[trigger] self.entries@[k],
                    ) by {
                        assert(self.entries@[k] == before[k]);
                    }
                    assert(self.entries@[i as int] == detected);
                    assert(self.entries@ == upsert(before, detected)) by {
                        let c = choose|c: int| 0 <= c < before.len() && #[trigger] before[c].details == detected.details;
                        if c != i {
                            if c < i {
                                assert(before[c].details != before[i as int].details);
                            } else {
                                assert(before[i as int].details != before[c].details);
                            }
                        }
                    }
                    assert forall|d: Details|
                        #[trigger] tracks(self.entries@, d) <==> (d == detected.details || tracks(
                            before,
                            d,
                        )) by {
                        if tracks(before, d) && d != detected.details {
                            let w = choose|w: int| 0 <= w < before.len() && #[trigger] before[w].details == d;
                            assert(self.entries@[w] == before[w]);
                        }
                        if tracks(self.entries@, d) && d != detected.details {
                            let w = choose|w: int|
                                0 <= w < self.entries@.len() && #[trigger] self.entries@[w].details == d;
                            assert(self.entries@[w] == before[w]);
                        }
                        if d == detected.details {
                            assert(self.entries@[i as int].details == d);
                        }
                    }
                }
                return;
            }
            i = i + 1;
        }
        let ghost before = self.entries@;
        self.entries.push(detected);
        proof {
            assert forall|k: int|
                0 <= k < before.len() && before[k].details != detected.details implies self.entries@.contains(
                #[trigger] before[k],
            ) by {
                assert(self.entries@[k] == before[k]);
            }
            assert forall|k: int|
                0 <= k < self.entries@.len() && self.entries@[k].details
                    != detected.details implies before.contains(
                #[trigger] self.entries@[k],
            ) by {
                assert(self.entries@[k] == before[k]);
            }
            assert(self.entries@[before.len() as int] == detected);
            assert(self.entries@ == upsert(before, detected));
            assert forall|d: Details|
                #[trigger] tracks(self.entries@, d) <==> (d == detected.details || tracks(
                    before,
                    d,
                )) by {
                if tracks(before, d) {
                    let w = choose|w: int| 0 <= w < before.len() && #[trigger] before[w].details == d;
                    assert(self.entries@[w] == before[w]);
                }
                if tracks(self.entries@, d) && d != detected.details {
                    let w = choose|w: int|
                        0 <= w < self.entries@.len() && #[trigger] self.entries@[w].details == d;
                    assert(w < before.len());
                    assert(self.entries@[w] == before[w]);
                }
                if d == detected.details {
                    assert(self.entries@[before.len() as int].details == d);
                }
            }
        }
    }
}

/// A player that scanning shows, and that the tank takes for a target: alive, and in
/// neither the tank's row nor its column.
pub open spec fn spotted(cell: MapCell, wx: int, wy: int, me: Position) -> bool {
    match cell {
        MapCell::Player(details, _) => details.alive && wx != me.x && wy != me.y,
        _ => false,
    }
}

/// What the tank writes on its map for a scanned cell: a spotted player's terrain, else
/// the cell as scanned.
pub open spec fn mapped_cell(cell: MapCell, wx: int, wy: int, me: Position) -> MapCell {
    match cell {
        MapCell::Player(_, terrain) => if spotted(cell, wx, wy, me) {
            MapCell::Terrain(terrain)
        } else {
            cell
        },
        _ => cell,
    }
}

/// The player that the scan cell with row-major index `k` shows as spotted, if any.
pub open spec fn spots(scan: ScanResult, o: (int, int), me: Position, k: int) -> Option<Details> {
    let sy = k / (SCANNING_DISTANCE as int);
    let sx = k % (SCANNING_DISTANCE as int);
    let cell = scan.cell(sy, sx);
    if spotted(cell, o.0 + sx, o.1 + sy, me) {
        match cell {
            MapCell::Player(d, _) => Some(d),
            _ => None,
        }
    } else {
        None
    }
}

/// Whether one of the first `n` scan cells spots the player.
pub open spec fn spotted_in(scan: ScanResult, o: (int, int), me: Position, d: Details, n: int) -> bool {
    exists|k: int| 0 <= k < n && #[trigger] spots(scan, o, me, k) == Some(d)
}

/// Whether one of the first `n` scan cells spots any player.
pub open spec fn any_spotted_in(scan: ScanResult, o: (int, int), me: Position, n: int) -> bool {
    exists|k: int| 0 <= k < n && #[trigger] spots(scan, o, me, k) is Some
}

/// Whether the map cell (`y`, `x`) is one of the first `n` cells of a scan from `o`.
pub open spec fn among_first(o: (int, int), y: int, x: int, n: int) -> bool {
    &&& o.0 <= x < o.0 + SCANNING_DISTANCE
    &&& o.1 <= y < o.1 + SCANNING_DISTANCE
    &&& (y - o.1) * SCANNING_DISTANCE + (x - o.0) < n
}

/// The map after the first `n` cells of the scan are copied onto `base`.
pub open spec fn scan_copied_upto(
    base: Seq<Seq<MapCell>>,
    map: Seq<Seq<MapCell>>,
    scan: ScanResult,
    o: (int, int),
    me: Position,
    n: int,
) -> bool {
    &&& map.len() == base.len()
    &&& forall|y: int| 0 <= y < map.len() ==> (#[trigger] map[y]).len() == base[y].len()
    &&& forall|y: int, x: int|
        0 <= y < map.len() && 0 <= x < map[y].len() ==> #[trigger] map[y][x] == if among_first(
            o,
            y,
            x,
            n,
        ) {
            mapped_cell(scan.cell(y - o.1, x - o.0), x, y, me)
        } else {
            base[y][x]
        }
}

/// A row-major index splits into its row and column.
proof fn lemma_index_split(i: int, j: int)
    requires
        0 <= i,
        0 <= j < SCANNING_DISTANCE,
    ensures
        (i * SCANNING_DISTANCE + j) / (SCANNING_DISTANCE as int) == i,
        (i * SCANNING_DISTANCE + j) % (SCANNING_DISTANCE as int) == j,
{
    vstd::arithmetic::div_mod::lemma_fundamental_div_mod_converse(
        i * SCANNING_DISTANCE + j,
        SCANNING_DISTANCE as int,
        i,
        j,
    );
}

/// Looking at one more scan cell: the players remembered and the players spotted grow
/// together, and a spotted player is remembered with a fresh lifetime.
proof fn lemma_spotted_step(
    scan: ScanResult,
    o: (int, int),
    me: Position,
    k: int,
    before: Seq<DetectedPlayer>,
    after: Seq<DetectedPlayer>,
    old_detected: Seq<DetectedPlayer>,
)
    requires
        0 <= k,
        forall|d: Details| #[trigger]
            tracks(before, d) <==> (tracks(old_detected, d) || spotted_in(scan, o, me, d, k)),
        forall|d: Details| #[trigger]
            spotted_in(scan, o, me, d, k) ==> exists|q: int|
                0 <= q < before.len() && before[q].details == d && before[q].lifetime
                    == PLAYER_LIFETIME,
        match spots(scan, o, me, k) {
            None => after == before,
            Some(sd) => {
                &&& exists|q: int|
                    0 <= q < after.len() && after[q].details == sd && after[q].lifetime
                        == PLAYER_LIFETIME
                &&& forall|d: Details| #[trigger]
                    tracks(after, d) <==> (d == sd || tracks(before, d))
                &&& forall|q: int|
                    0 <= q < before.len() && before[q].details != sd ==> after.contains(
                        #[trigger] before[q],
                    )
            },
        },
    ensures
        forall|d: Details| #[trigger]
            tracks(after, d) <==> (tracks(old_detected, d) || spotted_in(scan, o, me, d, k + 1)),
        forall|d: Details| #[trigger]
            spotted_in(scan, o, me, d, k + 1) ==> exists|q: int|
                0 <= q < after.len() && after[q].details == d && after[q].lifetime
                    == PLAYER_LIFETIME,
        any_spotted_in(scan, o, me, k + 1) == (any_spotted_in(scan, o, me, k) || spots(scan, o, me, k) is Some),
{
    assert forall|d: Details| spotted_in(scan, o, me, d, k + 1) == (spotted_in(scan, o, me, d, k)
        || spots(scan, o, me, k) == Some(d)) by {
        if spotted_in(scan, o, me, d, k + 1) && spots(scan, o, me, k) != Some(d) {
            let w = choose|w: int| 0 <= w < k + 1 && #[trigger] spots(scan, o, me, w) == Some(d);
            assert(w < k);
        }
    }
    if any_spotted_in(scan, o, me, k + 1) && !(spots(scan, o, me, k) is Some) {
        let w = choose|w: int| 0 <= w < k + 1 && #[trigger] spots(scan, o, me, w) is Some;
        assert(w < k);
    }
    assert forall|d: Details| #[trigger] spotted_in(scan, o, me, d, k + 1) implies exists|q: int|
        0 <= q < after.len() && after[q].details == d && after[q].lifetime == PLAYER_LIFETIME by {
        match spots(scan, o, me, k) {
            None => {
                assert(spotted_in(scan, o, me, d, k));
                let q = choose|q: int|
                    0 <= q < before.len() && before[q].details == d && before[q].lifetime
                        == PLAYER_LIFETIME;
                assert(after[q] == before[q]);
            },
            Some(sd) => {
                if d == sd {
                } else {
                    assert(spotted_in(scan, o, me, d, k));
                    let q = choose|q: int|
                        0 <= q < before.len() && before[q].details == d && before[q].lifetime
                            == PLAYER_LIFETIME;
                    assert(after.contains(before[q]));
                    let q2 = choose|q2: int| 0 <= q2 < after.len() && after[q2] == before[q];
                    assert(after[q2].details == d);
                }
            },
        }
    }
}

/// Copying one more scan cell onto the map, at the cell the scan places it on.
proof fn lemma_copy_step(
    base: Seq<Seq<MapCell>>,
    m0: Seq<Seq<MapCell>>,
    m1: Seq<Seq<MapCell>>,
    scan: ScanResult,
    o: (int, int),
    me: Position,
    i: int,
    j: int,
    written: bool,
)
    requires
        0 <= i < SCANNING_DISTANCE,
        0 <= j < SCANNING_DISTANCE,
        scan_copied_upto(base, m0, scan, o, me, i * SCANNING_DISTANCE + j),
        written ==> {
            &&& m1.len() == m0.len()
            &&& forall|y: int| 0 <= y < m1.len() ==> (#[trigger] m1[y]).len() == m0[y].len()
            &&& forall|y: int, x: int|
                0 <= y < m1.len() && 0 <= x < m1[y].len() ==> #[trigger] m1[y][x] == if y == o.1
                    + i && x == o.0 + j {
                    mapped_cell(scan.cell(i, j), o.0 + j, o.1 + i, me)
                } else {
                    m0[y][x]
                }
        },
        !written ==> m1 == m0 && !(0 <= o.1 + i < m0.len() && 0 <= o.0 + j < m0[o.1 + i].len()),
    ensures
        scan_copied_upto(base, m1, scan, o, me, i * SCANNING_DISTANCE + j + 1),
{
    assert forall|y: int, x: int|
        0 <= y < m1.len() && 0 <= x < m1[y].len() implies #[trigger] m1[y][x] == if among_first(
        o,
        y,
        x,
        i * SCANNING_DISTANCE + j + 1,
    ) {
        mapped_cell(scan.cell(y - o.1, x - o.0), x, y, me)
    } else {
        base[y][x]
    } by {
        let here = y == o.1 + i && x == o.0 + j;
        assert(among_first(o, y, x, i * SCANNING_DISTANCE + j + 1) == (among_first(
            o,
            y,
            x,
            i * SCANNING_DISTANCE + j,
        ) || here));
        assert(m0[y][x] == if among_first(o, y, x, i * SCANNING_DISTANCE + j) {
            mapped_cell(scan.cell(y - o.1, x - o.0), x, y, me)
        } else {
            base[y][x]
        });
    }
}

/// A cell that the tank steps on without harm.
pub open spec fn okay_to_step_on(cell: MapCell) -> bool {
    cell == MapCell::Terrain(Terrain::Field)
}

/// The number of single turns between two orientations, the short way round.
pub open spec fn turn_distance(from: Orientation, to: Orientation) -> int {
    let cw = (orientation_index(to) - orientation_index(from) + 8) % 8;
    let ccw = (orientation_index(from) - orientation_index(to) + 8) % 8;
    if cw <= ccw {
        cw
    } else {
        ccw
    }
}

/// The turn towards `to`, the short way round, or none when already facing it.
pub open spec fn rotate_to_spec(from: Orientation, to: Orientation) -> Option<Action> {
    if from == to {
        None
    } else if (orientation_index(to) - orientation_index(from) + 8) % 8 <= (orientation_index(from)
        - orientation_index(to) + 8) % 8 {
        Some(Action::Rotate(Rotation::Clockwise))
    } else {
        Some(Action::Rotate(Rotation::CounterClockwise))
    }
}

/// The cardinal or positional shot at a detected player, seen from `me`.
pub open spec fn shot_at(target: Position, me: Position) -> Option<Action> {
    let dx = target.x - me.x;
    let dy = target.y - me.y;
    if dx == 0 || dy == 0 || dx == dy {
        let o = if dx == 0 {
            if dy > 0 {
                Orientation::South
            } else {
                Orientation::North
            }
        } else if dy == 0 {
            if dx > 0 {
                Orientation::East
            } else {
                Orientation::West
            }
        } else if dx > 0 {
            if dy > 0 {
                Orientation::SouthEast
            } else {
                Orientation::NorthEast
            }
        } else {
            if dy > 0 {
                Orientation::SouthWest
            } else {
                Orientation::NorthWest
            }
        };
        Some(Action::Fire(Aiming::Cardinal(o)))
    } else if me.hits_positionally(target) {
        Some(Action::Fire(Aiming::Positional(target)))
    } else {
        None
    }
}

/// The scan that a tank in a corner makes, by the corner it is in.
pub open spec fn corner_scan(pos: Position) -> Action {
    if pos.x == 1 {
        if pos.y == 1 {
            Action::Scan(ScanType::Mono(Orientation::SouthEast))
        } else {
            Action::Scan(ScanType::Mono(Orientation::NorthEast))
        }
    } else if pos.y == 1 {
        Action::Scan(ScanType::Mono(Orientation::SouthWest))
    } else {
        Action::Scan(ScanType::Mono(Orientation::NorthWest))
    }
}

/// The tank stands next to the western edge.
pub open spec fn west_wall(pos: Position) -> bool {
    pos.x == 1
}

/// The tank stands at the eastern camping column.
pub open spec fn east_wall(pos: Position, ws: WorldSize) -> bool {
    ws.x >= CORNER_OFFSET_X && pos.x == ws.x - CORNER_OFFSET_X
}

/// The tank stands next to the northern edge.
pub open spec fn north_wall(pos: Position) -> bool {
    pos.y == 1
}

/// The tank stands at the southern camping row.
pub open spec fn south_wall(pos: Position, ws: WorldSize) -> bool {
    ws.y / 2 >= CORNER_OFFSET_Y && pos.y == ws.y / 2 - CORNER_OFFSET_Y
}

/// The tank stands in one of its four camping corners.
pub open spec fn corner(pos: Position, ws: WorldSize) -> bool {
    (west_wall(pos) && north_wall(pos)) || (east_wall(pos, ws) && south_wall(pos, ws)) || (
    west_wall(pos) && south_wall(pos, ws)) || (east_wall(pos, ws) && north_wall(pos))
}

/// The scan that a tank at a wall makes: two mono scans along the wall in turn, and
/// an omni scan away from the walls.
pub open spec fn wall_scan(pos: Position, ws: WorldSize, counter: u8) -> Action {
    if west_wall(pos) {
        if counter == 0 {
            Action::Scan(ScanType::Mono(Orientation::NorthEast))
        } else {
            Action::Scan(ScanType::Mono(Orientation::SouthEast))
        }
    } else if east_wall(pos, ws) {
        if counter == 0 {
            Action::Scan(ScanType::Mono(Orientation::NorthWest))
        } else {
            Action::Scan(ScanType::Mono(Orientation::SouthWest))
        }
    } else if north_wall(pos) {
        if counter == 0 {
            Action::Scan(ScanType::Mono(Orientation::SouthEast))
        } else {
            Action::Scan(ScanType::Mono(Orientation::SouthWest))
        }
    } else if south_wall(pos, ws) {
        if counter == 0 {
            Action::Scan(ScanType::Mono(Orientation::NorthEast))
        } else {
            Action::Scan(ScanType::Mono(Orientation::NorthWest))
        }
    } else {
        Action::Scan(ScanType::Omni)
    }
}

/// Whether the tank stands next to one of the walls of the world.
pub open spec fn at_wall(pos: Position, ws: WorldSize) -> bool {
    west_wall(pos) || east_wall(pos, ws) || north_wall(pos) || south_wall(pos, ws)
}

/// The scan counters after the wall scan: at a wall the second scan along it ends the
/// round and restarts the count to the next scan, while the first leaves that count as it
/// was; away from the walls the count restarts at once.
pub open spec fn counters_after_wall_scan(pos: Position, ws: WorldSize, counter: u8, wall_counter: u8) -> (u8, u8) {
    if at_wall(pos, ws) {
        if wall_counter + 1 == 2 {
            (SCAN_EVERY_NTH_STEP, 0)
        } else {
            (counter, (wall_counter + 1) as u8)
        }
    } else {
        (SCAN_EVERY_NTH_STEP, wall_counter)
    }
}

/// The move that follows the three draws: a turn (clockwise on the second draw), or a
/// step (forward on the third draw).
pub open spec fn movement(rotate: bool, clockwise: bool, forward: bool) -> Action {
    if rotate {
        if clockwise {
            Action::Rotate(Rotation::Clockwise)
        } else {
            Action::Rotate(Rotation::CounterClockwise)
        }
    } else if forward {
        Action::Move(Direction::Forward)
    } else {
        Action::Move(Direction::Backward)
    }
}

/// The move that follows the three draws of `handle_movement`.
pub fn movement_choice(rotate: bool, clockwise: bool, forward: bool) -> (r: Action)
    ensures
        r == movement(rotate, clockwise, forward),
{
    if rotate {
        if clockwise {
            Action::Rotate(Rotation::Clockwise)
        } else {
            Action::Rotate(Rotation::CounterClockwise)
        }
    } else {
        if forward {
            Action::Move(Direction::Forward)
        } else {
            Action::Move(Direction::Backward)
        }
    }
}

impl PlayerOne {
    #[verifier::type_invariant]
    spec fn well_formed(self) -> bool {
        &&& self.detected_players.wf()
        &&& self.scan_wall_counter < 2
    }

    pub closed spec fn detected(self) -> Seq<DetectedPlayer> {
        self.detected_players@
    }

    pub closed spec fn scan_counter_spec(self) -> u8 {
        self.scan_counter
    }

    pub closed spec fn quiet_turns(self) -> u32 {
        self.turns_without_seeing_a_player
    }

    /// Where the tank stood on the turn before.
    pub closed spec fn previous_position(self) -> Option<Position> {
        self.prev_position
    }

    /// Which of the two scans along a wall comes next.
    pub closed spec fn wall_counter(self) -> u8 {
        self.scan_wall_counter
    }

    /// The tank ready to choose its action this turn, after taking in the context: its map
    /// (a blank one at first) with the scan copied on, and the cell it stood on last turn
    /// taken for open field; the players the scan spots recorded; its count of quiet turns
    /// reset when it spotted one and counted on otherwise (kept without a scan); its scan
    /// counters as before.
    pub closed spec fn prepared(self, before: PlayerOne, ctx: Context) -> bool {
        &&& self.scan_counter == before.scan_counter
        &&& self.scan_wall_counter == before.scan_wall_counter
        &&& exists|base: Seq<Seq<MapCell>>, scanned: Seq<Seq<MapCell>>|
            #![trigger map_base(before.map_spec(), ctx.world_size_spec(), base), prev_cleared(scanned, before.prev_position)]
        {
            &&& map_base(before.map_spec(), ctx.world_size_spec(), base)
            &&& match ctx.scan_spec() {
                None => {
                    &&& scanned == base
                    &&& self.detected() == before.detected()
                    &&& self.quiet_turns() == before.quiet_turns()
                },
                Some(scan) => {
                    let me = ctx.position_spec();
                    let o = scan_origin(scan.scan_type, me);
                    let n = (SCANNING_DISTANCE * SCANNING_DISTANCE) as int;
                    &&& scan_copied_upto(base, scanned, scan, o, me, n)
                    &&& self.detected() == remembered_upto(before.detected(), scan, o, me, n)
                    &&& self.quiet_turns() == if any_spotted_in(scan, o, me, n) {
                        0
                    } else {
                        before.quiet_turns().saturating_add(1)
                    }
                },
            }
            &&& self.map_spec() == Some(prev_cleared(scanned, before.prev_position))
        }
    }

    /// The scan counters once the action is chosen: with a scan due and no shot or corner
    /// scan taken instead, as the wall scan leaves them; with a scan due otherwise, as they
    /// were; else one step closer to the next scan.
    pub closed spec fn counted(self, ctx: Context) -> (u8, u8) {
        let me = ctx.position_spec();
        let ws = ctx.world_size_spec();
        if self.scan_counter == 0 {
            if players_shot(self.detected(), me) is Some || (self.quiet_turns()
                < CORNER_CAMPING_LIMIT && corner(me, ws)) {
                (0, self.scan_wall_counter)
            } else {
                counters_after_wall_scan(me, ws, 0, self.scan_wall_counter)
            }
        } else {
            ((self.scan_counter - 1) as u8, self.scan_wall_counter)
        }
    }

    /// The tank at the end of its turn, from the tank ready to choose: the same map and
    /// count of quiet turns, the remembered players aged by a turn, its position noted as
    /// the previous one, and the scan counters as `counted` says, the count to the next
    /// scan cut to zero when a player was dropped.
    pub closed spec fn turn_over(self, ctx: Context, after: PlayerOne) -> bool {
        &&& after.map_spec() == self.map_spec()
        &&& after.detected() == aged(self.detected())
        &&& after.quiet_turns() == self.quiet_turns()
        &&& after.prev_position == Some(ctx.position_spec())
        &&& after.scan_wall_counter == self.counted(ctx).1
        &&& after.scan_counter == if aged(self.detected()).len() < self.detected().len() {
            0
        } else {
            self.counted(ctx).0
        }
    }

    /// The action chosen: a shot at the player within reach seen last; else, when players
    /// were seen lately, a scan into the open from a corner; else, when a scan is due, the
    /// scan of the turn; else a move on the map.
    pub closed spec fn choice_ok(self, ctx: Context, a: Action) -> bool {
        let me = ctx.position_spec();
        let ws = ctx.world_size_spec();
        match players_shot(self.detected(), me) {
            Some(shot) => a == shot,
            None => if self.quiet_turns() < CORNER_CAMPING_LIMIT && corner(me, ws) {
                a == corner_scan(me)
            } else if self.scan_counter == 0 {
                a == wall_scan(me, ws, self.scan_wall_counter)
            } else {
                moved_on_map(self.map_spec(), me, ctx.details().orientation, ws, a)
            },
        }
    }

    /// The tank's own map, once it has one.
    pub closed spec fn map_spec(self) -> Option<Seq<Seq<MapCell>>> {
        match self.own_map {
            Some(m) => Some(m@.map_values(|row: Vec<MapCell>| row@)),
            None => None,
        }
    }

    pub fn new() -> (r: Self)
        ensures
            r.detected() == Seq::<DetectedPlayer>::empty(),
            r.scan_counter_spec() == SCAN_EVERY_NTH_STEP,
            r.quiet_turns() == 0,
            r.map_spec() is None,
    {
        Self {
            last_action: Action::Idle,
            last_scan: None,
            own_map: None,
            counter: 0,
            prev_position: None,
            detected_players: Sightings::new(),
            scan_counter: SCAN_EVERY_NTH_STEP,
            scan_wall_counter: 0,
            turns_without_seeing_a_player: 0,
        }
    }

    /// Copies the scan onto the tank's map, with spotted players replaced by the terrain
    /// they stand on, and records the spotted players (alive, and in neither the tank's
    /// row nor its column) with a fresh lifetime.
    fn update_world_and_players_from_scanned_data(&mut self, context: &Context)
        ensures
            final(self).scan_counter_spec() == old(self).scan_counter_spec(),
            final(self).scan_wall_counter == old(self).scan_wall_counter,
            context.scan_spec() is None ==> final(self).quiet_turns() == old(self).quiet_turns()
                && final(self).detected() == old(self).detected() && final(self).map_spec()
                == old(self).map_spec(),
            final(self).map_spec() is Some <==> old(self).map_spec() is Some,
            final(self).prev_position == old(self).prev_position,
            final(self).last_action == old(self).last_action,
            final(self).counter == old(self).counter,
            final(self).last_scan == old(self).last_scan,
            forall|d: Details|
                #[trigger] tracks(old(self).detected(), d) ==> tracks(final(self).detected(), d),
            context.scan_spec() matches Some(scan) ==> {
                let me = context.position_spec();
                let o = scan_origin(scan.scan_type, me);
                let n = (SCANNING_DISTANCE * SCANNING_DISTANCE) as int;
                match old(self).map_spec() {
                    Some(base) => {
                        &&& scan_copied_upto(base, final(self).map_spec()->0, scan, o, me, n)
                        &&& final(self).detected() == remembered_upto(old(self).detected(), scan, o, me, n)
                        &&& forall|d: Details|
                            #[trigger] tracks(final(self).detected(), d) <==> (tracks(
                                old(self).detected(),
                                d,
                            ) || spotted_in(scan, o, me, d, n))
                        &&& forall|d: Details|
                            #[trigger] spotted_in(scan, o, me, d, n) ==> exists|i: int|
                                0 <= i < final(self).detected().len() && final(self).detected()[i].details
                                    == d && final(self).detected()[i].lifetime == PLAYER_LIFETIME
                        &&& final(self).quiet_turns() == if any_spotted_in(scan, o, me, n) {
                            0
                        } else {
                            old(self).quiet_turns().saturating_add(1)
                        }
                    },
                    None => {
                        &&& final(self).detected() == old(self).detected()
                        &&& final(self).quiet_turns() == old(self).quiet_turns().saturating_add(1)
                    },
                }
            },
    {
        proof {
            use_type_invariant(&*self);
        }
        if let Some(scanned_data) = context.scanned_data() {
            let pos = context.position();
            let (start_j, start_i) = scan_start(&scanned_data.scan_type, pos);
            let (my_world_pos_x, my_world_pos_y) = (pos.x as isize, pos.y as isize);
            let ghost o = (start_j as int, start_i as int);
            let ghost scan = *scanned_data;
            let ghost me = *pos;

            // Fill our internal scanned_map with the scanned_data
            self.turns_without_seeing_a_player = self.turns_without_seeing_a_player.saturating_add(
                1,
            );
            let mut taken: Option<Vec<Vec<MapCell>>> = None;
            std::mem::swap(&mut taken, &mut self.own_map);
            if let Some(mut scanned_map) = taken {
                let ghost base = scanned_map@.map_values(|row: Vec<MapCell>| row@);
                let mut players = Sightings::new();
                std::mem::swap(&mut players, &mut self.detected_players);
                let ghost old_detected = players@;
                let mut seen_player = false;
                let mut i: usize = 0;
                while i < SCANNING_DISTANCE
                    invariant
                        i <= SCANNING_DISTANCE,
                        players.wf(),
                        start_j == o.0,
                        start_i == o.1,
                        o == scan_origin(scan.scan_type, me),
                        my_world_pos_x == me.x,
                        my_world_pos_y == me.y,
                        me.x <= MAX_WORLD_SIZE,
                        me.y <= MAX_WORLD_SIZE,
                        scan == *scanned_data,
                        scan_copied_upto(
                            base,
                            scanned_map@.map_values(|row: Vec<MapCell>| row@),
                            scan,
                            o,
                            me,
                            (i * SCANNING_DISTANCE) as int,
                        ),
                        forall|d: Details| #[trigger]
                            tracks(players@, d) <==> (tracks(old_detected, d) || spotted_in(
                                scan,
                                o,
                                me,
                                d,
                                (i * SCANNING_DISTANCE) as int,
                            )),
                        forall|d: Details| #[trigger]
                            spotted_in(scan, o, me, d, (i * SCANNING_DISTANCE) as int) ==> exists|q: int|
                                0 <= q < players@.len() && players@[q].details == d
                                    && players@[q].lifetime == PLAYER_LIFETIME,
                        seen_player == any_spotted_in(scan, o, me, (i * SCANNING_DISTANCE) as int),
                        players@ == remembered_upto(old_detected, scan, o, me, (i * SCANNING_DISTANCE) as int),
                    decreases SCANNING_DISTANCE - i,
                {
                    let mut j: usize = 0;
                    while j < SCANNING_DISTANCE
                        invariant
                            i < SCANNING_DISTANCE,
                            j <= SCANNING_DISTANCE,
                            players.wf(),
                            start_j == o.0,
                            start_i == o.1,
                            o == scan_origin(scan.scan_type, me),
                            my_world_pos_x == me.x,
                            my_world_pos_y == me.y,
                            me.x <= MAX_WORLD_SIZE,
                            me.y <= MAX_WORLD_SIZE,
                            scan == *scanned_data,
                            scan_copied_upto(
                                base,
                                scanned_map@.map_values(|row: Vec<MapCell>| row@),
                                scan,
                                o,
                                me,
                                (i * SCANNING_DISTANCE + j) as int,
                            ),
                            forall|d: Details| #[trigger]
                                tracks(players@, d) <==> (tracks(old_detected, d) || spotted_in(
                                    scan,
                                    o,
                                    me,
                                    d,
                                    (i * SCANNING_DISTANCE + j) as int,
                                )),
                            forall|d: Details| #[trigger]
                                spotted_in(scan, o, me, d, (i * SCANNING_DISTANCE + j) as int)
                                    ==> exists|q: int|
                                    0 <= q < players@.len() && players@[q].details == d
                                        && players@[q].lifetime == PLAYER_LIFETIME,
                            seen_player == any_spotted_in(
                                scan,
                                o,
                                me,
                                (i * SCANNING_DISTANCE + j) as int,
                            ),
                            players@ == remembered_upto(
                                old_detected,
                                scan,
                                o,
                                me,
                                (i * SCANNING_DISTANCE + j) as int,
                            ),
                        decreases SCANNING_DISTANCE - j,
                    {
                        let world_y = start_i + i as isize;
                        let world_x = start_j + j as isize;
                        let ghost k = (i * SCANNING_DISTANCE + j) as int;
                        let ghost m0 = scanned_map@.map_values(|row: Vec<MapCell>| row@);
                        let ghost p0 = players@;
                        proof {
                            lemma_index_split(i as int, j as int);
                            assert(scanned_data.data@[i as int]@[j as int] == scan.cell(i as int, j as int));
                        }

                        let mut cell = MapCell::Unallocated;
                        let scanned = scanned_data.data[i][j];

                        // check if we found a player
                        if let MapCell::Player(details, terrain) = scanned {
                            if details.alive && (world_x != my_world_pos_x && world_y
                                != my_world_pos_y) {
                                seen_player = true;
                                cell = MapCell::Terrain(terrain);

                                // Add or update the detected player in the bookkeeping
                                let detected_player = DetectedPlayer {
                                    position: Position { x: world_x as usize, y: world_y as usize },
                                    details: details,
                                    lifetime: PLAYER_LIFETIME,
                                };
                                players.remember(detected_player);
                            }
                        }
                        proof {
                            lemma_spotted_step(scan, o, me, k, p0, players@, old_detected);
                            assert(players@ == remembered_upto(old_detected, scan, o, me, k + 1));
                        }
                        if world_y >= 0 && (world_y as usize) < scanned_map.len() && world_x >= 0 {
                            let row_index = world_y as usize;
                            if (world_x as usize) < scanned_map[row_index].len() {
                                if cell == MapCell::Unallocated {
                                    cell = scanned;
                                }
                                let ghost before = scanned_map@;
                                let mut row = scanned_map[row_index].clone();
                                proof {
                                    assert(row@ =~= before[row_index as int]@);
                                }
                                row.set(world_x as usize, cell);
                                scanned_map.set(row_index, row);
                                proof {
                                    assert(cell == mapped_cell(scan.cell(i as int, j as int), world_x as int, world_y as int, me));
                                    let m1 = scanned_map@.map_values(|row: Vec<MapCell>| row@);
                                    assert forall|y: int| 0 <= y < m1.len() implies (#[trigger] m1[y]).len() == m0[y].len() by {
                                        if y != row_index {
                                            assert(scanned_map@[y] == before[y]);
                                        }
                                    }
                                    assert forall|y: int, x: int|
                                        0 <= y < m1.len() && 0 <= x < m1[y].len() implies #[trigger] m1[y][x] == if y == world_y && x == world_x {
                                        cell
                                    } else {
                                        m0[y][x]
                                    } by {
                                        if y != row_index {
                                            assert(scanned_map@[y] == before[y]);
                                        }
                                    }
                                    lemma_copy_step(base, m0, m1, scan, o, me, i as int, j as int, true);
                                }
                            } else {
                                proof {
                                    lemma_copy_step(base, m0, m0, scan, o, me, i as int, j as int, false);
                                }
                            }
                        } else {
                            proof {
                                lemma_copy_step(base, m0, m0, scan, o, me, i as int, j as int, false);
                            }
                        }
                        j = j + 1;
                    }
                    i = i + 1;
                }
                proof {
                    assert((i * SCANNING_DISTANCE) as int == (SCANNING_DISTANCE * SCANNING_DISTANCE) as int);
                }
                if seen_player {
                    self.turns_without_seeing_a_player = 0;
                }
                let ghost remembered = players@;
                std::mem::swap(&mut players, &mut self.detected_players);
                self.own_map = Some(scanned_map);
                proof {
                    let n = (SCANNING_DISTANCE * SCANNING_DISTANCE) as int;
                    assert(self.detected() == remembered);
                    assert forall|d: Details| #[trigger] spotted_in(scan, o, me, d, n) implies exists|q: int|
                        0 <= q < self.detected().len() && self.detected()[q].details == d
                            && self.detected()[q].lifetime == PLAYER_LIFETIME by {
                        assert(spotted_in(scan, o, me, d, (i * SCANNING_DISTANCE) as int));
                        let q = choose|q: int|
                            0 <= q < remembered.len() && remembered[q].details == d && remembered[q].lifetime
                                == PLAYER_LIFETIME;
                        assert(self.detected()[q] == remembered[q]);
                    }
                }
            }
        }
    }

    /// A shot at the player that was seen last among those within reach of a shot.
    fn act_on_players(&self, context: &Context) -> (r: Option<Action>)
        ensures
            r == players_shot(self.detected(), context.position_spec()),
            r is Some ==> exists|i: int|
                0 <= i < self.detected().len() && r == shot_at(
                    self.detected()[i].position,
                    context.position_spec(),
                ),
    {
        let mut action: Option<Action> = None;
        if let Some(detected_player) = self.get_newest_player_at_firing_distance(&context) {
            let me = context.position();
            action = self.shoot_at(&detected_player.position, me);
            proof {
                let i = choose|i: int|
                    0 <= i < self.detected().len() && self.detected()[i] == detected_player;
            }
        }
        action
    }

    /// The shot at a target, seen from `me`.
    fn shoot_at(&self, target: &Position, me: &Position) -> (r: Option<Action>)
        requires
            me.x <= MAX_WORLD_SIZE,
            me.y <= MAX_WORLD_SIZE,
        ensures
            r == shot_at(*target, *me),
    {
        let dx: i128 = target.x as i128 - me.x as i128;
        let dy: i128 = target.y as i128 - me.y as i128;

        if dx == 0 || dy == 0 || dx == dy {
            let orientation = if dx == 0 {
                if dy > 0 {
                    Orientation::South
                } else {
                    Orientation::North
                }
            } else if dy == 0 {
                if dx > 0 {
                    Orientation::East
                } else {
                    Orientation::West
                }
            } else if dx > 0 {
                if dy > 0 {
                    Orientation::SouthEast
                } else {
                    Orientation::NorthEast
                }
            } else {
                if dy > 0 {
                    Orientation::SouthWest
                } else {
                    Orientation::NorthWest
                }
            };
            Some(Action::Fire(Aiming::Cardinal(orientation)))
        } else if me.could_hit_positionally(target) {
            Some(Action::Fire(Aiming::Positional(*target)))
        } else {
            None
        }
    }

    /// In a corner, a mono scan into the open.
    fn act_on_corner(&self, context: &Context) -> (r: Option<Action>)
        ensures
            r == if corner(context.position_spec(), context.world_size_spec()) {
                Some(corner_scan(context.position_spec()))
            } else {
                None
            },
    {
        let mut action: Option<Action> = None;
        if self.in_corner(context) {
            // figure out scan direction when in corner
            let my_x = context.position().x;
            let my_y = context.position().y;

            if my_x == 1 {
                if my_y == 1 {
                    action = Some(Action::Scan(ScanType::Mono(Orientation::SouthEast)));
                } else {
                    action = Some(Action::Scan(ScanType::Mono(Orientation::NorthEast)));
                }
            } else if my_y == 1 {
                action = Some(Action::Scan(ScanType::Mono(Orientation::SouthWest)));
            } else {
                action = Some(Action::Scan(ScanType::Mono(Orientation::NorthWest)));
            }
        }
        action
    }

    /// The scan of the turn: along a wall, two mono scans in turn; else an omni scan.
    fn act_on_scanning(&mut self, context: &Context) -> (r: Option<Action>)
        ensures
            r == Some(
                wall_scan(
                    context.position_spec(),
                    context.world_size_spec(),
                    old(self).scan_wall_counter,
                ),
            ),
            final(self).detected() == old(self).detected(),
            final(self).map_spec() == old(self).map_spec(),
            final(self).prev_position == old(self).prev_position,
            final(self).quiet_turns() == old(self).quiet_turns(),
            final(self).last_action == old(self).last_action,
            (final(self).scan_counter, final(self).scan_wall_counter) == counters_after_wall_scan(
                context.position_spec(),
                context.world_size_spec(),
                old(self).scan_counter,
                old(self).scan_wall_counter,
            ),
    {
        proof {
            use_type_invariant(&*self);
        }
        let mut action: Option<Action> = None;
        let mut scanned_wall = true;
        if self.in_west_wall(context) {
            // Alternate between NorthEast and SouthEast
            if self.scan_wall_counter == 0 {
                action = Some(Action::Scan(ScanType::Mono(Orientation::NorthEast)));
            } else {
                action = Some(Action::Scan(ScanType::Mono(Orientation::SouthEast)));
            }
        } else if self.in_east_wall(context) {
            // Alternate between NorthWest and SouthWest
            if self.scan_wall_counter == 0 {
                action = Some(Action::Scan(ScanType::Mono(Orientation::NorthWest)));
            } else {
                action = Some(Action::Scan(ScanType::Mono(Orientation::SouthWest)));
            }
        } else if self.in_north_wall(context) {
            // Alternate between SouthEast and SouthWest
            if self.scan_wall_counter == 0 {
                action = Some(Action::Scan(ScanType::Mono(Orientation::SouthEast)));
            } else {
                action = Some(Action::Scan(ScanType::Mono(Orientation::SouthWest)));
            }
        } else if self.in_south_wall(context) {
            // Alternate between NorthEast and NorthWest
            if self.scan_wall_counter == 0 {
                action = Some(Action::Scan(ScanType::Mono(Orientation::NorthEast)));
            } else {
                action = Some(Action::Scan(ScanType::Mono(Orientation::NorthWest)));
            }
        } else {
            action = Some(Action::Scan(ScanType::Omni));
            scanned_wall = false;
        }
        let mut reset_counter = true;
        if scanned_wall {
            let next = self.scan_wall_counter + 1;
            if next == 2 {
                self.scan_wall_counter = 0;
            } else {
                // next round scan the other direction
                self.scan_wall_counter = next;
                reset_counter = false;
            }
        }
        if reset_counter {
            self.scan_counter = SCAN_EVERY_NTH_STEP;
        }
        action
    }

    /// Handles the logic for scanning the surroundings.
    ///
    /// This function checks the scanned data for any players in the surroundings.
    /// If it finds any, it rotates towards the first one it found and fires.
    /// If there are no players, it checks for any valid cells to step on.
    /// If it finds any valid cells, it rotates towards the first one it found and moves forward.
    /// If there are no valid cells, it scans the surroundings again.
    /// The function returns an action based on the logic above, or None if no action was found.
    fn do_something(&mut self, context: Context) -> (r: Option<Action>)
        ensures
            final(self).map_spec() is Some,
            exists|mid: PlayerOne|
                #[trigger] mid.prepared(*old(self), context) && match r {
                    Some(a) => mid.choice_ok(context, a),
                    None => false,
                } && final(self).map_spec() == mid.map_spec() && final(self).detected()
                    == mid.detected() && final(self).quiet_turns() == mid.quiet_turns()
                    && final(self).prev_position == mid.prev_position && (final(self).scan_counter,
                final(self).scan_wall_counter) == mid.counted(context),
    {
        proof {
            use_type_invariant(&*self);
        }
        let mut action: Option<Action> = None;
        if self.own_map.is_none() {
            let world_size = context.world_size();
            self.own_map = Some(unexplored_map(world_size));
        }

        let ghost s1 = *self;
        self.update_world_and_players_from_scanned_data(&context);
        proof {
            use_type_invariant(&*self);
        }
        let ghost s2 = *self;

        // reset my previous position to field
        if let Some(prev_position) = self.prev_position {
            let mut taken: Option<Vec<Vec<MapCell>>> = None;
            std::mem::swap(&mut taken, &mut self.own_map);
            if let Some(mut map) = taken {
                if prev_position.y < map.len() && prev_position.x < map[prev_position.y].len() {
                    let mut row = map[prev_position.y].clone();
                    row.set(prev_position.x, MapCell::Terrain(Terrain::Field));
                    map.set(prev_position.y, row);
                }
                self.own_map = Some(map);
            }
        }
        proof {
            use_type_invariant(&*self);
        }
        let ghost mid = *self;
        let ghost me = context.position_spec();
        let ghost ws = context.world_size_spec();
        proof {
            assert(mid.detected() == s2.detected());
            assert(mid.quiet_turns() == s2.quiet_turns());
            assert(mid.scan_counter == s2.scan_counter);
            assert(s1.detected() == old(self).detected());
            let base = s1.map_spec()->0;
            let scanned = s2.map_spec()->0;
            assert(mid.map_spec() == Some(prev_cleared(scanned, old(self).prev_position)));
            assert(map_base(old(self).map_spec(), context.world_size_spec(), base));
            assert(mid.prepared(*old(self), context));
        }

        if action.is_none() {
            action = self.act_on_players(&context);
            proof {
                if action is Some {
                    let i = choose|i: int|
                        0 <= i < self.detected().len() && action == shot_at(
                            self.detected()[i].position,
                            context.position_spec(),
                        );
                }
            }
        }
        let ghost shot = action;
        assert(shot == players_shot(mid.detected(), me));

        if action.is_none() && self.turns_without_seeing_a_player < CORNER_CAMPING_LIMIT {
            action = self.act_on_corner(&context);
        }
        let ghost cornered = action;
        assert(shot is None && mid.quiet_turns() < CORNER_CAMPING_LIMIT && corner(me, ws) ==> cornered
            == Some(corner_scan(me)));
        assert(shot is None && !(mid.quiet_turns() < CORNER_CAMPING_LIMIT && corner(me, ws))
            ==> cornered is None);

        if self.scan_counter == 0 {
            if action.is_none() {
                action = self.act_on_scanning(&context);
            }
        } else {
            self.scan_counter = self.scan_counter - 1;
        }
        assert(self.map_spec() == mid.map_spec());
        let ghost scanned = action;
        assert(cornered is None && mid.scan_counter == 0 ==> scanned == Some(
            wall_scan(me, ws, mid.scan_wall_counter),
        ));
        assert(cornered is None && mid.scan_counter != 0 ==> scanned is None);
        // check surroundings and move
        if action.is_none() {
            action = Some(self.move_on_map(&context));
        }

        if action.is_none() {
            action = Some(Action::Scan(ScanType::Omni))
        }
        proof {
            assert(mid.choice_ok(context, action->0));
        }
        action
    }

    /// The move on the map; see `moved_on_map`.
    fn move_on_map(&self, context: &Context) -> (r: Action)
        ensures
            moved_on_map(
                self.map_spec(),
                context.position_spec(),
                context.details().orientation,
                context.world_size_spec(),
                r,
            ),
    {
        let ghost mid = *self;
        let ghost me = context.position_spec();
        let ghost ws = context.world_size_spec();
        let mut action: Option<Action> = None;
        {
            let surroundings = self.check_surroundings(context);
            let facing = context.player_details().orientation;

            if surroundings.with_unknown.len() > 0 {
                action = Some(Action::Scan(ScanType::Omni));
                proof {
                    let o = surroundings.with_unknown@[0];
                    assert(surroundings.with_unknown@.contains(o));
                    assert(step_cell(mid.map_spec(), me, o, ws) == Some(MapCell::Unallocated));
                    assert(moved_on_map(mid.map_spec(), me, facing, ws, action->0));
                }
            }
            // check for okay cells to step on

            if action.is_none() {
                proof {
                    assert forall|o: Orientation| #[trigger] step_cell(mid.map_spec(), me, o, ws)
                        != Some(MapCell::Unallocated) by {
                        if step_cell(mid.map_spec(), me, o, ws) == Some(MapCell::Unallocated) {
                            assert(surroundings.with_unknown@.contains(o));
                        }
                    }
                }
                // check if our current orientation is valid to step on
                if contains_orientation(&surroundings.valid_to_step, &facing) {
                    action = Some(Action::Move(Direction::Forward));
                    proof {
                        assert(step_open(mid.map_spec(), me, facing, ws));
                        assert(moved_on_map(mid.map_spec(), me, facing, ws, action->0));
                    }
                } else {
                    proof {
                        assert(!step_open(mid.map_spec(), me, facing, ws));
                    }
                    // loop through valid to step and find the closest one
                    let closest_valid_step = closest_turn(&surroundings.valid_to_step, &facing);

                    if let Some(first_valid_step) = closest_valid_step {
                        action = self.rotate_to(first_valid_step, context);
                        proof {
                            assert(step_open(mid.map_spec(), me, first_valid_step, ws));
                            assert forall|o2: Orientation| #[trigger] step_open(mid.map_spec(), me, o2, ws) implies turn_distance(facing, first_valid_step) <= turn_distance(facing, o2) by {
                                assert(surroundings.valid_to_step@.contains(o2));
                                let j = choose|j: int| 0 <= j < surroundings.valid_to_step@.len() && surroundings.valid_to_step@[j] == o2;
                                assert(turn_distance(facing, first_valid_step) <= turn_distance(facing, surroundings.valid_to_step@[j]));
                            }
                            assert(first_valid_step != facing);
                        }
                        if action.is_none() {
                            action = Some(Action::Move(Direction::Forward))
                        }
                        proof {
                            assert(moved_on_map(mid.map_spec(), me, facing, ws, action->0));
                        }
                    } else {
                        proof {
                            assert forall|o: Orientation| !#[trigger] step_open(mid.map_spec(), me, o, ws) by {
                                if step_open(mid.map_spec(), me, o, ws) {
                                    assert(surroundings.valid_to_step@.contains(o));
                                }
                            }
                        }
                    }
                }
            }
        }

        match action {
            Some(a) => a,
            None => Action::Scan(ScanType::Omni),
        }
    }

    /// The living player within reach of a shot that was seen last (the first such, in
    /// the order the tank keeps them, among those seen equally recently).
    pub fn get_newest_player_at_firing_distance(&self, context: &Context) -> (r: Option<
        DetectedPlayer,
    >)
        ensures
            r == newest_target(self.detected(), context.position_spec(), self.detected().len()),
            r matches Some(p) ==> {
                &&& self.detected().contains(p)
                &&& p.details.alive
                &&& p.lifetime > 0
                &&& context.position_spec().hits_positionally(p.position)
                    || context.position_spec().hits_cardinally(p.position)
                &&& forall|i: int|
                    0 <= i < self.detected().len() && (#[trigger] self.detected()[i]).details.alive
                        && (context.position_spec().hits_positionally(self.detected()[i].position)
                        || context.position_spec().hits_cardinally(self.detected()[i].position))
                        ==> self.detected()[i].lifetime <= p.lifetime
            },
            r is None ==> forall|i: int|
                0 <= i < self.detected().len() && (#[trigger] self.detected()[i]).details.alive && (
                context.position_spec().hits_positionally(self.detected()[i].position)
                    || context.position_spec().hits_cardinally(self.detected()[i].position))
                    ==> self.detected()[i].lifetime == 0,
    {
        // check for players using self.detected_players
        let mut newest_player_at_firing_distance: Option<DetectedPlayer> = None;
        let mut newest_player_lifetime: u8 = 0;
        let me = context.position();
        let mut k: usize = 0;
        while k < self.detected_players.len()
            invariant
                k <= self.detected_players@.len(),
                newest_player_at_firing_distance == newest_target(self.detected_players@, *me, k as nat),
                newest_player_at_firing_distance is None ==> newest_player_lifetime == 0,
                newest_player_at_firing_distance matches Some(p) ==> {
                    &&& self.detected_players@.contains(p)
                    &&& p.details.alive
                    &&& p.lifetime == newest_player_lifetime
                    &&& p.lifetime > 0
                    &&& me.hits_positionally(p.position) || me.hits_cardinally(p.position)
                },
                forall|i: int|
                    0 <= i < k && (#[trigger] self.detected_players@[i]).details.alive && (
                    me.hits_positionally(self.detected_players@[i].position) || me.hits_cardinally(
                        self.detected_players@[i].position,
                    )) ==> self.detected_players@[i].lifetime <= newest_player_lifetime,
            decreases self.detected_players@.len() - k,
        {
            let detected_player = self.detected_players.get(k);
            if me.could_hit_positionally(&detected_player.position) || me.could_hit_cardinally(
                &detected_player.position,
            ) {
                if detected_player.details.alive && detected_player.lifetime
                    > newest_player_lifetime {
                    newest_player_lifetime = detected_player.lifetime;
                    newest_player_at_firing_distance = Some(detected_player);
                    assert(self.detected_players@[k as int] == detected_player);
                }
            }
            k = k + 1;
        }

        newest_player_at_firing_distance
    }

    /// Each remembered player that is alive ages by one turn, and is dropped when its
    /// lifetime runs out; dead ones are dropped at once. A drop brings the next scan
    /// forward.
    pub fn update_lifetimes(&mut self)
        ensures
            final(self).detected() == aged(old(self).detected()),
            final(self).scan_counter_spec() == if aged(old(self).detected()).len() < old(
                self,
            ).detected().len() {
                0
            } else {
                old(self).scan_counter_spec()
            },
            final(self).quiet_turns() == old(self).quiet_turns(),
            final(self).map_spec() == old(self).map_spec(),
            final(self).previous_position() == old(self).previous_position(),
            final(self).wall_counter() == old(self).wall_counter(),
    {
        proof {
            use_type_invariant(&*self);
        }
        let mut players = Sightings::new();
        std::mem::swap(&mut players, &mut self.detected_players);
        let removed = players.age();
        std::mem::swap(&mut players, &mut self.detected_players);
        if removed {
            self.scan_counter = 0;
        }
    }

    pub fn in_west_wall(&self, context: &Context) -> (r: bool)
        ensures
            r == west_wall(context.position_spec()),
    {
        context.position().x == 1
    }

    pub fn in_east_wall(&self, context: &Context) -> (r: bool)
        ensures
            r == east_wall(context.position_spec(), context.world_size_spec()),
    {
        context.world_size().x >= CORNER_OFFSET_X && context.position().x == context.world_size().x
            - CORNER_OFFSET_X
    }

    pub fn in_north_wall(&self, context: &Context) -> (r: bool)
        ensures
            r == north_wall(context.position_spec()),
    {
        context.position().y == 1
    }

    pub fn in_south_wall(&self, context: &Context) -> (r: bool)
        ensures
            r == south_wall(context.position_spec(), context.world_size_spec()),
    {
        context.world_size().y / 2 >= CORNER_OFFSET_Y && context.position().y
            == context.world_size().y / 2 - CORNER_OFFSET_Y
    }

    pub fn in_corner(&self, context: &Context) -> (r: bool)
        ensures
            r == corner(context.position_spec(), context.world_size_spec()),
    {
        (self.in_west_wall(context) && self.in_north_wall(context)) || (self.in_east_wall(context)
            && self.in_south_wall(context)) || (self.in_west_wall(context) && self.in_south_wall(
            context,
        )) || (self.in_east_wall(context) && self.in_north_wall(context))
    }

    fn rotate_to(&self, to: Orientation, context: &Context) -> (r: Option<Action>)
        ensures
            r == rotate_to_spec(context.details().orientation, to),
    {
        if context.player_details().orientation == to {
            // Already facing the direction
            return None;
        }
        // Calculate the current orientation and target orientation as indices

        let current: usize = context.player_details().orientation.index();
        let target: usize = to.index();

        // Calculate the clockwise and counterclockwise steps
        let clockwise_steps = (target + 8 - current) % 8;
        let counter_clockwise_steps = (current + 8 - target) % 8;

        // Choose the shorter rotation
        if clockwise_steps <= counter_clockwise_steps {
            return Some(Action::Rotate(Rotation::Clockwise));
        } else {
            return Some(Action::Rotate(Rotation::CounterClockwise));
        }
    }

    /// The orientations around the tank, by what its map shows one step away: fields to
    /// step on, and unexplored cells.
    fn check_surroundings(&self, context: &Context) -> (r: Surroundings)
        ensures
            forall|o: Orientation|
                r.valid_to_step@.contains(o) <==> (#[trigger] step_cell(
                    self.map_spec(),
                    context.position_spec(),
                    o,
                    context.world_size_spec(),
                ) matches Some(c) && okay_to_step_on(c)),
            forall|o: Orientation|
                r.with_unknown@.contains(o) <==> #[trigger] step_cell(
                    self.map_spec(),
                    context.position_spec(),
                    o,
                    context.world_size_spec(),
                ) == Some(MapCell::Unallocated),
    {
        let mut valid_to_step: Vec<Orientation> = Vec::new();
        let mut with_unknown: Vec<Orientation> = Vec::new();
        let pos = context.position();

        if let Some(scanned_map) = &self.own_map {
            let mut k: usize = 0;
            while k < 8
                invariant
                    k <= 8,
                    self.own_map == Some(*scanned_map),
                    forall|o: Orientation|
                        valid_to_step@.contains(o) <==> (survey_rank(o) < k && (#[trigger] step_cell(
                            self.map_spec(),
                            *pos,
                            o,
                            context.world_size_spec(),
                        ) matches Some(c) && okay_to_step_on(c))),
                    forall|o: Orientation|
                        with_unknown@.contains(o) <==> (survey_rank(o) < k && #[trigger] step_cell(
                            self.map_spec(),
                            *pos,
                            o,
                            context.world_size_spec(),
                        ) == Some(MapCell::Unallocated)),
                    *pos == context.position_spec(),
                decreases 8 - k,
            {
                let orientation = match k {
                    0 => Orientation::North,
                    1 => Orientation::South,
                    2 => Orientation::West,
                    3 => Orientation::East,
                    4 => Orientation::NorthWest,
                    5 => Orientation::NorthEast,
                    6 => Orientation::SouthWest,
                    _ => Orientation::SouthEast,
                };
                assert(survey_rank(orientation) == k);
                let ghost step = step_cell(self.map_spec(), *pos, orientation, context.world_size_spec());
                let ghost v0 = valid_to_step@;
                let ghost u0 = with_unknown@;
                // Ensure within boundaries
                if let Some(next) = pos.follow(&orientation, context.world_size()) {
                    if next.y < scanned_map.len() && next.x < scanned_map[next.y].len() {
                        let cell = scanned_map[next.y][next.x];
                        assert(step == Some(cell));
                        match cell {
                            MapCell::Unallocated => {
                                with_unknown.push(orientation);
                            },
                            _ => {
                                if self.is_cell_okay_to_step_on(&cell) {
                                    valid_to_step.push(orientation);
                                }
                            },
                        }
                    } else {
                        assert(step is None);
                    }
                } else {
                    assert(step is None);
                }
                proof {
                    assert forall|o: Orientation|
                        valid_to_step@.contains(o) <==> (survey_rank(o) < k + 1 && (#[trigger] step_cell(
                            self.map_spec(),
                            *pos,
                            o,
                            context.world_size_spec(),
                        ) matches Some(c) && okay_to_step_on(c))) by {
                        if valid_to_step@ != v0 {
                            assert(valid_to_step@ == v0.push(orientation));
                            if v0.contains(o) {
                                let w = choose|w: int| 0 <= w < v0.len() && v0[w] == o;
                                assert(valid_to_step@[w] == o);
                            }
                            if o == orientation {
                                assert(valid_to_step@[v0.len() as int] == o);
                            }
                            if valid_to_step@.contains(o) && o != orientation {
                                let w = choose|w: int| 0 <= w < valid_to_step@.len() && valid_to_step@[w] == o;
                                assert(v0[w] == o);
                            }
                        }
                    }
                    assert forall|o: Orientation|
                        with_unknown@.contains(o) <==> (survey_rank(o) < k + 1 && #[trigger] step_cell(
                            self.map_spec(),
                            *pos,
                            o,
                            context.world_size_spec(),
                        ) == Some(MapCell::Unallocated)) by {
                        if with_unknown@ != u0 {
                            assert(with_unknown@ == u0.push(orientation));
                            if u0.contains(o) {
                                let w = choose|w: int| 0 <= w < u0.len() && u0[w] == o;
                                assert(with_unknown@[w] == o);
                            }
                            if o == orientation {
                                assert(with_unknown@[u0.len() as int] == o);
                            }
                            if with_unknown@.contains(o) && o != orientation {
                                let w = choose|w: int| 0 <= w < with_unknown@.len() && with_unknown@[w] == o;
                                assert(u0[w] == o);
                            }
                        }
                    }
                }
                k = k + 1;
            }
        }
        Surroundings { valid_to_step, with_unknown }
    }

    fn is_cell_okay_to_step_on(&self, cell: &MapCell) -> (r: bool)
        ensures
            r == okay_to_step_on(*cell),
    {
        match cell {
            MapCell::Terrain(Terrain::Field) => true,
            MapCell::Terrain(_) => false,
            MapCell::Player(_, _) => false,
            MapCell::Unallocated => false,
            _ => false,
        }
    }

    /// A random move: a turn with a chance of one in two (one in four right after a
    /// turn), else a step, forward with a chance of four in five.
    fn handle_movement(&self) -> (r: Action)
        ensures
            r is Rotate || r is Move,
    {
        let rotate = match self.last_action {
            Action::Rotate(_) => chance(1, 4),
            _ => chance(1, 2),
        };
        if rotate {
            let rotate_clockwise = chance(1, 2);
            movement_choice(true, rotate_clockwise, false)
        } else {
            let forward = chance(4, 5);
            movement_choice(false, false, forward)
        }
    }

    fn should_move(&self) -> bool {
        // check last scan result etc.
        chance(4, 5)
    }
}

/// Whether a remembered player is worth a shot: alive, and within reach of one.
pub open spec fn in_reach(p: DetectedPlayer, me: Position) -> bool {
    p.details.alive && (me.hits_positionally(p.position) || me.hits_cardinally(p.position))
}

/// Among the first `n` remembered players, the one within reach seen last (the first of those
/// seen equally recently), if any was seen at all recently.
pub open spec fn newest_target(s: Seq<DetectedPlayer>, me: Position, n: nat) -> Option<
    DetectedPlayer,
>
    decreases n,
{
    if n == 0 {
        None
    } else {
        let prev = newest_target(s, me, (n - 1) as nat);
        let p = s[n - 1];
        let best = match prev {
            Some(q) => q.lifetime,
            None => 0,
        };
        if in_reach(p, me) && p.lifetime > best {
            Some(p)
        } else {
            prev
        }
    }
}

/// The shot at the remembered player within reach seen last, if it can be aimed.
pub open spec fn players_shot(s: Seq<DetectedPlayer>, me: Position) -> Option<Action> {
    match newest_target(s, me, s.len()) {
        Some(p) => shot_at(p.position, me),
        None => None,
    }
}

/// The move on the tank's map: a scan all around when a neighbouring cell is unexplored;
/// else forward when the cell ahead can be stepped on; else a turn, the short way, towards
/// one of the nearest cells that can; else a scan all around.
pub open spec fn moved_on_map(
    map: Option<Seq<Seq<MapCell>>>,
    me: Position,
    facing: Orientation,
    ws: WorldSize,
    a: Action,
) -> bool {
    if exists|o: Orientation| #[trigger] step_cell(map, me, o, ws) == Some(MapCell::Unallocated) {
        a == Action::Scan(ScanType::Omni)
    } else if step_open(map, me, facing, ws) {
        a == Action::Move(Direction::Forward)
    } else if exists|o: Orientation| #[trigger] step_open(map, me, o, ws) {
        exists|o: Orientation|
            #[trigger] step_open(map, me, o, ws) && (forall|o2: Orientation|
                #[trigger] step_open(map, me, o2, ws) ==> turn_distance(facing, o) <= turn_distance(
                    facing,
                    o2,
                )) && Some(a) == rotate_to_spec(facing, o)
    } else {
        a == Action::Scan(ScanType::Omni)
    }
}

/// Whether the map shows a cell to step on one step away towards `o`.
pub open spec fn step_open(map: Option<Seq<Seq<MapCell>>>, me: Position, o: Orientation, ws: WorldSize) -> bool {
    step_cell(map, me, o, ws) matches Some(c) && okay_to_step_on(c)
}

/// Whether a player is among the remembered ones.
pub open spec fn tracks(players: Seq<DetectedPlayer>, d: Details) -> bool {
    exists|i: int| 0 <= i < players.len() && #[trigger] players[i].details == d
}

/// The rank of an orientation in the order in which the tank looks around.
pub open spec fn survey_rank(o: Orientation) -> int {
    match o {
        Orientation::North => 0,
        Orientation::South => 1,
        Orientation::West => 2,
        Orientation::East => 3,
        Orientation::NorthWest => 4,
        Orientation::NorthEast => 5,
        Orientation::SouthWest => 6,
        Orientation::SouthEast => 7,
    }
}

/// What the tank's map shows one step away towards `o`, when that cell lies in the
/// world and on the map.
pub open spec fn step_cell(
    map: Option<Seq<Seq<MapCell>>>,
    pos: Position,
    o: Orientation,
    ws: WorldSize,
) -> Option<MapCell> {
    match (map, pos.followed(o, ws)) {
        (Some(m), Some(q)) => if q.y < m.len() && q.x < m[q.y as int].len() {
            Some(m[q.y as int][q.x as int])
        } else {
            None
        },
        _ => None,
    }
}

/// The remembered players one turn later: the living ones with lifetime to spare, each one
/// turn older; the others are dropped.
pub open spec fn aged(players: Seq<DetectedPlayer>) -> Seq<DetectedPlayer>
    decreases players.len(),
{
    if players.len() == 0 {
        players
    } else {
        let before = aged(players.drop_last());
        let p = players.last();
        if p.details.alive && p.lifetime > 1 {
            before.push(DetectedPlayer { lifetime: (p.lifetime - 1) as u8, ..p })
        } else {
            before
        }
    }
}

/// The remembered players after `n` turns of ageing.
pub open spec fn aged_times(players: Seq<DetectedPlayer>, n: nat) -> Seq<DetectedPlayer>
    decreases n,
{
    if n == 0 {
        players
    } else {
        aged(aged_times(players, (n - 1) as nat))
    }
}

/// One turn of ageing leaves every remembered player with less lifetime than the most
/// that any had, and none when the most was one.
proof fn lemma_aged_shortens(players: Seq<DetectedPlayer>, m: nat)
    requires
        m >= 1,
        forall|i: int| 0 <= i < players.len() ==> #[trigger] players[i].lifetime <= m,
    ensures
        forall|i: int| 0 <= i < aged(players).len() ==> #[trigger] aged(players)[i].lifetime
            <= m - 1,
        m == 1 ==> aged(players).len() == 0,
    decreases players.len(),
{
    if players.len() > 0 {
        let rest = players.drop_last();
        assert forall|i: int| 0 <= i < rest.len() implies #[trigger] rest[i].lifetime <= m by {
            assert(rest[i] == players[i]);
        }
        lemma_aged_shortens(rest, m);
        assert(players.last() == players[players.len() - 1]);
    }
}

/// After `k` turns of ageing, no lifetime is above `m - k`.
proof fn lemma_aged_times_bound(players: Seq<DetectedPlayer>, m: nat, k: nat)
    requires
        k < m,
        forall|i: int| 0 <= i < players.len() ==> #[trigger] players[i].lifetime <= m,
    ensures
        forall|i: int|
            0 <= i < aged_times(players, k).len() ==> #[trigger] aged_times(players, k)[i].lifetime
                <= m - k,
    decreases k,
{
    if k > 0 {
        lemma_aged_times_bound(players, m, (k - 1) as nat);
        lemma_aged_shortens(aged_times(players, (k - 1) as nat), (m - (k - 1)) as nat);
    }
}

/// A player that is not seen again is forgotten: when no lifetime is above `m`, at least
/// one, nobody is remembered after `m` turns of ageing.
pub proof fn lemma_forgotten_in_time(players: Seq<DetectedPlayer>, m: nat)
    requires
        m >= 1,
        forall|i: int| 0 <= i < players.len() ==> #[trigger] players[i].lifetime <= m,
    ensures
        aged_times(players, m).len() == 0,
{
    lemma_aged_times_bound(players, m, (m - 1) as nat);
    lemma_aged_shortens(aged_times(players, (m - 1) as nat), 1);
}

/// Ageing keeps each player at most once, in order, and never adds one.
proof fn lemma_aged_distinct(players: Seq<DetectedPlayer>)
    requires
        forall|i: int, j: int|
            0 <= i < j < players.len() ==> (#[trigger] players[i]).details != (
            #[trigger] players[j]).details,
    ensures
        forall|i: int, j: int|
            0 <= i < j < aged(players).len() ==> (#[trigger] aged(players)[i]).details != (
            #[trigger] aged(players)[j]).details,
        forall|i: int|
            0 <= i < aged(players).len() ==> exists|j: int|
                0 <= j < players.len() && (#[trigger] aged(players)[i]).details
                    == players[j].details,
        aged(players).len() <= players.len(),
    decreases players.len(),
{
    if players.len() > 0 {
        let rest = players.drop_last();
        lemma_aged_distinct(rest);
        let before = aged(rest);
        let p = players.last();
        assert forall|i: int| 0 <= i < before.len() implies (#[trigger] before[i]).details
            != p.details by {
            let j = choose|j: int| 0 <= j < rest.len() && before[i].details == rest[j].details;
            assert(players[j] == rest[j]);
            assert(players[players.len() - 1] == p);
        }
        assert forall|i: int| 0 <= i < aged(players).len() implies exists|j: int|
            0 <= j < players.len() && (#[trigger] aged(players)[i]).details
                == players[j].details by {
            if i < before.len() {
                let j = choose|j: int| 0 <= j < rest.len() && before[i].details == rest[j].details;
                assert(aged(players)[i] == before[i]);
                assert(players[j] == rest[j]);
            } else {
                assert(aged(players)[i].details == players[players.len() - 1].details);
            }
        }
    }
}

/// A map of the world with every cell unexplored.
fn unexplored_map(world_size: &WorldSize) -> (r: Vec<Vec<MapCell>>)
    ensures
        r@.len() == world_size.y,
        forall|y: int| 0 <= y < r@.len() ==> (#[trigger] r@[y])@.len() == world_size.x,
        forall|y: int, x: int|
            0 <= y < r@.len() && 0 <= x < r@[y]@.len() ==> #[trigger] r@[y]@[x] == MapCell::Unallocated,
{
    let mut map: Vec<Vec<MapCell>> = Vec::new();
    let mut y: usize = 0;
    while y < world_size.y
        invariant
            y <= world_size.y,
            map@.len() == y,
            forall|k: int| 0 <= k < map@.len() ==> (#[trigger] map@[k])@.len() == world_size.x,
            forall|k: int, x: int|
                0 <= k < map@.len() && 0 <= x < map@[k]@.len() ==> #[trigger] map@[k]@[x]
                    == MapCell::Unallocated,
        decreases world_size.y - y,
    {
        let mut row: Vec<MapCell> = Vec::new();
        let mut x: usize = 0;
        while x < world_size.x
            invariant
                x <= world_size.x,
                row@.len() == x,
                forall|c: int| 0 <= c < row@.len() ==> #[trigger] row@[c] == MapCell::Unallocated,
            decreases world_size.x - x,
        {
            row.push(MapCell::Unallocated);
            x = x + 1;
        }
        let ghost before = map@;
        map.push(row);
        proof {
            assert forall|k: int, c: int|
                0 <= k < map@.len() && 0 <= c < map@[k]@.len() implies #[trigger] map@[k]@[c]
                == MapCell::Unallocated by {
                if k < before.len() {
                    assert(map@[k] == before[k]);
                }
            }
        }
        y = y + 1;
    }
    map
}

/// A map of the world with every cell unexplored.
pub open spec fn blank(map: Seq<Seq<MapCell>>, ws: WorldSize) -> bool {
    &&& map.len() == ws.y
    &&& forall|y: int| 0 <= y < map.len() ==> (#[trigger] map[y]).len() == ws.x
    &&& forall|y: int, x: int|
        0 <= y < map.len() && 0 <= x < map[y].len() ==> #[trigger] map[y][x] == MapCell::Unallocated
}

/// The map that a scan is copied onto: the tank's map, or a blank one when it has none.
pub open spec fn map_base(map: Option<Seq<Seq<MapCell>>>, ws: WorldSize, base: Seq<Seq<MapCell>>) -> bool {
    match map {
        Some(m) => base == m,
        None => blank(base, ws),
    }
}

/// The map with the cell the tank stood on last turn taken for open field, when it lies
/// on the map.
pub open spec fn prev_cleared(map: Seq<Seq<MapCell>>, prev: Option<Position>) -> Seq<Seq<MapCell>> {
    match prev {
        Some(p) => if p.y < map.len() && p.x < map[p.y as int].len() {
            map.update(p.y as int, map[p.y as int].update(p.x as int, MapCell::Terrain(Terrain::Field)))
        } else {
            map
        },
        None => map,
    }
}

/// Whether a list of orientations holds one.
fn contains_orientation(list: &Vec<Orientation>, o: &Orientation) -> (r: bool)
    ensures
        r == list@.contains(*o),
{
    let mut i: usize = 0;
    while i < list.len()
        invariant
            i <= list@.len(),
            forall|j: int| 0 <= j < i ==> list@[j] != *o,
        decreases list@.len() - i,
    {
        if list[i] == *o {
            assert(list@[i as int] == *o);
            return true;
        }
        i = i + 1;
    }
    false
}

/// The first orientation of the list that takes the fewest turns to face.
fn closest_turn(list: &Vec<Orientation>, facing: &Orientation) -> (r: Option<Orientation>)
    ensures
        list@.len() == 0 <==> r is None,
        r matches Some(o) ==> list@.contains(o) && forall|i: int|
            0 <= i < list@.len() ==> turn_distance(*facing, o) <= turn_distance(
                *facing,
                #[trigger] list@[i],
            ),
{
    let mut closest_valid_step: Option<Orientation> = None;
    let mut closest_valid_step_distance: usize = 100;
    let current: usize = facing.index();
    let mut i: usize = 0;
    while i < list.len()
        invariant
            i <= list@.len(),
            current == orientation_index(*facing),
            closest_valid_step is None <==> i == 0,
            closest_valid_step is None ==> closest_valid_step_distance == 100,
            closest_valid_step matches Some(o) ==> list@.contains(o) && closest_valid_step_distance
                == turn_distance(*facing, o) && forall|j: int|
                0 <= j < i ==> turn_distance(*facing, o) <= turn_distance(
                    *facing,
                    #[trigger] list@[j],
                ),
        decreases list@.len() - i,
    {
        let orientation = list[i];
        let target: usize = orientation.index();
        let clockwise_steps = (target + 8 - current) % 8;
        let counter_clockwise_steps = (current + 8 - target) % 8;

        let distance = if clockwise_steps <= counter_clockwise_steps {
            clockwise_steps
        } else {
            counter_clockwise_steps
        };

        if distance < closest_valid_step_distance {
            closest_valid_step = Some(orientation);
            closest_valid_step_distance = distance;
            assert(list@[i as int] == orientation);
        }
        i = i + 1;
    }
    closest_valid_step
}

impl Player for PlayerOne {
    /// Takes in the context, then chooses its action; see `choice_ok`.
    /// Takes in the context and chooses the action (see `prepared` and `choice_ok`), then
    /// ends the turn (see `turn_over`).
    fn act(&mut self, context: Context) -> (r: Action)
        ensures
            exists|mid: PlayerOne|
                #[trigger] mid.prepared(*old(self), context) && mid.choice_ok(context, r)
                    && mid.turn_over(context, *final(self)),
    {
        proof {
            use_type_invariant(&*self);
        }
        self.counter = self.counter.wrapping_add(1);
        let ghost counted = *self;
        // handle scanning and firing
        let pos_x = context.position().x;
        let pos_y = context.position().y;

        let mut have_an_action = true;
        let chosen = self.do_something(context);
        let ghost done = *self;
        let ghost mid = choose|mid: PlayerOne|
            #[trigger] mid.prepared(counted, context) && match chosen {
                Some(a) => mid.choice_ok(context, a),
                None => false,
            } && done.map_spec() == mid.map_spec() && done.detected() == mid.detected()
                && done.quiet_turns() == mid.quiet_turns() && done.prev_position == mid.prev_position
                && (done.scan_counter, done.scan_wall_counter) == mid.counted(context);
        proof {
            assert(mid.prepared(counted, context));
            assert(counted.detected() == old(self).detected());
            assert(counted.scan_counter == old(self).scan_counter);
            assert(counted.scan_wall_counter == old(self).scan_wall_counter);
            assert(counted.quiet_turns() == old(self).quiet_turns());
            assert(counted.map_spec() == old(self).map_spec());
            assert(counted.prev_position == old(self).prev_position);
            assert(mid.prepared(*old(self), context));
        }
        let mut action = match chosen {
            Some(scan_action) => scan_action,
            None => {
                have_an_action = false;
                Action::Idle
            },
        };

        if !have_an_action {
            if self.should_move() {
                action = self.handle_movement();
            } else {
                action = Action::Idle;
            }
        }

        proof {
            use_type_invariant(&*self);
        }
        self.last_scan = None;
        self.prev_position = Some(Position { x: pos_x, y: pos_y });

        self.update_lifetimes();
        proof {
            assert(mid.turn_over(context, *self));
        }
        action
    }

    fn is_ready(&self) -> (r: bool)
        ensures
            r,
    {
        // was born ready
        true
    }

    fn name(&self) -> (r: String)
        ensures
            r@ == "PlayerOne"@,
    {
        "PlayerOne".to_owned()
    }
}

} // verus!
