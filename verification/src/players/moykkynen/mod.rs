use vstd::prelude::*;

use crate::api::{
    action::Action,
    aiming::Aiming,
    context::Context,
    direction::Direction,
    map_cell::{MapCell, Terrain},
    orientation::Orientation,
    player::{Details, Player},
    position::{abs, distance_along, Position, SCANNING_DISTANCE},
    rotation::Rotation,
    scan::{ScanResult, ScanType},
    world_size::{WorldSize, MAX_WORLD_SIZE},
};
use crate::chance::chance;
use crate::players::laurikainen::scan_origin;
use positionbuffer::{PositionBuffer, BUFFER_SIZE};

pub mod positionbuffer;

verus! {

#[derive(Clone, Copy, Debug)]
pub struct Enemy {
    position: Position,
    details: Details,
    timestamp: u32,
    pos_history: PositionBuffer,
}

pub struct Joonas {
    id: u8,
    map: Vec<Vec<MapCell>>,
    last_action: Action,
    orientation: Orientation,
    position: Position,
    enemies: Vec<Enemy>,
    ongoing_turn: Option<Rotation>,
    prev_scan_type: ScanType,
    time: u32,
}

/// No two tracked enemies share a player id.
pub closed spec fn distinct_ids(s: Seq<Enemy>) -> bool {
    forall|i: int, j: int|
        0 <= i < j < s.len() ==> (#[trigger] s[i]).details.id != (#[trigger] s[j]).details.id
}

/// Every row of the map is as long as the first.
pub closed spec fn even_rows(m: Seq<Vec<MapCell>>) -> bool {
    forall|y: int| 0 <= y < m.len() ==> (#[trigger] m[y])@.len() == m[0]@.len()
}

/// Two maps with the same rows, of the same lengths.
pub closed spec fn same_shape(a: Seq<Vec<MapCell>>, b: Seq<Vec<MapCell>>) -> bool {
    &&& a.len() == b.len()
    &&& forall|y: int| 0 <= y < a.len() ==> (#[trigger] a[y])@.len() == b[y]@.len()
}

/// `after` is `before` with the cell at `pos` replaced by `cell`.
pub closed spec fn map_written(
    before: Seq<Vec<MapCell>>,
    after: Seq<Vec<MapCell>>,
    pos: Position,
    cell: MapCell,
) -> bool {
    &&& same_shape(before, after)
    &&& forall|y: int, x: int|
        0 <= y < after.len() && 0 <= x < after[y]@.len() ==> #[trigger] after[y]@[x] == if y
            == pos.y && x == pos.x {
            cell
        } else {
            before[y]@[x]
        }
}

/// An enemy worth shooting at: alive, and seen in the last three turns.
pub closed spec fn eligible(e: Enemy, time: u32) -> bool {
    e.details.alive && e.timestamp <= time && time - e.timestamp <= 3
}

/// A known enemy seen again at `pos`.
pub closed spec fn sighted(e: Enemy, pos: Position, details: Details, time: u32) -> Enemy {
    Enemy { position: pos, details, timestamp: time, pos_history: e.pos_history.pushed(pos) }
}

/// An enemy seen for the first time at `pos`.
pub closed spec fn first_sighting(pos: Position, details: Details, time: u32) -> Enemy {
    Enemy { position: pos, details, timestamp: time, pos_history: PositionBuffer::empty() }
}

/// `after` records a sighting of the tank `details` at `pos` in `before`: the entry with
/// its id is updated, or a new entry is appended.
pub closed spec fn recorded(
    before: Seq<Enemy>,
    after: Seq<Enemy>,
    pos: Position,
    details: Details,
    time: u32,
) -> bool {
    ||| exists|i: int|
        0 <= i < before.len() && (#[trigger] before[i]).details.id == details.id && after
            == before.update(i, sighted(before[i], pos, details, time))
    ||| (forall|i: int| 0 <= i < before.len() ==> (#[trigger] before[i]).details.id != details.id)
        && after == before.push(first_sighting(pos, details, time))
}

/// Whether an enemy with the id was seen at `time`.
pub closed spec fn seen(enemies: Seq<Enemy>, id: u8, time: u32) -> bool {
    exists|k: int| 0 <= k < enemies.len() && #[trigger] enemies[k].details.id == id && enemies[k].timestamp == time
}

/// What the map keeps of a scanned cell: the tank itself is left out, leaving its terrain.
pub closed spec fn stored(cell: MapCell, id: u8) -> MapCell {
    match cell {
        MapCell::Player(d, t) => if d.id == id {
            MapCell::Terrain(t)
        } else {
            cell
        },
        _ => cell,
    }
}

/// Whether the scan cell (`sy`, `sx`) of a scan starting at `origin` lies on the map.
pub closed spec fn lands(map: Seq<Vec<MapCell>>, origin: (int, int), sy: int, sx: int) -> bool {
    let x = origin.0 + sx;
    let y = origin.1 + sy;
    0 <= y < map.len() && 0 <= x < map[y]@.len()
}

/// Whether the map holds what it keeps of the scan cell (`sy`, `sx`).
pub closed spec fn scan_copied(
    map: Seq<Vec<MapCell>>,
    scan: ScanResult,
    origin: (int, int),
    id: u8,
    sy: int,
    sx: int,
) -> bool {
    lands(map, origin, sy, sx) ==> map[origin.1 + sy]@[origin.0 + sx] == stored(scan.cell(sy, sx), id)
}

/// Whether another tank that the scan cell (`sy`, `sx`) shows on the map is tracked as seen
/// at `time`.
pub closed spec fn scan_noted(
    enemies: Seq<Enemy>,
    map: Seq<Vec<MapCell>>,
    scan: ScanResult,
    origin: (int, int),
    id: u8,
    time: u32,
    sy: int,
    sx: int,
) -> bool {
    lands(map, origin, sy, sx) ==> match scan.cell(sy, sx) {
        MapCell::Player(d, _) => d.id != id ==> seen(enemies, d.id, time),
        _ => true,
    }
}

/// Whether a scan starting at `origin` covers the world cell (`y`, `x`).
pub closed spec fn covers(origin: (int, int), y: int, x: int) -> bool {
    origin.0 <= x < origin.0 + SCANNING_DISTANCE && origin.1 <= y < origin.1 + SCANNING_DISTANCE
}

/// The orientation of a cardinal shot at `target` from `me`, when they are aligned.
pub open spec fn cardinal_direction(me: Position, target: Position) -> Option<Orientation> {
    let dx = target.x - me.x;
    let dy = target.y - me.y;
    if dx == 0 && dy > 0 {
        Some(Orientation::South)
    } else if dx == 0 && dy < 0 {
        Some(Orientation::North)
    } else if dy == 0 && dx > 0 {
        Some(Orientation::East)
    } else if dy == 0 && dx < 0 {
        Some(Orientation::West)
    } else if abs(dx) == abs(dy) && dx != 0 {
        Some(general_direction(me, target))
    } else {
        None
    }
}

/// The direction of `target` from `me`, by the signs of the offsets.
pub open spec fn general_direction(me: Position, target: Position) -> Orientation {
    let dx = target.x - me.x;
    let dy = target.y - me.y;
    if dx == 0 && dy > 0 {
        Orientation::South
    } else if dx == 0 {
        Orientation::North
    } else if dy == 0 && dx > 0 {
        Orientation::East
    } else if dy == 0 {
        Orientation::West
    } else if dx > 0 && dy > 0 {
        Orientation::SouthEast
    } else if dx > 0 {
        Orientation::NorthEast
    } else if dy < 0 {
        Orientation::NorthWest
    } else {
        Orientation::SouthWest
    }
}

/// The scan that follows the previous one: a mono scan (towards the enemy when there is
/// one, else ahead unless the tank faces the map's border) after an omni scan, and an omni
/// scan after a mono scan.
pub open spec fn next_scan(
    prev: ScanType,
    enemy: Option<Orientation>,
    facing: Orientation,
    at_border: bool,
) -> ScanType {
    match prev {
        ScanType::Omni => match enemy {
            Some(e) => ScanType::Mono(e),
            None => if at_border {
                ScanType::Omni
            } else {
                ScanType::Mono(facing)
            },
        },
        ScanType::Mono(_) => ScanType::Omni,
    }
}

/// Whether the tank faces a border of its map within half a scan.
pub closed spec fn faces_border(j: Joonas) -> bool {
    let d = SCANNING_DISTANCE / 2;
    let height = j.map@.len() as int;
    let width = if j.map@.len() > 0 {
        j.map@[0]@.len() as int
    } else {
        0
    };
    let south = if height >= d {
        height - d
    } else {
        0
    };
    let east = if width >= d {
        width - d
    } else {
        0
    };
    let x = j.position.x as int;
    let y = j.position.y as int;
    match j.orientation {
        Orientation::North => y < d,
        Orientation::NorthEast => y < d || x > east,
        Orientation::East => x > east,
        Orientation::SouthEast => y > south || x > east,
        Orientation::South => y > south,
        Orientation::SouthWest => y > south || x < d,
        Orientation::West => x < d,
        Orientation::NorthWest => y < d || x < d,
    }
}

/// The scan chosen next, with the tank remembering it.
pub closed spec fn scan_decided(
    before: Joonas,
    enemy: Option<Orientation>,
    r: Action,
    after: Joonas,
) -> bool {
    let next = next_scan(before.prev_scan_type, enemy, before.orientation, faces_border(before));
    r == Action::Scan(next) && after == (Joonas { prev_scan_type: next, ..before })
}

/// What the map shows one step ahead of the tank, or an unexplored cell beyond the map.
pub closed spec fn ahead(j: Joonas) -> MapCell {
    match j.position.followed(
        j.orientation,
        WorldSize { x: j.map@[0]@.len() as usize, y: j.map@.len() as usize },
    ) {
        Some(q) => j.map@[q.y as int]@[q.x as int],
        None => MapCell::Unallocated,
    }
}

/// A turn: on the way the tank is turning already, or else a way it then keeps.
pub closed spec fn turn_chosen(before: Joonas, r: Action, after: Joonas) -> bool {
    match before.ongoing_turn {
        Some(t) => r == Action::Rotate(t) && after == before,
        None => match r {
            Action::Rotate(t) => after == (Joonas { ongoing_turn: Some(t), ..before }),
            _ => false,
        },
    }
}

/// The move on what lies ahead: forward onto a field, a turn before an obstacle or a tank,
/// a scan ahead into the unknown, and a shot at anything else.
pub closed spec fn explored(before: Joonas, r: Action, after: Joonas) -> bool {
    match ahead(before) {
        MapCell::Terrain(Terrain::Field) => r == Action::Move(Direction::Forward) && after == before,
        MapCell::Terrain(_) => turn_chosen(before, r, after),
        MapCell::Player(_, _) => turn_chosen(before, r, after),
        MapCell::Unallocated => r == Action::Scan(ScanType::Mono(before.orientation)) && after
            == before,
        _ => r == Action::Fire(Aiming::Cardinal(before.orientation)) && after == before,
    }
}

/// Whether a history holds ten positions, all equal.
pub closed spec fn stands_still(b: PositionBuffer) -> bool {
    &&& b.count_spec() >= BUFFER_SIZE
    &&& b.count_spec() >= 2
    &&& forall|i: int| 0 <= i < b.count_spec() ==> #[trigger] b.slots()[i] == b.slots()[0]
}

/// The answer to an enemy: a positional shot within half a scan, else a cardinal shot
/// within a scan when aligned; else exploring on when the enemy stands still and the tank
/// scanned all around last, or else a scan towards it.
pub closed spec fn fired(before: Joonas, enemy: Enemy, r: Action, after: Joonas) -> bool {
    let me = before.position;
    let e = enemy.position;
    let dx = abs(me.x - e.x);
    let dy = abs(me.y - e.y);
    if dx <= SCANNING_DISTANCE / 2 && dy <= SCANNING_DISTANCE / 2 {
        r == Action::Fire(Aiming::Positional(e)) && after == before
    } else if dx <= SCANNING_DISTANCE - 1 && dy <= SCANNING_DISTANCE - 1 && cardinal_direction(
        me,
        e,
    ) is Some {
        match cardinal_direction(me, e) {
            Some(o) => r == Action::Fire(Aiming::Cardinal(o)) && after == before,
            None => false,
        }
    } else if stands_still(enemy.pos_history) && before.last_action == Action::Scan(
        ScanType::Omni,
    ) {
        explored(before, r, after)
    } else {
        scan_decided(before, Some(general_direction(me, e)), r, after)
    }
}

/// The target picked among the tracked enemies: none when no enemy is eligible; else an
/// eligible one, within a positional shot and seen last among those when any is, and
/// otherwise within a cardinal shot when any is.
pub closed spec fn target_chosen(j: Joonas, t: Option<Enemy>) -> bool {
    target_chosen_upto(j, t, j.enemies@.len() as int)
}

/// Whether the tracked enemy `i` is eligible.
pub closed spec fn eligible_at(j: Joonas, i: int) -> bool {
    eligible(j.enemies@[i], j.time)
}

/// Whether the tracked enemy `i` is eligible and within a positional shot.
pub closed spec fn positional_at(j: Joonas, i: int) -> bool {
    eligible_at(j, i) && j.position.hits_positionally(j.enemies@[i].position)
}

/// Whether the tracked enemy `i` is eligible and within a cardinal shot.
pub closed spec fn cardinal_at(j: Joonas, i: int) -> bool {
    eligible_at(j, i) && j.position.hits_cardinally(j.enemies@[i].position)
}

/// The target picked among the first `k` tracked enemies.
pub closed spec fn target_chosen_upto(j: Joonas, t: Option<Enemy>, k: int) -> bool {
    let s = j.enemies@;
    let me = j.position;
    match t {
        None => forall|i: int| 0 <= i < k ==> !#[trigger] eligible_at(j, i),
        Some(e) => {
            &&& exists|w: int| 0 <= w < k && #[trigger] s[w] == e
            &&& eligible(e, j.time)
            &&& (exists|i: int| 0 <= i < k && #[trigger] positional_at(j, i)) ==> me.hits_positionally(
                e.position,
            )
            &&& forall|i: int| 0 <= i < k && #[trigger] positional_at(j, i) ==> s[i].timestamp <= e.timestamp
            &&& (forall|i: int| 0 <= i < k ==> !#[trigger] positional_at(j, i)) && (exists|i: int|
                0 <= i < k && #[trigger] cardinal_at(j, i)) ==> me.hits_cardinally(e.position)
        },
    }
}

/// The target after looking at the tracked enemy `k`.
pub closed spec fn target_step(j: Joonas, t: Option<Enemy>, k: int) -> Option<Enemy> {
    let e = j.enemies@[k];
    let me = j.position;
    if !eligible_at(j, k) {
        t
    } else {
        match t {
            None => Some(e),
            Some(p) => {
                let ec = me.hits_positionally(e.position);
                let pc = me.hits_positionally(p.position);
                if ec && pc {
                    if e.timestamp > p.timestamp {
                        Some(e)
                    } else {
                        t
                    }
                } else if ec {
                    Some(e)
                } else if pc {
                    t
                } else if me.hits_cardinally(e.position) {
                    Some(e)
                } else {
                    t
                }
            },
        }
    }
}

/// Looking at one more enemy keeps the target well chosen.
proof fn lemma_target_step(j: Joonas, t: Option<Enemy>, k: int)
    requires
        0 <= k < j.enemies@.len(),
        target_chosen_upto(j, t, k),
    ensures
        target_chosen_upto(j, target_step(j, t, k), k + 1),
{
    let s = j.enemies@;
    let me = j.position;
    let e = s[k];
    let t2 = target_step(j, t, k);
    assert(s[k] == e);
    if forall|i: int| 0 <= i < k + 1 ==> !#[trigger] positional_at(j, i) {
        assert forall|i: int| 0 <= i < k implies !#[trigger] positional_at(j, i) by {
            assert(0 <= i < k + 1);
        }
        assert(!positional_at(j, k));
    }
    if !eligible_at(j, k) {
        assert(!positional_at(j, k) && !cardinal_at(j, k));
        match t {
            None => {
                assert forall|i: int| 0 <= i < k + 1 implies !#[trigger] eligible_at(j, i) by {}
            },
            Some(c) => {
                if exists|i: int| 0 <= i < k + 1 && #[trigger] positional_at(j, i) {
                    let w = choose|i: int| 0 <= i < k + 1 && #[trigger] positional_at(j, i);
                    assert(0 <= w < k && positional_at(j, w));
                }
                if exists|i: int| 0 <= i < k + 1 && #[trigger] cardinal_at(j, i) {
                    let w = choose|i: int| 0 <= i < k + 1 && #[trigger] cardinal_at(j, i);
                    assert(0 <= w < k && cardinal_at(j, w));
                }
            },
        }
    } else {
        match t {
            None => {
                assert forall|i: int| 0 <= i < k implies !#[trigger] positional_at(j, i) by {
                    assert(!eligible_at(j, i));
                }
                assert forall|i: int| 0 <= i < k implies !#[trigger] cardinal_at(j, i) by {
                    assert(!eligible_at(j, i));
                }
                if exists|i: int| 0 <= i < k + 1 && #[trigger] positional_at(j, i) {
                    let w = choose|i: int| 0 <= i < k + 1 && #[trigger] positional_at(j, i);
                    assert(w == k);
                }
                if exists|i: int| 0 <= i < k + 1 && #[trigger] cardinal_at(j, i) {
                    let w = choose|i: int| 0 <= i < k + 1 && #[trigger] cardinal_at(j, i);
                    assert(w == k);
                }
            },
            Some(c) => {
                let ec = me.hits_positionally(e.position);
                let pc = me.hits_positionally(c.position);
                let wc = choose|w: int| 0 <= w < k && #[trigger] s[w] == c;
                assert(eligible_at(j, wc));
                assert(pc ==> positional_at(j, wc));
                assert(me.hits_cardinally(c.position) ==> cardinal_at(j, wc));
                if !pc {
                    assert forall|i: int| 0 <= i < k implies !#[trigger] positional_at(j, i) by {
                        if positional_at(j, i) {
                            assert(exists|i: int| 0 <= i < k && #[trigger] positional_at(j, i));
                        }
                    }
                }
                if !pc && !me.hits_cardinally(c.position) {
                    assert forall|i: int| 0 <= i < k implies !#[trigger] cardinal_at(j, i) by {
                        if cardinal_at(j, i) {
                            assert(exists|i: int| 0 <= i < k && #[trigger] cardinal_at(j, i));
                        }
                    }
                }
                match t2 {
                    Some(c2) => {
                        assert forall|i: int| 0 <= i < k + 1 && #[trigger] positional_at(j, i) implies s[i].timestamp
                            <= c2.timestamp by {
                            if i < k {
                                assert(s[i].timestamp <= c.timestamp);
                            }
                        }
                        if exists|i: int| 0 <= i < k + 1 && #[trigger] positional_at(j, i) {
                            let w = choose|i: int| 0 <= i < k + 1 && #[trigger] positional_at(j, i);
                            if w < k {
                                assert(exists|i: int| 0 <= i < k && #[trigger] positional_at(j, i));
                            }
                        }
                        if exists|i: int| 0 <= i < k + 1 && #[trigger] cardinal_at(j, i) {
                            let w = choose|i: int| 0 <= i < k + 1 && #[trigger] cardinal_at(j, i);
                            if w < k {
                                assert(exists|i: int| 0 <= i < k && #[trigger] cardinal_at(j, i));
                            }
                        }
                    },
                    None => {},
                }
            },
        }
    }
}

/// The map cell before a scan is stored: unexplored when the map is still to be made.
pub closed spec fn base_cell(before: Joonas, y: int, x: int) -> MapCell {
    if before.map@.len() == 0 {
        MapCell::Unallocated
    } else {
        before.map@[y]@[x]
    }
}

/// The tank after storing the context's scan on its map (made at the world's size when
/// missing) and noting the tanks seen.
pub closed spec fn scan_stored(before: Joonas, ctx: Context, after: Joonas) -> bool {
    let ws = ctx.world_size_spec();
    &&& after == (Joonas { map: after.map, enemies: after.enemies, ..before })
    &&& if before.map@.len() == 0 {
        &&& after.map@.len() == ws.y
        &&& forall|y: int| 0 <= y < ws.y ==> (#[trigger] after.map@[y])@.len() == ws.x
    } else {
        same_shape(before.map@, after.map@)
    }
    &&& match ctx.scan_spec() {
        None => {
            &&& after.enemies == before.enemies
            &&& forall|y: int, x: int|
                0 <= y < after.map@.len() && 0 <= x < after.map@[y]@.len() ==> #[trigger] after.map@[y]@[x]
                    == base_cell(before, y, x)
        },
        Some(scan) => {
            let o = scan_origin(scan.scan_type, before.position);
            &&& forall|sy: int, sx: int|
                0 <= sy < SCANNING_DISTANCE && 0 <= sx < SCANNING_DISTANCE ==> #[trigger] scan_copied(
                    after.map@,
                    scan,
                    o,
                    before.id,
                    sy,
                    sx,
                )
            &&& forall|sy: int, sx: int|
                0 <= sy < SCANNING_DISTANCE && 0 <= sx < SCANNING_DISTANCE ==> #[trigger] scan_noted(
                    after.enemies@,
                    after.map@,
                    scan,
                    o,
                    before.id,
                    before.time,
                    sy,
                    sx,
                )
            &&& forall|y: int, x: int|
                0 <= y < after.map@.len() && 0 <= x < after.map@[y]@.len() && !covers(o, y, x)
                    ==> #[trigger] after.map@[y]@[x] == base_cell(before, y, x)
        },
    }
}

/// The answer to a scan: the scan stored, a target picked, and an answer to it, or else
/// exploring on.
pub closed spec fn scan_handled(before: Joonas, ctx: Context, r: Action, after: Joonas) -> bool {
    exists|mid: Joonas, t: Option<Enemy>|
        #[trigger] scan_stored(before, ctx, mid) && #[trigger] target_chosen(mid, t) && match t {
            None => explored(mid, r, after),
            Some(e) => fired(mid, e, r, after),
        }
}

/// The tank after taking in the context of a new turn.
pub closed spec fn refreshed(before: Joonas, ctx: Context) -> Joonas {
    let last = ctx.previous_action_spec();
    Joonas {
        id: ctx.details().id,
        last_action: last,
        orientation: ctx.details().orientation,
        position: ctx.position_spec(),
        time: if before.time < u32::MAX {
            (before.time + 1) as u32
        } else {
            before.time
        },
        ongoing_turn: if last is Move {
            None
        } else {
            before.ongoing_turn
        },
        ..before
    }
}

impl Joonas {
    /// Each enemy is tracked once and was seen no later than now; the tank stands on the
    /// largest map; the map's rows have one length.
    #[verifier::type_invariant]
    spec fn wf(self) -> bool {
        &&& distinct_ids(self.enemies@)
        &&& forall|i: int|
            0 <= i < self.enemies@.len() ==> (#[trigger] self.enemies@[i]).timestamp <= self.time
        &&& self.position.x <= MAX_WORLD_SIZE
        &&& self.position.y <= MAX_WORLD_SIZE
        &&& even_rows(self.map@)
    }

    /// The enemies tracked.
    pub closed spec fn enemies_spec(self) -> Seq<Enemy> {
        self.enemies@
    }

    /// The number of rows of the tank's map.
    pub closed spec fn map_height(self) -> nat {
        self.map@.len()
    }

    /// The scan made last.
    pub closed spec fn prev_scan_spec(self) -> ScanType {
        self.prev_scan_type
    }

    pub fn new() -> (r: Self)
        ensures
            r.enemies_spec().len() == 0,
            r.map_height() == 0,
            r.prev_scan_spec() == ScanType::Mono(Orientation::North),
    {
        Self {
            id: 0,
            map: Vec::new(),
            last_action: Action::Idle,
            orientation: Orientation::North,
            position: Position { x: 0, y: 0 },
            enemies: Vec::new(),
            ongoing_turn: None,
            prev_scan_type: ScanType::Mono(Orientation::North),
            time: 0,
        }
    }
}

/// The index of the tracked enemy with the id, if any.
fn find_enemy(enemies: &Vec<Enemy>, id: u8) -> (r: Option<usize>)
    ensures
        match r {
            Some(i) => i < enemies@.len() && enemies@[i as int].details.id == id,
            None => forall|i: int| 0 <= i < enemies@.len() ==> (#[trigger] enemies@[i]).details.id != id,
        },
{
    let mut i: usize = 0;
    while i < enemies.len()
        invariant
            i <= enemies@.len(),
            forall|k: int| 0 <= k < i ==> (#[trigger] enemies@[k]).details.id != id,
        decreases enemies@.len() - i,
    {
        if enemies[i].details.id == id {
            return Some(i);
        }
        i = i + 1;
    }
    None
}

// Private functions
impl Joonas {
    /// The world coordinates of the scan's first cell.
    fn get_scan_origo(&self, scan_type: &ScanType) -> (r: (isize, isize))
        ensures
            r.0 == scan_origin(*scan_type, self.position).0,
            r.1 == scan_origin(*scan_type, self.position).1,
    {
        proof {
            use_type_invariant(self);
        }
        // Use isize in the calculations, as scan origo might be outside map boundaries and therefore negative.
        let (own_x, own_y) = (self.position.x as isize, self.position.y as isize);
        let dist = SCANNING_DISTANCE as isize;
        match scan_type {
            ScanType::Omni => (own_x - (dist / 2), own_y - (dist / 2)),
            ScanType::Mono(orientation) => match orientation {
                Orientation::North => (own_x - (dist / 2), own_y - (dist - 1)),
                Orientation::NorthEast => (own_x, own_y - (dist - 1)),
                Orientation::East => (own_x, own_y - (dist / 2)),
                Orientation::SouthEast => (own_x, own_y),
                Orientation::South => (own_x - (dist / 2), own_y),
                Orientation::SouthWest => (own_x - (dist - 1), own_y),
                Orientation::West => (own_x - (dist - 1), own_y - (dist / 2)),
                Orientation::NorthWest => (own_x - (dist - 1), own_y - (dist - 1)),
            },
        }
    }

    /// The map cell of a scan cell, when it lies on the map.
    fn scan_coordinate_to_world_coordinate(
        &self,
        scan_origo: (isize, isize),
        scan_coord: Position,
    ) -> (r: Option<Position>)
        requires
            scan_origo.0 >= -(MAX_WORLD_SIZE as int),
            scan_origo.1 >= -(MAX_WORLD_SIZE as int),
            scan_origo.0 <= MAX_WORLD_SIZE,
            scan_origo.1 <= MAX_WORLD_SIZE,
            scan_coord.x < SCANNING_DISTANCE,
            scan_coord.y < SCANNING_DISTANCE,
        ensures
            ({
                let x = scan_origo.0 + scan_coord.x;
                let y = scan_origo.1 + scan_coord.y;
                r == if 0 <= y < self.map@.len() && 0 <= x < self.map@[y]@.len() {
                    Some(Position { x: x as usize, y: y as usize })
                } else {
                    None
                }
            }),
    {
        let x = scan_origo.0 + scan_coord.x as isize;
        let y = scan_origo.1 + scan_coord.y as isize;
        if y >= 0 && (y as usize) < self.map.len() {
            if x >= 0 && (x as usize) < self.map[y as usize].len() {
                // Coordinate is valid
                return Some(Position { x: x as usize, y: y as usize });
            }
        }
        None
    }

    /// Writes one cell of the map.
    fn set_cell(&mut self, pos: Position, cell: MapCell)
        requires
            pos.y < old(self).map@.len(),
            pos.x < old(self).map@[pos.y as int]@.len(),
        ensures
            map_written(old(self).map@, final(self).map@, pos, cell),
            (*final(self) == Joonas { map: final(self).map, ..*old(self) }),
    {
        proof {
            use_type_invariant(&*self);
        }
        let mut map: Vec<Vec<MapCell>> = Vec::new();
        std::mem::swap(&mut map, &mut self.map);
        let ghost before = map@;
        let mut row = map[pos.y].clone();
        proof {
            assert(row@ =~= before[pos.y as int]@);
        }
        row.set(pos.x, cell);
        map.set(pos.y, row);
        proof {
            assert forall|y: int| 0 <= y < map@.len() implies (#[trigger] map@[y])@.len()
                == map@[0]@.len() by {
                assert(before[y]@.len() == before[0]@.len());
            }
            assert forall|y: int, x: int|
                0 <= y < map@.len() && 0 <= x < map@[y]@.len() implies #[trigger] map@[y]@[x]
                == if y == pos.y && x == pos.x {
                cell
            } else {
                before[y]@[x]
            } by {}
        }
        self.map = map;
    }

    /// Records a sighting of an enemy: a known enemy gets its position, details and time
    /// updated and the position added to its history; a new one is tracked with an empty
    /// history.
    fn update_enemy_data(&mut self, pos: Position, details: Details)
        ensures
            recorded(old(self).enemies@, final(self).enemies@, pos, details, old(self).time),
            (*final(self) == Joonas { enemies: final(self).enemies, ..*old(self) }),
    {
        proof {
            use_type_invariant(&*self);
        }
        let found = find_enemy(&self.enemies, details.id);
        let mut enemies: Vec<Enemy> = Vec::new();
        std::mem::swap(&mut enemies, &mut self.enemies);
        let ghost start = enemies@;
        match found {
            Some(i) => {
                let mut e = enemies[i];
                e.position = pos;
                e.details = details;
                e.timestamp = self.time;
                e.pos_history.push(pos);
                enemies.set(i, e);
                proof {
                    assert(e == sighted(start[i as int], pos, details, self.time));
                    assert(enemies@ == start.update(i as int, sighted(start[i as int], pos, details, self.time)));
                    assert forall|a: int, b: int| 0 <= a < b < enemies@.len() implies (
                    #[trigger] enemies@[a]).details.id != (#[trigger] enemies@[b]).details.id by {
                        assert(start[a].details.id != start[b].details.id);
                    }
                    assert forall|a: int| 0 <= a < enemies@.len() implies (
                    #[trigger] enemies@[a]).timestamp <= self.time by {
                        if a != i {
                            assert(enemies@[a] == start[a]);
                        }
                    }
                }
            },
            None => {
                let enemy = Enemy {
                    position: pos,
                    details: details,
                    timestamp: self.time,
                    pos_history: PositionBuffer::new(),
                };
                enemies.push(enemy);
                proof {
                    assert(enemies@ == start.push(first_sighting(pos, details, self.time)));
                    assert forall|a: int, b: int| 0 <= a < b < enemies@.len() implies (
                    #[trigger] enemies@[a]).details.id != (#[trigger] enemies@[b]).details.id by {
                        if b == start.len() {
                            assert(enemies@[a] == start[a]);
                        } else {
                            assert(start[a].details.id != start[b].details.id);
                        }
                    }
                    assert forall|a: int| 0 <= a < enemies@.len() implies (
                    #[trigger] enemies@[a]).timestamp <= self.time by {
                        if a < start.len() {
                            assert(enemies@[a] == start[a]);
                        }
                    }
                }
            },
        }
        self.enemies = enemies;
    }

    /// Looks at a cell of the map: another tank is recorded as an enemy, the tank itself is
    /// wiped from the map, leaving its terrain.
    fn analyze_cell(&mut self, pos: Position)
        requires
            pos.y < old(self).map@.len(),
            pos.x < old(self).map@[pos.y as int]@.len(),
        ensures
            match old(self).map@[pos.y as int]@[pos.x as int] {
                MapCell::Player(d, t) => if d.id != old(self).id {
                    &&& recorded(old(self).enemies@, final(self).enemies@, pos, d, old(self).time)
                    &&& *final(self) == (Joonas { enemies: final(self).enemies, ..*old(self) })
                } else {
                    &&& map_written(old(self).map@, final(self).map@, pos, MapCell::Terrain(t))
                    &&& *final(self) == (Joonas { map: final(self).map, ..*old(self) })
                },
                _ => *final(self) == *old(self),
            },
    {
        match self.map[pos.y][pos.x] {
            MapCell::Player(details, terrain) => {
                if details.id != self.id {
                    // It's another player
                    self.update_enemy_data(pos, details)
                } else {
                    // It's us, remove player and only store terrain
                    self.set_cell(pos, MapCell::Terrain(terrain));
                }
            },
            // TODO: consider if explosions etc. need some handling
            _ => (),
        }
    }
}

impl Joonas {
    /// Copies the scan onto the tank's map, creating the map at the world's size first,
    /// and looks at every copied cell.
    #[verifier::rlimit(60)]
    fn store_and_analyze_scan_data(&mut self, ctx: &Context)
        ensures
            scan_stored(*old(self), *ctx, *final(self)),
            final(self).map@.len() > 0,
    {
        proof {
            use_type_invariant(&*self);
        }
        let ghost start = *self;
        // Initialize our own map according to world size
        if self.map.len() == 0 {
            self.map = unexplored_map(ctx.world_size());
        }
        let ghost base = self.map@;
        proof {
            assert forall|y: int, x: int|
                0 <= y < base.len() && 0 <= x < base[y]@.len() implies #[trigger] base[y]@[x]
                == base_cell(start, y, x) by {}
        }
        if let Some(scan_data) = ctx.scanned_data() {
            let (scan_origo_x, scan_origo_y) = self.get_scan_origo(&scan_data.scan_type);
            let ghost o = (scan_origo_x as int, scan_origo_y as int);
            // Now that we know the origo of scanned data in world coordinates, update our own map
            let mut scan_y: usize = 0;
            while scan_y < SCANNING_DISTANCE
                invariant
                    scan_y <= SCANNING_DISTANCE,
                    *self == (Joonas { map: self.map, enemies: self.enemies, ..start }),
                    same_shape(base, self.map@),
                    forall|y: int, x: int|
                        0 <= y < base.len() && 0 <= x < base[y]@.len() ==> #[trigger] base[y]@[x]
                            == base_cell(start, y, x),
                    o == scan_origin(scan_data.scan_type, start.position),
                    scan_origo_x == o.0,
                    scan_origo_y == o.1,
                    start.position.x <= MAX_WORLD_SIZE,
                    start.position.y <= MAX_WORLD_SIZE,
                    ctx.scan_spec() == Some(*scan_data),
                    forall|sy: int, sx: int|
                        0 <= sy < scan_y && 0 <= sx < SCANNING_DISTANCE ==> #[trigger] scan_copied(
                            self.map@,
                            *scan_data,
                            o,
                            start.id,
                            sy,
                            sx,
                        ),
                    forall|sy: int, sx: int|
                        0 <= sy < scan_y && 0 <= sx < SCANNING_DISTANCE ==> #[trigger] scan_noted(
                            self.enemies@,
                            self.map@,
                            *scan_data,
                            o,
                            start.id,
                            start.time,
                            sy,
                            sx,
                        ),
                    forall|y: int, x: int|
                        0 <= y < self.map@.len() && 0 <= x < self.map@[y]@.len() && !(covers(o, y, x)
                            && y < o.1 + scan_y) ==> #[trigger] self.map@[y]@[x] == base[y]@[x],
                decreases SCANNING_DISTANCE - scan_y,
            {
                let mut scan_x: usize = 0;
                while scan_x < SCANNING_DISTANCE
                    invariant
                        scan_y < SCANNING_DISTANCE,
                        scan_x <= SCANNING_DISTANCE,
                        *self == (Joonas { map: self.map, enemies: self.enemies, ..start }),
                        same_shape(base, self.map@),
                        o == scan_origin(scan_data.scan_type, start.position),
                        scan_origo_x == o.0,
                        scan_origo_y == o.1,
                        start.position.x <= MAX_WORLD_SIZE,
                        start.position.y <= MAX_WORLD_SIZE,
                        forall|sy: int, sx: int|
                            0 <= sy < SCANNING_DISTANCE && 0 <= sx < SCANNING_DISTANCE && (sy < scan_y
                                || (sy == scan_y && sx < scan_x)) ==> #[trigger] scan_copied(
                                self.map@,
                                *scan_data,
                                o,
                                start.id,
                                sy,
                                sx,
                            ),
                        forall|sy: int, sx: int|
                            0 <= sy < SCANNING_DISTANCE && 0 <= sx < SCANNING_DISTANCE && (sy < scan_y
                                || (sy == scan_y && sx < scan_x)) ==> #[trigger] scan_noted(
                                self.enemies@,
                                self.map@,
                                *scan_data,
                                o,
                                start.id,
                                start.time,
                                sy,
                                sx,
                            ),
                        forall|y: int, x: int|
                            0 <= y < self.map@.len() && 0 <= x < self.map@[y]@.len() && !(covers(o, y, x)
                                && (y < o.1 + scan_y || (y == o.1 + scan_y && x < o.0 + scan_x)))
                                ==> #[trigger] self.map@[y]@[x] == base[y]@[x],
                    decreases SCANNING_DISTANCE - scan_x,
                {
                    let scan_coord = Position { x: scan_x, y: scan_y };
                    if let Some(coordinate) = self.scan_coordinate_to_world_coordinate(
                        (scan_origo_x, scan_origo_y),
                        scan_coord,
                    ) {
                        // We have the scanned map cell with world coordinates. Store it in our own map.
                        let cell = scan_data.data[scan_y][scan_x];
                        let ghost m0 = self.map@;
                        let ghost e0 = self.enemies@;
                        self.set_cell(coordinate, cell);
                        let ghost m1 = self.map@;
                        self.analyze_cell(coordinate);
                        proof {
                            lemma_scan_step(
                                base,
                                m0,
                                m1,
                                self.map@,
                                e0,
                                self.enemies@,
                                *scan_data,
                                o,
                                start.id,
                                start.time,
                                scan_y as int,
                                scan_x as int,
                                coordinate,
                            );
                        }
                    }
                    scan_x = scan_x + 1;
                }
                scan_y = scan_y + 1;
            }
        }
        proof {
            let ws = ctx.world_size_spec();
            if start.map@.len() == 0 {
                assert forall|y: int| 0 <= y < ws.y implies (#[trigger] self.map@[y])@.len() == ws.x by {
                    assert(base[y]@.len() == self.map@[y]@.len());
                }
            }
        }
    }
}

impl Joonas {
    /// What the map shows one step ahead, or an unexplored cell beyond the map.
    fn get_terrain_ahead(&self) -> (r: MapCell)
        requires
            self.map@.len() > 0,
        ensures
            r == ahead(*self),
    {
        proof {
            use_type_invariant(self);
        }
        if let Some(cell_ahead) = self.position.follow(
            &self.orientation,
            &WorldSize { x: self.map[0].len(), y: self.map.len() },
        ) {
            proof {
                assert(self.map@[cell_ahead.y as int]@.len() == self.map@[0]@.len());
            }
            return self.map[cell_ahead.y][cell_ahead.x];
        }
        MapCell::Unallocated
    }

    // Go through enemy data and return enemy details, if a recently seen enemy is alive.
    // If multiple enemies to choose from, pick based on firing possibility and timestamp (most recent)
    // If no recently seen enemies alive, return None.
    fn check_enemy_data(&self) -> (r: Option<Enemy>)
        ensures
            target_chosen(*self, r),
    {
        let ghost s = self.enemies@;
        let ghost me = self.position;
        let mut target_enemy: Option<Enemy> = None;
        let mut k: usize = 0;
        while k < self.enemies.len()
            invariant
                k <= s.len(),
                s == self.enemies@,
                me == self.position,
                target_chosen_upto(*self, target_enemy, k as int),
            decreases s.len() - k,
        {
            let enemy = self.enemies[k];
            let ghost before_target = target_enemy;
            let is_eligible = enemy.details.alive && enemy.timestamp <= self.time && (self.time
                - enemy.timestamp) <= 3;
            proof {
                assert(s[k as int] == enemy);
                assert(is_eligible == eligible_at(*self, k as int));
            }
            if is_eligible {
                match target_enemy {
                    Some(prev_enemy) => {
                        // Another enemy already chosen as target, do some comparing
                        let enemy_close = self.position.could_hit_positionally(&enemy.position);
                        let prev_close = self.position.could_hit_positionally(&prev_enemy.position);
                        if enemy_close && prev_close {
                            // Both are within positional range, change target if new enemy has bigger timestamp
                            if enemy.timestamp > prev_enemy.timestamp {
                                target_enemy = Some(enemy);
                            }
                        } else if enemy_close {
                            // Previous enemy not within positional range, but new one is
                            target_enemy = Some(enemy);
                        } else if prev_close {
                            // Previous enemy is within positional range, but new one is not
                        } else {
                            // Neither within positional range, how about cardinal shooting?
                            if self.position.could_hit_cardinally(&enemy.position) {
                                target_enemy = Some(enemy);
                            } else if self.position.could_hit_cardinally(&prev_enemy.position) {
                            }
                        }
                    },
                    None => {
                        // No enemy chosen as target yet, let's go with this one
                        target_enemy = Some(enemy);
                    },
                }
            }
            proof {
                assert(target_enemy == target_step(*self, before_target, k as int));
                lemma_target_step(*self, before_target, k as int);
            }
            k = k + 1;
        }
        target_enemy
    }

    /// The general direction of an enemy that is not where the tank stands.
    fn get_enemy_direction(&self, enemy_pos: &Position) -> (r: Orientation)
        requires
            *enemy_pos != self.position,
        ensures
            r == general_direction(self.position, *enemy_pos),
    {
        let dx: i128 = enemy_pos.x as i128 - self.position.x as i128;
        let dy: i128 = enemy_pos.y as i128 - self.position.y as i128;

        // Check for direct horizontal/vertical
        if dx == 0 {
            if dy > 0 {
                return Orientation::South;
            } else if dy < 0 {
                return Orientation::North;
            }
        }
        if dy == 0 {
            if dx > 0 {
                return Orientation::East;
            } else if dx < 0 {
                return Orientation::West;
            }
        }
        // Check for diagonal areas
        if dx > 0 && dy > 0 {
            Orientation::SouthEast
        } else if dx > 0 && dy < 0 {
            Orientation::NorthEast
        } else if dx < 0 && dy < 0 {
            Orientation::NorthWest
        } else {
            Orientation::SouthWest
        }
    }

    fn get_cardinal_shooting_direction(&self, enemy_pos: &Position) -> (r: Option<Orientation>)
        ensures
            r == cardinal_direction(self.position, *enemy_pos),
    {
        let dx: i128 = enemy_pos.x as i128 - self.position.x as i128;
        let dy: i128 = enemy_pos.y as i128 - self.position.y as i128;

        // Check for horizontal/vertical
        if dx == 0 {
            if dy > 0 {
                return Some(Orientation::South);
            } else if dy < 0 {
                return Some(Orientation::North);
            }
        }
        if dy == 0 {
            if dx > 0 {
                return Some(Orientation::East);
            } else if dx < 0 {
                return Some(Orientation::West);
            }
        }
        // Check for exact diagonal
        let adx = if dx < 0 {
            -dx
        } else {
            dx
        };
        let ady = if dy < 0 {
            -dy
        } else {
            dy
        };
        if adx == ady && dx != 0 {
            return if dx > 0 && dy > 0 {
                Some(Orientation::SouthEast)
            } else if dx > 0 && dy < 0 {
                Some(Orientation::NorthEast)
            } else if dx < 0 && dy < 0 {
                Some(Orientation::NorthWest)
            } else {
                Some(Orientation::SouthWest)
            };
        }
        // Not in position to fire cardinal, damnit!
        None
    }

    /// Whether the tank faces a border of the map within half a scan.
    fn facing_map_border(&self) -> (r: bool)
        ensures
            r == faces_border(*self),
    {
        let omniscan_distance = SCANNING_DISTANCE / 2;
        let width = if self.map.len() > 0 {
            self.map[0].len()
        } else {
            0
        };
        let south_boundary = self.map.len().saturating_sub(omniscan_distance);
        let east_boundary = width.saturating_sub(omniscan_distance);

        match self.orientation {
            Orientation::North => if self.position.y < omniscan_distance {
                return true;
            },
            Orientation::NorthEast => if self.position.y < omniscan_distance || self.position.x
                > east_boundary {
                return true;
            },
            Orientation::East => if self.position.x > east_boundary {
                return true;
            },
            Orientation::SouthEast => if self.position.y > south_boundary || self.position.x
                > east_boundary {
                return true;
            },
            Orientation::South => if self.position.y > south_boundary {
                return true;
            },
            Orientation::SouthWest => if self.position.y > south_boundary || self.position.x
                < omniscan_distance {
                return true;
            },
            Orientation::West => if self.position.x < omniscan_distance {
                return true;
            },
            Orientation::NorthWest => if self.position.y < omniscan_distance || self.position.x
                < omniscan_distance {
                return true;
            },
        }
        return false;
    }

    /// Alternates between omni and mono scans; see `next_scan`.
    fn decide_next_scan_type(&mut self, enemy_direction: Option<Orientation>) -> (r: Action)
        ensures
            scan_decided(*old(self), enemy_direction, r, *final(self)),
    {
        proof {
            use_type_invariant(&*self);
        }
        // Alternate between omni and mono directly ahead. If enemies are near, scan towards them instead of ahead.
        // If facing near the border of the map, only do mono scan.
        match self.prev_scan_type {
            ScanType::Omni => {
                if let Some(enemy) = enemy_direction {
                    self.prev_scan_type = ScanType::Mono(enemy)
                } else if self.facing_map_border() {
                    self.prev_scan_type = ScanType::Omni
                } else {
                    self.prev_scan_type = ScanType::Mono(self.orientation)
                }
            },
            ScanType::Mono(_) => self.prev_scan_type = ScanType::Omni,
        };
        Action::Scan(self.prev_scan_type)
    }

    /// A shot at the enemy when it is within reach; see `fired`.
    fn decide_firing_option(&mut self, enemy: Enemy) -> (r: Action)
        requires
            old(self).map@.len() > 0,
        ensures
            fired(*old(self), enemy, r, *final(self)),
    {
        // these are the ranges for omni and mono scans and therefore the ranges of positional and cardinal shooting
        let positional_range = SCANNING_DISTANCE / 2;
        let cardinal_range = SCANNING_DISTANCE - 1;
        let dx = distance_along(self.position.x, enemy.position.x);
        let dy = distance_along(self.position.y, enemy.position.y);

        // Check if in range for positional shooting
        if dx <= positional_range && dy <= positional_range {
            return Action::Fire(Aiming::Positional(enemy.position));
        }
        // How about cardinal shooting
        if dx <= cardinal_range && dy <= cardinal_range {
            if let Some(orientation) = self.get_cardinal_shooting_direction(&enemy.position) {
                return Action::Fire(Aiming::Cardinal(orientation));
            }
        }
        // Enemy cannot be shot at. If the enemy has remained stationary for a while, continue exploration. Otherwise do a scan.
        if enemy.pos_history.is_full() && enemy.pos_history.all_equal() && self.last_action
            == Action::Scan(ScanType::Omni) {
            return self.explore();
        }
        let direction = self.get_enemy_direction(&enemy.position);
        self.decide_next_scan_type(Some(direction))
    }

    /// The way to turn: on as before when turning already, else a random way, kept.
    fn decide_rotation_direction(&mut self) -> (r: Action)
        ensures
            turn_chosen(*old(self), r, *final(self)),
    {
        proof {
            use_type_invariant(&*self);
        }
        // If we rotated as last action and still need to rotate, keep rotating in the same direction. Otherwise random.
        match self.ongoing_turn {
            Some(Rotation::Clockwise) => Action::Rotate(Rotation::Clockwise),
            Some(Rotation::CounterClockwise) => Action::Rotate(Rotation::CounterClockwise),
            None => {
                if chance(1, 2) {
                    self.ongoing_turn = Some(Rotation::Clockwise);
                    Action::Rotate(Rotation::Clockwise)
                } else {
                    self.ongoing_turn = Some(Rotation::CounterClockwise);
                    Action::Rotate(Rotation::CounterClockwise)
                }
            },
        }
    }

    // Move forward if possible, otherwise turn to a random direction until no obstacle ahead
    // TODO: some smarter movement?
    fn explore(&mut self) -> (r: Action)
        requires
            old(self).map@.len() > 0,
        ensures
            explored(*old(self), r, *final(self)),
    {
        match self.get_terrain_ahead() {
            MapCell::Terrain(Terrain::Field) => Action::Move(Direction::Forward),
            MapCell::Terrain(Terrain::Forest(_)) => self.decide_rotation_direction(),
            MapCell::Terrain(Terrain::Lake) => self.decide_rotation_direction(),
            MapCell::Terrain(Terrain::Swamp) => self.decide_rotation_direction(),
            MapCell::Player(_, _) => self.decide_rotation_direction(),
            MapCell::Unallocated => Action::Scan(ScanType::Mono(self.orientation)),
            _ => Action::Fire(Aiming::Cardinal(self.orientation)),
            // TODO: handle explosion/shell somehow?
        }
    }

    // Decide next action based on scanned data
    fn handle_scan(&mut self, ctx: &Context) -> (r: Action)
        ensures
            scan_handled(*old(self), *ctx, r, *final(self)),
    {
        self.store_and_analyze_scan_data(ctx);
        let ghost mid = *self;

        // If (alive) enemies around, shoot at them. Otherwise act based on what is ahead.
        let target = self.check_enemy_data();
        let r = if let Some(enemy) = target {
            self.decide_firing_option(enemy)
        } else {
            self.explore()
        };
        proof {
            assert(scan_stored(*old(self), *ctx, mid) && target_chosen(mid, target));
        }
        r
    }
}

impl Player for Joonas {
    /// Scans after idling, firing or turning (ahead after a cardinal shot), alternates the
    /// scans after moving, and answers a scan after scanning.
    fn act(&mut self, context: Context) -> (r: Action)
        ensures
            ({
                let b = refreshed(*old(self), context);
                match context.previous_action_spec() {
                    Action::Idle => r == Action::Scan(ScanType::Omni) && *final(self) == b,
                    Action::Fire(Aiming::Positional(_)) => r == Action::Scan(ScanType::Omni)
                        && *final(self) == b,
                    Action::Fire(Aiming::Cardinal(_)) => r == Action::Scan(
                        ScanType::Mono(context.details().orientation),
                    ) && *final(self) == b,
                    Action::Rotate(_) => r == Action::Scan(ScanType::Omni) && *final(self) == b,
                    Action::Move(_) => scan_decided(b, None, r, *final(self)),
                    Action::Scan(_) => scan_handled(b, context, r, *final(self)),
                }
            }),
    {
        proof {
            use_type_invariant(&*self);
        }
        // Update our own details
        self.id = context.player_details().id;
        self.last_action = *context.previous_action();
        self.orientation = context.player_details().orientation;
        self.position = *context.position();
        self.time = if self.time < u32::MAX {
            self.time + 1
        } else {
            self.time
        };

        // After turning completed and moving again, remove information about ongoing turn
        match self.last_action {
            Action::Move(_) => self.ongoing_turn = None,
            _ => (),
        }

        // TODO: when close to map border, do directional scan instead of omni?
        let next_action = match self.last_action {
            Action::Idle => Action::Scan(ScanType::Omni),
            Action::Fire(Aiming::Positional(_)) => Action::Scan(ScanType::Omni),
            Action::Fire(Aiming::Cardinal(_)) => Action::Scan(ScanType::Mono(self.orientation)),
            Action::Move(_) => self.decide_next_scan_type(None),
            Action::Rotate(_) => Action::Scan(ScanType::Omni),
            Action::Scan(_) => self.handle_scan(&context),
        };
        return next_action;
    }

    fn name(&self) -> (r: String)
        ensures
            r@ == "Joonas"@,
    {
        "Joonas".to_owned()
    }

    fn is_ready(&self) -> (r: bool)
        ensures
            r,
    {
        true
    }
}

/// Storing one scan cell, and looking at it, keeps what the earlier cells left and adds
/// this one.
proof fn lemma_scan_step(
    base: Seq<Vec<MapCell>>,
    m0: Seq<Vec<MapCell>>,
    m1: Seq<Vec<MapCell>>,
    m2: Seq<Vec<MapCell>>,
    e0: Seq<Enemy>,
    e2: Seq<Enemy>,
    scan: ScanResult,
    o: (int, int),
    id: u8,
    time: u32,
    scan_y: int,
    scan_x: int,
    coord: Position,
)
    requires
        0 <= scan_y < SCANNING_DISTANCE,
        0 <= scan_x < SCANNING_DISTANCE,
        same_shape(base, m0),
        coord.x == o.0 + scan_x,
        coord.y == o.1 + scan_y,
        coord.y < m0.len(),
        coord.x < m0[coord.y as int]@.len(),
        map_written(m0, m1, coord, scan.cell(scan_y, scan_x)),
        match scan.cell(scan_y, scan_x) {
            MapCell::Player(d, t) => if d.id != id {
                recorded(e0, e2, coord, d, time) && m2 == m1
            } else {
                map_written(m1, m2, coord, MapCell::Terrain(t)) && e2 == e0
            },
            _ => m2 == m1 && e2 == e0,
        },
        forall|sy: int, sx: int|
            0 <= sy < SCANNING_DISTANCE && 0 <= sx < SCANNING_DISTANCE && (sy < scan_y || (sy
                == scan_y && sx < scan_x)) ==> #[trigger] scan_copied(m0, scan, o, id, sy, sx),
        forall|sy: int, sx: int|
            0 <= sy < SCANNING_DISTANCE && 0 <= sx < SCANNING_DISTANCE && (sy < scan_y || (sy
                == scan_y && sx < scan_x)) ==> #[trigger] scan_noted(e0, m0, scan, o, id, time, sy, sx),
        forall|y: int, x: int|
            0 <= y < m0.len() && 0 <= x < m0[y]@.len() && !(covers(o, y, x) && (y < o.1 + scan_y || (y
                == o.1 + scan_y && x < o.0 + scan_x))) ==> #[trigger] m0[y]@[x] == base[y]@[x],
    ensures
        same_shape(base, m2),
        forall|sy: int, sx: int|
            0 <= sy < SCANNING_DISTANCE && 0 <= sx < SCANNING_DISTANCE && (sy < scan_y || (sy
                == scan_y && sx <= scan_x)) ==> #[trigger] scan_copied(m2, scan, o, id, sy, sx),
        forall|sy: int, sx: int|
            0 <= sy < SCANNING_DISTANCE && 0 <= sx < SCANNING_DISTANCE && (sy < scan_y || (sy
                == scan_y && sx <= scan_x)) ==> #[trigger] scan_noted(e2, m2, scan, o, id, time, sy, sx),
        forall|y: int, x: int|
            0 <= y < m2.len() && 0 <= x < m2[y]@.len() && !(covers(o, y, x) && (y < o.1 + scan_y || (y
                == o.1 + scan_y && x <= o.0 + scan_x))) ==> #[trigger] m2[y]@[x] == base[y]@[x],
{
    let cell = scan.cell(scan_y, scan_x);
    // The map after both writes: only the scanned cell differs from m0.
    assert(same_shape(m0, m2));
    assert forall|y: int, x: int|
        0 <= y < m2.len() && 0 <= x < m2[y]@.len() && !(y == coord.y && x == coord.x) implies #[trigger] m2[y]@[x]
        == m0[y]@[x] by {
        assert(m1[y]@[x] == m0[y]@[x]);
    }
    assert(m2[coord.y as int]@[coord.x as int] == stored(cell, id)) by {
        assert(m1[coord.y as int]@[coord.x as int] == cell);
    }
    assert forall|sy: int, sx: int|
        0 <= sy < SCANNING_DISTANCE && 0 <= sx < SCANNING_DISTANCE && (sy < scan_y || (sy == scan_y
            && sx <= scan_x)) implies #[trigger] scan_copied(m2, scan, o, id, sy, sx) by {
        if lands(m2, o, sy, sx) && !(sy == scan_y && sx == scan_x) {
            assert(scan_copied(m0, scan, o, id, sy, sx));
            assert(m2[o.1 + sy]@[o.0 + sx] == m0[o.1 + sy]@[o.0 + sx]);
        }
    }
    assert forall|sy: int, sx: int|
        0 <= sy < SCANNING_DISTANCE && 0 <= sx < SCANNING_DISTANCE && (sy < scan_y || (sy == scan_y
            && sx <= scan_x)) implies #[trigger] scan_noted(e2, m2, scan, o, id, time, sy, sx) by {
        if lands(m2, o, sy, sx) {
            if sy == scan_y && sx == scan_x {
                match cell {
                    MapCell::Player(d, t) => if d.id != id {
                        lemma_recorded_sees(e0, e2, coord, d, time);
                    },
                    _ => {},
                }
            } else {
                assert(scan_noted(e0, m0, scan, o, id, time, sy, sx));
                match scan.cell(sy, sx) {
                    MapCell::Player(d2, _) => if d2.id != id {
                        match cell {
                            MapCell::Player(d, t) => if d.id != id {
                                lemma_recorded_keeps_seen(e0, e2, coord, d, time, d2.id);
                            },
                            _ => {},
                        }
                    },
                    _ => {},
                }
            }
        }
    }
    assert forall|y: int, x: int|
        0 <= y < m2.len() && 0 <= x < m2[y]@.len() && !(covers(o, y, x) && (y < o.1 + scan_y || (y
            == o.1 + scan_y && x <= o.0 + scan_x))) implies #[trigger] m2[y]@[x] == base[y]@[x] by {
        assert(m2[y]@[x] == m0[y]@[x]);
    }
}

/// A sighting keeps every tank seen at the same time seen.
proof fn lemma_recorded_keeps_seen(
    before: Seq<Enemy>,
    after: Seq<Enemy>,
    pos: Position,
    details: Details,
    time: u32,
    id: u8,
)
    requires
        recorded(before, after, pos, details, time),
        seen(before, id, time),
    ensures
        seen(after, id, time),
{
    let k = choose|k: int| 0 <= k < before.len() && #[trigger] before[k].details.id == id && before[k].timestamp == time;
    if exists|i: int|
        0 <= i < before.len() && (#[trigger] before[i]).details.id == details.id && after
            == before.update(i, sighted(before[i], pos, details, time)) {
        let i = choose|i: int|
            0 <= i < before.len() && (#[trigger] before[i]).details.id == details.id && after
                == before.update(i, sighted(before[i], pos, details, time));
        if i == k {
            assert(after[k].details.id == id && after[k].timestamp == time);
        } else {
            assert(after[k] == before[k]);
        }
    } else {
        assert(after[k] == before[k]);
    }
}

/// A sighting marks its tank as seen.
proof fn lemma_recorded_sees(
    before: Seq<Enemy>,
    after: Seq<Enemy>,
    pos: Position,
    details: Details,
    time: u32,
)
    requires
        recorded(before, after, pos, details, time),
    ensures
        seen(after, details.id, time),
{
    if exists|i: int|
        0 <= i < before.len() && (#[trigger] before[i]).details.id == details.id && after
            == before.update(i, sighted(before[i], pos, details, time)) {
        let i = choose|i: int|
            0 <= i < before.len() && (#[trigger] before[i]).details.id == details.id && after
                == before.update(i, sighted(before[i], pos, details, time));
        assert(after[i].details.id == details.id);
    } else {
        assert(after[before.len() as int].details.id == details.id);
    }
}

/// A map of the world with every cell unexplored.
fn unexplored_map(world_size: &WorldSize) -> (r: Vec<Vec<MapCell>>)
    ensures
        r@.len() == world_size.y,
        forall|y: int| 0 <= y < r@.len() ==> (#[trigger] r@[y])@.len() == world_size.x,
        forall|y: int, x: int|
            0 <= y < r@.len() && 0 <= x < r@[y]@.len() ==> #[trigger] r@[y]@[x] == MapCell::Unallocated,
{
    let mut map: Vec<Vec<MapCell>> = Vec::new();
    let mut y: usize = 0;
    while y < world_size.y
        invariant
            y <= world_size.y,
            map@.len() == y,
            forall|k: int| 0 <= k < map@.len() ==> (#[trigger] map@[k])@.len() == world_size.x,
            forall|k: int, x: int|
                0 <= k < map@.len() && 0 <= x < map@[k]@.len() ==> #[trigger] map@[k]@[x]
                    == MapCell::Unallocated,
        decreases world_size.y - y,
    {
        let mut row: Vec<MapCell> = Vec::new();
        let mut x: usize = 0;
        while x < world_size.x
            invariant
                x <= world_size.x,
                row@.len() == x,
                forall|k: int| 0 <= k < row@.len() ==> #[trigger] row@[k] == MapCell::Unallocated,
            decreases world_size.x - x,
        {
            row.push(MapCell::Unallocated);
            x = x + 1;
        }
        map.push(row);
        y = y + 1;
    }
    map
}

/// Whether one step towards `o` moves each coordinate the way `target` lies from `me`.
pub open spec fn steps_towards(me: Position, target: Position, o: Orientation) -> bool {
    &&& (target.x > me.x ==> crate::api::position::step_x(o) == 1)
    &&& (target.x < me.x ==> crate::api::position::step_x(o) == -1)
    &&& (target.x == me.x ==> crate::api::position::step_x(o) == 0)
    &&& (target.y > me.y ==> crate::api::position::step_y(o) == 1)
    &&& (target.y < me.y ==> crate::api::position::step_y(o) == -1)
    &&& (target.y == me.y ==> crate::api::position::step_y(o) == 0)
}

/// A cardinal shot points at its target: the shot's orientation exists exactly when the
/// target lies in the same row, column or diagonal as the shooter (and is not the
/// shooter's own cell), and a step that way moves each coordinate towards the target.
/// So an enemy 10 cells south is shot at southwards.
pub proof fn lemma_cardinal_shot_points_at_the_target(me: Position, target: Position)
    ensures
        cardinal_direction(me, target) is Some <==> (target != me && (target.x == me.x || target.y
            == me.y || target.x - me.x == target.y - me.y || target.x - me.x == me.y - target.y)),
        cardinal_direction(me, target) matches Some(o) ==> steps_towards(me, target, o),
{
}

/// The general direction of a target other than the shooter's own cell points at it: a
/// step that way moves each coordinate towards the target.
pub proof fn lemma_general_direction_points_at_the_target(me: Position, target: Position)
    requires
        target != me,
    ensures
        steps_towards(me, target, general_direction(me, target)),
{
}

} // verus!
