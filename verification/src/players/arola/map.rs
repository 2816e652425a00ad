use vstd::prelude::*;

use super::helpers::{bidirectional_turn_spec, scan_world_origin};
use crate::api::{
    map_cell::{MapCell, Terrain, TreeType},
    orientation::Orientation,
    path_finder::walkable_cell,
    position::{distance_along, Position, SCANNING_DISTANCE},
    scan::ScanResult,
    world_size::MAX_WORLD_SIZE,
};
use crate::table::PositionTable;

verus! {

/// What the tank remembers of the world: one cell for every coordinate of the largest map.
pub struct WorldMap {
    map: [[MapCell; MAX_WORLD_SIZE]; MAX_WORLD_SIZE],
}

/// Whether a coordinate lies on the largest map.
pub open spec fn valid_coordinate(x: int, y: int) -> bool {
    0 <= x < MAX_WORLD_SIZE && 0 <= y < MAX_WORLD_SIZE
}

/// Whether a position lies on the largest map.
pub open spec fn valid_position(p: Position) -> bool {
    valid_coordinate(p.x as int, p.y as int)
}

/// What the map keeps of a scanned cell: its terrain, with a dead tank taken as a tree.
pub open spec fn resolved(cell: MapCell) -> MapCell {
    match cell {
        MapCell::Player(d, t) => if d.alive {
            MapCell::Terrain(t)
        } else {
            MapCell::Terrain(Terrain::Forest(TreeType::Deciduous))
        },
        MapCell::Explosion(_, t) => MapCell::Terrain(t),
        MapCell::Shell(_, t) => MapCell::Terrain(t),
        MapCell::Terrain(t) => MapCell::Terrain(t),
        MapCell::Unallocated => MapCell::Unallocated,
    }
}

/// The index of a cell of the largest map in a row-major table.
pub open spec fn cell_index(p: Position) -> int {
    p.y * MAX_WORLD_SIZE + p.x
}

/// The sum of a table of costs.
pub open spec fn cost_sum(s: Seq<u64>) -> nat
    decreases s.len(),
{
    if s.len() == 0 {
        0
    } else {
        cost_sum(s.drop_last()) + s.last() as nat
    }
}

/// Lowering one cost lowers the sum.
proof fn lemma_cost_sum_lowered(s: Seq<u64>, i: int, v: u64)
    requires
        0 <= i < s.len(),
        v < s[i],
    ensures
        cost_sum(s.update(i, v)) < cost_sum(s),
    decreases s.len(),
{
    let t = s.update(i, v);
    if i == s.len() - 1 {
        assert(t.drop_last() =~= s.drop_last());
    } else {
        assert(t.drop_last() =~= s.drop_last().update(i, v));
        lemma_cost_sum_lowered(s.drop_last(), i, v);
    }
}

/// How many costs of a table are known, that is below the largest value.
pub open spec fn known_count(s: Seq<u64>) -> nat
    decreases s.len(),
{
    if s.len() == 0 {
        0
    } else {
        known_count(s.drop_last()) + if s.last() < u64::MAX {
            1nat
        } else {
            0nat
        }
    }
}

/// A table holds at most as many known costs as entries.
proof fn lemma_known_count_bound(s: Seq<u64>)
    ensures
        known_count(s) <= s.len(),
    decreases s.len(),
{
    if s.len() > 0 {
        lemma_known_count_bound(s.drop_last());
    }
}

/// A table with a known cost has at least one.
proof fn lemma_known_count_some(s: Seq<u64>, i: int)
    requires
        0 <= i < s.len(),
        s[i] < u64::MAX,
    ensures
        known_count(s) >= 1,
    decreases s.len(),
{
    if i < s.len() - 1 {
        lemma_known_count_some(s.drop_last(), i);
    }
}

/// Setting a known cost adds one known cost when the entry was unknown.
proof fn lemma_known_count_update(s: Seq<u64>, i: int, v: u64)
    requires
        0 <= i < s.len(),
        v < u64::MAX,
    ensures
        known_count(s.update(i, v)) == known_count(s) + if s[i] < u64::MAX {
            0nat
        } else {
            1nat
        },
    decreases s.len(),
{
    let t = s.update(i, v);
    if i == s.len() - 1 {
        assert(t.drop_last() =~= s.drop_last());
    } else {
        assert(t.drop_last() =~= s.drop_last().update(i, v));
        lemma_known_count_update(s.drop_last(), i, v);
    }
}

/// A table of unknown costs has none known.
proof fn lemma_known_count_none(s: Seq<u64>)
    requires
        forall|i: int| 0 <= i < s.len() ==> #[trigger] s[i] == u64::MAX,
    ensures
        known_count(s) == 0,
    decreases s.len(),
{
    if s.len() > 0 {
        lemma_known_count_none(s.drop_last());
    }
}

/// Whether a list of candidates holds a position.
pub open spec fn is_candidate(candidates: Seq<(Position, u64, Orientation)>, k: Position) -> bool {
    exists|j: int| 0 <= j < candidates.len() && #[trigger] candidates[j].0 == k
}

/// Whether every neighbour of `k` on the map that can be entered has a known cost.
pub open spec fn expanded(map: WorldMap, costs: Seq<u64>, k: Position) -> bool {
    forall|q: Position|
        valid_position(q) && q.touches(k) && walkable_cell(map.cell_at(q.x as int, q.y as int))
            ==> #[trigger] costs[cell_index(q)] < u64::MAX
}

/// Whether some route leads from `start` to `target`.
pub open spec fn route_exists(map: WorldMap, start: Position, target: Position) -> bool {
    exists|path: Seq<Position>| #[trigger] route_ok(map, start, target, path)
}

/// A neighbour on the map of a cell is among the cell's neighbours.
proof fn lemma_neighbor_listed(p: Position, q: Position)
    requires
        valid_position(p),
        valid_position(q),
        q.touches(p),
    ensures
        neighbors_upto(p, 8).contains(q),
{
    let dx = q.x - p.x;
    let dy = q.y - p.y;
    let i: int = if dx == 1 && dy == 0 {
        0
    } else if dx == 1 && dy == 1 {
        1
    } else if dx == 0 && dy == 1 {
        2
    } else if dx == -1 && dy == 1 {
        3
    } else if dx == -1 && dy == 0 {
        4
    } else if dx == -1 && dy == -1 {
        5
    } else if dx == 0 && dy == -1 {
        6
    } else {
        7
    };
    assert(neighbor_delta(i) == (dx, dy));
    lemma_neighbor_listed_upto(p, q, i, 8);
}

/// A neighbour at the `i`-th offset is among the first `n > i` neighbours.
proof fn lemma_neighbor_listed_upto(p: Position, q: Position, i: int, n: nat)
    requires
        0 <= i < n,
        valid_position(q),
        neighbor_delta(i) == (q.x - p.x, q.y - p.y),
    ensures
        neighbors_upto(p, n).contains(q),
    decreases n,
{
    let prev = neighbors_upto(p, (n - 1) as nat);
    if i == n - 1 {
        assert(neighbors_upto(p, n) == prev.push(q));
        assert(neighbors_upto(p, n)[prev.len() as int] == q);
    } else {
        lemma_neighbor_listed_upto(p, q, i, (n - 1) as nat);
        let w = choose|w: int| 0 <= w < prev.len() && prev[w] == q;
        assert(neighbors_upto(p, n)[w] == q);
    }
}

/// When every cell with a known cost has had its neighbours costed, and the start has a
/// known cost, every cell of a route has one, from the start onwards.
proof fn lemma_route_costed(
    map: WorldMap,
    costs: Seq<u64>,
    start: Position,
    target: Position,
    path: Seq<Position>,
    n: int,
)
    requires
        costs.len() == MAX_WORLD_SIZE * MAX_WORLD_SIZE,
        forall|k: Position|
            valid_position(k) && #[trigger] costs[cell_index(k)] < u64::MAX ==> expanded(map, costs, k),
        valid_position(start),
        costs[cell_index(start)] < u64::MAX,
        route_ok(map, start, target, path),
        0 <= n < path.len(),
    ensures
        costs[cell_index(path[n])] < u64::MAX,
    decreases n,
{
    if n == 0 {
        assert(expanded(map, costs, start));
        assert(valid_position(path[0]));
    } else {
        lemma_route_costed(map, costs, start, target, path, n - 1);
        assert(valid_position(path[n - 1]));
        let m = n - 1;
        assert(path[m + 1].touches(path[m]));
        assert(valid_position(path[n]));
        assert(expanded(map, costs, path[n - 1]));
    }
}

impl WorldMap {
    /// The cell at a coordinate, unexplored off the map.
    pub closed spec fn cell_at(self, x: int, y: int) -> MapCell {
        if valid_coordinate(x, y) {
            self.map@[y]@[x]
        } else {
            MapCell::Unallocated
        }
    }

    /// The cost of stepping from `current`, facing `o`, onto the neighbour `next`: the
    /// turns needed to face it or back onto it, plus one; none when it cannot be entered.
    pub open spec fn step_cost(self, current: Position, o: Orientation, next: Position) -> Option<
        u64,
    > {
        if walkable_cell(self.cell_at(next.x as int, next.y as int)) {
            Some((bidirectional_turn_spec(o, direction_of(current, next)).1 + 1) as u64)
        } else {
            None
        }
    }

    pub fn new() -> (r: Self)
        ensures
            forall|x: int, y: int| #[trigger] r.cell_at(x, y) == MapCell::Unallocated,
    {
        let r = Self { map: [[MapCell::Unallocated; MAX_WORLD_SIZE]; MAX_WORLD_SIZE] };
        proof {
            assert forall|x: int, y: int| #[trigger] r.cell_at(x, y) == MapCell::Unallocated by {
                if valid_coordinate(x, y) {
                    assert(r.map@[y]@[x] == MapCell::Unallocated);
                }
            }
        }
        r
    }

    fn is_valid_coordinate(&self, x: isize, y: isize) -> (r: bool)
        ensures
            r == valid_coordinate(x as int, y as int),
    {
        x >= 0 && x < MAX_WORLD_SIZE as isize && y >= 0 && y < MAX_WORLD_SIZE as isize
    }

    pub fn get_cell(&self, position: &Position) -> (r: MapCell)
        requires
            position.fits(),
        ensures
            r == self.cell_at(position.x as int, position.y as int),
    {
        self.get_cell_isize(position.x as isize, position.y as isize)
    }

    fn get_cell_isize(&self, x: isize, y: isize) -> (r: MapCell)
        ensures
            r == self.cell_at(x as int, y as int),
    {
        if self.is_valid_coordinate(x, y) {
            self.map[y as usize][x as usize]
        } else {
            MapCell::Unallocated
        }
    }

    fn set_cell(&mut self, x: isize, y: isize, map_cell: MapCell)
        ensures
            forall|cx: int, cy: int| #[trigger]
                final(self).cell_at(cx, cy) == if cx == x && cy == y && valid_coordinate(cx, cy) {
                    map_cell
                } else {
                    old(self).cell_at(cx, cy)
                },
    {
        if self.is_valid_coordinate(x, y) {
            let mut row = self.map[y as usize];
            row[x as usize] = map_cell;
            self.map[y as usize] = row;
        }
    }

    /// Copies what a scan shows onto the map, keeping the terrain of each cell.
    pub fn collect_data(&mut self, scan_result: &ScanResult, my_world_position: &Position)
        requires
            my_world_position.x <= MAX_WORLD_SIZE,
            my_world_position.y <= MAX_WORLD_SIZE,
        ensures
            ({
                let o = scan_world_origin(scan_result.scan_type, *my_world_position);
                forall|x: int, y: int| #[trigger]
                    final(self).cell_at(x, y) == if valid_coordinate(x, y) && o.0 <= x < o.0
                        + SCANNING_DISTANCE && o.1 <= y < o.1 + SCANNING_DISTANCE {
                        resolved(scan_result.cell(y - o.1, x - o.0))
                    } else {
                        old(self).cell_at(x, y)
                    }
            }),
    {
        let (scan_world_x, scan_world_y) = scan_result.get_world_position(my_world_position);
        let ghost o = (scan_world_x as int, scan_world_y as int);
        let ghost start = *self;
        let d = SCANNING_DISTANCE;

        let mut y: usize = 0;
        while y < d
            invariant
                y <= d,
                d == SCANNING_DISTANCE,
                o == scan_world_origin(scan_result.scan_type, *my_world_position),
                scan_world_x == o.0,
                scan_world_y == o.1,
                -(SCANNING_DISTANCE as int) <= o.0 <= MAX_WORLD_SIZE,
                -(SCANNING_DISTANCE as int) <= o.1 <= MAX_WORLD_SIZE,
                forall|cx: int, cy: int| #[trigger]
                    self.cell_at(cx, cy) == if valid_coordinate(cx, cy) && o.0 <= cx < o.0
                        + SCANNING_DISTANCE && o.1 <= cy < o.1 + y {
                        resolved(scan_result.cell(cy - o.1, cx - o.0))
                    } else {
                        start.cell_at(cx, cy)
                    },
            decreases d - y,
        {
            let mut x: usize = 0;
            while x < d
                invariant
                    y < d,
                    x <= d,
                    d == SCANNING_DISTANCE,
                    o == scan_world_origin(scan_result.scan_type, *my_world_position),
                    scan_world_x == o.0,
                    scan_world_y == o.1,
                    -(SCANNING_DISTANCE as int) <= o.0 <= MAX_WORLD_SIZE,
                    -(SCANNING_DISTANCE as int) <= o.1 <= MAX_WORLD_SIZE,
                    forall|cx: int, cy: int| #[trigger]
                        self.cell_at(cx, cy) == if valid_coordinate(cx, cy) && ((o.0 <= cx < o.0
                            + SCANNING_DISTANCE && o.1 <= cy < o.1 + y) || (o.0 <= cx < o.0 + x
                            && cy == o.1 + y)) {
                            resolved(scan_result.cell(cy - o.1, cx - o.0))
                        } else {
                            start.cell_at(cx, cy)
                        },
                decreases d - x,
            {
                let map_x = x as isize + scan_world_x;
                let map_y = y as isize + scan_world_y;
                let map_cell = WorldMap::resolve_terrain(&scan_result.data[y][x]);
                proof {
                    assert(scan_result.data@[y as int]@[x as int] == scan_result.cell(y as int, x as int));
                }
                self.set_cell(map_x, map_y, map_cell);
                x = x + 1;
            }
            y = y + 1;
        }
    }

    fn resolve_terrain(map_cell: &MapCell) -> (r: MapCell)
        ensures
            r == resolved(*map_cell),
    {
        match map_cell {
            MapCell::Player(player_details, terrain) => {
                if player_details.alive {
                    MapCell::Terrain(*terrain)
                } else {
                    // Map dead player as an obstacle
                    MapCell::Terrain(Terrain::Forest(TreeType::Deciduous))
                }
            },
            MapCell::Explosion(_, terrain) => MapCell::Terrain(*terrain),
            MapCell::Shell(_, terrain) => MapCell::Terrain(*terrain),
            MapCell::Terrain(terrain) => MapCell::Terrain(*terrain),
            MapCell::Unallocated => MapCell::Unallocated,
        }
    }
}

/// The offsets of the eight neighbours of a cell, in the order they are visited.
pub open spec fn neighbor_delta(i: int) -> (int, int) {
    if i == 0 {
        (1, 0)
    } else if i == 1 {
        (1, 1)
    } else if i == 2 {
        (0, 1)
    } else if i == 3 {
        (-1, 1)
    } else if i == 4 {
        (-1, 0)
    } else if i == 5 {
        (-1, -1)
    } else if i == 6 {
        (0, -1)
    } else {
        (1, -1)
    }
}

/// The neighbours of `p` on the largest map among the first `n` offsets.
pub open spec fn neighbors_upto(p: Position, n: nat) -> Seq<Position>
    decreases n,
{
    if n == 0 {
        Seq::empty()
    } else {
        let prev = neighbors_upto(p, (n - 1) as nat);
        let d = neighbor_delta(n - 1);
        let x = p.x + d.0;
        let y = p.y + d.1;
        if valid_coordinate(x, y) {
            prev.push(Position { x: x as usize, y: y as usize })
        } else {
            prev
        }
    }
}

/// A route from `start` to `target`: it leads from a neighbour of `start` through
/// neighbouring cells that can be entered, other than `start`, to `target`.
pub open spec fn route_ok(map: WorldMap, start: Position, target: Position, path: Seq<Position>) -> bool {
    &&& path.len() > 0
    &&& path.last() == target
    &&& path[0].touches(start)
    &&& forall|i: int|
        0 <= i < path.len() ==> {
            &&& valid_position(#[trigger] path[i])
            &&& walkable_cell(map.cell_at(path[i].x as int, path[i].y as int))
            &&& path[i] != start
        }
    &&& forall|i: int| 0 <= i < path.len() - 1 ==> #[trigger] path[i + 1].touches(path[i])
}

/// What the search keeps true of the way back: every cell with a predecessor lies on the
/// map, can be entered, is not the start, and costs more than its predecessor, a
/// neighbour on the map; every cell with a known cost but the start has a predecessor.
pub open spec fn history_ok(
    map: WorldMap,
    history: Map<Position, Position>,
    costs: Seq<u64>,
    start: Position,
) -> bool {
    &&& costs.len() == MAX_WORLD_SIZE * MAX_WORLD_SIZE
    &&& valid_position(start)
    &&& costs[cell_index(start)] == 0
    &&& forall|k: Position| #[trigger]
        history.contains_key(k) ==> {
            &&& valid_position(k)
            &&& k != start
            &&& walkable_cell(map.cell_at(k.x as int, k.y as int))
            &&& history[k].touches(k)
            &&& valid_position(history[k])
            &&& costs[cell_index(history[k])] < costs[cell_index(k)]
        }
    &&& forall|k: Position|
        valid_position(k) && k != start && #[trigger] costs[cell_index(k)] < u64::MAX
            ==> history.contains_key(k)
}

/// Cells of the largest map have distinct indices within the table.
proof fn lemma_cell_index(p: Position, q: Position)
    requires
        valid_position(p),
        valid_position(q),
    ensures
        0 <= cell_index(p) < MAX_WORLD_SIZE * MAX_WORLD_SIZE,
        cell_index(p) == cell_index(q) ==> p == q,
{
}

impl WorldMap {
    /// The cheapest known route from `start_position`, facing `start_orientation`, to
    /// `target_position`, by the `A*` search: steps onto neighbouring cells that are open
    /// field or unexplored, each costing one plus the turns needed to face the cell or
    /// back onto it. The route leaves out the start. None when the target is the start
    /// or cannot be reached.
    #[verifier::rlimit(80)]
    pub fn find_path(
        &self,
        start_position: Position,
        start_orientation: Orientation,
        target_position: &Position,
    ) -> (r: Option<Vec<Position>>)
        requires
            valid_position(start_position),
        ensures
            r matches Some(path) ==> route_ok(*self, start_position, *target_position, path@),
            *target_position == start_position ==> r is None,
            *target_position != start_position && route_exists(
                *self,
                start_position,
                *target_position,
            ) ==> r is Some,
    {
        // Table to store the cheapest known path cost from start_position to each of the map cells
        let n = MAX_WORLD_SIZE * MAX_WORLD_SIZE;
        let mut path_cost: Vec<u64> = Vec::new();
        while path_cost.len() < n
            invariant
                path_cost@.len() <= n,
                n == MAX_WORLD_SIZE * MAX_WORLD_SIZE,
                forall|i: int| 0 <= i < path_cost@.len() ==> #[trigger] path_cost@[i] == u64::MAX,
            decreases n - path_cost@.len(),
        {
            path_cost.push(u64::MAX);
        }
        proof {
            lemma_cell_index(start_position, start_position);
            lemma_known_count_none(path_cost@);
            lemma_known_count_update(path_cost@, cell_index(start_position), 0);
        }
        path_cost.set(start_position.y * MAX_WORLD_SIZE + start_position.x, 0);

        // The path candidate nodes that need to be further expanded, with the estimated
        // cost for the path that goes through each and the orientation in it.
        let mut path_candidates: Vec<(Position, u64, Orientation)> = Vec::new();
        path_candidates.push((start_position, 0, start_orientation));

        // The previous nodes in the cheapest known path.
        let mut path_history: PositionTable<Position> = PositionTable::new();
        proof {
            assert forall|k: Position|
                valid_position(k) && k != start_position && #[trigger] path_cost@[cell_index(k)]
                    < u64::MAX implies path_history.as_map().contains_key(k) by {
                lemma_cell_index(k, start_position);
            }
            assert forall|k: Position|
                valid_position(k) && #[trigger] path_cost@[cell_index(k)] < u64::MAX implies is_candidate(
                path_candidates@,
                k,
            ) by {
                lemma_cell_index(k, start_position);
                assert(path_candidates@[0].0 == k);
            }
            assert(known_count(path_cost@) == 1);
        }

        // While there is path candidate nodes to expand, find the node/path with the lowest
        // estimated total cost. I.e. expand the most promising path.
        loop
            invariant
                path_history.wf(),
                history_ok(*self, path_history.as_map(), path_cost@, start_position),
                forall|j: int|
                    0 <= j < path_candidates@.len() ==> valid_position(#[trigger] path_candidates@[j].0),
                forall|j: int|
                    0 <= j < path_candidates@.len() ==> path_cost@[cell_index(
                        #[trigger] path_candidates@[j].0,
                    )] < u64::MAX,
                valid_position(*target_position) && path_cost@[cell_index(*target_position)]
                    < u64::MAX ==> is_candidate(path_candidates@, *target_position),
                forall|k: Position|
                    valid_position(k) && #[trigger] path_cost@[cell_index(k)] < u64::MAX
                        ==> is_candidate(path_candidates@, k) || expanded(*self, path_cost@, k),
                forall|i: int|
                    0 <= i < path_cost@.len() && #[trigger] path_cost@[i] < u64::MAX ==> path_cost@[i]
                        <= 3 * (known_count(path_cost@) - 1),
            decreases cost_sum(path_cost@), path_candidates@.len(),
        {
            let pick = cheapest_candidate(&path_candidates);
            let ci = match pick {
                Some(ci) => ci,
                None => {
                    // All candidates expanded and no path to target was found
                    proof {
                        if *target_position != start_position && route_exists(
                            *self,
                            start_position,
                            *target_position,
                        ) {
                            let path = choose|path: Seq<Position>|
                                #[trigger] route_ok(*self, start_position, *target_position, path);
                            assert forall|k: Position|
                                valid_position(k) && #[trigger] path_cost@[cell_index(k)]
                                    < u64::MAX implies expanded(*self, path_cost@, k) by {
                                if is_candidate(path_candidates@, k) {
                                    let j = choose|j: int|
                                        0 <= j < path_candidates@.len()
                                            && #[trigger] path_candidates@[j].0 == k;
                                }
                            }
                            lemma_route_costed(
                                *self,
                                path_cost@,
                                start_position,
                                *target_position,
                                path,
                                path.len() - 1,
                            );
                            assert(valid_position(path[path.len() - 1]));
                            let j = choose|j: int|
                                0 <= j < path_candidates@.len()
                                    && #[trigger] path_candidates@[j].0 == *target_position;
                        }
                    }
                    return None;
                },
            };
            let (candidate_position, _, candidate_orientation) = path_candidates[ci];
            assert(valid_position(path_candidates@[ci as int].0));

            // Construct and return path if reached the target position
            if candidate_position == *target_position {
                proof {
                    lemma_cell_index(candidate_position, start_position);
                }
                return WorldMap::construct_path(
                    &path_history,
                    target_position,
                    Ghost(*self),
                    Ghost(path_cost@),
                    Ghost(start_position),
                );
            }
            let ghost sum_before = cost_sum(path_cost@);
            let ghost len_before = path_candidates@.len();
            let ghost cands_full = path_candidates@;
            path_candidates.remove(ci);
            proof {
                lemma_cell_index(candidate_position, candidate_position);
                assert forall|k: Position|
                    is_candidate(cands_full, k) && k != candidate_position implies is_candidate(
                    path_candidates@,
                    k,
                ) by {
                    let j = choose|j: int| 0 <= j < cands_full.len() && #[trigger] cands_full[j].0 == k;
                    assert(j != ci);
                    if j < ci {
                        assert(path_candidates@[j] == cands_full[j]);
                    } else {
                        assert(path_candidates@[j - 1] == cands_full[j]);
                    }
                }
                assert forall|j: int|
                    0 <= j < path_candidates@.len() implies path_cost@[cell_index(
                    #[trigger] path_candidates@[j].0,
                )] < u64::MAX && valid_position(path_candidates@[j].0) by {
                    if j < ci {
                        assert(path_candidates@[j] == cands_full[j]);
                    } else {
                        assert(path_candidates@[j] == cands_full[j + 1]);
                    }
                }
                assert(valid_position(*target_position) && path_cost@[cell_index(*target_position)]
                    < u64::MAX ==> is_candidate(path_candidates@, *target_position));
            }
            let candidate_cost = path_cost[candidate_position.y * MAX_WORLD_SIZE
                + candidate_position.x];
            proof {
                assert(path_cost@[cell_index(candidate_position)] < u64::MAX);
                lemma_known_count_bound(path_cost@);
            }

            // Expand the node to all neighbors
            let neighbors = self.get_neighbors(&candidate_position);
            let mut i: usize = 0;
            while i < neighbors.len()
                invariant
                    path_history.wf(),
                    history_ok(*self, path_history.as_map(), path_cost@, start_position),
                    forall|j: int|
                        0 <= j < path_candidates@.len() ==> valid_position(
                            #[trigger] path_candidates@[j].0,
                        ),
                    forall|j: int|
                        0 <= j < neighbors@.len() ==> #[trigger] neighbors@[j].touches(candidate_position)
                            && valid_position(neighbors@[j]),
                    neighbors@ == neighbors_upto(candidate_position, 8),
                    valid_position(candidate_position),
                    candidate_position != *target_position,
                    candidate_cost == path_cost@[cell_index(candidate_position)],
                    candidate_cost < u64::MAX,
                    cost_sum(path_cost@) <= sum_before,
                    cost_sum(path_cost@) < sum_before || path_candidates@.len() < len_before,
                    forall|j: int|
                        0 <= j < path_candidates@.len() ==> path_cost@[cell_index(
                            #[trigger] path_candidates@[j].0,
                        )] < u64::MAX,
                    valid_position(*target_position) && path_cost@[cell_index(*target_position)]
                        < u64::MAX ==> is_candidate(path_candidates@, *target_position),
                    forall|k: Position|
                        valid_position(k) && #[trigger] path_cost@[cell_index(k)] < u64::MAX
                            ==> k == candidate_position || is_candidate(path_candidates@, k)
                            || expanded(*self, path_cost@, k),
                    forall|i: int|
                        0 <= i < path_cost@.len() && #[trigger] path_cost@[i] < u64::MAX
                            ==> path_cost@[i] <= 3 * (known_count(path_cost@) - 1),
                    forall|j: int|
                        0 <= j < i && walkable_cell(
                            self.cell_at(neighbors@[j].x as int, neighbors@[j].y as int),
                        ) ==> path_cost@[cell_index(#[trigger] neighbors@[j])] < u64::MAX,
                decreases neighbors@.len() - i,
            {
                let neighbor = neighbors[i];
                assert(neighbors@[i as int].touches(candidate_position));
                let step = self.get_path_cost(&candidate_position, &candidate_orientation, &neighbor);
                let ghost pc_start = path_cost@;
                proof {
                    lemma_cell_index(neighbor, neighbor);
                    lemma_cell_index(neighbor, candidate_position);
                    lemma_known_count_bound(path_cost@);
                    assert(path_cost@[cell_index(candidate_position)] < u64::MAX);
                    assert(candidate_cost <= 3 * (known_count(path_cost@) - 1));
                }
                if let Some(path_cost_to_neighbor) = step {
                    if let Some(neighbor_cost) = candidate_cost.checked_add(path_cost_to_neighbor) {
                        let neighbor_index = neighbor.y * MAX_WORLD_SIZE + neighbor.x;
                        // If a new cheaper path to neighbor was found
                        if neighbor_cost < path_cost[neighbor_index] {
                            let ghost costs_before = path_cost@;
                            let ghost history_before = path_history.as_map();
                            let ghost cands_before = path_candidates@;
                            proof {
                                lemma_cost_sum_lowered(costs_before, neighbor_index as int, neighbor_cost);
                                lemma_cell_index(neighbor, start_position);
                                lemma_known_count_update(costs_before, neighbor_index as int, neighbor_cost);
                            }
                            path_cost.set(neighbor_index, neighbor_cost);

                            let dx = distance_along(neighbor.x, target_position.x);
                            let dy = distance_along(neighbor.y, target_position.y);
                            let estimated_cost_to_target = if dx > dy {
                                dx as u64
                            } else {
                                dy as u64
                            };
                            let estimated_total_cost = neighbor_cost.saturating_add(
                                estimated_cost_to_target,
                            );
                            let orientation = candidate_position.get_orientation_to(&neighbor);
                            insert_candidate(
                                &mut path_candidates,
                                neighbor,
                                estimated_total_cost,
                                orientation,
                            );
                            path_history.insert(neighbor, candidate_position);
                            proof {
                                let h = path_history.as_map();
                                let c = path_cost@;
                                let cands = path_candidates@;
                                assert(h == history_before.insert(neighbor, candidate_position));
                                assert(c == costs_before.update(cell_index(neighbor), neighbor_cost));
                                assert forall|k: Position| #[trigger] h.contains_key(k) implies {
                                    &&& valid_position(k)
                                    &&& k != start_position
                                    &&& walkable_cell(self.cell_at(k.x as int, k.y as int))
                                    &&& h[k].touches(k)
                                    &&& valid_position(h[k])
                                    &&& c[cell_index(h[k])] < c[cell_index(k)]
                                } by {
                                    if k != neighbor {
                                        assert(history_before.contains_key(k));
                                        lemma_cell_index(k, neighbor);
                                        lemma_cell_index(history_before[k], neighbor);
                                    }
                                }
                                assert forall|k: Position|
                                    valid_position(k) && k != start_position && #[trigger] c[cell_index(k)]
                                        < u64::MAX implies h.contains_key(k) by {
                                    if k != neighbor {
                                        lemma_cell_index(k, neighbor);
                                        assert(costs_before[cell_index(k)] < u64::MAX);
                                    }
                                }
                                // The candidates keep their positions, and the neighbour is one.
                                assert forall|k: Position| is_candidate(cands_before, k) implies #[trigger] is_candidate(
                                    cands,
                                    k,
                                ) by {
                                    let j = choose|j: int|
                                        0 <= j < cands_before.len() && #[trigger] cands_before[j].0 == k;
                                    if j < cands.len() && cands[j].0 == k {
                                    } else {
                                        assert(cands[j].0 == cands_before[j].0);
                                    }
                                }
                                assert(is_candidate(cands, neighbor)) by {
                                    if forall|j: int|
                                        0 <= j < cands_before.len() ==> #[trigger] cands_before[j].0
                                            != neighbor {
                                        assert(cands[cands_before.len() as int].0 == neighbor);
                                    } else {
                                        let j = choose|j: int|
                                            0 <= j < cands_before.len() && #[trigger] cands_before[j].0
                                                == neighbor;
                                        assert(cands[j].0 == neighbor);
                                    }
                                }
                                assert forall|j: int|
                                    0 <= j < cands.len() implies valid_position(#[trigger] cands[j].0)
                                        && c[cell_index(cands[j].0)] < u64::MAX by {
                                    if cands[j].0 != neighbor {
                                        assert(cands[j].0 == cands_before[j].0);
                                        lemma_cell_index(cands[j].0, neighbor);
                                    }
                                }
                                assert forall|k: Position|
                                    valid_position(k) && #[trigger] c[cell_index(k)] < u64::MAX
                                        implies k == candidate_position || is_candidate(cands, k)
                                        || expanded(*self, c, k) by {
                                    if k != neighbor {
                                        lemma_cell_index(k, neighbor);
                                        assert(costs_before[cell_index(k)] < u64::MAX);
                                        if !is_candidate(cands_before, k) && k != candidate_position {
                                            assert(expanded(*self, costs_before, k));
                                            assert forall|q: Position|
                                                valid_position(q) && q.touches(k) && walkable_cell(
                                                    self.cell_at(q.x as int, q.y as int),
                                                ) implies #[trigger] c[cell_index(q)] < u64::MAX by {
                                                lemma_cell_index(q, neighbor);
                                                assert(costs_before[cell_index(q)] < u64::MAX);
                                            }
                                        }
                                    }
                                }
                                assert forall|ii: int|
                                    0 <= ii < c.len() && #[trigger] c[ii] < u64::MAX implies c[ii]
                                        <= 3 * (known_count(c) - 1) by {
                                    if ii != neighbor_index {
                                        assert(costs_before[ii] < u64::MAX);
                                    }
                                }
                                if valid_position(*target_position) && c[cell_index(*target_position)] < u64::MAX {
                                    if *target_position != neighbor {
                                        lemma_cell_index(*target_position, neighbor);
                                        assert(costs_before[cell_index(*target_position)] < u64::MAX);
                                    }
                                }
                                assert(c[cell_index(neighbor)] < u64::MAX);
                            }
                        } else {
                            proof {
                                assert(path_cost@[cell_index(neighbor)] <= neighbor_cost);
                            }
                        }
                    } else {
                        proof {
                            assert(false);
                        }
                    }
                }
                proof {
                    assert(walkable_cell(self.cell_at(neighbor.x as int, neighbor.y as int))
                        ==> path_cost@[cell_index(neighbor)] < u64::MAX);
                    assert(forall|x: int| 0 <= x < path_cost@.len() ==> #[trigger] path_cost@[x] <= pc_start[x]);
                    assert forall|j: int|
                        0 <= j < i + 1 && walkable_cell(
                            self.cell_at(neighbors@[j].x as int, neighbors@[j].y as int),
                        ) implies path_cost@[cell_index(#[trigger] neighbors@[j])] < u64::MAX by {
                        if j == i {
                            assert(neighbors@[j] == neighbor);
                        } else {
                            assert(neighbors@[j].touches(candidate_position));
                            lemma_cell_index(neighbors@[j], neighbors@[j]);
                            assert(pc_start[cell_index(neighbors@[j])] < u64::MAX);
                        }
                    }
                }
                i = i + 1;
            }
            proof {
                assert forall|q: Position|
                    valid_position(q) && q.touches(candidate_position) && walkable_cell(
                        self.cell_at(q.x as int, q.y as int),
                    ) implies #[trigger] path_cost@[cell_index(q)] < u64::MAX by {
                    lemma_neighbor_listed(candidate_position, q);
                    let j = choose|j: int| 0 <= j < neighbors@.len() && neighbors@[j] == q;
                    assert(path_cost@[cell_index(neighbors@[j])] < u64::MAX);
                }
                assert(expanded(*self, path_cost@, candidate_position));
            }
        }
    }

    fn get_neighbors(&self, position: &Position) -> (r: Vec<Position>)
        requires
            valid_position(*position),
        ensures
            r@ == neighbors_upto(*position, 8),
            forall|j: int|
                0 <= j < r@.len() ==> #[trigger] r@[j].touches(*position) && valid_position(r@[j]),
    {
        let mut neighbors: Vec<Position> = Vec::new();
        let mut i: usize = 0;
        while i < 8
            invariant
                i <= 8,
                valid_position(*position),
                neighbors@ == neighbors_upto(*position, i as nat),
                forall|j: int|
                    0 <= j < neighbors@.len() ==> #[trigger] neighbors@[j].touches(*position)
                        && valid_position(neighbors@[j]),
            decreases 8 - i,
        {
            let (delta_x, delta_y): (isize, isize) = if i == 0 {
                (1, 0)
            } else if i == 1 {
                (1, 1)
            } else if i == 2 {
                (0, 1)
            } else if i == 3 {
                (-1, 1)
            } else if i == 4 {
                (-1, 0)
            } else if i == 5 {
                (-1, -1)
            } else if i == 6 {
                (0, -1)
            } else {
                (1, -1)
            };
            let neighbor_x = position.x as isize + delta_x;
            let neighbor_y = position.y as isize + delta_y;
            if self.is_valid_coordinate(neighbor_x, neighbor_y) {
                let neighbor = Position { x: neighbor_x as usize, y: neighbor_y as usize };
                assert(neighbor.touches(*position) && valid_position(neighbor));
                let ghost before = neighbors@;
                neighbors.push(neighbor);
                proof {
                    assert forall|j: int| 0 <= j < neighbors@.len() implies #[trigger] neighbors@[j].touches(
                        *position,
                    ) && valid_position(neighbors@[j]) by {
                        if j < before.len() {
                            assert(neighbors@[j] == before[j]);
                            assert(before[j].touches(*position) && valid_position(before[j]));
                        } else {
                            assert(neighbors@[j] == neighbor);
                        }
                    }
                }
            }
            assert(forall|j: int|
                    0 <= j < neighbors@.len() ==> #[trigger] neighbors@[j].touches(*position)
                        && valid_position(neighbors@[j]));
            i = i + 1;
        }
        neighbors
    }

    fn get_path_cost(
        &self,
        current_position: &Position,
        current_orientation: &Orientation,
        next_position: &Position,
    ) -> (r: Option<u64>)
        requires
            next_position.touches(*current_position),
            valid_position(*current_position),
            valid_position(*next_position),
        ensures
            r == self.step_cost(*current_position, *current_orientation, *next_position),
            r matches Some(c) ==> 1 <= c <= 3,
    {
        match self.get_cell(next_position) {
            MapCell::Terrain(Terrain::Field) | MapCell::Unallocated => {
                // Calculate turns needed to reach the target position
                let target_orientation = current_position.get_orientation_to(next_position);
                assert(target_orientation == direction_of(*current_position, *next_position));
                let turning_cost = current_orientation.quick_turn_bidirectional(
                    &target_orientation,
                ).1 as u64;
                Some(turning_cost + 1)
            },
            _ => None,  // Cannot enter the next_position cell
        }
    }

    fn construct_path(
        path_history: &PositionTable<Position>,
        target_position: &Position,
        Ghost(map): Ghost<WorldMap>,
        Ghost(costs): Ghost<Seq<u64>>,
        Ghost(start): Ghost<Position>,
    ) -> (r: Option<Vec<Position>>)
        requires
            path_history.wf(),
            history_ok(map, path_history.as_map(), costs, start),
            valid_position(*target_position),
        ensures
            r matches Some(path) ==> route_ok(map, start, *target_position, path@),
            *target_position == start ==> r is None,
            path_history.as_map().contains_key(*target_position) ==> r is Some,
    {
        let ghost h = path_history.as_map();
        let mut path: Vec<Position> = Vec::new();
        path.push(*target_position);
        let mut current = *target_position;
        proof {
            lemma_cell_index(current, current);
        }
        loop
            invariant
                path_history.wf(),
                h == path_history.as_map(),
                history_ok(map, h, costs, start),
                path@.len() >= 1,
                path@[0] == *target_position,
                path@.last() == current,
                valid_position(current),
                forall|i: int| 0 <= i < path@.len() - 1 ==> #[trigger] h.contains_key(path@[i]),
                forall|i: int| 0 <= i < path@.len() - 1 ==> #[trigger] path@[i + 1] == h[path@[i]],
                path@.len() > 1 ==> costs[cell_index(current)] < u64::MAX,
            ensures
                path_history.wf(),
                h == path_history.as_map(),
                history_ok(map, h, costs, start),
                path@.len() >= 1,
                path@[0] == *target_position,
                path@.last() == current,
                valid_position(current),
                forall|i: int| 0 <= i < path@.len() - 1 ==> #[trigger] h.contains_key(path@[i]),
                forall|i: int| 0 <= i < path@.len() - 1 ==> #[trigger] path@[i + 1] == h[path@[i]],
                path@.len() > 1 ==> costs[cell_index(current)] < u64::MAX,
                !h.contains_key(current),
            decreases costs[cell_index(current)],
        {
            match path_history.get(&current) {
                Some(position) => {
                    proof {
                        lemma_cell_index(current, current);
                        lemma_cell_index(position, position);
                    }
                    current = position;
                    path.push(current);
                },
                None => {
                    break;
                },
            }
        }
        proof {
            if path@.len() > 1 && current != start {
                lemma_cell_index(current, current);
                assert(h.contains_key(current));
            }
        }
        if path.len() <= 1 {
            return None;
        }
        // Leave out the start and turn the path round.
        let mut route: Vec<Position> = Vec::new();
        let mut j: usize = path.len() - 1;
        while j > 0
            invariant
                1 <= path@.len(),
                j < path@.len(),
                route@.len() == path@.len() - 1 - j,
                forall|k: int| 0 <= k < route@.len() ==> #[trigger] route@[k] == path@[path@.len() - 2 - k],
            decreases j,
        {
            j = j - 1;
            route.push(path[j]);
        }
        proof {
            let p = path@;
            let rt = route@;
            assert(p[p.len() - 1] == start);
            assert forall|i: int| 0 <= i < rt.len() implies {
                &&& valid_position(#[trigger] rt[i])
                &&& walkable_cell(map.cell_at(rt[i].x as int, rt[i].y as int))
                &&& rt[i] != start
            } by {
                assert(h.contains_key(p[p.len() - 2 - i]));
            }
            assert forall|i: int| 0 <= i < rt.len() - 1 implies #[trigger] rt[i + 1].touches(rt[i]) by {
                let a = p.len() - 3 - i;
                assert(h.contains_key(p[a]));
                assert(p[a + 1] == h[p[a]]);
            }
            assert(rt[0] == p[p.len() - 2]);
            assert(h.contains_key(p[p.len() - 2]));
            let last = p.len() - 2;
            assert(p[last + 1] == h[p[last]]);
            assert(start.touches(rt[0]));
            assert(rt[0].touches(start));
        }
        Some(route)
    }
}

/// The index of the first cheapest candidate, if any.
fn cheapest_candidate(candidates: &Vec<(Position, u64, Orientation)>) -> (r: Option<usize>)
    ensures
        r is None <==> candidates@.len() == 0,
        r matches Some(i) ==> i < candidates@.len() && forall|j: int|
            0 <= j < candidates@.len() ==> candidates@[i as int].1 <= #[trigger] candidates@[j].1,
{
    if candidates.len() == 0 {
        return None;
    }
    let mut best: usize = 0;
    let mut j: usize = 1;
    while j < candidates.len()
        invariant
            1 <= j <= candidates@.len(),
            best < j,
            forall|k: int| 0 <= k < j ==> candidates@[best as int].1 <= #[trigger] candidates@[k].1,
        decreases candidates@.len() - j,
    {
        if candidates[j].1 < candidates[best].1 {
            best = j;
        }
        j = j + 1;
    }
    Some(best)
}

/// Puts a candidate in the list: it replaces the entry of its position, or is added last.
fn insert_candidate(
    candidates: &mut Vec<(Position, u64, Orientation)>,
    position: Position,
    cost: u64,
    orientation: Orientation,
)
    ensures
        (exists|i: int|
            0 <= i < old(candidates)@.len() && #[trigger] old(candidates)@[i].0 == position
                && final(candidates)@ == old(candidates)@.update(i, (position, cost, orientation)))
            || ((forall|i: int|
            0 <= i < old(candidates)@.len() ==> #[trigger] old(candidates)@[i].0 != position)
            && final(candidates)@ == old(candidates)@.push((position, cost, orientation))),
{
    let mut i: usize = 0;
    while i < candidates.len()
        invariant
            i <= candidates@.len(),
            candidates@ == old(candidates)@,
            forall|k: int| 0 <= k < i ==> #[trigger] candidates@[k].0 != position,
        decreases candidates@.len() - i,
    {
        if candidates[i].0 == position {
            candidates.set(i, (position, cost, orientation));
            return;
        }
        i = i + 1;
    }
    candidates.push((position, cost, orientation));
}

/// The orientation in which the neighbour `next` lies from `current`.
pub open spec fn direction_of(current: Position, next: Position) -> Orientation {
    let dx = next.x - current.x;
    let dy = next.y - current.y;
    if dx == 1 && dy == 0 {
        Orientation::East
    } else if dx == 1 && dy == 1 {
        Orientation::SouthEast
    } else if dx == 0 && dy == 1 {
        Orientation::South
    } else if dx == -1 && dy == 1 {
        Orientation::SouthWest
    } else if dx == -1 && dy == 0 {
        Orientation::West
    } else if dx == -1 && dy == -1 {
        Orientation::NorthWest
    } else if dx == 0 && dy == -1 {
        Orientation::North
    } else {
        Orientation::NorthEast
    }
}

} // verus!
