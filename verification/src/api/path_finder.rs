//! Shortest paths over the map as a player knows it.
use vstd::prelude::*;

use super::{
    map_cell::{MapCell, Terrain},
    orientation::{quick_turn_spec, Orientation},
    position::{abs, is_floor_sqrt, Position},
    world_size::WorldSize,
};
use crate::table::PositionTable;

verus! {

/// A cell that a tank may drive through: open field, or a cell not yet explored.
pub open spec fn walkable_cell(cell: MapCell) -> bool {
    cell == MapCell::Unallocated || cell == MapCell::Terrain(Terrain::Field)
}

/// The orientation in which `to` lies as seen from `from`, when the two share a row, a
/// column or a diagonal. Two equal positions count as aligned to the North.
pub open spec fn alignment_spec(from: Position, to: Position) -> Option<Orientation> {
    let dx = from.x - to.x;
    let dy = from.y - to.y;
    if dx == 0 && dy < 0 {
        Some(Orientation::South)
    } else if dx == 0 {
        Some(Orientation::North)
    } else if dy == 0 && dx < 0 {
        Some(Orientation::East)
    } else if dy == 0 {
        Some(Orientation::West)
    } else if abs(dx) == abs(dy) {
        if dx < 0 && dy < 0 {
            Some(Orientation::SouthEast)
        } else if dx < 0 && dy > 0 {
            Some(Orientation::NorthEast)
        } else if dx > 0 && dy < 0 {
            Some(Orientation::SouthWest)
        } else {
            Some(Orientation::NorthWest)
        }
    } else {
        None
    }
}

/// A position within reach of a cardinal shot lies in a row, a column or a diagonal of
/// the shooter: it always has an alignment.
pub proof fn lemma_cardinal_target_aligned(from: Position, to: Position)
    requires
        from.hits_cardinally(to),
    ensures
        alignment_spec(from, to) is Some,
{
    let dx = from.x - to.x;
    let dy = from.y - to.y;
    assert(dx * dy == 0 ==> dx == 0 || dy == 0) by (nonlinear_arith);
}

/// Navigator is a trait that provides the necessary information for the pathfinding algorithm.
/// It is used to determine the cost of moving from one position to another, as well as the
/// cost of turning the tank to a desired orientation.
///
/// It provides default implementations for some methods, but players may override them. The only
/// method for which default implementation cannot be provded is `cell_at`, as fetching the discovered
/// map information is specific to each player.
pub trait Navigator {
    /// The map cell at a position, as the player knows it.
    spec fn cell_spec(&self, position: Position) -> MapCell;

    /// Returns the map cell at `position`, as the player knows it
    fn cell_at(&self, position: &Position) -> (r: MapCell)
        ensures
            r == self.cell_spec(*position),
    ;

    /// Returns the cost of rotating the tank to the desired orientation
    /// The cost is the number of steps needed to turn the tank
    /// to the desired orientation.
    ///
    /// Used as a cost heuristic by the pathfinding algorithm.
    fn turning_steps(&self, curr_orientation: &Orientation, next_orientation: &Orientation) -> (r:
        usize)
        ensures
            r <= 4,
        default_ensures
            r == quick_turn_spec(*curr_orientation, *next_orientation).1,
    {
        let (_, steps) = curr_orientation.quick_turn(next_orientation);

        steps
    }

    /// Computes the distance between two positions, used as a cost heuristic by the
    /// pathfinding algorithm: the straight-line distance, rounded down.
    fn distance(&self, from: &Position, to: &Position) -> (r: usize)
        default_ensures
            r < usize::MAX && from.squared_distance(*to) <= u128::MAX ==> is_floor_sqrt(
                r as int,
                from.squared_distance(*to),
            ),
    {
        from.pythagorean_distance(to)
    }
}

/// The default turning cost is the fewest 45-degree turns that bring one orientation
/// to the other: at most four, reached by turning the way `quick_turn` picks, and
/// reached by no smaller number of turns either way.
pub proof fn lemma_default_turning_steps_fewest(curr: Orientation, next: Orientation, steps: usize)
    requires
        steps == quick_turn_spec(curr, next).1,
    ensures
        steps <= 4,
        super::orientation::turned_times(curr, quick_turn_spec(curr, next).0, steps as nat) == next,
        forall|r: super::rotation::Rotation, n: nat|
            n < steps ==> #[trigger] super::orientation::turned_times(curr, r, n) != next,
{
    super::orientation::lemma_quick_turn_reaches(curr, next);
}

/// The default distance, the straight-line distance rounded down, is the same both
/// ways, and it is zero exactly between a position and itself.
pub proof fn lemma_default_distance_symmetric(from: Position, to: Position, there: usize, back: usize)
    requires
        is_floor_sqrt(there as int, from.squared_distance(to)),
        is_floor_sqrt(back as int, to.squared_distance(from)),
    ensures
        there == back,
        there == 0 <==> from == to,
{
    let dx = from.x - to.x;
    let dy = from.y - to.y;
    let n = from.squared_distance(to);
    assert(n == to.squared_distance(from)) by (nonlinear_arith)
        requires
            n == dx * dx + dy * dy,
            to.squared_distance(from) == (-dx) * (-dx) + (-dy) * (-dy),
    ;
    let a = there as int;
    let b = back as int;
    assert(a == b) by (nonlinear_arith)
        requires
            0 <= a,
            0 <= b,
            a * a <= n,
            n < (a + 1) * (a + 1),
            b * b <= n,
            n < (b + 1) * (b + 1),
    {
        if a < b {
            assert((a + 1) * (a + 1) <= b * b);
        } else if b < a {
            assert((b + 1) * (b + 1) <= a * a);
        }
    }
    assert(a == 0 <==> dx == 0 && dy == 0) by (nonlinear_arith)
        requires
            0 <= a,
            a * a <= n,
            n < (a + 1) * (a + 1),
            n == dx * dx + dy * dy,
    {
        assert(dx * dx >= 0 && dy * dy >= 0);
        if dx != 0 {
            assert(dx * dx >= 1);
        }
        if dy != 0 {
            assert(dy * dy >= 1);
        }
        if a >= 1 {
            assert(a * a >= 1);
        }
    }
}

/// The score of a position, where a position without one counts as unreachable.
pub open spec fn score_or_infinity(scores: Map<Position, usize>, p: Position) -> nat {
    if scores.contains_key(p) {
        scores[p] as nat
    } else {
        usize::MAX as nat
    }
}

/// The cell at a row-major index of a world `width` cells wide.
pub open spec fn cell_of_index(i: nat, width: nat) -> Position {
    Position { x: (i % width) as usize, y: (i / width) as usize }
}

/// The sum of the scores of the first `n` cells of a world `width` cells wide.
pub open spec fn score_sum(scores: Map<Position, usize>, width: nat, n: nat) -> nat
    decreases n,
{
    if n == 0 {
        0
    } else {
        score_sum(scores, width, (n - 1) as nat) + score_or_infinity(
            scores,
            cell_of_index((n - 1) as nat, width),
        )
    }
}

/// The sum of the scores of all the cells of a world.
pub open spec fn world_score_sum(scores: Map<Position, usize>, world_size: WorldSize) -> nat {
    score_sum(scores, world_size.x as nat, (world_size.x * world_size.y) as nat)
}

/// Lowering one score never raises the sum.
proof fn lemma_score_sum_lowered(
    scores: Map<Position, usize>,
    p: Position,
    v: usize,
    width: nat,
    n: nat,
)
    requires
        (v as nat) < score_or_infinity(scores, p),
    ensures
        score_sum(scores.insert(p, v), width, n) <= score_sum(scores, width, n),
    decreases n,
{
    if n > 0 {
        lemma_score_sum_lowered(scores, p, v, width, (n - 1) as nat);
    }
}

/// Lowering the score of one of the counted cells lowers the sum.
proof fn lemma_score_sum_drops(
    scores: Map<Position, usize>,
    p: Position,
    v: usize,
    width: nat,
    n: nat,
    k: nat,
)
    requires
        (v as nat) < score_or_infinity(scores, p),
        k < n,
        cell_of_index(k, width) == p,
    ensures
        score_sum(scores.insert(p, v), width, n) < score_sum(scores, width, n),
    decreases n,
{
    if k == n - 1 {
        lemma_score_sum_lowered(scores, p, v, width, (n - 1) as nat);
    } else {
        lemma_score_sum_drops(scores, p, v, width, (n - 1) as nat, k);
    }
}

/// Lowering the score of a cell of the world lowers the world's sum.
proof fn lemma_world_score_sum_drops(
    scores: Map<Position, usize>,
    p: Position,
    v: usize,
    world_size: WorldSize,
)
    requires
        (v as nat) < score_or_infinity(scores, p),
        p.inside(world_size),
    ensures
        world_score_sum(scores.insert(p, v), world_size) < world_score_sum(scores, world_size),
{
    let w = world_size.x as int;
    let h = world_size.y as int;
    let k = p.y * w + p.x;
    assert(k < w * h) by (nonlinear_arith)
        requires
            0 <= p.x < w,
            0 <= p.y < h,
            k == p.y * w + p.x,
    ;
    assert(0 <= k) by (nonlinear_arith)
        requires
            0 <= p.x,
            0 <= p.y,
            0 < w,
            k == p.y * w + p.x,
    ;
    vstd::arithmetic::div_mod::lemma_fundamental_div_mod_converse(k, w, p.y as int, p.x as int);
    assert(cell_of_index(k as nat, w as nat) == p);
    lemma_score_sum_drops(scores, p, v, w as nat, (w * h) as nat, k as nat);
}

/// Whether one step from `position` towards `o` stays in the world and lands on a
/// walkable cell.
pub open spec fn walkable_step<N: Navigator>(
    navigator: &N,
    position: Position,
    o: Orientation,
    size: WorldSize,
) -> bool {
    position.followed(o, size) is Some && walkable_cell(
        navigator.cell_spec(position.followed(o, size)->0),
    )
}

/// A walkable cell of the world that touches `position`.
pub open spec fn next_cell<N: Navigator>(
    navigator: &N,
    q: Position,
    position: Position,
    size: WorldSize,
) -> bool {
    &&& q.inside(size)
    &&& walkable_cell(navigator.cell_spec(q))
    &&& q.touches(position)
}

/// The walkable cells one step away from `position`, listed clockwise from North over
/// the first `k` compass directions.
pub open spec fn walkable_steps_clockwise<N: Navigator>(
    navigator: &N,
    position: Position,
    size: WorldSize,
    k: nat,
) -> Seq<Position>
    decreases k,
{
    if k == 0 {
        Seq::empty()
    } else {
        let earlier = walkable_steps_clockwise(navigator, position, size, (k - 1) as nat);
        let o = super::orientation::orientation_at(k - 1);
        if walkable_step(navigator, position, o, size) {
            earlier.push(position.followed(o, size)->0)
        } else {
            earlier
        }
    }
}

/// Two different compass directions lead from one cell to two different cells.
proof fn lemma_directions_part(position: Position, i: int, k: int, size: WorldSize)
    requires
        0 <= i < k < 8,
        position.followed(super::orientation::orientation_at(i), size) is Some,
        position.followed(super::orientation::orientation_at(k), size) is Some,
    ensures
        position.followed(super::orientation::orientation_at(i), size)->0 != position.followed(
            super::orientation::orientation_at(k),
            size,
        )->0,
{
}

/// The walkable steps listed clockwise hold no cell twice, and none of the cells one
/// step away towards a later compass direction.
proof fn lemma_clockwise_steps_distinct<N: Navigator>(
    navigator: &N,
    position: Position,
    size: WorldSize,
    k: nat,
)
    requires
        k <= 8,
    ensures
        walkable_steps_clockwise(navigator, position, size, k).no_duplicates(),
        forall|m: int|
            k <= m < 8 && position.followed(super::orientation::orientation_at(m), size) is Some
                ==> !walkable_steps_clockwise(navigator, position, size, k).contains(
                #[trigger] position.followed(super::orientation::orientation_at(m), size)->0,
            ),
    decreases k,
{
    if k > 0 {
        let k1 = (k - 1) as nat;
        lemma_clockwise_steps_distinct(navigator, position, size, k1);
        let earlier = walkable_steps_clockwise(navigator, position, size, k1);
        let all = walkable_steps_clockwise(navigator, position, size, k);
        let o = super::orientation::orientation_at(k1 as int);
        if walkable_step(navigator, position, o, size) {
            let q = position.followed(o, size)->0;
            assert(all == earlier.push(q));
            assert(!earlier.contains(q));
            assert forall|a: int, b: int|
                0 <= a < all.len() && 0 <= b < all.len() && a != b implies all[a] != all[b] by {
                if a < earlier.len() && b < earlier.len() {
                    assert(all[a] == earlier[a] && all[b] == earlier[b]);
                } else if a < earlier.len() {
                    assert(all[a] == earlier[a] && all[b] == q);
                } else {
                    assert(all[b] == earlier[b] && all[a] == q);
                }
            }
            assert forall|m: int|
                k <= m < 8 && position.followed(super::orientation::orientation_at(m), size) is Some
                    implies !all.contains(
                    #[trigger] position.followed(super::orientation::orientation_at(m), size)->0,
                ) by {
                let qm = position.followed(super::orientation::orientation_at(m), size)->0;
                lemma_directions_part(position, k1 as int, m, size);
                assert(!earlier.contains(qm));
                if all.contains(qm) {
                    let w = choose|w: int| 0 <= w < all.len() && all[w] == qm;
                    if w < earlier.len() {
                        assert(earlier[w] == qm);
                    }
                }
            }
        } else {
            assert(all == earlier);
        }
    }
}

/// What the search knows at any time: every scored position other than the start was
/// reached from a scored neighbour whose score is lower by one step or more, and is a
/// walkable cell of the world.
pub open spec fn search_tree<N: Navigator>(
    navigator: &N,
    g_score: Map<Position, usize>,
    came_from: Map<Position, Position>,
    from: Position,
    world_size: WorldSize,
) -> bool {
    &&& g_score.contains_key(from)
    &&& g_score[from] == 0
    &&& forall|k: Position| #[trigger]
        g_score.contains_key(k) ==> k == from || came_from.contains_key(k)
    &&& forall|k: Position| #[trigger]
        came_from.contains_key(k) ==> {
            &&& g_score.contains_key(k)
            &&& k.inside(world_size)
            &&& walkable_cell(navigator.cell_spec(k))
            &&& came_from[k].touches(k)
            &&& g_score.contains_key(came_from[k])
            &&& g_score[came_from[k]] + 1 <= g_score[k]
        }
}

/// Whether every walkable cell of the world that touches `p` is scored at most one step
/// more than `p`.
pub open spec fn relaxed<N: Navigator>(
    navigator: &N,
    g_score: Map<Position, usize>,
    p: Position,
    world_size: WorldSize,
) -> bool {
    forall|q: Position| #[trigger]
        next_cell(navigator, q, p, world_size) ==> g_score.contains_key(q) && g_score[q] <= g_score[p]
            + 1
}

/// Whether a reverse path from `to` back to `from` has the fewest cells of all of them.
pub open spec fn shortest_reverse_path<N: Navigator>(
    navigator: &N,
    path: Seq<Position>,
    from: Position,
    to: Position,
    world_size: WorldSize,
) -> bool {
    forall|other: Seq<Position>|
        other.len() > 0 && #[trigger] is_reverse_path(navigator, other, from, to, world_size)
            ==> path.len() <= other.len()
}

/// What `find_path` gives back: a reverse path from `to` to next to `from` over walkable
/// cells, with no cell twice, empty when `from` is `to`; and, in a world small enough for
/// the search's scores, one whenever some path exists, and one of the fewest cells.
pub open spec fn found_path<N: Navigator>(
    navigator: &N,
    from: Position,
    to: Position,
    world_size: WorldSize,
    r: Seq<Position>,
) -> bool {
    &&& from == to ==> r.len() == 0
    &&& is_reverse_path(navigator, r, from, to, world_size)
    &&& r.no_duplicates()
    &&& small_world(world_size) && from != to && route_exists(navigator, from, to, world_size)
        ==> r.len() > 0
    &&& small_world(world_size) ==> shortest_reverse_path(navigator, r, from, to, world_size)
}

/// When every scored cell has its walkable neighbours scored at most one step more, and
/// `from` scores 0, each cell of a reverse path scores at most its number of steps from
/// `from` along the path.
proof fn lemma_relaxed_bound<N: Navigator>(
    navigator: &N,
    g_score: Map<Position, usize>,
    path: Seq<Position>,
    from: Position,
    to: Position,
    world_size: WorldSize,
    n: int,
)
    requires
        forall|p: Position| #[trigger] g_score.contains_key(p) ==> relaxed(navigator, g_score, p, world_size),
        g_score.contains_key(from),
        g_score[from] == 0,
        path.len() > 0,
        is_reverse_path(navigator, path, from, to, world_size),
        0 <= n < path.len(),
    ensures
        g_score.contains_key(path[n]),
        g_score[path[n]] <= path.len() - n,
    decreases path.len() - n,
{
    assert(path[n].inside(world_size));
    if n == path.len() - 1 {
        assert(next_cell(navigator, path[n], from, world_size));
        assert(relaxed(navigator, g_score, from, world_size));
    } else {
        lemma_relaxed_bound(navigator, g_score, path, from, to, world_size, n + 1);
        assert(path[n].touches(path[n + 1]));
        assert(next_cell(navigator, path[n], path[n + 1], world_size));
        assert(relaxed(navigator, g_score, path[n + 1], world_size));
    }
}

/// A path back to `from`: it starts at `to`, each step touches the next one, the last
/// one touches `from`, and every step is a walkable cell of the world other than `from`.
pub open spec fn is_reverse_path<N: Navigator>(
    navigator: &N,
    path: Seq<Position>,
    from: Position,
    to: Position,
    world_size: WorldSize,
) -> bool {
    &&& path.len() > 0 ==> path[0] == to
    &&& path.len() > 0 ==> path.last().touches(from)
    &&& forall|i: int|
        0 <= i < path.len() ==> {
            &&& #[trigger] path[i].inside(world_size)
            &&& walkable_cell(navigator.cell_spec(path[i]))
            &&& path[i] != from
        }
    &&& forall|i: int| 0 <= i < path.len() - 1 ==> #[trigger] path[i].touches(path[i + 1])
}

/// Whether some path leads from `from` to `to` over walkable cells of the world.
pub open spec fn route_exists<N: Navigator>(
    navigator: &N,
    from: Position,
    to: Position,
    world_size: WorldSize,
) -> bool {
    exists|path: Seq<Position>|
        path.len() > 0 && #[trigger] is_reverse_path(navigator, path, from, to, world_size)
}

/// Whether the search stays clear of overflow: five units of cost per cell of the world
/// fit in a `usize`.
pub open spec fn small_world(world_size: WorldSize) -> bool {
    5 * (world_size.x * world_size.y + 1) < usize::MAX
}

/// The cells of a world, by row-major index.
pub open spec fn world_cells(world_size: WorldSize) -> Set<Position> {
    vstd::set_lib::set_int_range(0, world_size.x * world_size.y).map(
        |i: int| cell_of_index(i as nat, world_size.x as nat),
    )
}

/// A set of positions inside the world, with one more position, has at most one more
/// position than the world has cells.
proof fn lemma_scored_count(scored: Set<Position>, from: Position, world_size: WorldSize)
    requires
        forall|k: Position| #[trigger] scored.contains(k) ==> k == from || k.inside(world_size),
    ensures
        scored.finite(),
        scored.len() <= world_size.x * world_size.y + 1,
{
    let w = world_size.x as int;
    let h = world_size.y as int;
    assert(0 <= w * h) by (nonlinear_arith)
        requires
            0 <= w,
            0 <= h,
    ;
    vstd::set_lib::lemma_int_range(0, w * h);
    let cells = world_cells(world_size);
    vstd::set_lib::lemma_map_size_bound(
        vstd::set_lib::set_int_range(0, w * h),
        cells,
        |i: int| cell_of_index(i as nat, w as nat),
    );
    assert forall|k: Position| #[trigger] scored.contains(k) implies cells.insert(from).contains(
        k,
    ) by {
        if k != from {
            let i = k.y * w + k.x;
            assert(i < w * h) by (nonlinear_arith)
                requires
                    0 <= k.x < w,
                    0 <= k.y < h,
                    i == k.y * w + k.x,
            ;
            assert(0 <= i) by (nonlinear_arith)
                requires
                    0 <= k.x,
                    0 <= k.y,
                    0 < w,
                    i == k.y * w + k.x,
            ;
            vstd::arithmetic::div_mod::lemma_fundamental_div_mod_converse(
                i,
                w,
                k.y as int,
                k.x as int,
            );
            assert(cell_of_index(i as nat, w as nat) == k);
            assert(vstd::set_lib::set_int_range(0, w * h).contains(i));
        }
    }
    vstd::set_lib::lemma_len_subset(scored, cells.insert(from));
}

/// A cell that touches `p` lies one step from `p` in some orientation.
proof fn lemma_touch_step(p: Position, q: Position, world_size: WorldSize) -> (o: Orientation)
    requires
        q.touches(p),
        q.inside(world_size),
    ensures
        p.followed(o, world_size) == Some(q),
{
    let dx = q.x - p.x;
    let dy = q.y - p.y;
    let o = if dx == 0 && dy == -1 {
        Orientation::North
    } else if dx == 1 && dy == -1 {
        Orientation::NorthEast
    } else if dx == 1 && dy == 0 {
        Orientation::East
    } else if dx == 1 && dy == 1 {
        Orientation::SouthEast
    } else if dx == 0 && dy == 1 {
        Orientation::South
    } else if dx == -1 && dy == 1 {
        Orientation::SouthWest
    } else if dx == -1 && dy == 0 {
        Orientation::West
    } else {
        Orientation::NorthWest
    };
    o
}

/// Two touching cells share a row, a column or a diagonal.
proof fn lemma_touch_aligned(p: Position, q: Position)
    requires
        q.touches(p),
    ensures
        alignment_spec(p, q) is Some,
{
}

/// The `A*` pathfinding algorithm
///
/// Implemented by following the reference implementation at
/// https://en.wikipedia.org/wiki/A*_search_algorithm
///
/// The algorithm is designed to find the shortest path between two positions on the map.
///
/// It uses a heuristic function to estimate the cost of reaching a position from another
/// position. The heuristics are implemented by the players, and provided via the `Navigator` trait.
///
pub struct PathFinder {}

impl PathFinder {
    /// Finds the shortest path between two positions on the map: the fewest steps over
    /// walkable cells. The cells are searched in the order that the navigator's distance
    /// and turning costs suggest (A*), and the search goes on until no score can be
    /// lowered, so that the path found is a shortest one whatever those estimates are.
    ///
    /// The path comes back in reverse: it starts with `to` and ends next to `from`,
    /// which it does not hold, and it visits no cell twice. It is empty when no path
    /// was found, or when `from` is `to`.
    pub fn find_path<N: Navigator>(
        navigator: &N,
        from: &Position,
        to: &Position,
        curr_orientation: &Orientation,
        world_size: &WorldSize,
    ) -> (r: Vec<Position>)
        ensures
            found_path(navigator, *from, *to, *world_size, r@),
    {
        let mut came_from: PositionTable<Position> = PositionTable::new();
        let mut open_set = PriorityQueue::new();
        let mut f_score: PositionTable<usize> = PositionTable::new();
        let mut g_score: PositionTable<usize> = PositionTable::new();

        let start = *from;
        let d = navigator.distance(from, to);
        f_score.insert(start, d);
        g_score.insert(start, 0);
        open_set.enqueue(start, &f_score);
        let ghost small = small_world(*world_size);
        proof {
            assert(came_from.as_map() =~= Map::<Position, Position>::empty());
            assert(g_score.as_map() =~= Map::<Position, usize>::empty().insert(start, 0));
            assert(g_score.as_map().dom() =~= set![start]);
            assert(open_set.queue@ =~= seq![start]);
            assert(open_set.queue@[0] == start);
        }

        loop
            invariant
                g_score.wf(),
                f_score.wf(),
                came_from.wf(),
                small == small_world(*world_size),
                search_tree(navigator, g_score.as_map(), came_from.as_map(), *from, *world_size),
                forall|j: int|
                    0 <= j < open_set.queue@.len() ==> g_score.as_map().contains_key(
                        #[trigger] open_set.queue@[j],
                    ),
                forall|k: Position| #[trigger]
                    g_score.as_map().contains_key(k) ==> g_score.as_map()[k] <= 5 * (
                    g_score.as_map().dom().len() - 1),
                small ==> forall|p: Position| #[trigger]
                    g_score.as_map().contains_key(p) ==> open_set.queue@.contains(p) || relaxed(
                        navigator,
                        g_score.as_map(),
                        p,
                        *world_size,
                    ),
            decreases world_score_sum(g_score.as_map(), *world_size), open_set.queue@.len(),
        {
            if open_set.is_empty() {
                // every scored cell now scores its fewest steps from the start
                let ghost g = g_score.as_map();
                proof {
                    if small {
                        assert forall|p: Position| #[trigger] g.contains_key(p) implies relaxed(
                            navigator,
                            g,
                            p,
                            *world_size,
                        ) by {
                            assert(!open_set.queue@.contains(p));
                        }
                        assert forall|other: Seq<Position>|
                            other.len() > 0 && #[trigger] is_reverse_path(
                                navigator,
                                other,
                                *from,
                                *to,
                                *world_size,
                            ) implies g.contains_key(*to) && g[*to] <= other.len() by {
                            lemma_relaxed_bound(navigator, g, other, *from, *to, *world_size, 0);
                        }
                        if *from != *to && route_exists(navigator, *from, *to, *world_size) {
                            let path = choose|path: Seq<Position>|
                                path.len() > 0 && #[trigger] is_reverse_path(
                                    navigator,
                                    path,
                                    *from,
                                    *to,
                                    *world_size,
                                );
                            assert(g.contains_key(*to));
                        }
                    }
                }
                if g_score.get(to).is_some() {
                    return Self::build_reverse_path(
                        navigator,
                        &came_from,
                        *to,
                        Ghost(*from),
                        Ghost(g_score.as_map()),
                        Ghost(*world_size),
                    );
                }
                return Vec::new();
            }
            let ghost queue_full = open_set.queue@;
            let curr = match open_set.dequeue() {
                Some(p) => p,
                None => {
                    return Vec::new();
                },
            };

            proof {
                assert(queue_full[queue_full.len() - 1] == curr);
                assert forall|p: Position|
                    #[trigger] queue_full.contains(p) && p != curr implies open_set.queue@.contains(
                    p,
                ) by {
                    let j = choose|j: int| 0 <= j < queue_full.len() && queue_full[j] == p;
                    assert(j != queue_full.len() - 1);
                    assert(open_set.queue@[j] == p);
                }
                assert forall|j: int| 0 <= j < open_set.queue@.len() implies g_score.as_map().contains_key(
                    #[trigger] open_set.queue@[j],
                ) by {
                    assert(open_set.queue@[j] == queue_full[j]);
                }
                assert(g_score.as_map().contains_key(curr));
            }

            let neighbors = Self::neighbors(&curr, navigator, world_size);
            let ghost g_curr = g_score.as_map()[curr];
            let ghost sum_before = world_score_sum(g_score.as_map(), *world_size);
            let ghost queue_before = open_set.queue@;
            let mut i: usize = 0;
            while i < neighbors.len()
                invariant
                    g_score.wf(),
                    f_score.wf(),
                    came_from.wf(),
                    small == small_world(*world_size),
                    g_score.as_map().contains_key(curr),
                    g_score.as_map()[curr] == g_curr,
                    search_tree(
                        navigator,
                        g_score.as_map(),
                        came_from.as_map(),
                        *from,
                        *world_size,
                    ),
                    forall|j: int|
                        0 <= j < neighbors@.len() ==> next_cell(
                            navigator,
                            #[trigger] neighbors@[j],
                            curr,
                            *world_size,
                        ),
                    forall|j: int|
                        0 <= j < open_set.queue@.len() ==> g_score.as_map().contains_key(
                            #[trigger] open_set.queue@[j],
                        ),
                    world_score_sum(g_score.as_map(), *world_size) <= sum_before,
                    world_score_sum(g_score.as_map(), *world_size) < sum_before
                        || open_set.queue@ == queue_before,
                    forall|k: Position| #[trigger]
                        g_score.as_map().contains_key(k) ==> g_score.as_map()[k] <= 5 * (
                        g_score.as_map().dom().len() - 1),
                    small ==> forall|p: Position| #[trigger]
                        g_score.as_map().contains_key(p) ==> p == curr
                            || open_set.queue@.contains(p) || relaxed(
                            navigator,
                            g_score.as_map(),
                            p,
                            *world_size,
                        ),
                    small ==> forall|j: int|
                        0 <= j < i ==> g_score.as_map().contains_key(#[trigger] neighbors@[j])
                            && g_score.as_map()[neighbors@[j]] <= g_curr + 1,
                decreases neighbors@.len() - i,
            {
                let next = neighbors[i];
                assert(next_cell(navigator, neighbors@[i as int], curr, *world_size));
                let rotating_steps: usize = match came_from.get(&curr) {
                    Some(prev) => {
                        let prev_orientation = Self::find_alignment(&prev, &curr).unwrap_or_default();
                        let next_orientation = Self::find_alignment(&curr, &next).unwrap_or_default();

                        navigator.turning_steps(&prev_orientation, &next_orientation)
                    },
                    None => {
                        proof {
                            lemma_touch_aligned(curr, next);
                        }
                        if let Some(new_orientation) = Self::find_alignment(&curr, &next) {
                            navigator.turning_steps(curr_orientation, &new_orientation)
                        } else {
                            usize::MAX
                        }
                    },
                };

                let curr_score = Self::infinity_scores(&g_score, &curr);
                let ghost g_before = g_score.as_map();
                proof {
                    assert(rotating_steps <= 4);
                    assert(curr_score == g_before[curr]);
                    assert forall|k: Position| #[trigger] g_before.dom().contains(k) implies k
                        == *from || k.inside(*world_size) by {
                        assert(g_before.contains_key(k));
                    }
                    lemma_scored_count(g_before.dom(), *from, *world_size);
                    if small {
                        assert(5 * (g_before.dom().len() - 1) + 5 <= 5 * (world_size.x
                            * world_size.y + 1)) by (nonlinear_arith)
                            requires
                                g_before.dom().len() <= world_size.x * world_size.y + 1,
                        ;
                    }
                }
                let tentative = curr_score.checked_add(1);
                if let Some(tentative_g_score) = tentative {
                    if tentative_g_score < Self::infinity_scores(&g_score, &next) {
                        let ghost g_old = g_score.as_map();
                        let ghost c_old = came_from.as_map();
                        let ghost q_old = open_set.queue@;
                        came_from.insert(next, curr);
                        g_score.insert(next, tentative_g_score);
                        let dn = navigator.distance(&next, to);
                        f_score.insert(next, tentative_g_score.saturating_add(rotating_steps).saturating_add(dn));

                        open_set.enqueue(next, &f_score);
                        proof {
                            lemma_world_score_sum_drops(
                                g_old,
                                next,
                                tentative_g_score,
                                *world_size,
                            );
                            let g_new = g_score.as_map();
                            let c_new = came_from.as_map();
                            assert(g_new == g_old.insert(next, tentative_g_score));
                            assert(c_new == c_old.insert(next, curr));
                            assert(next != curr);
                            assert(g_old.contains_key(curr));
                            assert forall|k: Position| #[trigger]
                                c_new.contains_key(k) implies {
                                &&& g_new.contains_key(k)
                                &&& k.inside(*world_size)
                                &&& walkable_cell(navigator.cell_spec(k))
                                &&& c_new[k].touches(k)
                                &&& g_new.contains_key(c_new[k])
                                &&& g_new[c_new[k]] + 1 <= g_new[k]
                            } by {
                                if k != next {
                                    assert(c_old.contains_key(k));
                                }
                            }
                            assert forall|k: Position| #[trigger]
                                g_new.contains_key(k) implies k == *from || c_new.contains_key(
                                k,
                            ) by {
                                if k != next {
                                    assert(g_old.contains_key(k));
                                }
                            }
                            assert(g_new.dom() =~= g_old.dom().insert(next));
                            assert(g_new.dom().len() >= g_old.dom().len());
                            assert(g_old.contains_key(next) ==> g_new.dom().len()
                                == g_old.dom().len());
                            assert(!g_old.contains_key(next) ==> g_new.dom().len()
                                == g_old.dom().len() + 1);
                            assert forall|k: Position| #[trigger]
                                g_new.contains_key(k) implies g_new[k] <= 5 * (g_new.dom().len()
                                - 1) by {
                                if k != next {
                                    assert(g_old.contains_key(k));
                                }
                            }
                            assert forall|p: Position| #[trigger]
                                q_old.contains(p) implies open_set.queue@.contains(p) by {
                                if !q_old.contains(next) {
                                    let at = choose|at: int|
                                        0 <= at <= q_old.len() && open_set.queue@ == q_old.insert(
                                            at,
                                            next,
                                        );
                                    let j = choose|j: int| 0 <= j < q_old.len() && q_old[j] == p;
                                    if j < at {
                                        assert(open_set.queue@[j] == p);
                                    } else {
                                        assert(open_set.queue@[j + 1] == p);
                                    }
                                }
                            }
                            assert(open_set.queue@.contains(next)) by {
                                if !q_old.contains(next) {
                                    let at = choose|at: int|
                                        0 <= at <= q_old.len() && open_set.queue@ == q_old.insert(
                                            at,
                                            next,
                                        );
                                    assert(open_set.queue@[at] == next);
                                }
                            }
                            assert forall|j: int|
                                0 <= j < open_set.queue@.len() implies g_new.contains_key(
                                #[trigger] open_set.queue@[j],
                            ) by {
                                let p = open_set.queue@[j];
                                if p != next {
                                    if q_old.contains(next) {
                                        assert(open_set.queue@ == q_old);
                                    } else {
                                        let at = choose|at: int|
                                            0 <= at <= q_old.len() && open_set.queue@
                                                == q_old.insert(at, next);
                                        if j < at {
                                            assert(q_old[j] == p);
                                        } else {
                                            assert(q_old[j - 1] == p);
                                        }
                                    }
                                }
                            }
                            if small {
                                assert forall|p: Position| #[trigger]
                                    g_new.contains_key(p) implies p == curr
                                        || open_set.queue@.contains(p) || relaxed(
                                        navigator,
                                        g_new,
                                        p,
                                        *world_size,
                                    ) by {
                                    if p != next && p != curr && !open_set.queue@.contains(p) {
                                        assert(g_old.contains_key(p));
                                        assert(!q_old.contains(p));
                                        assert(relaxed(navigator, g_old, p, *world_size));
                                        assert forall|q: Position| #[trigger]
                                            next_cell(navigator, q, p, *world_size) implies g_new.contains_key(q)
                                                && g_new[q] <= g_new[p] + 1 by {
                                            assert(g_old.contains_key(q));
                                        }
                                    }
                                }
                            }
                        }
                    }
                }
                proof {
                    if small {
                        assert(g_score.as_map().contains_key(next));
                        assert(g_score.as_map()[next] <= g_curr + 1);
                        assert forall|j: int|
                            0 <= j < i + 1 implies g_score.as_map().contains_key(
                            #[trigger] neighbors@[j],
                        ) && g_score.as_map()[neighbors@[j]] <= g_curr + 1 by {
                            if j < i {
                                assert(g_before.contains_key(neighbors@[j]));
                            }
                        }
                    }
                }
                i = i + 1;
            }
            proof {
                if small {
                    let g = g_score.as_map();
                    assert forall|q: Position| #[trigger]
                        next_cell(navigator, q, curr, *world_size) implies g.contains_key(q) && g[q]
                            <= g[curr] + 1 by {
                        let o = lemma_touch_step(curr, q, *world_size);
                        assert(walkable_step(navigator, curr, o, *world_size));
                        assert(neighbors@.contains(q));
                        let j = choose|j: int| 0 <= j < neighbors@.len() && neighbors@[j] == q;
                        assert(g.contains_key(neighbors@[j]));
                    }
                    assert forall|p: Position| #[trigger]
                        g.contains_key(p) implies open_set.queue@.contains(p)
                            || relaxed(navigator, g, p, *world_size) by {
                        if p == curr {
                            assert(relaxed(navigator, g, curr, *world_size));
                        }
                    }
                }
            }
        }
    }
}

impl PathFinder {
    fn build_reverse_path<N: Navigator>(
        navigator: &N,
        came_from: &PositionTable<Position>,
        current: Position,
        Ghost(from): Ghost<Position>,
        Ghost(g_score): Ghost<Map<Position, usize>>,
        Ghost(world_size): Ghost<WorldSize>,
    ) -> (r: Vec<Position>)
        requires
            came_from.wf(),
            search_tree(navigator, g_score, came_from.as_map(), from, world_size),
            g_score.contains_key(current),
        ensures
            current == from ==> r@.len() == 0,
            current != from ==> r@.len() > 0,
            is_reverse_path(navigator, r@, from, current, world_size),
            r@.no_duplicates(),
            r@.len() <= g_score[current],
    {
        let ghost came = came_from.as_map();
        let ghost start = current;
        let mut current = current;
        let mut result: Vec<Position> = Vec::new();

        result.push(current);
        loop
            invariant_except_break
                came_from.wf(),
                came == came_from.as_map(),
                search_tree(navigator, g_score, came, from, world_size),
                g_score.contains_key(current),
                result@.len() > 0,
                result@[0] == start,
                result@.last() == current,
                start == from ==> result@.len() == 1,
                forall|i: int|
                    0 <= i < result@.len() - 1 ==> {
                        &&& #[trigger] came.contains_key(result@[i])
                        &&& came[result@[i]] == result@[i + 1]
                    },
                forall|i: int| 0 <= i < result@.len() ==> g_score.contains_key(#[trigger] result@[i]),
                forall|i: int, j: int|
                    0 <= i < j < result@.len() ==> g_score[#[trigger] result@[j]] < g_score[#[trigger] result@[i]],
                g_score[current] + (result@.len() - 1) <= g_score[start],
            ensures
                result@.len() > 0,
                result@[0] == start,
                result@.last() == from,
                start == from ==> result@.len() == 1,
                forall|i: int|
                    0 <= i < result@.len() - 1 ==> {
                        &&& #[trigger] came.contains_key(result@[i])
                        &&& came[result@[i]] == result@[i + 1]
                    },
                forall|i: int, j: int|
                    0 <= i < j < result@.len() ==> g_score[#[trigger] result@[j]] < g_score[#[trigger] result@[i]],
                g_score[from] + (result@.len() - 1) <= g_score[start],
            decreases g_score[current],
        {
            if let Some(position) = came_from.get(&current) {
                let ghost before = result@;
                let ghost prev = current;
                current = position;
                result.push(current);
                proof {
                    assert forall|i: int| 0 <= i < result@.len() - 1 implies {
                        &&& #[trigger] came.contains_key(result@[i])
                        &&& came[result@[i]] == result@[i + 1]
                    } by {
                        if i < before.len() - 1 {
                            assert(result@[i] == before[i] && result@[i + 1] == before[i + 1]);
                        } else {
                            assert(result@[i] == prev);
                        }
                    }
                    assert(came.contains_key(prev));
                    assert forall|i: int| 0 <= i < result@.len() implies g_score.contains_key(
                        #[trigger] result@[i],
                    ) by {
                        if i < before.len() {
                            assert(result@[i] == before[i]);
                        }
                    }
                    assert forall|i: int, j: int| 0 <= i < j < result@.len() implies g_score[#[trigger] result@[j]]
                        < g_score[#[trigger] result@[i]] by {
                        assert(result@[i] == before[i]);
                        if j < before.len() {
                            assert(result@[j] == before[j]);
                        } else {
                            assert(before[before.len() - 1] == prev);
                            if i < before.len() - 1 {
                                assert(g_score[before[before.len() - 1]] < g_score[before[i]]);
                            }
                        }
                    }
                }
            } else {
                break;
            }
        }

        // removing the (unecessary) "starting" point from the reverse path
        assert(start != from ==> result@.len() >= 2);
        result.pop();
        proof {
            let path = result@;
            assert forall|i: int| 0 <= i < path.len() implies {
                &&& #[trigger] path[i].inside(world_size)
                &&& walkable_cell(navigator.cell_spec(path[i]))
                &&& path[i] != from
            } by {
                assert(came.contains_key(path[i]));
                assert(g_score[came[path[i]]] < g_score[path[i]]);
            }
            assert forall|i: int| 0 <= i < path.len() - 1 implies #[trigger] path[i].touches(
                path[i + 1],
            ) by {
                assert(came.contains_key(path[i]));
            }
            if path.len() > 0 {
                assert(came.contains_key(path[path.len() - 1]));
            }
            assert forall|i: int, j: int|
                0 <= i < path.len() && 0 <= j < path.len() && i != j implies path[i] != path[j] by {
                if i < j {
                    assert(g_score[path[j]] < g_score[path[i]]);
                } else {
                    assert(g_score[path[i]] < g_score[path[j]]);
                }
            }
        }

        result
    }

    fn find_alignment(from: &Position, to: &Position) -> (r: Option<Orientation>)
        ensures
            r == alignment_spec(*from, *to),
    {
        let east_of = to.x > from.x;
        let dx: usize = if east_of {
            to.x - from.x
        } else {
            from.x - to.x
        };
        let south_of = to.y > from.y;
        let dy: usize = if south_of {
            to.y - from.y
        } else {
            from.y - to.y
        };

        if dx == 0 {
            if south_of {
                Some(Orientation::South)
            } else {
                Some(Orientation::North)
            }
        } else if dy == 0 {
            if east_of {
                Some(Orientation::East)
            } else {
                Some(Orientation::West)
            }
        } else if dx == dy {
            if east_of && south_of {
                Some(Orientation::SouthEast)
            } else if east_of {
                Some(Orientation::NorthEast)
            } else if south_of {
                Some(Orientation::SouthWest)
            } else {
                Some(Orientation::NorthWest)
            }
        } else {
            None
        }
    }

    fn infinity_scores(scores: &PositionTable<usize>, position: &Position) -> (r: usize)
        requires
            scores.wf(),
        ensures
            r as nat == score_or_infinity(scores.as_map(), *position),
            r < usize::MAX ==> scores.as_map().contains_key(*position) && scores.as_map()[*position]
                == r,
    {
        if let Some(s) = scores.get(position) {
            s
        } else {
            usize::MAX
        }
    }

    fn neighbors<N: Navigator>(position: &Position, navigator: &N, size: &WorldSize) -> (r: Vec<
        Position,
    >)
        ensures
            r@ == walkable_steps_clockwise(navigator, *position, *size, 8),
            r@.no_duplicates(),
            forall|j: int|
                0 <= j < r@.len() ==> next_cell(navigator, #[trigger] r@[j], *position, *size),
            forall|o: Orientation|
                #[trigger] walkable_step(navigator, *position, o, *size) ==> r@.contains(
                    position.followed(o, *size)->0,
                ),
    {
        let mut result: Vec<Position> = Vec::new();
        let mut orientation = Orientation::North;
        let mut k: usize = 0;
        loop
            invariant_except_break
                k < 8,
                orientation == super::orientation::orientation_at(k as int),
                result@ == walkable_steps_clockwise(navigator, *position, *size, k as nat),
                forall|j: int|
                    0 <= j < result@.len() ==> next_cell(navigator, #[trigger] result@[j], *position, *size),
                forall|o: Orientation|
                    super::orientation::orientation_index(o) < k && #[trigger] walkable_step(
                        navigator,
                        *position,
                        o,
                        *size,
                    ) ==> result@.contains(position.followed(o, *size)->0),
            ensures
                result@ == walkable_steps_clockwise(navigator, *position, *size, 8),
                forall|j: int|
                    0 <= j < result@.len() ==> next_cell(navigator, #[trigger] result@[j], *position, *size),
                forall|o: Orientation|
                    #[trigger] walkable_step(navigator, *position, o, *size) ==> result@.contains(
                        position.followed(o, *size)->0,
                    ),
            decreases 8 - k,
        {
            let ghost before = result@;
            if let Some(next) = position.follow(&orientation, size) {
                if Self::walkable(&next, navigator) {
                    result.push(next);
                    proof {
                        assert(result@[result@.len() - 1] == next);
                        assert forall|j: int| 0 <= j < result@.len() implies next_cell(navigator, #[trigger] result@[j], *position, *size) by {
                            if j < before.len() {
                                assert(result@[j] == before[j]);
                            } else {
                                assert(result@[j] == next);
                                assert(next.inside(*size) && next.touches(*position));
                            }
                        }
                    }
                }
            }
            proof {
                assert forall|o: Orientation|
                    super::orientation::orientation_index(o) < k + 1 && #[trigger] walkable_step(
                        navigator,
                        *position,
                        o,
                        *size,
                    ) implies result@.contains(position.followed(o, *size)->0) by {
                    if super::orientation::orientation_index(o) < k {
                        let q = position.followed(o, *size)->0;
                        let w = choose|w: int| 0 <= w < before.len() && before[w] == q;
                        assert(result@[w] == q);
                    } else {
                        assert(o == orientation);
                        let q = position.followed(o, *size)->0;
                        assert(result@[result@.len() - 1] == q);
                    }
                }
            }
            proof {
                let o = super::orientation::orientation_at(k as int);
                assert(walkable_steps_clockwise(navigator, *position, *size, (k + 1) as nat) == (if walkable_step(
                    navigator,
                    *position,
                    o,
                    *size,
                ) {
                    before.push(position.followed(o, *size)->0)
                } else {
                    before
                }));
                assert(result@ =~= walkable_steps_clockwise(navigator, *position, *size, (k + 1) as nat));
            }
            orientation = orientation.rotated_clockwise();
            if k == 7 {
                proof {
                    assert forall|o: Orientation| #[trigger]
                        walkable_step(navigator, *position, o, *size) implies result@.contains(
                        position.followed(o, *size)->0,
                    ) by {
                        assert(super::orientation::orientation_index(o) < 8);
                    }
                }
                break;
            }
            k = k + 1;
        }
        proof {
            lemma_clockwise_steps_distinct(navigator, *position, *size, 8);
        }
        result
    }

    fn walkable<N: Navigator>(position: &Position, navigator: &N) -> (r: bool)
        ensures
            r == walkable_cell(navigator.cell_spec(*position)),
    {
        let cell = navigator.cell_at(position);

        match cell {
            MapCell::Unallocated => true,
            MapCell::Terrain(Terrain::Field) => true,
            _ => false,
        }
    }
}

/// Whether `x` comes before `position` in the queue: both are scored, and `x` scores
/// higher, so that the lowest scores gather at the end of the queue.
pub open spec fn scored_ahead(f_scores: Map<Position, usize>, x: Position, position: Position) -> bool {
    &&& f_scores.contains_key(x)
    &&& f_scores.contains_key(position)
    &&& f_scores[x] > f_scores[position]
}

/// Whether every queued position is scored and the scores never rise along the queue,
/// so that the last position is one of the lowest score.
pub open spec fn queue_ordered(f_scores: Map<Position, usize>, queue: Seq<Position>) -> bool {
    &&& forall|j: int| 0 <= j < queue.len() ==> f_scores.contains_key(#[trigger] queue[j])
    &&& forall|a: int, b: int|
        0 <= a < b < queue.len() ==> f_scores[#[trigger] queue[a]] >= f_scores[#[trigger] queue[b]]
}

/// A simple priority queue implementation
struct PriorityQueue {
    queue: Vec<Position>,
}

impl PriorityQueue {
    fn new() -> (r: Self)
        ensures
            r.queue@ == Seq::<Position>::empty(),
    {
        Self { queue: Vec::new() }
    }

    fn contains(&self, position: &Position) -> (r: bool)
        ensures
            r == self.queue@.contains(*position),
    {
        let mut i: usize = 0;
        while i < self.queue.len()
            invariant
                i <= self.queue@.len(),
                forall|j: int| 0 <= j < i ==> self.queue@[j] != *position,
            decreases self.queue@.len() - i,
        {
            if self.queue[i] == *position {
                assert(self.queue@[i as int] == *position);
                return true;
            }
            i = i + 1;
        }
        false
    }

    /// The index before which every queued position scores higher than `position`, found by
    /// halving as `slice::partition_point` does. When the queue is ordered that way, it is
    /// the first index that does not.
    fn partition_point(&self, position: &Position, f_scores: &PositionTable<usize>) -> (r: usize)
        requires
            f_scores.wf(),
        ensures
            r <= self.queue@.len(),
            (forall|a: int, b: int|
                0 <= a < b < self.queue@.len() && !scored_ahead(
                    f_scores.as_map(),
                    #[trigger] self.queue@[a],
                    *position,
                ) ==> !scored_ahead(f_scores.as_map(), #[trigger] self.queue@[b], *position))
                ==> {
                &&& forall|j: int|
                    0 <= j < r ==> scored_ahead(f_scores.as_map(), #[trigger] self.queue@[j], *position)
                &&& forall|j: int|
                    r <= j < self.queue@.len() ==> !scored_ahead(
                        f_scores.as_map(),
                        #[trigger] self.queue@[j],
                        *position,
                    )
            },
    {
        let ghost fs = f_scores.as_map();
        let ghost q = self.queue@;
        let ghost partitioned = forall|a: int, b: int|
            0 <= a < b < q.len() && !scored_ahead(fs, #[trigger] q[a], *position) ==> !scored_ahead(
                fs,
                #[trigger] q[b],
                *position,
            );
        let n = self.queue.len();
        let mut size = n;
        if size == 0 {
            return 0;
        }
        let own = f_scores.get(position);
        let mut base: usize = 0;
        while size > 1
            invariant
                fs == f_scores.as_map(),
                q == self.queue@,
                f_scores.wf(),
                own == (if fs.contains_key(*position) {
                    Some(fs[*position])
                } else {
                    None
                }),
                partitioned == (forall|a: int, b: int|
                    0 <= a < b < q.len() && !scored_ahead(fs, #[trigger] q[a], *position)
                        ==> !scored_ahead(fs, #[trigger] q[b], *position)),
                1 <= size,
                q.len() == n,
                base + size <= q.len(),
                partitioned ==> forall|j: int|
                    0 <= j < base ==> scored_ahead(fs, #[trigger] q[j], *position),
                partitioned ==> forall|j: int|
                    base + size <= j < q.len() ==> !scored_ahead(fs, #[trigger] q[j], *position),
            decreases size,
        {
            let half = size / 2;
            let mid = base + half;
            let go_right = Self::ahead(&self.queue[mid], &own, f_scores);
            proof {
                if partitioned && go_right {
                    assert forall|j: int| 0 <= j < mid implies scored_ahead(
                        fs,
                        #[trigger] q[j],
                        *position,
                    ) by {
                        if !scored_ahead(fs, q[j], *position) {
                            assert(!scored_ahead(fs, q[mid as int], *position));
                        }
                    }
                }
                if partitioned && !go_right {
                    assert forall|j: int| base + size - half <= j < q.len() implies !scored_ahead(
                        fs,
                        #[trigger] q[j],
                        *position,
                    ) by {
                        if j > mid {
                            assert(!scored_ahead(fs, q[mid as int], *position));
                        }
                    }
                }
            }
            if go_right {
                base = mid;
            }
            size = size - half;
        }
        if Self::ahead(&self.queue[base], &own, f_scores) {
            base + 1
        } else {
            base
        }
    }

    fn ahead(x: &Position, own: &Option<usize>, f_scores: &PositionTable<usize>) -> (r: bool)
        requires
            f_scores.wf(),
        ensures
            r == (match *own {
                Some(b) => f_scores.as_map().contains_key(*x) && f_scores.as_map()[*x] > b,
                None => false,
            }),
    {
        match (f_scores.get(x), own) {
            (Some(a), Some(b)) => a > *b,
            _ => false,
        }
    }

    fn enqueue(&mut self, position: Position, f_scores: &PositionTable<usize>)
        requires
            f_scores.wf(),
        ensures
            old(self).queue@.contains(position) ==> final(self).queue@ == old(self).queue@,
            !old(self).queue@.contains(position) ==> exists|i: int|
                0 <= i <= old(self).queue@.len() && final(self).queue@ == old(self).queue@.insert(
                    i,
                    position,
                ),
            final(self).queue@.contains(position),
            !old(self).queue@.contains(position) ==> final(self).queue@.len() == old(self).queue@.len() + 1,
            old(self).queue@.no_duplicates() ==> final(self).queue@.no_duplicates(),
            queue_ordered(f_scores.as_map(), old(self).queue@) && f_scores.as_map().contains_key(
                position,
            ) ==> queue_ordered(f_scores.as_map(), final(self).queue@),
            queue_ordered(f_scores.as_map(), old(self).queue@) && f_scores.as_map().contains_key(
                position,
            ) && !old(self).queue@.contains(position) ==> exists|i: int|
                0 <= i <= old(self).queue@.len() && final(self).queue@ == old(self).queue@.insert(
                    i,
                    position,
                ) && (forall|j: int|
                    0 <= j < i ==> f_scores.as_map()[#[trigger] old(self).queue@[j]]
                        > f_scores.as_map()[position]) && (forall|j: int|
                    i <= j < old(self).queue@.len() ==> f_scores.as_map()[#[trigger] old(
                        self,
                    ).queue@[j]] <= f_scores.as_map()[position]),
    {
        let ghost fs = f_scores.as_map();
        let ghost q = self.queue@;
        if self.queue.len() == 0 {
            self.queue.push(position);
            proof {
                assert(self.queue@ == old(self).queue@.insert(0, position));
                assert(self.queue@[0] == position);
            }
        } else {
            if !self.contains(&position) {
                let index = self.partition_point(&position, f_scores);
                self.queue.insert(index, position);
                proof {
                    let n = self.queue@;
                    let i = index as int;
                    assert(n == q.insert(i, position));
                    assert(n[i] == position);
                    if q.no_duplicates() {
                        assert forall|a: int, b: int|
                            0 <= a < n.len() && 0 <= b < n.len() && a != b implies n[a] != n[b] by {
                            if a == i {
                                if b < i {
                                    assert(n[b] == q[b]);
                                } else {
                                    assert(n[b] == q[b - 1]);
                                }
                            } else if b == i {
                                if a < i {
                                    assert(n[a] == q[a]);
                                } else {
                                    assert(n[a] == q[a - 1]);
                                }
                            } else {
                                let qa = if a < i { a } else { a - 1 };
                                let qb = if b < i { b } else { b - 1 };
                                assert(n[a] == q[qa] && n[b] == q[qb]);
                            }
                        }
                    }
                    if queue_ordered(fs, q) && fs.contains_key(position) {
                        assert forall|a: int, b: int|
                            0 <= a < b < q.len() && !scored_ahead(fs, #[trigger] q[a], position)
                                implies !scored_ahead(fs, #[trigger] q[b], position) by {
                        }
                        assert forall|j: int| 0 <= j < i implies fs[#[trigger] q[j]] > fs[position] by {
                            assert(scored_ahead(fs, q[j], position));
                        }
                        assert forall|j: int| i <= j < q.len() implies fs[#[trigger] q[j]] <= fs[position] by {
                            assert(!scored_ahead(fs, q[j], position));
                        }
                        assert forall|j: int| 0 <= j < n.len() implies fs.contains_key(#[trigger] n[j]) by {
                            if j < i {
                                assert(n[j] == q[j]);
                            } else if j > i {
                                assert(n[j] == q[j - 1]);
                            }
                        }
                        assert forall|a: int, b: int| 0 <= a < b < n.len() implies fs[#[trigger] n[a]]
                            >= fs[#[trigger] n[b]] by {
                            if b < i {
                                assert(n[a] == q[a] && n[b] == q[b]);
                            } else if b == i {
                                assert(n[a] == q[a]);
                            } else if a < i {
                                assert(n[a] == q[a] && n[b] == q[b - 1]);
                            } else if a == i {
                                assert(n[b] == q[b - 1]);
                            } else {
                                assert(n[a] == q[a - 1] && n[b] == q[b - 1]);
                            }
                        }
                    }
                }
            }
        }
    }

    fn dequeue(&mut self) -> (r: Option<Position>)
        ensures
            old(self).queue@.len() > 0 ==> r == Some(old(self).queue@.last())
                && final(self).queue@ == old(self).queue@.drop_last(),
            old(self).queue@.len() == 0 ==> r is None && final(self).queue@ == old(self).queue@,
    {
        self.queue.pop()
    }

    fn is_empty(&self) -> (r: bool)
        ensures
            r == (self.queue@.len() == 0),
    {
        self.queue.len() == 0
    }
}

} // verus!
