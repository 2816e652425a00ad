use vstd::prelude::*;

use crate::api::map_cell::{MapCell, Terrain};
use crate::api::scan::ScanResult;
use crate::api::world_size::MAX_WORLD_SIZE;
use crate::api::{
    action::Action,
    aiming::Aiming,
    context::Context,
    direction::Direction,
    player::{Player, PlayerId},
    scan::ScanType,
};
use crate::chance::{any_i32, weight_sum, weighted_index, weighted_sample, weights_of};

use crate::api::position::Position;
use crate::api::position::SCANNING_DISTANCE;
use crate::api::rotation::Rotation;
use utils::orientation_of_offset;

pub mod evaluator;
pub mod utils;

verus! {

pub struct Miklas {
    discovered_map: Box<[[MapCell; MAX_WORLD_SIZE]; MAX_WORLD_SIZE]>,
    update_map: Box<[[usize; MAX_WORLD_SIZE]; MAX_WORLD_SIZE]>,  // which round the tile was last updated.
}

/// Whether a coordinate lies on the largest map.
pub open spec fn on_map(x: int, y: int) -> bool {
    0 <= x < MAX_WORLD_SIZE && 0 <= y < MAX_WORLD_SIZE
}

/// Whether the scan cell (`y`, `x`) shows the tank `id` itself.
pub open spec fn own_cell(scan: ScanResult, id: PlayerId, y: int, x: int) -> bool {
    match scan.cell(y, x) {
        MapCell::Player(d, _) => d.id == id,
        _ => false,
    }
}

/// The last column of row `y`, before column `n`, that shows the tank itself.
pub open spec fn last_own_in_row(scan: ScanResult, id: PlayerId, y: int, n: nat) -> Option<int>
    decreases n,
{
    if n == 0 {
        None
    } else if own_cell(scan, id, y, n - 1) {
        Some(n - 1)
    } else {
        last_own_in_row(scan, id, y, (n - 1) as nat)
    }
}

/// Where the tank finds itself in a scan, from row `y` on: the last cell showing it in
/// the first row that does, as (column, row); (0, 0) when none does.
pub open spec fn self_in_scan_from(scan: ScanResult, id: PlayerId, y: int) -> (int, int)
    decreases SCANNING_DISTANCE - y,
{
    if y >= SCANNING_DISTANCE || y < 0 {
        (0, 0)
    } else {
        match last_own_in_row(scan, id, y, SCANNING_DISTANCE as nat) {
            Some(x) => (x, y),
            None => self_in_scan_from(scan, id, y + 1),
        }
    }
}

/// Where the tank finds itself in a scan.
pub open spec fn self_in_scan(scan: ScanResult, id: PlayerId) -> (int, int) {
    self_in_scan_from(scan, id, 0)
}

/// A shot at the tank at `target`, seen at turn `seen`: when it was seen in the last five
/// turns, a positional shot when in reach, else a cardinal one when aligned, in the
/// direction read off the target's coordinates reduced to ones and zeros.
pub open spec fn shooting(ctx: Context, target: Position, seen: int) -> Seq<(Action, i64)> {
    let me = ctx.position_spec();
    let normalized = Position {
        x: if target.x != 0 {
            1
        } else {
            0
        },
        y: if target.y != 0 {
            1
        } else {
            0
        },
    };
    if seen <= ctx.turn_spec() && ctx.turn_spec() - seen <= 5 {
        if me.hits_positionally(target) {
            seq![(Action::Fire(Aiming::Positional(target)), 1500i64)]
        } else if me.hits_cardinally(target) {
            seq![(Action::Fire(Aiming::Cardinal(orientation_of_offset(me, normalized))), 1500i64)]
        } else {
            Seq::empty()
        }
    } else {
        Seq::empty()
    }
}

impl Miklas {
    /// The cell remembered at a coordinate of the largest map.
    pub closed spec fn discovered(self, x: int, y: int) -> MapCell {
        (*self.discovered_map)@[y]@[x]
    }

    /// The turn at which a cell of the largest map was last seen.
    pub closed spec fn updated(self, x: int, y: int) -> usize {
        (*self.update_map)@[y]@[x]
    }

    /// Whether the cell remembers another living tank.
    pub open spec fn enemy_at(self, id: PlayerId, x: int, y: int) -> bool {
        on_map(x, y) && match self.discovered(x, y) {
            MapCell::Player(d, _) => d.id != id && d.alive,
            _ => false,
        }
    }

    /// The cell of the tank seen last, the first of those in row order.
    pub open spec fn latest_enemy(self, id: PlayerId, x: int, y: int) -> bool {
        &&& self.enemy_at(id, x, y)
        &&& forall|x2: int, y2: int| #[trigger]
            self.enemy_at(id, x2, y2) ==> self.updated(x2, y2) <= self.updated(x, y) && (y2
                * MAX_WORLD_SIZE + x2 < y * MAX_WORLD_SIZE + x ==> self.updated(x2, y2)
                < self.updated(x, y))
    }

    /// The tank after storing a scan: each scan cell that lands on the largest map, placed
    /// by where the tank finds itself in the scan, is remembered with the turn.
    pub open spec fn scan_parsed(self, ctx: Context, scan: ScanResult, after: Miklas) -> bool {
        let own = self_in_scan(scan, ctx.details().id);
        let ox = ctx.position_spec().x - own.0;
        let oy = ctx.position_spec().y - own.1;
        forall|x: int, y: int|
            on_map(x, y) ==> if ox <= x < ox + SCANNING_DISTANCE && oy <= y < oy
                + SCANNING_DISTANCE {
                #[trigger] after.discovered(x, y) == scan.cell(y - oy, x - ox) && after.updated(x, y)
                    == ctx.turn_spec()
            } else {
                after.discovered(x, y) == self.discovered(x, y) && after.updated(x, y)
                    == self.updated(x, y)
            }
    }

    pub fn new() -> (r: Self)
        ensures
            forall|x: int, y: int|
                on_map(x, y) ==> #[trigger] r.discovered(x, y) == MapCell::Unallocated && r.updated(
                    x,
                    y,
                ) == 0,
    {
        Self {
            discovered_map: Box::new([[MapCell::Unallocated; MAX_WORLD_SIZE]; MAX_WORLD_SIZE]),
            update_map: Box::new([[0; MAX_WORLD_SIZE]; MAX_WORLD_SIZE]),
        }
    }

    /// The cell of the tank seen last, with its turn; see `latest_enemy`.
    fn latest_player(&self, id: PlayerId) -> (r: Option<(usize, usize, usize)>)
        ensures
            match r {
                None => forall|x: int, y: int| !#[trigger] self.enemy_at(id, x, y),
                Some((x, y, t)) => self.latest_enemy(id, x as int, y as int) && t == self.updated(
                    x as int,
                    y as int,
                ),
            },
    {
        let mut best: Option<(usize, usize, usize)> = None;
        let mut y: usize = 0;
        while y < MAX_WORLD_SIZE
            invariant
                y <= MAX_WORLD_SIZE,
                match best {
                    None => forall|x2: int, y2: int|
                        y2 < y ==> !#[trigger] self.enemy_at(id, x2, y2),
                    Some((bx, by, bt)) => {
                        &&& self.enemy_at(id, bx as int, by as int)
                        &&& bt == self.updated(bx as int, by as int)
                        &&& by < y
                        &&& forall|x2: int, y2: int|
                            y2 < y && #[trigger] self.enemy_at(id, x2, y2) ==> self.updated(x2, y2)
                                <= bt && (y2 * MAX_WORLD_SIZE + x2 < by * MAX_WORLD_SIZE + bx
                                ==> self.updated(x2, y2) < bt)
                    },
                },
            decreases MAX_WORLD_SIZE - y,
        {
            let mut x: usize = 0;
            while x < MAX_WORLD_SIZE
                invariant
                    y < MAX_WORLD_SIZE,
                    x <= MAX_WORLD_SIZE,
                    match best {
                        None => forall|x2: int, y2: int|
                            (y2 < y || (y2 == y && x2 < x)) ==> !#[trigger] self.enemy_at(id, x2, y2),
                        Some((bx, by, bt)) => {
                            &&& self.enemy_at(id, bx as int, by as int)
                            &&& bt == self.updated(bx as int, by as int)
                            &&& by * MAX_WORLD_SIZE + bx < y * MAX_WORLD_SIZE + x
                            &&& forall|x2: int, y2: int|
                                (y2 < y || (y2 == y && x2 < x)) && #[trigger] self.enemy_at(id, x2, y2)
                                    ==> self.updated(x2, y2) <= bt && (y2 * MAX_WORLD_SIZE + x2 < by
                                    * MAX_WORLD_SIZE + bx ==> self.updated(x2, y2) < bt)
                        },
                    },
                decreases MAX_WORLD_SIZE - x,
            {
                let cell = self.discovered_map[y][x];
                let last_updated = self.update_map[y][x];
                let is_enemy = match cell {
                    MapCell::Player(details, _) => details.id != id && details.alive,
                    _ => false,
                };
                proof {
                    assert(is_enemy == self.enemy_at(id, x as int, y as int));
                    assert(last_updated == self.updated(x as int, y as int));
                }
                if is_enemy {
                    match best {
                        None => {
                            best = Some((x, y, last_updated));
                        },
                        Some((_, _, bt)) => {
                            if last_updated > bt {
                                best = Some((x, y, last_updated));
                            }
                        },
                    }
                }
                x = x + 1;
            }
            y = y + 1;
        }
        proof {
            match best {
                None => {
                    assert forall|x: int, y: int| !#[trigger] self.enemy_at(id, x, y) by {
                        if on_map(x, y) {
                            assert(y < MAX_WORLD_SIZE);
                        }
                    }
                },
                Some((bx, by, bt)) => {
                    assert forall|x2: int, y2: int| #[trigger]
                        self.enemy_at(id, x2, y2) implies self.updated(x2, y2) <= bt && (y2
                        * MAX_WORLD_SIZE + x2 < by * MAX_WORLD_SIZE + bx ==> self.updated(x2, y2)
                        < bt) by {
                        assert(y2 < MAX_WORLD_SIZE);
                    }
                },
            }
        }
        best
    }

    fn append_shooting(&self, context: &Context, moves: &mut Vec<(Action, i64)>)
        ensures
            shot_proposed(*self, *context, old(moves)@, final(moves)@),
    {
        if let Some((x, y, last_updated)) = self.latest_player(context.player_details().id) {
            let turn = context.turn();
            let target_pos = Position { x, y };
            let ghost before = moves@;
            if last_updated <= turn && turn - last_updated <= 5 {
                if context.position().could_hit_positionally(&target_pos) {
                    moves.push((Action::Fire(Aiming::Positional(target_pos)), 1500));
                } else if context.position().could_hit_cardinally(&target_pos) {
                    let or = context.position().get_orientation_to_pos(
                        &target_pos.direction_normalize(),
                    );
                    moves.push((Action::Fire(Aiming::Cardinal(or)), 1500));
                }
            }
            proof {
                assert(self.latest_enemy(context.details().id, x as int, y as int));
                assert(moves@ =~= before + shooting(*context, target_pos, last_updated as int));
            }
        }
    }

    fn append_move(&self, context: &Context, moves: &mut Vec<(Action, i64)>)
        ensures
            ahead_proposed(*self, *context, old(moves)@, final(moves)@),
    {
        let self_pos = context.position();
        let orientation = context.player_details().orientation;
        let world_size = context.world_size();

        // Forward
        if let Some(pos) = self_pos.follow(&orientation, world_size) {
            let last_updated = self.update_map[pos.y][pos.x];
            if last_updated <= context.turn() && (context.turn() - last_updated) > 10 {
                moves.push((Action::Scan(ScanType::Mono(orientation)), 500));
                return;
            }
            match self.discovered_map[pos.y][pos.x] {
                MapCell::Unallocated => {
                    moves.push((Action::Scan(ScanType::Mono(orientation)), 500));
                },
                MapCell::Terrain(terrain) => {
                    if terrain == Terrain::Field && (any_i32() % 5) != 0 {
                        moves.push((Action::Move(Direction::Forward), 500));
                    } else {
                        moves.push((Action::Rotate(Rotation::Clockwise), 500));
                    }
                },
                _ => {},
            }
        }
    }

    /// Where the tank finds itself in the scan; see `self_in_scan`.
    fn find_self(result: &ScanResult, id: PlayerId) -> (r: (usize, usize))
        ensures
            r.0 == self_in_scan(*result, id).0,
            r.1 == self_in_scan(*result, id).1,
            r.0 < SCANNING_DISTANCE,
            r.1 < SCANNING_DISTANCE,
    {
        let mut found = false;
        let mut out: (usize, usize) = (0, 0);
        let mut y: usize = 0;
        while y < SCANNING_DISTANCE && !found
            invariant
                y <= SCANNING_DISTANCE,
                !found ==> out == (0usize, 0usize) && self_in_scan(*result, id)
                    == self_in_scan_from(*result, id, y as int),
                found ==> self_in_scan(*result, id) == (out.0 as int, out.1 as int),
                out.0 < SCANNING_DISTANCE,
                out.1 < SCANNING_DISTANCE,
            decreases SCANNING_DISTANCE - y,
        {
            let mut x: usize = 0;
            while x < SCANNING_DISTANCE
                invariant
                    y < SCANNING_DISTANCE,
                    x <= SCANNING_DISTANCE,
                    self_in_scan(*result, id) == self_in_scan_from(*result, id, y as int),
                    !found ==> out == (0usize, 0usize) && last_own_in_row(*result, id, y as int, x as nat) is None,
                    found ==> out.1 == y && out.0 < x && last_own_in_row(*result, id, y as int, x as nat)
                        == Some(out.0 as int),
                    out.0 < SCANNING_DISTANCE,
                    out.1 < SCANNING_DISTANCE,
                decreases SCANNING_DISTANCE - x,
            {
                proof {
                    assert(result.data@[y as int]@[x as int] == result.cell(y as int, x as int));
                }
                if let MapCell::Player(details, _) = result.data[y][x] {
                    if details.id == id {
                        out = (x, y);
                        found = true;
                    }
                }
                x = x + 1;
            }
            y = y + 1;
        }
        out
    }

    fn parse_scan(&mut self, context: &Context, result: &ScanResult)
        ensures
            old(self).scan_parsed(*context, *result, *final(self)),
    {
        // find the local player use it as offset
        let player_in_map = Miklas::find_self(result, context.player_details().id);
        let position = context.position();
        let offset = (
            (position.x as i32) - (player_in_map.0 as i32),
            (position.y as i32) - (player_in_map.1 as i32),
        );
        let turn = context.turn();
        let ghost start = *self;
        let mut discovered = *self.discovered_map;
        let mut updated = *self.update_map;

        let mut y: usize = 0;
        while y < SCANNING_DISTANCE
            invariant
                y <= SCANNING_DISTANCE,
                -(SCANNING_DISTANCE as int) <= offset.0 <= MAX_WORLD_SIZE,
                -(SCANNING_DISTANCE as int) <= offset.1 <= MAX_WORLD_SIZE,
                forall|cx: int, cy: int|
                    on_map(cx, cy) ==> if offset.0 <= cx < offset.0 + SCANNING_DISTANCE && offset.1
                        <= cy < offset.1 + y {
                        #[trigger] discovered@[cy]@[cx] == result.cell(cy - offset.1, cx - offset.0)
                            && updated@[cy]@[cx] == turn
                    } else {
                        discovered@[cy]@[cx] == start.discovered(cx, cy) && updated@[cy]@[cx]
                            == start.updated(cx, cy)
                    },
            decreases SCANNING_DISTANCE - y,
        {
            let mut x: usize = 0;
            while x < SCANNING_DISTANCE
                invariant
                    y < SCANNING_DISTANCE,
                    x <= SCANNING_DISTANCE,
                    -(SCANNING_DISTANCE as int) <= offset.0 <= MAX_WORLD_SIZE,
                    -(SCANNING_DISTANCE as int) <= offset.1 <= MAX_WORLD_SIZE,
                    forall|cx: int, cy: int|
                        on_map(cx, cy) ==> if offset.0 <= cx < offset.0 + SCANNING_DISTANCE
                            && offset.1 <= cy < offset.1 + y || (cy == offset.1 + y && offset.0 <= cx
                            < offset.0 + x) {
                            #[trigger] discovered@[cy]@[cx] == result.cell(cy - offset.1, cx - offset.0)
                                && updated@[cy]@[cx] == turn
                        } else {
                            discovered@[cy]@[cx] == start.discovered(cx, cy) && updated@[cy]@[cx]
                                == start.updated(cx, cy)
                        },
                decreases SCANNING_DISTANCE - x,
            {
                let map = (offset.0 + x as i32, offset.1 + y as i32);
                if map.0 >= 0 && (map.0 as usize) < MAX_WORLD_SIZE && map.1 >= 0 && (map.1 as usize)
                    < MAX_WORLD_SIZE {
                    let mx = map.0 as usize;
                    let my = map.1 as usize;
                    proof {
                        assert(result.data@[y as int]@[x as int] == result.cell(y as int, x as int));
                    }
                    let mut drow = discovered[my];
                    drow[mx] = result.data[y][x];
                    discovered[my] = drow;
                    let mut urow = updated[my];
                    urow[mx] = turn;
                    updated[my] = urow;
                }
                x = x + 1;
            }
            y = y + 1;
        }
        self.discovered_map = Box::new(discovered);
        self.update_map = Box::new(updated);
    }

    fn append_scan(&mut self, context: &Context, _moves: &mut Vec<(Action, i64)>)
        ensures
            match context.scan_spec() {
                Some(scan) => old(self).scan_parsed(*context, scan, *final(self)),
                None => *final(self) == *old(self),
            },
            final(_moves)@ == old(_moves)@,
    {
        if let Some(result) = context.scanned_data() {
            self.parse_scan(context, result);
        }
    }

    /// Collects the moves worth making, each with a weight, and draws one of the three
    /// heaviest with a chance by weight; an omni scan when there is none.
    fn choose_action(&mut self, context: &Context) -> (r: Action)
        ensures
            match context.scan_spec() {
                Some(scan) => old(self).scan_parsed(*context, scan, *final(self)),
                None => *final(self) == *old(self),
            },
            exists|ahead: Seq<(Action, i64)>, moves: Seq<(Action, i64)>|
                ahead_proposed(*old(self), *context, Seq::empty(), ahead) && shot_proposed(
                    *final(self),
                    *context,
                    ahead,
                    moves,
                ) && drawn_from(moves, r),
    {
        // Fetch all possible actions and assign a weight for each one
        let mut moves: Vec<(Action, i64)> = Vec::new();
        let ghost start = *self;
        self.append_move(context, &mut moves);
        let ghost ahead = moves@;
        self.append_scan(context, &mut moves);
        self.append_shooting(context, &mut moves);
        let ghost proposed = moves@;
        let sorted = sort_by_weight(moves);

        // Take top-three and randomly choose on by their weight.
        let mut top_three: Vec<(Action, i64)> = Vec::new();
        let mut weights: Vec<i64> = Vec::new();
        let mut k: usize = 0;
        while k < sorted.len() && k < 3
            invariant
                k <= sorted@.len(),
                k <= 3,
                top_three@.len() == k,
                weights@.len() == k,
                forall|j: int| 0 <= j < k ==> #[trigger] top_three@[j] == sorted@[j],
                forall|j: int| 0 <= j < k ==> #[trigger] weights@[j] == sorted@[j].1,
            decreases sorted@.len() - k,
        {
            top_three.push(sorted[k]);
            weights.push(sorted[k].1);
            k = k + 1;
        }
        let ghost top = heaviest_three(proposed);
        proof {
            assert(top_three@ =~= top);
            assert(weights@ =~= weights_in(top));
        }
        let dist = match weighted_index(&weights) {
            Some(some) => some,
            None => {
                proof {
                    assert(drawn_from(proposed, Action::Scan(ScanType::Omni)));
                    assert(ahead_proposed(start, *context, Seq::empty(), ahead));
                }
                return Action::Scan(ScanType::Omni);  // fallback if no actions are available.
            },
        };
        let select_index = weighted_sample(&dist);
        let r = top_three[select_index].0;
        proof {
            assert(weights_of(dist) == weights@);
            assert(select_index < top.len());
            assert(top[select_index as int].1 > 0);
            assert(r == top[select_index as int].0);
            assert(drawn_from(proposed, r));
            assert(ahead_proposed(start, *context, Seq::empty(), ahead));
        }
        r
    }
}

/// Where a move of weight `w` goes in a list ordered heaviest first, looking from `j`:
/// after every move at least as heavy.
pub open spec fn insert_point(s: Seq<(Action, i64)>, w: i64, j: int) -> int
    decreases s.len() - j,
{
    if j < 0 || j >= s.len() || s[j].1 < w {
        j
    } else {
        insert_point(s, w, j + 1)
    }
}

/// The moves ordered heaviest first, moves of equal weight in their order.
pub open spec fn stable_sorted(moves: Seq<(Action, i64)>) -> Seq<(Action, i64)>
    decreases moves.len(),
{
    if moves.len() == 0 {
        Seq::empty()
    } else {
        let s = stable_sorted(moves.drop_last());
        s.insert(insert_point(s, moves.last().1, 0), moves.last())
    }
}

/// Whether weights make a weighted draw: some weights, none negative, and a sum above zero
/// that fits in an `i64`.
pub open spec fn drawable(w: Seq<i64>) -> bool {
    &&& w.len() > 0
    &&& forall|i: int| 0 <= i < w.len() ==> #[trigger] w[i] >= 0
    &&& 0 < weight_sum(w) <= i64::MAX
}

/// The three heaviest moves, or all of them when there are fewer.
pub open spec fn heaviest_three(moves: Seq<(Action, i64)>) -> Seq<(Action, i64)> {
    let s = stable_sorted(moves);
    if s.len() < 3 {
        s
    } else {
        s.take(3)
    }
}

/// The weights of a list of moves.
pub open spec fn weights_in(moves: Seq<(Action, i64)>) -> Seq<i64> {
    moves.map_values(|m: (Action, i64)| m.1)
}

/// What the tank does with the moves it proposed: one of the three heaviest with a weight
/// above zero when their weights make a draw, else a scan all around.
pub open spec fn drawn_from(moves: Seq<(Action, i64)>, r: Action) -> bool {
    let top = heaviest_three(moves);
    if drawable(weights_in(top)) {
        exists|k: int| 0 <= k < top.len() && top[k].1 > 0 && r == top[k].0
    } else {
        r == Action::Scan(ScanType::Omni)
    }
}

/// The move that the tank proposes ahead, with `ahead` the list after it: see
/// `append_move`.
pub open spec fn ahead_proposed(m: Miklas, context: Context, before: Seq<(Action, i64)>, ahead: Seq<(Action, i64)>) -> bool {
    let o = context.details().orientation;
    match context.position_spec().followed(o, context.world_size_spec()) {
        None => ahead == before,
        Some(p) => if m.updated(p.x as int, p.y as int) <= context.turn_spec()
            && context.turn_spec() - m.updated(p.x as int, p.y as int) > 10 {
            ahead == before.push((Action::Scan(ScanType::Mono(o)), 500))
        } else {
            match m.discovered(p.x as int, p.y as int) {
                MapCell::Unallocated => ahead == before.push((Action::Scan(ScanType::Mono(o)), 500)),
                MapCell::Terrain(t) => ahead == before.push((Action::Rotate(Rotation::Clockwise), 500))
                    || (t == Terrain::Field && ahead == before.push((Action::Move(Direction::Forward), 500))),
                _ => ahead == before,
            }
        },
    }
}

/// The shot that the tank proposes at the enemy it saw last, with `after` the list after
/// it: see `append_shooting`.
pub open spec fn shot_proposed(m: Miklas, context: Context, before: Seq<(Action, i64)>, after: Seq<(Action, i64)>) -> bool {
    ||| (forall|x: int, y: int| !#[trigger] m.enemy_at(context.details().id, x, y)) && after == before
    ||| exists|x: int, y: int|
        #[trigger] m.latest_enemy(context.details().id, x, y) && after == before + shooting(
            context,
            Position { x: x as usize, y: y as usize },
            m.updated(x, y) as int,
        )
}

/// The moves, heaviest first; moves of equal weight keep their order.
#[verifier::rlimit(40)]
fn sort_by_weight(moves: Vec<(Action, i64)>) -> (r: Vec<(Action, i64)>)
    ensures
        r@ == stable_sorted(moves@),
        r@.len() == moves@.len(),
        forall|i: int, j: int| 0 <= i < j < r@.len() ==> #[trigger] r@[i].1 >= #[trigger] r@[j].1,
        forall|i: int| 0 <= i < r@.len() ==> moves@.contains(#[trigger] r@[i]),
        forall|i: int| 0 <= i < moves@.len() ==> r@.contains(#[trigger] moves@[i]),
{
    let mut sorted: Vec<(Action, i64)> = Vec::new();
    let mut i: usize = 0;
    while i < moves.len()
        invariant
            i <= moves@.len(),
            sorted@.len() == i,
            forall|a: int, b: int|
                0 <= a < b < sorted@.len() ==> #[trigger] sorted@[a].1 >= #[trigger] sorted@[b].1,
            forall|a: int| 0 <= a < sorted@.len() ==> moves@.subrange(0, i as int).contains(
                #[trigger] sorted@[a],
            ),
            forall|a: int| 0 <= a < i ==> sorted@.contains(#[trigger] moves@[a]),
            sorted@ == stable_sorted(moves@.take(i as int)),
        decreases moves@.len() - i,
    {
        let m = moves[i];
        // Insert after every move at least as heavy.
        let mut pos: usize = 0;
        while pos < sorted.len() && sorted[pos].1 >= m.1
            invariant
                pos <= sorted@.len(),
                forall|a: int| 0 <= a < pos ==> #[trigger] sorted@[a].1 >= m.1,
                insert_point(sorted@, m.1, 0) == insert_point(sorted@, m.1, pos as int),
            decreases sorted@.len() - pos,
        {
            pos = pos + 1;
        }
        let ghost before = sorted@;
        proof {
            assert(moves@.take(i + 1).drop_last() =~= moves@.take(i as int));
            assert(moves@.take(i + 1).last() == m);
        }
        proof {
            assert(forall|a: int| pos <= a < before.len() ==> #[trigger] before[a].1 < m.1) by {
                assert forall|a: int| pos <= a < before.len() implies #[trigger] before[a].1 < m.1 by {
                    if pos < before.len() {
                        assert(before[pos as int].1 < m.1);
                        if a > pos {
                            assert(before[pos as int].1 >= before[a].1);
                        }
                    }
                }
            }
        }
        sorted.insert(pos, m);
        proof {
            let s = sorted@;
            assert(s == before.insert(pos as int, m));
            assert forall|a: int, b: int| 0 <= a < b < s.len() implies #[trigger] s[a].1 >= #[trigger] s[b].1 by {
                if a < pos && b < pos {
                    assert(s[a] == before[a] && s[b] == before[b]);
                } else if a < pos && b == pos {
                } else if a < pos {
                    assert(s[a] == before[a] && s[b] == before[b - 1]);
                } else if a == pos {
                    assert(s[b] == before[b - 1]);
                } else {
                    assert(s[a] == before[a - 1] && s[b] == before[b - 1]);
                }
            }
            let sub = moves@.subrange(0, i as int + 1);
            assert forall|a: int| 0 <= a < s.len() implies sub.contains(#[trigger] s[a]) by {
                if a == pos {
                    assert(sub[i as int] == m);
                } else {
                    let e = if a < pos { before[a] } else { before[a - 1] };
                    assert(s[a] == e);
                    assert(moves@.subrange(0, i as int).contains(e));
                    let w = choose|w: int| 0 <= w < i && moves@.subrange(0, i as int)[w] == e;
                    assert(sub[w] == e);
                }
            }
            assert forall|a: int| 0 <= a < i + 1 implies s.contains(#[trigger] moves@[a]) by {
                if a == i {
                    assert(s[pos as int] == m);
                } else {
                    assert(before.contains(moves@[a]));
                    let w = choose|w: int| 0 <= w < before.len() && before[w] == moves@[a];
                    if w < pos {
                        assert(s[w] == moves@[a]);
                    } else {
                        assert(s[w + 1] == moves@[a]);
                    }
                }
            }
        }
        i = i + 1;
    }
    proof {
        assert(moves@.subrange(0, moves@.len() as int) =~= moves@);
    }
    sorted
}

impl Player for Miklas {
    /// Stores the scan; then draws one of the three heaviest moves it proposes; see
    /// `ahead_proposed`, `shot_proposed` and `drawn_from`.
    fn act(&mut self, context: Context) -> (r: Action)
        ensures
            match context.scan_spec() {
                Some(scan) => old(self).scan_parsed(context, scan, *final(self)),
                None => *final(self) == *old(self),
            },
            exists|ahead: Seq<(Action, i64)>, moves: Seq<(Action, i64)>|
                ahead_proposed(*old(self), context, Seq::empty(), ahead) && shot_proposed(
                    *final(self),
                    context,
                    ahead,
                    moves,
                ) && drawn_from(moves, r),
    {
        self.choose_action(&context)
    }

    fn name(&self) -> (r: String)
        ensures
            r@ == "Miklas"@,
    {
        "Miklas".to_owned()
    }

    fn is_ready(&self) -> (r: bool)
        ensures
            r,
    {
        true
    }
}

} // verus!
