use vstd::prelude::*;

use crate::api::action::Action;
use crate::api::context::Context;
use crate::api::direction::Direction;
use crate::api::map_cell::{MapCell, Terrain};
use crate::api::orientation::{orientation_at, orientation_index, quick_turn_spec, turned, Orientation};
use crate::api::path_finder::{found_path, is_reverse_path, route_exists, small_world, walkable_cell, Navigator, PathFinder};
use crate::api::position::{is_floor_sqrt, Position};
use crate::api::rotation::Rotation;
use crate::api::world_size::WorldSize;

verus! {

/// What the ground of a cell is, as far as it was explored.
#[derive(Clone, Copy, Debug, PartialEq, Eq, Structural)]
pub enum Surface {
    Terrain(Terrain),
    Unallocated,
}

/// The ground under whatever a cell shows.
pub open spec fn surface_of(cell: MapCell) -> Surface {
    match cell {
        MapCell::Terrain(t) => Surface::Terrain(t),
        MapCell::Explosion(_, t) => Surface::Terrain(t),
        MapCell::Player(_, t) => Surface::Terrain(t),
        MapCell::Shell(_, t) => Surface::Terrain(t),
        MapCell::Unallocated => Surface::Unallocated,
    }
}

impl Surface {
    pub fn from_cell(&self, cell: &MapCell) -> (r: Surface)
        ensures
            r == surface_of(*cell),
    {
        match cell {
            MapCell::Terrain(t) => Surface::Terrain(*t),
            MapCell::Explosion(_, t) => Surface::Terrain(*t),
            MapCell::Player(_, t) => Surface::Terrain(*t),
            MapCell::Shell(_, t) => Surface::Terrain(*t),
            MapCell::Unallocated => Surface::Unallocated,
        }
    }

    pub fn to_map_cell(&self) -> (r: MapCell)
        ensures
            r == match *self {
                Surface::Terrain(t) => MapCell::Terrain(t),
                Surface::Unallocated => MapCell::Unallocated,
            },
            surface_of(r) == *self,
    {
        match self {
            Surface::Terrain(t) => MapCell::Terrain(*t),
            Surface::Unallocated => MapCell::Unallocated,
        }
    }
}

impl MapCell {
    pub fn to_surface(&self) -> (r: Surface)
        ensures
            r == surface_of(*self),
    {
        match self {
            MapCell::Terrain(t) => Surface::Terrain(*t),
            MapCell::Explosion(_, t) => Surface::Terrain(*t),
            MapCell::Player(_, t) => Surface::Terrain(*t),
            MapCell::Shell(_, t) => Surface::Terrain(*t),
            MapCell::Unallocated => Surface::Unallocated,
        }
    }
}

/// Reading a surface back as a cell and taking its surface again gives the same surface.
pub proof fn lemma_surface_round_trip(s: Surface)
    ensures
        surface_of(
            match s {
                Surface::Terrain(t) => MapCell::Terrain(t),
                Surface::Unallocated => MapCell::Unallocated,
            },
        ) == s,
{
}

/// What the tank knows of a cell: its ground, the turn it was last seen, how often it was
/// seen, how often it was hit and the turn of the last hit.
#[derive(Clone, Copy, Debug)]
pub struct WorldTile {
    pub surface: Surface,
    pub last_seen_turn: usize,
    pub times_seen: u32,
    pub times_hit: u32,
    pub last_damage_turn: usize,
}

/// Whether a tank can drive onto a cell: open field.
pub open spec fn transitable(t: WorldTile) -> bool {
    t.surface == Surface::Terrain(Terrain::Field)
}

impl WorldTile {
    pub fn is_transitable(&self) -> (r: bool)
        ensures
            r == transitable(*self),
    {
        match self.surface {
            Surface::Terrain(Terrain::Field) => true,
            _ => false,
        }
    }
}

/// A tile never seen.
pub open spec fn unseen_tile(surface: Surface) -> WorldTile {
    WorldTile { surface, last_seen_turn: 0, times_seen: 0, times_hit: 0, last_damage_turn: 0 }
}

/// Whether a cell lies on the outer ring of a world.
pub open spec fn on_border(x: int, y: int, ws: WorldSize) -> bool {
    x == 0 || y == 0 || x == ws.x - 1 || y == ws.y - 1
}

/// What the tank knows of the world, cell by cell, and the cells it takes for choke
/// points: open cells with at most two open neighbours.
pub struct MappedTerrain {
    map: Vec<Vec<WorldTile>>,
    choke_points: Vec<Position>,
}

impl MappedTerrain {
    /// Every row is as wide as the first.
    #[verifier::type_invariant]
    spec fn rectangular(self) -> bool {
        forall|y: int| 0 <= y < self.map@.len() ==> (#[trigger] self.map@[y])@.len() == self.map@[0]@.len()
    }

    /// The size of the known world.
    pub closed spec fn size(self) -> WorldSize {
        if self.map@.len() == 0 {
            WorldSize { x: 0, y: 0 }
        } else {
            WorldSize { x: self.map@[0].len(), y: self.map.len() }
        }
    }

    /// The tile at a cell.
    pub closed spec fn tile(self, x: int, y: int) -> WorldTile {
        self.map@[y]@[x]
    }

    /// The choke points, in the order they were found.
    pub closed spec fn chokes(self) -> Seq<Position> {
        self.choke_points@
    }

    /// Whether a position lies on the known world.
    pub open spec fn covers(self, p: Position) -> bool {
        p.x < self.size().x && p.y < self.size().y
    }

    /// A map of a world of the given size, every cell unseen, the outer ring taken for
    /// swamp.
    pub fn new(world_size: WorldSize) -> (r: Self)
        ensures
            r.size() == (if world_size.y == 0 {
                WorldSize { x: 0, y: 0 }
            } else {
                world_size
            }),
            r.chokes() == Seq::<Position>::empty(),
            forall|x: int, y: int|
                0 <= x < world_size.x && 0 <= y < world_size.y ==> #[trigger] r.tile(x, y)
                    == unseen_tile(
                    if on_border(x, y, world_size) {
                        Surface::Terrain(Terrain::Swamp)
                    } else {
                        Surface::Unallocated
                    },
                ),
    {
        let default_tile = WorldTile {
            surface: Surface::Unallocated,
            last_seen_turn: 0,
            times_seen: 0,
            times_hit: 0,
            last_damage_turn: 0,
        };
        let mut map: Vec<Vec<WorldTile>> = Vec::new();
        let mut y: usize = 0;
        while y < world_size.y
            invariant
                y <= world_size.y,
                map@.len() == y,
                default_tile == unseen_tile(Surface::Unallocated),
                forall|k: int| 0 <= k < y ==> (#[trigger] map@[k])@.len() == world_size.x,
                forall|k: int, x: int|
                    0 <= k < y && 0 <= x < world_size.x ==> #[trigger] map@[k]@[x] == default_tile,
            decreases world_size.y - y,
        {
            let mut row: Vec<WorldTile> = Vec::new();
            let mut x: usize = 0;
            while x < world_size.x
                invariant
                    x <= world_size.x,
                    row@.len() == x,
                    forall|c: int| 0 <= c < x ==> #[trigger] row@[c] == default_tile,
                decreases world_size.x - x,
            {
                row.push(default_tile);
                x = x + 1;
            }
            let ghost before = map@;
            map.push(row);
            proof {
                assert forall|k: int, c: int|
                    0 <= k < y + 1 && 0 <= c < world_size.x implies #[trigger] map@[k]@[c]
                    == default_tile by {
                    if k < y {
                        assert(map@[k] == before[k]);
                    }
                }
                assert forall|k: int| 0 <= k < y + 1 implies (#[trigger] map@[k])@.len() == world_size.x by {
                    if k < y {
                        assert(map@[k] == before[k]);
                    }
                }
            }
            y = y + 1;
        }
        let mut terrain = MappedTerrain { map, choke_points: Vec::new() };
        terrain.set_borders(&world_size);
        terrain
    }

    /// Sets the ground of one cell.
    fn set_surface(&mut self, x: usize, y: usize, surface: Surface)
        requires
            x < old(self).size().x,
            y < old(self).size().y,
        ensures
            final(self).size() == old(self).size(),
            final(self).chokes() == old(self).chokes(),
            forall|cx: int, cy: int|
                0 <= cx < old(self).size().x && 0 <= cy < old(self).size().y ==> #[trigger] final(self).tile(cx, cy)
                    == if cx == x && cy == y {
                    WorldTile { surface, ..old(self).tile(cx, cy) }
                } else {
                    old(self).tile(cx, cy)
                },
    {
        proof {
            use_type_invariant(&*self);
        }
        let mut map: Vec<Vec<WorldTile>> = Vec::new();
        std::mem::swap(&mut map, &mut self.map);
        let ghost before = map@;
        let mut row = map[y].clone();
        proof {
            assert(row@ =~= before[y as int]@);
        }
        let mut tile = row[x];
        tile.surface = surface;
        row.set(x, tile);
        map.set(y, row);
        proof {
            assert forall|k: int| 0 <= k < map@.len() implies (#[trigger] map@[k])@.len() == map@[0]@.len() by {
                if k != y {
                    assert(map@[k] == before[k]);
                }
                if y != 0 {
                    assert(map@[0] == before[0]);
                }
            }
        }
        self.map = map;
        proof {
            assert forall|cx: int, cy: int|
                0 <= cx < old(self).size().x && 0 <= cy < old(self).size().y implies #[trigger] self.tile(
                cx,
                cy,
            ) == if cx == x && cy == y {
                WorldTile { surface, ..old(self).tile(cx, cy) }
            } else {
                old(self).tile(cx, cy)
            } by {
                if cy != y {
                    assert(self.map@[cy] == before[cy]);
                }
            }
        }
    }

    /// Takes the outer ring of a world of the given size, the size of this map, for swamp.
    fn set_borders(&mut self, size: &WorldSize)
        requires
            size.y > 0 ==> old(self).size() == *size,
            size.y == 0 ==> old(self).size() == (WorldSize { x: 0, y: 0 }),
        ensures
            final(self).size() == old(self).size(),
            final(self).chokes() == old(self).chokes(),
            forall|x: int, y: int|
                0 <= x < size.x && 0 <= y < size.y ==> #[trigger] final(self).tile(x, y) == if on_border(
                    x,
                    y,
                    *size,
                ) {
                    WorldTile { surface: Surface::Terrain(Terrain::Swamp), ..old(self).tile(x, y) }
                } else {
                    old(self).tile(x, y)
                },
    {
        if size.x == 0 || size.y == 0 {
            return;
        }
        let swamp = Surface::Terrain(Terrain::Swamp);
        let mut x: usize = 0;
        while x < size.x
            invariant
                x <= size.x,
                0 < size.y,
                self.size() == *size,
                self.chokes() == old(self).chokes(),
                swamp == Surface::Terrain(Terrain::Swamp),
                forall|cx: int, cy: int|
                    0 <= cx < size.x && 0 <= cy < size.y ==> #[trigger] self.tile(cx, cy) == if cx < x
                        && (cy == 0 || cy == size.y - 1) {
                        WorldTile { surface: swamp, ..old(self).tile(cx, cy) }
                    } else {
                        old(self).tile(cx, cy)
                    },
            decreases size.x - x,
        {
            self.set_surface(x, 0, swamp);
            self.set_surface(x, size.y - 1, swamp);
            x = x + 1;
        }
        let ghost rows_done = *self;
        let mut y: usize = 0;
        while y < size.y
            invariant
                y <= size.y,
                0 < size.x,
                self.size() == *size,
                self.chokes() == old(self).chokes(),
                swamp == Surface::Terrain(Terrain::Swamp),
                forall|cx: int, cy: int|
                    0 <= cx < size.x && 0 <= cy < size.y ==> #[trigger] self.tile(cx, cy) == if cy < y
                        && (cx == 0 || cx == size.x - 1) {
                        WorldTile { surface: swamp, ..rows_done.tile(cx, cy) }
                    } else {
                        rows_done.tile(cx, cy)
                    },
            decreases size.y - y,
        {
            self.set_surface(0, y, swamp);
            self.set_surface(size.x - 1, y, swamp);
            y = y + 1;
        }
    }

    pub fn peek_terrain(&self) -> (r: &Vec<Vec<WorldTile>>)
        ensures
            r@.len() == self.size().y,
            forall|y: int| 0 <= y < r@.len() ==> (#[trigger] r@[y])@.len() == self.size().x,
            forall|x: int, y: int| 0 <= y < r@.len() && 0 <= x < r@[y]@.len() ==> #[trigger] r@[y]@[x] == self.tile(x, y),
    {
        proof {
            use_type_invariant(self);
        }
        &self.map
    }

    /// The size of the known world; it must have a row.
    pub fn world_size(&self) -> (r: WorldSize)
        requires
            self.size().y > 0,
        ensures
            r == self.size(),
    {
        WorldSize { x: self.map[0].len(), y: self.map.len() }
    }

    pub fn is_unexplored(&self, pos: &Position) -> (r: bool)
        requires
            self.covers(*pos),
        ensures
            r == (self.tile(pos.x as int, pos.y as int).surface == Surface::Unallocated),
    {
        proof {
            use_type_invariant(self);
        }
        match self.map[pos.y][pos.x].surface {
            Surface::Unallocated => true,
            _ => false,
        }
    }

    pub fn is_choke_point(&self, pos: &Position) -> (r: bool)
        ensures
            r == self.chokes().contains(*pos),
    {
        let mut i: usize = 0;
        while i < self.choke_points.len()
            invariant
                i <= self.choke_points@.len(),
                forall|j: int| 0 <= j < i ==> self.choke_points@[j] != *pos,
            decreases self.choke_points@.len() - i,
        {
            if self.choke_points[i] == *pos {
                assert(self.choke_points@[i as int] == *pos);
                return true;
            }
            i = i + 1;
        }
        false
    }

    pub fn is_position_transitable(&self, pos: &Position) -> (r: bool)
        requires
            self.covers(*pos),
        ensures
            r == transitable(self.tile(pos.x as int, pos.y as int)),
    {
        proof {
            use_type_invariant(self);
        }
        self.map[pos.y][pos.x].is_transitable()
    }
}

/// The cell a surface shows on the map.
pub open spec fn surface_cell(s: Surface) -> MapCell {
    match s {
        Surface::Terrain(t) => MapCell::Terrain(t),
        Surface::Unallocated => MapCell::Unallocated,
    }
}

impl Navigator for MappedTerrain {
    /// A cell of the known world shows its surface; a position beyond it shows as swamp,
    /// like the outer ring.
    open spec fn cell_spec(&self, position: Position) -> MapCell {
        if self.covers(position) {
            surface_cell(self.tile(position.x as int, position.y as int).surface)
        } else {
            MapCell::Terrain(Terrain::Swamp)
        }
    }

    fn cell_at(&self, position: &Position) -> (r: MapCell) {
        proof {
            use_type_invariant(self);
        }
        if self.map.len() == 0 || position.y >= self.map.len() || position.x >= self.map[0].len() {
            MapCell::Terrain(Terrain::Swamp)
        } else {
            self.map[position.y][position.x].surface.to_map_cell()
        }
    }
}

/// Whether `a` comes before `b` when the map is read row by row.
pub open spec fn row_major_before(a: Position, b: Position) -> bool {
    a.y < b.y || (a.y == b.y && a.x < b.x)
}

/// Whether a position is an unexplored cell of the known world.
pub open spec fn unexplored_at(t: MappedTerrain, p: Position) -> bool {
    t.covers(p) && t.tile(p.x as int, p.y as int).surface == Surface::Unallocated
}

impl MappedTerrain {
    /// The unexplored cells, row by row.
    pub fn unexplored_cells(&self) -> (r: Vec<Position>)
        ensures
            forall|j: int| 0 <= j < r@.len() ==> unexplored_at(*self, #[trigger] r@[j]),
            forall|p: Position| unexplored_at(*self, p) ==> #[trigger] r@.contains(p),
            forall|i: int, j: int|
                0 <= i < j < r@.len() ==> row_major_before(#[trigger] r@[i], #[trigger] r@[j]),
    {
        proof {
            use_type_invariant(self);
        }
        let mut unexplored: Vec<Position> = Vec::new();
        let height = self.map.len();
        let mut y: usize = 0;
        while y < height
            invariant
                height == self.map@.len(),
                y <= height,
                forall|k: int| 0 <= k < self.map@.len() ==> (#[trigger] self.map@[k])@.len() == self.map@[0]@.len(),
                forall|j: int| 0 <= j < unexplored@.len() ==> unexplored_at(*self, #[trigger] unexplored@[j]),
                forall|j: int| 0 <= j < unexplored@.len() ==> (#[trigger] unexplored@[j]).y < y,
                forall|p: Position| unexplored_at(*self, p) && p.y < y ==> #[trigger] unexplored@.contains(p),
                forall|i: int, j: int|
                    0 <= i < j < unexplored@.len() ==> row_major_before(
                        #[trigger] unexplored@[i],
                        #[trigger] unexplored@[j],
                    ),
            decreases height - y,
        {
            let width = self.map[y].len();
            let mut x: usize = 0;
            let ghost row_start = unexplored@.len();
            while x < width
                invariant
                    height == self.map@.len(),
                    y < height,
                    width == self.map@[y as int]@.len(),
                    forall|k: int| 0 <= k < self.map@.len() ==> (#[trigger] self.map@[k])@.len() == self.map@[0]@.len(),
                    x <= width,
                    row_start <= unexplored@.len(),
                    forall|j: int| 0 <= j < unexplored@.len() ==> unexplored_at(*self, #[trigger] unexplored@[j]),
                    forall|j: int| 0 <= j < row_start ==> (#[trigger] unexplored@[j]).y < y,
                    forall|j: int|
                        row_start <= j < unexplored@.len() ==> (#[trigger] unexplored@[j]).y == y
                            && unexplored@[j].x < x,
                    forall|p: Position|
                        unexplored_at(*self, p) && (p.y < y || (p.y == y && p.x < x))
                            ==> #[trigger] unexplored@.contains(p),
                    forall|i: int, j: int|
                        0 <= i < j < unexplored@.len() ==> row_major_before(
                            #[trigger] unexplored@[i],
                            #[trigger] unexplored@[j],
                        ),
                decreases width - x,
            {
                if self.map[y][x].surface == Surface::Unallocated {
                    let ghost before = unexplored@;
                    let p = Position { x, y };
                    unexplored.push(p);
                    proof {
                        assert(unexplored@[unexplored@.len() - 1] == p);
                        assert forall|q: Position|
                            unexplored_at(*self, q) && (q.y < y || (q.y == y && q.x < x + 1))
                                implies #[trigger] unexplored@.contains(q) by {
                            if q == p {
                                assert(unexplored@[unexplored@.len() - 1] == q);
                            } else {
                                assert(before.contains(q));
                                let w = choose|w: int| 0 <= w < before.len() && before[w] == q;
                                assert(unexplored@[w] == q);
                            }
                        }
                        assert forall|i: int, j: int|
                            0 <= i < j < unexplored@.len() implies row_major_before(
                                #[trigger] unexplored@[i],
                                #[trigger] unexplored@[j],
                            ) by {
                            assert(unexplored@[i] == before[i]);
                            if j < before.len() {
                                assert(unexplored@[j] == before[j]);
                            }
                        }
                        assert forall|j: int| row_start <= j < unexplored@.len() implies (
                            #[trigger] unexplored@[j]).y == y && unexplored@[j].x < x + 1 by {
                            if j < before.len() {
                                assert(unexplored@[j] == before[j]);
                            }
                        }
                        assert forall|j: int| 0 <= j < unexplored@.len() implies unexplored_at(
                            *self,
                            #[trigger] unexplored@[j],
                        ) by {
                            if j < before.len() {
                                assert(unexplored@[j] == before[j]);
                            }
                        }
                        assert forall|j: int| 0 <= j < row_start implies (#[trigger] unexplored@[j]).y < y by {
                            assert(unexplored@[j] == before[j]);
                        }
                    }
                }
                x = x + 1;
            }
            y = y + 1;
        }
        unexplored
    }
}

/// Where a tank stands and faces after one action on the known world: a move steps
/// forward or backward when the world goes on that way, a rotation turns it, anything
/// else leaves it.
pub open spec fn step_state(a: Action, p: Position, o: Orientation, ws: WorldSize) -> (Position, Orientation) {
    match a {
        Action::Move(Direction::Forward) => match p.followed(o, ws) {
            Some(n) => (n, o),
            None => (p, o),
        },
        Action::Move(Direction::Backward) => match p.followed(
            orientation_at((orientation_index(o) + 4) % 8),
            ws,
        ) {
            Some(n) => (n, o),
            None => (p, o),
        },
        Action::Rotate(r) => (p, turned(o, r)),
        _ => (p, o),
    }
}

/// Whether one action is safe on the map: a forward move stays inside the world and lands
/// on open field or on an unexplored cell, a backward move stays inside the world and
/// lands on open field.
pub open spec fn step_safe(t: MappedTerrain, a: Action, p: Position, o: Orientation, ws: WorldSize) -> bool {
    match a {
        Action::Move(Direction::Forward) => match p.followed(o, ws) {
            Some(n) => transitable(t.tile(n.x as int, n.y as int)) || t.tile(n.x as int, n.y as int).surface
                == Surface::Unallocated,
            None => false,
        },
        Action::Move(Direction::Backward) => match p.followed(
            orientation_at((orientation_index(o) + 4) % 8),
            ws,
        ) {
            Some(n) => transitable(t.tile(n.x as int, n.y as int)),
            None => false,
        },
        _ => true,
    }
}

/// Where a tank stands and faces after a sequence of actions.
pub open spec fn replay_state(acts: Seq<Action>, p: Position, o: Orientation, ws: WorldSize) -> (Position, Orientation)
    decreases acts.len(),
{
    if acts.len() == 0 {
        (p, o)
    } else {
        let (q, r) = replay_state(acts.drop_last(), p, o, ws);
        step_state(acts.last(), q, r, ws)
    }
}

/// Whether every action of a sequence is safe where the tank stands when it comes.
pub open spec fn safe_replay(t: MappedTerrain, acts: Seq<Action>, p: Position, o: Orientation, ws: WorldSize) -> bool
    decreases acts.len(),
{
    acts.len() == 0 || (safe_replay(t, acts.drop_last(), p, o, ws) && {
        let (q, r) = replay_state(acts.drop_last(), p, o, ws);
        step_safe(t, acts.last(), q, r, ws)
    })
}

/// Whether every action is a rotation or a forward move.
pub open spec fn turns_and_forward_moves(acts: Seq<Action>) -> bool {
    forall|j: int| 0 <= j < acts.len() ==> (#[trigger] acts[j] is Rotate || acts[j] == Action::Move(
        Direction::Forward,
    ))
}

/// Whether some cell next to `pos` is open field.
pub open spec fn open_neighbour(t: MappedTerrain, pos: Position, ws: WorldSize) -> bool {
    exists|o: Orientation|
        #[trigger] pos.followed(o, ws) is Some && transitable(
            t.tile(pos.followed(o, ws)->0.x as int, pos.followed(o, ws)->0.y as int),
        )
}

/// The way the tank faces before the step onto cell `i` of a path: as it started for the
/// first step, else the way it took onto the cell before.
pub open spec fn facing_before(path: Seq<Position>, o: Orientation, i: int) -> Orientation {
    if i <= 1 {
        o
    } else {
        heading_spec(path[i - 2], path[i - 1])
    }
}

/// The actions of the step onto cell `i` of a path: the turns the shorter way round
/// towards it, then a move forward.
pub open spec fn step_actions(path: Seq<Position>, o: Orientation, i: int) -> Seq<Action> {
    let q = quick_turn_spec(facing_before(path, o, i), heading_spec(path[i - 1], path[i]));
    Seq::new(q.1 as nat, |k: int| Action::Rotate(q.0)).push(Action::Move(Direction::Forward))
}

/// The actions that drive along the first `i` cells of a path.
pub open spec fn path_actions_upto(path: Seq<Position>, o: Orientation, i: nat) -> Seq<Action>
    decreases i,
{
    if i <= 1 {
        Seq::empty()
    } else {
        path_actions_upto(path, o, (i - 1) as nat) + step_actions(path, o, i - 1)
    }
}

/// The path from the tank's cell along a reverse path found towards a target.
pub open spec fn forward_path(start: Position, reverse: Seq<Position>) -> Seq<Position> {
    seq![start] + reverse.reverse()
}

/// The way along a found reverse path: none when the path is empty or some cell of it
/// before the target is not open field; else the path's actions, kept up to the first
/// move that would leave open ground, when that keeps any.
pub open spec fn way_from(
    t: MappedTerrain,
    start: Position,
    o: Orientation,
    ws: WorldSize,
    target: Position,
    reverse: Seq<Position>,
) -> Option<Seq<Action>> {
    let path = forward_path(start, reverse);
    if reverse.len() == 0 {
        None
    } else if !(forall|j: int|
        0 <= j < path.len() - 1 ==> transitable(#[trigger] t.tile(path[j].x as int, path[j].y as int))) {
        None
    } else {
        let kept = replay_kept(t, path_actions_upto(path, o, path.len()), start, o, ws, target);
        if kept.len() > 0 {
            Some(kept)
        } else {
            None
        }
    }
}

/// The actions held in an optional vector.
pub open spec fn actions_of(r: Option<Vec<Action>>) -> Option<Seq<Action>> {
    match r {
        Some(a) => Some(a@),
        None => None,
    }
}

/// Whether `cands` holds every unexplored cell next to open field, once each, nearest
/// first from `from` and row by row among cells as near.
pub open spec fn candidates_in_order(t: MappedTerrain, from: Position, ws: WorldSize, cands: Seq<Position>) -> bool {
    &&& forall|j: int|
        0 <= j < cands.len() ==> unexplored_at(t, #[trigger] cands[j]) && open_neighbour(t, cands[j], ws)
    &&& forall|p: Position| unexplored_at(t, p) && open_neighbour(t, p, ws) ==> #[trigger] cands.contains(p)
    &&& forall|a: int, b: int| 0 <= a < b < cands.len() ==> nearer_first(from, #[trigger] cands[a], #[trigger] cands[b])
}

/// The first way that the paths found for the candidates, tried in order, give.
pub open spec fn first_way(
    t: MappedTerrain,
    start: Position,
    o: Orientation,
    ws: WorldSize,
    cands: Seq<Position>,
    reverses: Seq<Seq<Position>>,
) -> Option<Seq<Action>>
    decreases reverses.len(),
{
    if reverses.len() == 0 {
        None
    } else {
        let earlier = first_way(t, start, o, ws, cands, reverses.drop_last());
        if earlier is Some {
            earlier
        } else {
            way_from(t, start, o, ws, cands[reverses.len() - 1], reverses.last())
        }
    }
}

/// Whether `c` is the one unexplored cell of the map.
pub open spec fn sole_unexplored(t: MappedTerrain, c: Position) -> bool {
    &&& unexplored_at(t, c)
    &&& forall|p: Position| #[trigger] unexplored_at(t, p) ==> p == c
}

/// The compass direction from a cell towards another one, North when they coincide.
pub open spec fn heading_spec(from: Position, to: Position) -> Orientation {
    let east = to.x > from.x;
    let west = to.x < from.x;
    let south = to.y > from.y;
    let north = to.y < from.y;
    if north && east {
        Orientation::NorthEast
    } else if south && east {
        Orientation::SouthEast
    } else if south && west {
        Orientation::SouthWest
    } else if north && west {
        Orientation::NorthWest
    } else if east {
        Orientation::East
    } else if south {
        Orientation::South
    } else if west {
        Orientation::West
    } else {
        Orientation::North
    }
}

/// One step towards the heading of a touching cell of the world lands on it.
proof fn lemma_heading_steps(from: Position, to: Position, ws: WorldSize)
    requires
        to.touches(from),
        to.inside(ws),
    ensures
        from.followed(heading_spec(from, to), ws) == Some(to),
{
}

/// A walkable cell of the map other than its one unexplored cell is open field.
proof fn lemma_walkable_is_open(t: MappedTerrain, c: Position, p: Position)
    requires
        sole_unexplored(t, c),
        t.covers(p),
        walkable_cell(t.cell_spec(p)),
        p != c,
    ensures
        transitable(t.tile(p.x as int, p.y as int)),
{
    if t.tile(p.x as int, p.y as int).surface == Surface::Unallocated {
        assert(unexplored_at(t, p));
    }
}

/// Whether `r` is what `pythagorean_distance` gives from `a` to `b`: the whole part of
/// the straight-line distance, counted up to the largest `usize`.
pub open spec fn distance_is(a: Position, b: Position, r: int) -> bool {
    let n = if a.squared_distance(b) > u128::MAX {
        u128::MAX as int
    } else {
        a.squared_distance(b)
    };
    ||| (0 <= r < usize::MAX && is_floor_sqrt(r, n))
    ||| (r == usize::MAX && usize::MAX * usize::MAX <= n)
}

/// The whole straight-line distance from `a` to `b`, as `pythagorean_distance` gives it.
pub open spec fn distance_key(a: Position, b: Position) -> int {
    choose|r: int| distance_is(a, b, r)
}

/// Whether `a` comes before `b` in nearest-first order from `from`: nearer by the whole
/// straight-line distance, or as near and earlier row by row.
pub open spec fn nearer_first(from: Position, a: Position, b: Position) -> bool {
    ||| distance_key(from, a) < distance_key(from, b)
    ||| (distance_key(from, a) == distance_key(from, b) && row_major_before(a, b))
}

/// One pair of positions has one distance.
proof fn lemma_distance_unique(a: Position, b: Position, r1: int, r2: int)
    requires
        distance_is(a, b, r1),
        distance_is(a, b, r2),
    ensures
        r1 == r2,
{
    let n = if a.squared_distance(b) > u128::MAX {
        u128::MAX as int
    } else {
        a.squared_distance(b)
    };
    let m = usize::MAX as int;
    assert(r1 == r2) by (nonlinear_arith)
        requires
            (0 <= r1 < m && r1 * r1 <= n && n < (r1 + 1) * (r1 + 1)) || (r1 == m && m * m <= n),
            (0 <= r2 < m && r2 * r2 <= n && n < (r2 + 1) * (r2 + 1)) || (r2 == m && m * m <= n),
            m > 0,
    {
        if r1 < r2 {
            assert((r1 + 1) * (r1 + 1) <= r2 * r2);
        } else if r2 < r1 {
            assert((r2 + 1) * (r2 + 1) <= r1 * r1);
        }
    }
}

impl MappedTerrain {
    /// Whether some cell next to `pos` is open field.
    fn touches_transitable(&self, pos: &Position, ws: &WorldSize) -> (r: bool)
        requires
            *ws == self.size(),
        ensures
            r == open_neighbour(*self, *pos, *ws),
    {
        let mut orientation = Orientation::North;
        let mut k: usize = 0;
        while k < 8
            invariant
                *ws == self.size(),
                k <= 8,
                k < 8 ==> orientation == orientation_at(k as int),
                forall|o: Orientation|
                    orientation_index(o) < k ==> !(#[trigger] pos.followed(o, *ws) is Some && transitable(
                        self.tile(pos.followed(o, *ws)->0.x as int, pos.followed(o, *ws)->0.y as int),
                    )),
            decreases 8 - k,
        {
            if let Some(next) = pos.follow(&orientation, ws) {
                if self.is_position_transitable(&next) {
                    return true;
                }
            }
            orientation = orientation.rotated_clockwise();
            k = k + 1;
        }
        proof {
            assert forall|o: Orientation|
                !(#[trigger] pos.followed(o, *ws) is Some && transitable(
                    self.tile(pos.followed(o, *ws)->0.x as int, pos.followed(o, *ws)->0.y as int),
                )) by {
                assert(orientation_index(o) < 8);
            }
        }
        false
    }

    /// The cells, nearest to `from` first by the whole straight-line distance; cells at
    /// the same distance keep their order.
    fn nearest_first(&self, from: &Position, cells: &Vec<Position>) -> (r: Vec<Position>)
        requires
            forall|j: int| 0 <= j < cells@.len() ==> unexplored_at(*self, #[trigger] cells@[j]),
            forall|a: int, b: int|
                0 <= a < b < cells@.len() ==> row_major_before(#[trigger] cells@[a], #[trigger] cells@[b]),
        ensures
            forall|a: int, b: int|
                0 <= a < b < r@.len() ==> nearer_first(*from, #[trigger] r@[a], #[trigger] r@[b]),
            r@.len() == cells@.len(),
            forall|j: int| 0 <= j < r@.len() ==> unexplored_at(*self, #[trigger] r@[j]),
            forall|j: int| 0 <= j < cells@.len() ==> r@.contains(#[trigger] cells@[j]),
            forall|j: int| 0 <= j < r@.len() ==> cells@.contains(#[trigger] r@[j]),
            forall|i: int, j: int|
                0 <= i < j < r@.len() ==> distance_key(*from, #[trigger] r@[i]) <= distance_key(
                    *from,
                    #[trigger] r@[j],
                ),
    {
        let mut sorted: Vec<Position> = Vec::new();
        let mut keys: Vec<usize> = Vec::new();
        let mut i: usize = 0;
        while i < cells.len()
            invariant
                i <= cells@.len(),
                sorted@.len() == i,
                keys@.len() == i,
                forall|j: int| 0 <= j < cells@.len() ==> unexplored_at(*self, #[trigger] cells@[j]),
                forall|j: int| 0 <= j < sorted@.len() ==> unexplored_at(*self, #[trigger] sorted@[j]),
                forall|j: int| 0 <= j < i ==> sorted@.contains(#[trigger] cells@[j]),
                forall|j: int| 0 <= j < sorted@.len() ==> cells@.contains(#[trigger] sorted@[j]),
                forall|j: int| 0 <= j < keys@.len() ==> #[trigger] keys@[j] == distance_key(*from, sorted@[j]),
                forall|a: int, b: int| 0 <= a < b < keys@.len() ==> #[trigger] keys@[a] <= #[trigger] keys@[b],
                forall|a: int, b: int|
                    0 <= a < b < cells@.len() ==> row_major_before(#[trigger] cells@[a], #[trigger] cells@[b]),
                forall|j: int, w: int|
                    0 <= j < sorted@.len() && i <= w < cells@.len() ==> row_major_before(
                        #[trigger] sorted@[j],
                        #[trigger] cells@[w],
                    ),
                forall|a: int, b: int|
                    0 <= a < b < sorted@.len() ==> nearer_first(*from, #[trigger] sorted@[a], #[trigger] sorted@[b]),
            decreases cells@.len() - i,
        {
            let c = cells[i];
            let key = from.pythagorean_distance(&c);
            proof {
                assert(distance_is(*from, c, key as int));
                lemma_distance_unique(*from, c, key as int, distance_key(*from, c));
            }
            let mut k: usize = 0;
            while k < keys.len() && keys[k] <= key
                invariant
                    k <= keys@.len(),
                    forall|j: int| 0 <= j < k ==> #[trigger] keys@[j] <= key,
                decreases keys@.len() - k,
            {
                k = k + 1;
            }
            let ghost before = sorted@;
            let ghost keys_before = keys@;
            sorted.insert(k, c);
            keys.insert(k, key);
            proof {
                assert forall|j: int| 0 <= j < keys@.len() implies #[trigger] keys@[j] == distance_key(
                    *from,
                    sorted@[j],
                ) by {
                    if j < k {
                        assert(sorted@[j] == before[j] && keys@[j] == keys_before[j]);
                    } else if j > k {
                        assert(sorted@[j] == before[j - 1] && keys@[j] == keys_before[j - 1]);
                    }
                }
                assert forall|a: int, b: int| 0 <= a < b < keys@.len() implies #[trigger] keys@[a]
                    <= #[trigger] keys@[b] by {
                    if b < k {
                        assert(keys@[a] == keys_before[a] && keys@[b] == keys_before[b]);
                    } else if b == k {
                        assert(keys@[a] == keys_before[a]);
                    } else if a < k {
                        assert(keys@[a] == keys_before[a] && keys@[b] == keys_before[b - 1]);
                    } else if a == k {
                        assert(keys@[b] == keys_before[b - 1]);
                        assert(keys_before[k as int] > key);
                        if b - 1 > k {
                            assert(keys_before[k as int] <= keys_before[b - 1]);
                        }
                    } else {
                        assert(keys@[a] == keys_before[a - 1] && keys@[b] == keys_before[b - 1]);
                    }
                }
                assert(sorted@[k as int] == c);
                assert forall|j: int| 0 <= j < sorted@.len() implies unexplored_at(*self, #[trigger] sorted@[j])
                    && cells@.contains(sorted@[j]) by {
                    if j < k {
                        assert(sorted@[j] == before[j]);
                    } else if j > k {
                        assert(sorted@[j] == before[j - 1]);
                    } else {
                        assert(cells@[i as int] == c);
                    }
                }
                assert forall|j: int, w: int|
                    0 <= j < sorted@.len() && i + 1 <= w < cells@.len() implies row_major_before(
                        #[trigger] sorted@[j],
                        #[trigger] cells@[w],
                    ) by {
                    if j < k {
                        assert(sorted@[j] == before[j]);
                    } else if j > k {
                        assert(sorted@[j] == before[j - 1]);
                    } else {
                        assert(cells@[i as int] == c);
                    }
                }
                assert forall|a: int, b: int|
                    0 <= a < b < sorted@.len() implies nearer_first(*from, #[trigger] sorted@[a], #[trigger] sorted@[b]) by {
                    if b < k {
                        assert(sorted@[a] == before[a] && sorted@[b] == before[b]);
                    } else if b == k {
                        assert(sorted@[a] == before[a]);
                        assert(keys_before[a] <= key);
                        assert(keys_before[a] == distance_key(*from, before[a]));
                        assert(row_major_before(before[a], cells@[i as int]));
                    } else if a < k {
                        assert(sorted@[a] == before[a] && sorted@[b] == before[b - 1]);
                    } else if a == k {
                        assert(sorted@[b] == before[b - 1]);
                        assert(keys_before[k as int] > key);
                        if b - 1 > k {
                            assert(keys_before[k as int] <= keys_before[b - 1]);
                        }
                        assert(keys_before[b - 1] == distance_key(*from, before[b - 1]));
                    } else {
                        assert(sorted@[a] == before[a - 1] && sorted@[b] == before[b - 1]);
                    }
                }
                assert forall|j: int| 0 <= j < i + 1 implies sorted@.contains(#[trigger] cells@[j]) by {
                    if j < i {
                        let w = choose|w: int| 0 <= w < before.len() && before[w] == cells@[j];
                        if w < k {
                            assert(sorted@[w] == cells@[j]);
                        } else {
                            assert(sorted@[w + 1] == cells@[j]);
                        }
                    }
                }
            }
            i = i + 1;
        }
        proof {
            assert forall|a: int, b: int| 0 <= a < b < sorted@.len() implies distance_key(
                *from,
                #[trigger] sorted@[a],
            ) <= distance_key(*from, #[trigger] sorted@[b]) by {
                assert(keys@[a] <= keys@[b]);
            }
        }
        sorted
    }

    /// The compass direction from a cell to a neighbouring one.
    fn heading(from: &Position, to: &Position) -> (r: Orientation)
        ensures
            r == heading_spec(*from, *to),
    {
        let east = to.x > from.x;
        let west = to.x < from.x;
        let south = to.y > from.y;
        let north = to.y < from.y;
        if north && east {
            Orientation::NorthEast
        } else if south && east {
            Orientation::SouthEast
        } else if south && west {
            Orientation::SouthWest
        } else if north && west {
            Orientation::NorthWest
        } else if east {
            Orientation::East
        } else if south {
            Orientation::South
        } else if west {
            Orientation::West
        } else {
            Orientation::North
        }
    }

    /// The actions that drive along a path that starts where the tank stands: for each
    /// next cell, the turns the shorter way round towards it, then a move forward. The
    /// first action is a turn, or a move forward when the tank already faces the second
    /// cell of the path.
    fn path_actions(path: &Vec<Position>, orientation: Orientation) -> (r: Vec<Action>)
        ensures
            turns_and_forward_moves(r@),
            path@.len() > 1 ==> r@.len() > 0 && (r@[0] is Rotate || (r@[0] == Action::Move(
                Direction::Forward,
            ) && orientation == heading_spec(path@[0], path@[1]))),
            r@ == path_actions_upto(path@, orientation, path@.len()),
    {
        let mut actions: Vec<Action> = Vec::new();
        let mut current = orientation;
        let mut i: usize = 1;
        while i < path.len()
            invariant
                1 <= i,
                turns_and_forward_moves(actions@),
                i == 1 ==> actions@.len() == 0 && current == orientation,
                i > 1 && path@.len() > 1 ==> actions@.len() > 0 && (actions@[0] is Rotate || (actions@[0]
                    == Action::Move(Direction::Forward) && orientation == heading_spec(
                    path@[0],
                    path@[1],
                ))),
                i <= path@.len() || path@.len() == 0,
                current == facing_before(path@, orientation, i as int),
                actions@ == path_actions_upto(path@, orientation, if path@.len() == 0 { 0nat } else { i as nat }),
            decreases path@.len() - i,
        {
            let wanted = Self::heading(&path[i - 1], &path[i]);
            let (rotation, steps) = current.quick_turn(&wanted);
            proof {
                crate::api::orientation::lemma_quick_turn_reaches(current, wanted);
            }
            let ghost start_len = actions@.len();
            let ghost first0 = actions@[0];
            let mut n: usize = 0;
            while n < steps
                invariant
                    n <= steps,
                    turns_and_forward_moves(actions@),
                    actions@.len() == start_len + n,
                    start_len > 0 ==> actions@[0] == first0,
                    start_len == 0 && n > 0 ==> actions@[0] is Rotate,
                    actions@ == path_actions_upto(path@, orientation, i as nat) + Seq::new(
                        n as nat,
                        |k: int| Action::Rotate(rotation),
                    ),
                decreases steps - n,
            {
                let ghost before = actions@;
                actions.push(Action::Rotate(rotation));
                proof {
                    assert forall|j: int| 0 <= j < actions@.len() implies (#[trigger] actions@[j] is Rotate
                        || actions@[j] == Action::Move(Direction::Forward)) by {
                        if j < before.len() {
                            assert(actions@[j] == before[j]);
                        }
                    }
                    if before.len() > 0 {
                        assert(actions@[0] == before[0]);
                    }
                    assert(actions@ =~= path_actions_upto(path@, orientation, i as nat) + Seq::new(
                        (n + 1) as nat,
                        |k: int| Action::Rotate(rotation),
                    ));
                }
                n = n + 1;
            }
            let ghost before = actions@;
            actions.push(Action::Move(Direction::Forward));
            proof {
                assert forall|j: int| 0 <= j < actions@.len() implies (#[trigger] actions@[j] is Rotate
                    || actions@[j] == Action::Move(Direction::Forward)) by {
                    if j < before.len() {
                        assert(actions@[j] == before[j]);
                    }
                }
                if before.len() > 0 {
                    assert(actions@[0] == before[0]);
                }
                if i == 1 && steps == 0 {
                    assert(current == wanted);
                }
                assert(actions@ =~= path_actions_upto(path@, orientation, (i + 1) as nat));
            }
            current = wanted;
            i = i + 1;
        }
        actions
    }
}

/// Whether a move forward from `start` stays in the world and enters open field or the
/// target cell.
pub open spec fn forward_entry_ok(t: MappedTerrain, start: Position, o: Orientation, ws: WorldSize, target: Position) -> bool {
    match start.followed(o, ws) {
        Some(n) => transitable(t.tile(n.x as int, n.y as int)) || n == target,
        None => false,
    }
}

/// One action of a replay: where the tank stands and faces, whether the replay stopped,
/// and the actions kept so far. A forward move onto open field or the target, a backward
/// move onto open field and a turn are kept; a move onto other ground stops the replay;
/// a move off the world and any other action are passed over.
pub open spec fn replay_step(
    t: MappedTerrain,
    a: Action,
    st: (Position, Orientation, bool, Seq<Action>),
    ws: WorldSize,
    target: Position,
) -> (Position, Orientation, bool, Seq<Action>) {
    let (p, q, stop, kept) = st;
    if stop {
        st
    } else {
        match a {
            Action::Move(Direction::Forward) => match p.followed(q, ws) {
                Some(n) => if transitable(t.tile(n.x as int, n.y as int)) || n == target {
                    (n, q, false, kept.push(a))
                } else {
                    (p, q, true, kept)
                },
                None => st,
            },
            Action::Move(Direction::Backward) => match p.followed(
                orientation_at((orientation_index(q) + 4) % 8),
                ws,
            ) {
                Some(n) => if transitable(t.tile(n.x as int, n.y as int)) {
                    (n, q, false, kept.push(a))
                } else {
                    (p, q, true, kept)
                },
                None => st,
            },
            Action::Rotate(r) => (p, turned(q, r), false, kept.push(a)),
            _ => st,
        }
    }
}

/// The replay of the first `i` actions.
pub open spec fn replay_run(
    t: MappedTerrain,
    acts: Seq<Action>,
    start: Position,
    o: Orientation,
    ws: WorldSize,
    target: Position,
    i: nat,
) -> (Position, Orientation, bool, Seq<Action>)
    decreases i,
{
    if i == 0 {
        (start, o, false, Seq::empty())
    } else {
        replay_step(t, acts[i - 1], replay_run(t, acts, start, o, ws, target, (i - 1) as nat), ws, target)
    }
}

/// The actions a replay of the whole sequence keeps.
pub open spec fn replay_kept(
    t: MappedTerrain,
    acts: Seq<Action>,
    start: Position,
    o: Orientation,
    ws: WorldSize,
    target: Position,
) -> Seq<Action> {
    replay_run(t, acts, start, o, ws, target, acts.len()).3
}

/// A stopped replay stays as it is.
proof fn lemma_replay_stays_stopped(
    t: MappedTerrain,
    acts: Seq<Action>,
    start: Position,
    o: Orientation,
    ws: WorldSize,
    target: Position,
    i: nat,
    j: nat,
)
    requires
        i <= j,
        replay_run(t, acts, start, o, ws, target, i).2,
    ensures
        replay_run(t, acts, start, o, ws, target, j) == replay_run(t, acts, start, o, ws, target, i),
    decreases j - i,
{
    if j > i {
        lemma_replay_stays_stopped(t, acts, start, o, ws, target, i, (j - 1) as nat);
    }
}

impl MappedTerrain {
    /// The actions replayed from where the tank stands, kept up to the first move that
    /// would leave open ground: a forward move may also enter the target cell, a backward
    /// move only open field.
    fn replay_safely(
        &self,
        actions: &Vec<Action>,
        start: Position,
        orientation: Orientation,
        ws: &WorldSize,
        target: &Position,
    ) -> (r: Vec<Action>)
        requires
            *ws == self.size(),
            unexplored_at(*self, *target),
        ensures
            safe_replay(*self, r@, start, orientation, *ws),
            turns_and_forward_moves(actions@) ==> turns_and_forward_moves(r@),
            actions@.len() > 0 && (actions@[0] is Rotate || (actions@[0] == Action::Move(Direction::Forward) && forward_entry_ok(
                *self,
                start,
                orientation,
                *ws,
                *target,
            ))) ==> r@.len() > 0,
            r@ == replay_kept(*self, actions@, start, orientation, *ws, *target),
    {
        let ghost first_ok = actions@.len() > 0 && (actions@[0] is Rotate || (actions@[0]
            == Action::Move(Direction::Forward) && forward_entry_ok(*self, start, orientation, *ws, *target)));
        let mut sim_pos = start;
        let mut sim_ori = orientation;
        let mut safe_actions: Vec<Action> = Vec::new();
        let mut stopped = false;
        let mut i: usize = 0;
        while i < actions.len() && !stopped
            invariant
                *ws == self.size(),
                unexplored_at(*self, *target),
                i <= actions@.len(),
                safe_replay(*self, safe_actions@, start, orientation, *ws),
                (sim_pos, sim_ori) == replay_state(safe_actions@, start, orientation, *ws),
                turns_and_forward_moves(actions@) ==> turns_and_forward_moves(safe_actions@),
                i == 0 ==> safe_actions@.len() == 0 && !stopped,
                first_ok == (actions@.len() > 0 && (actions@[0] is Rotate || (actions@[0]
                    == Action::Move(Direction::Forward) && forward_entry_ok(*self, start, orientation, *ws, *target)))),
                i > 0 && first_ok ==> safe_actions@.len() > 0,
                (sim_pos, sim_ori, stopped, safe_actions@) == replay_run(
                    *self,
                    actions@,
                    start,
                    orientation,
                    *ws,
                    *target,
                    i as nat,
                ),
            decreases actions@.len() - i,
        {
            let ghost before = safe_actions@;
            let action = actions[i];
            match action {
                Action::Move(Direction::Forward) => {
                    if let Some(new_pos) = sim_pos.follow(&sim_ori, ws) {
                        if self.is_position_transitable(&new_pos) || new_pos == *target {
                            sim_pos = new_pos;
                            safe_actions.push(action);
                            proof {
                                assert(safe_actions@.drop_last() =~= before);
                            }
                        } else {
                            stopped = true;
                        }
                    }
                },
                Action::Move(Direction::Backward) => {
                    let back = sim_ori.opposite();
                    if let Some(new_pos) = sim_pos.follow(&back, ws) {
                        if self.is_position_transitable(&new_pos) {
                            sim_pos = new_pos;
                            safe_actions.push(action);
                            proof {
                                assert(safe_actions@.drop_last() =~= before);
                            }
                        } else {
                            stopped = true;
                        }
                    }
                },
                Action::Rotate(rotation) => {
                    sim_ori = match rotation {
                        Rotation::Clockwise => sim_ori.rotated_clockwise(),
                        Rotation::CounterClockwise => sim_ori.rotated_counter_clockwise(),
                    };
                    safe_actions.push(action);
                    proof {
                        assert(safe_actions@.drop_last() =~= before);
                    }
                },
                _ => {},
            }
            proof {
                if turns_and_forward_moves(actions@) {
                    assert(actions@[i as int] is Rotate || actions@[i as int] == Action::Move(Direction::Forward));
                    assert forall|j: int| 0 <= j < safe_actions@.len() implies (
                        #[trigger] safe_actions@[j] is Rotate || safe_actions@[j] == Action::Move(
                            Direction::Forward,
                        )) by {
                        if j < before.len() {
                            assert(safe_actions@[j] == before[j]);
                        }
                    }
                }
            }
            proof {
                assert(replay_run(*self, actions@, start, orientation, *ws, *target, (i + 1) as nat)
                    == replay_step(
                    *self,
                    actions@[i as int],
                    replay_run(*self, actions@, start, orientation, *ws, *target, i as nat),
                    *ws,
                    *target,
                ));
            }
            i = i + 1;
        }
        proof {
            if i < actions@.len() {
                lemma_replay_stays_stopped(
                    *self,
                    actions@,
                    start,
                    orientation,
                    *ws,
                    *target,
                    i as nat,
                    actions@.len(),
                );
            }
        }
        safe_actions
    }

    /// The way to one candidate cell: the path found over the map from the tank's cell,
    /// when every cell of it before the target is open field, driven along and kept up to
    /// the first move that would leave open ground; none when no such way gives an action.
    fn way_to(&self, my_pos: Position, my_ori: Orientation, world_size: WorldSize, target: Position) -> (r:
        Option<Vec<Action>>)
        requires
            world_size == self.size(),
            self.covers(my_pos),
            unexplored_at(*self, target),
        ensures
            r matches Some(acts) ==> acts@.len() > 0 && turns_and_forward_moves(acts@) && safe_replay(
                *self,
                acts@,
                my_pos,
                my_ori,
                world_size,
            ),
            !transitable(self.tile(my_pos.x as int, my_pos.y as int)) ==> r is None,
            small_world(world_size) && transitable(self.tile(my_pos.x as int, my_pos.y as int))
                && sole_unexplored(*self, target) && route_exists(self, my_pos, target, world_size)
                ==> r is Some,
            exists|reverse: Seq<Position>|
                found_path(self, my_pos, target, world_size, reverse) && actions_of(r) == way_from(
                    *self,
                    my_pos,
                    my_ori,
                    world_size,
                    target,
                    reverse,
                ),
    {
        let reverse = PathFinder::find_path(self, &my_pos, &target, &my_ori, &world_size);
        let ghost owed = small_world(world_size) && transitable(self.tile(my_pos.x as int, my_pos.y as int))
            && sole_unexplored(*self, target) && route_exists(self, my_pos, target, world_size);
        proof {
            if owed {
                assert(my_pos != target);
            }
        }
        if reverse.len() == 0 {
            proof {
                assert(actions_of(None) == way_from(*self, my_pos, my_ori, world_size, target, reverse@));
            }
            return None;
        }
        let rev_len = reverse.len();
        let mut path: Vec<Position> = Vec::new();
        path.push(my_pos);
        let mut k: usize = rev_len;
        while k > 0
            invariant
                k <= rev_len,
                rev_len == reverse@.len(),
                world_size == self.size(),
                self.covers(my_pos),
                is_reverse_path(self, reverse@, my_pos, target, world_size),
                path@.len() == 1 + rev_len - k,
                path@[0] == my_pos,
                forall|j: int| 1 <= j < path@.len() ==> #[trigger] path@[j] == reverse@[rev_len - j],
                forall|j: int| 0 <= j < path@.len() ==> self.covers(#[trigger] path@[j]),
            decreases k,
        {
            let ghost before = path@;
            path.push(reverse[k - 1]);
            proof {
                assert(reverse@[k - 1].inside(world_size));
                assert forall|j: int| 0 <= j < path@.len() implies self.covers(#[trigger] path@[j]) by {
                    if j < before.len() {
                        assert(path@[j] == before[j]);
                    } else {
                        assert(path@[j] == reverse@[k - 1]);
                    }
                }
                assert forall|j: int| 1 <= j < path@.len() implies #[trigger] path@[j] == reverse@[rev_len - j] by {
                    if j < before.len() {
                        assert(path@[j] == before[j]);
                    }
                }
            }
            k = k - 1;
        }
        proof {
            assert(path@ =~= forward_path(my_pos, reverse@));
        }
        let last = path.len() - 1;
        let mut is_safe = true;
        let mut s: usize = 0;
        while s < last
            invariant
                last == path@.len() - 1,
                s <= last,
                forall|j: int| 0 <= j < path@.len() ==> self.covers(#[trigger] path@[j]),
                is_safe == forall|j: int| 0 <= j < s ==> transitable(#[trigger] self.tile(path@[j].x as int, path@[j].y as int)),
            decreases path@.len() - s,
        {
            if !self.is_position_transitable(&path[s]) {
                is_safe = false;
            }
            s = s + 1;
        }
        proof {
            assert(last >= 1);
            if !transitable(self.tile(my_pos.x as int, my_pos.y as int)) {
                assert(!is_safe);
            }
            if owed {
                assert forall|j: int| 0 <= j < last implies transitable(#[trigger] self.tile(path@[j].x as int, path@[j].y as int)) by {
                    if j > 0 {
                        let m = rev_len - j;
                        assert(path@[j] == reverse@[m]);
                        assert(1 <= m < rev_len);
                        assert(reverse@[m] != reverse@[0]);
                        assert(reverse@[m].inside(world_size));
                        assert(walkable_cell(self.cell_spec(reverse@[m])));
                        lemma_walkable_is_open(*self, target, reverse@[m]);
                    }
                }
                assert(is_safe);
            }
        }
        if is_safe && path.len() > 1 {
            let actions = Self::path_actions(&path, my_ori);
            proof {
                if owed && actions@[0] == Action::Move(Direction::Forward) {
                    assert(path@[1] == reverse@[rev_len - 1]);
                    assert(reverse@.last().touches(my_pos));
                    lemma_heading_steps(my_pos, path@[1], world_size);
                    if last > 1 {
                        assert(transitable(self.tile(path@[1].x as int, path@[1].y as int)));
                    } else {
                        assert(path@[1] == target);
                    }
                }
            }
            let safe_actions = self.replay_safely(&actions, my_pos, my_ori, &world_size, &target);
            if safe_actions.len() > 0 {
                proof {
                    assert(actions_of(Some(safe_actions)) == way_from(
                        *self,
                        my_pos,
                        my_ori,
                        world_size,
                        target,
                        reverse@,
                    ));
                }
                return Some(safe_actions);
            }
        }
        proof {
            assert(actions_of(None) == way_from(*self, my_pos, my_ori, world_size, target, reverse@));
        }
        None
    }

    /// A way towards the nearest unexplored cell that lies next to open field: the
    /// candidates are tried nearest first, each along a path found over the map whose
    /// cells before the target are all open field, and the path's actions are kept up to
    /// the first move that would leave open ground. None when no candidate gives an
    /// action.
    pub fn actions_to_nearest_unexplored(&self, context: &Context) -> (r: Option<Vec<Action>>)
        requires
            context.world_size_spec() == self.size(),
            self.covers(context.position_spec()),
        ensures
            (forall|p: Position|
                unexplored_at(*self, p) ==> !open_neighbour(*self, p, context.world_size_spec()))
                ==> r is None,
            !transitable(self.tile(context.position_spec().x as int, context.position_spec().y as int))
                ==> r is None,
            small_world(context.world_size_spec()) && transitable(
                self.tile(context.position_spec().x as int, context.position_spec().y as int),
            ) && (exists|c: Position|
                sole_unexplored(*self, c) && route_exists(
                    self,
                    context.position_spec(),
                    c,
                    context.world_size_spec(),
                )) ==> r is Some,
            r matches Some(acts) ==> acts@.len() > 0 && turns_and_forward_moves(acts@) && safe_replay(
                *self,
                acts@,
                context.position_spec(),
                context.details().orientation,
                context.world_size_spec(),
            ),
            exists|cands: Seq<Position>, reverses: Seq<Seq<Position>>|
                {
                    &&& candidates_in_order(*self, context.position_spec(), context.world_size_spec(), cands)
                    &&& reverses.len() <= cands.len()
                    &&& forall|i: int|
                        0 <= i < reverses.len() ==> found_path(
                            self,
                            context.position_spec(),
                            cands[i],
                            context.world_size_spec(),
                            #[trigger] reverses[i],
                        )
                    &&& actions_of(r) == first_way(
                        *self,
                        context.position_spec(),
                        context.details().orientation,
                        context.world_size_spec(),
                        cands,
                        reverses,
                    )
                    &&& r is None ==> reverses.len() == cands.len()
                },
    {
        let my_pos = *context.position();
        let my_ori = context.player_details().orientation;
        let world_size = *context.world_size();
        let ghost owed = small_world(world_size) && transitable(
            self.tile(my_pos.x as int, my_pos.y as int),
        ) && (exists|c: Position| sole_unexplored(*self, c) && route_exists(self, my_pos, c, world_size));
        let ghost sole = choose|c: Position| sole_unexplored(*self, c) && route_exists(self, my_pos, c, world_size);

        let unexplored = self.unexplored_cells();
        let mut reachable: Vec<Position> = Vec::new();
        let mut u: usize = 0;
        while u < unexplored.len()
            invariant
                world_size == self.size(),
                u <= unexplored@.len(),
                forall|j: int| 0 <= j < unexplored@.len() ==> unexplored_at(*self, #[trigger] unexplored@[j]),
                forall|j: int| 0 <= j < reachable@.len() ==> unexplored_at(*self, #[trigger] reachable@[j]),
                (forall|j: int| 0 <= j < u ==> !open_neighbour(*self, #[trigger] unexplored@[j], world_size))
                    ==> reachable@.len() == 0,
                forall|j: int|
                    0 <= j < u && open_neighbour(*self, #[trigger] unexplored@[j], world_size)
                        ==> reachable@.contains(unexplored@[j]),
                forall|j: int| 0 <= j < reachable@.len() ==> open_neighbour(*self, #[trigger] reachable@[j], world_size),
                forall|a: int, b: int|
                    0 <= a < b < unexplored@.len() ==> row_major_before(#[trigger] unexplored@[a], #[trigger] unexplored@[b]),
                forall|a: int, b: int|
                    0 <= a < b < reachable@.len() ==> row_major_before(#[trigger] reachable@[a], #[trigger] reachable@[b]),
                forall|j: int, w: int|
                    0 <= j < reachable@.len() && u <= w < unexplored@.len() ==> row_major_before(
                        #[trigger] reachable@[j],
                        #[trigger] unexplored@[w],
                    ),
            decreases unexplored@.len() - u,
        {
            let cell = unexplored[u];
            if self.touches_transitable(&cell, &world_size) {
                let ghost before = reachable@;
                reachable.push(cell);
                proof {
                    assert(reachable@[reachable@.len() - 1] == cell);
                    assert forall|j: int| 0 <= j < reachable@.len() implies unexplored_at(
                        *self,
                        #[trigger] reachable@[j],
                    ) by {
                        if j < before.len() {
                            assert(reachable@[j] == before[j]);
                        }
                    }
                    assert forall|j: int| 0 <= j < reachable@.len() implies open_neighbour(
                        *self,
                        #[trigger] reachable@[j],
                        world_size,
                    ) by {
                        if j < before.len() {
                            assert(reachable@[j] == before[j]);
                        }
                    }
                    assert forall|a: int, b: int|
                        0 <= a < b < reachable@.len() implies row_major_before(
                            #[trigger] reachable@[a],
                            #[trigger] reachable@[b],
                        ) by {
                        assert(reachable@[a] == before[a]);
                        if b < before.len() {
                            assert(reachable@[b] == before[b]);
                        }
                    }
                    assert forall|j: int, w: int|
                        0 <= j < reachable@.len() && u + 1 <= w < unexplored@.len() implies row_major_before(
                            #[trigger] reachable@[j],
                            #[trigger] unexplored@[w],
                        ) by {
                        if j < before.len() {
                            assert(reachable@[j] == before[j]);
                        }
                    }
                    assert forall|j: int|
                        0 <= j < u + 1 && open_neighbour(*self, #[trigger] unexplored@[j], world_size)
                            implies reachable@.contains(unexplored@[j]) by {
                        if j < u {
                            let w = choose|w: int| 0 <= w < before.len() && before[w] == unexplored@[j];
                            assert(reachable@[w] == unexplored@[j]);
                        }
                    }
                }
            }
            u = u + 1;
        }
        let sorted = self.nearest_first(&my_pos, &reachable);
        let ghost none_owed = forall|p: Position|
            unexplored_at(*self, p) ==> !open_neighbour(*self, p, context.world_size_spec());
        proof {
            assert forall|j: int| 0 <= j < sorted@.len() implies unexplored_at(*self, #[trigger] sorted@[j])
                && open_neighbour(*self, sorted@[j], world_size) by {
                assert(reachable@.contains(sorted@[j]));
                let w = choose|w: int| 0 <= w < reachable@.len() && reachable@[w] == sorted@[j];
                assert(open_neighbour(*self, reachable@[w], world_size));
            }
            assert forall|p: Position| unexplored_at(*self, p) && open_neighbour(*self, p, world_size)
                implies #[trigger] sorted@.contains(p) by {
                assert(unexplored@.contains(p));
                let w = choose|w: int| 0 <= w < unexplored@.len() && unexplored@[w] == p;
                assert(open_neighbour(*self, unexplored@[w], world_size));
                assert(reachable@.contains(p));
                let v = choose|v: int| 0 <= v < reachable@.len() && reachable@[v] == p;
                assert(sorted@.contains(reachable@[v]));
            }
            assert(candidates_in_order(*self, my_pos, world_size, sorted@));
        }
        let ghost mut reverses: Seq<Seq<Position>> = Seq::empty();
        proof {
            if none_owed {
                assert forall|j: int| 0 <= j < unexplored@.len() implies !open_neighbour(
                    *self,
                    #[trigger] unexplored@[j],
                    world_size,
                ) by {
                    assert(unexplored_at(*self, unexplored@[j]));
                }
                assert(sorted@.len() == 0);
            }
            if owed {
                let c = sole;
                assert(sole_unexplored(*self, c) && route_exists(self, my_pos, c, world_size));
                lemma_sole_candidate_has_open_neighbour(*self, my_pos, c, world_size);
                assert(unexplored@.contains(c));
                let w = choose|w: int| 0 <= w < unexplored@.len() && unexplored@[w] == c;
                assert(open_neighbour(*self, unexplored@[w], world_size));
                assert(reachable@.contains(c));
                let v = choose|v: int| 0 <= v < reachable@.len() && reachable@[v] == c;
                assert(sorted@.contains(reachable@[v]));
                assert(sorted@.len() > 0);
                assert(unexplored_at(*self, sorted@[0]));
            }
        }

        let mut t: usize = 0;
        while t < sorted.len()
            invariant
                world_size == self.size(),
                world_size == context.world_size_spec(),
                my_pos == context.position_spec(),
                my_ori == context.details().orientation,
                self.covers(my_pos),
                forall|j: int| 0 <= j < sorted@.len() ==> unexplored_at(*self, #[trigger] sorted@[j]),
                none_owed ==> sorted@.len() == 0,
                none_owed == (forall|p: Position|
                    unexplored_at(*self, p) ==> !open_neighbour(*self, p, context.world_size_spec())),
                owed ==> t == 0 && sorted@.len() > 0 && sole_unexplored(*self, sole) && route_exists(
                    self,
                    my_pos,
                    sole,
                    world_size,
                ),
                owed ==> small_world(world_size) && transitable(self.tile(my_pos.x as int, my_pos.y as int)),
                !transitable(self.tile(my_pos.x as int, my_pos.y as int)) ==> !owed,
                t <= sorted@.len(),
                candidates_in_order(*self, my_pos, world_size, sorted@),
                reverses.len() == t,
                forall|i: int|
                    0 <= i < reverses.len() ==> found_path(self, my_pos, sorted@[i], world_size, #[trigger] reverses[i]),
                first_way(*self, my_pos, my_ori, world_size, sorted@, reverses) is None,
            decreases sorted@.len() - t,
        {
            let target = sorted[t];
            proof {
                if owed {
                    assert(unexplored_at(*self, target));
                    assert(target == sole);
                }
            }
            let way = self.way_to(my_pos, my_ori, world_size, target);
            let ghost rv = choose|rev: Seq<Position>|
                found_path(self, my_pos, target, world_size, rev) && actions_of(way) == way_from(
                    *self,
                    my_pos,
                    my_ori,
                    world_size,
                    target,
                    rev,
                );
            let ghost before = reverses;
            proof {
                reverses = reverses.push(rv);
                assert(reverses.drop_last() =~= before);
                assert forall|i: int| 0 <= i < reverses.len() implies found_path(
                    self,
                    my_pos,
                    sorted@[i],
                    world_size,
                    #[trigger] reverses[i],
                ) by {
                    if i < before.len() {
                        assert(reverses[i] == before[i]);
                    }
                }
                assert(first_way(*self, my_pos, my_ori, world_size, sorted@, reverses) == actions_of(way));
            }
            if let Some(acts) = way {
                return Some(acts);
            }
            t = t + 1;
        }
        None
    }
}

/// An unexplored cell that can be reached over the walkable cells of a map whose only
/// unexplored cell it is lies next to open field, when the start is open field.
proof fn lemma_sole_candidate_has_open_neighbour(t: MappedTerrain, from: Position, c: Position, ws: WorldSize)
    requires
        ws == t.size(),
        t.covers(from),
        transitable(t.tile(from.x as int, from.y as int)),
        sole_unexplored(t, c),
        route_exists(&t, from, c, ws),
    ensures
        open_neighbour(t, c, ws),
{
    let path = choose|path: Seq<Position>|
        path.len() > 0 && #[trigger] is_reverse_path(&t, path, from, c, ws);
    assert(path[0] == c);
    assert(path[0].inside(ws));
    if path.len() == 1 {
        assert(path.last().touches(from));
        assert(from.touches(c));
        lemma_heading_steps(c, from, ws);
        let o = heading_spec(c, from);
        assert(c.followed(o, ws) is Some);
    } else {
        let i = 0int;
        assert(path[i].touches(path[i + 1]));
        assert(path[1].inside(ws));
        assert(walkable_cell(t.cell_spec(path[1])));
        lemma_walkable_is_open(t, c, path[1]);
        lemma_heading_steps(c, path[1], ws);
        let o = heading_spec(c, path[1]);
        assert(c.followed(o, ws) is Some);
    }
}

/// How many of the cells next to `pos`, over the first `k` compass directions from
/// North clockwise, are open field.
pub open spec fn open_around(t: MappedTerrain, pos: Position, ws: WorldSize, k: nat) -> nat
    decreases k,
{
    if k == 0 {
        0
    } else {
        let o = orientation_at(k - 1);
        open_around(t, pos, ws, (k - 1) as nat) + if pos.followed(o, ws) is Some && transitable(
            t.tile(pos.followed(o, ws)->0.x as int, pos.followed(o, ws)->0.y as int),
        ) {
            1nat
        } else {
            0nat
        }
    }
}

/// The index of the first occurrence of `p` in `s`.
pub open spec fn first_index(s: Seq<Position>, p: Position) -> int {
    choose|i: int| 0 <= i < s.len() && s[i] == p && forall|j: int| 0 <= j < i ==> s[j] != p
}

/// The choke points after a cell was seen: an open cell with at most two open
/// neighbours joins them (once), an open cell with more leaves them, and any other cell
/// changes nothing.
pub open spec fn choke_update(chokes: Seq<Position>, t: MappedTerrain, pos: Position) -> Seq<Position> {
    if !transitable(t.tile(pos.x as int, pos.y as int)) {
        chokes
    } else if open_around(t, pos, t.size(), 8) <= 2 {
        if chokes.contains(pos) {
            chokes
        } else {
            chokes.push(pos)
        }
    } else if chokes.contains(pos) {
        chokes.remove(first_index(chokes, pos))
    } else {
        chokes
    }
}

impl MappedTerrain {
    /// Replaces the tile of one cell.
    fn set_tile(&mut self, x: usize, y: usize, tile: WorldTile)
        requires
            x < old(self).size().x,
            y < old(self).size().y,
        ensures
            final(self).size() == old(self).size(),
            final(self).chokes() == old(self).chokes(),
            forall|cx: int, cy: int|
                0 <= cx < old(self).size().x && 0 <= cy < old(self).size().y ==> #[trigger] final(self).tile(cx, cy)
                    == if cx == x && cy == y {
                    tile
                } else {
                    old(self).tile(cx, cy)
                },
    {
        proof {
            use_type_invariant(&*self);
        }
        let mut map: Vec<Vec<WorldTile>> = Vec::new();
        std::mem::swap(&mut map, &mut self.map);
        let ghost before = map@;
        let mut row = map[y].clone();
        proof {
            assert(row@ =~= before[y as int]@);
        }
        row.set(x, tile);
        map.set(y, row);
        proof {
            assert forall|k: int| 0 <= k < map@.len() implies (#[trigger] map@[k])@.len() == map@[0]@.len() by {
                if k != y {
                    assert(map@[k] == before[k]);
                }
                if y != 0 {
                    assert(map@[0] == before[0]);
                }
            }
        }
        self.map = map;
        proof {
            assert forall|cx: int, cy: int|
                0 <= cx < old(self).size().x && 0 <= cy < old(self).size().y implies #[trigger] self.tile(
                cx,
                cy,
            ) == if cx == x && cy == y {
                tile
            } else {
                old(self).tile(cx, cy)
            } by {
                if cy != y {
                    assert(self.map@[cy] == before[cy]);
                }
            }
        }
    }

    /// How many cells next to `pos` are open field.
    fn count_open_around(&self, pos: &Position, ws: &WorldSize) -> (r: usize)
        requires
            *ws == self.size(),
        ensures
            r == open_around(*self, *pos, *ws, 8),
    {
        let mut orientation = Orientation::North;
        let mut count: usize = 0;
        let mut k: usize = 0;
        while k < 8
            invariant
                *ws == self.size(),
                k <= 8,
                k < 8 ==> orientation == orientation_at(k as int),
                count == open_around(*self, *pos, *ws, k as nat),
                count <= k,
            decreases 8 - k,
        {
            if let Some(next) = pos.follow(&orientation, ws) {
                if self.is_position_transitable(&next) {
                    count = count + 1;
                }
            }
            orientation = orientation.rotated_clockwise();
            k = k + 1;
        }
        count
    }

    /// Keeps the choke points up to date for a cell just seen.
    fn update_chokepoint_detection(&mut self, pos: &Position)
        requires
            old(self).covers(*pos),
        ensures
            final(self).size() == old(self).size(),
            forall|x: int, y: int| #[trigger] final(self).tile(x, y) == old(self).tile(x, y),
            final(self).chokes() == choke_update(old(self).chokes(), *old(self), *pos),
    {
        proof {
            use_type_invariant(&*self);
        }
        if !self.is_position_transitable(pos) {
            return;
        }
        let world_size = self.world_size();
        let exit_paths = self.count_open_around(pos, &world_size);
        if exit_paths <= 2 {
            if !self.is_choke_point(pos) {
                let mut chokes: Vec<Position> = Vec::new();
                std::mem::swap(&mut chokes, &mut self.choke_points);
                chokes.push(*pos);
                self.choke_points = chokes;
            }
        } else {
            let mut i: usize = 0;
            while i < self.choke_points.len() && self.choke_points[i] != *pos
                invariant
                    i <= self.choke_points@.len(),
                    forall|j: int| 0 <= j < i ==> self.choke_points@[j] != *pos,
                decreases self.choke_points@.len() - i,
            {
                i = i + 1;
            }
            if i < self.choke_points.len() {
                proof {
                    let c = self.choke_points@;
                    assert(c.contains(*pos));
                    let f = first_index(c, *pos);
                    assert(0 <= i < c.len() && c[i as int] == *pos && forall|j: int|
                        0 <= j < i ==> c[j] != *pos);
                    if f < i {
                        assert(c[f] == *pos);
                    } else if f > i {
                        assert(c[i as int] != *pos);
                    }
                }
                let mut chokes: Vec<Position> = Vec::new();
                std::mem::swap(&mut chokes, &mut self.choke_points);
                chokes.remove(i);
                self.choke_points = chokes;
            } else {
                proof {
                    assert(!self.choke_points@.contains(*pos));
                }
            }
        }
    }

    /// Records what a scan showed of a cell at a turn: its ground, the turn, one more
    /// sighting; then the choke points are brought up to date for it.
    pub fn update_tile(&mut self, pos: &Position, cell: &MapCell, turn: usize)
        requires
            old(self).covers(*pos),
            old(self).tile(pos.x as int, pos.y as int).times_seen < u32::MAX,
        ensures
            final(self).size() == old(self).size(),
            forall|x: int, y: int|
                0 <= x < old(self).size().x && 0 <= y < old(self).size().y ==> #[trigger] final(self).tile(x, y)
                    == if x == pos.x && y == pos.y {
                    WorldTile {
                        surface: surface_of(*cell),
                        last_seen_turn: turn,
                        times_seen: (old(self).tile(x, y).times_seen + 1) as u32,
                        ..old(self).tile(x, y)
                    }
                } else {
                    old(self).tile(x, y)
                },
            final(self).chokes() == choke_update(old(self).chokes(), *final(self), *pos),
    {
        proof {
            use_type_invariant(&*self);
        }
        let mut tile = self.map[pos.y][pos.x];
        tile.surface = cell.to_surface();
        tile.last_seen_turn = turn;
        tile.times_seen = tile.times_seen + 1;
        self.set_tile(pos.x, pos.y, tile);
        let ghost mid = *self;
        self.update_chokepoint_detection(pos);
        proof {
            assert forall|x: int, y: int| 0 <= x < mid.size().x && 0 <= y < mid.size().y implies #[trigger] self.tile(x, y) == mid.tile(x, y) by {
            }
            assert(open_around(*self, *pos, self.size(), 8) == open_around(mid, *pos, mid.size(), 8)) by {
                lemma_open_around_same(*self, mid, *pos, self.size(), 8);
            }
        }
    }

    /// Whether some cell next to `pos` is forest.
    pub fn has_adjacent_forest(&self, pos: &Position, world_size: &WorldSize) -> (r: bool)
        requires
            *world_size == self.size(),
        ensures
            r == exists|o: Orientation|
                #[trigger] pos.followed(o, *world_size) is Some && self.tile(
                    pos.followed(o, *world_size)->0.x as int,
                    pos.followed(o, *world_size)->0.y as int,
                ).surface is Terrain && self.tile(
                    pos.followed(o, *world_size)->0.x as int,
                    pos.followed(o, *world_size)->0.y as int,
                ).surface->0 is Forest,
    {
        proof {
            use_type_invariant(self);
        }
        let mut orientation = Orientation::North;
        let mut k: usize = 0;
        while k < 8
            invariant
                *world_size == self.size(),
                k <= 8,
                k < 8 ==> orientation == orientation_at(k as int),
                forall|y: int| 0 <= y < self.map@.len() ==> (#[trigger] self.map@[y])@.len() == self.map@[0]@.len(),
                forall|o: Orientation|
                    orientation_index(o) < k ==> !(#[trigger] pos.followed(o, *world_size) is Some && self.tile(
                        pos.followed(o, *world_size)->0.x as int,
                        pos.followed(o, *world_size)->0.y as int,
                    ).surface is Terrain && self.tile(
                        pos.followed(o, *world_size)->0.x as int,
                        pos.followed(o, *world_size)->0.y as int,
                    ).surface->0 is Forest),
            decreases 8 - k,
        {
            if let Some(adj) = pos.follow(&orientation, world_size) {
                if let Surface::Terrain(Terrain::Forest(_)) = self.map[adj.y][adj.x].surface {
                    return true;
                }
            }
            orientation = orientation.rotated_clockwise();
            k = k + 1;
        }
        proof {
            assert forall|o: Orientation|
                !(#[trigger] pos.followed(o, *world_size) is Some && self.tile(
                    pos.followed(o, *world_size)->0.x as int,
                    pos.followed(o, *world_size)->0.y as int,
                ).surface is Terrain && self.tile(
                    pos.followed(o, *world_size)->0.x as int,
                    pos.followed(o, *world_size)->0.y as int,
                ).surface->0 is Forest) by {
                assert(orientation_index(o) < 8);
            }
        }
        false
    }
}

/// Two maps of one size that agree on every cell count the same open neighbours.
proof fn lemma_open_around_same(a: MappedTerrain, b: MappedTerrain, pos: Position, ws: WorldSize, k: nat)
    requires
        a.size() == ws,
        b.size() == ws,
        forall|x: int, y: int| 0 <= x < ws.x && 0 <= y < ws.y ==> #[trigger] a.tile(x, y) == b.tile(x, y),
    ensures
        open_around(a, pos, ws, k) == open_around(b, pos, ws, k),
    decreases k,
{
    if k > 0 {
        lemma_open_around_same(a, b, pos, ws, (k - 1) as nat);
        let o = orientation_at(k - 1);
        if pos.followed(o, ws) is Some {
            let n = pos.followed(o, ws)->0;
            assert(a.tile(n.x as int, n.y as int) == b.tile(n.x as int, n.y as int));
        }
    }
}

/// How many cells of row `y` from column `x0` to column `x1` are unexplored.
pub open spec fn row_unexplored(t: MappedTerrain, y: int, x0: int, x1: int) -> nat
    decreases x1 - x0 + 1,
{
    if x1 < x0 {
        0
    } else {
        row_unexplored(t, y, x0, x1 - 1) + if t.tile(x1, y).surface == Surface::Unallocated {
            1nat
        } else {
            0nat
        }
    }
}

/// How many cells of the rectangle between columns `x0`, `x1` and rows `y0`, `y1` are
/// unexplored.
pub open spec fn rect_unexplored(t: MappedTerrain, x0: int, x1: int, y0: int, y1: int) -> nat
    decreases y1 - y0 + 1,
{
    if y1 < y0 {
        0
    } else {
        rect_unexplored(t, x0, x1, y0, y1 - 1) + row_unexplored(t, y1, x0, x1)
    }
}

/// The first inner row or column within `radius` of `c`.
pub open spec fn near_low(c: int, radius: int) -> int {
    if c - radius > 1 {
        c - radius
    } else {
        1
    }
}

/// The last inner row or column within `radius` of `c`, in a world `extent` long.
pub open spec fn near_high(c: int, radius: int, extent: int) -> int {
    if c + radius < extent - 2 {
        c + radius
    } else {
        extent - 2
    }
}

impl MappedTerrain {
    /// The choke points, in the order they were found.
    pub fn choke_points(&self) -> (r: &Vec<Position>)
        ensures
            r@ == self.chokes(),
    {
        &self.choke_points
    }

    /// How many unexplored cells lie within `radius` rows and columns of `pos`, off the
    /// outer ring of the world; a count past `usize::MAX` shows as `usize::MAX`.
    pub fn count_nearby_unexplored(&self, pos: &Position, radius: usize) -> (r: usize)
        requires
            spans_two(self.size()),
            pos.x + radius <= usize::MAX,
            pos.y + radius <= usize::MAX,
        ensures
            r == capped(
                rect_unexplored(
                    *self,
                    near_low(pos.x as int, radius as int),
                    near_high(pos.x as int, radius as int, self.size().x as int),
                    near_low(pos.y as int, radius as int),
                    near_high(pos.y as int, radius as int, self.size().y as int),
                ),
            ),
    {
        proof {
            use_type_invariant(self);
        }
        let world_size = self.world_size();
        let min_y = if pos.y > radius && pos.y - radius > 1 { pos.y - radius } else { 1 };
        let max_y = if pos.y + radius < world_size.y - 2 { pos.y + radius } else { world_size.y - 2 };
        let min_x = if pos.x > radius && pos.x - radius > 1 { pos.x - radius } else { 1 };
        let max_x = if pos.x + radius < world_size.x - 2 { pos.x + radius } else { world_size.x - 2 };
        let mut count: usize = 0;
        let mut y = min_y;
        while y <= max_y
            invariant
                self.size() == world_size,
                spans_two(world_size),
                forall|k: int| 0 <= k < self.map@.len() ==> (#[trigger] self.map@[k])@.len() == self.map@[0]@.len(),
                min_y <= y,
                y <= max_y + 1 || y == min_y,
                max_y <= world_size.y - 2,
                max_x <= world_size.x - 2,
                1 <= min_x,
                count == capped(rect_unexplored(*self, min_x as int, max_x as int, min_y as int, y - 1)),
            decreases max_y + 1 - y,
        {
            let ghost before_row = rect_unexplored(*self, min_x as int, max_x as int, min_y as int, y - 1);
            let mut x = min_x;
            while x <= max_x
                invariant
                    self.size() == world_size,
                    spans_two(world_size),
                    forall|k: int| 0 <= k < self.map@.len() ==> (#[trigger] self.map@[k])@.len() == self.map@[0]@.len(),
                    min_y <= y <= max_y,
                    max_y <= world_size.y - 2,
                    max_x <= world_size.x - 2,
                    1 <= min_x <= x,
                    x <= max_x + 1 || x == min_x,
                    before_row == rect_unexplored(*self, min_x as int, max_x as int, min_y as int, y - 1),
                    count == capped(before_row + row_unexplored(*self, y as int, min_x as int, x - 1)),
                decreases max_x + 1 - x,
            {
                let ghost prev = row_unexplored(*self, y as int, min_x as int, x - 1);
                proof {
                    assert(row_unexplored(*self, y as int, min_x as int, x as int) == prev + if self.tile(
                        x as int,
                        y as int,
                    ).surface == Surface::Unallocated {
                        1nat
                    } else {
                        0nat
                    });
                }
                assert(self.tile(x as int, y as int) == self.map@[y as int]@[x as int]);
                if self.map[y][x].surface == Surface::Unallocated {
                    count = count.saturating_add(1);
                }
                assert(count == capped(before_row + row_unexplored(*self, y as int, min_x as int, x as int)));
                x = x + 1;
            }
            proof {
                assert(rect_unexplored(*self, min_x as int, max_x as int, min_y as int, y as int) == before_row
                    + row_unexplored(*self, y as int, min_x as int, max_x as int));
                if x == min_x && x > max_x + 1 {
                    assert(row_unexplored(*self, y as int, min_x as int, max_x as int) == 0);
                }
            }
            y = y + 1;
        }
        count
    }
}

/// A count, shown as `usize::MAX` past it.
pub open spec fn capped(n: nat) -> int {
    if n < usize::MAX {
        n as int
    } else {
        usize::MAX as int
    }
}

/// A world at least two cells wide and two cells high.
pub open spec fn spans_two(ws: WorldSize) -> bool {
    ws.x >= 2 && ws.y >= 2
}

} // verus!
