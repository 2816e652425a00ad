//! A map of the world as far as it was scanned, with the questions a player asks of it.
use vstd::prelude::*;

use crate::api::{
    action::Action,
    direction::Direction,
    map_cell::{MapCell, Terrain},
    orientation::{orientation_at, orientation_index, quick_turn_spec, Orientation},
    path_finder::{alignment_spec, walkable_cell},
    player::PlayerId,
    position::{
        adjacent_positions, Position, CARDINAL_SHOT_DISTANCE, POSITIONAL_SHOT_DISTANCE,
        SCANNING_DISTANCE,
    },
    rotation::Rotation,
    scan::ScanResult,
    world_size::{WorldSize, MAX_WORLD_SIZE},
};

verus! {

/// A world that the discovered map can hold.
pub open spec fn on_chart(world_size: WorldSize) -> bool {
    world_size.x <= MAX_WORLD_SIZE && world_size.y <= MAX_WORLD_SIZE
}

/// The quadrant in which `to` lies as seen from `from`; the axes count as the side of
/// growing coordinates.
pub open spec fn quadrant_spec(from: Position, to: Position) -> Orientation {
    let dx = from.x - to.x;
    let dy = from.y - to.y;
    if dx < 0 && dy < 0 {
        Orientation::SouthEast
    } else if dx < 0 {
        Orientation::NorthEast
    } else if dy >= 0 {
        Orientation::NorthWest
    } else {
        Orientation::SouthWest
    }
}

/// The action that turns a tank facing `curr` towards `next`: a move when `next` lies
/// straight ahead or behind, else one turn, the short way round when it takes at most two
/// steps and the long way round otherwise.
pub open spec fn reorient_spec(curr: Orientation, next: Orientation) -> Action {
    if next == curr {
        Action::Move(Direction::Forward)
    } else if next == orientation_at((orientation_index(curr) + 4) % 8) {
        Action::Move(Direction::Backward)
    } else if quick_turn_spec(curr, next).1 <= 2 {
        Action::Rotate(quick_turn_spec(curr, next).0)
    } else {
        Action::Rotate(quick_turn_spec(curr, next).0.opposite_spec())
    }
}

/// The orientations worth scanning while heading towards `o`.
pub open spec fn forward_scans_spec(o: Orientation) -> Seq<Orientation> {
    match o {
        Orientation::North => seq![Orientation::NorthEast, Orientation::NorthWest],
        Orientation::NorthEast => seq![Orientation::East, Orientation::NorthEast, Orientation::North],
        Orientation::East => seq![Orientation::SouthEast, Orientation::NorthEast],
        Orientation::SouthEast => seq![Orientation::South, Orientation::SouthEast, Orientation::East],
        Orientation::South => seq![Orientation::SouthWest, Orientation::SouthEast],
        Orientation::SouthWest => seq![Orientation::West, Orientation::SouthWest, Orientation::South],
        Orientation::West => seq![Orientation::NorthWest, Orientation::SouthWest],
        Orientation::NorthWest => seq![Orientation::North, Orientation::NorthWest, Orientation::West],
    }
}

/// The position `steps` steps away from `p` towards `o`, when every step stays in the world.
pub open spec fn walked(p: Position, o: Orientation, steps: nat, world_size: WorldSize) -> Option<
    Position,
>
    decreases steps,
{
    if steps == 0 {
        Some(p)
    } else {
        match walked(p, o, (steps - 1) as nat, world_size) {
            Some(q) => q.followed(o, world_size),
            None => None,
        }
    }
}

/// The positions at `d` steps from `target` in each of the eight orientations, clockwise
/// from North, that lie in the world.
pub open spec fn ring(target: Position, d: nat, world_size: WorldSize, n: nat) -> Seq<Position>
    decreases n,
{
    if n == 0 {
        Seq::empty()
    } else {
        let before = ring(target, d, world_size, (n - 1) as nat);
        match walked(target, orientation_at(n - 1), d, world_size) {
            Some(q) => before.push(q),
            None => before,
        }
    }
}

/// The rings from `POSITIONAL_SHOT_DISTANCE + 1` steps out up to `last` steps out.
pub open spec fn rings(target: Position, world_size: WorldSize, last: nat) -> Seq<Position>
    decreases last,
{
    if last <= POSITIONAL_SHOT_DISTANCE {
        Seq::empty()
    } else {
        rings(target, world_size, (last - 1) as nat) + ring(target, last, world_size, 8)
    }
}

#[derive(Clone)]
pub struct Magellan {
    discovered_map: Box<[[MapCell; MAX_WORLD_SIZE]; MAX_WORLD_SIZE]>,
}

impl Magellan {
    /// The discovered cell at a row and a column.
    pub closed spec fn cell(self, y: int, x: int) -> MapCell {
        self.discovered_map@[y]@[x]
    }

    /// The number of unexplored cells in the first `n` columns of row `y`.
    pub open spec fn unallocated_in_row(self, y: int, n: int) -> nat
        decreases n,
    {
        if n <= 0 {
            0
        } else {
            self.unallocated_in_row(y, n - 1) + if self.cell(y, n - 1) == MapCell::Unallocated {
                1nat
            } else {
                0nat
            }
        }
    }

    /// The number of unexplored cells in the first `rows` rows, `width` columns wide.
    pub open spec fn unallocated_in_rows(self, rows: int, width: int) -> nat
        decreases rows,
    {
        if rows <= 0 {
            0
        } else {
            self.unallocated_in_rows(rows - 1, width) + self.unallocated_in_row(rows - 1, width)
        }
    }

    /// Whether a cell holds a living player other than `ignore_id`.
    pub open spec fn enemy_at(self, y: int, x: int, ignore_id: PlayerId) -> bool {
        match self.cell(y, x) {
            MapCell::Player(details, _) => details.alive && details.id != ignore_id,
            _ => false,
        }
    }

    /// The enemies in the first `n` columns of row `y`, from West to East.
    pub open spec fn enemies_in_row(self, y: int, n: int, ignore_id: PlayerId) -> Seq<Position>
        decreases n,
    {
        if n <= 0 {
            Seq::empty()
        } else {
            let before = self.enemies_in_row(y, n - 1, ignore_id);
            if self.enemy_at(y, n - 1, ignore_id) {
                before.push(Position { x: (n - 1) as usize, y: y as usize })
            } else {
                before
            }
        }
    }

    /// The enemies in the first `rows` rows, row by row.
    pub open spec fn enemies_in_rows(self, rows: int, width: int, ignore_id: PlayerId) -> Seq<
        Position,
    >
        decreases rows,
    {
        if rows <= 0 {
            Seq::empty()
        } else {
            self.enemies_in_rows(rows - 1, width, ignore_id) + self.enemies_in_row(
                rows - 1,
                width,
                ignore_id,
            )
        }
    }

    /// An unexplored cell at the edge of the explored part: one of its neighbours in the
    /// world was explored.
    pub open spec fn frontier(self, p: Position, world_size: WorldSize) -> bool {
        &&& self.cell(p.y as int, p.x as int) == MapCell::Unallocated
        &&& exists|i: int|
            0 <= i < adjacent_positions(p, world_size, 8).len() && self.cell(
                #[trigger] adjacent_positions(p, world_size, 8)[i].y as int,
                adjacent_positions(p, world_size, 8)[i].x as int,
            ) != MapCell::Unallocated
    }

    /// The frontier cells outside `unreachable` in the first `n` columns of row `y`.
    pub open spec fn frontier_in_row(
        self,
        unreachable: Seq<Position>,
        world_size: WorldSize,
        y: int,
        n: int,
    ) -> Seq<Position>
        decreases n,
    {
        if n <= 0 {
            Seq::empty()
        } else {
            let before = self.frontier_in_row(unreachable, world_size, y, n - 1);
            let p = Position { x: (n - 1) as usize, y: y as usize };
            if !unreachable.contains(p) && self.frontier(p, world_size) {
                before.push(p)
            } else {
                before
            }
        }
    }

    /// The frontier cells outside `unreachable` in the first `rows` rows, row by row.
    pub open spec fn frontier_in_rows(
        self,
        unreachable: Seq<Position>,
        world_size: WorldSize,
        rows: int,
    ) -> Seq<Position>
        decreases rows,
    {
        if rows <= 0 {
            Seq::empty()
        } else {
            self.frontier_in_rows(unreachable, world_size, rows - 1) + self.frontier_in_row(
                unreachable,
                world_size,
                rows - 1,
                world_size.x as int,
            )
        }
    }

    /// The positions of `s` whose discovered cells are walkable, in order.
    pub open spec fn walkable_positions(self, s: Seq<Position>) -> Seq<Position>
        decreases s.len(),
    {
        if s.len() == 0 {
            s
        } else {
            let before = self.walkable_positions(s.drop_last());
            if walkable_cell(self.cell(s.last().y as int, s.last().x as int)) {
                before.push(s.last())
            } else {
                before
            }
        }
    }

    pub fn new() -> (r: Self)
        ensures
            forall|y: int, x: int|
                0 <= y < MAX_WORLD_SIZE && 0 <= x < MAX_WORLD_SIZE ==> #[trigger] r.cell(y, x)
                    == MapCell::Unallocated,
    {
        Self { discovered_map: Box::new([[MapCell::Unallocated; MAX_WORLD_SIZE]; MAX_WORLD_SIZE]) }
    }

    /// Reads the discovered map at a position of the map.
    pub fn read_at(&self, position: &Position) -> (r: MapCell)
        requires
            position.y < MAX_WORLD_SIZE,
            position.x < MAX_WORLD_SIZE,
        ensures
            r == self.cell(position.y as int, position.x as int),
    {
        self.validate_coordinates_or_panic(position.y, position.x);
        self.discovered_map[position.y][position.x]
    }

    /// Copies a scan onto the map, with the scan's first cell at the given column and row;
    /// the parts of the scan that fall off the map are dropped.
    pub fn update_map(&mut self, scan_result: &ScanResult, start_x: isize, start_y: isize)
        requires
            start_x <= isize::MAX - SCANNING_DISTANCE,
            start_y <= isize::MAX - SCANNING_DISTANCE,
        ensures
            forall|y: int, x: int|
                0 <= y < MAX_WORLD_SIZE && 0 <= x < MAX_WORLD_SIZE ==> #[trigger] final(self).cell(
                    y,
                    x,
                ) == if 0 <= y - start_y < SCANNING_DISTANCE && 0 <= x - start_x
                    < SCANNING_DISTANCE {
                    scan_result.cell(y - start_y, x - start_x)
                } else {
                    old(self).cell(y, x)
                },
    {
        let ghost before = *self;
        let mut i: usize = 0;
        while i < SCANNING_DISTANCE
            invariant
                i <= SCANNING_DISTANCE,
                start_x <= isize::MAX - SCANNING_DISTANCE,
                start_y <= isize::MAX - SCANNING_DISTANCE,
                forall|y: int, x: int|
                    0 <= y < MAX_WORLD_SIZE && 0 <= x < MAX_WORLD_SIZE ==> #[trigger] self.cell(y, x)
                        == if 0 <= y - start_y < i && 0 <= x - start_x < SCANNING_DISTANCE {
                        scan_result.cell(y - start_y, x - start_x)
                    } else {
                        before.cell(y, x)
                    },
            decreases SCANNING_DISTANCE - i,
        {
            let map_y = start_y + i as isize;

            if map_y >= 0 && map_y < MAX_WORLD_SIZE as isize {
                let mut j: usize = 0;
                while j < SCANNING_DISTANCE
                    invariant
                        i < SCANNING_DISTANCE,
                        j <= SCANNING_DISTANCE,
                        map_y == start_y + i,
                        0 <= map_y < MAX_WORLD_SIZE,
                        start_x <= isize::MAX - SCANNING_DISTANCE,
                        forall|y: int, x: int|
                            0 <= y < MAX_WORLD_SIZE && 0 <= x < MAX_WORLD_SIZE ==> #[trigger] self.cell(
                                y,
                                x,
                            ) == if (0 <= y - start_y < i && 0 <= x - start_x < SCANNING_DISTANCE)
                                || (y == map_y && 0 <= x - start_x < j) {
                                scan_result.cell(y - start_y, x - start_x)
                            } else {
                                before.cell(y, x)
                            },
                    decreases SCANNING_DISTANCE - j,
                {
                    let map_x = start_x + j as isize;

                    if map_x >= 0 && map_x < MAX_WORLD_SIZE as isize {
                        let (longitude, latitude) = (map_x as usize, map_y as usize);
                        let value = scan_result.data[i][j];
                        let ghost prev = *self;
                        let mut row = self.discovered_map[latitude];
                        row[longitude] = value;
                        self.discovered_map[latitude] = row;
                        proof {
                            assert forall|y: int, x: int|
                                0 <= y < MAX_WORLD_SIZE && 0 <= x < MAX_WORLD_SIZE implies #[trigger] self.cell(
                                y,
                                x,
                            ) == if y == latitude && x == longitude {
                                value
                            } else {
                                prev.cell(y, x)
                            } by {
                                if y == latitude {
                                    assert(self.discovered_map@[y] == row);
                                } else {
                                    assert(self.discovered_map@[y] == prev.discovered_map@[y]);
                                }
                            }
                        }
                    }
                    j = j + 1;
                }
            }
            i = i + 1;
        }
    }

    /// The quadrant in which `to` lies as seen from `from`.
    pub fn compute_quadrant(&self, from: &Position, to: &Position) -> (r: Orientation)
        requires
            from.fits(),
            to.fits(),
        ensures
            r == quadrant_spec(*from, *to),
    {
        let (dx, dy) = from.manhattan_distance(to);

        if dx < 0 && dy < 0 {
            Orientation::SouthEast
        } else if dx < 0 {
            Orientation::NorthEast
        } else if dy >= 0 {
            Orientation::NorthWest
        } else {
            Orientation::SouthWest
        }
    }

    /// The number of cells of the world that were never explored.
    pub fn count_unallocated_cells(&self, world_size: &WorldSize) -> (r: usize)
        requires
            on_chart(*world_size),
        ensures
            r == self.unallocated_in_rows(world_size.y as int, world_size.x as int),
    {
        let mut count: usize = 0;

        let mut i: usize = 0;
        while i < world_size.y
            invariant
                i <= world_size.y,
                on_chart(*world_size),
                count == self.unallocated_in_rows(i as int, world_size.x as int),
                count <= i * MAX_WORLD_SIZE,
            decreases world_size.y - i,
        {
            let mut j: usize = 0;
            let ghost row_start = count;
            while j < world_size.x
                invariant
                    i < world_size.y,
                    j <= world_size.x,
                    on_chart(*world_size),
                    row_start == self.unallocated_in_rows(i as int, world_size.x as int),
                    row_start <= i * MAX_WORLD_SIZE,
                    count == row_start + self.unallocated_in_row(i as int, j as int),
                    count <= row_start + j,
                decreases world_size.x - j,
            {
                if self.discovered_map[i][j] == MapCell::Unallocated {
                    count += 1;
                }
                j = j + 1;
            }
            proof {
                assert(count <= (i + 1) * MAX_WORLD_SIZE) by (nonlinear_arith)
                    requires
                        count <= row_start + world_size.x,
                        row_start <= i * MAX_WORLD_SIZE,
                        world_size.x <= MAX_WORLD_SIZE,
                ;
            }
            i = i + 1;
        }

        count
    }

    /// The action that turns a tank facing `curr_orientation` towards `next_orientation`.
    pub fn reorient(&self, curr_orientation: &Orientation, next_orientation: &Orientation) -> (r:
        Action)
        ensures
            r == reorient_spec(*curr_orientation, *next_orientation),
    {
        if *next_orientation == *curr_orientation {
            Action::Move(Direction::Forward)
        } else if *next_orientation == curr_orientation.opposite() {
            Action::Move(Direction::Backward)
        } else {
            let (rotation, steps) = curr_orientation.quick_turn(&next_orientation);
            if steps <= 2 {
                Action::Rotate(rotation)
            } else {
                Action::Rotate(rotation.opposite())
            }
        }
    }

    /// The orientation in which `to` lies as seen from `from`, when they share a row, a
    /// column or a diagonal.
    pub fn find_alignment(&self, from: &Position, to: &Position) -> (r: Option<Orientation>)
        ensures
            r == alignment_spec(*from, *to),
    {
        let east_of = to.x > from.x;
        let dx: usize = if east_of {
            to.x - from.x
        } else {
            from.x - to.x
        };
        let south_of = to.y > from.y;
        let dy: usize = if south_of {
            to.y - from.y
        } else {
            from.y - to.y
        };

        if dx == 0 {
            if south_of {
                Some(Orientation::South)
            } else {
                Some(Orientation::North)
            }
        } else if dy == 0 {
            if east_of {
                Some(Orientation::East)
            } else {
                Some(Orientation::West)
            }
        } else if dx == dy {
            if east_of && south_of {
                Some(Orientation::SouthEast)
            } else if east_of {
                Some(Orientation::NorthEast)
            } else if south_of {
                Some(Orientation::SouthWest)
            } else {
                Some(Orientation::NorthWest)
            }
        } else {
            None
        }
    }

    /// The cells of the world that hold a living player other than `ignore_id`, row by row.
    pub fn find_all_enemies(&self, ignore_id: PlayerId, world_size: &WorldSize) -> (r: Vec<
        Position,
    >)
        requires
            on_chart(*world_size),
        ensures
            r@ == self.enemies_in_rows(world_size.y as int, world_size.x as int, ignore_id),
    {
        let mut result: Vec<Position> = Vec::new();

        let mut i: usize = 0;
        while i < world_size.y
            invariant
                i <= world_size.y,
                on_chart(*world_size),
                result@ == self.enemies_in_rows(i as int, world_size.x as int, ignore_id),
            decreases world_size.y - i,
        {
            let mut j: usize = 0;
            let ghost row_start = result@;
            while j < world_size.x
                invariant
                    i < world_size.y,
                    j <= world_size.x,
                    on_chart(*world_size),
                    row_start == self.enemies_in_rows(i as int, world_size.x as int, ignore_id),
                    result@ == row_start + self.enemies_in_row(i as int, j as int, ignore_id),
                decreases world_size.x - j,
            {
                if let MapCell::Player(details, _) = self.discovered_map[i][j] {
                    if details.alive && details.id != ignore_id {
                        result.push(Position { x: j, y: i });
                    }
                }
                proof {
                    assert(self.enemies_in_row(i as int, j + 1, ignore_id) == if self.enemy_at(
                        i as int,
                        j as int,
                        ignore_id,
                    ) {
                        self.enemies_in_row(i as int, j as int, ignore_id).push(
                            Position { x: j, y: i },
                        )
                    } else {
                        self.enemies_in_row(i as int, j as int, ignore_id)
                    });
                    assert(result@ =~= row_start + self.enemies_in_row(
                        i as int,
                        j + 1,
                        ignore_id,
                    ));
                }
                j = j + 1;
            }
            i = i + 1;
        }

        result
    }

    /// The orientations worth scanning while heading towards `orientation`.
    pub fn find_forward_scans(&self, orientation: Orientation) -> (r: Vec<Orientation>)
        ensures
            r@ == forward_scans_spec(orientation),
    {
        let r = match orientation {
            Orientation::North => vec![Orientation::NorthEast, Orientation::NorthWest],
            Orientation::NorthEast => vec![
                Orientation::East,
                Orientation::NorthEast,
                Orientation::North,
            ],
            Orientation::East => vec![Orientation::SouthEast, Orientation::NorthEast],
            Orientation::SouthEast => vec![
                Orientation::South,
                Orientation::SouthEast,
                Orientation::East,
            ],
            Orientation::South => vec![Orientation::SouthWest, Orientation::SouthEast],
            Orientation::SouthWest => vec![
                Orientation::West,
                Orientation::SouthWest,
                Orientation::South,
            ],
            Orientation::West => vec![Orientation::NorthWest, Orientation::SouthWest],
            Orientation::NorthWest => vec![
                Orientation::North,
                Orientation::NorthWest,
                Orientation::West,
            ],
        };
        assert(r@ =~= forward_scans_spec(orientation));
        r
    }

    /// The first of the positions nearest to `reference`, by straight-line distance
    /// (squared distances beyond 128 bits count as equal).
    pub fn find_closest_position(&self, reference: &Position, positions: &Vec<Position>) -> (r:
        Option<Position>)
        ensures
            positions@.len() == 0 <==> r is None,
            r matches Some(p) ==> exists|i: int|
                0 <= i < positions@.len() && positions@[i] == p && (forall|j: int|
                    0 <= j < positions@.len() ==> capped_squared_distance(*reference, p)
                        <= capped_squared_distance(*reference, #[trigger] positions@[j])) && (forall|j: int|
                    0 <= j < i ==> capped_squared_distance(*reference, p) < capped_squared_distance(*reference, #[trigger] positions@[j])),
    {
        let mut closest_distance: u128 = 0;
        let mut closest_position: Option<Position> = None;
        let ghost mut closest_index: int = 0;

        let mut k: usize = 0;
        while k < positions.len()
            invariant
                k <= positions@.len(),
                closest_position is None <==> k == 0,
                closest_position matches Some(p) ==> {
                    &&& 0 <= closest_index < k
                    &&& positions@[closest_index] == p
                    &&& closest_distance == capped_squared_distance(*reference, p)
                    &&& forall|j: int|
                        0 <= j < k ==> capped_squared_distance(*reference, p) <= capped_squared_distance(*reference, #[trigger] positions@[j])
                    &&& forall|j: int|
                        0 <= j < closest_index ==> capped_squared_distance(*reference, p)
                            < capped_squared_distance(*reference, #[trigger] positions@[j])
                },
            decreases positions@.len() - k,
        {
            let position = positions[k];
            let distance = squared_distance(reference, &position);
            if closest_position.is_none() || distance < closest_distance {
                closest_distance = distance;
                closest_position = Some(position);
                proof {
                    closest_index = k as int;
                }
            }
            k = k + 1;
        }

        closest_position
    }

    /// The unexplored cells at the edge of the explored part of the world, row by row,
    /// leaving out those in `unreachable`.
    pub fn list_all_unexplored(&self, unreachable: &Vec<Position>, world_size: &WorldSize) -> (r:
        Vec<Position>)
        requires
            on_chart(*world_size),
        ensures
            r@ == self.frontier_in_rows(unreachable@, *world_size, world_size.y as int),
    {
        let mut result: Vec<Position> = Vec::new();

        let mut i: usize = 0;
        while i < world_size.y
            invariant
                i <= world_size.y,
                on_chart(*world_size),
                result@ == self.frontier_in_rows(unreachable@, *world_size, i as int),
            decreases world_size.y - i,
        {
            let mut j: usize = 0;
            let ghost row_start = result@;
            while j < world_size.x
                invariant
                    i < world_size.y,
                    j <= world_size.x,
                    on_chart(*world_size),
                    row_start == self.frontier_in_rows(unreachable@, *world_size, i as int),
                    result@ == row_start + self.frontier_in_row(
                        unreachable@,
                        *world_size,
                        i as int,
                        j as int,
                    ),
                decreases world_size.x - j,
            {
                let position = Position { x: j, y: i };
                if !contains_position(unreachable, &position) && self.discovered_map[i][j]
                    == MapCell::Unallocated {
                    let edge_cell = self.touches_explored(&position, world_size);

                    if edge_cell {
                        result.push(position);
                    }
                }
                proof {
                    assert(result@ =~= row_start + self.frontier_in_row(
                        unreachable@,
                        *world_size,
                        i as int,
                        j + 1,
                    ));
                }
                j = j + 1;
            }
            i = i + 1;
        }

        result
    }

    /// Whether a neighbour of `position` in the world was explored.
    fn touches_explored(&self, position: &Position, world_size: &WorldSize) -> (r: bool)
        requires
            on_chart(*world_size),
        ensures
            r == exists|i: int|
                0 <= i < adjacent_positions(*position, *world_size, 8).len() && self.cell(
                    #[trigger] adjacent_positions(*position, *world_size, 8)[i].y as int,
                    adjacent_positions(*position, *world_size, 8)[i].x as int,
                ) != MapCell::Unallocated,
    {
        let adjacents = position.list_adjacent_positions(world_size);
        proof {
            crate::api::position::lemma_adjacent_inside(*position, *world_size, 8);
        }
        let mut k: usize = 0;
        while k < adjacents.len()
            invariant
                k <= adjacents@.len(),
                adjacents@ == adjacent_positions(*position, *world_size, 8),
                on_chart(*world_size),
                forall|i: int| 0 <= i < adjacents@.len() ==> (#[trigger] adjacents@[i]).inside(*world_size),
                forall|i: int|
                    0 <= i < k ==> self.cell(
                        #[trigger] adjacents@[i].y as int,
                        adjacents@[i].x as int,
                    ) == MapCell::Unallocated,
            decreases adjacents@.len() - k,
        {
            assert(adjacents@[k as int].inside(*world_size));
            if self.read_at(&adjacents[k]) != MapCell::Unallocated {
                return true;
            }
            k = k + 1;
        }
        false
    }

    /// The walkable cells from which a cardinal shot could reach `target` while staying out
    /// of reach of positional shots: for each distance from just beyond positional reach
    /// up to the cardinal reach, the cells at that distance clockwise from North.
    pub fn list_safe_firing_positions(&self, target: &Position, world_size: &WorldSize) -> (r:
        Vec<Position>)
        requires
            on_chart(*world_size),
        ensures
            r@ == self.walkable_positions(rings(*target, *world_size, CARDINAL_SHOT_DISTANCE as nat)),
    {
        let mut result: Vec<Position> = Vec::new();
        let min_safe_distance = POSITIONAL_SHOT_DISTANCE + 1;
        let max_shot_distance = CARDINAL_SHOT_DISTANCE;

        let mut safe_distance = min_safe_distance;
        while safe_distance < max_shot_distance + 1
            invariant
                min_safe_distance <= safe_distance <= max_shot_distance + 1,
                min_safe_distance == POSITIONAL_SHOT_DISTANCE + 1,
                max_shot_distance == CARDINAL_SHOT_DISTANCE,
                result@ == rings(*target, *world_size, (safe_distance - 1) as nat),
            decreases max_shot_distance + 1 - safe_distance,
        {
            let ghost before = result@;
            let mut orientation = Orientation::North;
            let mut k: usize = 0;
            loop
                invariant_except_break
                    k < 8,
                    orientation == orientation_at(k as int),
                    result@ == before + ring(*target, safe_distance as nat, *world_size, k as nat),
                ensures
                    result@ == before + ring(*target, safe_distance as nat, *world_size, 8),
                decreases 8 - k,
            {
                if let Some(found) = self.follow_cardinal(target, safe_distance, &orientation, world_size) {
                    result.push(found);
                }
                assert(result@ =~= before + ring(
                    *target,
                    safe_distance as nat,
                    *world_size,
                    (k + 1) as nat,
                ));
                orientation = orientation.rotated_clockwise();
                if k == 7 {
                    break;
                }
                k = k + 1;
            }
            safe_distance = safe_distance + 1;
        }

        let ghost all = result@;
        proof {
            lemma_rings_inside(*target, *world_size, CARDINAL_SHOT_DISTANCE as nat);
        }
        let mut kept: Vec<Position> = Vec::new();
        let mut k: usize = 0;
        while k < result.len()
            invariant
                k <= all.len(),
                result@ == all,
                on_chart(*world_size),
                forall|i: int| 0 <= i < all.len() ==> (#[trigger] all[i]).inside(*world_size),
                kept@ == self.walkable_positions(all.take(k as int)),
            decreases all.len() - k,
        {
            let x = result[k];
            assert(all[k as int].inside(*world_size));
            let cell = self.read_at(&x);
            let walkable = match cell {
                MapCell::Terrain(Terrain::Field) => true,
                MapCell::Unallocated => true,
                _ => false,
            };
            if walkable {
                kept.push(x);
            }
            proof {
                assert(all.take(k + 1).drop_last() =~= all.take(k as int));
                assert(all.take(k + 1).last() == x);
            }
            k = k + 1;
        }
        assert(all.take(all.len() as int) =~= all);

        kept
    }
}

impl Magellan {
    fn follow_cardinal(
        &self,
        reference: &Position,
        steps: usize,
        orientation: &Orientation,
        world_size: &WorldSize,
    ) -> (r: Option<Position>)
        ensures
            r == walked(*reference, *orientation, steps as nat, *world_size),
    {
        let mut result = Some(*reference);

        let mut k: usize = 0;
        while k < steps
            invariant
                k <= steps,
                result == walked(*reference, *orientation, k as nat, *world_size),
            decreases steps - k,
        {
            if let Some(r) = result {
                result = r.follow(orientation, world_size);
            }
            k = k + 1;
        }

        result
    }

    fn validate_coordinates_or_panic(&self, latitude: usize, longitude: usize)
        requires
            latitude < MAX_WORLD_SIZE,
            longitude < MAX_WORLD_SIZE,
    {
    }
}

/// The square of the straight-line distance between two positions.
fn squared_distance(a: &Position, b: &Position) -> (r: u128)
    ensures
        r == capped_squared_distance(*a, *b),
{
    let dx = crate::api::position::distance_along(a.x, b.x) as u128;
    let dy = crate::api::position::distance_along(a.y, b.y) as u128;
    assert(dx * dx <= 0xffff_ffff_ffff_fffe_0000_0000_0000_0001 && dy * dy
        <= 0xffff_ffff_ffff_fffe_0000_0000_0000_0001) by (nonlinear_arith)
        requires
            dx < 0x1_0000_0000_0000_0000,
            dy < 0x1_0000_0000_0000_0000,
    ;
    assert(dx * dx == (a.x - b.x) * (a.x - b.x) && dy * dy == (a.y - b.y) * (a.y - b.y))
        by (nonlinear_arith)
        requires
            dx == crate::api::position::abs(a.x - b.x),
            dy == crate::api::position::abs(a.y - b.y),
    ;
    (dx * dx).saturating_add(dy * dy)
}

/// The square of the straight-line distance between two positions, counted as the
/// largest value that 128 bits hold when it exceeds it.
pub open spec fn capped_squared_distance(a: Position, b: Position) -> int {
    if a.squared_distance(b) > u128::MAX {
        u128::MAX as int
    } else {
        a.squared_distance(b)
    }
}

/// Whether a list holds a position.
fn contains_position(positions: &Vec<Position>, position: &Position) -> (r: bool)
    ensures
        r == positions@.contains(*position),
{
    let mut i: usize = 0;
    while i < positions.len()
        invariant
            i <= positions@.len(),
            forall|j: int| 0 <= j < i ==> positions@[j] != *position,
        decreases positions@.len() - i,
    {
        if positions[i] == *position {
            assert(positions@[i as int] == *position);
            return true;
        }
        i = i + 1;
    }
    false
}

/// Every position on the rings lies in the world.
proof fn lemma_rings_inside(target: Position, world_size: WorldSize, last: nat)
    ensures
        forall|i: int|
            0 <= i < rings(target, world_size, last).len() ==> (#[trigger] rings(
                target,
                world_size,
                last,
            )[i]).inside(world_size),
    decreases last,
{
    if last > POSITIONAL_SHOT_DISTANCE {
        lemma_rings_inside(target, world_size, (last - 1) as nat);
        lemma_ring_inside(target, last, world_size, 8);
        let a = rings(target, world_size, (last - 1) as nat);
        let b = ring(target, last, world_size, 8);
        assert forall|i: int| 0 <= i < (a + b).len() implies (#[trigger] (a + b)[i]).inside(
            world_size,
        ) by {
            if i >= a.len() {
                assert((a + b)[i] == b[i - a.len()]);
            }
        }
    }
}

proof fn lemma_ring_inside(target: Position, d: nat, world_size: WorldSize, n: nat)
    requires
        d > 0,
    ensures
        forall|i: int|
            0 <= i < ring(target, d, world_size, n).len() ==> (#[trigger] ring(
                target,
                d,
                world_size,
                n,
            )[i]).inside(world_size),
    decreases n,
{
    if n > 0 {
        lemma_ring_inside(target, d, world_size, (n - 1) as nat);
        lemma_walked_inside(target, orientation_at(n - 1), d, world_size);
        let before = ring(target, d, world_size, (n - 1) as nat);
        assert forall|i: int|
            0 <= i < ring(target, d, world_size, n).len() implies (#[trigger] ring(
            target,
            d,
            world_size,
            n,
        )[i]).inside(world_size) by {
            if i < before.len() {
                assert(ring(target, d, world_size, n)[i] == before[i]);
            }
        }
    }
}

proof fn lemma_walked_inside(p: Position, o: Orientation, steps: nat, world_size: WorldSize)
    requires
        steps > 0,
    ensures
        walked(p, o, steps, world_size) matches Some(q) ==> q.inside(world_size),
    decreases steps,
{
    if steps > 1 {
        lemma_walked_inside(p, o, (steps - 1) as nat, world_size);
    }
}

} // verus!
