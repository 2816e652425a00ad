use vstd::prelude::*;

use super::attack::attack_answer;
use super::helpers::{bidirectional_turn_spec, others_seen};
use super::map::{direction_of, route_ok, valid_position, WorldMap};
use super::{Arola, PlayerState};
use crate::api::{
    action::Action,
    context::Context,
    direction::Direction,
    map_cell::{MapCell, Terrain},
    orientation::{orientation_at, orientation_index, turned_times, Orientation},
    path_finder::walkable_cell,
    position::Position,
    rotation::Rotation,
    scan::{ScanResult, ScanType},
    world_size::{WorldSize, MAX_WORLD_SIZE},
};
use crate::chance::number_between;

verus! {

/// Whether a mono scan towards `scan_direction` is worth making from `position`: only
/// diagonal scans are made, and none that would look off the world beyond its outer ring.
pub open spec fn scan_direction_ok(scan_direction: Orientation, position: Position, world_size: WorldSize) -> bool {
    let limit_min = 1int;
    let limit_x_max = world_size.x - 2;
    let limit_y_max = world_size.y - 2;
    match scan_direction {
        Orientation::NorthEast => position.x < limit_x_max && position.y > limit_min,
        Orientation::SouthEast => position.x < limit_x_max && position.y < limit_y_max,
        Orientation::SouthWest => position.x > limit_min && position.y < limit_y_max,
        Orientation::NorthWest => position.x > limit_min && position.y > limit_min,
        _ => false,
    }
}

/// The move along a route: onto its first cell when it lies ahead or behind (a scan
/// first when that cell is unexplored), or else a turn towards it; none without a route
/// or at the world's edge.
pub open spec fn path_move(
    map: WorldMap,
    position: Position,
    o: Orientation,
    world_size: WorldSize,
    path: Option<Seq<Position>>,
) -> Option<Action> {
    match path {
        None => None,
        Some(p) => if p.len() == 0 {
            None
        } else {
            let target = p[0];
            let back_o = orientation_at((orientation_index(o) + 4) % 8);
            match (position.followed(o, world_size), position.followed(back_o, world_size)) {
                (Some(front), Some(back)) => if front == target {
                    Some(
                        if map.cell_at(front.x as int, front.y as int) == MapCell::Unallocated {
                            Action::Scan(ScanType::Mono(o))
                        } else {
                            Action::Move(Direction::Forward)
                        },
                    )
                } else if back == target {
                    Some(
                        if map.cell_at(back.x as int, back.y as int) == MapCell::Unallocated {
                            Action::Scan(ScanType::Mono(back_o))
                        } else {
                            Action::Move(Direction::Backward)
                        },
                    )
                } else {
                    Some(Action::Rotate(bidirectional_turn_spec(o, direction_of(position, target)).0))
                },
                _ => None,
            }
        },
    }
}

/// Whether the scan direction `n` clockwise turns after `before` is not worth scanning.
pub open spec fn rejected_after(before: Orientation, n: nat, position: Position, world_size: WorldSize) -> bool {
    !scan_direction_ok(turned_times(before, Rotation::Clockwise, n), position, world_size)
}

/// The mono scan chosen next: the first direction, turning clockwise from the last one,
/// that is worth scanning; an omni scan when none is.
pub open spec fn scan_requested(
    before: Orientation,
    position: Position,
    world_size: WorldSize,
    r: (PlayerState, Action),
    after: Orientation,
) -> bool {
    ||| exists|n: nat|
        1 <= n <= 8 && !#[trigger] rejected_after(before, n, position, world_size) && (forall|m: nat|
            1 <= m < n ==> #[trigger] rejected_after(before, m, position, world_size)) && after
            == turned_times(before, Rotation::Clockwise, n) && r == (
            PlayerState::Explore,
            Action::Scan(ScanType::Mono(after)),
        )
    ||| (forall|m: nat| 1 <= m <= 8 ==> #[trigger] rejected_after(before, m, position, world_size))
        && after == before && r == (PlayerState::Explore, Action::Scan(ScanType::Omni))
}

/// On a world at least four cells wide and high, some diagonal is always worth scanning:
/// the radar never falls back on an omni scan.
pub proof fn lemma_radar_finds_a_direction(before: Orientation, position: Position, world_size: WorldSize)
    requires
        world_size.x >= 4,
        world_size.y >= 4,
        position.inside(world_size),
    ensures
        exists|n: nat| 1 <= n <= 8 && !#[trigger] rejected_after(before, n, position, world_size),
{
    let east = position.x < world_size.x - 2;
    let south = position.y < world_size.y - 2;
    let d = if east {
        if south {
            Orientation::SouthEast
        } else {
            Orientation::NorthEast
        }
    } else {
        if south {
            Orientation::SouthWest
        } else {
            Orientation::NorthWest
        }
    };
    assert(scan_direction_ok(d, position, world_size));
    crate::api::orientation::lemma_index_roundtrip(d, 0);
    crate::api::orientation::lemma_index_roundtrip(before, 0);
    let gap = (orientation_index(d) - orientation_index(before) + 8) % 8;
    let n: nat = if gap == 0 {
        8
    } else {
        gap as nat
    };
    crate::api::orientation::lemma_turned_times_index(before, Rotation::Clockwise, n);
    assert(crate::api::orientation::index_after_clockwise(orientation_index(before), n as int) == orientation_index(d));
    assert(!rejected_after(before, n, position, world_size));
}

/// The move while exploring: along a route to the target, or idling, with the target
/// dropped, when there is no move.
pub open spec fn moving_action(before: Arola, ctx: Context, r: Action, after: Arola) -> bool {
    let pos = ctx.position_spec();
    let o = ctx.details().orientation;
    &&& after.state_spec() == before.state_spec()
    &&& after.map_spec() == before.map_spec()
    &&& after.scan_direction_spec() == before.scan_direction_spec()
    &&& (after.target_spec() is None <==> r == Action::Idle)
    &&& before.target_spec() is Some && r != Action::Idle ==> after.target_spec() == before.target_spec()
    &&& r != Action::Idle ==> exists|p: Seq<Position>|
        route_ok(before.map_spec(), pos, after.target_spec()->0, p) && #[trigger] path_move(
            before.map_spec(),
            pos,
            o,
            ctx.world_size_spec(),
            Some(p),
        ) == Some(r)
}

/// Whether a scan direction is worth scanning; see `scan_direction_ok`.
fn accept_scan_direction(scan_direction: &Orientation, position: &Position, world_size: &WorldSize) -> (r:
    bool)
    ensures
        r == scan_direction_ok(*scan_direction, *position, *world_size),
{
    let limit_min: usize = 1;
    let limit_x_max = world_size.x.saturating_sub(2);
    let limit_y_max = world_size.y.saturating_sub(2);

    match scan_direction {
        Orientation::NorthEast => position.x < limit_x_max && position.y > limit_min,
        Orientation::SouthEast => position.x < limit_x_max && position.y < limit_y_max,
        Orientation::SouthWest => position.x > limit_min && position.y < limit_y_max,
        Orientation::NorthWest => position.x > limit_min && position.y > limit_min,
        _ => false,
    }
}

/// One turn of exploring: without a scan, the next scan of the radar round; after a scan
/// that shows others, the attack; else a move towards the target.
pub open spec fn explored(before: Arola, ctx: Context, r: (PlayerState, Action), after: Arola) -> bool {
    &&& r.0 != PlayerState::Start
    &&& (ctx.scan_spec() is None ==> scan_requested(
        before.scan_direction_spec(),
        ctx.position_spec(),
        ctx.world_size_spec(),
        r,
        after.scan_direction_spec(),
    ) && after.state_spec() == before.state_spec() && after.map_spec() == before.map_spec()
        && after.target_spec() == before.target_spec())
    &&& (ctx.scan_spec() matches Some(scan) ==> (others_seen(
        scan,
        ctx.details().id,
        ctx.position_spec(),
    ).len() > 0 ==> r == attack_answer(ctx) && after == before))
    &&& (ctx.scan_spec() matches Some(scan) ==> (others_seen(
        scan,
        ctx.details().id,
        ctx.position_spec(),
    ).len() == 0 ==> r.0 == PlayerState::Explore && moving_action(before, ctx, r.1, after)))
}

impl Arola {
    pub(super) fn explore(&mut self, context: &Context) -> (r: (PlayerState, Action))
        ensures
            explored(*old(self), *context, r, *final(self)),
    {
        // Effectively scan every second round and move/rotate every second
        match context.scanned_data() {
            None => self.request_scan(context.position(), context.world_size()),
            Some(scan_result) => self.process_explore_scan(scan_result, context),
        }
    }

    /// Scans in radar style: NE => SE => SW => NW => NE => ..., skipping directions that
    /// would look off the world.
    #[verifier::rlimit(40)]
    fn request_scan(&mut self, position: &Position, world_size: &WorldSize) -> (r: (PlayerState, Action))
        ensures
            scan_requested(
                old(self).scan_direction_spec(),
                *position,
                *world_size,
                r,
                final(self).scan_direction_spec(),
            ),
            final(self).state_spec() == old(self).state_spec(),
            final(self).map_spec() == old(self).map_spec(),
            final(self).target_spec() == old(self).target_spec(),
    {
        let ghost start = self.scan_direction;
        let mut tries: usize = 0;
        while tries < 8
            invariant
                tries <= 8,
                self.scan_direction == turned_times(start, Rotation::Clockwise, tries as nat),
                forall|m: nat|
                    1 <= m <= tries ==> #[trigger] rejected_after(start, m, *position, *world_size),
                self.state == old(self).state,
                self.map == old(self).map,
                self.target_position == old(self).target_position,
                start == old(self).scan_direction,
            decreases 8 - tries,
        {
            self.scan_direction = self.scan_direction.rotated_clockwise();
            tries = tries + 1;
            proof {
                assert(self.scan_direction == turned_times(start, Rotation::Clockwise, tries as nat));
            }
            if accept_scan_direction(&self.scan_direction, position, world_size) {
                proof {
                    assert(!rejected_after(start, tries as nat, *position, *world_size));
                }
                return (PlayerState::Explore, Action::Scan(ScanType::Mono(self.scan_direction)));
            }
            proof {
                assert(rejected_after(start, tries as nat, *position, *world_size));
            }
        }
        proof {
            crate::api::orientation::lemma_full_circle(start, Rotation::Clockwise);
        }
        (PlayerState::Explore, Action::Scan(ScanType::Omni))
    }

    fn process_explore_scan(&mut self, scan_result: &ScanResult, context: &Context) -> (r: (
        PlayerState,
        Action,
    ))
        requires
            context.scan_spec() == Some(*scan_result),
        ensures
            others_seen(*scan_result, context.details().id, context.position_spec()).len() > 0
                ==> r == attack_answer(*context) && *final(self) == *old(self),
            others_seen(*scan_result, context.details().id, context.position_spec()).len() == 0
                ==> r.0 == PlayerState::Explore && moving_action(*old(self), *context, r.1, *final(self)),
    {
        if scan_result.find_other_players(context.player_details().id, context.position()).len() > 0 {
            self.attack(context)
        } else {
            (PlayerState::Explore, self.get_moving_action(context))
        }
    }

    fn get_moving_action(&mut self, context: &Context) -> (r: Action)
        ensures
            moving_action(*old(self), *context, r, *final(self)),
    {
        if self.target_position.is_none() {
            self.target_position = self.generate_random_position(context.world_size());
        }
        let position = context.position();
        let path = match self.target_position {
            Some(target_position) => self.map.find_path(
                *position,
                context.player_details().orientation,
                &target_position,
            ),
            None => None,
        };
        if let Some(action) = self.move_along_path(context, &path) {
            proof {
                let p = path->0@;
                assert(path_move(self.map, *position, context.details().orientation, context.world_size_spec(), Some(p)) == Some(action));
            }
            return action;
        } else {
            // No valid moving action => clear target position to try again in future
            self.target_position = None;
            return Action::Idle;
        }
    }

    /// A random position off the world's outer ring whose cell can be entered; none when
    /// the world has no inner cells or no such cell turns up in many draws.
    fn generate_random_position(&self, world_size: &WorldSize) -> (r: Option<Position>)
        requires
            world_size.fits_map(),
        ensures
            r matches Some(p) ==> 1 <= p.x < world_size.x - 1 && 1 <= p.y < world_size.y - 1
                && walkable_cell(self.map.cell_at(p.x as int, p.y as int)),
            world_size.x < 3 || world_size.y < 3 ==> r is None,
            world_size.x >= 3 && world_size.y >= 3 && (forall|x: int, y: int|
                1 <= x < world_size.x - 1 && 1 <= y < world_size.y - 1 ==> walkable_cell(
                    #[trigger] self.map.cell_at(x, y),
                )) ==> r is Some,
    {
        if world_size.x < 3 || world_size.y < 3 {
            return None;
        }
        let mut tries: usize = 0;
        while tries < MAX_WORLD_SIZE * MAX_WORLD_SIZE
            invariant
                world_size.x >= 3,
                world_size.y >= 3,
                world_size.fits_map(),
                tries > 0 ==> exists|x: int, y: int|
                    1 <= x < world_size.x - 1 && 1 <= y < world_size.y - 1 && !walkable_cell(
                        #[trigger] self.map.cell_at(x, y),
                    ),
            decreases MAX_WORLD_SIZE * MAX_WORLD_SIZE - tries,
        {
            let position = Position {
                x: number_between(1, world_size.x - 1),
                y: number_between(1, world_size.y - 1),
            };
            let cell = self.map.get_cell(&position);
            if cell == MapCell::Terrain(Terrain::Field) || cell == MapCell::Unallocated {
                return Some(position);
            }
            assert(!walkable_cell(self.map.cell_at(position.x as int, position.y as int)));
            tries = tries + 1;
        }
        None
    }

    fn move_along_path(&self, context: &Context, path: &Option<Vec<Position>>) -> (r: Option<Action>)
        requires
            path matches Some(p) ==> p@.len() > 0 ==> p@[0].touches(context.position_spec())
                && valid_position(p@[0]) && ((context.position_spec().followed(
                context.details().orientation,
                context.world_size_spec(),
            ) == Some(p@[0]) || context.position_spec().followed(
                orientation_at((orientation_index(context.details().orientation) + 4) % 8),
                context.world_size_spec(),
            ) == Some(p@[0])) ==> walkable_cell(
                self.map.cell_at(p@[0].x as int, p@[0].y as int),
            )),
        ensures
            r == path_move(
                self.map,
                context.position_spec(),
                context.details().orientation,
                context.world_size_spec(),
                match path {
                    Some(p) => Some(p@),
                    None => None,
                },
            ),
    {
        let path_vec = match path {
            None => {
                return None;
            },
            Some(p) => p,
        };
        if path_vec.len() == 0 {
            return None;
        }
        let target_position = path_vec[0];
        let position = context.position();
        let orientation = context.player_details().orientation;
        let world_size = context.world_size();

        let front_position = match position.follow(&orientation, world_size) {
            Some(p) => p,
            None => {
                return None;
            },
        };
        let back_orientation = orientation.opposite();
        let back_position = match position.follow(&back_orientation, world_size) {
            Some(p) => p,
            None => {
                return None;
            },
        };

        if front_position == target_position {
            return Some(self.try_move(&front_position, orientation, Direction::Forward));
        } else if back_position == target_position {
            return Some(self.try_move(&back_position, back_orientation, Direction::Backward));
        } else {
            let target_orientation = position.get_orientation_to(&target_position);
            assert(target_orientation == direction_of(*position, target_position));
            return Some(
                Action::Rotate(orientation.quick_turn_bidirectional(&target_orientation).0),
            );
        }
    }

    /// The way onto a neighbouring cell that can be entered: a scan towards it when it is
    /// unexplored, else the move.
    fn try_move(&self, position: &Position, orientation: Orientation, direction: Direction) -> (r:
        Action)
        requires
            position.fits(),
            walkable_cell(self.map.cell_at(position.x as int, position.y as int)),
        ensures
            r == if self.map.cell_at(position.x as int, position.y as int) == MapCell::Unallocated {
                Action::Scan(ScanType::Mono(orientation))
            } else {
                Action::Move(direction)
            },
    {
        match self.map.get_cell(position) {
            // Cell is unknown, request for scan
            MapCell::Unallocated => Action::Scan(ScanType::Mono(orientation)),
            // Cell is ok to enter, move there
            _ => Action::Move(direction),
        }
    }
}

} // verus!
