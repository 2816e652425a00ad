use vstd::prelude::*;

use crate::api::{
    action::Action,
    aiming::Aiming,
    context::Context,
    direction::Direction,
    orientation::{quick_turn_spec, Orientation},
    path_finder::{alignment_spec, is_reverse_path, route_exists, small_world, PathFinder},
    position::{step_x, step_y, Position},
    scan::ScanType,
    world_size::WorldSize,
};

use super::sensors::{first_unexplored, WORLD_HEIGHT, WORLD_WIDTH};
use super::shared::{Data, SensorData, SensorMap, Track};

verus! {

/// The clock of a kind of scan one action later.
pub open spec fn ticked(clock: i64) -> i64 {
    if clock < i64::MAX {
        (clock + 1) as i64
    } else {
        i64::MAX
    }
}

/// Counts one more action on a scan clock, which stops at its largest value.
fn tick(clock: i64) -> (r: i64)
    ensures
        r == ticked(clock),
{
    if clock < i64::MAX {
        clock + 1
    } else {
        clock
    }
}

/// The first move along a path given in reverse, whose last position is the next step:
/// forward when the tank faces that step, else the quick turn towards it.
pub open spec fn first_move(path: Seq<Position>, me: Position, facing: Orientation) -> Option<
    Action,
> {
    if path.len() == 0 {
        None
    } else {
        match alignment_spec(me, path.last()) {
            Some(o) => if o == facing {
                Some(Action::Move(Direction::Forward))
            } else {
                Some(Action::Rotate(quick_turn_spec(facing, o).0))
            },
            None => None,
        }
    }
}

/// Whether a track lies within reach of a positional shot and was stamped this turn.
pub open spec fn fresh_target(track: Track, me: Position, turn: usize) -> bool {
    track.timestamp == turn as i32 && me.hits_positionally(Position { x: track.x, y: track.y })
}

/// Whether a track lies within reach of a positional shot and was stamped in the last
/// turns.
pub open spec fn recent_target(track: Track, me: Position, turn: usize) -> bool {
    track.timestamp > (turn as i32) - 2 && me.hits_positionally(Position { x: track.x, y: track.y })
}

/// What the tracks close by call for: a positional shot at the first track of this turn
/// within reach; else, when a recent track is within reach, a scan all around.
pub open spec fn danger_response(tracks: Seq<Track>, me: Position, turn: usize) -> Option<Action> {
    if exists|i: int| 0 <= i < tracks.len() && fresh_target(#[trigger] tracks[i], me, turn) {
        let i = choose|i: int|
            0 <= i < tracks.len() && fresh_target(#[trigger] tracks[i], me, turn) && forall|j: int|
                0 <= j < i ==> !fresh_target(#[trigger] tracks[j], me, turn);
        Some(Action::Fire(Aiming::Positional(Position { x: tracks[i].x, y: tracks[i].y })))
    } else if exists|i: int| 0 <= i < tracks.len() && recent_target(#[trigger] tracks[i], me, turn) {
        Some(Action::Scan(ScanType::Omni))
    } else {
        None
    }
}

/// The scan that is due: all around before the first one, else a mono scan of the first
/// diagonal, in the order north-west, north-east, south-east, south-west, that was not
/// scanned in more than eight actions.
pub open spec fn scan_due(map: SensorMap) -> Option<Action> {
    if !map.initial_scan_done {
        Some(Action::Scan(ScanType::Omni))
    } else if map.actions_since_last_scan_northwest > 8 {
        Some(Action::Scan(ScanType::Mono(Orientation::NorthWest)))
    } else if map.actions_since_last_scan_northeast > 8 {
        Some(Action::Scan(ScanType::Mono(Orientation::NorthEast)))
    } else if map.actions_since_last_scan_southeast > 8 {
        Some(Action::Scan(ScanType::Mono(Orientation::SouthEast)))
    } else if map.actions_since_last_scan_southwest > 8 {
        Some(Action::Scan(ScanType::Mono(Orientation::SouthWest)))
    } else {
        None
    }
}

/// The world that the tank explores.
pub open spec fn explored_world() -> WorldSize {
    WorldSize { x: WORLD_WIDTH, y: WORLD_HEIGHT }
}

/// Whether `path` is a way, given in reverse, from `me` to `target` over the cells that
/// the map shows as open: empty when `me` is `target`, and found whenever the map allows
/// one.
pub open spec fn way_to(map: SensorMap, me: Position, target: Position, path: Seq<Position>) -> bool {
    &&& me == target ==> path.len() == 0
    &&& is_reverse_path(&map, path, me, target, explored_world())
    &&& me != target && route_exists(&map, me, target, explored_world()) ==> path.len() > 0
}

/// Whether `path` leads to the first unexplored cell, when there is one.
pub open spec fn way_to_unexplored(map: SensorMap, me: Position, path: Seq<Position>) -> bool {
    forall|t: Position| #[trigger] first_unexplored(map, t) ==> way_to(map, me, t, path)
}

/// The middle that the tank heads for: halfway along the width, on both axes.
pub open spec fn center_of(world_size: WorldSize) -> Position {
    Position { x: (world_size.x / 2) as usize, y: (world_size.x / 2) as usize }
}

/// The first move along `path` towards the first unexplored cell, when there is one.
pub open spec fn explore_move(map: SensorMap, me: Position, facing: Orientation, path: Seq<Position>) -> Option<Action> {
    if exists|t: Position| #[trigger] first_unexplored(map, t) {
        first_move(path, me, facing)
    } else {
        None
    }
}

/// The first move along `path` towards the middle, or nothing when there is none.
pub open spec fn center_move(path: Seq<Position>, me: Position, facing: Orientation) -> Action {
    match first_move(path, me, facing) {
        Some(a) => a,
        None => Action::Idle,
    }
}

/// Two cells that are both the first unexplored one are the same.
pub proof fn lemma_first_unexplored_unique(map: SensorMap, a: Position, b: Position)
    requires
        first_unexplored(map, a),
        first_unexplored(map, b),
    ensures
        a == b,
{
    if a.x < b.x || (a.x == b.x && a.y < b.y) {
        assert(map.tile(a.x as int, a.y as int) != SensorData::NotScanned);
    } else if b.x < a.x || (b.x == a.x && b.y < a.y) {
        assert(map.tile(b.x as int, b.y as int) != SensorData::NotScanned);
    }
}

/// How the next action comes about, and what it does to the tank's data: the scan clocks
/// tick; a track close by calls for a shot or a scan (and the tracks are forgotten when
/// none does); else a due scan; else the first move towards the first unexplored cell;
/// else the first move towards the middle; else nothing.
pub open spec fn next_action_chosen(old: Data, new: Data, context: Context, r: Action) -> bool {
    &&& (new.map.actions_since_last_scan_northwest == ticked(
            old.map.actions_since_last_scan_northwest,
        ))
    &&& (new.map.actions_since_last_scan_northeast == ticked(
            old.map.actions_since_last_scan_northeast,
        ))
    &&& (new.map.actions_since_last_scan_southeast == ticked(
            old.map.actions_since_last_scan_southeast,
        ))
    &&& (new.map.actions_since_last_scan_southwest == ticked(
            old.map.actions_since_last_scan_southwest,
        ))
    &&& (new.map.sensor_data == old.map.sensor_data)
    &&& (new.map.initial_scan_done == old.map.initial_scan_done)
    &&& (danger_response(old.map.tracks@, context.position_spec(), context.turn_spec()) matches Some(a) ==> r == a && new.map.tracks == old.map.tracks)
    &&& (danger_response(old.map.tracks@, context.position_spec(), context.turn_spec()) is None ==> new.map.tracks@.len() == 0)
    &&& (danger_response(old.map.tracks@, context.position_spec(), context.turn_spec()) is None ==> (scan_due(new.map) matches Some(a) ==> r == a))
    &&& (danger_response(old.map.tracks@, context.position_spec(), context.turn_spec()) is None && scan_due(new.map) is None ==> exists|to_unexplored: Seq<Position>| {
            &&& way_to_unexplored(new.map, context.position_spec(), to_unexplored)
            &&& explore_move(new.map, context.position_spec(), context.details().orientation, to_unexplored) matches Some(a) ==> r == a
            &&& explore_move(new.map, context.position_spec(), context.details().orientation, to_unexplored) is None ==> exists|to_center: Seq<Position>|
                way_to(new.map, context.position_spec(), center_of(context.world_size_spec()), to_center)
                    && r == center_move(to_center, context.position_spec(), context.details().orientation)
        })
}

/// The next action: shoot at or look for tanks close by, keep the scans fresh, explore,
/// or head for the middle of the world.
pub fn get_next_action(data: &mut Data, context: &Context) -> (r: Action)
    ensures
        next_action_chosen(*old(data), *final(data), *context, r),
{
    data.map.actions_since_last_scan_northwest = tick(data.map.actions_since_last_scan_northwest);
    data.map.actions_since_last_scan_northeast = tick(data.map.actions_since_last_scan_northeast);
    data.map.actions_since_last_scan_southeast = tick(data.map.actions_since_last_scan_southeast);
    data.map.actions_since_last_scan_southwest = tick(data.map.actions_since_last_scan_southwest);

    if let Some(action) = danger_close(data, context) {
        return action;
    } else if let Some(action) = keep_scans_fresh(data, context) {
        return action;
    }
    let ghost me = context.position_spec();
    let ghost facing = context.details().orientation;
    let explored = explore(data, context);
    let ghost to_unexplored = choose|path: Seq<Position>|
        way_to_unexplored(data.map, me, path) && explored == explore_move(data.map, me, facing, path);
    if let Some(action) = explored {
        proof {
            assert(way_to_unexplored(data.map, me, to_unexplored) && explore_move(data.map, me, facing, to_unexplored) == Some(action));
        }
        return action;
    }
    let centered = move_towards_center(data, context);
    let ghost to_center = choose|path: Seq<Position>|
        way_to(data.map, me, center_of(context.world_size_spec()), path) && centered
            == first_move(path, me, facing);
    let r = match centered {
        Some(action) => action,
        None => Action::Idle,
    };
    proof {
        assert(way_to(data.map, me, center_of(context.world_size_spec()), to_center)
            && r == center_move(to_center, me, facing));
        assert(way_to_unexplored(data.map, me, to_unexplored) && explore_move(data.map, me, facing, to_unexplored) is None);
    }
    r
}

/// A positional shot at the first track of this turn within reach; else a scan when a
/// recent track is within reach; else the tracks are forgotten.
pub fn danger_close(data: &mut Data, context: &Context) -> (r: Option<Action>)
    ensures
        r == danger_response(old(data).map.tracks@, context.position_spec(), context.turn_spec()),
        r is None ==> final(data).map.tracks@.len() == 0,
        r is Some ==> final(data).map.tracks == old(data).map.tracks,
        final(data).map.sensor_data == old(data).map.sensor_data,
        final(data).map.initial_scan_done == old(data).map.initial_scan_done,
        final(data).map.actions_since_last_scan_northwest == old(data).map.actions_since_last_scan_northwest,
        final(data).map.actions_since_last_scan_northeast == old(data).map.actions_since_last_scan_northeast,
        final(data).map.actions_since_last_scan_southeast == old(data).map.actions_since_last_scan_southeast,
        final(data).map.actions_since_last_scan_southwest == old(data).map.actions_since_last_scan_southwest,
{
    let me = context.position();
    let turn = context.turn() as i32;
    let mut found_recent_track = false;
    let mut i: usize = 0;
    while i < data.map.tracks.len()
        invariant
            i <= data.map.tracks@.len(),
            *data == *old(data),
            turn == context.turn_spec() as i32,
            *me == context.position_spec(),
            forall|j: int|
                0 <= j < i ==> !fresh_target(
                    #[trigger] data.map.tracks@[j],
                    context.position_spec(),
                    context.turn_spec(),
                ),
            found_recent_track <==> exists|j: int|
                0 <= j < i && recent_target(
                    #[trigger] data.map.tracks@[j],
                    context.position_spec(),
                    context.turn_spec(),
                ),
        decreases data.map.tracks@.len() - i,
    {
        let track = data.map.tracks[i];
        let target = Position { x: track.x, y: track.y };
        let hittable = me.could_hit_positionally(&target);
        if track.timestamp == turn && hittable {
            // Current track -> fire on it!
            return Some(Action::Fire(Aiming::Positional(target)));
        } else if (track.timestamp as i64) > (turn as i64) - 2 && hittable {
            // Recent track - check if it's still there to fire on..
            found_recent_track = true;
        }
        proof {
            assert(data.map.tracks@[i as int] == track);
        }
        i = i + 1;
    }

    if found_recent_track {
        return Some(Action::Scan(ScanType::Omni));
    } else {
        data.map.tracks.clear();
    }
    return None;
}

/// A scan all around before the first one was made, and a mono scan of a diagonal that
/// was not scanned in more than eight actions.
pub fn keep_scans_fresh(data: &mut Data, context: &Context) -> (r: Option<Action>)
    ensures
        *final(data) == *old(data),
        r == scan_due(old(data).map),
{
    if !data.map.initial_scan_done {
        return Some(Action::Scan(ScanType::Omni));
    }
    if data.map.actions_since_last_scan_northwest > 8 {
        return Some(Action::Scan(ScanType::Mono(Orientation::NorthWest)));
    }
    if data.map.actions_since_last_scan_northeast > 8 {
        return Some(Action::Scan(ScanType::Mono(Orientation::NorthEast)));
    }
    if data.map.actions_since_last_scan_southeast > 8 {
        return Some(Action::Scan(ScanType::Mono(Orientation::SouthEast)));
    }
    if data.map.actions_since_last_scan_southwest > 8 {
        return Some(Action::Scan(ScanType::Mono(Orientation::SouthWest)));
    }

    None
}

/// The world that the tank explores.
pub fn world_size() -> (r: WorldSize)
    ensures
        r == (WorldSize { x: WORLD_WIDTH, y: WORLD_HEIGHT }),
{
    WorldSize { x: WORLD_WIDTH, y: WORLD_HEIGHT }
}

/// The first move of the way to the first unexplored cell, if there is one.
pub fn explore(data: &mut Data, context: &Context) -> (r: Option<Action>)
    ensures
        *final(data) == *old(data),
        exists|path: Seq<Position>|
            way_to_unexplored(old(data).map, context.position_spec(), path) && r == explore_move(
                old(data).map,
                context.position_spec(),
                context.details().orientation,
                path,
            ),
{
    if let Some(any_unexplored_tile) = data.map.get_any_unexplored_tile() {
        let r = next_move_towards(&data.map, context, &any_unexplored_tile);
        proof {
            assert(first_unexplored(data.map, any_unexplored_tile));
            let path = choose|path: Seq<Position>|
                way_to(data.map, context.position_spec(), any_unexplored_tile, path) && r
                    == first_move(path, context.position_spec(), context.details().orientation);
            assert forall|t: Position| #[trigger] first_unexplored(data.map, t) implies way_to(
                data.map,
                context.position_spec(),
                t,
                path,
            ) by {
                lemma_first_unexplored_unique(data.map, t, any_unexplored_tile);
            }
            assert(way_to_unexplored(data.map, context.position_spec(), path) && r == explore_move(
                data.map,
                context.position_spec(),
                context.details().orientation,
                path,
            ));
        }
        return r;
    }
    proof {
        assert(forall|t: Position| !#[trigger] first_unexplored(data.map, t));
        assert(way_to_unexplored(data.map, context.position_spec(), Seq::empty()));
        assert(None::<Action> == explore_move(
            data.map,
            context.position_spec(),
            context.details().orientation,
            Seq::empty(),
        ));
    }
    None
}

/// The first move of the way towards the middle of the world.
pub fn move_towards_center(data: &mut Data, context: &Context) -> (r: Option<Action>)
    ensures
        *final(data) == *old(data),
        exists|path: Seq<Position>|
            way_to(old(data).map, context.position_spec(), center_of(context.world_size_spec()), path)
                && r == first_move(path, context.position_spec(), context.details().orientation),
{
    let target = Position { x: context.world_size().x / 2, y: context.world_size().x / 2 };
    next_move_towards(&data.map, context, &target)
}

/// The first move along the shortest path that the map allows from the tank to `target`.
pub fn next_move_towards(map: &SensorMap, context: &Context, target: &Position) -> (r: Option<
    Action,
>)
    ensures
        exists|path: Seq<Position>|
            way_to(*map, context.position_spec(), *target, path) && r == first_move(
                path,
                context.position_spec(),
                context.details().orientation,
            ),
{
    let facing = context.player_details().orientation;
    let path = PathFinder::find_path(map, context.position(), target, &facing, &world_size());
    let r = first_step_action(&path, context.position(), &facing);
    proof {
        assert(WORLD_WIDTH * WORLD_HEIGHT == 2700);
        assert(small_world(explored_world()));
        assert(is_reverse_path(map, path@, context.position_spec(), *target, explored_world()));
        assert(way_to(*map, context.position_spec(), *target, path@));
    }
    r
}

/// The first move along a path given in reverse.
pub fn first_step_action(path: &Vec<Position>, me: &Position, facing: &Orientation) -> (r: Option<
    Action,
>)
    ensures
        r == first_move(path@, *me, *facing),
{
    if path.len() == 0 {
        return None;
    }
    let next = path[path.len() - 1];
    match find_alignment(me, &next) {
        Some(o) => if o == *facing {
            Some(Action::Move(Direction::Forward))
        } else {
            let (rotation, _) = facing.quick_turn(&o);
            Some(Action::Rotate(rotation))
        },
        None => None,
    }
}

/// The orientation in which `to` lies as seen from `from`, when aligned.
fn find_alignment(from: &Position, to: &Position) -> (r: Option<Orientation>)
    ensures
        r == alignment_spec(*from, *to),
{
    let east_of = to.x > from.x;
    let dx: usize = if east_of {
        to.x - from.x
    } else {
        from.x - to.x
    };
    let south_of = to.y > from.y;
    let dy: usize = if south_of {
        to.y - from.y
    } else {
        from.y - to.y
    };

    if dx == 0 {
        if south_of {
            Some(Orientation::South)
        } else {
            Some(Orientation::North)
        }
    } else if dy == 0 {
        if east_of {
            Some(Orientation::East)
        } else {
            Some(Orientation::West)
        }
    } else if dx == dy {
        if east_of && south_of {
            Some(Orientation::SouthEast)
        } else if east_of {
            Some(Orientation::NorthEast)
        } else if south_of {
            Some(Orientation::SouthWest)
        } else {
            Some(Orientation::NorthWest)
        }
    } else {
        None
    }
}

/// The first move along a reverse path heads for the path's next step, its last cell,
/// which touches the tank: a move forward exactly when that step lies one step ahead in
/// the way the tank faces, else a turn. So a path whose next step touches the tank always
/// gives a move.
pub proof fn lemma_first_move_heads_for_the_next_step(
    path: Seq<Position>,
    me: Position,
    facing: Orientation,
)
    requires
        path.len() > 0,
        path.last().touches(me),
    ensures
        first_move(path, me, facing) is Some,
        first_move(path, me, facing) == Some(Action::Move(Direction::Forward)) <==> (path.last().x
            == me.x + step_x(facing) && path.last().y == me.y + step_y(facing)),
        first_move(path, me, facing) != Some(Action::Move(Direction::Forward)) ==> first_move(
            path,
            me,
            facing,
        )->0 is Rotate,
        first_move(path, me, facing) matches Some(Action::Rotate(r)) ==> exists|k: nat|
            1 <= k <= 4 && path.last().x == me.x + step_x(
                #[trigger] crate::api::orientation::turned_times(facing, r, k),
            ) && path.last().y == me.y + step_y(crate::api::orientation::turned_times(facing, r, k)),
{
    let n = path.last();
    let o = alignment_spec(me, n)->0;
    assert(alignment_spec(me, n) is Some);
    assert(n.x == me.x + step_x(o) && n.y == me.y + step_y(o));
    if n.x == me.x + step_x(facing) && n.y == me.y + step_y(facing) {
        assert(o == facing);
    }
    if o != facing {
        crate::api::orientation::lemma_quick_turn_reaches(facing, o);
        let k = quick_turn_spec(facing, o).1 as nat;
        assert(k != 0);
        assert(crate::api::orientation::turned_times(facing, quick_turn_spec(facing, o).0, k) == o);
    }
}

} // verus!
