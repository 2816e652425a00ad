use vstd::prelude::*;

use crate::api::{
    action::Action,
    aiming::Aiming,
    context::Context,
    direction::Direction,
    map_cell::{MapCell, Terrain},
    orientation::Orientation,
    player::{Player, PlayerId},
    position::SCANNING_DISTANCE,
    rotation::Rotation,
    scan::{ScanResult, ScanType},
};
use crate::chance::coin;

verus! {

/// The middle row and column of a scan.
pub const MIDDLE: usize = SCANNING_DISTANCE / 2;

pub struct Swede {
    last_rotation: Rotation,
}

/// Whether the tank looks along a column of the scan.
pub open spec fn looks_north_south(o: Orientation) -> bool {
    o == Orientation::North || o == Orientation::South
}

/// Whether the tank looks along a row of the scan.
pub open spec fn looks_east_west(o: Orientation) -> bool {
    o == Orientation::East || o == Orientation::West
}

/// The `t`-th cell of the line straight ahead in a mono scan, read from the scan's edge.
pub open spec fn line_cell(scan: ScanResult, o: Orientation, t: int) -> MapCell {
    if looks_north_south(o) {
        scan.cell(t, MIDDLE as int)
    } else {
        scan.cell(MIDDLE as int, t)
    }
}

/// Whether the `t`-th cell of the line is the one right in front of the tank.
pub open spec fn right_ahead(o: Orientation, t: int) -> bool {
    ||| (t == 1 && (o == Orientation::South || o == Orientation::East))
    ||| (t == SCANNING_DISTANCE - 2 && (o == Orientation::North || o == Orientation::West))
}

/// The way to turn away from an obstacle right ahead: towards the open side on the left
/// (or above, looking east or west), else the other way.
pub open spec fn turn_away(scan: ScanResult, o: Orientation, t: int) -> Rotation {
    let field = MapCell::Terrain(Terrain::Field);
    match o {
        Orientation::North => if scan.cell(t + 1, MIDDLE - 1) == field {
            Rotation::CounterClockwise
        } else {
            Rotation::Clockwise
        },
        Orientation::South => if scan.cell(t - 1, MIDDLE - 1) == field {
            Rotation::Clockwise
        } else {
            Rotation::CounterClockwise
        },
        Orientation::East => if scan.cell(MIDDLE - 1, t) == field {
            Rotation::CounterClockwise
        } else {
            Rotation::Clockwise
        },
        _ => if scan.cell(MIDDLE - 1, t) == field {
            Rotation::Clockwise
        } else {
            Rotation::CounterClockwise
        },
    }
}

/// Whether the other side (right, or below) is open too, so that the tank may turn the
/// other way.
pub open spec fn other_side_open(scan: ScanResult, o: Orientation, t: int) -> bool {
    let field = MapCell::Terrain(Terrain::Field);
    match o {
        Orientation::North => scan.cell(t + 1, MIDDLE + 1) == field,
        Orientation::South => scan.cell(t - 1, MIDDLE + 1) == field,
        _ => scan.cell(MIDDLE + 1, t) == field,
    }
}

/// The turn away from an obstacle, the other way round when `flip` and that side is open.
pub open spec fn obstacle_turn(scan: ScanResult, o: Orientation, t: int, flip: bool) -> Rotation {
    if flip && other_side_open(scan, o, t) {
        turn_away(scan, o, t).opposite_spec()
    } else {
        turn_away(scan, o, t)
    }
}

/// A living player other than `id`.
pub open spec fn enemy(cell: MapCell, id: PlayerId) -> bool {
    match cell {
        MapCell::Player(d, _) => d.alive && d.id != id,
        _ => false,
    }
}

/// Terrain that the tank cannot drive through.
pub open spec fn obstacle(cell: MapCell) -> bool {
    match cell {
        MapCell::Terrain(t) => t != Terrain::Field,
        _ => false,
    }
}

/// What the tank does on a mono scan from the `t`-th cell of the line on, and the turn it
/// remembers: turn away from an obstacle right ahead (the other way when `flip` and that
/// side is open too), turn clockwise at an unexplored cell right ahead, shoot at an enemy
/// on the line (looking north or south, not one right ahead), or else drive forward.
pub open spec fn line_outcome(
    scan: ScanResult,
    o: Orientation,
    id: PlayerId,
    last: Rotation,
    flip: bool,
    t: int,
) -> (Action, Rotation)
    decreases SCANNING_DISTANCE - t,
{
    if t >= SCANNING_DISTANCE || t < 0 {
        (Action::Move(Direction::Forward), last)
    } else {
        let cell = line_cell(scan, o, t);
        if right_ahead(o, t) && obstacle(cell) {
            let rot = obstacle_turn(scan, o, t, flip);
            (Action::Rotate(rot), rot)
        } else if right_ahead(o, t) && cell == MapCell::Unallocated {
            (Action::Rotate(Rotation::Clockwise), Rotation::Clockwise)
        } else if enemy(cell, id) && (looks_east_west(o) || !right_ahead(o, t)) {
            (Action::Fire(Aiming::Cardinal(o)), last)
        } else {
            line_outcome(scan, o, id, last, flip, t + 1)
        }
    }
}

/// What the tank does on a mono scan: it reads the line straight ahead when it looks
/// along a row or a column, and otherwise turns again the way it last turned.
pub open spec fn mono_scan_outcome(
    scan: ScanResult,
    o: Orientation,
    id: PlayerId,
    last: Rotation,
    flip: bool,
) -> (Action, Rotation) {
    if looks_north_south(o) || looks_east_west(o) {
        line_outcome(scan, o, id, last, flip, 0)
    } else {
        (Action::Rotate(last), last)
    }
}

impl Swede {
    pub closed spec fn last_rotation_spec(self) -> Rotation {
        self.last_rotation
    }

    pub fn new() -> (r: Self)
        ensures
            r.last_rotation_spec() == Rotation::Clockwise,
    {
        Self { last_rotation: Rotation::Clockwise }
    }
}

impl Swede {
    fn handle_omni_scan(&mut self, _scan_result: &ScanResult, context: &Context) -> (r: Action)
        ensures
            r == Action::Fire(Aiming::Cardinal(context.details().orientation)),
            final(self).last_rotation == old(self).last_rotation,
    {
        //this shouldnt happen as the the logic is not using omni scan
        //shoot before asking any questions ;)
        Action::Fire(Aiming::Cardinal(context.player_details().orientation))
    }

    /// The turn away from an obstacle at the `t`-th cell of the line, the other way round
    /// on a coin flip when that side is open too.
    fn turn_from_obstacle(&mut self, scan_result: &ScanResult, o: Orientation, t: usize) -> (r:
        Action)
        requires
            looks_north_south(o) || looks_east_west(o),
            right_ahead(o, t as int),
        ensures
            r == Action::Rotate(final(self).last_rotation),
            exists|flip: bool|
                final(self).last_rotation == #[trigger] obstacle_turn(
                    *scan_result,
                    o,
                    t as int,
                    flip,
                ),
    {
        let field = MapCell::Terrain(Terrain::Field);
        let (side, other) = match o {
            Orientation::North => (scan_result.data[t + 1][MIDDLE - 1], scan_result.data[t
                + 1][MIDDLE + 1]),
            Orientation::South => (scan_result.data[t - 1][MIDDLE - 1], scan_result.data[t
                - 1][MIDDLE + 1]),
            _ => (scan_result.data[MIDDLE - 1][t], scan_result.data[MIDDLE + 1][t]),
        };
        self.last_rotation = match o {
            Orientation::North | Orientation::East => if side == field {
                Rotation::CounterClockwise
            } else {
                Rotation::Clockwise
            },
            _ => if side == field {
                Rotation::Clockwise
            } else {
                Rotation::CounterClockwise
            },
        };
        let ghost unflipped = self.last_rotation;
        let mut flipped = false;
        //cause some randomness by sometimes turning opposite way
        if other == field {
            if coin() {
                flipped = true;
                self.last_rotation = self.last_rotation.opposite();
            }
        }
        proof {
            assert(unflipped == turn_away(*scan_result, o, t as int));
            assert(self.last_rotation == obstacle_turn(*scan_result, o, t as int, flipped));
        }
        Action::Rotate(self.last_rotation)
    }

    /// Reacts to a mono scan: see `mono_scan_outcome`; the coin decides `flip`.
    fn handle_mono_scan(&mut self, scan_result: &ScanResult, context: &Context) -> (r: Action)
        ensures
            exists|flip: bool|
                (r, final(self).last_rotation) == mono_scan_outcome(
                    *scan_result,
                    context.details().orientation,
                    context.details().id,
                    old(self).last_rotation,
                    flip,
                ),
    {
        let orientation = context.player_details().orientation;
        let my_id = context.player_details().id;
        //check what is ahead, shoot if someone is ahead and alive
        let looking_north_south = orientation == Orientation::North || orientation
            == Orientation::South;
        let looking_east_west = orientation == Orientation::East || orientation == Orientation::West;

        if !looking_north_south && !looking_east_west {
            //not handled yet, turn 45 degrees
            proof {
                assert(mono_scan_outcome(*scan_result, orientation, my_id, self.last_rotation, false)
                    == (Action::Rotate(self.last_rotation), self.last_rotation));
            }
            return Action::Rotate(self.last_rotation);
        }
        let ghost last = self.last_rotation;
        let mut t: usize = 0;
        while t < SCANNING_DISTANCE
            invariant
                t <= SCANNING_DISTANCE,
                looks_north_south(orientation) || looks_east_west(orientation),
                looking_north_south == looks_north_south(orientation),
                looking_east_west == looks_east_west(orientation),
                orientation == context.details().orientation,
                my_id == context.details().id,
                self.last_rotation == last,
                last == old(self).last_rotation,
                forall|flip: bool|
                    line_outcome(*scan_result, orientation, my_id, last, flip, 0) == line_outcome(
                        *scan_result,
                        orientation,
                        my_id,
                        last,
                        flip,
                        t as int,
                    ),
            decreases SCANNING_DISTANCE - t,
        {
            let cell = if looking_north_south {
                scan_result.data[t][MIDDLE]
            } else {
                scan_result.data[MIDDLE][t]
            };
            let ahead = (t == 1 && (orientation == Orientation::South || orientation
                == Orientation::East)) || (t == SCANNING_DISTANCE - 2 && (orientation
                == Orientation::North || orientation == Orientation::West));
            if ahead {
                match cell {
                    MapCell::Terrain(terrain) => {
                        if terrain != Terrain::Field {
                            let r = self.turn_from_obstacle(scan_result, orientation, t);
                            proof {
                                let f = choose|f: bool|
                                    self.last_rotation == #[trigger] obstacle_turn(
                                        *scan_result,
                                        orientation,
                                        t as int,
                                        f,
                                    );
                                assert(line_outcome(*scan_result, orientation, my_id, last, f, t as int)
                                    == (r, self.last_rotation));
                                assert(mono_scan_outcome(*scan_result, orientation, my_id, last, f)
                                    == (r, self.last_rotation));
                            }
                            return r;
                        }
                    },
                    MapCell::Unallocated => {
                        self.last_rotation = Rotation::Clockwise;
                        proof {
                            assert(line_outcome(*scan_result, orientation, my_id, last, false, t as int)
                                == (Action::Rotate(Rotation::Clockwise), Rotation::Clockwise));
                            assert(mono_scan_outcome(*scan_result, orientation, my_id, last, false)
                                == (Action::Rotate(Rotation::Clockwise), Rotation::Clockwise));
                        }
                        return Action::Rotate(Rotation::Clockwise);
                    },
                    _ => {},
                }
            }
            if looking_east_west || !ahead {
                match cell {
                    MapCell::Player(player_details, _) => {
                        if player_details.alive && player_details.id != my_id {
                            proof {
                                assert(line_outcome(*scan_result, orientation, my_id, last, false, t as int)
                                    == (Action::Fire(Aiming::Cardinal(orientation)), last));
                                assert(mono_scan_outcome(*scan_result, orientation, my_id, last, false)
                                    == (Action::Fire(Aiming::Cardinal(orientation)), last));
                            }
                            return Action::Fire(Aiming::Cardinal(orientation));
                        }
                    },
                    _ => {},
                }
            }
            t = t + 1;
        }
        proof {
            assert(line_outcome(*scan_result, orientation, my_id, last, false, SCANNING_DISTANCE as int)
                == (Action::Move(Direction::Forward), last));
            assert(mono_scan_outcome(*scan_result, orientation, my_id, last, false) == (
            Action::Move(Direction::Forward), last));
        }

        Action::Move(Direction::Forward)
    }

    /// Reacts to the last scan, or scans all around when there is none.
    fn check_scan(&mut self, context: &Context) -> (r: Action)
        ensures
            context.scan_spec() is None ==> r == Action::Scan(ScanType::Omni),
            context.scan_spec() matches Some(scan) ==> (scan.scan_type == ScanType::Omni ==> r
                == Action::Fire(Aiming::Cardinal(context.details().orientation))),
            context.scan_spec() matches Some(scan) ==> (scan.scan_type is Mono ==> exists|flip: bool|
                (r, final(self).last_rotation) == mono_scan_outcome(
                    scan,
                    context.details().orientation,
                    context.details().id,
                    old(self).last_rotation,
                    flip,
                )),
    {
        if let Some(scan_result) = context.scanned_data() {
            let next = match scan_result.scan_type {
                ScanType::Mono(_) => self.handle_mono_scan(scan_result, context),
                ScanType::Omni => self.handle_omni_scan(scan_result, context),
            };
            return next;
        } else {
            Action::Scan(ScanType::Omni)
        }
    }
}

impl Player for Swede {
    /// The turn of the Swede: scan ahead after idling or firing, fire ahead after moving or
    /// turning, and react to the scan after scanning.
    fn act(&mut self, context: Context) -> (r: Action)
        ensures
            (context.previous_action_spec() is Idle || context.previous_action_spec() is Fire) ==> r
                == Action::Scan(ScanType::Mono(context.details().orientation)),
            (context.previous_action_spec() is Move || context.previous_action_spec() is Rotate)
                ==> r == Action::Fire(Aiming::Cardinal(context.details().orientation)),
            context.previous_action_spec() is Scan && context.scan_spec() is None ==> r
                == Action::Scan(ScanType::Omni),
            context.previous_action_spec() is Scan ==> (context.scan_spec() matches Some(scan) ==> (
            scan.scan_type == ScanType::Omni ==> r == Action::Fire(
                Aiming::Cardinal(context.details().orientation),
            ))),
            context.previous_action_spec() is Scan ==> (context.scan_spec() matches Some(scan) ==> (
            scan.scan_type is Mono ==> exists|flip: bool|
                (r, final(self).last_rotation_spec()) == mono_scan_outcome(
                    scan,
                    context.details().orientation,
                    context.details().id,
                    old(self).last_rotation_spec(),
                    flip,
                ))),
            !(context.previous_action_spec() is Scan) ==> final(self).last_rotation_spec()
                == old(self).last_rotation_spec(),
    {
        let next = match context.previous_action() {
            Action::Idle => Action::Scan(ScanType::Mono(context.player_details().orientation)),
            Action::Fire(_) => Action::Scan(ScanType::Mono(context.player_details().orientation)),
            Action::Move(_) => Action::Fire(Aiming::Cardinal(context.player_details().orientation)),
            Action::Rotate(_) => {
                Action::Fire(Aiming::Cardinal(context.player_details().orientation))
            },
            Action::Scan(_) => self.check_scan(&context),
        };

        return next;
    }

    fn is_ready(&self) -> (r: bool)
        ensures
            r,
    {
        true
    }

    fn name(&self) -> (r: String)
        ensures
            r@ == "The Swede"@,
    {
        "The Swede".to_owned()
    }
}

/// The cells of the line straight ahead before the `t`-th are all open field.
pub open spec fn open_before(scan: ScanResult, o: Orientation, t: int) -> bool {
    forall|s: int|
        0 <= s < t ==> (if o == Orientation::North || o == Orientation::South {
            scan.cell(s, MIDDLE as int)
        } else {
            scan.cell(MIDDLE as int, s)
        }) == MapCell::Terrain(Terrain::Field)
}

/// Reading on along an open stretch of the line changes nothing.
proof fn lemma_open_stretch(
    scan: ScanResult,
    o: Orientation,
    id: PlayerId,
    last: Rotation,
    flip: bool,
    s: int,
    t: int,
)
    requires
        0 <= s <= t < SCANNING_DISTANCE,
        o == Orientation::North || o == Orientation::South || o == Orientation::East || o
            == Orientation::West,
        open_before(scan, o, t),
    ensures
        line_outcome(scan, o, id, last, flip, s) == line_outcome(scan, o, id, last, flip, t),
    decreases t - s,
{
    if s < t {
        lemma_open_stretch(scan, o, id, last, flip, s + 1, t);
        let field = MapCell::Terrain(Terrain::Field);
        if o == Orientation::North || o == Orientation::South {
            assert(scan.cell(s, MIDDLE as int) == field);
        } else {
            assert(scan.cell(MIDDLE as int, s) == field);
        }
    }
}

/// The Swede shoots at a living tank of another id that a mono scan shows on its line of
/// sight when the line up to that tank is open field: along a row or a column, it fires a
/// cardinal shot in the way it faces and remembers the same turn as before. Looking north
/// or south, the tank must not stand right in front of it (in the scan's middle column,
/// row `SCANNING_DISTANCE - 2` looking north and row 1 looking south); looking east or
/// west, any distance will do.
pub proof fn lemma_swede_fires_at_a_tank_ahead(
    scan: ScanResult,
    o: Orientation,
    id: PlayerId,
    last: Rotation,
    flip: bool,
    t: int,
)
    requires
        o == Orientation::North || o == Orientation::South || o == Orientation::East || o
            == Orientation::West,
        0 <= t < SCANNING_DISTANCE,
        open_before(scan, o, t),
        (if o == Orientation::North || o == Orientation::South {
            scan.cell(t, MIDDLE as int)
        } else {
            scan.cell(MIDDLE as int, t)
        }) matches MapCell::Player(d, _) && d.alive && d.id != id,
        o == Orientation::North ==> t != SCANNING_DISTANCE - 2,
        o == Orientation::South ==> t != 1,
    ensures
        mono_scan_outcome(scan, o, id, last, flip) == (Action::Fire(Aiming::Cardinal(o)), last),
{
    lemma_open_stretch(scan, o, id, last, flip, 0, t);
}

/// On a mono scan whose line straight ahead is open field all the way, the Swede drives
/// forward and remembers the same turn as before.
pub proof fn lemma_swede_drives_down_an_open_line(
    scan: ScanResult,
    o: Orientation,
    id: PlayerId,
    last: Rotation,
    flip: bool,
)
    requires
        o == Orientation::North || o == Orientation::South || o == Orientation::East || o
            == Orientation::West,
        open_before(scan, o, SCANNING_DISTANCE as int),
    ensures
        mono_scan_outcome(scan, o, id, last, flip) == (Action::Move(Direction::Forward), last),
{
    lemma_open_stretch_to_end(scan, o, id, last, flip, 0);
}

/// Reading an open line to its end drives forward.
proof fn lemma_open_stretch_to_end(
    scan: ScanResult,
    o: Orientation,
    id: PlayerId,
    last: Rotation,
    flip: bool,
    s: int,
)
    requires
        0 <= s <= SCANNING_DISTANCE,
        o == Orientation::North || o == Orientation::South || o == Orientation::East || o
            == Orientation::West,
        open_before(scan, o, SCANNING_DISTANCE as int),
    ensures
        line_outcome(scan, o, id, last, flip, s) == (Action::Move(Direction::Forward), last),
    decreases SCANNING_DISTANCE - s,
{
    if s < SCANNING_DISTANCE {
        lemma_open_stretch_to_end(scan, o, id, last, flip, s + 1);
        let field = MapCell::Terrain(Terrain::Field);
        if o == Orientation::North || o == Orientation::South {
            assert(scan.cell(s, MIDDLE as int) == field);
        } else {
            assert(scan.cell(MIDDLE as int, s) == field);
        }
    }
}

/// When the cell right in front of the Swede is unexplored and the line up to it is open
/// field, a mono scan turns it clockwise, and it remembers that turn.
pub proof fn lemma_swede_turns_clockwise_before_the_unknown(
    scan: ScanResult,
    o: Orientation,
    id: PlayerId,
    last: Rotation,
    flip: bool,
)
    requires
        o == Orientation::North || o == Orientation::South || o == Orientation::East || o
            == Orientation::West,
        ({
            let t = if o == Orientation::North || o == Orientation::West {
                SCANNING_DISTANCE - 2
            } else {
                1int
            };
            &&& open_before(scan, o, t)
            &&& (if o == Orientation::North || o == Orientation::South {
                scan.cell(t, MIDDLE as int)
            } else {
                scan.cell(MIDDLE as int, t)
            }) == MapCell::Unallocated
        }),
    ensures
        mono_scan_outcome(scan, o, id, last, flip) == (
            Action::Rotate(Rotation::Clockwise),
            Rotation::Clockwise,
        ),
{
    let t = if o == Orientation::North || o == Orientation::West {
        SCANNING_DISTANCE - 2
    } else {
        1int
    };
    lemma_open_stretch(scan, o, id, last, flip, 0, t);
}

/// Facing a diagonal, a mono scan makes the Swede turn again the way it last turned.
pub proof fn lemma_swede_turns_on_from_a_diagonal(
    scan: ScanResult,
    o: Orientation,
    id: PlayerId,
    last: Rotation,
    flip: bool,
)
    requires
        o == Orientation::NorthEast || o == Orientation::SouthEast || o == Orientation::SouthWest
            || o == Orientation::NorthWest,
    ensures
        mono_scan_outcome(scan, o, id, last, flip) == (Action::Rotate(last), last),
{
}

/// When an obstacle stands right in front of the Swede, the line up to it is open field
/// and the side next to it towards the west (looking north or south) or towards the north
/// (looking east or west) is open field, a mono scan without a flip turns the tank
/// towards that side, and it remembers that turn.
pub proof fn lemma_swede_turns_away_from_an_obstacle(
    scan: ScanResult,
    o: Orientation,
    id: PlayerId,
    last: Rotation,
)
    requires
        o == Orientation::North || o == Orientation::South || o == Orientation::East || o
            == Orientation::West,
        ({
            let t = if o == Orientation::North || o == Orientation::West {
                SCANNING_DISTANCE - 2
            } else {
                1int
            };
            let field = MapCell::Terrain(Terrain::Field);
            &&& open_before(scan, o, t)
            &&& (if o == Orientation::North || o == Orientation::South {
                scan.cell(t, MIDDLE as int)
            } else {
                scan.cell(MIDDLE as int, t)
            }) matches MapCell::Terrain(ground) && ground != Terrain::Field
            &&& (if o == Orientation::North {
                scan.cell(t + 1, MIDDLE - 1)
            } else if o == Orientation::South {
                scan.cell(t - 1, MIDDLE - 1)
            } else {
                scan.cell(MIDDLE - 1, t)
            }) == field
        }),
    ensures
        ({
            let out = mono_scan_outcome(scan, o, id, last, false);
            &&& out.0 == Action::Rotate(out.1)
            &&& (o == Orientation::North || o == Orientation::South) ==> crate::api::position::step_x(
                crate::api::orientation::turned(o, out.1),
            ) == -1
            &&& (o == Orientation::East || o == Orientation::West) ==> crate::api::position::step_y(
                crate::api::orientation::turned(o, out.1),
            ) == -1
        }),
{
    let t = if o == Orientation::North || o == Orientation::West {
        SCANNING_DISTANCE - 2
    } else {
        1int
    };
    lemma_open_stretch(scan, o, id, last, false, 0, t);
}

} // verus!
