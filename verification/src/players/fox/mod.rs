use vstd::prelude::*;

use crate::api::{
    action::Action,
    aiming::Aiming,
    context::Context,
    direction::Direction,
    map_cell::{MapCell, Terrain},
    orientation::{orientation_at, quick_turn_spec, Orientation},
    player::Player,
    position::{Position, SCANNING_DISTANCE},
    scan::{ScanResult, ScanType},
};
use crate::chance::number_between;

verus! {

pub const MAX_STEPS: u8 = 3;

pub struct TwentyCenturyFox {
    move_action: Action,
    scan_data: ScanResult,
    scan_pos: Position,
    steps: u8,
    target_orientation: Orientation,
}

/// Whether the last scan shows a cell that the tank may drive onto at `next`: open field,
/// or a tank (which moves on). A cell out of the scan's reach counts as blocked.
pub open spec fn walkable_in_scan(scan: ScanResult, scan_pos: Position, next: Position) -> bool {
    let sx = SCANNING_DISTANCE / 2 + next.x - scan_pos.x;
    let sy = SCANNING_DISTANCE / 2 + next.y - scan_pos.y;
    0 <= sx < SCANNING_DISTANCE && 0 <= sy < SCANNING_DISTANCE && match scan.cell(sy, sx) {
        MapCell::Terrain(Terrain::Field) => true,
        MapCell::Player(_, _) => true,
        _ => false,
    }
}

/// Whether the step towards `target` stays in the world and lands on a cell that the scan
/// shows as open.
pub open spec fn step_open(scan: ScanResult, scan_pos: Position, target: Orientation, ctx: Context) -> bool {
    match ctx.position_spec().followed(target, ctx.world_size_spec()) {
        Some(next) => walkable_in_scan(scan, scan_pos, next),
        None => false,
    }
}

/// The move towards the target orientation: forward when the tank faces it, else the
/// quick turn towards it.
pub open spec fn move_towards(facing: Orientation, target: Orientation) -> Action {
    if target == facing {
        Action::Move(Direction::Forward)
    } else {
        Action::Rotate(quick_turn_spec(facing, target).0)
    }
}

impl TwentyCenturyFox {
    /// The planned move.
    pub closed spec fn move_action_spec(self) -> Action {
        self.move_action
    }

    /// The scan last stored.
    pub closed spec fn scan_data_spec(self) -> ScanResult {
        self.scan_data
    }

    /// Where the tank stood at the last scan.
    pub closed spec fn scan_pos_spec(self) -> Position {
        self.scan_pos
    }

    /// The shots fired since the last scan.
    pub closed spec fn steps_spec(self) -> u8 {
        self.steps
    }

    /// The orientation the tank wants to drive in.
    pub closed spec fn target_orientation_spec(self) -> Orientation {
        self.target_orientation
    }

    /// Whether the step towards the target orientation stays in the world and lands on a
    /// cell the last scan shows as open.
    pub closed spec fn target_open(self, ctx: Context) -> bool {
        step_open(self.scan_data, self.scan_pos, self.target_orientation, ctx)
    }

    pub fn new() -> (r: Self)
        ensures
            r.move_action_spec() == Action::Idle,
            r.scan_pos_spec() == (Position { x: 0, y: 0 }),
            r.steps_spec() == 0,
            r.target_orientation_spec() == Orientation::North,
            r.scan_data_spec().scan_type == ScanType::Omni,
    {
        Self {
            move_action: Action::Idle,
            scan_data: ScanResult::default(),
            scan_pos: Position { x: 0, y: 0 },
            steps: 0,
            target_orientation: Orientation::North,
        }
    }
}

impl TwentyCenturyFox {
    /// One of the eight orientations, drawn at random.
    fn random_orientation(&mut self) -> (r: Orientation)
        ensures
            *final(self) == *old(self),
    {
        Orientation::from(number_between(0, Orientation::get_cardinal_direction_count()))
    }

    /// Picks the action for this turn from the one of the previous turn.
    fn next_state(&mut self, context: Context) -> (r: Action)
        ensures
            turn_taken(*old(self), context, r, *final(self)),
    {
        match context.previous_action() {
            Action::Idle => Action::Scan(ScanType::Omni),
            Action::Scan(_) => {
                self.scan_data = match context.scanned_data() {
                    Some(s) => s.clone(),
                    None => ScanResult::default(),
                };
                self.scan_pos = *context.position();
                self.move_or_rotate(&context);
                self.move_action
            },
            Action::Fire(_) => self.move_action,
            Action::Move(_) => {
                self.move_or_rotate(&context);
                self.next_step(context)
            },
            Action::Rotate(_) => {
                if self.target_orientation == context.player_details().orientation {
                    self.move_action = Action::Move(Direction::Forward);
                }
                self.next_step(context)
            },
        }
    }

    /// Keeps the target orientation while the step towards it is open, and otherwise
    /// draws new ones at random, up to a thousand and one times; then plans the move
    /// towards it.
    fn move_or_rotate(&mut self, context: &Context)
        ensures
            final(self).move_action == move_towards(
                context.details().orientation,
                final(self).target_orientation,
            ),
            old(self).target_open(*context) ==> final(self).target_orientation
                == old(self).target_orientation,
            final(self).scan_data == old(self).scan_data,
            final(self).scan_pos == old(self).scan_pos,
            final(self).steps == old(self).steps,
    {
        let (mut valid_pos, mut walkable_pos) = self.check_next_pos(context);

        let mut x: u32 = 0;
        while !(valid_pos && walkable_pos)
            invariant
                x <= 1000,
                self.scan_data == old(self).scan_data,
                self.scan_pos == old(self).scan_pos,
                self.steps == old(self).steps,
                self.move_action == old(self).move_action,
                old(self).target_open(*context) ==> valid_pos && walkable_pos
                    && self.target_orientation == old(self).target_orientation,
            decreases 1000 - x,
        {
            // select random orientation
            self.target_orientation = self.random_orientation();

            // check if valid and walkable
            let (v, w) = self.check_next_pos(context);
            valid_pos = v;
            walkable_pos = w;

            if x >= 1000 {
                break;
            }
            x += 1;
        }

        if self.target_orientation == context.player_details().orientation {
            self.move_action = Action::Move(Direction::Forward);
        } else {
            let (rot, _) = context.player_details().orientation.quick_turn(&self.target_orientation);
            self.move_action = Action::Rotate(rot);
        }
    }

    /// Whether the step towards the target orientation stays in the world, and whether
    /// it lands on an open cell.
    fn check_next_pos(&mut self, context: &Context) -> (r: (bool, bool))
        ensures
            r.0 == context.position_spec().followed(
                old(self).target_orientation,
                context.world_size_spec(),
            ) is Some,
            r.0 && r.1 <==> old(self).target_open(*context),
            *final(self) == *old(self),
    {
        let mut valid_pos = false;
        let mut walkable_pos = false;

        if let Some(next_pos) = context.position().follow(
            &self.target_orientation,
            context.world_size(),
        ) {
            valid_pos = true;
            walkable_pos = self.can_walk(&next_pos)
        }
        (valid_pos, walkable_pos)
    }

    /// A scan all around after three shots, otherwise a cardinal shot ahead.
    fn next_step(&mut self, context: Context) -> (r: Action)
        ensures
            stepped(old(self).steps, final(self).steps, r, context.details().orientation),
            final(self).move_action == old(self).move_action,
            final(self).target_orientation == old(self).target_orientation,
            final(self).scan_data == old(self).scan_data,
            final(self).scan_pos == old(self).scan_pos,
    {
        if self.steps >= MAX_STEPS {
            self.steps = 0;
            Action::Scan(ScanType::Omni)
        } else {
            self.steps += 1;
            Action::Fire(Aiming::Cardinal(context.player_details().orientation))
        }
    }

    fn can_walk(&self, next_pos: &Position) -> (r: bool)
        ensures
            r == walkable_in_scan(self.scan_data, self.scan_pos, *next_pos),
    {
        let scan_pos = match self.translate_to_scan_position(next_pos) {
            Some(p) => p,
            None => {
                return false;
            },
        };
        proof {
            assert(self.scan_data.data@[scan_pos.y as int]@[scan_pos.x as int] == self.scan_data.cell(
                scan_pos.y as int,
                scan_pos.x as int,
            ));
        }
        match self.scan_data.data[scan_pos.y][scan_pos.x] {
            MapCell::Terrain(Terrain::Field) | MapCell::Player(_, _) => true,
            _ => false,
        }
    }

    /// Where a world position lies in the last scan, when the scan reaches it.
    fn translate_to_scan_position(&self, new_position: &Position) -> (r: Option<Position>)
        ensures
            ({
                let sx = SCANNING_DISTANCE / 2 + new_position.x - self.scan_pos.x;
                let sy = SCANNING_DISTANCE / 2 + new_position.y - self.scan_pos.y;
                r == if 0 <= sx < SCANNING_DISTANCE && 0 <= sy < SCANNING_DISTANCE {
                    Some(Position { x: sx as usize, y: sy as usize })
                } else {
                    None
                }
            }),
    {
        let (new_x, new_y) = (new_position.x, new_position.y);
        let half = SCANNING_DISTANCE / 2;
        let x = if new_x >= self.scan_pos.x {
            if new_x - self.scan_pos.x > half {
                return None;
            }
            half + (new_x - self.scan_pos.x)
        } else {
            if self.scan_pos.x - new_x > half {
                return None;
            }
            half - (self.scan_pos.x - new_x)
        };
        let y = if new_y >= self.scan_pos.y {
            if new_y - self.scan_pos.y > half {
                return None;
            }
            half + (new_y - self.scan_pos.y)
        } else {
            if self.scan_pos.y - new_y > half {
                return None;
            }
            half - (self.scan_pos.y - new_y)
        };
        Some(Position { x, y })
    }
}

/// One turn of the fox, by what it did the turn before: a scan all around after idling;
/// the planned move again after a shot; after a scan, the scan stored and a move planned;
/// after a move, a move planned and a step of the shooting count; after a turn, forward
/// once it faces the target, and a step of the shooting count.
pub open spec fn turn_taken(before: TwentyCenturyFox, ctx: Context, r: Action, after: TwentyCenturyFox) -> bool {
    &&& (ctx.previous_action_spec() is Idle ==> r == Action::Scan(ScanType::Omni)
                && after == before)
    &&& (ctx.previous_action_spec() is Fire ==> r == before.move_action_spec()
                && after == before)
    &&& (ctx.previous_action_spec() is Scan ==> {
                &&& match ctx.scan_spec() {
                    Some(scan) => after.scan_data_spec() == scan,
                    None => after.scan_data_spec().scan_type == ScanType::Omni && forall|y: int, x: int|
                        0 <= y < SCANNING_DISTANCE && 0 <= x < SCANNING_DISTANCE
                            ==> #[trigger] after.scan_data_spec().cell(y, x) == MapCell::Unallocated,
                }
                &&& after.scan_pos_spec() == ctx.position_spec()
                &&& after.move_action_spec() == move_towards(
                    ctx.details().orientation,
                    after.target_orientation_spec(),
                )
                &&& step_open(
                    after.scan_data_spec(),
                    ctx.position_spec(),
                    before.target_orientation_spec(),
                    ctx,
                ) ==> after.target_orientation_spec() == before.target_orientation_spec()
                &&& after.steps_spec() == before.steps_spec()
                &&& r == after.move_action_spec()
            })
    &&& (ctx.previous_action_spec() is Move ==> {
                &&& after.move_action_spec() == move_towards(
                    ctx.details().orientation,
                    after.target_orientation_spec(),
                )
                &&& before.target_open(ctx) ==> after.target_orientation_spec()
                    == before.target_orientation_spec()
                &&& stepped(before.steps_spec(), after.steps_spec(), r, ctx.details().orientation)
            })
    &&& (ctx.previous_action_spec() is Rotate ==> {
                &&& after.move_action_spec() == if before.target_orientation_spec()
                    == ctx.details().orientation {
                    Action::Move(Direction::Forward)
                } else {
                    before.move_action_spec()
                }
                &&& after.target_orientation_spec() == before.target_orientation_spec()
                &&& stepped(before.steps_spec(), after.steps_spec(), r, ctx.details().orientation)
            })
}

/// The step after a move or a turn: after three shots the counter starts again with a
/// scan all around, otherwise it counts another cardinal shot ahead.
pub open spec fn stepped(before: u8, after: u8, r: Action, facing: Orientation) -> bool {
    if before >= MAX_STEPS {
        after == 0 && r == Action::Scan(ScanType::Omni)
    } else {
        after == before + 1 && r == Action::Fire(Aiming::Cardinal(facing))
    }
}

impl Player for TwentyCenturyFox {
    fn act(&mut self, context: Context) -> (r: Action)
        ensures
            turn_taken(*old(self), context, r, *final(self)),
    {
        self.next_state(context)
    }

    fn name(&self) -> (r: String)
        ensures
            r@ == "Twenty Century Fox"@,
    {
        "Twenty Century Fox".to_owned()
    }
}

} // verus!
