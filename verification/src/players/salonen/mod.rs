use vstd::prelude::*;

use crate::api::{
    action::Action,
    aiming::Aiming,
    context::Context,
    direction::Direction,
    map_cell::{MapCell, Terrain},
    orientation::Orientation,
    path_finder::{alignment_spec, lemma_cardinal_target_aligned},
    player::Player,
    position::{step_x, step_y, Position, SCANNING_DISTANCE},
    rotation::Rotation,
    scan::{ScanResult, ScanType},
};
use crate::chance::chance;

verus! {

/// The number of cells of a scan.
pub const SCAN_CELLS: usize = SCANNING_DISTANCE * SCANNING_DISTANCE;

pub struct Es {
    iteration: u32,
    latest_scan_pos: Position,
    latest_scan_data: Option<ScanResult>,
    rotate_direction: Option<Rotation>,
}

/// The shot at the first tank of a scan, read row by row from the `k`-th cell, that can
/// be hit from `pos`: cardinally when aligned, else positionally. The tank reads the
/// cells' coordinates within the scan as map positions.
pub open spec fn target_action(scan: ScanResult, pos: Position, k: int) -> Option<Action>
    decreases SCAN_CELLS - k,
{
    if k < 0 || k >= SCAN_CELLS {
        None
    } else {
        let y = k / (SCANNING_DISTANCE as int);
        let x = k % (SCANNING_DISTANCE as int);
        let enemy = Position { x: x as usize, y: y as usize };
        match scan.cell(y, x) {
            MapCell::Player(_, _) => if pos.hits_cardinally(enemy) {
                Some(Action::Fire(Aiming::Cardinal(alignment_spec(pos, enemy)->0)))
            } else if pos.hits_positionally(enemy) {
                Some(Action::Fire(Aiming::Positional(enemy)))
            } else {
                target_action(scan, pos, k + 1)
            },
            _ => target_action(scan, pos, k + 1),
        }
    }
}

/// The move on the last scan, where the tank was at `scan_pos` and stands at `pos` facing
/// `o`: forward onto a field or a tank in front, a turn (the remembered way, else
/// clockwise when `clockwise`) before anything else in front, and a new scan when the cell
/// in front is beyond the scan's inner part. The second value is the remembered turn.
pub open spec fn wander_action(
    scan: ScanResult,
    scan_pos: Position,
    pos: Position,
    o: Orientation,
    remembered: Option<Rotation>,
    clockwise: bool,
) -> (Action, Option<Rotation>) {
    let center = (SCANNING_DISTANCE / 2) as int;
    let nx = center + pos.x - scan_pos.x + step_x(o);
    let ny = center + pos.y - scan_pos.y + step_y(o);
    if 0 < nx < SCANNING_DISTANCE && 0 < ny < SCANNING_DISTANCE {
        match scan.cell(ny, nx) {
            MapCell::Player(_, _) => (Action::Move(Direction::Forward), None),
            MapCell::Terrain(Terrain::Field) => (Action::Move(Direction::Forward), None),
            _ => {
                let d = match remembered {
                    Some(d) => d,
                    None => if clockwise {
                        Rotation::Clockwise
                    } else {
                        Rotation::CounterClockwise
                    },
                };
                (Action::Rotate(d), Some(d))
            },
        }
    } else {
        (Action::Scan(ScanType::Omni), None)
    }
}

impl Es {
    pub closed spec fn iteration_spec(self) -> u32 {
        self.iteration
    }

    pub closed spec fn latest_scan_spec(self) -> Option<(ScanResult, Position)> {
        match self.latest_scan_data {
            Some(s) => Some((s, self.latest_scan_pos)),
            None => None,
        }
    }

    pub closed spec fn rotate_direction_spec(self) -> Option<Rotation> {
        self.rotate_direction
    }

    /// Where the tank stood at its last scan.
    pub closed spec fn latest_scan_pos_spec(self) -> Position {
        self.latest_scan_pos
    }

    pub fn new() -> (r: Self)
        ensures
            r.iteration_spec() == 0,
            r.latest_scan_spec() is None,
            r.latest_scan_pos_spec() == (Position { x: 0, y: 0 }),
            r.rotate_direction_spec() is None,
    {
        Self {
            iteration: 0,
            latest_scan_pos: Position { x: 0, y: 0 },
            latest_scan_data: None,
            rotate_direction: None,
        }
    }

    fn find_alignment(&self, from: &Position, to: &Position) -> (r: Option<Orientation>)
        ensures
            r == alignment_spec(*from, *to),
    {
        let east_of = to.x > from.x;
        let dx: usize = if east_of {
            to.x - from.x
        } else {
            from.x - to.x
        };
        let south_of = to.y > from.y;
        let dy: usize = if south_of {
            to.y - from.y
        } else {
            from.y - to.y
        };

        if dx == 0 {
            if south_of {
                Some(Orientation::South)
            } else {
                Some(Orientation::North)
            }
        } else if dy == 0 {
            if east_of {
                Some(Orientation::East)
            } else {
                Some(Orientation::West)
            }
        } else if dx == dy {
            if east_of && south_of {
                Some(Orientation::SouthEast)
            } else if east_of {
                Some(Orientation::NorthEast)
            } else if south_of {
                Some(Orientation::SouthWest)
            } else {
                Some(Orientation::NorthWest)
            }
        } else {
            None
        }
    }

    /// The shot at the first tank of the scan within reach, if any.
    fn find_target(&self, scanned_data: &ScanResult, pos: &Position) -> (r: Option<Action>)
        ensures
            r == target_action(*scanned_data, *pos, 0),
    {
        let mut y: usize = 0;
        while y < SCANNING_DISTANCE
            invariant
                y <= SCANNING_DISTANCE,
                target_action(*scanned_data, *pos, 0) == target_action(
                    *scanned_data,
                    *pos,
                    (y * SCANNING_DISTANCE) as int,
                ),
            decreases SCANNING_DISTANCE - y,
        {
            let mut x: usize = 0;
            while x < SCANNING_DISTANCE
                invariant
                    y < SCANNING_DISTANCE,
                    x <= SCANNING_DISTANCE,
                    target_action(*scanned_data, *pos, 0) == target_action(
                        *scanned_data,
                        *pos,
                        (y * SCANNING_DISTANCE + x) as int,
                    ),
                decreases SCANNING_DISTANCE - x,
            {
                let ghost k = (y * SCANNING_DISTANCE + x) as int;
                proof {
                    vstd::arithmetic::div_mod::lemma_fundamental_div_mod_converse(
                        k,
                        SCANNING_DISTANCE as int,
                        y as int,
                        x as int,
                    );
                }
                if let MapCell::Player(_, _) = scanned_data.data[y][x] {
                    let enemy_pos = Position { x, y };
                    proof {
                        if pos.hits_cardinally(enemy_pos) {
                            lemma_cardinal_target_aligned(*pos, enemy_pos);
                        }
                    }
                    if pos.could_hit_cardinally(&enemy_pos) {
                        if let Some(orientation) = self.find_alignment(pos, &enemy_pos) {
                            return Some(Action::Fire(Aiming::Cardinal(orientation)));
                        }
                    } else if pos.could_hit_positionally(&enemy_pos) {
                        return Some(Action::Fire(Aiming::Positional(enemy_pos)));
                    }
                }
                x = x + 1;
            }
            y = y + 1;
        }
        None
    }

    /// The move on the last scan; see `wander_action`.
    fn wander(&mut self, context: &Context) -> (r: Action)
        requires
            old(self).latest_scan_data is Some,
        ensures
            exists|clockwise: bool|
                (r, final(self).rotate_direction) == #[trigger] wander_action(
                    old(self).latest_scan_data->0,
                    old(self).latest_scan_pos,
                    context.position_spec(),
                    context.details().orientation,
                    old(self).rotate_direction,
                    clockwise,
                ),
            final(self).latest_scan_data == old(self).latest_scan_data,
            final(self).latest_scan_pos == old(self).latest_scan_pos,
            final(self).iteration == old(self).iteration,
    {
        let pos = context.position();
        let center = (SCANNING_DISTANCE / 2) as i128;
        let mut next_cell_x: i128 = center + pos.x as i128 - self.latest_scan_pos.x as i128;
        let mut next_cell_y: i128 = center + pos.y as i128 - self.latest_scan_pos.y as i128;

        // Could use follow
        match context.player_details().orientation {
            Orientation::North => {
                next_cell_y = next_cell_y - 1;
            },
            Orientation::NorthWest => {
                next_cell_y = next_cell_y - 1;
                next_cell_x = next_cell_x - 1;
            },
            Orientation::West => {
                next_cell_x = next_cell_x - 1;
            },
            Orientation::SouthWest => {
                next_cell_x = next_cell_x - 1;
                next_cell_y = next_cell_y + 1;
            },
            Orientation::South => {
                next_cell_y = next_cell_y + 1;
            },
            Orientation::SouthEast => {
                next_cell_y = next_cell_y + 1;
                next_cell_x = next_cell_x + 1;
            },
            Orientation::East => {
                next_cell_x = next_cell_x + 1;
            },
            Orientation::NorthEast => {
                next_cell_x = next_cell_x + 1;
                next_cell_y = next_cell_y - 1;
            },
        }

        let inside = next_cell_x > 0 && next_cell_x < SCANNING_DISTANCE as i128 && next_cell_y > 0
            && next_cell_y < SCANNING_DISTANCE as i128;
        if inside {
            let next_cell = match &self.latest_scan_data {
                Some(scanned_data) => scanned_data.data[next_cell_y as usize][next_cell_x as usize],
                None => MapCell::Unallocated,
            };

            match next_cell {
                MapCell::Player(_, _) => {
                    self.rotate_direction = None;
                    proof {
                        assert((Action::Move(Direction::Forward), self.rotate_direction)
                            == wander_action(
                            old(self).latest_scan_data->0,
                            old(self).latest_scan_pos,
                            context.position_spec(),
                            context.details().orientation,
                            old(self).rotate_direction,
                            true,
                        ));
                    }
                    return Action::Move(Direction::Forward);
                },
                MapCell::Terrain(Terrain::Field) => {
                    self.rotate_direction = None;
                    proof {
                        assert((Action::Move(Direction::Forward), self.rotate_direction)
                            == wander_action(
                            old(self).latest_scan_data->0,
                            old(self).latest_scan_pos,
                            context.position_spec(),
                            context.details().orientation,
                            old(self).rotate_direction,
                            true,
                        ));
                    }
                    return Action::Move(Direction::Forward);
                },
                _ => {
                    let mut clockwise = true;
                    if self.rotate_direction.is_none() {
                        clockwise = chance(1, 2);
                        let dir = if clockwise {
                            Rotation::Clockwise
                        } else {
                            Rotation::CounterClockwise
                        };

                        self.rotate_direction = Some(dir);
                    }
                    let turn = match self.rotate_direction {
                        Some(d) => d,
                        None => Rotation::Clockwise,
                    };
                    proof {
                        assert((Action::Rotate(turn), self.rotate_direction) == wander_action(
                            old(self).latest_scan_data->0,
                            old(self).latest_scan_pos,
                            context.position_spec(),
                            context.details().orientation,
                            old(self).rotate_direction,
                            clockwise,
                        ));
                    }
                    return Action::Rotate(turn);
                },
            }
        } else {
            self.rotate_direction = None;
            proof {
                assert((Action::Scan(ScanType::Omni), self.rotate_direction) == wander_action(
                    old(self).latest_scan_data->0,
                    old(self).latest_scan_pos,
                    context.position_spec(),
                    context.details().orientation,
                    old(self).rotate_direction,
                    true,
                ));
            }
            //println!("Going outside of the scanned area. Doing a rescan");
            return Action::Scan(ScanType::Omni);
        }
    }
}

impl Player for Es {
    /// Scans all around on the first turn; then shoots at the first tank within reach
    /// that a fresh scan shows, and otherwise moves on the last scan.
    fn act(&mut self, context: Context) -> (r: Action)
        ensures
            final(self).iteration_spec() == if old(self).iteration_spec() < u32::MAX {
                old(self).iteration_spec() + 1
            } else {
                0
            },
            final(self).iteration_spec() == 1 ==> r == Action::Scan(ScanType::Omni),
            final(self).iteration_spec() == 1 ==> final(self).latest_scan_spec() == old(self).latest_scan_spec()
                && final(self).latest_scan_pos_spec() == old(self).latest_scan_pos_spec()
                && final(self).rotate_direction_spec() == old(self).rotate_direction_spec(),
            final(self).iteration_spec() != 1 && context.scan_spec() is Some ==> final(self).latest_scan_spec() == Some((context.scan_spec()->0, context.position_spec())),
            final(self).iteration_spec() != 1 && (context.scan_spec() matches Some(scan)
                && target_action(scan, context.position_spec(), 0) is Some) ==> r
                == target_action(context.scan_spec()->0, context.position_spec(), 0)->0
                && final(self).rotate_direction_spec() == old(self).rotate_direction_spec(),
            final(self).iteration_spec() != 1 && (context.scan_spec() matches Some(scan)
                && target_action(scan, context.position_spec(), 0) is None) ==> exists|clockwise: bool|
                (r, final(self).rotate_direction_spec()) == #[trigger] wander_action(
                    context.scan_spec()->0,
                    context.position_spec(),
                    context.position_spec(),
                    context.details().orientation,
                    old(self).rotate_direction_spec(),
                    clockwise,
                ),
            final(self).iteration_spec() != 1 && context.scan_spec() is None ==> final(self).latest_scan_spec() == old(self).latest_scan_spec(),
            final(self).iteration_spec() != 1 && context.scan_spec() is None ==> (old(self).latest_scan_spec() is Some ==> exists|clockwise: bool|
                (r, final(self).rotate_direction_spec()) == #[trigger] wander_action(
                    (old(self).latest_scan_spec()->0).0,
                    (old(self).latest_scan_spec()->0).1,
                    context.position_spec(),
                    context.details().orientation,
                    old(self).rotate_direction_spec(),
                    clockwise,
                )),
            final(self).iteration_spec() != 1 && context.scan_spec() is None && old(self).latest_scan_spec() is None ==> r == Action::Idle
                && final(self).rotate_direction_spec() == old(self).rotate_direction_spec(),
    {
        self.iteration = if self.iteration < u32::MAX {
            self.iteration + 1
        } else {
            0
        };

        if self.iteration == 1 {
            return Action::Scan(ScanType::Omni);
        }
        if let Some(scanned_data) = context.scanned_data() {
            self.latest_scan_data = Some(scanned_data.clone());
            self.latest_scan_pos = *context.position();

            if let Some(action) = self.find_target(scanned_data, context.position()) {
                return action;
            }
        }
        if self.latest_scan_data.is_some() {
            let ghost before = *self;
            let a = self.wander(&context);
            proof {
                let c = choose|c: bool|
                    (a, self.rotate_direction) == #[trigger] wander_action(
                        before.latest_scan_data->0,
                        before.latest_scan_pos,
                        context.position_spec(),
                        context.details().orientation,
                        before.rotate_direction,
                        c,
                    );
                if context.scan_spec() is None {
                    assert((old(self).latest_scan_spec()->0).0 == before.latest_scan_data->0);
                    assert((old(self).latest_scan_spec()->0).1 == before.latest_scan_pos);
                    assert((a, self.rotate_direction_spec()) == wander_action(
                        (old(self).latest_scan_spec()->0).0,
                        (old(self).latest_scan_spec()->0).1,
                        context.position_spec(),
                        context.details().orientation,
                        old(self).rotate_direction_spec(),
                        c,
                    ));
                }
            }
            return a;
        }
        Action::Idle
    }

    fn name(&self) -> (r: String)
        ensures
            r@ == "ES"@,
    {
        "ES".to_owned()
    }

    fn is_ready(&self) -> (r: bool)
        ensures
            r,
    {
        true
    }
}

} // verus!
