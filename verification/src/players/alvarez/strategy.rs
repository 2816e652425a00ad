use vstd::prelude::*;

use crate::api::{
    action::Action,
    aiming::Aiming,
    context::Context,
    direction::Direction,
    orientation::{orientation_at, orientation_index, quick_turn_spec, turned, Orientation},
    scan::ScanType,
    path_finder::alignment_spec,
    position::Position,
    rotation::Rotation,
    world_size::WorldSize,
};
use crate::table::PositionTable;

use super::tanks::{Distance, TankInfo, Turn};

verus! {

pub enum Situation {
    UnderAttack,
    InDanger,
    EnemyNearby,
    AtChokePoint,
    Exploring,
    Safe,
}

/// The orientation of one step from `from` to a neighbouring `to`.
pub open spec fn step_orientation(from: Position, to: Position) -> Option<Orientation> {
    let dx = to.x - from.x;
    let dy = to.y - from.y;
    if dx == 0 && dy == -1 {
        Some(Orientation::North)
    } else if dx == 1 && dy == -1 {
        Some(Orientation::NorthEast)
    } else if dx == 1 && dy == 0 {
        Some(Orientation::East)
    } else if dx == 1 && dy == 1 {
        Some(Orientation::SouthEast)
    } else if dx == 0 && dy == 1 {
        Some(Orientation::South)
    } else if dx == -1 && dy == 1 {
        Some(Orientation::SouthWest)
    } else if dx == -1 && dy == 0 {
        Some(Orientation::West)
    } else if dx == -1 && dy == -1 {
        Some(Orientation::NorthWest)
    } else {
        None
    }
}

/// The orientation of one step from `from` to `to`, when they are neighbours.
pub fn orientation_between(from: &Position, to: &Position) -> (r: Option<Orientation>)
    ensures
        r == step_orientation(*from, *to),
{
    let dx: i128 = to.x as i128 - from.x as i128;
    let dy: i128 = to.y as i128 - from.y as i128;

    if dx == 0 && dy == -1 {
        Some(Orientation::North)
    } else if dx == 1 && dy == -1 {
        Some(Orientation::NorthEast)
    } else if dx == 1 && dy == 0 {
        Some(Orientation::East)
    } else if dx == 1 && dy == 1 {
        Some(Orientation::SouthEast)
    } else if dx == 0 && dy == 1 {
        Some(Orientation::South)
    } else if dx == -1 && dy == 1 {
        Some(Orientation::SouthWest)
    } else if dx == -1 && dy == 0 {
        Some(Orientation::West)
    } else if dx == -1 && dy == -1 {
        Some(Orientation::NorthWest)
    } else {
        None
    }
}

/// Stepping from a position to the cell one step towards an orientation goes that way.
pub proof fn lemma_step_orientation_of_follow(
    p: Position,
    o: Orientation,
    world_size: crate::api::world_size::WorldSize,
)
    ensures
        p.followed(o, world_size) matches Some(q) ==> step_orientation(p, q) == Some(o),
{
}

/// Whether the last sighting of a tank falls on the given turn.
pub open spec fn seen_now(t: TankInfo, turn: Turn) -> bool {
    t.known_positions@.len() > 0 && t.known_positions@.last().2 == turn
}

/// Where a tank was last seen.
pub open spec fn last_seen_at(t: TankInfo) -> Position {
    t.known_positions@.last().0
}

/// How far the last sighting of a tank lay.
pub open spec fn last_distance(t: TankInfo) -> Distance {
    t.known_positions@.last().1
}

/// Whether a tank seen on the turn can be shot at from `from`: within positional reach,
/// or else (for a cardinal shot) on a line or a diagonal through `from`.
pub open spec fn target_for(t: TankInfo, from: Position, turn: Turn, positional: bool) -> bool {
    &&& seen_now(t, turn)
    &&& if positional {
        from.hits_positionally(last_seen_at(t))
    } else {
        alignment_spec(from, last_seen_at(t)) is Some
    }
}

/// Among the first `n` tanks, the index of the first of the closest ones that can be shot
/// at.
pub open spec fn closest_target(
    es: Seq<TankInfo>,
    from: Position,
    turn: Turn,
    positional: bool,
    n: int,
) -> Option<int>
    decreases n,
{
    if n <= 0 {
        None
    } else {
        let prev = closest_target(es, from, turn, positional, n - 1);
        if target_for(es[n - 1], from, turn, positional) && match prev {
            Some(j) => last_distance(es[n - 1]) < last_distance(es[j]),
            None => true,
        } {
            Some(n - 1)
        } else {
            prev
        }
    }
}

/// The shot at the closest tank seen on the turn within positional reach; else the
/// cardinal shot at the closest one on a line or a diagonal; else none.
pub open spec fn best_shot(es: Seq<TankInfo>, from: Position, turn: Turn) -> Option<Action> {
    match closest_target(es, from, turn, true, es.len() as int) {
        Some(i) => Some(Action::Fire(Aiming::Positional(last_seen_at(es[i])))),
        None => match closest_target(es, from, turn, false, es.len() as int) {
            Some(i) => Some(
                Action::Fire(Aiming::Cardinal(alignment_spec(from, last_seen_at(es[i]))->0)),
            ),
            None => None,
        },
    }
}

/// The cells that a shot fired from `start` towards `o` crosses, at most `n` of them,
/// stopping at the edge of the world.
pub open spec fn fire_line(start: Position, o: Orientation, world_size: WorldSize, n: nat) -> Set<
    Position,
>
    decreases n,
{
    if n == 0 {
        Set::empty()
    } else {
        match start.followed(o, world_size) {
            Some(q) => fire_line(q, o, world_size, (n - 1) as nat).insert(q),
            None => Set::empty(),
        }
    }
}

/// The cells that a shot from `enemy` straight at a neighbouring `me` crosses.
pub open spec fn aimed_line(enemy: Position, me: Position, world_size: WorldSize) -> Set<
    Position,
> {
    match step_orientation(enemy, me) {
        Some(o) => fire_line(enemy, o, world_size, 8),
        None => Set::empty(),
    }
}

/// The cells that a tank endangers from where it was last seen: the line of a shot at
/// `me`, and the lines of shots after one turn either way.
pub open spec fn endangered_by(t: TankInfo, me: Position, world_size: WorldSize) -> Set<Position> {
    if t.known_positions@.len() > 0 {
        let p = last_seen_at(t);
        aimed_line(p, me, world_size) + fire_line(
            p,
            turned(t.orientation, Rotation::Clockwise),
            world_size,
            8,
        ) + fire_line(p, turned(t.orientation, Rotation::CounterClockwise), world_size, 8)
    } else {
        Set::empty()
    }
}

/// The cells that the first `n` tanks endanger.
pub open spec fn endangered(es: Seq<TankInfo>, me: Position, world_size: WorldSize, n: int) -> Set<
    Position,
>
    decreases n,
{
    if n <= 0 {
        Set::empty()
    } else {
        endangered(es, me, world_size, n - 1) + endangered_by(es[n - 1], me, world_size)
    }
}

/// The actions that turn the tank from `current` to `target` the short way and then drive
/// one step forward.
pub open spec fn turn_and_go(current: Orientation, target: Orientation) -> Seq<Action> {
    if current == target {
        seq![Action::Move(Direction::Forward)]
    } else {
        Seq::new(
            quick_turn_spec(current, target).1 as nat,
            |i: int| Action::Rotate(quick_turn_spec(current, target).0),
        ).push(Action::Move(Direction::Forward))
    }
}

/// An index that `closest_target` picks holds a tank that can be shot at.
proof fn lemma_closest_target_valid(
    es: Seq<TankInfo>,
    from: Position,
    turn: Turn,
    positional: bool,
    n: int,
)
    ensures
        closest_target(es, from, turn, positional, n) matches Some(j) ==> 0 <= j < n
            && target_for(es[j], from, turn, positional),
    decreases n,
{
    if n > 0 {
        lemma_closest_target_valid(es, from, turn, positional, n - 1);
    }
}

pub struct CombatStrategy {}

impl CombatStrategy {
    pub fn new() -> (r: Self) {
        Self {  }
    }

    /// The index of the first of the closest tanks that can be shot at; see
    /// `closest_target`.
    fn closest_target_index(
        &self,
        my_pos: &Position,
        enemies: &[TankInfo],
        current_turn: Turn,
        positional: bool,
    ) -> (r: Option<usize>)
        ensures
            r matches Some(i) ==> closest_target(
                enemies@,
                *my_pos,
                current_turn,
                positional,
                enemies@.len() as int,
            ) == Some(i as int),
            r is None ==> closest_target(
                enemies@,
                *my_pos,
                current_turn,
                positional,
                enemies@.len() as int,
            ) is None,
    {
        let mut best: Option<usize> = None;
        let mut i: usize = 0;
        while i < enemies.len()
            invariant
                i <= enemies@.len(),
                best matches Some(b) ==> closest_target(
                    enemies@,
                    *my_pos,
                    current_turn,
                    positional,
                    i as int,
                ) == Some(b as int),
                best is None ==> closest_target(
                    enemies@,
                    *my_pos,
                    current_turn,
                    positional,
                    i as int,
                ) is None,
            decreases enemies@.len() - i,
        {
            proof {
                lemma_closest_target_valid(enemies@, *my_pos, current_turn, positional, i as int);
            }
            let tank = &enemies[i];
            let n = tank.known_positions.len();
            if n > 0 {
                let (pos, dist, turn) = tank.known_positions[n - 1];
                if turn == current_turn {
                    let hit = if positional {
                        my_pos.could_hit_positionally(&pos)
                    } else {
                        tank.find_alignment(my_pos, &pos).is_some()
                    };
                    if hit {
                        match best {
                            None => {
                                best = Some(i);
                            },
                            Some(b) => {
                                let other = &enemies[b].known_positions;
                                if dist < other[other.len() - 1].1 {
                                    best = Some(i);
                                }
                            },
                        }
                    }
                }
            }
            i = i + 1;
        }
        best
    }

    /// The best shot at the tanks seen on the turn; see `best_shot`.
    pub fn find_best_shot(&self, my_pos: &Position, enemies: &[TankInfo], current_turn: Turn) -> (r:
        Option<Action>)
        ensures
            r == best_shot(enemies@, *my_pos, current_turn),
    {
        if let Some(i) = self.closest_target_index(my_pos, enemies, current_turn, true) {
            proof {
                lemma_closest_target_valid(
                    enemies@,
                    *my_pos,
                    current_turn,
                    true,
                    enemies@.len() as int,
                );
            }
            let sightings = &enemies[i].known_positions;
            let pos = sightings[sightings.len() - 1].0;
            return Some(Action::Fire(Aiming::Positional(pos)));
        }
        if let Some(i) = self.closest_target_index(my_pos, enemies, current_turn, false) {
            proof {
                lemma_closest_target_valid(
                    enemies@,
                    *my_pos,
                    current_turn,
                    false,
                    enemies@.len() as int,
                );
            }
            let sightings = &enemies[i].known_positions;
            let pos = sightings[sightings.len() - 1].0;
            if let Some(alignment) = enemies[i].find_alignment(my_pos, &pos) {
                return Some(Action::Fire(Aiming::Cardinal(alignment)));
            }
        }
        None
    }

    /// Marks the cells that a shot from `start_pos` towards `orientation` crosses; see
    /// `fire_line`.
    pub fn add_potential_fire_line(
        &self,
        danger_set: &mut PositionTable<bool>,
        start_pos: &Position,
        orientation: &Orientation,
        world_size: &WorldSize,
    )
        requires
            old(danger_set).wf(),
        ensures
            final(danger_set).wf(),
            final(danger_set).as_map().dom() == old(danger_set).as_map().dom() + fire_line(
                *start_pos,
                *orientation,
                *world_size,
                8,
            ),
    {
        let ghost start = danger_set.as_map().dom();
        let mut current_pos = *start_pos;
        let mut k: usize = 0;
        while k < 8
            invariant
                k <= 8,
                start == old(danger_set).as_map().dom(),
                danger_set.wf(),
                danger_set.as_map().dom() + fire_line(
                    current_pos,
                    *orientation,
                    *world_size,
                    (8 - k) as nat,
                ) == start + fire_line(*start_pos, *orientation, *world_size, 8),
            decreases 8 - k,
        {
            match current_pos.follow(orientation, world_size) {
                Some(next_pos) => {
                    let ghost before = danger_set.as_map().dom();
                    danger_set.insert(next_pos, true);
                    assert(danger_set.as_map().dom() + fire_line(
                        next_pos,
                        *orientation,
                        *world_size,
                        (8 - k - 1) as nat,
                    ) =~= before + fire_line(current_pos, *orientation, *world_size, (8 - k) as nat));
                    current_pos = next_pos;
                },
                None => {
                    assert(fire_line(current_pos, *orientation, *world_size, (8 - k) as nat)
                        == Set::<Position>::empty());
                    assert(danger_set.as_map().dom() =~= start + fire_line(
                        *start_pos,
                        *orientation,
                        *world_size,
                        8,
                    ));
                    return ;
                },
            }
            k = k + 1;
        }
        assert(danger_set.as_map().dom() =~= danger_set.as_map().dom() + fire_line(
            current_pos,
            *orientation,
            *world_size,
            0,
        ));
    }

    /// Marks the cells that a shot from `enemy_pos` straight at a neighbouring `my_pos`
    /// crosses; see `aimed_line`.
    pub fn add_fire_line_positions(
        &self,
        danger_set: &mut PositionTable<bool>,
        enemy_pos: &Position,
        my_pos: &Position,
        world_size: &WorldSize,
    )
        requires
            old(danger_set).wf(),
        ensures
            final(danger_set).wf(),
            final(danger_set).as_map().dom() == old(danger_set).as_map().dom() + aimed_line(
                *enemy_pos,
                *my_pos,
                *world_size,
            ),
    {
        if let Some(orientation) = orientation_between(enemy_pos, my_pos) {
            self.add_potential_fire_line(danger_set, enemy_pos, &orientation, world_size);
        } else {
            assert(danger_set.as_map().dom() =~= danger_set.as_map().dom() + Set::empty());
        }
    }

    /// The cells that the tanks endanger, the first part of an emergency evasion: from
    /// where each was last seen, the line of a shot at `my_pos` and the lines of shots
    /// after one turn either way; see `endangered`.
    pub fn danger_positions(
        &self,
        enemies: &[TankInfo],
        my_pos: &Position,
        world_size: &WorldSize,
    ) -> (r: PositionTable<bool>)
        ensures
            r.wf(),
            r.as_map().dom() == endangered(enemies@, *my_pos, *world_size, enemies@.len() as int),
    {
        let mut danger_set: PositionTable<bool> = PositionTable::new();
        let mut i: usize = 0;
        while i < enemies.len()
            invariant
                i <= enemies@.len(),
                danger_set.wf(),
                danger_set.as_map().dom() == endangered(enemies@, *my_pos, *world_size, i as int),
            decreases enemies@.len() - i,
        {
            let enemy = &enemies[i];
            let n = enemy.known_positions.len();
            if n > 0 {
                let pos = enemy.known_positions[n - 1].0;
                // Direct line of fire
                self.add_fire_line_positions(&mut danger_set, &pos, my_pos, world_size);
                // Adjacent lines for if enemy rotates
                let clockwise = enemy.orientation.rotated_clockwise();
                self.add_potential_fire_line(&mut danger_set, &pos, &clockwise, world_size);
                let counter_clockwise = enemy.orientation.rotated_counter_clockwise();
                self.add_potential_fire_line(
                    &mut danger_set,
                    &pos,
                    &counter_clockwise,
                    world_size,
                );
            }
            assert(danger_set.as_map().dom() =~= endangered(
                enemies@,
                *my_pos,
                *world_size,
                i + 1,
            ));
            i = i + 1;
        }
        danger_set
    }

    /// The turns that bring the tank round to `target_orientation` the short way, then one
    /// step forward; see `turn_and_go`.
    pub fn actions_to_position(&self, ctx: &Context, target_orientation: &Orientation) -> (r: Vec<
        Action,
    >)
        ensures
            r@ == turn_and_go(ctx.details().orientation, *target_orientation),
    {
        let mut actions: Vec<Action> = Vec::new();
        let current_orientation = ctx.player_details().orientation;

        if current_orientation != *target_orientation {
            let (rotation, steps) = current_orientation.quick_turn(target_orientation);
            let mut k: usize = 0;
            while k < steps
                invariant
                    k <= steps,
                    actions@ == Seq::new(k as nat, |i: int| Action::Rotate(rotation)),
                decreases steps - k,
            {
                actions.push(Action::Rotate(rotation));
                assert(actions@ =~= Seq::new((k + 1) as nat, |i: int| Action::Rotate(rotation)));
                k = k + 1;
            }
        }
        actions.push(Action::Move(Direction::Forward));
        proof {
            if current_orientation != *target_orientation {
                assert(actions@ =~= turn_and_go(ctx.details().orientation, *target_orientation));
            } else {
                assert(actions@ =~= turn_and_go(ctx.details().orientation, *target_orientation));
            }
        }
        actions
    }
}

/// What breaks a run grown too long, for the run lengths before the action: after more
/// than two moves, a scan the way the tank moves; after more than two turns, a scan all
/// around; after more than one scan, a fresh decision.
pub open spec fn limit_override(action: Action, moves: usize, scans: usize, o: Orientation) -> Option<LimitOverride> {
    match action {
        Action::Move(dir) => if moves > 2 {
            Some(
                LimitOverride::Act(
                    Action::Scan(
                        ScanType::Mono(
                            if dir == Direction::Backward {
                                orientation_at((orientation_index(o) + 4) % 8)
                            } else {
                                o
                            },
                        ),
                    ),
                ),
            )
        } else {
            None
        },
        Action::Rotate(_) => if moves > 2 {
            Some(LimitOverride::Act(Action::Scan(ScanType::Omni)))
        } else {
            None
        },
        Action::Scan(_) => if scans > 1 {
            Some(LimitOverride::Reconsider)
        } else {
            None
        },
        _ => None,
    }
}

/// The run lengths after an action: a move or a turn lengthens the run of moves and ends
/// the run of scans, a scan the other way round, anything else ends both.
pub open spec fn runs_after(action: Action, moves: usize, scans: usize) -> (int, int) {
    match action {
        Action::Move(_) | Action::Rotate(_) => (moves + 1, 0int),
        Action::Scan(_) => (0int, scans + 1),
        _ => (0int, 0int),
    }
}

/// What the limits on runs of actions call for in place of an action: another action, or
/// a fresh decision of the strategy.
#[derive(Clone, Copy, Debug, PartialEq, Eq, Structural)]
pub enum LimitOverride {
    Act(Action),
    Reconsider,
}

/// How many moves or turns, and how many scans, the tank made in a row.
pub struct ActionLimits {
    pub consecutive_moves: usize,
    pub consecutive_scans: usize,
}

impl ActionLimits {
    pub fn new() -> (r: Self)
        ensures
            r.consecutive_moves == 0,
            r.consecutive_scans == 0,
    {
        ActionLimits { consecutive_moves: 0, consecutive_scans: 0 }
    }

    /// Counts an action: a move or a turn lengthens the run of moves and ends the run of
    /// scans, a scan the other way round, and anything else ends both.
    pub fn update_consecutive_counters(&mut self, action: &Action)
        requires
            old(self).consecutive_moves < usize::MAX,
            old(self).consecutive_scans < usize::MAX,
        ensures
            (final(self).consecutive_moves as int, final(self).consecutive_scans as int) == runs_after(
                *action,
                old(self).consecutive_moves,
                old(self).consecutive_scans,
            ),
    {
        match action {
            Action::Move(_) | Action::Rotate(_) => {
                self.consecutive_moves = self.consecutive_moves + 1;
                self.consecutive_scans = 0;
            },
            Action::Scan(_) => {
                self.consecutive_scans = self.consecutive_scans + 1;
                self.consecutive_moves = 0;
            },
            _ => {
                self.consecutive_moves = 0;
                self.consecutive_scans = 0;
            },
        }
    }

    /// What breaks a run grown too long: after more than two moves, a scan the way the
    /// tank moves; after more than two turns, a scan all around; after more than one scan,
    /// a fresh decision. Both runs start over then; otherwise nothing changes.
    pub fn check_action_limits(&mut self, action: &Action, ctx: &Context) -> (r: Option<
        LimitOverride,
    >)
        ensures
            r == limit_override(
                *action,
                old(self).consecutive_moves,
                old(self).consecutive_scans,
                ctx.details().orientation,
            ),
            r is Some ==> final(self).consecutive_moves == 0 && final(self).consecutive_scans == 0,
            r is None ==> final(self).consecutive_moves == old(self).consecutive_moves
                && final(self).consecutive_scans == old(self).consecutive_scans,
    {
        match action {
            Action::Move(dir) => {
                if self.consecutive_moves > 2 {
                    let scan_orientation = if *dir == Direction::Backward {
                        ctx.player_details().orientation.opposite()
                    } else {
                        ctx.player_details().orientation
                    };
                    self.consecutive_moves = 0;
                    self.consecutive_scans = 0;
                    Some(LimitOverride::Act(Action::Scan(ScanType::Mono(scan_orientation))))
                } else {
                    None
                }
            },
            Action::Rotate(_) => {
                if self.consecutive_moves > 2 {
                    self.consecutive_moves = 0;
                    self.consecutive_scans = 0;
                    Some(LimitOverride::Act(Action::Scan(ScanType::Omni)))
                } else {
                    None
                }
            },
            Action::Scan(_) => {
                if self.consecutive_scans > 1 {
                    self.consecutive_moves = 0;
                    self.consecutive_scans = 0;
                    Some(LimitOverride::Reconsider)
                } else {
                    None
                }
            },
            _ => None,
        }
    }
}

/// The actions the tank plans ahead, with the runs of actions it made.
pub struct ActionPlan {
    pub cache: Vec<Action>,
    pub limits: ActionLimits,
}

/// The scans the plan keeps after the strategy's action: at most the first two actions it
/// plans next, then a scan to the left and a scan to the right of the tank.
pub open spec fn planned_cache(future: Seq<Action>, o: Orientation) -> Seq<Action> {
    let kept = if future.len() <= 2 {
        future
    } else {
        future.take(2)
    };
    kept.push(Action::Scan(ScanType::Mono(turned(turned(o, Rotation::CounterClockwise), Rotation::CounterClockwise))))
        .push(Action::Scan(ScanType::Mono(turned(turned(o, Rotation::Clockwise), Rotation::Clockwise))))
}

impl ActionPlan {
    pub fn new() -> (r: Self)
        ensures
            r.cache@.len() == 0,
            r.limits.consecutive_moves == 0,
            r.limits.consecutive_scans == 0,
    {
        ActionPlan { cache: Vec::new(), limits: ActionLimits::new() }
    }

    /// On a cell not yet explored: scans towards the four cardinal directions, West now,
    /// then North, East and South from the plan.
    pub fn scan_around(&mut self) -> (r: Action)
        ensures
            r == Action::Scan(ScanType::Mono(Orientation::West)),
            final(self).cache@ == seq![
                Action::Scan(ScanType::Mono(Orientation::North)),
                Action::Scan(ScanType::Mono(Orientation::East)),
                Action::Scan(ScanType::Mono(Orientation::South)),
            ],
            final(self).limits == old(self).limits,
    {
        let mut scan_actions: Vec<Action> = Vec::new();
        let cardinals = Orientation::cardinals();
        let mut i: usize = 0;
        while i < 4
            invariant
                i <= 4,
                forall|k: int| 0 <= k < 4 ==> #[trigger] cardinals@[k] == orientation_at(2 * k),
                scan_actions@.len() == i,
                forall|k: int| 0 <= k < i ==> #[trigger] scan_actions@[k] == Action::Scan(
                    ScanType::Mono(orientation_at(2 * k)),
                ),
            decreases 4 - i,
        {
            scan_actions.push(Action::Scan(ScanType::Mono(cardinals[i])));
            i = i + 1;
        }
        self.cache = scan_actions;
        let r = self.cache.pop();
        proof {
            assert(self.cache@ =~= seq![
                Action::Scan(ScanType::Mono(Orientation::North)),
                Action::Scan(ScanType::Mono(Orientation::East)),
                Action::Scan(ScanType::Mono(Orientation::South)),
            ]);
        }
        match r {
            Some(a) => a,
            None => Action::Scan(ScanType::Mono(Orientation::West)),
        }
    }

    /// The next planned action, when no enemy is in sight and the plan holds one: it
    /// leaves the plan and counts in the runs, and a run grown too long breaks it and
    /// drops the plan. None, with nothing changed, when an enemy is in sight or nothing is
    /// planned, so that the strategy decides.
    pub fn next_planned(&mut self, enemies_seen: bool, ctx: &Context) -> (r: Option<LimitOverride>)
        requires
            old(self).limits.consecutive_moves < usize::MAX,
            old(self).limits.consecutive_scans < usize::MAX,
        ensures
            enemies_seen || old(self).cache@.len() == 0 ==> r is None && final(self).cache@ == old(
                self,
            ).cache@ && final(self).limits == old(self).limits,
            !enemies_seen && old(self).cache@.len() > 0 ==> {
                let a = old(self).cache@[0];
                let runs = runs_after(
                    a,
                    old(self).limits.consecutive_moves,
                    old(self).limits.consecutive_scans,
                );
                let o = limit_override(a, runs.0 as usize, runs.1 as usize, ctx.details().orientation);
                &&& o is Some ==> r == o && final(self).cache@.len() == 0
                    && final(self).limits.consecutive_moves == 0
                    && final(self).limits.consecutive_scans == 0
                &&& o is None ==> r == Some(LimitOverride::Act(a)) && final(self).cache@
                    == old(self).cache@.drop_first() && final(self).limits.consecutive_moves
                    == runs.0 && final(self).limits.consecutive_scans == runs.1
            },
    {
        if enemies_seen || self.cache.len() == 0 {
            return None;
        }
        let action = self.cache.remove(0);
        proof {
            assert(self.cache@ =~= old(self).cache@.drop_first());
        }
        self.limits.update_consecutive_counters(&action);
        if let Some(o) = self.limits.check_action_limits(&action, ctx) {
            self.cache.clear();
            return Some(o);
        }
        Some(LimitOverride::Act(action))
    }

    /// Takes the strategy's action and what it plans next: a plan of at most two actions
    /// is kept with a scan to each side after it, a run grown too long breaks the action
    /// and drops the plan, and otherwise the action counts in the runs.
    pub fn adopt(&mut self, action: Action, future: &Vec<Action>, ctx: &Context) -> (r: LimitOverride)
        requires
            old(self).limits.consecutive_moves < usize::MAX,
            old(self).limits.consecutive_scans < usize::MAX,
        ensures
            ({
                let o = limit_override(
                    action,
                    old(self).limits.consecutive_moves,
                    old(self).limits.consecutive_scans,
                    ctx.details().orientation,
                );
                let runs = runs_after(
                    action,
                    old(self).limits.consecutive_moves,
                    old(self).limits.consecutive_scans,
                );
                &&& o is Some ==> Some(r) == o && final(self).cache@.len() == 0
                    && final(self).limits.consecutive_moves == 0
                    && final(self).limits.consecutive_scans == 0
                &&& o is None ==> r == LimitOverride::Act(action) && final(self).limits.consecutive_moves
                    == runs.0 && final(self).limits.consecutive_scans == runs.1 && final(self).cache@
                    == if future@.len() > 0 {
                    planned_cache(future@, ctx.details().orientation)
                } else {
                    old(self).cache@
                }
            }),
    {
        if future.len() > 0 {
            let mut cached_actions: Vec<Action> = Vec::new();
            let keep = if future.len() <= 2 {
                future.len()
            } else {
                2
            };
            let mut i: usize = 0;
            while i < keep
                invariant
                    keep <= future@.len(),
                    i <= keep,
                    cached_actions@ == future@.take(i as int),
                decreases keep - i,
            {
                cached_actions.push(future[i]);
                proof {
                    assert(cached_actions@ =~= future@.take(i + 1));
                }
                i = i + 1;
            }
            let current_orientation = ctx.player_details().orientation;
            let left_orthogonal = current_orientation.rotated_counter_clockwise().rotated_counter_clockwise();
            let right_orthogonal = current_orientation.rotated_clockwise().rotated_clockwise();
            cached_actions.push(Action::Scan(ScanType::Mono(left_orthogonal)));
            cached_actions.push(Action::Scan(ScanType::Mono(right_orthogonal)));
            proof {
                if future@.len() <= 2 {
                    assert(future@.take(keep as int) =~= future@);
                }
            }
            self.cache = cached_actions;
        }
        if let Some(o) = self.limits.check_action_limits(&action, ctx) {
            self.cache.clear();
            return o;
        }
        self.limits.update_consecutive_counters(&action);
        LimitOverride::Act(action)
    }
}

/// The actions of a sequence after its first.
pub open spec fn rest_of(s: Seq<Action>) -> Seq<Action> {
    s.subrange(1, s.len() as int)
}

/// The combat strategy's action and plan, from the choices that float scores make for it:
/// an escape when hit this turn, else a shot followed by the same shot and a move to a
/// better position (or one safe step, or the best move by the scores), else the way
/// towards unexplored ground, else a safe step, else the best move by the scores alone.
pub open spec fn combat_plan(
    evasion: Option<Seq<Action>>,
    shot: Option<Action>,
    tactical: Option<Seq<Action>>,
    safe: Option<Seq<Action>>,
    best_move: Action,
    toward_unexplored: Option<Seq<Action>>,
) -> (Action, Seq<Action>) {
    if evasion is Some && evasion->0.len() > 0 {
        (evasion->0[0], rest_of(evasion->0))
    } else if shot is Some {
        let tail = match tactical {
            Some(t) => t,
            None => match safe {
                Some(sd) => if sd.len() > 0 {
                    seq![sd[0]]
                } else {
                    Seq::empty()
                },
                None => seq![best_move],
            },
        };
        (shot->0, seq![shot->0] + tail)
    } else if toward_unexplored is Some {
        (toward_unexplored->0[0], rest_of(toward_unexplored->0))
    } else if safe is Some && safe->0.len() > 0 {
        (safe->0[0], rest_of(safe->0))
    } else {
        (best_move, Seq::empty())
    }
}

/// The actions of a vector after its first.
fn rest_of_vec(v: &Vec<Action>) -> (r: Vec<Action>)
    requires
        v@.len() > 0,
    ensures
        r@ == rest_of(v@),
{
    let mut r: Vec<Action> = Vec::new();
    let mut i: usize = 1;
    while i < v.len()
        invariant
            1 <= i <= v@.len(),
            r@ == v@.subrange(1, i as int),
        decreases v@.len() - i,
    {
        r.push(v[i]);
        proof {
            assert(r@ =~= v@.subrange(1, i + 1));
        }
        i = i + 1;
    }
    r
}

/// The views of the actions in an optional vector.
pub open spec fn plan_view(v: Option<Vec<Action>>) -> Option<Seq<Action>> {
    match v {
        Some(a) => Some(a@),
        None => None,
    }
}

impl CombatStrategy {
    /// Puts the combat strategy's action and plan together from the choices made for it:
    /// `evasion` when the tank was hit this turn, `shot` when enemies are in sight and one
    /// can be hit, `tactical` the moves to a better position, `safe` a safe step,
    /// `best_move` the best move by the scores, and `toward_unexplored` the way to
    /// unexplored ground.
    pub fn decide_with_plan(
        &self,
        evasion: Option<Vec<Action>>,
        shot: Option<Action>,
        tactical: Option<Vec<Action>>,
        safe: Option<Vec<Action>>,
        best_move: Action,
        toward_unexplored: Option<Vec<Action>>,
    ) -> (r: (Action, Vec<Action>))
        requires
            toward_unexplored matches Some(u) ==> u@.len() > 0,
        ensures
            (r.0, r.1@) == combat_plan(
                plan_view(evasion),
                shot,
                plan_view(tactical),
                plan_view(safe),
                best_move,
                plan_view(toward_unexplored),
            ),
    {
        if let Some(e) = &evasion {
            if e.len() > 0 {
                return (e[0], rest_of_vec(e));
            }
        }
        if let Some(fire_action) = shot {
            let mut plan: Vec<Action> = Vec::new();
            plan.push(fire_action);
            let ghost head = plan@;
            match tactical {
                Some(position_actions) => {
                    let mut i: usize = 0;
                    while i < position_actions.len()
                        invariant
                            i <= position_actions@.len(),
                            head == seq![fire_action],
                            plan@ == head + position_actions@.subrange(0, i as int),
                        decreases position_actions@.len() - i,
                    {
                        plan.push(position_actions[i]);
                        proof {
                            assert(plan@ =~= head + position_actions@.subrange(0, i + 1));
                        }
                        i = i + 1;
                    }
                    proof {
                        assert(position_actions@.subrange(0, position_actions@.len() as int)
                            =~= position_actions@);
                    }
                },
                None => {
                    match &safe {
                        Some(safe_actions) => {
                            if safe_actions.len() > 0 {
                                plan.push(safe_actions[0]);
                            }
                        },
                        None => {
                            plan.push(best_move);
                        },
                    }
                },
            }
            proof {
                assert(plan@ =~= combat_plan(
                    plan_view(evasion),
                    shot,
                    plan_view(tactical),
                    plan_view(safe),
                    best_move,
                    plan_view(toward_unexplored),
                ).1);
            }
            return (fire_action, plan);
        }
        if let Some(u) = &toward_unexplored {
            return (u[0], rest_of_vec(u));
        }
        if let Some(sd) = &safe {
            if sd.len() > 0 {
                return (sd[0], rest_of_vec(sd));
            }
        }
        (best_move, Vec::new())
    }
}

} // verus!
