//! A shell from the moment it is fired until it is spent.
use vstd::prelude::*;

use crate::api::{
    aiming::Aiming,
    orientation::Orientation,
    position::{abs, distance_along, Position, CARDINAL_SHOT_DISTANCE, POSITIONAL_SHOT_DISTANCE},
    world_size::WorldSize,
};

verus! {

#[derive(Clone, Copy, Debug, PartialEq, Eq, Structural)]
pub enum ShellState {
    NotLaunched,
    Flying,
    Impact,
    Explosion,
    Exploded,
    Spent,
}

/// The stage of a shell's life: each state comes after the ones with lower stages.
pub open spec fn stage(state: ShellState) -> int {
    match state {
        ShellState::NotLaunched => 0,
        ShellState::Flying => 1,
        ShellState::Impact => 2,
        ShellState::Explosion => 3,
        ShellState::Exploded => 4,
        ShellState::Spent => 5,
    }
}

/// The state that follows `state` at the next tick of the game.
pub open spec fn next_state(state: ShellState) -> ShellState {
    match state {
        ShellState::NotLaunched => ShellState::Flying,
        ShellState::Flying => ShellState::Flying,
        ShellState::Impact => ShellState::Explosion,
        ShellState::Explosion => ShellState::Exploded,
        ShellState::Exploded => ShellState::Spent,
        ShellState::Spent => ShellState::Spent,
    }
}

/// How far a shell aimed that way may fly.
pub open spec fn fly_distance(aim: Aiming) -> usize {
    match aim {
        Aiming::Cardinal(_) => CARDINAL_SHOT_DISTANCE,
        Aiming::Positional(_) => POSITIONAL_SHOT_DISTANCE,
    }
}

#[derive(PartialEq, Eq)]
pub struct Shell {
    current_pos: Option<Position>,
    fired_from: Position,
    aim_type: Aiming,
    state: ShellState,
}

impl Shell {
    pub closed spec fn pos_spec(self) -> Option<Position> {
        self.current_pos
    }

    pub closed spec fn fired_from_spec(self) -> Position {
        self.fired_from
    }

    pub closed spec fn aim_spec(self) -> Aiming {
        self.aim_type
    }

    pub closed spec fn state_spec(self) -> ShellState {
        self.state
    }

    /// Whether a flying shell has reached the end of its flight where it stands.
    pub open spec fn landed_spec(self) -> bool {
        match self.pos_spec() {
            Some(p) => match self.aim_spec() {
                Aiming::Cardinal(_) => abs(self.fired_from_spec().x - p.x) >= CARDINAL_SHOT_DISTANCE
                    || abs(self.fired_from_spec().y - p.y) >= CARDINAL_SHOT_DISTANCE,
                Aiming::Positional(target) => target == p,
            },
            None => false,
        }
    }

    pub fn new(aim_type: Aiming, fired_from: Position) -> (r: Self)
        ensures
            r.pos_spec() == Some(fired_from),
            r.fired_from_spec() == fired_from,
            r.aim_spec() == aim_type,
            r.state_spec() == ShellState::NotLaunched,
    {
        Self { current_pos: Some(fired_from), fired_from, aim_type, state: ShellState::NotLaunched }
    }

    pub fn fired_from(&self) -> (r: Position)
        ensures
            r == self.fired_from_spec(),
    {
        self.fired_from
    }

    pub fn pos(&self) -> (r: Option<Position>)
        ensures
            r == self.pos_spec(),
    {
        self.current_pos
    }

    pub fn state(&self) -> (r: ShellState)
        ensures
            r == self.state_spec(),
    {
        self.state
    }

    /// A cardinal shot can always be fired; a positional one only at a target within reach.
    pub fn possible_shot(&self) -> (r: bool)
        ensures
            r == match self.aim_spec() {
                Aiming::Cardinal(_) => true,
                Aiming::Positional(p) => self.fired_from_spec().hits_positionally(p),
            },
    {
        match &self.aim_type {
            Aiming::Cardinal(_) => true,
            Aiming::Positional(pos) => self.fired_from.could_hit_positionally(pos),
        }
    }

    /// Advances the shell by one tick: a shell in flight moves one step towards its aim
    /// (a positional shot lands on its target at once), and the other states move on to
    /// the next stage of the shell's life.
    pub fn evolve(&mut self, world_size: &WorldSize)
        ensures
            final(self).state_spec() == next_state(old(self).state_spec()),
            final(self).fired_from_spec() == old(self).fired_from_spec(),
            final(self).aim_spec() == old(self).aim_spec(),
            old(self).state_spec() == ShellState::Flying ==> final(self).pos_spec() == match old(
                self,
            ).pos_spec() {
                Some(p) => match old(self).aim_spec() {
                    Aiming::Positional(target) => Some(target),
                    Aiming::Cardinal(o) => p.followed(o, *world_size),
                },
                None => None,
            },
            old(self).state_spec() != ShellState::Flying ==> final(self).pos_spec() == old(
                self,
            ).pos_spec(),
    {
        match self.state {
            ShellState::NotLaunched => self.state = ShellState::Flying,
            ShellState::Flying => {
                self.state = ShellState::Flying;
                if let Some(pos) = &self.current_pos {
                    self.current_pos = match &self.aim_type {
                        Aiming::Positional(p) => Some(*p),
                        Aiming::Cardinal(orientation) => pos.follow(orientation, world_size),
                    };
                }
            },
            ShellState::Impact => self.state = ShellState::Explosion,
            ShellState::Explosion => self.state = ShellState::Exploded,
            ShellState::Exploded => self.state = ShellState::Spent,
            ShellState::Spent => {},
        }
    }

    /// A flying shell that has reached the end of its flight hits the ground: it tells
    /// whether it did, and enters the impact state when so.
    pub fn try_to_land(&mut self) -> (r: bool)
        ensures
            r == (old(self).state_spec() == ShellState::Flying && old(self).landed_spec()),
            old(self).pos_spec() matches Some(p) ==> (old(self).state_spec() == ShellState::Flying
                && old(self).aim_spec() is Cardinal ==> (r <==> (p.x >= old(self).fired_from_spec().x
                + CARDINAL_SHOT_DISTANCE || old(self).fired_from_spec().x >= p.x + CARDINAL_SHOT_DISTANCE
                || p.y >= old(self).fired_from_spec().y + CARDINAL_SHOT_DISTANCE || old(
                self,
            ).fired_from_spec().y >= p.y + CARDINAL_SHOT_DISTANCE))),
            final(self).state_spec() == (if r {
                ShellState::Impact
            } else {
                old(self).state_spec()
            }),
            final(self).pos_spec() == old(self).pos_spec(),
            final(self).fired_from_spec() == old(self).fired_from_spec(),
            final(self).aim_spec() == old(self).aim_spec(),
    {
        if self.state == ShellState::Flying {
            if let Some(cur_pos) = &self.current_pos {
                let landed = match &self.aim_type {
                    Aiming::Cardinal(_) => {
                        let dx = distance_along(self.fired_from.x, cur_pos.x);
                        let dy = distance_along(self.fired_from.y, cur_pos.y);
                        let max_distance = self.max_fly_distance();

                        dx >= max_distance || dy >= max_distance
                    },
                    Aiming::Positional(position) => *position == *cur_pos,
                };
                if landed {
                    self.impact();
                }
                landed
            } else {
                // no current position
                false
            }
        } else {
            // not flying
            false
        }
    }

    /// A flying shell stops: it enters the impact state. Other states stay as they are.
    pub fn impact(&mut self)
        ensures
            final(self).state_spec() == (if old(self).state_spec() == ShellState::Flying {
                ShellState::Impact
            } else {
                old(self).state_spec()
            }),
            final(self).pos_spec() == old(self).pos_spec(),
            final(self).fired_from_spec() == old(self).fired_from_spec(),
            final(self).aim_spec() == old(self).aim_spec(),
    {
        if self.state == ShellState::Flying {
            self.state = ShellState::Impact;
        }
    }

    pub fn max_fly_distance(&self) -> (r: usize)
        ensures
            r == fly_distance(self.aim_spec()),
    {
        match self.aim_type {
            Aiming::Cardinal(_) => CARDINAL_SHOT_DISTANCE,
            Aiming::Positional(_) => POSITIONAL_SHOT_DISTANCE,
        }
    }
}

/// A shell's life only moves forward: no tick, landing or impact leads back to an
/// earlier stage, and a spent shell stays spent.
pub proof fn lemma_shell_moves_forward(state: ShellState)
    ensures
        stage(next_state(state)) >= stage(state),
        state != ShellState::Flying && state != ShellState::Spent ==> stage(next_state(state))
            == stage(state) + 1,
        state == ShellState::Spent ==> next_state(state) == ShellState::Spent,
{
}

/// A shell in flight reaches its explosion in a fixed number of ticks once it lands:
/// impact, explosion, exploded, spent.
pub proof fn lemma_shell_burns_out(state: ShellState)
    requires
        state == ShellState::Impact,
    ensures
        next_state(next_state(next_state(state))) == ShellState::Spent,
{
}

/// A cardinal shell stops where its range ends: it has landed exactly when it stands at
/// least `CARDINAL_SHOT_DISTANCE` cells from where it was fired along the x axis or along
/// the y axis. A shell fired East from `(x, y)` lands at `(x + 14, y)`.
pub proof fn lemma_cardinal_shell_lands_at_its_range(shell: Shell, o: Orientation, p: Position)
    requires
        shell.aim_spec() == Aiming::Cardinal(o),
        shell.pos_spec() == Some(p),
    ensures
        shell.landed_spec() <==> (p.x >= shell.fired_from_spec().x + CARDINAL_SHOT_DISTANCE
            || shell.fired_from_spec().x >= p.x + CARDINAL_SHOT_DISTANCE || p.y
            >= shell.fired_from_spec().y + CARDINAL_SHOT_DISTANCE || shell.fired_from_spec().y
            >= p.y + CARDINAL_SHOT_DISTANCE),
{
}

/// A positional shell lands exactly on its target.
pub proof fn lemma_positional_shell_lands_on_target(shell: Shell, target: Position, p: Position)
    requires
        shell.aim_spec() == Aiming::Positional(target),
        shell.pos_spec() == Some(p),
    ensures
        shell.landed_spec() <==> p == target,
{
}

} // verus!
