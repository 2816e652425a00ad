//! The state that the game engine keeps for each player.
use vstd::prelude::*;

use crate::{
    api::{
        action::Action, context::Context as ApiContext, map_cell::Terrain,
        orientation::{turned, Orientation}, player::Details, position::Position,
        rotation::Rotation, scan::ScanResult, world_size::WorldSize,
    },
    engine::game::DEAD_AVATAR,
};

verus! {

/// Private consts
pub const DAMAGE_SINKING_INTO_LAKE: u16 = 100;

pub const DAMAGE_DIRECT_HIT: u16 = 75;

pub const DAMAGE_INDIRECT_HIT: u16 = 25;

pub const DAMAGE_COLLISION_WITH_PLAYER: u16 = 25;

pub const DAMAGE_COLLISION_WITH_FOREST: u16 = 10;

pub const SCORE_INDIRECT_HIT_BONUS: u16 = 1;

pub const SCORE_DIRECT_HIT_BONUS: u16 = 2;

pub const SCORE_KILLING_BONUS: u16 = 3;

pub const SCORE_SURVIVOR_BONUS: u16 = 5;

/// The health left after a blow of `amount` points, which never goes below zero.
pub open spec fn health_after(health: u8, amount: u16) -> u8 {
    if health as int > amount as int {
        (health - amount) as u8
    } else {
        0
    }
}

/// The points that a hit earns its shooter: the hit bonus, and the killing bonus when the
/// hit leaves no health. A tank that was already dead, or that hit itself, earns nothing.
pub open spec fn hit_reward(
    health: u8,
    target: u8,
    shooter: u8,
    damage: u16,
    reward: u16,
) -> u16 {
    if health == 0 || target == shooter {
        0
    } else if health_after(health, damage) == 0 {
        (reward + SCORE_KILLING_BONUS) as u16
    } else {
        reward
    }
}

#[derive(Clone, Copy, Debug, Hash, PartialEq, Eq, PartialOrd, Ord)]
pub struct Score {
    value: u16,
}

impl Score {
    fn increment(&mut self, points: u16)
        requires
            old(self).value + points <= u16::MAX,
        ensures
            final(self).value == old(self).value + points,
        no_unwind
    {
        self.value += points;
    }
}

/// Represents the player context that the game engine is using for storing players state
///
/// The tank stands on the map, and a tank without health is marked dead.
#[derive(Debug, Hash, PartialEq, Eq, PartialOrd, Ord)]
pub struct Context {
    cumulated_cpu_time: u128,
    health: u8,
    mobile: bool,
    previous_action: Action,
    player_details: Details,
    position: Position,
    scan: Option<ScanResult>,
    score: Score,
    turn: usize,
    world_size: WorldSize,
}

impl Context {
    #[verifier::type_invariant]
    spec fn well_formed(self) -> bool {
        &&& self.world_size.fits_map()
        &&& self.position.inside(self.world_size)
        &&& self.health <= 100
        &&& self.health == 0 ==> !self.player_details.alive && self.player_details.avatar
            == DEAD_AVATAR
    }

    pub closed spec fn cpu_time_spec(self) -> u128 {
        self.cumulated_cpu_time
    }

    pub closed spec fn health_spec(self) -> u8 {
        self.health
    }

    pub closed spec fn mobile_spec(self) -> bool {
        self.mobile
    }

    pub closed spec fn previous_action_spec(self) -> Action {
        self.previous_action
    }

    pub closed spec fn details(self) -> Details {
        self.player_details
    }

    pub closed spec fn position_spec(self) -> Position {
        self.position
    }

    pub closed spec fn scan_spec(self) -> Option<ScanResult> {
        self.scan
    }

    pub closed spec fn score_spec(self) -> u16 {
        self.score.value
    }

    pub closed spec fn turn_spec(self) -> usize {
        self.turn
    }

    pub closed spec fn world_size_spec(self) -> WorldSize {
        self.world_size
    }

    /// Everything but the health and the player's details is as in `other`.
    pub open spec fn same_but_health(self, other: Self) -> bool {
        &&& self.cpu_time_spec() == other.cpu_time_spec()
        &&& self.mobile_spec() == other.mobile_spec()
        &&& self.previous_action_spec() == other.previous_action_spec()
        &&& self.position_spec() == other.position_spec()
        &&& self.scan_spec() == other.scan_spec()
        &&& self.score_spec() == other.score_spec()
        &&& self.turn_spec() == other.turn_spec()
        &&& self.world_size_spec() == other.world_size_spec()
    }

    /// Everything but the previous action, the scan, the turn, the mobility and the
    /// position is as in `other`.
    pub open spec fn same_standing(self, other: Self) -> bool {
        &&& self.cpu_time_spec() == other.cpu_time_spec()
        &&& self.health_spec() == other.health_spec()
        &&& self.details() == other.details()
        &&& self.score_spec() == other.score_spec()
        &&& self.world_size_spec() == other.world_size_spec()
    }

    /// The state after a blow of `amount` points: the health drops, and a tank left without
    /// health gets the dead avatar and is no longer alive.
    pub open spec fn damaged(self, before: Self, amount: u16) -> bool {
        &&& self.same_but_health(before)
        &&& self.health_spec() == health_after(before.health_spec(), amount)
        &&& self.details().id == before.details().id
        &&& self.details().orientation == before.details().orientation
        &&& self.health_spec() == 0 ==> !self.details().alive && self.details().avatar
            == DEAD_AVATAR
        &&& self.health_spec() > 0 ==> self.details() == before.details()
    }

    pub fn new(player_details: Details, position: Position, world_size: WorldSize) -> (r: Self)
        requires
            world_size.fits_map(),
            position.inside(world_size),
        ensures
            r.health_spec() == 100,
            r.mobile_spec(),
            r.previous_action_spec() == Action::Idle,
            r.details() == player_details,
            r.position_spec() == position,
            r.scan_spec() is None,
            r.score_spec() == 0,
            r.cpu_time_spec() == 0,
            r.turn_spec() == 0,
            r.world_size_spec() == world_size,
    {
        Self {
            health: 100,
            mobile: true,
            previous_action: Action::Idle,
            player_details,
            position,
            scan: None,
            score: Score { value: 0 },
            cumulated_cpu_time: 0,
            turn: 0,
            world_size,
        }
    }

    pub fn damage_collision_forest(&mut self)
        ensures
            final(self).damaged(*old(self), DAMAGE_COLLISION_WITH_FOREST),
    {
        self.generic_damage(DAMAGE_COLLISION_WITH_FOREST);
    }

    pub fn damage_collision_player(&mut self, other: &mut Self)
        ensures
            final(self).damaged(*old(self), DAMAGE_COLLISION_WITH_PLAYER),
            final(other).damaged(*old(other), DAMAGE_COLLISION_WITH_PLAYER),
    {
        self.generic_damage(DAMAGE_COLLISION_WITH_PLAYER);
        other.generic_damage(DAMAGE_COLLISION_WITH_PLAYER);
    }

    pub fn damage_direct_hit(&mut self, shooter_id: u8) -> (r: u16)
        ensures
            old(self).health_spec() == 0 ==> *final(self) == *old(self),
            old(self).health_spec() > 0 ==> final(self).damaged(*old(self), DAMAGE_DIRECT_HIT),
            r == hit_reward(
                old(self).health_spec(),
                old(self).details().id,
                shooter_id,
                DAMAGE_DIRECT_HIT,
                SCORE_DIRECT_HIT_BONUS,
            ),
    {
        self.hit_damage(shooter_id, DAMAGE_DIRECT_HIT, SCORE_DIRECT_HIT_BONUS)
    }

    pub fn damage_indirect_hit(&mut self, shooter_id: u8) -> (r: u16)
        ensures
            old(self).health_spec() == 0 ==> *final(self) == *old(self),
            old(self).health_spec() > 0 ==> final(self).damaged(*old(self), DAMAGE_INDIRECT_HIT),
            r == hit_reward(
                old(self).health_spec(),
                old(self).details().id,
                shooter_id,
                DAMAGE_INDIRECT_HIT,
                SCORE_INDIRECT_HIT_BONUS,
            ),
    {
        self.hit_damage(shooter_id, DAMAGE_INDIRECT_HIT, SCORE_INDIRECT_HIT_BONUS)
    }

    /// A tank that is still alive at the end of a game earns the survivor bonus.
    pub fn reward_survivor(&mut self)
        requires
            old(self).score_spec() + SCORE_SURVIVOR_BONUS <= u16::MAX,
        ensures
            final(self).score_spec() == old(self).score_spec() + (if old(self).health_spec() > 0 {
                SCORE_SURVIVOR_BONUS
            } else {
                0
            }),
            final(self).health_spec() == old(self).health_spec(),
            final(self).details() == old(self).details(),
            final(self).position_spec() == old(self).position_spec(),
    {
        proof {
            use_type_invariant(&*self);
        }
        if self.health > 0 {
            self.score.increment(SCORE_SURVIVOR_BONUS);
        }
    }

    /// A tank that is still alive collects the points of its hits.
    pub fn reward_hits(&mut self, amount: u16)
        requires
            old(self).score_spec() + amount <= u16::MAX,
        ensures
            final(self).score_spec() == old(self).score_spec() + (if old(self).health_spec() > 0 {
                amount
            } else {
                0
            }),
            final(self).health_spec() == old(self).health_spec(),
            final(self).details() == old(self).details(),
            final(self).position_spec() == old(self).position_spec(),
    {
        proof {
            use_type_invariant(&*self);
        }
        if self.health > 0 {
            self.score.increment(amount);
        }
    }

    pub fn health(&self) -> (r: u8)
        ensures
            r == self.health_spec(),
            r <= 100,
    {
        proof {
            use_type_invariant(self);
        }
        self.health
    }

    pub fn average_cpu_time_per_turn(&self) -> (r: u128)
        ensures
            self.turn_spec() > 0 ==> r == self.cpu_time_spec() / (self.turn_spec() as u128),
            self.turn_spec() == 0 ==> r == 0,
    {
        if self.turn > 0 {
            self.cumulated_cpu_time / self.turn as u128
        } else {
            0
        }
    }

    pub fn increase_cpu_time(&mut self, time: u128)
        requires
            old(self).cpu_time_spec() + time <= u128::MAX,
        ensures
            final(self).cpu_time_spec() == old(self).cpu_time_spec() + time,
            final(self).health_spec() == old(self).health_spec(),
            final(self).details() == old(self).details(),
            final(self).position_spec() == old(self).position_spec(),
            final(self).score_spec() == old(self).score_spec(),
    {
        proof {
            use_type_invariant(&*self);
        }
        self.cumulated_cpu_time += time;
    }

    pub fn is_mobile(&self) -> (r: bool)
        ensures
            r == self.mobile_spec(),
    {
        self.mobile
    }

    pub fn previous_action(&self) -> (r: &Action)
        ensures
            *r == self.previous_action_spec(),
    {
        &self.previous_action
    }

    pub fn player_details(&self) -> (r: &Details)
        ensures
            *r == self.details(),
            self.health_spec() == 0 ==> !r.alive && r.avatar == DEAD_AVATAR,
    {
        proof {
            use_type_invariant(self);
        }
        &self.player_details
    }

    pub fn position(&self) -> (r: &Position)
        ensures
            *r == self.position_spec(),
            r.inside(self.world_size_spec()),
            self.world_size_spec().fits_map(),
    {
        proof {
            use_type_invariant(self);
        }
        &self.position
    }

    /// Moves the tank onto a cell of the given terrain: a lake sinks it, a swamp holds it.
    pub fn relocate(&mut self, new_position: &Position, walk_on: Terrain)
        requires
            new_position.inside(old(self).world_size_spec()),
        ensures
            final(self).position_spec() == *new_position,
            final(self).previous_action_spec() == old(self).previous_action_spec(),
            final(self).scan_spec() == old(self).scan_spec(),
            final(self).turn_spec() == old(self).turn_spec(),
            walk_on == Terrain::Lake ==> {
                &&& final(self).health_spec() == health_after(
                    old(self).health_spec(),
                    DAMAGE_SINKING_INTO_LAKE,
                )
                &&& final(self).health_spec() == 0
                &&& !final(self).details().alive
                &&& final(self).details().avatar == DEAD_AVATAR
                &&& final(self).details().id == old(self).details().id
                &&& final(self).details().orientation == old(self).details().orientation
                &&& final(self).mobile_spec() == old(self).mobile_spec()
                &&& final(self).cpu_time_spec() == old(self).cpu_time_spec()
                &&& final(self).score_spec() == old(self).score_spec()
                &&& final(self).world_size_spec() == old(self).world_size_spec()
            },
            walk_on == Terrain::Swamp ==> final(self).same_standing(*old(self))
                && !final(self).mobile_spec(),
            walk_on != Terrain::Lake && walk_on != Terrain::Swamp ==> final(self).same_standing(
                *old(self),
            ) && final(self).mobile_spec() == old(self).mobile_spec(),
    {
        proof {
            use_type_invariant(&*self);
        }
        self.position = *new_position;

        match walk_on {
            Terrain::Lake => self.generic_damage(DAMAGE_SINKING_INTO_LAKE),
            Terrain::Swamp => self.mobile = false,
            _ => {},
        }
    }

    /// Turns the tank one step in the given direction.
    pub fn rotate(&mut self, rotation: &Rotation)
        ensures
            final(self).details() == (Details {
                orientation: turned(old(self).details().orientation, *rotation),
                ..old(self).details()
            }),
            final(self).health_spec() == old(self).health_spec(),
            final(self).same_but_health(*old(self)),
    {
        proof {
            use_type_invariant(&*self);
        }
        let orientation = match rotation {
            Rotation::Clockwise => self.player_details.orientation.rotated_clockwise(),
            Rotation::CounterClockwise => {
                self.player_details.orientation.rotated_counter_clockwise()
            },
        };
        self.player_details.orientation = orientation;
    }

    pub fn scanned_data(&self) -> (r: &Option<ScanResult>)
        ensures
            *r == self.scan_spec(),
    {
        &self.scan
    }

    pub fn score(&self) -> (r: u16)
        ensures
            r == self.score_spec(),
    {
        self.score.value
    }

    pub fn set_previous_action(&mut self, action: Action)
        ensures
            final(self).previous_action_spec() == action,
            final(self).same_standing(*old(self)),
            final(self).position_spec() == old(self).position_spec(),
            final(self).mobile_spec() == old(self).mobile_spec(),
            final(self).scan_spec() == old(self).scan_spec(),
            final(self).turn_spec() == old(self).turn_spec(),
    {
        proof {
            use_type_invariant(&*self);
        }
        self.previous_action = action
    }

    pub fn set_scanned_data(&mut self, scan: Option<ScanResult>)
        ensures
            final(self).scan_spec() == scan,
            final(self).same_standing(*old(self)),
            final(self).position_spec() == old(self).position_spec(),
            final(self).mobile_spec() == old(self).mobile_spec(),
            final(self).previous_action_spec() == old(self).previous_action_spec(),
            final(self).turn_spec() == old(self).turn_spec(),
    {
        proof {
            use_type_invariant(&*self);
        }
        self.scan = scan;
    }

    pub fn set_turn(&mut self, turn: usize)
        ensures
            final(self).turn_spec() == turn,
            final(self).same_standing(*old(self)),
            final(self).position_spec() == old(self).position_spec(),
            final(self).mobile_spec() == old(self).mobile_spec(),
            final(self).previous_action_spec() == old(self).previous_action_spec(),
            final(self).scan_spec() == old(self).scan_spec(),
    {
        proof {
            use_type_invariant(&*self);
        }
        self.turn = turn;
    }

    pub fn turn(&self) -> (r: usize)
        ensures
            r == self.turn_spec(),
    {
        self.turn
    }

    pub fn world_size(&self) -> (r: &WorldSize)
        ensures
            *r == self.world_size_spec(),
            r.fits_map(),
    {
        proof {
            use_type_invariant(self);
        }
        &self.world_size
    }

    /// The context that the player sees: the engine's state without its bookkeeping.
    pub fn into_api(self) -> (r: ApiContext)
        ensures
            r.health_spec() == self.health_spec(),
            r.max_turns_spec() == 0,
            r.previous_action_spec() == self.previous_action_spec(),
            r.details() == self.details(),
            r.position_spec() == self.position_spec(),
            r.scan_spec() == self.scan_spec(),
            r.turn_spec() == self.turn_spec(),
            r.world_size_spec() == self.world_size_spec(),
    {
        proof {
            use_type_invariant(&self);
        }
        ApiContext::new(
            self.health,
            0,
            self.previous_action,
            self.player_details,
            self.position,
            self.scan,
            self.turn,
            self.world_size,
        )
    }
}

impl Context {
    fn generic_damage(&mut self, amount: u16)
        requires
            amount <= u8::MAX,
        ensures
            final(self).damaged(*old(self), amount),
    {
        proof {
            use_type_invariant(&*self);
        }
        let health = self.health.saturating_sub(amount as u8);
        if health == 0 {
            self.player_details.avatar = DEAD_AVATAR;
            self.player_details.alive = false;
        }
        self.health = health;
    }

    fn hit_damage(&mut self, shooter_id: u8, damage_amount: u16, reward_amount: u16) -> (r: u16)
        requires
            damage_amount <= u8::MAX,
            reward_amount + SCORE_KILLING_BONUS <= u16::MAX,
        ensures
            old(self).health_spec() == 0 ==> *final(self) == *old(self),
            old(self).health_spec() > 0 ==> final(self).damaged(*old(self), damage_amount),
            r == hit_reward(
                old(self).health_spec(),
                old(self).details().id,
                shooter_id,
                damage_amount,
                reward_amount,
            ),
    {
        let mut reward: u16 = 0;

        if self.health > 0 {
            self.generic_damage(damage_amount);

            if self.player_details.id != shooter_id {
                reward += reward_amount;

                if self.health == 0 {
                    reward += SCORE_KILLING_BONUS;
                }
            }
        }

        reward
    }
}

impl Clone for Context {
    fn clone(&self) -> (r: Self)
        ensures
            r == *self,
    {
        proof {
            use_type_invariant(self);
        }
        let scan = match &self.scan {
            Some(s) => Some(s.clone()),
            None => None,
        };
        Context {
            cumulated_cpu_time: self.cumulated_cpu_time,
            health: self.health,
            mobile: self.mobile,
            previous_action: self.previous_action,
            player_details: self.player_details,
            position: self.position,
            scan,
            score: Score { value: self.score.value },
            turn: self.turn,
            world_size: self.world_size,
        }
    }
}

/// The health of a tank never grows: every blow leaves at most the health it found.
pub proof fn lemma_damage_never_heals(before: Context, after: Context, amount: u16)
    requires
        after.damaged(before, amount),
    ensures
        after.health_spec() <= before.health_spec(),
        amount > 0 && before.health_spec() > 0 ==> after.health_spec() < before.health_spec(),
{
}

/// Turning one way and then the other leaves a tank facing as it was.
pub proof fn lemma_rotation_undone(before: Context, middle: Context, after: Context, rotation: Rotation)
    requires
        middle.details() == (Details {
            orientation: turned(before.details().orientation, rotation),
            ..before.details()
        }),
        after.details() == (Details {
            orientation: turned(middle.details().orientation, rotation.opposite_spec()),
            ..middle.details()
        }),
    ensures
        after.details() == before.details(),
{
    crate::api::orientation::lemma_turns_cancel(before.details().orientation);
}

} // verus!
