use vstd::prelude::*;

use super::{
    action::Action, player::Details, position::Position, scan::ScanResult,
    world_size::WorldSize,
};

verus! {

/// Represents the context that the game engine is sharing
/// with the player logic in every interaction.
///
/// A context always describes a tank that stands on the map: its position lies inside
/// the world, and the world fits the engine's map arrays.
#[derive(Debug, Hash, PartialEq, Eq, PartialOrd, Ord)]
pub struct Context {
    health: u8,
    max_turns: usize,
    previous_action: Action,
    player_details: Details,
    position: Position,
    scan: Option<ScanResult>,
    turn: usize,
    world_size: WorldSize,
}

impl Context {
    #[verifier::type_invariant]
    spec fn on_map(self) -> bool {
        &&& self.world_size.fits_map()
        &&& self.position.inside(self.world_size)
    }

    pub closed spec fn health_spec(self) -> u8 {
        self.health
    }

    pub closed spec fn max_turns_spec(self) -> usize {
        self.max_turns
    }

    pub closed spec fn previous_action_spec(self) -> Action {
        self.previous_action
    }

    pub closed spec fn details(self) -> Details {
        self.player_details
    }

    pub closed spec fn position_spec(self) -> Position {
        self.position
    }

    pub closed spec fn scan_spec(self) -> Option<ScanResult> {
        self.scan
    }

    pub closed spec fn turn_spec(self) -> usize {
        self.turn
    }

    pub closed spec fn world_size_spec(self) -> WorldSize {
        self.world_size
    }

    pub fn new(
        health: u8,
        max_turns: usize,
        previous_action: Action,
        player_details: Details,
        position: Position,
        scan: Option<ScanResult>,
        turn: usize,
        world_size: WorldSize,
    ) -> (r: Self)
        requires
            world_size.fits_map(),
            position.inside(world_size),
        ensures
            r.health_spec() == health,
            r.max_turns_spec() == max_turns,
            r.previous_action_spec() == previous_action,
            r.details() == player_details,
            r.position_spec() == position,
            r.scan_spec() == scan,
            r.turn_spec() == turn,
            r.world_size_spec() == world_size,
    {
        Self {
            health,
            max_turns,
            player_details,
            position,
            previous_action,
            scan,
            turn,
            world_size,
        }
    }

    pub fn previous_action(&self) -> (r: &Action)
        ensures
            *r == self.previous_action_spec(),
    {
        &self.previous_action
    }

    pub fn player_details(&self) -> (r: &Details)
        ensures
            *r == self.details(),
    {
        &self.player_details
    }

    pub fn position(&self) -> (r: &Position)
        ensures
            *r == self.position_spec(),
            r.inside(self.world_size_spec()),
            self.world_size_spec().fits_map(),
    {
        proof {
            use_type_invariant(self);
        }
        &self.position
    }

    pub fn scanned_data(&self) -> (r: &Option<ScanResult>)
        ensures
            *r == self.scan_spec(),
    {
        &self.scan
    }

    pub fn max_turns(&self) -> (r: usize)
        ensures
            r == self.max_turns_spec(),
    {
        self.max_turns
    }

    pub fn turn(&self) -> (r: usize)
        ensures
            r == self.turn_spec(),
    {
        self.turn
    }

    pub fn world_size(&self) -> (r: &WorldSize)
        ensures
            *r == self.world_size_spec(),
            r.fits_map(),
            self.position_spec().inside(*r),
    {
        proof {
            use_type_invariant(self);
        }
        &self.world_size
    }
}

impl Clone for Context {
    fn clone(&self) -> (r: Self)
        ensures
            r == *self,
    {
        proof {
            use_type_invariant(self);
        }
        let scan = match &self.scan {
            Some(s) => Some(s.clone()),
            None => None,
        };
        Context {
            health: self.health,
            max_turns: self.max_turns,
            previous_action: self.previous_action,
            player_details: self.player_details,
            position: self.position,
            scan,
            turn: self.turn,
            world_size: self.world_size,
        }
    }
}

} // verus!
