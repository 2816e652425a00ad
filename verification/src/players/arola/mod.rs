use vstd::prelude::*;

use crate::api::{
    action::Action,
    context::Context,
    orientation::Orientation,
    player::Player,
    position::Position,
    scan::ScanType,
};
use map::WorldMap;

pub mod attack;
pub mod explore;
pub mod helpers;
pub mod map;

verus! {

#[derive(Clone, Copy, Debug, PartialEq, Eq, Structural)]
pub enum PlayerState {
    Start,
    Explore,
    Attack,
}

pub struct Arola {
    state: PlayerState,
    map: WorldMap,
    scan_direction: Orientation,
    target_position: Option<Position>,
}

impl Arola {
    /// The stage of the game the tank is in.
    pub closed spec fn state_spec(self) -> PlayerState {
        self.state
    }

    /// What the tank remembers of the world.
    pub closed spec fn map_spec(self) -> WorldMap {
        self.map
    }

    /// The direction of the mono scan made last while exploring.
    pub closed spec fn scan_direction_spec(self) -> Orientation {
        self.scan_direction
    }

    /// Where the tank is heading.
    pub closed spec fn target_spec(self) -> Option<Position> {
        self.target_position
    }

    /// The tank in the given stage of the game, all else as it is.
    pub closed spec fn with_state(self, state: PlayerState) -> Arola {
        Arola { state, ..self }
    }

    pub fn new() -> (r: Self)
        ensures
            r.state_spec() == PlayerState::Start,
            forall|x: int, y: int| #[trigger] r.map_spec().cell_at(x, y) == crate::api::map_cell::MapCell::Unallocated,
            r.scan_direction_spec() == Orientation::North,
            r.target_spec() is None,
    {
        Self {
            state: PlayerState::Start,
            map: WorldMap::new(),
            scan_direction: Orientation::North,
            target_position: None,
        }
    }
}

/// The tank with the scan of the turn stored on its map, all else as before.
pub open spec fn scan_stored(before: Arola, ctx: Context, stored: Arola) -> bool {
    &&& stored.state_spec() == before.state_spec()
    &&& stored.scan_direction_spec() == before.scan_direction_spec()
    &&& stored.target_spec() == before.target_spec()
    &&& match ctx.scan_spec() {
        None => stored.map_spec() == before.map_spec(),
        Some(scan) => {
            let o = helpers::scan_world_origin(scan.scan_type, ctx.position_spec());
            forall|x: int, y: int| #[trigger]
                stored.map_spec().cell_at(x, y) == if map::valid_coordinate(x, y) && o.0 <= x
                    < o.0 + crate::api::position::SCANNING_DISTANCE && o.1 <= y < o.1
                    + crate::api::position::SCANNING_DISTANCE {
                    map::resolved(scan.cell(y - o.1, x - o.0))
                } else {
                    before.map_spec().cell_at(x, y)
                }
        },
    }
}

impl Player for Arola {
    /// Stores the scan on the map; then scans all around at the start, and explores or
    /// attacks after.
    fn act(&mut self, context: Context) -> (r: Action)
        ensures
            final(self).state_spec() != PlayerState::Start,
            exists|stored: Arola, turned: Arola|
                #![trigger scan_stored(*old(self), context, stored), turned.with_state(final(self).state_spec())]
                scan_stored(*old(self), context, stored) && match old(
                    self,
                ).state_spec() {
                    PlayerState::Start => r == Action::Scan(ScanType::Omni) && turned == stored,
                    PlayerState::Explore => explore::explored(
                        stored,
                        context,
                        (final(self).state_spec(), r),
                        turned,
                    ),
                    PlayerState::Attack => (final(self).state_spec(), r) == attack::attack_answer(
                        context,
                    ) && turned == stored,
                } && *final(self) == turned.with_state(final(self).state_spec()),
    {
        // Collect scan data to map
        if let Some(scan_result) = context.scanned_data() {
            self.map.collect_data(scan_result, context.position());
        }
        let ghost stored = *self;

        // Do processing and decide action
        let (next_state, action) = match self.state {
            PlayerState::Start => (PlayerState::Explore, Action::Scan(ScanType::Omni)),
            PlayerState::Explore => self.explore(&context),
            PlayerState::Attack => self.attack(&context),
        };

        let ghost turned = *self;
        // Set new state and return action
        self.state = next_state;
        proof {
            assert(scan_stored(*old(self), context, stored));
            assert(*self == turned.with_state(next_state));
        }
        return action;
    }

    fn name(&self) -> (r: String)
        ensures
            r@ == "Arola"@,
    {
        "Arola".to_owned()
    }

    fn is_ready(&self) -> (r: bool)
        ensures
            !r,
    {
        false
    }
}

} // verus!
