use vstd::prelude::*;

use crate::api::{action::Action, context::Context, player::Player};

pub mod plans;
pub mod sensors;
pub mod shared;

use plans::next_action_chosen;
use sensors::map_updated;
use shared::Data;

verus! {

pub struct Rahtu {
    pub data: Data,
}

impl Rahtu {
    pub fn new() -> (r: Self)
        ensures
            r.data.map.wf(),
    {
        Self { data: Data::new() }
    }
}

impl Player for Rahtu {
    /// Records the scan on the map; then picks the next action on the updated map; see
    /// `map_updated` and `next_action_chosen`.
    fn act(&mut self, context: Context) -> (r: Action)
        ensures
            exists|recorded: Data|
                map_updated(old(self).data.map, recorded.map, context) && next_action_chosen(
                    recorded,
                    final(self).data,
                    context,
                    r,
                ),
    {
        self.data.map.update_map(&context);
        let ghost recorded = self.data;
        let action = plans::get_next_action(&mut self.data, &context);
        proof {
            assert(map_updated(old(self).data.map, recorded.map, context) && next_action_chosen(
                recorded,
                self.data,
                context,
                action,
            ));
        }
        action
    }

    fn name(&self) -> (r: String)
        ensures
            r@ == "Nascar"@,
    {
        "Nascar".to_owned()
    }

    fn is_ready(&self) -> (r: bool)
        ensures
            r,
    {
        true
    }
}

} // verus!
