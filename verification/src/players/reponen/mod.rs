use vstd::prelude::*;

use super::player::{Action, Context, Player};

verus! {

pub struct Samuli {}

impl Samuli {
    pub fn new() -> Self {
        Self {  }
    }
}

impl Player for Samuli {
    /// Stays idle.
    fn act(&mut self, context: &Context) -> (r: Action)
        ensures
            r == Action::Idle,
    {
        Action::Idle
    }

    fn name(&self) -> (r: String)
        ensures
            r@ == "Samuli"@,
    {
        "Samuli".to_owned()
    }
}

} // verus!
