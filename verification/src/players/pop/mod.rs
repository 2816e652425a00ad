use vstd::prelude::*;

use crate::api::{action::Action, context::Context, player::Player};

pub mod magellan;

verus! {

pub struct Aurelian {}

// Public functions
impl Aurelian {
    pub fn new() -> Self {
        Self {  }
    }
}

impl Player for Aurelian {
    /// Stays idle.
    fn act(&mut self, _context: Context) -> (r: Action)
        ensures
            r == Action::Idle,
    {
        Action::Idle
    }

    fn name(&self) -> (r: String)
        ensures
            r@ == "Aurelian"@,
    {
        "Aurelian".to_owned()
    }
}

} // verus!
