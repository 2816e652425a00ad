use vstd::prelude::*;

use crate::api::{action::Action, context::Context, player::Player};

verus! {

pub struct PlayerTeemu {}

impl PlayerTeemu {
    pub fn new() -> Self {
        Self {  }
    }
}

impl Player for PlayerTeemu {
    /// Stays idle.
    fn act(&mut self, context: Context) -> (r: Action)
        ensures
            r == Action::Idle,
    {
        //Scan environmen
        //Move forward until hitting obstacle or other player
        Action::Idle
    }

    fn name(&self) -> (r: String)
        ensures
            r@ == "Teemu"@,
    {
        "Teemu".to_owned()
    }
}

} // verus!
