use vstd::prelude::*;

use super::{orientation::Orientation, position::Position};

verus! {

#[derive(Clone, Copy, Debug, Hash, PartialEq, Eq, PartialOrd, Ord, Structural)]
pub enum Aiming {
    Cardinal(Orientation),
    Positional(Position),
}

impl Default for Aiming {
    fn default() -> (r: Self)
        ensures
            r == Aiming::Cardinal(Orientation::North),
    {
        Aiming::Cardinal(Orientation::North)
    }
}

} // verus!
