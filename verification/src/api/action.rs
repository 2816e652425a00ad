use vstd::prelude::*;

use super::{aiming::Aiming, direction::Direction, rotation::Rotation, scan::ScanType};

verus! {

#[derive(Clone, Copy, Debug, Default, Hash, PartialEq, Eq, PartialOrd, Ord, Structural)]
pub enum Action {
    #[default]
    Idle,
    Fire(Aiming),
    Move(Direction),
    Rotate(Rotation),
    Scan(ScanType),
}

} // verus!
