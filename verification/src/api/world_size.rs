use vstd::prelude::*;

verus! {

/// Specifies the maximum horizontal or vertical size of the game map
pub const MAX_WORLD_SIZE: usize = 128;

#[derive(Clone, Copy, Debug, Hash, PartialEq, Eq, PartialOrd, Ord, Structural)]
pub struct WorldSize {
    pub x: usize,
    pub y: usize,
}

impl WorldSize {
    /// A world that fits in the engine's map arrays and holds at least one cell.
    pub open spec fn fits_map(self) -> bool {
        &&& 0 < self.x <= MAX_WORLD_SIZE
        &&& 0 < self.y <= MAX_WORLD_SIZE
    }
}

} // verus!
