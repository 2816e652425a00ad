use vstd::prelude::*;

use super::{map_cell::MapCell, orientation::Orientation, position::SCANNING_DISTANCE};

verus! {

#[derive(Clone, Copy, Debug, Default, Hash, PartialEq, Eq, PartialOrd, Ord, Structural)]
pub enum ScanType {
    Mono(Orientation),
    #[default]
    Omni,
}

#[derive(Debug, Hash, PartialEq, Eq, PartialOrd, Ord)]
pub struct ScanResult {
    pub scan_type: ScanType,
    pub data: Box<[[MapCell; SCANNING_DISTANCE]; SCANNING_DISTANCE]>,
}

impl ScanResult {
    /// The scanned cell at a row and column.
    pub open spec fn cell(self, y: int, x: int) -> MapCell {
        self.data@[y]@[x]
    }
}

impl Clone for ScanResult {
    fn clone(&self) -> (r: Self)
        ensures
            r == *self,
    {
        ScanResult { scan_type: self.scan_type, data: Box::new(*self.data) }
    }
}

impl Default for ScanResult {
    /// An omni scan of unexplored cells.
    fn default() -> (r: Self)
        ensures
            r.scan_type == ScanType::Omni,
            forall|y: int, x: int|
                0 <= y < SCANNING_DISTANCE && 0 <= x < SCANNING_DISTANCE ==> #[trigger] r.cell(y, x)
                    == MapCell::Unallocated,
    {
        ScanResult {
            scan_type: ScanType::Omni,
            data: Box::new([[MapCell::Unallocated; SCANNING_DISTANCE]; SCANNING_DISTANCE]),
        }
    }
}

} // verus!
