use vstd::prelude::*;

use crate::api::world_size::MAX_WORLD_SIZE;

verus! {

#[derive(Clone, Copy, Debug, PartialEq, Eq, Structural)]
pub enum SensorData {
    NotScanned,
    Empty,
    Blocked,
}

#[derive(Clone, Copy, PartialEq, Eq, Structural)]
pub struct Track {
    pub x: usize,
    pub y: usize,
    pub timestamp: i32,
}

/// What the tank knows of the world: a grid of sensed cells indexed by column and then
/// row, the tracks of other tanks (latest first), and how long ago it scanned each way.
pub struct SensorMap {
    pub sensor_data: Vec<Vec<SensorData>>,
    pub tracks: Vec<Track>,
    pub initial_scan_done: bool,
    pub actions_since_last_scan_northwest: i64,
    pub actions_since_last_scan_northeast: i64,
    pub actions_since_last_scan_southeast: i64,
    pub actions_since_last_scan_southwest: i64,
}

impl SensorMap {
    /// The grid covers the whole largest world.
    pub open spec fn wf(self) -> bool {
        &&& self.sensor_data@.len() == MAX_WORLD_SIZE
        &&& forall|x: int| 0 <= x < MAX_WORLD_SIZE ==> (#[trigger] self.sensor_data@[x])@.len() == MAX_WORLD_SIZE
    }

    /// The sensed state of a cell.
    pub open spec fn sensed(self, x: int, y: int) -> SensorData {
        self.sensor_data@[x]@[y]
    }

    /// The sensed state of a cell, where cells beyond the grid count as blocked.
    pub open spec fn tile(self, x: int, y: int) -> SensorData {
        if x < 0 || y < 0 || x >= MAX_WORLD_SIZE || y >= MAX_WORLD_SIZE || x
            >= self.sensor_data@.len() || y >= self.sensor_data@[x]@.len() {
            SensorData::Blocked
        } else {
            self.sensed(x, y)
        }
    }
}

pub struct Data {
    pub map: SensorMap,
}

impl Data {
    pub fn new() -> (r: Self)
        ensures
            r.map.wf(),
            forall|x: int, y: int|
                0 <= x < MAX_WORLD_SIZE && 0 <= y < MAX_WORLD_SIZE ==> #[trigger] r.map.sensed(x, y)
                    == SensorData::NotScanned,
            r.map.tracks@.len() == 0,
            !r.map.initial_scan_done,
    {
        Self { map: SensorMap::new() }
    }
}

} // verus!
