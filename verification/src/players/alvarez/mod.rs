//! The parts of Luis's logic that work on whole cells: orientation lists, the reading of
//! scans, the tracking of tanks, and the move between neighbouring cells.
pub mod scanner;
pub mod strategy;
pub mod tanks;
pub mod terrain;
pub mod types;
