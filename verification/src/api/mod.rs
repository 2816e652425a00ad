pub mod action;
pub mod aiming;
pub mod context;
pub mod direction;
pub mod map_cell;
pub mod orientation;
pub mod path_finder;
pub mod player;
pub mod position;
pub mod rotation;
pub mod scan;
pub mod world_size;
