pub mod championship;
pub mod context;
pub mod game;
pub mod outcome;
pub mod shell;
pub mod tank;
