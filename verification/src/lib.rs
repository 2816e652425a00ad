use vstd::prelude::*;

pub mod api;
pub mod chance;
pub mod engine;
pub mod players;
pub mod table;
pub mod text;

verus! {

} // verus!
