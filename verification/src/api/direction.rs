use vstd::prelude::*;

verus! {

#[derive(Clone, Copy, Debug, Default, Hash, PartialEq, Eq, PartialOrd, Ord, Structural)]
pub enum Direction {
    #[default]
    Forward,
    Backward,
}

impl Direction {
    /// The name under which a direction is shown to people.
    pub fn label(&self) -> (r: &'static str)
        ensures
            *self == Direction::Forward ==> r@ == "Forward"@,
            *self == Direction::Backward ==> r@ == "Backward"@,
    {
        match self {
            Direction::Forward => "Forward",
            Direction::Backward => "Backward",
        }
    }
}

} // verus!
