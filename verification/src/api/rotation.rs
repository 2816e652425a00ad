use vstd::prelude::*;

verus! {

#[derive(Clone, Copy, Debug, Default, Hash, PartialEq, Eq, PartialOrd, Ord, Structural)]
pub enum Rotation {
    #[default]
    Clockwise,
    CounterClockwise,
}

impl Rotation {
    pub open spec fn opposite_spec(self) -> Rotation {
        match self {
            Rotation::Clockwise => Rotation::CounterClockwise,
            Rotation::CounterClockwise => Rotation::Clockwise,
        }
    }

    pub fn opposite(&self) -> (r: Self)
        ensures
            r == self.opposite_spec(),
            r != *self,
    {
        match self {
            Self::Clockwise => Self::CounterClockwise,
            Self::CounterClockwise => Self::Clockwise,
        }
    }

    /// The name under which a rotation is shown to people.
    pub fn label(&self) -> (r: &'static str)
        ensures
            *self == Rotation::Clockwise ==> r@ == "Clockwise"@,
            *self == Rotation::CounterClockwise ==> r@ == "Counter-Clockwise"@,
    {
        match self {
            Rotation::Clockwise => "Clockwise",
            Rotation::CounterClockwise => "Counter-Clockwise",
        }
    }
}

} // verus!
