use vstd::prelude::*;

use super::player::Details;

verus! {

#[derive(Clone, Copy, Debug, Default, Hash, PartialEq, Eq, PartialOrd, Ord, Structural)]
pub enum MapCell {
    Explosion(Details, Terrain),
    Player(Details, Terrain),
    Shell(Details, Terrain),
    Terrain(Terrain),
    #[default]
    Unallocated,
}

#[derive(Clone, Copy, Debug, Default, Hash, PartialEq, Eq, PartialOrd, Ord, Structural)]
pub enum Terrain {
    #[default]
    Field,
    Lake,
    Forest(TreeType),
    Swamp,
}

#[derive(Clone, Copy, Debug, Default, Hash, PartialEq, Eq, PartialOrd, Ord, Structural)]
pub enum TreeType {
    #[default]
    Deciduous,
    Evergreen,
}

impl Terrain {
    /// The picture under which a terrain is shown on the map.
    pub fn symbol(&self) -> (r: &'static str)
        ensures
            *self == Terrain::Field ==> r@ == "🟩"@,
            *self == Terrain::Lake ==> r@ == "🟦"@,
            *self == Terrain::Forest(TreeType::Deciduous) ==> r@ == "🌳"@,
            *self == Terrain::Forest(TreeType::Evergreen) ==> r@ == "🌲"@,
            *self == Terrain::Swamp ==> r@ == "🟫"@,
    {
        match self {
            Self::Field => "🟩",
            Self::Lake => "🟦",
            Self::Forest(TreeType::Deciduous) => "🌳",
            Self::Forest(TreeType::Evergreen) => "🌲",
            Self::Swamp => "🟫",
        }
    }
}

} // verus!
