use vstd::prelude::*;

verus! {

/// The kinds of block a chunk cell can hold.
#[derive(Clone, Copy, Debug, PartialEq, Eq, Structural, Hash)]
pub enum BlockId {
    Air,
    Dirt,
    Grass,
    Stone,
}

impl BlockId {
    /// Whether this is the empty block.
    pub fn is_air(self) -> (r: bool)
        ensures
            r == (self == BlockId::Air),
    {
        matches!(self, BlockId::Air)
    }

    /// Whether this block occludes its neighbours' faces: every kind but air.
    pub fn is_solid(self) -> (r: bool)
        ensures
            r == self.solid(),
    {
        !self.is_air()
    }

    pub open spec fn solid(self) -> bool {
        self != BlockId::Air
    }
}

} // verus!
