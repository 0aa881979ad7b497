use vstd::prelude::*;

verus! {

/// An integer position in three dimensions, used for chunk-local addressing.
#[derive(Clone, Copy, Debug, PartialEq, Eq, Structural, Hash)]
pub struct IVec3 {
    pub x: i32,
    pub y: i32,
    pub z: i32,
}

impl IVec3 {
    pub fn new(x: i32, y: i32, z: i32) -> (r: IVec3)
        ensures
            r == (IVec3 { x, y, z }),
    {
        IVec3 { x, y, z }
    }

    /// Whether any coordinate is below zero.
    pub fn is_any_negative(self) -> (r: bool)
        ensures
            r == (self.x < 0 || self.y < 0 || self.z < 0),
    {
        self.x < 0 || self.y < 0 || self.z < 0
    }
}

/// An integer position on the horizontal grid of chunks.
#[derive(Clone, Copy, Debug, PartialEq, Eq, Structural, Hash)]
pub struct IVec2 {
    pub x: i32,
    pub y: i32,
}

impl IVec2 {
    pub fn new(x: i32, y: i32) -> (r: IVec2)
        ensures
            r == (IVec2 { x, y }),
    {
        IVec2 { x, y }
    }
}

} // verus!
