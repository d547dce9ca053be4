//! Integer grid vectors.

use std::ops::Add;
use vstd::prelude::*;
use vstd::std_specs::ops::AddSpecImpl;

verus! {

/// A point of the integer lattice: a grid corner, a cell, or an offset between two of them.
#[derive(Clone, Copy, Debug, PartialEq, Eq, Structural)]
pub struct IVec3 {
    pub x: i32,
    pub y: i32,
    pub z: i32,
}

impl IVec3 {
    /// Whether every component of `self + rhs` is representable.
    pub open spec fn can_add(self, rhs: IVec3) -> bool {
        &&& i32::MIN <= self.x + rhs.x <= i32::MAX
        &&& i32::MIN <= self.y + rhs.y <= i32::MAX
        &&& i32::MIN <= self.z + rhs.z <= i32::MAX
    }

    /// The componentwise sum; meaningful where `can_add` holds.
    pub open spec fn plus(self, rhs: IVec3) -> IVec3 {
        IVec3 {
            x: (self.x + rhs.x) as i32,
            y: (self.y + rhs.y) as i32,
            z: (self.z + rhs.z) as i32,
        }
    }
}

impl AddSpecImpl<IVec3> for IVec3 {
    open spec fn obeys_add_spec() -> bool {
        true
    }

    open spec fn add_req(self, rhs: IVec3) -> bool {
        self.can_add(rhs)
    }

    open spec fn add_spec(self, rhs: IVec3) -> IVec3 {
        self.plus(rhs)
    }
}

impl Add<IVec3> for IVec3 {
    type Output = IVec3;

    /// Componentwise addition. The sum of each pair of components must be representable.
    fn add(self, rhs: IVec3) -> (out: IVec3)
        ensures
            out == self.plus(rhs),
            out.x == self.x + rhs.x,
            out.y == self.y + rhs.y,
            out.z == self.z + rhs.z,
    {
        IVec3 { x: self.x + rhs.x, y: self.y + rhs.y, z: self.z + rhs.z }
    }
}

} // verus!
