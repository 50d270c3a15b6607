//! Three-component fixed-point vectors, with a mathematical-integer view
//! used by every specification.

use vstd::prelude::*;

verus! {

/// A 3D vector in fixed-point steps: x and y span the horizontal plane,
/// z is height above the ground.
#[derive(Clone, Copy, PartialEq, Eq, Structural, Debug)]
pub struct V3 {
    pub x: i64,
    pub y: i64,
    pub z: i64,
}

/// The mathematical value of a `V3`.
pub ghost struct V3g {
    pub x: int,
    pub y: int,
    pub z: int,
}

impl View for V3 {
    type V = V3g;

    open spec fn view(&self) -> V3g {
        V3g { x: self.x as int, y: self.y as int, z: self.z as int }
    }
}

impl V3 {
    /// The zero vector.
    pub fn zero() -> (r: V3)
        ensures
            r@.x == 0 && r@.y == 0 && r@.z == 0,
    {
        V3 { x: 0, y: 0, z: 0 }
    }
}

} // verus!
