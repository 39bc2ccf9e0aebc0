use vstd::prelude::*;

verus! {

/// A three-component value: fixed-point positions and directions, or integer cell coordinates.
#[derive(Clone, Copy, Debug, PartialEq, Eq)]
pub struct Vec3<T> {
    pub x: T,
    pub y: T,
    pub z: T,
}

impl<T> Vec3<T> {
    pub fn new(x: T, y: T, z: T) -> (r: Self)
        ensures
            r.x == x,
            r.y == y,
            r.z == z,
    {
        Self { x, y, z }
    }
}

} // verus!
