//! Three scalars: a point, a direction or a colour.

use crate::scalar::Scalar;
use vstd::prelude::*;

verus! {

/// A point, a direction or an RGB colour, by its three components.
#[derive(Clone, Copy, Debug, PartialEq, Eq)]
pub struct Vec3 {
    pub x: Scalar,
    pub y: Scalar,
    pub z: Scalar,
}

impl Vec3 {
    /// The vector with the given components.
    pub fn new(x: Scalar, y: Scalar, z: Scalar) -> (v: Vec3)
        ensures
            v == (Vec3 { x, y, z }),
    {
        Vec3 { x, y, z }
    }

    /// The vector whose three components are all `s`.
    pub open spec fn uniform(s: Scalar) -> Vec3 {
        Vec3 { x: s, y: s, z: s }
    }
}

} // verus!
