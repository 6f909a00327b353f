//! Points, directions and colours: three scalars.

use vstd::prelude::*;
use crate::scalar::Scalar;

verus! {

/// Three scalars, read as a point, a direction or a colour.
#[derive(Clone, Copy, Debug, PartialEq, Eq, Structural)]
pub struct Vector3 {
    pub x: Scalar,
    pub y: Scalar,
    pub z: Scalar,
}

impl Vector3 {
    /// Every component is a zero, of either sign: the vector has no direction.
    pub open spec fn is_zero(self) -> bool {
        self.x.magnitude() == 0 && self.y.magnitude() == 0 && self.z.magnitude() == 0
    }

    /// The vector with the given components.
    pub fn new(x: Scalar, y: Scalar, z: Scalar) -> (v: Vector3)
        ensures
            v == (Vector3 { x, y, z }),
    {
        Vector3 { x, y, z }
    }

    /// The vector whose components have the given encodings, as a spec value.
    pub open spec fn spec_from_bits(x: u32, y: u32, z: u32) -> Vector3 {
        Vector3 { x: Scalar { bits: x }, y: Scalar { bits: y }, z: Scalar { bits: z } }
    }

    /// The vector whose components have the given encodings.
    #[verifier::when_used_as_spec(spec_from_bits)]
    pub fn from_bits(x: u32, y: u32, z: u32) -> (v: Vector3)
        ensures
            v == Vector3::spec_from_bits(x, y, z),
    {
        Vector3 { x: Scalar { bits: x }, y: Scalar { bits: y }, z: Scalar { bits: z } }
    }
}

} // verus!
