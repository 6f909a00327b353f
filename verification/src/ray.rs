//! The parametric ray.

use vstd::prelude::*;
use crate::vector::Vector3;

verus! {

/// A ray: the points `origin + t * direction`, one for each parameter `t`.
/// The direction is kept as it was given, not scaled to unit length.
#[derive(Clone, Copy, Debug, PartialEq, Eq, Structural)]
pub struct Ray {
    org: Vector3,
    dst: Vector3,
}

impl Ray {
    /// The origin, as a spec value.
    pub closed spec fn spec_origin(&self) -> Vector3 {
        self.org
    }

    /// The direction, as a spec value.
    pub closed spec fn spec_destination(&self) -> Vector3 {
        self.dst
    }

    /// The ray from `o` along `d`.
    pub fn new(o: Vector3, d: Vector3) -> (r: Ray)
        ensures
            r.spec_origin() == o,
            r.spec_destination() == d,
    {
        Ray { org: o, dst: d }
    }

    /// The point that the ray starts from.
    #[verifier::when_used_as_spec(spec_origin)]
    pub fn origin(&self) -> (o: Vector3)
        ensures
            o == self.spec_origin(),
    {
        self.org
    }

    /// The direction that the ray was built with.
    #[verifier::when_used_as_spec(spec_destination)]
    pub fn destination(&self) -> (d: Vector3)
        ensures
            d == self.spec_destination(),
    {
        self.dst
    }
}

} // verus!
