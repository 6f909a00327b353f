//! The sphere, and the choice between the two places where a ray meets it.

use vstd::prelude::*;
use crate::scalar::Scalar;
use crate::vector::Vector3;

verus! {

/// A sphere: a centre and a radius above zero.
#[derive(Clone, Copy, Debug)]
pub struct Sphere {
    center: Vector3,
    radius: Scalar,
}

impl Sphere {
    #[verifier::type_invariant]
    spec fn radius_is_positive(self) -> bool {
        self.radius.spec_gt(Scalar { bits: 0 })
    }

    /// The centre, as a spec value.
    pub closed spec fn spec_center(&self) -> Vector3 {
        self.center
    }

    /// The radius, as a spec value.
    pub closed spec fn spec_radius(&self) -> Scalar {
        self.radius
    }

    /// The sphere round `ctr` with radius `rad`.
    pub fn new(ctr: Vector3, rad: Scalar) -> (s: Sphere)
        requires
            rad.spec_gt(Scalar { bits: 0 }),
        ensures
            s.spec_center() == ctr,
            s.spec_radius() == rad,
    {
        Sphere { center: ctr, radius: rad }
    }

    /// The centre.
    #[verifier::when_used_as_spec(spec_center)]
    pub fn center(&self) -> (c: Vector3)
        ensures
            c == self.spec_center(),
    {
        self.center
    }

    /// The radius: a number above zero.
    #[verifier::when_used_as_spec(spec_radius)]
    pub fn radius(&self) -> (r: Scalar)
        ensures
            r == self.spec_radius(),
            r.spec_gt(Scalar { bits: 0 }),
    {
        proof {
            use_type_invariant(self);
        }
        self.radius
    }
}

/// The quadratic of a ray against a sphere, solved. With `oc` the ray's
/// origin less the centre, `d` its direction and `r` the radius, the
/// coefficients are `a = d.d`, `b = 2 oc.d` and `c = oc.oc - r r`; then
/// `discriminant` is `b b - 4 a c`, `near` is `(-b - sqrt(discriminant)) / (2 a)`
/// and `far` is `(-b + sqrt(discriminant)) / (2 a)`.
#[derive(Clone, Copy, Debug, PartialEq, Eq, Structural)]
pub struct Roots {
    pub discriminant: Scalar,
    pub near: Scalar,
    pub far: Scalar,
}

impl Roots {
    /// The ray goes through the sphere: the discriminant is above zero. A ray
    /// that only touches the sphere does not count.
    pub open spec fn crosses(self) -> bool {
        self.discriminant.spec_gt(Scalar { bits: 0 })
    }

    /// The root that a query with the window `[t_min, t_max]` accepts: the
    /// near one if it lies within the window, else the far one if that does.
    pub open spec fn accepted(self, t_min: Scalar, t_max: Scalar) -> Option<Scalar> {
        if !self.crosses() {
            None
        } else if self.near.within(t_min, t_max) {
            Some(self.near)
        } else if self.far.within(t_min, t_max) {
            Some(self.far)
        } else {
            None
        }
    }

    /// The first root from `t_min` on, however far it lies.
    pub open spec fn first_from(self, t_min: Scalar) -> Option<Scalar> {
        if !self.crosses() {
            None
        } else if t_min.spec_le(self.near) {
            Some(self.near)
        } else if t_min.spec_le(self.far) {
            Some(self.far)
        } else {
            None
        }
    }

    /// Chooses the parameter of the hit within `[t_min, t_max]`, if there is one.
    pub fn select(&self, t_min: Scalar, t_max: Scalar) -> (t: Option<Scalar>)
        ensures
            t == self.accepted(t_min, t_max),
            t.is_some() ==> self.discriminant.rank() > 0,
    {
        if self.discriminant.gt(Scalar::zero()) {
            if self.near.le(t_max) && self.near.ge(t_min) {
                return Some(self.near);
            }
            if self.far.le(t_max) && self.far.ge(t_min) {
                return Some(self.far);
            }
        }
        None
    }
}

/// Where the roots are in order, the accepted root is the least root within
/// the window, and none is accepted only if neither lies within it.
pub proof fn lemma_accepts_least_root(roots: Roots, t_min: Scalar, t_max: Scalar)
    requires
        roots.crosses(),
        roots.near.spec_le(roots.far),
    ensures
        match roots.accepted(t_min, t_max) {
            Some(t) => {
                &&& t.within(t_min, t_max)
                &&& t == roots.near || t == roots.far
                &&& roots.near.within(t_min, t_max) ==> t.spec_le(roots.near)
                &&& roots.far.within(t_min, t_max) ==> t.spec_le(roots.far)
            },
            None => !roots.near.within(t_min, t_max) && !roots.far.within(t_min, t_max),
        },
{
}

/// What a query accepts is the first root from `t_min` on, if that is no
/// further than `t_max`: how far a query looks does not change which root comes
/// first. This holds unless the near root is the larger one.
pub proof fn lemma_accepted_is_first_in_reach(roots: Roots, t_min: Scalar, t_max: Scalar)
    requires
        !roots.near.spec_gt(roots.far),
    ensures
        roots.accepted(t_min, t_max) == match roots.first_from(t_min) {
            Some(t) => if t.spec_le(t_max) {
                Some(t)
            } else {
                None
            },
            None => None,
        },
{
}

/// A ray that goes through the sphere and enters it within the window is
/// reported where it enters, not where it leaves.
pub proof fn lemma_entry_point_is_reported(roots: Roots, t_min: Scalar, t_max: Scalar)
    requires
        roots.crosses(),
        roots.near.within(t_min, t_max),
    ensures
        roots.accepted(t_min, t_max) == Some(roots.near),
{
}

/// A ray that only touches the sphere misses, wherever the point of touch
/// lies: a discriminant of zero, of either sign, gives no hit in any window.
pub proof fn lemma_tangent_misses(roots: Roots, t_min: Scalar, t_max: Scalar)
    requires
        roots.discriminant.rank() == 0,
    ensures
        !roots.crosses(),
        roots.accepted(t_min, t_max).is_none(),
{
}

/// A ray whose two roots both lie behind `t_min` misses.
pub proof fn lemma_roots_behind_miss(roots: Roots, t_min: Scalar, t_max: Scalar)
    requires
        t_min.spec_gt(roots.near),
        t_min.spec_gt(roots.far),
    ensures
        roots.accepted(t_min, t_max).is_none(),
{
}

} // verus!
