//! What a ray can hit: the capability, the record of a hit, and the scene.

pub mod laws;
pub mod sphere;

use vstd::prelude::*;
use crate::ray::Ray;
use crate::scalar::Scalar;
use crate::vector::Vector3;

verus! {

/// Where a ray met a surface: the parameter `t` along the ray, the point `p`
/// and the outward unit normal `n` there.
#[derive(Clone, Copy, Debug, PartialEq, Eq, Structural)]
pub struct HitRecord {
    pub t: Scalar,
    pub p: Vector3,
    pub n: Vector3,
}

impl HitRecord {
    /// The blank record: every component is `0.0`.
    pub fn new() -> (rec: HitRecord)
        ensures
            rec.t.bits == 0,
            rec.p == Vector3::from_bits(0, 0, 0),
            rec.n == Vector3::from_bits(0, 0, 0),
    {
        HitRecord {
            t: Scalar::zero(),
            p: Vector3::from_bits(0, 0, 0),
            n: Vector3::from_bits(0, 0, 0),
        }
    }
}

/// A crossing counts from `t_min` on: its parameter is a number not below `t_min`.
pub open spec fn ahead(crossing: Option<HitRecord>, t_min: Scalar) -> bool {
    match crossing {
        Some(rec) => t_min.spec_le(rec.t),
        None => false,
    }
}

/// What a query with the window `[t_min, t_max]` reports of a shape whose
/// closest crossing from `t_min` on is `crossing`: that crossing, if it lies
/// within the window.
pub open spec fn reported(crossing: Option<HitRecord>, t_min: Scalar, t_max: Scalar) -> Option<
    HitRecord,
> {
    match crossing {
        Some(rec) => if rec.t.within(t_min, t_max) {
            crossing
        } else {
            None
        },
        None => None,
    }
}

/// Anything that a ray can hit.
pub trait Hitable {
    /// The closest crossing of `ray` with the shape among those whose
    /// parameter is at least `t_min`. It does not depend on how far a query
    /// looks. It is ghost: nothing that runs calls it.
    spec fn nearest(&self, ray: Ray, t_min: Scalar) -> Option<HitRecord>;

    /// Looks for the closest crossing within `[t_min, t_max]`. When there is
    /// one, `hit_rec` becomes its record and the answer is true. When there
    /// is none, `hit_rec` is left as it was.
    fn hit(&self, ray: &Ray, t_min: Scalar, t_max: Scalar, hit_rec: &mut HitRecord) -> (found: bool)
        ensures
            found == reported(self.nearest(*ray, t_min), t_min, t_max).is_some(),
            found ==> reported(self.nearest(*ray, t_min), t_min, t_max) == Some(*final(hit_rec)),
            !found ==> *final(hit_rec) == *old(hit_rec),
    ;
}

/// The closest crossing from `t_min` on among the first `n` members. Of two
/// members whose crossings are equally close, the earlier one is kept: a
/// later member takes the place of an earlier one only where it is strictly
/// closer.
pub open spec fn closest_among<H: Hitable>(
    members: Seq<H>,
    ray: Ray,
    t_min: Scalar,
    n: nat,
) -> Option<HitRecord>
    decreases n,
{
    if n == 0 {
        None
    } else {
        let before = closest_among(members, ray, t_min, (n - 1) as nat);
        let here = members[n - 1].nearest(ray, t_min);
        if ahead(here, t_min) && (before.is_none() || before.unwrap().t.spec_gt(here.unwrap().t)) {
            here
        } else {
            before
        }
    }
}

/// A boxed shape is the shape in the box.
impl<H: Hitable + ?Sized> Hitable for Box<H> {
    open spec fn nearest(&self, ray: Ray, t_min: Scalar) -> Option<HitRecord> {
        (**self).nearest(ray, t_min)
    }

    fn hit(&self, ray: &Ray, t_min: Scalar, t_max: Scalar, hit_rec: &mut HitRecord) -> (found: bool)
    {
        (**self).hit(ray, t_min, t_max, hit_rec)
    }
}

/// A scene: shapes in a fixed order, itself a shape. A ray hits the member
/// that it crosses first; where it crosses two members equally close, the
/// earlier of the two.
pub struct ShapeCollection<'a, H: Hitable> {
    list: &'a Vec<H>,
}

impl<'a, H: Hitable> ShapeCollection<'a, H> {
    /// The members, in order.
    pub closed spec fn members(&self) -> Seq<H> {
        self.list@
    }

    /// The scene of the given shapes.
    pub fn new(shape_list: &'a Vec<H>) -> (scene: ShapeCollection<'a, H>)
        ensures
            scene.members() == shape_list@,
    {
        ShapeCollection { list: shape_list }
    }
}

impl<'a, H: Hitable> Hitable for ShapeCollection<'a, H> {
    open spec fn nearest(&self, ray: Ray, t_min: Scalar) -> Option<HitRecord> {
        closest_among(self.members(), ray, t_min, self.members().len())
    }

    fn hit(&self, ray: &Ray, t_min: Scalar, t_max: Scalar, hit_rec: &mut HitRecord) -> (found: bool)
    {
        let mut hit_anything = false;
        let mut closest_so_far = t_max;
        let mut k: usize = 0;
        while k < self.list.len()
            invariant
                k <= self.list.len(),
                self.members() == self.list@,
                hit_anything == reported(
                    closest_among(self.members(), *ray, t_min, k as nat),
                    t_min,
                    t_max,
                ).is_some(),
                hit_anything ==> closest_among(self.members(), *ray, t_min, k as nat) == Some(
                    *hit_rec,
                ) && closest_so_far == hit_rec.t,
                !hit_anything ==> *hit_rec == *old(hit_rec) && closest_so_far == t_max,
                closest_among(self.members(), *ray, t_min, k as nat).is_some() ==> ahead(
                    closest_among(self.members(), *ray, t_min, k as nat),
                    t_min,
                ),
            decreases self.list.len() - k,
        {
            let mut candidate = *hit_rec;
            if self.list[k].hit(ray, t_min, closest_so_far, &mut candidate) {
                if !hit_anything || closest_so_far.gt(candidate.t) {
                    *hit_rec = candidate;
                    hit_anything = true;
                    closest_so_far = candidate.t;
                }
            }
            k += 1;
        }
        hit_anything
    }
}

} // verus!
