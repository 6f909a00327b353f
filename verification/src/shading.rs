//! The diffuse bounce walk of one camera ray, and the sampling of a bounce.
//!
//! A ray that hits the scene is scattered and followed further, and what it
//! brings back is halved; a ray that misses, or whose budget is spent, sees
//! the sky. So the colour of a camera ray is the sky's colour along the last
//! ray of its walk, halved once for each bounce. [`Walk`] decides how the walk
//! goes on; the caller casts the rays.

use vstd::prelude::*;
use vstd::arithmetic::power2::{lemma2_to64, lemma_pow2_adds};
use crate::ray::Ray;
use crate::scalar::{lemma_encodes, Scalar, HALF_BITS, ONE_BITS};
use crate::shape::{reported, HitRecord, Hitable};
use crate::vector::Vector3;

verus! {

/// The encoding of `0.0001`, the closest parameter at which a scattered ray
/// may hit: closer, it would hit the surface that it leaves.
pub const NEAR_BITS: u32 = 0x38d1_b717;

/// The encoding of the largest finite number, the furthest parameter at
/// which a ray of the walk may hit.
pub const FAR_BITS: u32 = 0x7f7f_ffff;

/// The encoding of `0.7`.
pub const SEVEN_TENTHS_BITS: u32 = 0x3f33_3333;

/// A bounce direction is drawn at most this often.
pub const MAX_DRAWS: u32 = 100;

/// The lower end of the window in which a ray of the walk may hit: `0.0001`.
pub fn near_limit() -> (t: Scalar)
    ensures
        t.bits == NEAR_BITS,
        t.encodes(1, 10000),
{
    let t = Scalar { bits: NEAR_BITS };
    proof {
        lemma2_to64();
        lemma_pow2_adds(32, 5);
        lemma_encodes(t, 1, 10000, 37);
    }
    t
}

/// The upper end of that window: the largest finite number. The window so
/// holds every finite parameter from `0.0001` on, and no infinity
/// ([`lemma_window_of_a_walk`]).
pub fn far_limit() -> (t: Scalar)
    ensures
        t.bits == FAR_BITS,
        t.is_finite() && !t.is_negative(),
{
    Scalar { bits: FAR_BITS }
}

/// The part of the light that a surface hands on at a bounce: `0.5`.
pub fn albedo() -> (a: Scalar)
    ensures
        a.bits == HALF_BITS,
        a.encodes(1, 2),
{
    Scalar::half()
}

/// The sky's colour where a ray points straight down: white, `(1, 1, 1)`.
pub fn sky_low() -> (c: Vector3)
    ensures
        c == Vector3::from_bits(ONE_BITS, ONE_BITS, ONE_BITS),
        c.x.encodes(1, 1) && c.y.encodes(1, 1) && c.z.encodes(1, 1),
{
    let one = Scalar::one();
    Vector3::new(one, one, one)
}

/// The sky's colour where a ray points straight up: blue, `(0.5, 0.7, 1)`.
pub fn sky_high() -> (c: Vector3)
    ensures
        c == Vector3::from_bits(HALF_BITS, SEVEN_TENTHS_BITS, ONE_BITS),
        c.x.encodes(1, 2) && c.y.encodes(7, 10) && c.z.encodes(1, 1),
{
    let seven_tenths = Scalar { bits: SEVEN_TENTHS_BITS };
    proof {
        lemma2_to64();
        lemma_encodes(seven_tenths, 7, 10, 24);
    }
    Vector3::new(Scalar::half(), seven_tenths, Scalar::one())
}

/// Whether a point drawn from the cube `[-1, 1]^3` is thrown away and another
/// one drawn: it is, while its squared length is at least 1, the point
/// therefore not inside the unit ball, and fewer than [`MAX_DRAWS`] points
/// have been drawn. `draws` counts the points drawn so far, this one included.
pub fn redraw(squared_length: Scalar, draws: u32) -> (again: bool)
    ensures
        again == (squared_length.spec_ge(Scalar { bits: ONE_BITS }) && draws < MAX_DRAWS),
{
    squared_length.ge(Scalar::one()) && draws < MAX_DRAWS
}

/// What a ray of a walk hits in `scene`: the closest crossing from `0.0001`
/// on, however far away, as long as its parameter is finite.
pub open spec fn seen<H: Hitable>(scene: &H, ray: Ray) -> Option<HitRecord> {
    reported(
        scene.nearest(ray, Scalar { bits: NEAR_BITS }),
        Scalar { bits: NEAR_BITS },
        Scalar { bits: FAR_BITS },
    )
}

/// The window of a walk is `[0.0001, +infinity)`: it holds the finite numbers
/// from `0.0001` on, and nothing else.
pub proof fn lemma_window_of_a_walk(t: Scalar)
    ensures
        t.within(Scalar { bits: NEAR_BITS }, Scalar { bits: FAR_BITS }) <==> t.is_finite()
            && (Scalar { bits: NEAR_BITS }).spec_le(t),
{
}

/// What a ray of a walk hits lies at a finite parameter of at least `0.0001`;
/// and the closest crossing from `0.0001` on is hit wherever its parameter is
/// finite.
pub proof fn lemma_seen_is_finite<H: Hitable>(scene: &H, ray: Ray)
    ensures
        match seen(scene, ray) {
            Some(rec) => rec.t.is_finite() && (Scalar { bits: NEAR_BITS }).spec_le(rec.t)
                && scene.nearest(ray, Scalar { bits: NEAR_BITS }) == Some(rec),
            None => match scene.nearest(ray, Scalar { bits: NEAR_BITS }) {
                Some(rec) => !(rec.t.is_finite() && (Scalar { bits: NEAR_BITS }).spec_le(rec.t)),
                None => true,
            },
        },
{
    match scene.nearest(ray, Scalar { bits: NEAR_BITS }) {
        Some(rec) => {
            lemma_window_of_a_walk(rec.t);
        },
        None => {},
    }
}

/// The number of bounces of a walk that starts with the budget `bounces`,
/// when the rays that it tests against the scene hit or miss as `hits` says,
/// one entry for each ray in turn. A ray is tested while the budget is not
/// below zero; a hit spends one bounce of it.
pub open spec fn bounces_taken(bounces: int, hits: Seq<bool>) -> nat
    decreases hits.len(),
{
    if bounces >= 0 && hits.len() > 0 && hits[0] {
        1 + bounces_taken(bounces - 1, hits.drop_first())
    } else {
        0
    }
}

/// How far the walk of one camera ray has come.
#[derive(Clone, Copy, Debug)]
pub struct Walk {
    bounces: i16,
    halvings: u16,
}

impl Walk {
    #[verifier::type_invariant]
    spec fn in_budget(self) -> bool {
        self.well_formed()
    }

    /// The bounces taken and the tests left together stay within what the
    /// largest budget allows. Every walk made by [`Walk::new`] and moved by
    /// [`Walk::advance`] is so.
    pub open spec fn well_formed(&self) -> bool {
        self.spec_halvings() + self.spec_tests_left() <= 0x8000
    }

    /// The bounce budget that is left. Below zero, the walk is over.
    pub closed spec fn spec_bounces(&self) -> i16 {
        self.bounces
    }

    /// How often the colour is halved: the number of bounces so far.
    pub closed spec fn spec_halvings(&self) -> u16 {
        self.halvings
    }

    /// How many rays the walk can still test against the scene.
    pub open spec fn spec_tests_left(&self) -> nat {
        if self.spec_bounces() >= 0 {
            (self.spec_bounces() + 1) as nat
        } else {
            0
        }
    }

    /// The ray at hand is tested against the scene: the budget is not below
    /// zero.
    pub open spec fn spec_probes(&self) -> bool {
        self.spec_bounces() >= 0
    }

    /// The walk after the ray at hand has hit the scene or not.
    pub closed spec fn after(self, hit: bool) -> Walk {
        if self.bounces >= 0 && hit {
            Walk { bounces: (self.bounces - 1) as i16, halvings: (self.halvings + 1) as u16 }
        } else {
            self
        }
    }

    /// The walk at its end, when its rays hit the scene or not as `hits`
    /// says: it goes on while a ray is tested and hits.
    pub open spec fn after_all(self, hits: Seq<bool>) -> Walk
        decreases hits.len(),
    {
        if self.spec_probes() && hits.len() > 0 && hits[0] {
            self.after(true).after_all(hits.drop_first())
        } else {
            self
        }
    }

    /// The start of a walk with the given bounce budget.
    pub fn new(bounces: i16) -> (walk: Walk)
        ensures
            walk.spec_bounces() == bounces,
            walk.spec_halvings() == 0,
            walk.well_formed(),
    {
        Walk { bounces, halvings: 0 }
    }

    /// The bounce budget that is left.
    #[verifier::when_used_as_spec(spec_bounces)]
    pub fn bounces(&self) -> (b: i16)
        ensures
            b == self.spec_bounces(),
    {
        self.bounces
    }

    /// How often the sky's colour along the last ray is to be halved.
    #[verifier::when_used_as_spec(spec_halvings)]
    pub fn halvings(&self) -> (h: u16)
        ensures
            h == self.spec_halvings(),
            self.well_formed(),
    {
        proof {
            use_type_invariant(self);
        }
        self.halvings
    }

    /// Whether the ray at hand is to be tested against the scene. A walk
    /// whose budget is below zero tests nothing more.
    #[verifier::when_used_as_spec(spec_probes)]
    pub fn probes(&self) -> (test: bool)
        ensures
            test == self.spec_probes(),
    {
        self.bounces >= 0
    }

    /// Takes the outcome of the ray at hand: `hit` says whether it hit the
    /// scene (for a ray that was not tested, `hit` counts for nothing). The
    /// answer is true when the walk goes on with a scattered ray; one bounce
    /// of the budget is then spent and the colour halved once more. It is
    /// false when the walk ends with this ray, which then sees the sky.
    pub fn advance(&mut self, hit: bool) -> (scattered: bool)
        ensures
            *final(self) == old(self).after(hit),
            final(self).well_formed(),
            scattered == (old(self).spec_probes() && hit),
            scattered ==> final(self).spec_bounces() == old(self).spec_bounces() - 1
                && final(self).spec_halvings() == old(self).spec_halvings() + 1,
            !scattered ==> final(self).spec_bounces() == old(self).spec_bounces()
                && final(self).spec_halvings() == old(self).spec_halvings(),
    {
        proof {
            use_type_invariant(&*self);
        }
        if self.bounces >= 0 && hit {
            self.bounces = self.bounces - 1;
            self.halvings = self.halvings + 1;
            true
        } else {
            false
        }
    }

    /// Follows the ray at hand: tests it against `scene`, if the budget is
    /// not below zero, and takes the outcome as [`Walk::advance`] does. The
    /// answer is the record of the hit from which the walk goes on with a
    /// scattered ray, or none when the walk ends with this ray. A walk whose
    /// budget is below zero ends without a look at the scene.
    pub fn step<H: Hitable>(&mut self, scene: &H, ray: &Ray) -> (bounce: Option<HitRecord>)
        ensures
            bounce == if old(self).spec_probes() {
                seen(scene, *ray)
            } else {
                None
            },
            bounce matches Some(rec) ==> rec.t.is_finite() && (Scalar { bits: NEAR_BITS }).spec_le(
                rec.t,
            ),
            *final(self) == old(self).after(bounce.is_some()),
            final(self).well_formed(),
            bounce.is_some() ==> final(self).spec_bounces() == old(self).spec_bounces() - 1
                && final(self).spec_halvings() == old(self).spec_halvings() + 1,
            bounce.is_none() ==> final(self).spec_bounces() == old(self).spec_bounces()
                && final(self).spec_halvings() == old(self).spec_halvings(),
    {
        proof {
            lemma_seen_is_finite(scene, *ray);
        }
        let mut hit_record = HitRecord::new();
        let hit = self.probes() && scene.hit(ray, near_limit(), far_limit(), &mut hit_record);
        if self.advance(hit) {
            Some(hit_record)
        } else {
            None
        }
    }
}

/// A walk whose budget is below zero takes no bounce, whatever the scene
/// holds: its colour is the sky's along the first ray, not halved.
pub proof fn lemma_spent_budget_sees_sky(walk: Walk, hits: Seq<bool>)
    requires
        walk.spec_bounces() < 0,
    ensures
        !walk.spec_probes(),
        bounces_taken(walk.spec_bounces() as int, hits) == 0,
        walk.after_all(hits) == walk,
{
}

/// A walk takes no more bounces than its budget and one, and no more than
/// the rays it tests.
pub proof fn lemma_bounces_bounded(bounces: int, hits: Seq<bool>)
    ensures
        bounces >= 0 ==> bounces_taken(bounces, hits) <= bounces + 1,
        bounces_taken(bounces, hits) <= hits.len(),
    decreases hits.len(),
{
    if bounces >= 0 && hits.len() > 0 && hits[0] {
        lemma_bounces_bounded(bounces - 1, hits.drop_first());
    }
}

/// Step by step, a walk halves the colour once, and spends one bounce of
/// its budget, for each bounce that the budget and the scene allow.
pub proof fn lemma_walk_counts_bounces(walk: Walk, hits: Seq<bool>)
    requires
        walk.well_formed(),
    ensures
        walk.after_all(hits).well_formed(),
        walk.after_all(hits).spec_halvings() == walk.spec_halvings() + bounces_taken(
            walk.spec_bounces() as int,
            hits,
        ),
        walk.after_all(hits).spec_bounces() == walk.spec_bounces() - bounces_taken(
            walk.spec_bounces() as int,
            hits,
        ),
    decreases hits.len(),
{
    if walk.spec_probes() && hits.len() > 0 && hits[0] {
        lemma_walk_counts_bounces(walk.after(true), hits.drop_first());
    }
}

} // verus!
