//! What holds of a scene's answer, whatever its members are.

use vstd::prelude::*;
use vstd::seq_lib::to_multiset_contains;
use crate::ray::Ray;
use crate::scalar::Scalar;
use crate::shape::{ahead, closest_among, reported, HitRecord, Hitable, ShapeCollection};

verus! {

/// The answer of a flat search over the first `n` members: each member is
/// queried by itself with the whole window `[t_min, t_max]`, and of the hits
/// the one with the smallest `t` is kept (of equally close ones, the earlier).
pub open spec fn best_report<H: Hitable>(
    members: Seq<H>,
    ray: Ray,
    t_min: Scalar,
    t_max: Scalar,
    n: nat,
) -> Option<HitRecord>
    decreases n,
{
    if n == 0 {
        None
    } else {
        let before = best_report(members, ray, t_min, t_max, (n - 1) as nat);
        let here = reported(members[n - 1].nearest(ray, t_min), t_min, t_max);
        if here.is_some() && (before.is_none() || before.unwrap().t.spec_gt(here.unwrap().t)) {
            here
        } else {
            before
        }
    }
}

/// No two members cross the ray equally close with different records.
pub open spec fn no_ties<H: Hitable>(members: Seq<H>, ray: Ray, t_min: Scalar) -> bool {
    forall|i: int, j: int|
        #![trigger members[i], members[j]]
        0 <= i < members.len() && 0 <= j < members.len() && ahead(
            members[i].nearest(ray, t_min),
            t_min,
        ) && ahead(members[j].nearest(ray, t_min), t_min) && members[i].nearest(
            ray,
            t_min,
        ).unwrap().t.rank() == members[j].nearest(ray, t_min).unwrap().t.rank()
            ==> members[i].nearest(ray, t_min) == members[j].nearest(ray, t_min)
}

/// The closest crossing among the first `n` members is the crossing of one of
/// them, it counts from `t_min` on, and no member has one that is closer.
/// There is none exactly when no member has a crossing from `t_min` on.
pub proof fn lemma_closest_is_least<H: Hitable>(
    members: Seq<H>,
    ray: Ray,
    t_min: Scalar,
    n: nat,
)
    requires
        n <= members.len(),
    ensures
        closest_among(members, ray, t_min, n).is_some() <==> exists|k: int|
            0 <= k < n && ahead(#[trigger] members[k].nearest(ray, t_min), t_min),
        closest_among(members, ray, t_min, n).is_some() ==> ahead(
            closest_among(members, ray, t_min, n),
            t_min,
        ) && exists|k: int|
            0 <= k < n && #[trigger] members[k].nearest(ray, t_min) == closest_among(
                members,
                ray,
                t_min,
                n,
            ),
        forall|k: int|
            0 <= k < n && ahead(#[trigger] members[k].nearest(ray, t_min), t_min)
                ==> closest_among(members, ray, t_min, n).unwrap().t.spec_le(
                members[k].nearest(ray, t_min).unwrap().t,
            ),
    decreases n,
{
    if n > 0 {
        lemma_closest_is_least(members, ray, t_min, (n - 1) as nat);
        let before = closest_among(members, ray, t_min, (n - 1) as nat);
        let here = members[n - 1].nearest(ray, t_min);
        let best = closest_among(members, ray, t_min, n);
        if before.is_some() {
            let k = choose|k: int|
                0 <= k < n - 1 && #[trigger] members[k].nearest(ray, t_min) == before;
            assert(members[k].nearest(ray, t_min) == before);
        }
        if best.is_some() {
            if best == here && ahead(here, t_min) {
                assert(members[n - 1].nearest(ray, t_min) == best);
            }
        }
        if ahead(here, t_min) {
            assert(ahead(members[n - 1].nearest(ray, t_min), t_min));
        }
    }
}

/// Where members are equally close, the earliest is kept: the closest
/// crossing among the first `n` members is that of the member `k`, and
/// every member before `k` that has a crossing from `t_min` on has it
/// strictly further away.
pub proof fn lemma_closest_is_earliest<H: Hitable>(
    members: Seq<H>,
    ray: Ray,
    t_min: Scalar,
    n: nat,
) -> (k: int)
    requires
        n <= members.len(),
        closest_among(members, ray, t_min, n).is_some(),
    ensures
        0 <= k < n,
        members[k].nearest(ray, t_min) == closest_among(members, ray, t_min, n),
        forall|j: int|
            0 <= j < k && ahead(#[trigger] members[j].nearest(ray, t_min), t_min)
                ==> members[j].nearest(ray, t_min).unwrap().t.spec_gt(
                closest_among(members, ray, t_min, n).unwrap().t,
            ),
    decreases n,
{
    let before = closest_among(members, ray, t_min, (n - 1) as nat);
    let here = members[n - 1].nearest(ray, t_min);
    lemma_closest_is_least(members, ray, t_min, (n - 1) as nat);
    if ahead(here, t_min) && (before.is_none() || before.unwrap().t.spec_gt(here.unwrap().t)) {
        n - 1
    } else {
        lemma_closest_is_earliest(members, ray, t_min, (n - 1) as nat)
    }
}

/// The scene's narrowing scan gives what a flat search gives: the report of
/// the closest crossing among the first `n` members is the best of the
/// members' own reports.
pub proof fn lemma_scan_is_flat_search<H: Hitable>(
    members: Seq<H>,
    ray: Ray,
    t_min: Scalar,
    t_max: Scalar,
    n: nat,
)
    requires
        n <= members.len(),
    ensures
        reported(closest_among(members, ray, t_min, n), t_min, t_max) == best_report(
            members,
            ray,
            t_min,
            t_max,
            n,
        ),
    decreases n,
{
    if n > 0 {
        lemma_scan_is_flat_search(members, ray, t_min, t_max, (n - 1) as nat);
        lemma_closest_is_least(members, ray, t_min, (n - 1) as nat);
    }
}

/// A query of a scene answers as a flat search over its members does.
pub proof fn lemma_scene_is_flat_search<H: Hitable>(
    scene: ShapeCollection<H>,
    ray: Ray,
    t_min: Scalar,
    t_max: Scalar,
)
    ensures
        reported(scene.nearest(ray, t_min), t_min, t_max) == best_report(
            scene.members(),
            ray,
            t_min,
            t_max,
            scene.members().len(),
        ),
{
    lemma_scan_is_flat_search(scene.members(), ray, t_min, t_max, scene.members().len());
}

/// A scene without members is hit by no ray.
pub proof fn lemma_empty_scene_misses<H: Hitable>(
    scene: ShapeCollection<H>,
    ray: Ray,
    t_min: Scalar,
    t_max: Scalar,
)
    requires
        scene.members().len() == 0,
    ensures
        scene.nearest(ray, t_min).is_none(),
        reported(scene.nearest(ray, t_min), t_min, t_max).is_none(),
{
}

/// The order of the members does not matter to a query: two scenes of the
/// same shapes, in whatever order, both hit or both miss, at the same place
/// on the number line; and where no two shapes tie, with the same record.
pub proof fn lemma_order_independent<H: Hitable>(
    a: ShapeCollection<H>,
    b: ShapeCollection<H>,
    ray: Ray,
    t_min: Scalar,
    t_max: Scalar,
)
    requires
        a.members().to_multiset() == b.members().to_multiset(),
    ensures
        reported(a.nearest(ray, t_min), t_min, t_max).is_some() == reported(
            b.nearest(ray, t_min),
            t_min,
            t_max,
        ).is_some(),
        reported(a.nearest(ray, t_min), t_min, t_max).is_some() ==> reported(
            a.nearest(ray, t_min),
            t_min,
            t_max,
        ).unwrap().t.rank() == reported(b.nearest(ray, t_min), t_min, t_max).unwrap().t.rank(),
        no_ties(a.members(), ray, t_min) ==> reported(a.nearest(ray, t_min), t_min, t_max)
            == reported(b.nearest(ray, t_min), t_min, t_max),
{
    let ma = a.members();
    let mb = b.members();
    lemma_closest_is_least(ma, ray, t_min, ma.len());
    lemma_closest_is_least(mb, ray, t_min, mb.len());
    let best_a = a.nearest(ray, t_min);
    let best_b = b.nearest(ray, t_min);
    if best_a.is_some() {
        let i = choose|k: int| 0 <= k < ma.len() && #[trigger] ma[k].nearest(ray, t_min) == best_a;
        lemma_member_of_both(ma, mb, i);
        let j = choose|j: int| 0 <= j < mb.len() && mb[j] == ma[i];
        assert(ahead(mb[j].nearest(ray, t_min), t_min));
    }
    if best_b.is_some() {
        let j = choose|k: int| 0 <= k < mb.len() && #[trigger] mb[k].nearest(ray, t_min) == best_b;
        lemma_member_of_both(mb, ma, j);
        let i = choose|i: int| 0 <= i < ma.len() && ma[i] == mb[j];
        assert(ahead(ma[i].nearest(ray, t_min), t_min));
        if best_a.is_some() && no_ties(ma, ray, t_min) {
            let i0 = choose|k: int|
                0 <= k < ma.len() && #[trigger] ma[k].nearest(ray, t_min) == best_a;
            assert(ma[i0].nearest(ray, t_min) == ma[i].nearest(ray, t_min));
        }
    }
}

proof fn lemma_member_of_both<H>(a: Seq<H>, b: Seq<H>, i: int)
    requires
        a.to_multiset() == b.to_multiset(),
        0 <= i < a.len(),
    ensures
        exists|j: int| 0 <= j < b.len() && b[j] == a[i],
{
    to_multiset_contains(a, a[i]);
    to_multiset_contains(b, a[i]);
    assert(a.contains(a[i]));
}

} // verus!
