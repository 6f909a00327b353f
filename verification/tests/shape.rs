use raytracer::ray::Ray;
use raytracer::scalar::Scalar;
use raytracer::shape::sphere::{Roots, Sphere};
use raytracer::shape::{HitRecord, Hitable, ShapeCollection};
use raytracer::vector::Vector3;

fn s(x: f32) -> Scalar {
    Scalar::from_bits(x.to_bits())
}

fn f(x: Scalar) -> f32 {
    f32::from_bits(x.to_bits())
}

fn v(x: f32, y: f32, z: f32) -> Vector3 {
    Vector3::new(s(x), s(y), s(z))
}

fn xyz(v: Vector3) -> [f32; 3] {
    [f(v.x), f(v.y), f(v.z)]
}

fn dot(a: [f32; 3], b: [f32; 3]) -> f32 {
    a[0] * b[0] + a[1] * b[1] + a[2] * b[2]
}

fn ray(o: [f32; 3], d: [f32; 3]) -> Ray {
    Ray::new(v(o[0], o[1], o[2]), v(d[0], d[1], d[2]))
}

const NEAR: f32 = 0.0001;
const FAR: f32 = f32::INFINITY;

/// A sphere with the arithmetic of a query; the choice of the root is the library's.
struct Ball {
    sphere: Sphere,
}

impl Ball {
    fn new(c: [f32; 3], r: f32) -> Ball {
        Ball { sphere: Sphere::new(v(c[0], c[1], c[2]), s(r)) }
    }

    fn roots(&self, ray: &Ray) -> Roots {
        let c = xyz(self.sphere.center());
        let r = f(self.sphere.radius());
        let o = xyz(ray.origin());
        let d = xyz(ray.destination());
        let oc = [o[0] - c[0], o[1] - c[1], o[2] - c[2]];
        let a = dot(d, d);
        let b = 2.0 * dot(oc, d);
        let cc = dot(oc, oc) - r * r;
        let discriminant = b * b - 4.0 * a * cc;
        let root = discriminant.sqrt();
        Roots {
            discriminant: s(discriminant),
            near: s((-b - root) / (2.0 * a)),
            far: s((-b + root) / (2.0 * a)),
        }
    }

    fn record(&self, ray: &Ray, t: Scalar) -> HitRecord {
        let c = xyz(self.sphere.center());
        let r = f(self.sphere.radius());
        let o = xyz(ray.origin());
        let d = xyz(ray.destination());
        let t_ = f(t);
        let p = [o[0] + t_ * d[0], o[1] + t_ * d[1], o[2] + t_ * d[2]];
        HitRecord {
            t,
            p: v(p[0], p[1], p[2]),
            n: v((p[0] - c[0]) / r, (p[1] - c[1]) / r, (p[2] - c[2]) / r),
        }
    }
}

impl Hitable for Ball {
    fn nearest(&self, ray: Ray, t_min: Scalar) -> Option<HitRecord> {
        self.roots(&ray).select(t_min, s(FAR)).map(|t| self.record(&ray, t))
    }

    fn hit(&self, ray: &Ray, t_min: Scalar, t_max: Scalar, hit_rec: &mut HitRecord) -> bool {
        match self.roots(ray).select(t_min, t_max) {
            Some(t) => {
                *hit_rec = self.record(ray, t);
                true
            }
            None => false,
        }
    }
}

/// A shape that every ray crosses at the same parameter, with a normal of its own.
struct Plate {
    t: f32,
    mark: f32,
}

impl Plate {
    fn record(&self) -> HitRecord {
        HitRecord { t: s(self.t), p: v(0.0, 0.0, -self.t), n: v(self.mark, 0.0, 0.0) }
    }
}

impl Hitable for Plate {
    fn nearest(&self, _ray: Ray, t_min: Scalar) -> Option<HitRecord> {
        if s(self.t).ge(t_min) {
            Some(self.record())
        } else {
            None
        }
    }

    fn hit(&self, _ray: &Ray, t_min: Scalar, t_max: Scalar, hit_rec: &mut HitRecord) -> bool {
        if s(self.t).ge(t_min) && s(self.t).le(t_max) {
            *hit_rec = self.record();
            true
        } else {
            false
        }
    }
}

fn marked() -> HitRecord {
    HitRecord { t: s(42.0), p: v(1.0, 2.0, 3.0), n: v(4.0, 5.0, 6.0) }
}

fn next(state: &mut u64) -> f32 {
    *state = state
        .wrapping_mul(6364136223846793005)
        .wrapping_add(1442695040888963407);
    ((*state >> 40) as f32) / ((1u64 << 24) as f32)
}

#[test]
fn hit_record_new_is_blank() {
    let rec = HitRecord::new();
    assert_eq!(rec.t.to_bits(), 0);
    assert_eq!(rec.p, v(0.0, 0.0, 0.0));
    assert_eq!(rec.n, v(0.0, 0.0, 0.0));
}

#[test]
fn sphere_keeps_center_and_radius() {
    let sphere = Sphere::new(v(0.0, -100.5, -1.0), s(100.0));
    assert_eq!(sphere.center(), v(0.0, -100.5, -1.0));
    assert_eq!(sphere.radius(), s(100.0));
}

#[test]
fn select_takes_the_near_root_within_the_window() {
    let roots = Roots { discriminant: s(1.0), near: s(0.5), far: s(1.5) };
    assert_eq!(roots.select(s(NEAR), s(FAR)), Some(s(0.5)));
    assert_eq!(roots.select(s(0.5), s(0.5)), Some(s(0.5)));
}

#[test]
fn select_falls_back_to_the_far_root() {
    let roots = Roots { discriminant: s(1.0), near: s(-0.5), far: s(1.5) };
    assert_eq!(roots.select(s(NEAR), s(FAR)), Some(s(1.5)));
    assert_eq!(roots.select(s(NEAR), s(1.5)), Some(s(1.5)));
}

#[test]
fn select_rejects_roots_outside_the_window() {
    let roots = Roots { discriminant: s(1.0), near: s(0.5), far: s(1.5) };
    assert_eq!(roots.select(s(2.0), s(FAR)), None);
    assert_eq!(roots.select(s(NEAR), s(0.25)), None);
    assert_eq!(roots.select(s(0.75), s(1.25)), None);
    let behind = Roots { discriminant: s(1.0), near: s(-3.0), far: s(-1.0) };
    assert_eq!(behind.select(s(NEAR), s(FAR)), None);
}

#[test]
fn select_needs_a_discriminant_above_zero() {
    let tangent = Roots { discriminant: s(0.0), near: s(1.0), far: s(1.0) };
    assert_eq!(tangent.select(s(NEAR), s(FAR)), None);
    let minus_zero = Roots { discriminant: s(-0.0), near: s(1.0), far: s(1.0) };
    assert_eq!(minus_zero.select(s(NEAR), s(FAR)), None);
    let none = Roots { discriminant: s(-4.0), near: s(f32::NAN), far: s(f32::NAN) };
    assert_eq!(none.select(s(NEAR), s(FAR)), None);
    let nan = Roots { discriminant: s(f32::NAN), near: s(1.0), far: s(2.0) };
    assert_eq!(nan.select(s(NEAR), s(FAR)), None);
    let smallest = Roots { discriminant: s(1e-45), near: s(1.0), far: s(2.0) };
    assert_eq!(smallest.select(s(NEAR), s(FAR)), Some(s(1.0)));
}

#[test]
fn select_passes_over_a_root_that_is_no_number() {
    let roots = Roots { discriminant: s(1.0), near: s(f32::NAN), far: s(2.0) };
    assert_eq!(roots.select(s(NEAR), s(FAR)), Some(s(2.0)));
    let window = Roots { discriminant: s(1.0), near: s(1.0), far: s(2.0) };
    assert_eq!(window.select(s(f32::NAN), s(FAR)), None);
    assert_eq!(window.select(s(NEAR), s(f32::NAN)), None);
}

#[test]
fn ray_through_center_hits_with_unit_outward_normal() {
    let mut state: u64 = 11;
    for _ in 0..2000 {
        let c = [
            20.0 * next(&mut state) - 10.0,
            20.0 * next(&mut state) - 10.0,
            20.0 * next(&mut state) - 10.0,
        ];
        let r = 0.1 + 3.0 * next(&mut state);
        let away = [
            2.0 * next(&mut state) - 1.0,
            2.0 * next(&mut state) - 1.0,
            2.0 * next(&mut state) - 1.0,
        ];
        let len = dot(away, away).sqrt();
        if len < 0.1 {
            continue;
        }
        // The origin lies outside: at twice the radius or more from the centre.
        let k = r * (2.0 + next(&mut state)) / len;
        let o = [c[0] + k * away[0], c[1] + k * away[1], c[2] + k * away[2]];
        let d = [c[0] - o[0], c[1] - o[1], c[2] - o[2]];
        let ball = Ball::new(c, r);
        let mut rec = HitRecord::new();
        assert!(ball.hit(&ray(o, d), s(NEAR), s(FAR), &mut rec));
        let n = xyz(rec.n);
        assert!((dot(n, n).sqrt() - 1.0).abs() < 1e-3, "normal {:?}", n);
        let p = xyz(rec.p);
        let out = [p[0] - c[0], p[1] - c[1], p[2] - c[2]];
        assert!(dot(n, out) > 0.0);
        // The hit is on the near side: the normal looks back at the origin.
        assert!(dot(n, d) < 0.0);
        assert!(f(rec.t) > 0.0 && f(rec.t) < 1.0);
    }
}

#[test]
fn ray_along_the_axis_hits_the_small_sphere_at_half() {
    let ball = Ball::new([0.0, 0.0, -1.0], 0.5);
    let mut rec = HitRecord::new();
    assert!(ball.hit(&ray([0.0, 0.0, 0.0], [0.0, 0.0, -1.0]), s(NEAR), s(FAR), &mut rec));
    assert_eq!(f(rec.t), 0.5);
    assert_eq!(xyz(rec.p), [0.0, 0.0, -0.5]);
    assert_eq!(xyz(rec.n), [0.0, 0.0, 1.0]);
}

#[test]
fn ray_pointing_away_misses() {
    let ball = Ball::new([0.0, 0.0, -1.0], 0.5);
    let mut rec = marked();
    assert!(!ball.hit(&ray([0.0, 0.0, 0.0], [0.0, 0.0, 1.0]), s(NEAR), s(FAR), &mut rec));
    assert_eq!(rec, marked());
    let mut state: u64 = 3;
    for _ in 0..2000 {
        let d = [
            2.0 * next(&mut state) - 1.0,
            2.0 * next(&mut state) - 1.0,
            0.05 + next(&mut state),
        ];
        let mut rec = marked();
        assert!(!ball.hit(&ray([0.0, 0.0, 0.0], d), s(NEAR), s(FAR), &mut rec));
        assert_eq!(rec, marked());
    }
}

#[test]
fn tangent_ray_misses() {
    let ball = Ball::new([0.0, 0.0, -1.0], 0.5);
    let r = ray([0.5, 0.0, 0.0], [0.0, 0.0, -1.0]);
    assert_eq!(f(ball.roots(&r).discriminant), 0.0);
    let mut rec = marked();
    assert!(!ball.hit(&r, s(NEAR), s(FAR), &mut rec));
    assert_eq!(rec, marked());
}

#[test]
fn ray_from_inside_hits_the_far_side() {
    let ball = Ball::new([0.0, 0.0, -1.0], 0.5);
    let mut rec = HitRecord::new();
    assert!(ball.hit(&ray([0.0, 0.0, -1.0], [0.0, 0.0, -1.0]), s(NEAR), s(FAR), &mut rec));
    assert_eq!(f(rec.t), 0.5);
    assert_eq!(xyz(rec.p), [0.0, 0.0, -1.5]);
    assert_eq!(xyz(rec.n), [0.0, 0.0, -1.0]);
}

#[test]
fn window_that_ends_before_the_sphere_misses() {
    let ball = Ball::new([0.0, 0.0, -1.0], 0.5);
    let r = ray([0.0, 0.0, 0.0], [0.0, 0.0, -1.0]);
    let mut rec = marked();
    assert!(!ball.hit(&r, s(NEAR), s(0.25), &mut rec));
    assert_eq!(rec, marked());
    assert!(ball.hit(&r, s(NEAR), s(0.5), &mut rec));
    assert_eq!(f(rec.t), 0.5);
    let mut rec = marked();
    assert!(ball.hit(&r, s(0.75), s(FAR), &mut rec));
    assert_eq!(f(rec.t), 1.5);
    let mut rec = marked();
    assert!(!ball.hit(&r, s(2.0), s(FAR), &mut rec));
    assert_eq!(rec, marked());
}

#[test]
fn empty_scene_misses() {
    let list: Vec<Box<dyn Hitable>> = Vec::new();
    let scene = ShapeCollection::new(&list);
    let mut rec = marked();
    assert!(!scene.hit(&ray([0.0, 0.0, 0.0], [0.0, 0.0, -1.0]), s(NEAR), s(FAR), &mut rec));
    assert_eq!(rec, marked());
}

#[test]
fn scene_miss_leaves_the_record_untouched() {
    let list: Vec<Box<dyn Hitable>> = vec![
        Box::new(Ball::new([0.0, 0.0, -1.0], 0.5)),
        Box::new(Ball::new([0.0, -100.5, -1.0], 100.0)),
    ];
    let scene = ShapeCollection::new(&list);
    let mut rec = marked();
    assert!(!scene.hit(&ray([0.0, 0.0, 0.0], [0.0, 1.0, 0.0]), s(NEAR), s(FAR), &mut rec));
    assert_eq!(rec, marked());
}

#[test]
fn scene_keeps_the_closest_member() {
    let r = ray([0.0, 0.0, 0.0], [0.0, 0.0, -1.0]);
    let list: Vec<Box<dyn Hitable>> = vec![
        Box::new(Ball::new([0.0, 0.0, -5.0], 1.0)),
        Box::new(Ball::new([0.0, 0.0, -2.0], 0.5)),
        Box::new(Ball::new([0.0, 0.0, -9.0], 2.0)),
    ];
    let scene = ShapeCollection::new(&list);
    let mut rec = HitRecord::new();
    assert!(scene.hit(&r, s(NEAR), s(FAR), &mut rec));
    assert_eq!(f(rec.t), 1.5);
    assert_eq!(xyz(rec.p), [0.0, 0.0, -1.5]);
    assert_eq!(xyz(rec.n), [0.0, 0.0, 1.0]);
}

#[test]
fn scene_looks_no_further_than_the_window() {
    let r = ray([0.0, 0.0, 0.0], [0.0, 0.0, -1.0]);
    let list: Vec<Box<dyn Hitable>> = vec![
        Box::new(Ball::new([0.0, 0.0, -5.0], 1.0)),
        Box::new(Ball::new([0.0, 0.0, -2.0], 0.5)),
    ];
    let scene = ShapeCollection::new(&list);
    let mut rec = marked();
    assert!(!scene.hit(&r, s(NEAR), s(1.0), &mut rec));
    assert_eq!(rec, marked());
    assert!(scene.hit(&r, s(2.0), s(FAR), &mut rec));
    assert_eq!(f(rec.t), 2.5);
    let mut rec = marked();
    assert!(scene.hit(&r, s(3.0), s(5.0), &mut rec));
    assert_eq!(f(rec.t), 4.0);
}

#[test]
fn scene_result_does_not_depend_on_the_order() {
    let centers: [([f32; 3], f32); 4] = [
        ([0.0, 0.0, -1.0], 0.5),
        ([0.0, -100.5, -1.0], 100.0),
        ([1.0, 0.25, -2.0], 0.75),
        ([-0.5, 0.5, -3.0], 1.5),
    ];
    let orders: [[usize; 4]; 6] = [
        [0, 1, 2, 3],
        [3, 2, 1, 0],
        [1, 0, 3, 2],
        [2, 3, 0, 1],
        [1, 2, 3, 0],
        [3, 0, 1, 2],
    ];
    let mut state: u64 = 17;
    let mut hits = 0;
    for _ in 0..3000 {
        let d = [
            4.0 * next(&mut state) - 2.0,
            2.0 * next(&mut state) - 1.0,
            -1.0,
        ];
        let r = ray([0.0, 0.0, 0.0], d);
        let mut results: Vec<(bool, HitRecord)> = Vec::new();
        for order in orders.iter() {
            let mut list: Vec<Box<dyn Hitable>> = Vec::new();
            for &k in order.iter() {
                list.push(Box::new(Ball::new(centers[k].0, centers[k].1)));
            }
            let scene = ShapeCollection::new(&list);
            let mut rec = marked();
            let found = scene.hit(&r, s(NEAR), s(FAR), &mut rec);
            results.push((found, rec));
        }
        for result in results.iter() {
            assert_eq!(result.0, results[0].0);
            assert_eq!(result.1, results[0].1);
        }
        if results[0].0 {
            hits += 1;
        }
    }
    assert!(hits > 1000);
}

#[test]
fn scene_matches_a_flat_search() {
    let balls: [([f32; 3], f32); 3] = [
        ([0.0, 0.0, -1.0], 0.5),
        ([0.0, -100.5, -1.0], 100.0),
        ([0.5, 0.0, -1.5], 0.5),
    ];
    let mut list: Vec<Box<dyn Hitable>> = Vec::new();
    for b in balls.iter() {
        list.push(Box::new(Ball::new(b.0, b.1)));
    }
    let scene = ShapeCollection::new(&list);
    let mut state: u64 = 23;
    for _ in 0..3000 {
        let d = [
            4.0 * next(&mut state) - 2.0,
            2.0 * next(&mut state) - 1.0,
            -1.0,
        ];
        let r = ray([0.0, 0.0, 0.0], d);
        let t_max = 0.5 + 3.0 * next(&mut state);
        let mut best: Option<HitRecord> = None;
        for b in balls.iter() {
            let mut rec = HitRecord::new();
            if Ball::new(b.0, b.1).hit(&r, s(NEAR), s(t_max), &mut rec) {
                let closer = match best {
                    Some(kept) => f(rec.t) < f(kept.t),
                    None => true,
                };
                if closer {
                    best = Some(rec);
                }
            }
        }
        let mut rec = marked();
        let found = scene.hit(&r, s(NEAR), s(t_max), &mut rec);
        assert_eq!(found, best.is_some());
        match best {
            Some(kept) => assert_eq!(rec, kept),
            None => assert_eq!(rec, marked()),
        }
    }
}

#[test]
fn scene_keeps_the_earlier_of_two_equally_close_members() {
    let r = ray([0.0, 0.0, 0.0], [0.0, 0.0, -1.0]);
    let first: Vec<Box<dyn Hitable>> = vec![
        Box::new(Plate { t: 2.0, mark: 1.0 }),
        Box::new(Plate { t: 2.0, mark: 2.0 }),
    ];
    let second: Vec<Box<dyn Hitable>> = vec![
        Box::new(Plate { t: 2.0, mark: 2.0 }),
        Box::new(Plate { t: 2.0, mark: 1.0 }),
    ];
    let mut a = HitRecord::new();
    let mut b = HitRecord::new();
    assert!(ShapeCollection::new(&first).hit(&r, s(NEAR), s(FAR), &mut a));
    assert!(ShapeCollection::new(&second).hit(&r, s(NEAR), s(FAR), &mut b));
    assert_eq!(a.t, b.t);
    assert_eq!(a.p, b.p);
    assert_eq!(f(a.n.x), 1.0);
    assert_eq!(f(b.n.x), 2.0);
}

#[test]
fn scene_keeps_the_earliest_of_the_closest_members() {
    let r = ray([0.0, 0.0, 0.0], [0.0, 0.0, -1.0]);
    let list: Vec<Box<dyn Hitable>> = vec![
        Box::new(Plate { t: 3.0, mark: 1.0 }),
        Box::new(Plate { t: 2.0, mark: 2.0 }),
        Box::new(Plate { t: 2.0, mark: 3.0 }),
        Box::new(Plate { t: 5.0, mark: 4.0 }),
        Box::new(Plate { t: 2.0, mark: 5.0 }),
    ];
    let mut rec = marked();
    assert!(ShapeCollection::new(&list).hit(&r, s(NEAR), s(FAR), &mut rec));
    assert_eq!(f(rec.t), 2.0);
    assert_eq!(f(rec.n.x), 2.0);
    // A member at the far end of the window is taken when nothing was found before it.
    let mut rec = marked();
    assert!(ShapeCollection::new(&list).hit(&r, s(NEAR), s(2.0), &mut rec));
    assert_eq!(f(rec.n.x), 2.0);
}

#[test]
fn scene_takes_both_zeros_for_equally_close() {
    let r = ray([0.0, 0.0, 0.0], [0.0, 0.0, -1.0]);
    let list: Vec<Box<dyn Hitable>> = vec![
        Box::new(Plate { t: 0.0, mark: 1.0 }),
        Box::new(Plate { t: -0.0, mark: 2.0 }),
    ];
    let mut rec = marked();
    assert!(ShapeCollection::new(&list).hit(&r, s(-1.0), s(FAR), &mut rec));
    assert_eq!(f(rec.n.x), 1.0);
}

#[test]
fn scene_replaces_the_record_only_by_a_closer_one() {
    let r = ray([0.0, 0.0, 0.0], [0.0, 0.0, -1.0]);
    let list: Vec<Box<dyn Hitable>> = vec![
        Box::new(Plate { t: 3.0, mark: 1.0 }),
        Box::new(Plate { t: 1.0, mark: 2.0 }),
        Box::new(Plate { t: 2.0, mark: 3.0 }),
        Box::new(Plate { t: 0.00001, mark: 4.0 }),
    ];
    let mut rec = HitRecord::new();
    assert!(ShapeCollection::new(&list).hit(&r, s(NEAR), s(FAR), &mut rec));
    assert_eq!(f(rec.t), 1.0);
    assert_eq!(f(rec.n.x), 2.0);
}

#[test]
fn scene_of_one_kind_of_shape_needs_no_boxes() {
    let r = ray([0.0, 0.0, 0.0], [0.0, 0.0, -1.0]);
    let list: Vec<Ball> = vec![
        Ball::new([0.0, 0.0, -5.0], 1.0),
        Ball::new([0.0, 0.0, -2.0], 0.5),
    ];
    let scene = ShapeCollection::new(&list);
    let mut rec = HitRecord::new();
    assert!(scene.hit(&r, s(NEAR), s(FAR), &mut rec));
    assert_eq!(f(rec.t), 1.5);
}

#[test]
fn scene_of_scenes_is_a_scene() {
    let r = ray([0.0, 0.0, 0.0], [0.0, 0.0, -1.0]);
    let far: Vec<Ball> = vec![Ball::new([0.0, 0.0, -9.0], 1.0), Ball::new([0.0, 0.0, -5.0], 1.0)];
    let near: Vec<Ball> = vec![Ball::new([0.0, 0.0, -2.0], 0.5), Ball::new([0.0, 0.0, -7.0], 1.0)];
    let none: Vec<Ball> = Vec::new();
    let groups = vec![
        ShapeCollection::new(&far),
        ShapeCollection::new(&near),
        ShapeCollection::new(&none),
    ];
    let scene = ShapeCollection::new(&groups);
    let mut rec = marked();
    assert!(scene.hit(&r, s(NEAR), s(FAR), &mut rec));
    assert_eq!(f(rec.t), 1.5);
    let mut rec = marked();
    assert!(scene.hit(&r, s(3.0), s(FAR), &mut rec));
    assert_eq!(f(rec.t), 4.0);
    let mut rec = marked();
    assert!(!scene.hit(&r, s(11.0), s(FAR), &mut rec));
    assert_eq!(rec, marked());
}

#[test]
fn boxed_shape_answers_as_the_shape_does() {
    let r = ray([0.0, 0.0, 0.0], [0.0, 0.0, -1.0]);
    let boxed: Box<dyn Hitable> = Box::new(Ball::new([0.0, 0.0, -1.0], 0.5));
    let mut a = marked();
    let mut b = marked();
    assert!(boxed.hit(&r, s(NEAR), s(FAR), &mut a));
    assert!(Ball::new([0.0, 0.0, -1.0], 0.5).hit(&r, s(NEAR), s(FAR), &mut b));
    assert_eq!(a, b);
    assert!(!boxed.hit(&r, s(NEAR), s(0.25), &mut a));
    assert_eq!(a, b);
}
