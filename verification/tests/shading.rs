use raytracer::ray::Ray;
use raytracer::scalar::Scalar;
use raytracer::shading::{
    albedo, far_limit, near_limit, redraw, sky_high, sky_low, Walk, FAR_BITS, MAX_DRAWS,
};
use raytracer::shape::{HitRecord, Hitable};
use raytracer::vector::Vector3;

/// A shape that every ray crosses at the same parameter.
struct Plate {
    t: f32,
}

impl Plate {
    fn record(&self) -> HitRecord {
        HitRecord {
            t: s(self.t),
            p: Vector3::new(s(0.0), s(0.0), s(-self.t)),
            n: Vector3::new(s(0.0), s(0.0), s(1.0)),
        }
    }
}

impl Hitable for Plate {
    fn nearest(&self, _ray: Ray, t_min: Scalar) -> Option<HitRecord> {
        if s(self.t).ge(t_min) {
            Some(self.record())
        } else {
            None
        }
    }

    fn hit(&self, _ray: &Ray, t_min: Scalar, t_max: Scalar, hit_rec: &mut HitRecord) -> bool {
        if s(self.t).ge(t_min) && s(self.t).le(t_max) {
            *hit_rec = self.record();
            true
        } else {
            false
        }
    }
}

fn any_ray() -> Ray {
    Ray::new(
        Vector3::new(s(0.0), s(0.0), s(0.0)),
        Vector3::new(s(0.0), s(0.0), s(-1.0)),
    )
}

fn s(x: f32) -> Scalar {
    Scalar::from_bits(x.to_bits())
}

fn f(x: Scalar) -> f32 {
    f32::from_bits(x.to_bits())
}

fn xyz(v: Vector3) -> [f32; 3] {
    [f(v.x), f(v.y), f(v.z)]
}

/// Runs a walk over the outcomes of its rays and gives the number of rays
/// tested and the number of halvings.
fn run(bounces: i16, hits: &[bool]) -> (usize, u16) {
    let mut walk = Walk::new(bounces);
    let mut tested = 0;
    for &hit in hits.iter() {
        let probed = walk.probes();
        if probed {
            tested += 1;
        }
        if !walk.advance(probed && hit) {
            break;
        }
    }
    (tested, walk.halvings())
}

#[test]
fn negative_budget_sees_the_sky_at_once() {
    for &bounces in [-1i16, -2, -100, i16::MIN].iter() {
        for &hit in [true, false].iter() {
            let mut walk = Walk::new(bounces);
            assert!(!walk.probes());
            assert!(!walk.advance(hit));
            assert_eq!(walk.halvings(), 0);
            assert_eq!(walk.bounces(), bounces);
        }
    }
}

#[test]
fn budget_of_zero_tests_one_ray() {
    let mut walk = Walk::new(0);
    assert!(walk.probes());
    assert!(walk.advance(true));
    assert_eq!(walk.bounces(), -1);
    assert_eq!(walk.halvings(), 1);
    assert!(!walk.probes());
    assert!(!walk.advance(true));
    assert_eq!(walk.halvings(), 1);
    assert_eq!(walk.bounces(), -1);
}

#[test]
fn walk_ends_at_the_first_miss() {
    let mut walk = Walk::new(3);
    assert!(walk.advance(true));
    assert!(!walk.advance(false));
    assert_eq!(walk.halvings(), 1);
    assert_eq!(walk.bounces(), 2);
    assert_eq!(run(3, &[true, false, true, true]), (2, 1));
    assert_eq!(run(3, &[false, true, true, true]), (1, 0));
}

#[test]
fn walk_halves_once_for_each_bounce() {
    assert_eq!(run(3, &[true, true, true, true, true, true]), (4, 4));
    assert_eq!(run(3, &[true, true, true, false]), (4, 3));
    assert_eq!(run(5, &[true, true]), (2, 2));
    assert_eq!(run(0, &[true, true]), (1, 1));
    assert_eq!(run(-1, &[true, true]), (0, 0));
}

#[test]
fn walk_takes_no_more_bounces_than_the_budget_and_one() {
    for bounces in 0..40i16 {
        let hits = vec![true; 100];
        let (tested, halvings) = run(bounces, &hits);
        assert_eq!(tested as i16, bounces + 1);
        assert_eq!(halvings as i16, bounces + 1);
    }
}

#[test]
fn walk_with_the_largest_budget_does_not_overflow() {
    let mut walk = Walk::new(i16::MAX);
    let mut bounces = 0u32;
    while walk.advance(true) {
        bounces += 1;
    }
    assert_eq!(bounces, 32768);
    assert_eq!(walk.halvings(), 32768);
    assert_eq!(walk.bounces(), -1);
}

#[test]
fn walk_starts_with_its_budget() {
    let walk = Walk::new(3);
    assert_eq!(walk.bounces(), 3);
    assert_eq!(walk.halvings(), 0);
    assert!(walk.probes());
}

#[test]
fn point_inside_the_unit_ball_is_kept() {
    assert!(!redraw(s(0.0), 1));
    assert!(!redraw(s(0.5), 1));
    assert!(!redraw(s(0.999_999_94), 1));
    assert!(!redraw(s(0.75), 57));
}

#[test]
fn point_outside_the_unit_ball_is_drawn_again() {
    assert!(redraw(s(1.0), 1));
    assert!(redraw(s(1.000_000_1), 1));
    assert!(redraw(s(3.0), 1));
    assert!(redraw(s(3.0), 99));
    assert!(redraw(s(f32::INFINITY), 5));
}

#[test]
fn drawing_stops_at_the_cap() {
    assert_eq!(MAX_DRAWS, 100);
    assert!(redraw(s(3.0), MAX_DRAWS - 1));
    assert!(!redraw(s(3.0), MAX_DRAWS));
    assert!(!redraw(s(3.0), MAX_DRAWS + 1));
    assert!(!redraw(s(3.0), u32::MAX));
    let mut draws = 0;
    loop {
        draws += 1;
        if !redraw(s(2.0), draws) {
            break;
        }
    }
    assert_eq!(draws, 100);
}

#[test]
fn squared_length_that_is_no_number_is_kept() {
    assert!(!redraw(s(f32::NAN), 1));
}

#[test]
fn window_of_a_walk_is_from_a_ten_thousandth_on() {
    assert_eq!(f(near_limit()), 0.0001);
    assert_eq!(f(far_limit()), f32::MAX);
    assert_eq!(FAR_BITS, f32::MAX.to_bits());
    assert_eq!(FAR_BITS + 1, f32::INFINITY.to_bits());
}

#[test]
fn step_takes_a_crossing_at_any_finite_parameter() {
    for &t in [0.0001f32, 0.5, 1e37, 2e37, 1e38, f32::MAX].iter() {
        let mut walk = Walk::new(3);
        let rec = walk.step(&Plate { t }, &any_ray()).unwrap();
        assert_eq!(f(rec.t), t);
        assert_eq!(walk.halvings(), 1);
    }
}

#[test]
fn step_takes_no_crossing_at_infinity() {
    let mut walk = Walk::new(3);
    assert_eq!(walk.step(&Plate { t: f32::INFINITY }, &any_ray()), None);
    assert_eq!(walk.halvings(), 0);
    assert_eq!(walk.bounces(), 3);
    assert_eq!(walk.step(&Plate { t: f32::NAN }, &any_ray()), None);
}

#[test]
fn step_takes_no_crossing_closer_than_a_ten_thousandth() {
    for &t in [0.000_099f32, 0.0, -0.0, -1.0, f32::NEG_INFINITY].iter() {
        let mut walk = Walk::new(3);
        assert_eq!(walk.step(&Plate { t }, &any_ray()), None);
        assert_eq!(walk.halvings(), 0);
    }
}

#[test]
fn sky_is_white_below_and_blue_above() {
    assert_eq!(xyz(sky_low()), [1.0, 1.0, 1.0]);
    assert_eq!(xyz(sky_high()), [0.5, 0.7, 1.0]);
    assert_eq!(f(albedo()), 0.5);
}
