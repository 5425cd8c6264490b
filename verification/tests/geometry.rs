//! Vector, interval, box and sphere behavior on concrete values.

use pathtracer::aabb::Aabb;
use pathtracer::fixed::{fxdiv, fxmul, fxsqrt, FX_INF, FX_ONE};
use pathtracer::interval::Interval;
use pathtracer::ray::Ray;
use pathtracer::sphere::Sphere;
use pathtracer::vec3::Vec3;

const S: i64 = FX_ONE;

#[test]
fn fixed_point_products_are_exact_on_round_values() {
    assert_eq!(fxmul(3 * S, 2 * S), 6 * S);
    assert_eq!(fxmul(-3 * S, 2 * S), -6 * S);
    assert_eq!(fxmul(S / 2, S / 2), S / 4);
    assert_eq!(fxdiv(6 * S, 2 * S), 3 * S);
    assert_eq!(fxdiv(S, 0), 0);
    assert_eq!(fxsqrt(4 * S), 2 * S);
    assert_eq!(fxsqrt(S), S);
    assert_eq!(fxsqrt(0), 0);
    assert_eq!(fxsqrt(-S), 0);
}

#[test]
fn dot_cross_and_length() {
    let a = Vec3::new(S, 2 * S, 3 * S);
    let b = Vec3::new(4 * S, -5 * S, 6 * S);
    assert_eq!(a.dot(&b), (4 - 10 + 18) * S);
    let x = Vec3::new(S, 0, 0);
    let y = Vec3::new(0, S, 0);
    let z = Vec3::new(0, 0, S);
    assert_eq!(x.cross(&y), z);
    assert_eq!(y.cross(&z), x);
    assert_eq!(Vec3::new(3 * S, 4 * S, 0).length(), 5 * S);
    assert_eq!(Vec3::new(0, 0, 0).unit_vector(), Vec3::new(0, 0, 0));
}

/// Reflection about an axis normal preserves the length exactly and
/// reverses the normal component.
#[test]
fn reflect_preserves_length_and_flips_normal_component() {
    let d = Vec3::new(S, -S, 0);
    let n = Vec3::new(0, S, 0);
    let r = d.reflect(&n);
    assert_eq!(r, Vec3::new(S, S, 0));
    assert_eq!(r.length_squared(), d.length_squared());
    assert_eq!(r.dot(&n), -d.dot(&n));
}

#[test]
fn interval_membership_and_clamp() {
    let i = Interval::new(2 * S, 5 * S);
    assert!(i.contains(2 * S));
    assert!(i.contains(5 * S));
    assert!(!i.surrounds(2 * S));
    assert!(!i.surrounds(5 * S));
    assert!(i.surrounds(3 * S));
    assert_eq!(i.clamp(S), 2 * S);
    assert_eq!(i.clamp(7 * S), 5 * S);
    assert_eq!(i.clamp(3 * S), 3 * S);
    assert_eq!(i.size(), 3 * S);
    let e = Interval::empty();
    assert!(!e.contains(0));
    assert!(!e.surrounds(0));
    let u = Interval::universe();
    assert!(u.surrounds(0));
    assert!(u.surrounds(-1000 * S));
    let j = Interval::new_enclose_both(&Interval::new(0, S), &Interval::new(3 * S, 4 * S));
    assert_eq!(j.min, 0);
    assert_eq!(j.max, 4 * S);
}

#[test]
fn box_from_points_sorts_each_axis() {
    let b = Aabb::new_from_points(Vec3::new(3 * S, -S, 0), Vec3::new(S, 2 * S, -4 * S));
    assert_eq!(b.x.min, S);
    assert_eq!(b.x.max, 3 * S);
    assert_eq!(b.y.min, -S);
    assert_eq!(b.y.max, 2 * S);
    assert_eq!(b.z.min, -4 * S);
    assert_eq!(b.z.max, 0);
}

#[test]
fn box_hit_straight_through() {
    let b = Aabb::new_from_points(Vec3::new(-S, -S, -3 * S), Vec3::new(S, S, -2 * S));
    let r = Ray::new(Vec3::new(0, 0, 0), Vec3::new(0, 0, -S));
    assert!(b.hit(&r, Interval::new(0, FX_INF)));
    let sideways = Ray::new(Vec3::new(5 * S, 0, 0), Vec3::new(0, 0, -S));
    assert!(!b.hit(&sideways, Interval::new(0, FX_INF)));
    // An empty parameter range never meets a box.
    assert!(!b.hit(&r, Interval::empty()));
}

/// Union monotonicity on concrete boxes: a ray that hits either box hits
/// the box enclosing both, and joining a box with itself changes nothing.
#[test]
fn box_union_keeps_hits() {
    let a = Aabb::new_from_points(Vec3::new(-S, -S, -3 * S), Vec3::new(S, S, -2 * S));
    let b = Aabb::new_from_points(Vec3::new(9 * S, 9 * S, -3 * S), Vec3::new(11 * S, 11 * S, -2 * S));
    let u = Aabb::new_from_boxes(&a, &b);
    let hits_a = Ray::new(Vec3::new(0, 0, 0), Vec3::new(0, 0, -S));
    let hits_b = Ray::new(Vec3::new(10 * S, 10 * S, 0), Vec3::new(0, 0, -S));
    let t = Interval::new(0, FX_INF);
    assert!(a.hit(&hits_a, t) && !b.hit(&hits_a, t));
    assert!(b.hit(&hits_b, t) && !a.hit(&hits_b, t));
    assert!(u.hit(&hits_a, t));
    assert!(u.hit(&hits_b, t));
    let uu = Aabb::new_from_boxes(&a, &a);
    assert_eq!(uu.hit(&hits_a, t), a.hit(&hits_a, t));
    assert_eq!(uu.hit(&hits_b, t), a.hit(&hits_b, t));
}

/// The smaller analytic root is taken when it lies inside the range.
#[test]
fn sphere_hit_takes_smaller_root_in_range() {
    let s = Sphere::new(Vec3::new(0, 0, -2 * S), S, 0);
    let r = Ray::new(Vec3::new(0, 0, 0), Vec3::new(0, 0, -S));
    let rec = s.hit(&r, Interval::new(0, FX_INF)).expect("the ray points at the sphere");
    assert_eq!(rec.t, S);
    assert_eq!(rec.p, Vec3::new(0, 0, -S));
    assert_eq!(rec.normal, Vec3::new(0, 0, S));
    assert!(rec.front_face);
}

/// From inside the sphere the smaller root is behind the origin, so the
/// larger one is taken, and the reported normal flips.
#[test]
fn sphere_hit_takes_larger_root_from_inside() {
    let s = Sphere::new(Vec3::new(0, 0, -2 * S), S, 0);
    let r = Ray::new(Vec3::new(0, 0, -2 * S), Vec3::new(0, 0, -S));
    let rec = s.hit(&r, Interval::new(0, FX_INF)).expect("the origin lies inside the sphere");
    assert_eq!(rec.t, S);
    assert_eq!(rec.p, Vec3::new(0, 0, -3 * S));
    assert!(!rec.front_face);
    assert_eq!(rec.normal, Vec3::new(0, 0, S));
}

/// The empty range rejects every root.
#[test]
fn sphere_hit_empty_interval_is_none() {
    let s = Sphere::new(Vec3::new(0, 0, -2 * S), S, 0);
    let r = Ray::new(Vec3::new(0, 0, 0), Vec3::new(0, 0, -S));
    assert!(s.hit(&r, Interval::empty()).is_none());
}

/// A root exactly on the range boundary is rejected: membership is
/// strict.
#[test]
fn sphere_hit_boundary_root_is_rejected() {
    let s = Sphere::new(Vec3::new(0, 0, -2 * S), S, 0);
    let r = Ray::new(Vec3::new(0, 0, 0), Vec3::new(0, 0, -S));
    // Both roots sit at exactly 1 and 3; a range ending at the first
    // root excludes it, and one starting at the second excludes that.
    assert!(s.hit(&r, Interval::new(0, S)).is_none());
    let rec = s.hit(&r, Interval::new(S, 4 * S)).expect("the larger root is inside");
    assert_eq!(rec.t, 3 * S);
}

#[test]
fn moving_sphere_center_interpolates() {
    let s = Sphere::new_moving(Vec3::new(0, 0, -2 * S), Vec3::new(2 * S, 0, -2 * S), S, 0);
    // At time one the center has moved two units along x.
    let r = Ray::at_time(Vec3::new(2 * S, 0, 0), Vec3::new(0, 0, -S), S);
    let rec = s.hit(&r, Interval::new(0, FX_INF)).expect("the moved center is in line");
    assert_eq!(rec.t, S);
    // At time zero the same ray misses it.
    let r0 = Ray::new(Vec3::new(2 * S, 0, 0), Vec3::new(0, 0, -S));
    assert!(s.hit(&r0, Interval::new(0, FX_INF)).is_none());
}
