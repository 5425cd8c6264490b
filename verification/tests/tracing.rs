//! The hierarchy against the flat scan, materials, and path tracing.

use pathtracer::bvh_node::BVHNode;
use pathtracer::camera::{ray_color, Scene};
use pathtracer::color::Color;
use pathtracer::fixed::{FX_INF, FX_ONE};
use pathtracer::hittable::{HitRecord, HittableList};
use pathtracer::interval::Interval;
use pathtracer::material::{Dielectric, Lambertian, MaterialKind, Metal};
use pathtracer::ray::Ray;
use pathtracer::rng::Rng;
use pathtracer::sphere::Sphere;
use pathtracer::vec3::Vec3;

const S: i64 = FX_ONE;

fn grid_spheres() -> Vec<Sphere> {
    let mut v = Vec::new();
    for k in 0..8i64 {
        v.push(Sphere::new(
            Vec3::new((k % 4) * 3 * S, (k / 4) * 3 * S, -(4 + k) * S),
            S,
            k as usize,
        ));
    }
    v
}

/// The hierarchy reports exactly the record of the flat scan, ray for
/// ray, including misses.
#[test]
fn bvh_matches_flat_scan() {
    let spheres = grid_spheres();
    let list = HittableList::new(spheres.clone());
    let bvh = BVHNode::new_from_hittable_list(spheres).expect("nonempty scene");
    let t = Interval::new(66, FX_INF);
    // Generic origins, offset by a third so no ray runs exactly along a
    // box face or grazes a sphere tangentially.
    let mut origins = Vec::new();
    for ox in [-2i64, 0, 3, 6, 9, 11] {
        for oy in [-1i64, 0, 3, 5] {
            origins.push(Vec3::new(ox * S + S / 3, oy * S + S / 3, 2 * S));
        }
    }
    for o in origins {
        for dz in [-S, -S / 2] {
            for dx in [-S / 4, 0, S / 4] {
                let ray = Ray::new(o, Vec3::new(dx, 0, dz));
                assert_eq!(bvh.hit(&ray, t), list.hit(&ray, t));
            }
        }
    }
}

#[test]
fn bvh_over_empty_scene_is_none() {
    assert!(BVHNode::new_from_hittable_list(Vec::new()).is_none());
}

#[test]
fn rng_is_reproducible_from_its_seed() {
    let mut a = Rng::new(41);
    let mut b = Rng::new(41);
    for _ in 0..16 {
        assert_eq!(a.next_u64(), b.next_u64());
    }
    let mut c = Rng::new(42);
    let mut d = Rng::new(41);
    // A different seed yields a different stream.
    assert_ne!(c.next_u64(), d.next_u64());
    let mut e = Rng::new(7);
    for _ in 0..100 {
        let u = e.next_unit();
        assert!(0 <= u && u < S);
        let v = e.next_sym();
        assert!(-S <= v && v < S);
    }
}

#[test]
fn random_unit_is_close_to_unit_length() {
    let mut rng = Rng::new(5);
    for _ in 0..50 {
        let v = Vec3::random_unit(&mut rng);
        let l2 = v.length_squared();
        // The squared length is one up to fixed-point rounding.
        assert!((l2 - S).abs() < S / 64, "length squared {l2}");
    }
}

fn hit_up() -> HitRecord {
    let ray = Ray::new(Vec3::new(0, 2 * S, 0), Vec3::new(0, -S, 0));
    HitRecord::new(&ray, Vec3::new(0, 0, 0), 2 * S, Vec3::new(0, S, 0), 0)
}

#[test]
fn lambertian_always_scatters_and_keeps_time() {
    let m = MaterialKind::Lambertian(Lambertian::new(Color::new(S / 2, S / 4, S / 8)));
    let rec = hit_up();
    let ray = Ray::at_time(Vec3::new(0, 2 * S, 0), Vec3::new(0, -S, 0), 5 * S);
    let mut rng = Rng::new(1);
    for _ in 0..20 {
        let s = m.scatter(&mut rng, &ray, &rec).expect("diffuse never absorbs");
        assert_eq!(s.attenuation, Color::new(S / 2, S / 4, S / 8));
        assert_eq!(s.scattered.time, 5 * S);
        assert_eq!(s.scattered.origin, rec.p);
        // The scatter direction leans along the surface normal.
        assert!(s.scattered.dir.dot(&rec.normal) > -S / 64);
    }
}

#[test]
fn metal_reflects_or_absorbs_by_side() {
    let rec = hit_up();
    let mut rng = Rng::new(2);
    let m = MaterialKind::Metal(Metal::new(Color::new(S, S, S), 0));
    let ray = Ray::new(Vec3::new(-2 * S, 2 * S, 0), Vec3::new(S, -S, 0));
    let s = m.scatter(&mut rng, &ray, &rec).expect("a mirror reflects an outside ray");
    assert_eq!(s.scattered.dir, Vec3::new(S, S, 0));
    // A ray arriving along the normal from behind reflects inward and is
    // absorbed.
    let behind = Ray::new(Vec3::new(0, -2 * S, 0), Vec3::new(0, S, 0));
    assert!(m.scatter(&mut rng, &behind, &rec).is_none());
}

#[test]
fn metal_fuzz_is_clamped_to_one() {
    let m = Metal::new(Color::new(S, S, S), 3 * S);
    assert_eq!(m.fuzz, S);
    let m2 = Metal::new(Color::new(S, S, S), S / 2);
    assert_eq!(m2.fuzz, S / 2);
}

#[test]
fn dielectric_always_scatters_white() {
    let m = MaterialKind::Dielectric(Dielectric::new(3 * S / 2));
    let rec = hit_up();
    let ray = Ray::new(Vec3::new(0, 2 * S, 0), Vec3::new(0, -S, 0));
    let mut rng = Rng::new(3);
    for _ in 0..20 {
        let s = m.scatter(&mut rng, &ray, &rec).expect("glass absorbs nothing");
        assert_eq!(s.attenuation, Color::new(S, S, S));
    }
}

fn tiny_scene() -> Scene {
    let materials = vec![MaterialKind::Lambertian(Lambertian::new(Color::new(S / 2, S / 2, S / 2)))];
    let objects = HittableList::new(vec![Sphere::new(Vec3::new(0, 0, -2 * S), S, 0)]);
    Scene { objects, materials }
}

/// Depth zero is black, whatever the scene and the ray.
#[test]
fn ray_color_depth_zero_is_black() {
    let scene = tiny_scene();
    let mut rng = Rng::new(9);
    let ray = Ray::new(Vec3::new(0, 0, 0), Vec3::new(0, 0, -S));
    assert_eq!(ray_color(&mut rng, &ray, 0, &scene), Vec3::new(0, 0, 0));
    let up = Ray::new(Vec3::new(0, 0, 0), Vec3::new(0, S, 0));
    assert_eq!(ray_color(&mut rng, &up, 0, &scene), Vec3::new(0, 0, 0));
}

/// A ray that escapes upward sees the top of the background gradient.
#[test]
fn ray_color_miss_is_the_gradient() {
    let scene = tiny_scene();
    let mut rng = Rng::new(9);
    let up = Ray::new(Vec3::new(0, 0, 0), Vec3::new(0, S, 0));
    let c = ray_color(&mut rng, &up, 10, &scene);
    // Straight up, the blend weight is one: the sky color itself.
    assert_eq!(c, Vec3::new(S / 2, 45875, S));
    let down = Ray::new(Vec3::new(0, 5 * S, 0), Vec3::new(0, -S, 0));
    let c2 = ray_color(&mut rng, &down, 10, &scene);
    // Straight down past the sphere, the blend weight is zero: white.
    assert_eq!(c2, Vec3::new(S, S, S));
}
