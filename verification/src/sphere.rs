//! The sphere primitive, static or linearly moving.

use crate::aabb::{box_enclose_s, box_from_points_s, box_sorted, Aabb, AabbV};
use crate::fixed::{
    fxadd, fxadd_s, fxdiv, fxdiv_s, fxmul, fxmul_s, fxsqrt, fxsqrt_s, fxsub, fxsub_s,
    lemma_mul_le_mono, lemma_tdiv_mono, FX_ONE,
};
use crate::hittable::{hit_record_s, opt_rec_view, HitRecord, HitRecV};
use crate::interval::{empty_iv, iv, surrounds_s, Interval, Iv};
use crate::ray::{ray_at, rayv, Ray, RayV};
use crate::vec3::{
    add_v, divs_v, dot_v, lemma_dot_self_nonneg, len2_v, sub_v, v3, zero_v, Point, Vec3, V3,
};
use vstd::prelude::*;

verus! {

/// The model of a sphere: the center path (position at time zero plus a
/// displacement reached at time one), the radius, the material handle and
/// the cached bounding box.
pub ghost struct SphereV {
    pub center: RayV,
    pub radius: int,
    pub mat: int,
    pub bbox: AabbV,
}

/// The box around a static center: the center padded by the radius on
/// every axis.
pub open spec fn sphere_box_s(center: V3, radius: int) -> AabbV {
    box_from_points_s(
        sub_v(center, v3(radius, radius, radius)),
        add_v(center, v3(radius, radius, radius)),
    )
}

/// The model of a static sphere.
pub open spec fn sphere_new_s(center: V3, radius: int, mat: int) -> SphereV {
    SphereV {
        center: rayv(center, zero_v(), 0),
        radius,
        mat,
        bbox: sphere_box_s(center, radius),
    }
}

/// The model of a sphere moving from `c1` (time zero) to `c2` (time one):
/// its box encloses the padded box of both endpoints.
pub open spec fn sphere_moving_s(c1: V3, c2: V3, radius: int, mat: int) -> SphereV {
    SphereV {
        center: rayv(c1, sub_v(c2, c1), 0),
        radius,
        mat,
        bbox: box_enclose_s(sphere_box_s(c1, radius), sphere_box_s(c2, radius)),
    }
}

/// The analytic intersection: solve `|O + tD - C|^2 = r^2` through the
/// reduced discriminant, try the smaller root first, then the larger, and
/// accept the first lying strictly inside `ti`.
pub open spec fn sphere_hit_s(s: SphereV, r: RayV, ti: Iv) -> Option<HitRecV> {
    let cc = ray_at(s.center, r.time);
    let oc = sub_v(cc, r.origin);
    let a = len2_v(r.dir);
    let h = dot_v(r.dir, oc);
    let c = fxsub_s(len2_v(oc), fxmul_s(s.radius, s.radius));
    let disc = fxsub_s(fxmul_s(h, h), fxmul_s(a, c));
    if disc < 0 {
        None
    } else {
        let sq = fxsqrt_s(disc);
        let root1 = fxdiv_s(fxsub_s(h, sq), a);
        let root2 = fxdiv_s(fxadd_s(h, sq), a);
        let root = if surrounds_s(ti, root1) {
            root1
        } else {
            root2
        };
        if surrounds_s(ti, root) {
            let p = ray_at(r, root);
            let outward = divs_v(sub_v(p, cc), s.radius);
            Some(hit_record_s(r, p, root, outward, s.mat))
        } else {
            None
        }
    }
}

/// A sphere; `mat` indexes the material arena.
#[derive(Clone, Copy, Debug)]
pub struct Sphere {
    pub center: Ray,
    pub radius: i64,
    pub mat: usize,
    pub bbox: Aabb,
}

impl View for Sphere {
    type V = SphereV;

    open spec fn view(&self) -> SphereV {
        SphereV {
            center: self.center@,
            radius: self.radius as int,
            mat: self.mat as int,
            bbox: self.bbox@,
        }
    }
}

impl Sphere {
    /// A static sphere.
    pub fn new(center: Point, radius: i64, mat: usize) -> (r: Sphere)
        ensures
            r@ == sphere_new_s(center@, radius as int, mat as int),
            box_sorted(r@.bbox),
    {
        let rvec = Vec3::new(radius, radius, radius);
        let bbox = Aabb::new_from_points(center.vsub(&rvec), center.vadd(&rvec));
        Sphere { center: Ray::new(center, Vec3::zero()), radius, mat, bbox }
    }

    /// A sphere moving linearly from `center1` at time zero to `center2`
    /// at time one.
    pub fn new_moving(center1: Point, center2: Point, radius: i64, mat: usize) -> (r: Sphere)
        ensures
            r@ == sphere_moving_s(center1@, center2@, radius as int, mat as int),
            box_sorted(r@.bbox),
    {
        let rvec = Vec3::new(radius, radius, radius);
        let bbox1 = Aabb::new_from_points(center1.vsub(&rvec), center1.vadd(&rvec));
        let bbox2 = Aabb::new_from_points(center2.vsub(&rvec), center2.vadd(&rvec));
        let bbox = Aabb::new_from_boxes(&bbox1, &bbox2);
        Sphere {
            center: Ray::new(center1, center2.vsub(&center1)),
            radius,
            mat,
            bbox,
        }
    }

    /// The nearest root of the quadratic strictly inside `ray_t`, if any.
    pub fn hit(&self, ray: &Ray, ray_t: Interval) -> (r: Option<HitRecord>)
        ensures
            opt_rec_view(r) == sphere_hit_s(self@, ray@, ray_t@),
    {
        let current_center = self.center.at(ray.time);
        let oc = current_center.vsub(&ray.origin);
        let a = ray.dir.length_squared();
        let h = ray.dir.dot(&oc);
        let c = fxsub(oc.length_squared(), fxmul(self.radius, self.radius));
        let disc = fxsub(fxmul(h, h), fxmul(a, c));
        if disc < 0 {
            return None;
        }
        let sq = fxsqrt(disc);
        let mut root = fxdiv(fxsub(h, sq), a);
        if !ray_t.surrounds(root) {
            root = fxdiv(fxadd(h, sq), a);
            if !ray_t.surrounds(root) {
                return None;
            }
        }
        let p = ray.at(root);
        let outward_normal = p.vsub(&current_center).vdiv(self.radius);
        Some(HitRecord::new(ray, p, root, outward_normal, self.mat))
    }

    pub fn bounding_box(&self) -> (r: Aabb)
        ensures
            r@ == self@.bbox,
    {
        self.bbox
    }
}

/// Within the empty range no parameter is strictly inside, so a sphere is
/// never hit there.
pub proof fn lemma_sphere_hit_empty(s: SphereV, r: RayV)
    ensures
        sphere_hit_s(s, r, empty_iv()) is None,
{
}

/// A returned record's parameter always lies strictly inside the queried
/// range.
pub proof fn lemma_sphere_hit_in_range(s: SphereV, r: RayV, ti: Iv)
    requires
        sphere_hit_s(s, r, ti) is Some,
    ensures
        surrounds_s(ti, sphere_hit_s(s, r, ti)->Some_0.t),
{
}

/// A sphere, once missed, stays missed when the range shrinks from
/// above: acceptance of either root only becomes harder.
pub proof fn lemma_sphere_miss_narrow(s: SphereV, r: RayV, ti: Iv, tm: int)
    requires
        sphere_hit_s(s, r, ti) is None,
        tm <= ti.max,
    ensures
        sphere_hit_s(s, r, iv(ti.min, tm)) is None,
{
}

/// Within any range with the same lower end that stops at or before the
/// accepted root, the sphere is missed: the two roots do not depend on
/// the queried range, the nearer root is tried first, and the farther
/// root never falls below the nearer one.
pub proof fn lemma_sphere_no_nearer(s: SphereV, r: RayV, ti: Iv, tm: int)
    requires
        sphere_hit_s(s, r, ti) is Some,
        tm <= sphere_hit_s(s, r, ti)->Some_0.t,
    ensures
        sphere_hit_s(s, r, iv(ti.min, tm)) is None,
{
    let cc = ray_at(s.center, r.time);
    let oc = sub_v(cc, r.origin);
    let a = len2_v(r.dir);
    let h = dot_v(r.dir, oc);
    let c = fxsub_s(len2_v(oc), fxmul_s(s.radius, s.radius));
    let disc = fxsub_s(fxmul_s(h, h), fxmul_s(a, c));
    let sq = fxsqrt_s(disc);
    let n1 = fxsub_s(h, sq);
    let n2 = fxadd_s(h, sq);
    let root1 = fxdiv_s(n1, a);
    let root2 = fxdiv_s(n2, a);
    lemma_dot_self_nonneg(r.dir);
    assert(0 <= sq);
    assert(n1 <= n2);
    if a != 0 {
        lemma_mul_le_mono(n1, n2, FX_ONE as int);
        lemma_tdiv_mono(n1 * FX_ONE as int, n2 * FX_ONE as int, a);
    }
    assert(root1 <= root2);
}

} // verus!
