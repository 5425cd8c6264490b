//! Intersection records and the flat collection of hittable objects.

use crate::aabb::{box_enclose_s, empty_box_s, Aabb, AabbV};
use crate::interval::{iv, surrounds_s, Interval, Iv};
use crate::ray::{Ray, RayV};
use crate::sphere::{sphere_hit_s, Sphere, SphereV};
use crate::vec3::{dot_v, neg_v, Point, Vec3, V3};
use vstd::prelude::*;

verus! {

/// The model of an intersection record.
pub ghost struct HitRecV {
    pub p: V3,
    pub normal: V3,
    pub t: int,
    pub front_face: bool,
    pub mat: int,
}

/// The record produced at a hit: the normal always faces against the
/// incoming ray, and `front_face` remembers whether the outward geometric
/// normal did.
pub open spec fn hit_record_s(r: RayV, p: V3, t: int, outward: V3, mat: int) -> HitRecV {
    let ff = dot_v(r.dir, outward) < 0;
    HitRecV {
        p,
        normal: if ff {
            outward
        } else {
            neg_v(outward)
        },
        t,
        front_face: ff,
        mat,
    }
}

/// A transient intersection record; `mat` indexes the material arena.
#[derive(Clone, Copy, Debug, PartialEq, Eq, Structural)]
pub struct HitRecord {
    pub p: Point,
    pub normal: Vec3,
    pub t: i64,
    pub front_face: bool,
    pub mat: usize,
}

impl View for HitRecord {
    type V = HitRecV;

    open spec fn view(&self) -> HitRecV {
        HitRecV {
            p: self.p@,
            normal: self.normal@,
            t: self.t as int,
            front_face: self.front_face,
            mat: self.mat as int,
        }
    }
}

/// The view of an optional record.
pub open spec fn opt_rec_view(o: Option<HitRecord>) -> Option<HitRecV> {
    match o {
        Some(h) => Some(h@),
        None => None,
    }
}

impl HitRecord {
    pub fn new(ray: &Ray, p: Point, t: i64, outward_normal: Vec3, mat: usize) -> (r: HitRecord)
        ensures
            r@ == hit_record_s(ray@, p@, t as int, outward_normal@, mat as int),
    {
        let front_face = ray.dir.dot(&outward_normal) < 0;
        let normal = if front_face {
            outward_normal
        } else {
            outward_normal.vneg()
        };
        HitRecord { p, normal, t, front_face, mat }
    }
}

/// The models of a sequence of spheres.
pub open spec fn spheres_view(s: Seq<Sphere>) -> Seq<SphereV> {
    s.map_values(|sp: Sphere| sp@)
}

/// The nearest hit of a scan over `objs` within `ti`: each object is
/// queried with the range narrowed to the nearest parameter found so far,
/// so only the globally nearest hit within the range survives.
pub open spec fn nearest_hit_s(objs: Seq<SphereV>, r: RayV, ti: Iv) -> Option<HitRecV>
    decreases objs.len(),
{
    if objs.len() == 0 {
        None
    } else {
        match sphere_hit_s(objs[0], r, ti) {
            Some(rec) => match nearest_hit_s(objs.drop_first(), r, iv(ti.min, rec.t)) {
                Some(rec2) => Some(rec2),
                None => Some(rec),
            },
            None => nearest_hit_s(objs.drop_first(), r, ti),
        }
    }
}

/// The parameter of a scan's nearest hit lies strictly inside the queried
/// range: every kept hit is inside its narrowed range, and each narrowed
/// range sits inside the original.
pub proof fn lemma_nearest_hit_in_range(objs: Seq<SphereV>, r: RayV, ti: Iv)
    requires
        nearest_hit_s(objs, r, ti) is Some,
    ensures
        surrounds_s(ti, nearest_hit_s(objs, r, ti)->Some_0.t),
    decreases objs.len(),
{
    match sphere_hit_s(objs[0], r, ti) {
        Some(rec0) => {
            crate::sphere::lemma_sphere_hit_in_range(objs[0], r, ti);
            match nearest_hit_s(objs.drop_first(), r, iv(ti.min, rec0.t)) {
                Some(rec2) => {
                    lemma_nearest_hit_in_range(objs.drop_first(), r, iv(ti.min, rec0.t));
                },
                None => {
                },
            }
        },
        None => {
            lemma_nearest_hit_in_range(objs.drop_first(), r, ti);
        },
    }
}

/// The scan returns only the globally nearest hit: when it yields a
/// record, every member misses within the range cut off at the returned
/// parameter, so no member is hit strictly nearer. The two analytic roots
/// of a sphere do not depend on the queried range, only their acceptance
/// does, which makes the narrowing argument a matter of orderings.
pub proof fn lemma_nearest_is_nearest(objs: Seq<SphereV>, r: RayV, ti: Iv)
    requires
        nearest_hit_s(objs, r, ti) is Some,
    ensures
        forall|k: int|
            0 <= k < objs.len() ==> #[trigger] sphere_hit_s(
                objs[k],
                r,
                iv(ti.min, nearest_hit_s(objs, r, ti)->Some_0.t),
            ) is None,
    decreases objs.len(),
{
    let rec = nearest_hit_s(objs, r, ti)->Some_0;
    match sphere_hit_s(objs[0], r, ti) {
        Some(rec0) => {
            crate::sphere::lemma_sphere_hit_in_range(objs[0], r, ti);
            match nearest_hit_s(objs.drop_first(), r, iv(ti.min, rec0.t)) {
                Some(rec2) => {
                    lemma_nearest_hit_in_range(objs.drop_first(), r, iv(ti.min, rec0.t));
                    lemma_nearest_is_nearest(objs.drop_first(), r, iv(ti.min, rec0.t));
                    assert forall|k: int| 0 <= k < objs.len() implies #[trigger] sphere_hit_s(
                        objs[k],
                        r,
                        iv(ti.min, rec.t),
                    ) is None by {
                        if k == 0 {
                            crate::sphere::lemma_sphere_no_nearer(objs[0], r, ti, rec.t);
                        } else {
                            assert(objs[k] == objs.drop_first()[k - 1]);
                        }
                    }
                },
                None => {
                    lemma_scan_misses_narrow(objs.drop_first(), r, iv(ti.min, rec0.t));
                    assert forall|k: int| 0 <= k < objs.len() implies #[trigger] sphere_hit_s(
                        objs[k],
                        r,
                        iv(ti.min, rec.t),
                    ) is None by {
                        if k == 0 {
                            crate::sphere::lemma_sphere_no_nearer(objs[0], r, ti, rec.t);
                        } else {
                            assert(objs[k] == objs.drop_first()[k - 1]);
                        }
                    }
                },
            }
        },
        None => {
            lemma_nearest_hit_in_range(objs.drop_first(), r, ti);
            lemma_nearest_is_nearest(objs.drop_first(), r, ti);
            assert forall|k: int| 0 <= k < objs.len() implies #[trigger] sphere_hit_s(
                objs[k],
                r,
                iv(ti.min, rec.t),
            ) is None by {
                if k == 0 {
                    crate::sphere::lemma_sphere_miss_narrow(objs[0], r, ti, rec.t);
                } else {
                    assert(objs[k] == objs.drop_first()[k - 1]);
                }
            }
        },
    }
}

/// A scan that finds nothing saw every member miss, and each keeps
/// missing on any range with the same lower end and a smaller upper end.
proof fn lemma_scan_misses_narrow(objs: Seq<SphereV>, r: RayV, ti: Iv)
    requires
        nearest_hit_s(objs, r, ti) is None,
    ensures
        forall|tm: int, k: int|
            tm <= ti.max && 0 <= k < objs.len() ==> #[trigger] sphere_hit_s(
                objs[k],
                r,
                iv(ti.min, tm),
            ) is None,
    decreases objs.len(),
{
    if objs.len() > 0 {
        assert(sphere_hit_s(objs[0], r, ti) is None);
        lemma_scan_misses_narrow(objs.drop_first(), r, ti);
        assert forall|tm: int, k: int|
            tm <= ti.max && 0 <= k < objs.len() implies #[trigger] sphere_hit_s(
            objs[k],
            r,
            iv(ti.min, tm),
        ) is None by {
            if k == 0 {
                crate::sphere::lemma_sphere_miss_narrow(objs[0], r, ti, tm);
            } else {
                assert(objs[k] == objs.drop_first()[k - 1]);
            }
        }
    }
}

/// The material handle of a scan's nearest hit always comes from one of
/// the scanned spheres.
pub proof fn lemma_nearest_mat_from(objs: Seq<SphereV>, r: RayV, ti: Iv)
    requires
        nearest_hit_s(objs, r, ti) is Some,
    ensures
        exists|k: int|
            0 <= k < objs.len() && (#[trigger] objs[k]).mat == nearest_hit_s(objs, r, ti)->Some_0.mat,
    decreases objs.len(),
{
    let rec = nearest_hit_s(objs, r, ti)->Some_0;
    match sphere_hit_s(objs[0], r, ti) {
        Some(rec0) => {
            match nearest_hit_s(objs.drop_first(), r, iv(ti.min, rec0.t)) {
                Some(rec2) => {
                    lemma_nearest_mat_from(objs.drop_first(), r, iv(ti.min, rec0.t));
                    let k0 = choose|k: int|
                        0 <= k < objs.drop_first().len() && (#[trigger] objs.drop_first()[k]).mat
                            == rec2.mat;
                    assert(objs[k0 + 1] == objs.drop_first()[k0]);
                },
                None => {
                    assert(objs[0].mat == rec.mat);
                },
            }
        },
        None => {
            lemma_nearest_mat_from(objs.drop_first(), r, ti);
            let k0 = choose|k: int|
                0 <= k < objs.drop_first().len() && (#[trigger] objs.drop_first()[k]).mat
                    == nearest_hit_s(objs.drop_first(), r, ti)->Some_0.mat;
            assert(objs[k0 + 1] == objs.drop_first()[k0]);
        },
    }
}

/// The box enclosing every member of a list; the empty box for an empty
/// list.
pub open spec fn list_box_s(objs: Seq<SphereV>) -> AabbV
    decreases objs.len(),
{
    if objs.len() == 0 {
        empty_box_s()
    } else {
        box_enclose_s(list_box_s(objs.drop_last()), objs.last().bbox)
    }
}

/// A flat, ordered collection of spheres.
pub struct HittableList {
    pub objects: Vec<Sphere>,
}

impl View for HittableList {
    type V = Seq<SphereV>;

    open spec fn view(&self) -> Seq<SphereV> {
        spheres_view(self.objects@)
    }
}

impl HittableList {
    pub fn new(objects: Vec<Sphere>) -> (r: HittableList)
        ensures
            r@ == spheres_view(objects@),
    {
        HittableList { objects }
    }

    /// The nearest intersection within `ray_t`, by a scan that narrows the
    /// range to the closest hit found so far.
    pub fn hit(&self, ray: &Ray, ray_t: Interval) -> (r: Option<HitRecord>)
        ensures
            opt_rec_view(r) == nearest_hit_s(self@, ray@, ray_t@),
    {
        let mut best: Option<HitRecord> = None;
        let mut closest_so_far: i64 = ray_t.max;
        let n = self.objects.len();
        let mut i: usize = 0;
        proof {
            assert(self@.skip(0) =~= self@);
            assert(iv(ray_t@.min, ray_t.max as int) == ray_t@);
        }
        while i < n
            invariant
                n == self.objects.len(),
                i <= n,
                nearest_hit_s(self@, ray@, ray_t@) == match nearest_hit_s(
                    self@.skip(i as int),
                    ray@,
                    iv(ray_t@.min, closest_so_far as int),
                ) {
                    Some(x) => Some(x),
                    None => opt_rec_view(best),
                },
            decreases n - i,
        {
            let ghost pre = self@.skip(i as int);
            let h = self.objects[i].hit(ray, Interval::new(ray_t.min, closest_so_far));
            proof {
                assert(pre[0] == self@[i as int]);
                assert(pre.drop_first() =~= self@.skip(i as int + 1));
            }
            match h {
                Some(rec) => {
                    closest_so_far = rec.t;
                    best = Some(rec);
                },
                None => {},
            }
            i = i + 1;
        }
        proof {
            assert(self@.skip(n as int) =~= Seq::<SphereV>::empty());
        }
        best
    }

    /// The box enclosing every member.
    pub fn bounding_box(&self) -> (r: Aabb)
        ensures
            r@ == list_box_s(self@),
    {
        let mut acc = Aabb::new(Interval::empty(), Interval::empty(), Interval::empty());
        let n = self.objects.len();
        let mut i: usize = 0;
        proof {
            assert(self@.take(0) =~= Seq::<SphereV>::empty());
        }
        while i < n
            invariant
                n == self.objects.len(),
                i <= n,
                acc@ == list_box_s(self@.take(i as int)),
            decreases n - i,
        {
            acc = Aabb::new_from_boxes(&acc, &self.objects[i].bounding_box());
            proof {
                let post = self@.take(i as int + 1);
                assert(post.drop_last() =~= self@.take(i as int));
                assert(post.last() == self@[i as int]);
            }
            i = i + 1;
        }
        proof {
            assert(self@.take(n as int) =~= self@);
        }
        acc
    }
}

} // verus!
