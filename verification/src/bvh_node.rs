//! The bounding-volume hierarchy.
//!
//! A tree over spheres: every internal node carries a box enclosing the
//! boxes of both children, and traversal first rejects a node whose box
//! the ray misses, then narrows the parameter range handed to the right
//! child by the nearest hit the left child reported. The theorem at the
//! bottom states the point of the structure: on a well-formed tree whose
//! leaf boxes are conservative for the ray, traversal returns exactly the
//! record a flat scan over the leaves returns.

use crate::aabb::{box_covers, box_enclose_s, box_hit_s, box_sorted, lemma_covering_box_hit, Aabb, AabbV};
use crate::hittable::{nearest_hit_s, opt_rec_view, spheres_view, HitRecord, HitRecV};
use crate::interval::{iv, Interval, Iv};
use crate::ray::{Ray, RayV};
use crate::sphere::{sphere_hit_s, Sphere, SphereV};
use vstd::prelude::*;

verus! {

/// A node of the hierarchy: a sphere, or a box over two subtrees.
pub enum BVHNode {
    Leaf(Sphere),
    Node { bbox: Aabb, left: Box<BVHNode>, right: Box<BVHNode> },
}

/// The box of a subtree.
pub open spec fn bvh_box(t: BVHNode) -> AabbV {
    match t {
        BVHNode::Leaf(s) => s@.bbox,
        BVHNode::Node { bbox, left, right } => bbox@,
    }
}

/// The leaves of a subtree, in order.
pub open spec fn bvh_leaves(t: BVHNode) -> Seq<SphereV>
    decreases t,
{
    match t {
        BVHNode::Leaf(s) => seq![s@],
        BVHNode::Node { bbox, left, right } => bvh_leaves(*left) + bvh_leaves(*right),
    }
}

/// Well-formedness: every box is ordered and every node's box covers the
/// boxes of both children.
pub open spec fn bvh_wf(t: BVHNode) -> bool
    decreases t,
{
    match t {
        BVHNode::Leaf(s) => box_sorted(s@.bbox),
        BVHNode::Node { bbox, left, right } => box_sorted(bbox@) && bvh_wf(*left) && bvh_wf(
            *right,
        ) && box_covers(bbox@, bvh_box(*left)) && box_covers(bbox@, bvh_box(*right)),
    }
}

/// Traversal: reject on a box miss; otherwise query the left child, then
/// the right child constrained to end at the left hit, and prefer the
/// right hit, which the constraint guarantees is no farther.
pub open spec fn bvh_hit_s(t: BVHNode, r: RayV, ti: Iv) -> Option<HitRecV>
    decreases t,
{
    match t {
        BVHNode::Leaf(s) => sphere_hit_s(s@, r, ti),
        BVHNode::Node { bbox, left, right } => {
            if !box_hit_s(bbox@, r, ti.min, ti.max) {
                None
            } else {
                let hl = bvh_hit_s(*left, r, ti);
                let tmax2 = match hl {
                    Some(rec) => rec.t,
                    None => ti.max,
                };
                let hr = bvh_hit_s(*right, r, iv(ti.min, tmax2));
                match hr {
                    Some(x) => Some(x),
                    None => hl,
                }
            }
        },
    }
}

/// Every sphere of a range has an ordered box.
pub open spec fn boxes_sorted_range(objs: Seq<SphereV>, lo: int, hi: int) -> bool {
    forall|k: int| lo <= k < hi ==> box_sorted(#[trigger] objs[k].bbox)
}

impl BVHNode {
    /// The box of this subtree.
    pub fn bounding_box(&self) -> (r: Aabb)
        ensures
            r@ == bvh_box(*self),
    {
        match self {
            BVHNode::Leaf(s) => s.bounding_box(),
            BVHNode::Node { bbox, left, right } => *bbox,
        }
    }

    /// The nearest intersection within `ray_t`.
    pub fn hit(&self, ray: &Ray, ray_t: Interval) -> (r: Option<HitRecord>)
        ensures
            opt_rec_view(r) == bvh_hit_s(*self, ray@, ray_t@),
        decreases *self,
    {
        match self {
            BVHNode::Leaf(s) => s.hit(ray, ray_t),
            BVHNode::Node { bbox, left, right } => {
                if !bbox.hit(ray, ray_t) {
                    return None;
                }
                let hit_left = left.hit(ray, ray_t);
                let t_max = match &hit_left {
                    Some(rec) => rec.t,
                    None => ray_t.max,
                };
                let hit_right = right.hit(ray, Interval::new(ray_t.min, t_max));
                proof {
                    assert(iv(ray_t@.min, ray_t.max as int) == ray_t@);
                }
                match hit_right {
                    Some(x) => Some(x),
                    None => hit_left,
                }
            },
        }
    }

    /// Build a tree over a nonempty collection by splitting the input in
    /// half at each level, a deterministic policy that keeps lookups
    /// logarithmic; `None` exactly when the collection is empty.
    pub fn new_from_hittable_list(objects: Vec<Sphere>) -> (r: Option<BVHNode>)
        requires
            boxes_sorted_range(spheres_view(objects@), 0, objects@.len() as int),
        ensures
            r is Some <==> objects@.len() > 0,
            r is Some ==> bvh_leaves(r->Some_0) == spheres_view(objects@) && bvh_wf(r->Some_0),
    {
        let n = objects.len();
        if n == 0 {
            None
        } else {
            let t = build_range(&objects, 0, n);
            proof {
                assert(spheres_view(objects@).subrange(0, n as int) =~= spheres_view(objects@));
            }
            Some(t)
        }
    }
}

/// A sphere's box is conservative for the ray `r`: a hit inside any
/// parameter range implies the box test passes on that range. This holds
/// of exact real geometry by construction of the box; in rounded
/// arithmetic a grazing hit could in principle escape its box, which is
/// why the equivalence theorem below takes it as a premise.
pub open spec fn sphere_box_safe(s: SphereV, r: RayV) -> bool {
    forall|ti: Iv|
        #[trigger] sphere_hit_s(s, r, ti) is Some ==> box_hit_s(s.bbox, r, ti.min, ti.max)
}

/// Every leaf of the subtree is conservative for `r`.
pub open spec fn bvh_leaves_safe(t: BVHNode, r: RayV) -> bool
    decreases t,
{
    match t {
        BVHNode::Leaf(s) => sphere_box_safe(s@, r),
        BVHNode::Node { bbox, left, right } => bvh_leaves_safe(*left, r) && bvh_leaves_safe(
            *right,
            r,
        ),
    }
}

/// Leaf safety follows from the safety of every sphere the tree was
/// built over.
pub proof fn lemma_leaves_safe_from_spheres(t: BVHNode, r: RayV)
    requires
        forall|k: int|
            0 <= k < bvh_leaves(t).len() ==> sphere_box_safe(#[trigger] bvh_leaves(t)[k], r),
    ensures
        bvh_leaves_safe(t, r),
    decreases t,
{
    match t {
        BVHNode::Leaf(s) => {
            assert(bvh_leaves(t)[0] == s@);
        },
        BVHNode::Node { bbox, left, right } => {
            let lv = bvh_leaves(*left);
            let rv = bvh_leaves(*right);
            assert forall|k: int| 0 <= k < lv.len() implies sphere_box_safe(
                #[trigger] lv[k],
                r,
            ) by {
                assert(lv[k] == bvh_leaves(t)[k]);
            }
            assert forall|k: int| 0 <= k < rv.len() implies sphere_box_safe(
                #[trigger] rv[k],
                r,
            ) by {
                assert(rv[k] == bvh_leaves(t)[k + lv.len()]);
            }
            lemma_leaves_safe_from_spheres(*left, r);
            lemma_leaves_safe_from_spheres(*right, r);
        },
    }
}

/// A well-formed subtree has an ordered box.
proof fn lemma_bvh_box_sorted(t: BVHNode)
    requires
        bvh_wf(t),
    ensures
        box_sorted(bvh_box(t)),
{
    match t {
        BVHNode::Leaf(s) => {
        },
        BVHNode::Node { bbox, left, right } => {
        },
    }
}

/// A scan over spheres none of which is hit within `ti` finds nothing.
proof fn lemma_scan_all_none(objs: Seq<SphereV>, r: RayV, ti: Iv)
    requires
        forall|k: int| 0 <= k < objs.len() ==> #[trigger] sphere_hit_s(objs[k], r, ti) is None,
    ensures
        nearest_hit_s(objs, r, ti) is None,
    decreases objs.len(),
{
    if objs.len() > 0 {
        assert(sphere_hit_s(objs[0], r, ti) is None);
        assert forall|k: int| 0 <= k < objs.drop_first().len() implies #[trigger] sphere_hit_s(
            objs.drop_first()[k],
            r,
            ti,
        ) is None by {
            assert(objs.drop_first()[k] == objs[k + 1]);
        }
        lemma_scan_all_none(objs.drop_first(), r, ti);
    }
}

/// When the ray misses a well-formed, conservative subtree's box, no leaf
/// of the subtree is hit within the same range.
proof fn lemma_subtree_miss(t: BVHNode, r: RayV, ti: Iv)
    requires
        bvh_wf(t),
        bvh_leaves_safe(t, r),
        !box_hit_s(bvh_box(t), r, ti.min, ti.max),
    ensures
        forall|k: int|
            0 <= k < bvh_leaves(t).len() ==> #[trigger] sphere_hit_s(bvh_leaves(t)[k], r, ti)
                is None,
    decreases t,
{
    match t {
        BVHNode::Leaf(s) => {
            assert forall|k: int| 0 <= k < bvh_leaves(t).len() implies #[trigger] sphere_hit_s(
                bvh_leaves(t)[k],
                r,
                ti,
            ) is None by {
                assert(bvh_leaves(t)[k] == s@);
                if sphere_hit_s(s@, r, ti) is Some {
                    assert(box_hit_s(s@.bbox, r, ti.min, ti.max));
                }
            }
        },
        BVHNode::Node { bbox, left, right } => {
            if box_hit_s(bvh_box(*left), r, ti.min, ti.max) {
                lemma_bvh_box_sorted(*left);
                lemma_covering_box_hit(bbox@, bvh_box(*left), r, ti.min, ti.max);
            }
            if box_hit_s(bvh_box(*right), r, ti.min, ti.max) {
                lemma_bvh_box_sorted(*right);
                lemma_covering_box_hit(bbox@, bvh_box(*right), r, ti.min, ti.max);
            }
            lemma_subtree_miss(*left, r, ti);
            lemma_subtree_miss(*right, r, ti);
            let lv = bvh_leaves(*left);
            let rv = bvh_leaves(*right);
            assert forall|k: int| 0 <= k < bvh_leaves(t).len() implies #[trigger] sphere_hit_s(
                bvh_leaves(t)[k],
                r,
                ti,
            ) is None by {
                if k < lv.len() {
                    assert(bvh_leaves(t)[k] == lv[k]);
                } else {
                    assert(bvh_leaves(t)[k] == rv[k - lv.len()]);
                }
            }
        },
    }
}

/// Splitting a scan: scanning a concatenation equals scanning the first
/// part, then the second part within the range narrowed to the first
/// part's nearest hit, preferring a hit of the second part, which the
/// narrowing guarantees is strictly nearer.
proof fn lemma_nearest_concat(a: Seq<SphereV>, b: Seq<SphereV>, r: RayV, ti: Iv)
    ensures
        nearest_hit_s(a + b, r, ti) == (match nearest_hit_s(a, r, ti) {
            Some(rec) => match nearest_hit_s(b, r, iv(ti.min, rec.t)) {
                Some(x) => Some(x),
                None => Some(rec),
            },
            None => nearest_hit_s(b, r, ti),
        }),
    decreases a.len(),
{
    if a.len() == 0 {
        assert(a + b =~= b);
    } else {
        assert((a + b)[0] == a[0]);
        assert((a + b).drop_first() =~= a.drop_first() + b);
        match sphere_hit_s(a[0], r, ti) {
            Some(rec0) => {
                lemma_nearest_concat(a.drop_first(), b, r, iv(ti.min, rec0.t));
            },
            None => {
                lemma_nearest_concat(a.drop_first(), b, r, ti);
            },
        }
    }
}

/// The point of the hierarchy: on a well-formed tree whose leaves are
/// conservative for the ray, traversal returns exactly the record of the
/// flat nearest-hit scan over the leaves, for every parameter range.
pub proof fn lemma_bvh_matches_scan(t: BVHNode, r: RayV, ti: Iv)
    requires
        bvh_wf(t),
        bvh_leaves_safe(t, r),
    ensures
        bvh_hit_s(t, r, ti) == nearest_hit_s(bvh_leaves(t), r, ti),
    decreases t,
{
    match t {
        BVHNode::Leaf(s) => {
            let e = seq![s@];
            assert(e.drop_first() =~= Seq::<SphereV>::empty());
            match sphere_hit_s(s@, r, ti) {
                Some(rec) => {
                    assert(nearest_hit_s(e.drop_first(), r, iv(ti.min, rec.t)) is None);
                },
                None => {
                    assert(nearest_hit_s(e.drop_first(), r, ti) is None);
                },
            }
        },
        BVHNode::Node { bbox, left, right } => {
            let lv = bvh_leaves(*left);
            let rv = bvh_leaves(*right);
            if !box_hit_s(bbox@, r, ti.min, ti.max) {
                lemma_subtree_miss(t, r, ti);
                lemma_scan_all_none(bvh_leaves(t), r, ti);
            } else {
                lemma_bvh_matches_scan(*left, r, ti);
                let hl = bvh_hit_s(*left, r, ti);
                let tmax2 = match hl {
                    Some(rec) => rec.t,
                    None => ti.max,
                };
                lemma_bvh_matches_scan(*right, r, iv(ti.min, tmax2));
                lemma_nearest_concat(lv, rv, r, ti);
                if hl is None {
                    assert(iv(ti.min, ti.max) == ti);
                }
            }
        },
    }
}

/// Build the subtree over `objects[lo..hi]`.
fn build_range(objects: &Vec<Sphere>, lo: usize, hi: usize) -> (r: BVHNode)
    requires
        lo < hi <= objects@.len(),
        boxes_sorted_range(spheres_view(objects@), lo as int, hi as int),
    ensures
        bvh_leaves(r) == spheres_view(objects@).subrange(lo as int, hi as int),
        bvh_wf(r),
    decreases hi - lo,
{
    if hi - lo == 1 {
        let t = BVHNode::Leaf(objects[lo]);
        proof {
            assert(spheres_view(objects@)[lo as int] == objects@[lo as int]@);
            assert(bvh_leaves(t) =~= spheres_view(objects@).subrange(lo as int, hi as int));
        }
        t
    } else {
        let mid = lo + (hi - lo) / 2;
        let left = build_range(objects, lo, mid);
        let right = build_range(objects, mid, hi);
        let bbox = Aabb::new_from_boxes(&left.bounding_box(), &right.bounding_box());
        let t = BVHNode::Node { bbox, left: Box::new(left), right: Box::new(right) };
        proof {
            assert(bvh_leaves(t) =~= spheres_view(objects@).subrange(lo as int, hi as int));
        }
        t
    }
}

} // verus!
