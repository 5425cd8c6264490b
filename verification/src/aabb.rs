//! Axis-aligned bounding boxes and the slab intersection test.
//!
//! The slab test keeps the running parameter range as exact rationals
//! (numerator over positive denominator) and compares by cross
//! multiplication, so the test is an exact predicate of its inputs: no
//! division, no rounding. Box endpoints and ray components are saturated
//! into the scalar range on entry, like every other operation of the
//! arithmetic.

use crate::fixed::{clip, lemma_mul_abs_le, lemma_mul_le_mono, FX_MAX, FX_ONE};
use crate::interval::{empty_iv, enclose_s, iv, Interval, Iv};
use crate::ray::{Ray, RayV};
use crate::vec3::{Point, V3};
use vstd::prelude::*;

verus! {

/// Saturation of a scalar into the representable range, applied to every
/// value entering the slab test.
pub open spec fn cl(v: int) -> int {
    clip(v, FX_MAX as int)
}

/// Exec counterpart of `cl`.
pub fn fx_clamp(v: i64) -> (r: i64)
    ensures
        r as int == cl(v as int),
{
    if v > FX_MAX {
        FX_MAX
    } else if v < -FX_MAX {
        -FX_MAX
    } else {
        v
    }
}

/// `p/pd < q/qd` for positive denominators, by cross multiplication.
pub open spec fn rat_lt(pn: int, pd: int, qn: int, qd: int) -> bool {
    pn * qd < qn * pd
}

/// `p/pd <= q/qd` for positive denominators.
pub open spec fn rat_le(pn: int, pd: int, qn: int, qd: int) -> bool {
    pn * qd <= qn * pd
}

/// The running state of the slab test: the parameter range narrowed so
/// far, as two rationals, and whether the range is still nonempty.
pub ghost struct Slab {
    pub ln: int,
    pub ld: int,
    pub hn: int,
    pub hd: int,
    pub alive: bool,
}

/// Narrowing the running range by one axis. A zero direction component
/// constrains nothing when the origin lies strictly inside the slab and
/// misses otherwise; a nonzero component contributes the slab's two
/// boundary parameters, sorted, over the positive denominator `|d|`. The
/// box is missed as soon as the range's upper end does not strictly exceed
/// its lower end.
pub open spec fn axis_narrow(s: Slab, a: int, b: int, o: int, d: int) -> Slab {
    if !s.alive {
        s
    } else if d == 0 {
        Slab {
            ln: s.ln,
            ld: s.ld,
            hn: s.hn,
            hd: s.hd,
            alive: a < o && o < b && rat_lt(s.ln, s.ld, s.hn, s.hd),
        }
    } else {
        let den = if d > 0 {
            d
        } else {
            -d
        };
        let u = if d > 0 {
            (a - o) * (FX_ONE as int)
        } else {
            (o - a) * (FX_ONE as int)
        };
        let v = if d > 0 {
            (b - o) * (FX_ONE as int)
        } else {
            (o - b) * (FX_ONE as int)
        };
        let t0n = if u <= v {
            u
        } else {
            v
        };
        let t1n = if u <= v {
            v
        } else {
            u
        };
        let take_lo = rat_lt(s.ln, s.ld, t0n, den);
        let take_hi = rat_lt(t1n, den, s.hn, s.hd);
        let ln2 = if take_lo {
            t0n
        } else {
            s.ln
        };
        let ld2 = if take_lo {
            den
        } else {
            s.ld
        };
        let hn2 = if take_hi {
            t1n
        } else {
            s.hn
        };
        let hd2 = if take_hi {
            den
        } else {
            s.hd
        };
        Slab { ln: ln2, ld: ld2, hn: hn2, hd: hd2, alive: rat_lt(ln2, ld2, hn2, hd2) }
    }
}

/// The model of a box: one interval per axis.
pub ghost struct AabbV {
    pub x: Iv,
    pub y: Iv,
    pub z: Iv,
}

pub open spec fn aabbv(x: Iv, y: Iv, z: Iv) -> AabbV {
    AabbV { x, y, z }
}

/// A box of real geometry has ordered endpoints on every axis.
pub open spec fn box_sorted(b: AabbV) -> bool {
    b.x.min <= b.x.max && b.y.min <= b.y.max && b.z.min <= b.z.max
}

/// The box enclosing two points, cornerwise.
pub open spec fn box_from_points_s(a: V3, b: V3) -> AabbV {
    aabbv(
        iv(if a.x <= b.x {
            a.x
        } else {
            b.x
        }, if a.x >= b.x {
            a.x
        } else {
            b.x
        }),
        iv(if a.y <= b.y {
            a.y
        } else {
            b.y
        }, if a.y >= b.y {
            a.y
        } else {
            b.y
        }),
        iv(if a.z <= b.z {
            a.z
        } else {
            b.z
        }, if a.z >= b.z {
            a.z
        } else {
            b.z
        }),
    )
}

/// The box enclosing two boxes, axiswise.
pub open spec fn box_enclose_s(a: AabbV, b: AabbV) -> AabbV {
    aabbv(enclose_s(a.x, b.x), enclose_s(a.y, b.y), enclose_s(a.z, b.z))
}

/// The box enclosing nothing: every axis empty, the unit of enclosure.
pub open spec fn empty_box_s() -> AabbV {
    aabbv(empty_iv(), empty_iv(), empty_iv())
}

/// The slab test: does the ray meet the box at some parameter strictly
/// inside `(tmin, tmax)` narrowed by all three axes?
pub open spec fn box_hit_s(bx: AabbV, r: RayV, tmin: int, tmax: int) -> bool {
    let s0 = Slab { ln: tmin, ld: 1, hn: tmax, hd: 1, alive: true };
    let s1 = axis_narrow(s0, cl(bx.x.min), cl(bx.x.max), cl(r.origin.x), cl(r.dir.x));
    let s2 = axis_narrow(s1, cl(bx.y.min), cl(bx.y.max), cl(r.origin.y), cl(r.dir.y));
    let s3 = axis_narrow(s2, cl(bx.z.min), cl(bx.z.max), cl(r.origin.z), cl(r.dir.z));
    s3.alive
}

/// Numerators the slab state can carry.
pub open spec fn num_ok(n: int) -> bool {
    -0x8000_0000_0000_0000 <= n <= 0x8000_0000_0000_0000
}

/// Denominators the slab state can carry.
pub open spec fn den_ok(d: int) -> bool {
    0 < d <= FX_MAX as int
}

pub open spec fn slab_wf(s: Slab) -> bool {
    num_ok(s.ln) && den_ok(s.ld) && num_ok(s.hn) && den_ok(s.hd)
}

/// Exec state of the slab test.
struct SlabState {
    ln: i128,
    ld: i128,
    hn: i128,
    hd: i128,
    alive: bool,
}

impl View for SlabState {
    type V = Slab;

    closed spec fn view(&self) -> Slab {
        Slab {
            ln: self.ln as int,
            ld: self.ld as int,
            hn: self.hn as int,
            hd: self.hd as int,
            alive: self.alive,
        }
    }
}

/// Strict rational comparison by cross multiplication.
fn rat_lt_e(pn: i128, pd: i128, qn: i128, qd: i128) -> (r: bool)
    requires
        num_ok(pn as int),
        den_ok(pd as int),
        num_ok(qn as int),
        den_ok(qd as int),
    ensures
        r == rat_lt(pn as int, pd as int, qn as int, qd as int),
{
    proof {
        lemma_mul_abs_le(pn as int, qd as int, 0x8000_0000_0000_0000, FX_MAX as int);
        lemma_mul_abs_le(qn as int, pd as int, 0x8000_0000_0000_0000, FX_MAX as int);
    }
    pn * qd < qn * pd
}

/// One axis of the slab test.
fn axis_step(s: SlabState, a: i64, b: i64, o: i64, d: i64) -> (r: SlabState)
    requires
        slab_wf(s@),
        -FX_MAX <= a <= FX_MAX,
        -FX_MAX <= b <= FX_MAX,
        -FX_MAX <= o <= FX_MAX,
        -FX_MAX <= d <= FX_MAX,
    ensures
        r@ == axis_narrow(s@, a as int, b as int, o as int, d as int),
        slab_wf(r@),
{
    if !s.alive {
        s
    } else if d == 0 {
        let alive = a < o && o < b && rat_lt_e(s.ln, s.ld, s.hn, s.hd);
        SlabState { ln: s.ln, ld: s.ld, hn: s.hn, hd: s.hd, alive }
    } else {
        proof {
            lemma_mul_abs_le(a as int - o as int, FX_ONE as int, 0x2000_0000_0000, FX_ONE as int);
            lemma_mul_abs_le(o as int - a as int, FX_ONE as int, 0x2000_0000_0000, FX_ONE as int);
            lemma_mul_abs_le(b as int - o as int, FX_ONE as int, 0x2000_0000_0000, FX_ONE as int);
            lemma_mul_abs_le(o as int - b as int, FX_ONE as int, 0x2000_0000_0000, FX_ONE as int);
        }
        let den: i128 = if d > 0 {
            d as i128
        } else {
            -(d as i128)
        };
        let u: i128 = if d > 0 {
            ((a as i128) - (o as i128)) * (FX_ONE as i128)
        } else {
            ((o as i128) - (a as i128)) * (FX_ONE as i128)
        };
        let v: i128 = if d > 0 {
            ((b as i128) - (o as i128)) * (FX_ONE as i128)
        } else {
            ((o as i128) - (b as i128)) * (FX_ONE as i128)
        };
        let t0n = if u <= v {
            u
        } else {
            v
        };
        let t1n = if u <= v {
            v
        } else {
            u
        };
        let take_lo = rat_lt_e(s.ln, s.ld, t0n, den);
        let take_hi = rat_lt_e(t1n, den, s.hn, s.hd);
        let ln2 = if take_lo {
            t0n
        } else {
            s.ln
        };
        let ld2 = if take_lo {
            den
        } else {
            s.ld
        };
        let hn2 = if take_hi {
            t1n
        } else {
            s.hn
        };
        let hd2 = if take_hi {
            den
        } else {
            s.hd
        };
        let alive = rat_lt_e(ln2, ld2, hn2, hd2);
        SlabState { ln: ln2, ld: ld2, hn: hn2, hd: hd2, alive }
    }
}

/// Transitivity of the cross-multiplied order, `<=` then `<=`.
proof fn lemma_rat_le_le(pn: int, pd: int, qn: int, qd: int, rn: int, rd: int)
    requires
        0 < pd,
        0 < qd,
        0 < rd,
        rat_le(pn, pd, qn, qd),
        rat_le(qn, qd, rn, rd),
    ensures
        rat_le(pn, pd, rn, rd),
{
    assert(pn * rd <= rn * pd) by (nonlinear_arith)
        requires
            0 < pd,
            0 < qd,
            0 < rd,
            pn * qd <= qn * pd,
            qn * rd <= rn * qd,
    ;
}

/// Transitivity, `<=` then `<`.
proof fn lemma_rat_le_lt(pn: int, pd: int, qn: int, qd: int, rn: int, rd: int)
    requires
        0 < pd,
        0 < qd,
        0 < rd,
        rat_le(pn, pd, qn, qd),
        rat_lt(qn, qd, rn, rd),
    ensures
        rat_lt(pn, pd, rn, rd),
{
    assert(pn * rd < rn * pd) by (nonlinear_arith)
        requires
            0 < pd,
            0 < qd,
            0 < rd,
            pn * qd <= qn * pd,
            qn * rd < rn * qd,
    ;
}

/// Transitivity, `<` then `<=`.
proof fn lemma_rat_lt_le(pn: int, pd: int, qn: int, qd: int, rn: int, rd: int)
    requires
        0 < pd,
        0 < qd,
        0 < rd,
        rat_lt(pn, pd, qn, qd),
        rat_le(qn, qd, rn, rd),
    ensures
        rat_lt(pn, pd, rn, rd),
{
    assert(pn * rd < rn * pd) by (nonlinear_arith)
        requires
            0 < pd,
            0 < qd,
            0 < rd,
            pn * qd < qn * pd,
            qn * rd <= rn * qd,
    ;
}

/// A wider slab state: whenever the narrower one is alive, so is the wider
/// one, with its range containing the narrower range.
pub open spec fn slab_wider(u: Slab, s: Slab) -> bool {
    s.alive ==> (u.alive && rat_le(u.ln, u.ld, s.ln, s.ld) && rat_le(s.hn, s.hd, u.hn, u.hd))
}

pub open spec fn slab_pos(s: Slab) -> bool {
    0 < s.ld && 0 < s.hd
}

/// Narrowing by a wider slab keeps a wider state: one axis of the
/// monotonicity of the slab test under box widening. The narrower axis
/// interval must be ordered, as every box built from geometry is.
proof fn lemma_axis_wider(su: Slab, ss: Slab, ab: int, bb: int, a: int, b: int, o: int, d: int)
    requires
        slab_pos(su),
        slab_pos(ss),
        slab_wider(su, ss),
        ab <= a,
        a <= b,
        b <= bb,
    ensures
        slab_wider(axis_narrow(su, ab, bb, o, d), axis_narrow(ss, a, b, o, d)),
        slab_pos(axis_narrow(su, ab, bb, o, d)),
        slab_pos(axis_narrow(ss, a, b, o, d)),
{
    let ru = axis_narrow(su, ab, bb, o, d);
    let rs = axis_narrow(ss, a, b, o, d);
    if d != 0 && ss.alive {
        let den = if d > 0 {
            d
        } else {
            -d
        };
        let t0s = if d > 0 {
            (a - o) * (FX_ONE as int)
        } else {
            (o - b) * (FX_ONE as int)
        };
        let t1s = if d > 0 {
            (b - o) * (FX_ONE as int)
        } else {
            (o - a) * (FX_ONE as int)
        };
        let t0u = if d > 0 {
            (ab - o) * (FX_ONE as int)
        } else {
            (o - bb) * (FX_ONE as int)
        };
        let t1u = if d > 0 {
            (bb - o) * (FX_ONE as int)
        } else {
            (o - ab) * (FX_ONE as int)
        };
        if d > 0 {
            lemma_mul_le_mono(a - o, b - o, FX_ONE as int);
            lemma_mul_le_mono(ab - o, bb - o, FX_ONE as int);
            lemma_mul_le_mono(ab - o, a - o, FX_ONE as int);
            lemma_mul_le_mono(b - o, bb - o, FX_ONE as int);
        } else {
            lemma_mul_le_mono(o - b, o - a, FX_ONE as int);
            lemma_mul_le_mono(o - bb, o - ab, FX_ONE as int);
            lemma_mul_le_mono(o - bb, o - b, FX_ONE as int);
            lemma_mul_le_mono(o - a, o - ab, FX_ONE as int);
        }
        assert(t0s <= t1s);
        assert(t0u <= t1u);
        assert(t0u <= t0s);
        assert(t1s <= t1u);
        lemma_mul_le_mono(t0u, t0s, den);
        lemma_mul_le_mono(t1s, t1u, den);
        assert(rat_le(t0u, den, t0s, den));
        assert(rat_le(t1s, den, t1u, den));
        // The narrowed lower ends stay ordered, by cases on which side each
        // run took.
        let take_lo_s = rat_lt(ss.ln, ss.ld, t0s, den);
        let take_lo_u = rat_lt(su.ln, su.ld, t0u, den);
        if take_lo_u && !take_lo_s {
            lemma_rat_le_le(t0u, den, t0s, den, ss.ln, ss.ld);
        }
        if !take_lo_u && take_lo_s {
            lemma_rat_le_lt(su.ln, su.ld, ss.ln, ss.ld, t0s, den);
        }
        assert(rat_le(ru.ln, ru.ld, rs.ln, rs.ld));
        let take_hi_s = rat_lt(t1s, den, ss.hn, ss.hd);
        let take_hi_u = rat_lt(t1u, den, su.hn, su.hd);
        if take_hi_u && !take_hi_s {
            lemma_rat_le_le(ss.hn, ss.hd, t1s, den, t1u, den);
        }
        if !take_hi_u && take_hi_s {
            lemma_rat_lt_le(t1s, den, ss.hn, ss.hd, su.hn, su.hd);
        }
        assert(rat_le(rs.hn, rs.hd, ru.hn, ru.hd));
        if rs.alive {
            lemma_rat_le_lt(ru.ln, ru.ld, rs.ln, rs.ld, rs.hn, rs.hd);
            lemma_rat_lt_le(ru.ln, ru.ld, rs.hn, rs.hd, ru.hn, ru.hd);
        }
    } else if d == 0 && ss.alive && rs.alive {
        lemma_rat_le_lt(su.ln, su.ld, ss.ln, ss.ld, ss.hn, ss.hd);
        lemma_rat_lt_le(su.ln, su.ld, ss.hn, ss.hd, su.hn, su.hd);
    }
}

/// One box covers another when each axis interval contains the other's.
pub open spec fn box_covers(big: AabbV, small: AabbV) -> bool {
    big.x.min <= small.x.min && small.x.max <= big.x.max && big.y.min <= small.y.min
        && small.y.max <= big.y.max && big.z.min <= small.z.min && small.z.max <= big.z.max
}

/// Monotonicity of the slab test: a ray that hits a box inside some
/// parameter range hits every covering box inside the same range.
pub proof fn lemma_covering_box_hit(big: AabbV, small: AabbV, r: RayV, tmin: int, tmax: int)
    requires
        box_covers(big, small),
        box_sorted(small),
        box_hit_s(small, r, tmin, tmax),
    ensures
        box_hit_s(big, r, tmin, tmax),
{
    let s0 = Slab { ln: tmin, ld: 1, hn: tmax, hd: 1, alive: true };
    let s1s = axis_narrow(s0, cl(small.x.min), cl(small.x.max), cl(r.origin.x), cl(r.dir.x));
    let s2s = axis_narrow(s1s, cl(small.y.min), cl(small.y.max), cl(r.origin.y), cl(r.dir.y));
    let s1u = axis_narrow(s0, cl(big.x.min), cl(big.x.max), cl(r.origin.x), cl(r.dir.x));
    let s2u = axis_narrow(s1u, cl(big.y.min), cl(big.y.max), cl(r.origin.y), cl(r.dir.y));
    lemma_axis_wider(
        s0,
        s0,
        cl(big.x.min),
        cl(big.x.max),
        cl(small.x.min),
        cl(small.x.max),
        cl(r.origin.x),
        cl(r.dir.x),
    );
    lemma_axis_wider(
        s1u,
        s1s,
        cl(big.y.min),
        cl(big.y.max),
        cl(small.y.min),
        cl(small.y.max),
        cl(r.origin.y),
        cl(r.dir.y),
    );
    lemma_axis_wider(
        s2u,
        s2s,
        cl(big.z.min),
        cl(big.z.max),
        cl(small.z.min),
        cl(small.z.max),
        cl(r.origin.z),
        cl(r.dir.z),
    );
}

/// Joining a box with itself changes nothing.
pub proof fn lemma_enclose_self(a: AabbV)
    ensures
        box_enclose_s(a, a) == a,
{
}

/// Hitting either box implies hitting the box that encloses both, for
/// boxes of real geometry (ordered endpoints on every axis).
pub proof fn lemma_enclose_box_hit(a: AabbV, b: AabbV, r: RayV, tmin: int, tmax: int)
    requires
        box_sorted(a),
        box_sorted(b),
        box_hit_s(a, r, tmin, tmax) || box_hit_s(b, r, tmin, tmax),
    ensures
        box_hit_s(box_enclose_s(a, b), r, tmin, tmax),
{
    if box_hit_s(a, r, tmin, tmax) {
        lemma_covering_box_hit(box_enclose_s(a, b), a, r, tmin, tmax);
    } else {
        lemma_covering_box_hit(box_enclose_s(a, b), b, r, tmin, tmax);
    }
}

/// An axis-aligned bounding box: one interval per axis.
#[derive(Clone, Copy, Debug, PartialEq, Eq, Structural)]
pub struct Aabb {
    pub x: Interval,
    pub y: Interval,
    pub z: Interval,
}

impl View for Aabb {
    type V = AabbV;

    open spec fn view(&self) -> AabbV {
        aabbv(self.x@, self.y@, self.z@)
    }
}

impl Aabb {
    pub fn new(x: Interval, y: Interval, z: Interval) -> (r: Aabb)
        ensures
            r@ == aabbv(x@, y@, z@),
    {
        Aabb { x, y, z }
    }

    /// The box with two given points as opposite corners.
    pub fn new_from_points(a: Point, b: Point) -> (r: Aabb)
        ensures
            r@ == box_from_points_s(a@, b@),
            box_sorted(r@),
    {
        let x = if a.x <= b.x {
            Interval::new(a.x, b.x)
        } else {
            Interval::new(b.x, a.x)
        };
        let y = if a.y <= b.y {
            Interval::new(a.y, b.y)
        } else {
            Interval::new(b.y, a.y)
        };
        let z = if a.z <= b.z {
            Interval::new(a.z, b.z)
        } else {
            Interval::new(b.z, a.z)
        };
        Aabb { x, y, z }
    }

    /// The box enclosing two boxes.
    pub fn new_from_boxes(a: &Aabb, b: &Aabb) -> (r: Aabb)
        ensures
            r@ == box_enclose_s(a@, b@),
    {
        Aabb {
            x: Interval::new_enclose_both(&a.x, &b.x),
            y: Interval::new_enclose_both(&a.y, &b.y),
            z: Interval::new_enclose_both(&a.z, &b.z),
        }
    }

    /// The slab test against the parameter range of `ray_t`.
    pub fn hit(&self, ray: &Ray, ray_t: Interval) -> (r: bool)
        ensures
            r == box_hit_s(self@, ray@, ray_t@.min, ray_t@.max),
    {
        let s0 = SlabState {
            ln: ray_t.min as i128,
            ld: 1,
            hn: ray_t.max as i128,
            hd: 1,
            alive: true,
        };
        let s1 = axis_step(
            s0,
            fx_clamp(self.x.min),
            fx_clamp(self.x.max),
            fx_clamp(ray.origin.x),
            fx_clamp(ray.dir.x),
        );
        let s2 = axis_step(
            s1,
            fx_clamp(self.y.min),
            fx_clamp(self.y.max),
            fx_clamp(ray.origin.y),
            fx_clamp(ray.dir.y),
        );
        let s3 = axis_step(
            s2,
            fx_clamp(self.z.min),
            fx_clamp(self.z.max),
            fx_clamp(ray.origin.z),
            fx_clamp(ray.dir.z),
        );
        s3.alive
    }
}

} // verus!
