//! Three-component vectors over fixed-point scalars.
//!
//! The mathematical model of a vector is `V3`, a triple of unbounded
//! integers (raw fixed-point values); every executable operation is
//! specified exactly by a spec function over `V3`.

use crate::fixed::{
    clip, div_trunc, fx_clip, fxadd, fxadd_s, fxdiv, fxdiv_s, fxmul, fxmul_s, fxneg, fxneg_s,
    fxsqrt, fxsqrt_s, fxsub, fxsub_s, lemma_mul_abs_le, pclip, prod_clip, tdiv, FX_MAX, FX_ONE,
};
use crate::rng::{chacha_u64, sym_sample, unit_sample, Rng};
use vstd::prelude::*;

verus! {

/// The model of a vector: a triple of raw fixed-point values as integers.
pub ghost struct V3 {
    pub x: int,
    pub y: int,
    pub z: int,
}

/// Model-level constructor.
pub open spec fn v3(x: int, y: int, z: int) -> V3 {
    V3 { x, y, z }
}

pub open spec fn zero_v() -> V3 {
    v3(0, 0, 0)
}

pub open spec fn add_v(a: V3, b: V3) -> V3 {
    v3(fxadd_s(a.x, b.x), fxadd_s(a.y, b.y), fxadd_s(a.z, b.z))
}

pub open spec fn sub_v(a: V3, b: V3) -> V3 {
    v3(fxsub_s(a.x, b.x), fxsub_s(a.y, b.y), fxsub_s(a.z, b.z))
}

pub open spec fn neg_v(a: V3) -> V3 {
    v3(fxneg_s(a.x), fxneg_s(a.y), fxneg_s(a.z))
}

/// Componentwise (Hadamard) product, used for attenuation tints.
pub open spec fn mul_v(a: V3, b: V3) -> V3 {
    v3(fxmul_s(a.x, b.x), fxmul_s(a.y, b.y), fxmul_s(a.z, b.z))
}

/// Scaling by a fixed-point scalar.
pub open spec fn scale_v(a: V3, s: int) -> V3 {
    v3(fxmul_s(a.x, s), fxmul_s(a.y, s), fxmul_s(a.z, s))
}

/// Every channel lies within the saturation range; true of the result of
/// every vector operation.
pub open spec fn bounded_v(c: V3) -> bool {
    -FX_MAX <= c.x <= FX_MAX && -FX_MAX <= c.y <= FX_MAX && -FX_MAX <= c.z <= FX_MAX
}

/// Componentwise division by a fixed-point scalar.
pub open spec fn divs_v(a: V3, s: int) -> V3 {
    v3(fxdiv_s(a.x, s), fxdiv_s(a.y, s), fxdiv_s(a.z, s))
}

/// The fixed-point dot product: double-width products, each saturated at
/// the product cap, summed and scaled back down.
pub open spec fn dot_v(a: V3, b: V3) -> int {
    clip(
        tdiv(pclip(a.x * b.x) + pclip(a.y * b.y) + pclip(a.z * b.z), FX_ONE as int),
        FX_MAX as int,
    )
}

/// One component of the cross product: `(a*b - c*d) / FX_ONE`, saturated.
pub open spec fn cross_term_s(a: int, b: int, c: int, d: int) -> int {
    clip(tdiv(pclip(a * b) - pclip(c * d), FX_ONE as int), FX_MAX as int)
}

pub open spec fn cross_v(a: V3, b: V3) -> V3 {
    v3(
        cross_term_s(a.y, b.z, a.z, b.y),
        cross_term_s(a.z, b.x, a.x, b.z),
        cross_term_s(a.x, b.y, a.y, b.x),
    )
}

pub open spec fn len2_v(a: V3) -> int {
    dot_v(a, a)
}

pub open spec fn len_v(a: V3) -> int {
    fxsqrt_s(len2_v(a))
}

/// Normalization; the zero vector (whose length is zero) maps to itself.
pub open spec fn unit_v(a: V3) -> V3 {
    let l = len_v(a);
    if l == 0 {
        zero_v()
    } else {
        v3(fxdiv_s(a.x, l), fxdiv_s(a.y, l), fxdiv_s(a.z, l))
    }
}

/// A vector all of whose components round to zero at the fixed-point
/// resolution; such a direction is too short to scatter along.
pub open spec fn near_zero_v(a: V3) -> bool {
    a.x == 0 && a.y == 0 && a.z == 0
}

/// Mirror reflection of `d` about the normal `n`: `d - 2 (d·n) n`.
pub open spec fn reflect_v(d: V3, n: V3) -> V3 {
    sub_v(d, scale_v(n, fxadd_s(dot_v(d, n), dot_v(d, n))))
}

/// Refraction of the unit direction `uv` at a surface with normal `n` and
/// relative refraction index `eta`, by perpendicular/parallel decomposition.
pub open spec fn refract_v(uv: V3, n: V3, eta: int) -> V3 {
    let c0 = dot_v(neg_v(uv), n);
    let cos = if c0 > FX_ONE as int {
        FX_ONE as int
    } else {
        c0
    };
    let perp = scale_v(add_v(uv, scale_v(n, cos)), eta);
    let k = fxsub_s(FX_ONE as int, dot_v(perp, perp));
    let kabs = if k < 0 {
        -k
    } else {
        k
    };
    let par = scale_v(n, fxneg_s(fxsqrt_s(kabs)));
    add_v(perp, par)
}

/// A point is a vector used as a position.
pub type Point = Vec3;

/// A three-component fixed-point vector.
#[derive(Clone, Copy, Debug, PartialEq, Eq, Structural)]
pub struct Vec3 {
    pub x: i64,
    pub y: i64,
    pub z: i64,
}

impl View for Vec3 {
    type V = V3;

    open spec fn view(&self) -> V3 {
        v3(self.x as int, self.y as int, self.z as int)
    }
}

impl Vec3 {
    pub fn new(x: i64, y: i64, z: i64) -> (r: Vec3)
        ensures
            r@ == v3(x as int, y as int, z as int),
    {
        Vec3 { x, y, z }
    }

    pub fn zero() -> (r: Vec3)
        ensures
            r@ == zero_v(),
    {
        Vec3 { x: 0, y: 0, z: 0 }
    }

    pub fn vadd(&self, o: &Vec3) -> (r: Vec3)
        ensures
            r@ == add_v(self@, o@),
    {
        Vec3 { x: fxadd(self.x, o.x), y: fxadd(self.y, o.y), z: fxadd(self.z, o.z) }
    }

    pub fn vsub(&self, o: &Vec3) -> (r: Vec3)
        ensures
            r@ == sub_v(self@, o@),
    {
        Vec3 { x: fxsub(self.x, o.x), y: fxsub(self.y, o.y), z: fxsub(self.z, o.z) }
    }

    pub fn vneg(&self) -> (r: Vec3)
        ensures
            r@ == neg_v(self@),
    {
        Vec3 { x: fxneg(self.x), y: fxneg(self.y), z: fxneg(self.z) }
    }

    pub fn vmul(&self, o: &Vec3) -> (r: Vec3)
        ensures
            r@ == mul_v(self@, o@),
    {
        Vec3 { x: fxmul(self.x, o.x), y: fxmul(self.y, o.y), z: fxmul(self.z, o.z) }
    }

    pub fn scale(&self, s: i64) -> (r: Vec3)
        ensures
            r@ == scale_v(self@, s as int),
    {
        Vec3 { x: fxmul(self.x, s), y: fxmul(self.y, s), z: fxmul(self.z, s) }
    }

    /// Componentwise division by a scalar.
    pub fn vdiv(&self, s: i64) -> (r: Vec3)
        ensures
            r@ == divs_v(self@, s as int),
    {
        Vec3 { x: fxdiv(self.x, s), y: fxdiv(self.y, s), z: fxdiv(self.z, s) }
    }

    pub fn dot(&self, o: &Vec3) -> (r: i64)
        ensures
            r as int == dot_v(self@, o@),
    {
        proof {
            lemma_mul_abs_le(
                self.x as int,
                o.x as int,
                0x8000_0000_0000_0000,
                0x8000_0000_0000_0000,
            );
            lemma_mul_abs_le(
                self.y as int,
                o.y as int,
                0x8000_0000_0000_0000,
                0x8000_0000_0000_0000,
            );
            lemma_mul_abs_le(
                self.z as int,
                o.z as int,
                0x8000_0000_0000_0000,
                0x8000_0000_0000_0000,
            );
        }
        let px = prod_clip((self.x as i128) * (o.x as i128));
        let py = prod_clip((self.y as i128) * (o.y as i128));
        let pz = prod_clip((self.z as i128) * (o.z as i128));
        let q = div_trunc(px + py + pz, FX_ONE as i128);
        fx_clip(q)
    }

    pub fn cross(&self, o: &Vec3) -> (r: Vec3)
        ensures
            r@ == cross_v(self@, o@),
    {
        Vec3 {
            x: cross_term(self.y, o.z, self.z, o.y),
            y: cross_term(self.z, o.x, self.x, o.z),
            z: cross_term(self.x, o.y, self.y, o.x),
        }
    }

    pub fn length_squared(&self) -> (r: i64)
        ensures
            r as int == len2_v(self@),
    {
        self.dot(self)
    }

    pub fn length(&self) -> (r: i64)
        ensures
            r as int == len_v(self@),
    {
        fxsqrt(self.length_squared())
    }

    pub fn unit_vector(&self) -> (r: Vec3)
        ensures
            r@ == unit_v(self@),
    {
        let l = self.length();
        if l == 0 {
            Vec3::zero()
        } else {
            Vec3 { x: fxdiv(self.x, l), y: fxdiv(self.y, l), z: fxdiv(self.z, l) }
        }
    }

    pub fn near_zero(&self) -> (r: bool)
        ensures
            r == near_zero_v(self@),
    {
        self.x == 0 && self.y == 0 && self.z == 0
    }

    /// Mirror reflection about the normal `n`.
    pub fn reflect(&self, n: &Vec3) -> (r: Vec3)
        ensures
            r@ == reflect_v(self@, n@),
    {
        let k = self.dot(n);
        self.vsub(&n.scale(fxadd(k, k)))
    }

    /// Refraction at a surface; `self` must be the unit incoming direction.
    pub fn refract(&self, n: &Vec3, eta: i64) -> (r: Vec3)
        ensures
            r@ == refract_v(self@, n@, eta as int),
    {
        let c0 = self.vneg().dot(n);
        let cos = if c0 > FX_ONE {
            FX_ONE
        } else {
            c0
        };
        let perp = self.vadd(&n.scale(cos)).scale(eta);
        let k = fxsub(FX_ONE, perp.length_squared());
        let kabs = if k < 0 {
            -k
        } else {
            k
        };
        let par = n.scale(fxneg(fxsqrt(kabs)));
        perp.vadd(&par)
    }
}

/// One component of the cross product.
fn cross_term(a: i64, b: i64, c: i64, d: i64) -> (r: i64)
    ensures
        r as int == cross_term_s(a as int, b as int, c as int, d as int),
{
    proof {
        lemma_mul_abs_le(a as int, b as int, 0x8000_0000_0000_0000, 0x8000_0000_0000_0000);
        lemma_mul_abs_le(c as int, d as int, 0x8000_0000_0000_0000, 0x8000_0000_0000_0000);
    }
    let p = prod_clip((a as i128) * (b as i128));
    let q = prod_clip((c as i128) * (d as i128));
    let t = div_trunc(p - q, FX_ONE as i128);
    fx_clip(t)
}

/// Number of attempts a rejection sampler makes before falling back to a
/// fixed direction; the chance of exhausting them is astronomically small.
pub const RETRY_CAP: u32 = 64;

/// One component of a range sample: `min + u * (max - min)` for a unit
/// sample `u`.
pub open spec fn range_comp(w: u64, min: int, max: int) -> int {
    fxadd_s(min, fxmul_s(unit_sample(w), fxsub_s(max, min)))
}

/// Three consecutive draws mapped into `[min, max)` componentwise.
pub open spec fn range_sample_v(seed: u64, pos: nat, min: int, max: int) -> V3 {
    v3(
        range_comp(chacha_u64(seed, pos), min, max),
        range_comp(chacha_u64(seed, pos + 1), min, max),
        range_comp(chacha_u64(seed, pos + 2), min, max),
    )
}

/// Three consecutive draws as a point of the unit cube `[0, 1)^3`.
pub open spec fn cube_sample_v(seed: u64, pos: nat) -> V3 {
    v3(
        unit_sample(chacha_u64(seed, pos)),
        unit_sample(chacha_u64(seed, pos + 1)),
        unit_sample(chacha_u64(seed, pos + 2)),
    )
}

/// The rejection sampler for a unit direction, with `tries` attempts left:
/// a cube sample in `[-1, 1)^3` is kept and normalized when its squared
/// length lies in `(0, 1]`; when every attempt is rejected the fallback is
/// the `x` axis. Yields the sampled direction and the new stream position.
pub open spec fn random_unit_r(seed: u64, pos: nat, tries: nat) -> (V3, nat)
    decreases tries,
{
    if tries == 0 {
        (v3(FX_ONE as int, 0, 0), pos)
    } else {
        let v = range_sample_v(seed, pos, -FX_ONE as int, FX_ONE as int);
        let l2 = len2_v(v);
        if 0 < l2 && l2 <= FX_ONE as int {
            (unit_v(v), pos + 3)
        } else {
            random_unit_r(seed, pos + 3, (tries - 1) as nat)
        }
    }
}

pub open spec fn random_unit_v(seed: u64, pos: nat) -> (V3, nat) {
    random_unit_r(seed, pos, RETRY_CAP as nat)
}

/// The rejection sampler for a point of the unit disk, with `tries`
/// attempts left; the fallback is the disk center.
pub open spec fn random_disk_r(seed: u64, pos: nat, tries: nat) -> (V3, nat)
    decreases tries,
{
    if tries == 0 {
        (zero_v(), pos)
    } else {
        let p = v3(sym_sample(chacha_u64(seed, pos)), sym_sample(chacha_u64(seed, pos + 1)), 0);
        if len2_v(p) < FX_ONE as int {
            (p, pos + 2)
        } else {
            random_disk_r(seed, pos + 2, (tries - 1) as nat)
        }
    }
}

pub open spec fn random_disk_v(seed: u64, pos: nat) -> (V3, nat) {
    random_disk_r(seed, pos, RETRY_CAP as nat)
}

/// A unit sample reflected into the hemisphere around `normal`.
pub open spec fn random_hemisphere_v(seed: u64, pos: nat, normal: V3) -> (V3, nat) {
    let (u, p) = random_unit_v(seed, pos);
    if dot_v(u, normal) > 0 {
        (u, p)
    } else {
        (neg_v(u), p)
    }
}

impl Vec3 {
    /// A point of the unit cube `[0, 1)^3`.
    pub fn random(rng: &mut Rng) -> (r: Vec3)
        ensures
            r@ == cube_sample_v(old(rng).seed(), old(rng).pos()),
            final(rng).seed() == old(rng).seed(),
            final(rng).pos() == old(rng).pos() + 3,
    {
        let x = rng.next_unit();
        let y = rng.next_unit();
        let z = rng.next_unit();
        Vec3 { x, y, z }
    }

    /// A vector with each component uniform in `[min, max)`.
    pub fn random_range(rng: &mut Rng, min: i64, max: i64) -> (r: Vec3)
        ensures
            r@ == range_sample_v(old(rng).seed(), old(rng).pos(), min as int, max as int),
            final(rng).seed() == old(rng).seed(),
            final(rng).pos() == old(rng).pos() + 3,
    {
        let x = rng.next_unit();
        let y = rng.next_unit();
        let z = rng.next_unit();
        let d = fxsub(max, min);
        Vec3 { x: fxadd(min, fxmul(x, d)), y: fxadd(min, fxmul(y, d)), z: fxadd(min, fxmul(z, d)) }
    }

    /// A direction of (approximately) unit length, sampled uniformly on the
    /// sphere by rejection.
    pub fn random_unit(rng: &mut Rng) -> (r: Vec3)
        ensures
            r@ == random_unit_v(old(rng).seed(), old(rng).pos()).0,
            final(rng).pos() == random_unit_v(old(rng).seed(), old(rng).pos()).1,
            final(rng).seed() == old(rng).seed(),
    {
        let ghost s = rng.seed();
        let ghost p0 = rng.pos();
        let mut tries: u32 = RETRY_CAP;
        while tries > 0
            invariant
                s == old(rng).seed(),
                p0 == old(rng).pos(),
                rng.seed() == s,
                tries <= RETRY_CAP,
                random_unit_r(s, p0, RETRY_CAP as nat) == random_unit_r(
                    s,
                    rng.pos(),
                    tries as nat,
                ),
            decreases tries,
        {
            let ghost ph = rng.pos();
            let v = Vec3::random_range(rng, -FX_ONE, FX_ONE);
            let l2 = v.length_squared();
            if 0 < l2 && l2 <= FX_ONE {
                return v.unit_vector();
            }
            tries = tries - 1;
        }
        Vec3::new(FX_ONE, 0, 0)
    }

    /// A unit sample on the hemisphere around `normal`.
    pub fn random_on_hemisphere(rng: &mut Rng, normal: &Vec3) -> (r: Vec3)
        ensures
            r@ == random_hemisphere_v(old(rng).seed(), old(rng).pos(), normal@).0,
            final(rng).pos() == random_hemisphere_v(old(rng).seed(), old(rng).pos(), normal@).1,
            final(rng).seed() == old(rng).seed(),
    {
        let u = Vec3::random_unit(rng);
        if u.dot(normal) > 0 {
            u
        } else {
            u.vneg()
        }
    }

    /// A point of the unit disk in the `xy` plane, sampled by rejection.
    pub fn random_in_unit_disk(rng: &mut Rng) -> (r: Vec3)
        ensures
            r@ == random_disk_v(old(rng).seed(), old(rng).pos()).0,
            final(rng).pos() == random_disk_v(old(rng).seed(), old(rng).pos()).1,
            final(rng).seed() == old(rng).seed(),
    {
        let ghost s = rng.seed();
        let ghost p0 = rng.pos();
        let mut tries: u32 = RETRY_CAP;
        while tries > 0
            invariant
                s == old(rng).seed(),
                p0 == old(rng).pos(),
                rng.seed() == s,
                tries <= RETRY_CAP,
                random_disk_r(s, p0, RETRY_CAP as nat) == random_disk_r(
                    s,
                    rng.pos(),
                    tries as nat,
                ),
            decreases tries,
        {
            let x = rng.next_sym();
            let y = rng.next_sym();
            let p = Vec3 { x, y, z: 0 };
            if p.length_squared() < FX_ONE {
                return p;
            }
            tries = tries - 1;
        }
        Vec3::zero()
    }
}

/// A vector's dot product with itself is nonnegative.
pub proof fn lemma_dot_self_nonneg(a: V3)
    ensures
        0 <= dot_v(a, a),
{
    assert(0 <= a.x * a.x && 0 <= a.y * a.y && 0 <= a.z * a.z) by (nonlinear_arith);
    crate::fixed::lemma_tdiv_nonneg(
        pclip(a.x * a.x) + pclip(a.y * a.y) + pclip(a.z * a.z),
        FX_ONE as int,
    );
}

/// The exact (unscaled, unsaturated) dot product of integer vectors, the
/// mathematical reading of `dot_v` before rounding.
pub open spec fn dot_exact(a: V3, b: V3) -> int {
    a.x * b.x + a.y * b.y + a.z * b.z
}

/// The exact mirror reflection `d - 2 (d·n) n` over integer vectors.
pub open spec fn reflect_exact(d: V3, n: V3) -> V3 {
    v3(
        d.x - 2 * dot_exact(d, n) * n.x,
        d.y - 2 * dot_exact(d, n) * n.y,
        d.z - 2 * dot_exact(d, n) * n.z,
    )
}

/// Reflection in the exact model: for every direction `d` and normal `n`,
/// writing `k = d·n` and `u = n·n`, the reflected direction `r` satisfies
/// `r·r == d·d + 4k²(u − 1)` and `r·n == k(1 − 2u)`. For a unit normal
/// (`u == 1`) this says exactly that reflection preserves the squared
/// length and reverses the component along the normal.
/// Expansion of one reflected component: its square, and its product with
/// the normal component.
proof fn lemma_reflect_comp(dc: int, nc: int, k: int)
    ensures
        (dc - 2 * k * nc) * (dc - 2 * k * nc) == dc * dc - 4 * (k * (dc * nc)) + 4 * ((k * k) * (nc
            * nc)),
        (dc - 2 * k * nc) * nc == dc * nc - 2 * (k * (nc * nc)),
{
    assert((dc - 2 * k * nc) * (dc - 2 * k * nc) == dc * dc - 4 * (k * (dc * nc)) + 4 * ((k * k) * (
    nc * nc))) by (nonlinear_arith);
    assert((dc - 2 * k * nc) * nc == dc * nc - 2 * (k * (nc * nc))) by (nonlinear_arith);
}

pub proof fn lemma_reflect_exact(d: V3, n: V3)
    ensures
        dot_exact(reflect_exact(d, n), reflect_exact(d, n)) == dot_exact(d, d) + 4 * dot_exact(
            d,
            n,
        ) * dot_exact(d, n) * (dot_exact(n, n) - 1),
        dot_exact(reflect_exact(d, n), n) == dot_exact(d, n) * (1 - 2 * dot_exact(n, n)),
{
    let k = dot_exact(d, n);
    let u = dot_exact(n, n);
    lemma_reflect_comp(d.x, n.x, k);
    lemma_reflect_comp(d.y, n.y, k);
    lemma_reflect_comp(d.z, n.z, k);
    assert(k * (d.x * n.x) + k * (d.y * n.y) + k * (d.z * n.z) == k * k) by (nonlinear_arith)
        requires
            k == d.x * n.x + d.y * n.y + d.z * n.z,
    ;
    assert((k * k) * (n.x * n.x) + (k * k) * (n.y * n.y) + (k * k) * (n.z * n.z) == (k * k)
        * u) by (nonlinear_arith)
        requires
            u == n.x * n.x + n.y * n.y + n.z * n.z,
    ;
    assert(4 * k * k * (u - 1) == 4 * ((k * k) * u) - 4 * (k * k)) by (nonlinear_arith);
    assert(k * (n.x * n.x) + k * (n.y * n.y) + k * (n.z * n.z) == k * u) by (nonlinear_arith)
        requires
            u == n.x * n.x + n.y * n.y + n.z * n.z,
    ;
    assert(k * (1 - 2 * u) == k - 2 * (k * u)) by (nonlinear_arith);
}

/// Reflection about an exactly unit normal preserves the squared length and
/// negates the projection on the normal.
pub proof fn lemma_reflect_unit(d: V3, n: V3)
    requires
        dot_exact(n, n) == 1,
    ensures
        dot_exact(reflect_exact(d, n), reflect_exact(d, n)) == dot_exact(d, d),
        dot_exact(reflect_exact(d, n), n) == -dot_exact(d, n),
{
    lemma_reflect_exact(d, n);
    let k = dot_exact(d, n);
    assert(4 * k * k * (1int - 1) == 0) by (nonlinear_arith);
    assert(k * (1 - 2 * 1int) == -k) by (nonlinear_arith);
}

} // verus!
