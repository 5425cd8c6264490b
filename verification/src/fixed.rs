//! Fixed-point scalars.
//!
//! A scalar is an `i64` raw value counting units of `1 / FX_ONE`, so the
//! represented quantity is `raw / FX_ONE`. Multiplicative operations divide
//! the double-width product by `FX_ONE`, rounding toward zero, and every
//! operation saturates at `±FX_MAX`, so all operations are total: no input
//! is rejected and no operation panics or overflows.

use vstd::arithmetic::div_mod::{lemma_fundamental_div_mod, lemma_remainder_lower, lemma_remainder_upper};
use vstd::math::abs;
use vstd::prelude::*;

verus! {

/// One, as a raw scalar value: 16 fractional bits.
pub const FX_ONE: i64 = 65536;

/// Largest raw magnitude a scalar may take; arithmetic saturates here.
pub const FX_MAX: i64 = 0x1000_0000_0000;

/// A raw value strictly above every saturated scalar, used as the
/// "unbounded" endpoint of parameter intervals.
pub const FX_INF: i64 = 0x1000_0000_0001;

/// Cap kept on each double-width product before products are summed, so that
/// a sum of three such products stays representable; values of ordinary scene
/// scale never reach it.
pub const PROD_CAP: i128 = 0x10_0000_0000_0000_0000_0000_0000;

/// Saturation of a mathematical integer into `[-bound, bound]`.
pub open spec fn clip(v: int, bound: int) -> int {
    if v > bound {
        bound
    } else if v < -bound {
        -bound
    } else {
        v
    }
}

/// Division rounding toward zero, the rounding the machine performs on
/// magnitudes; `b` must not be zero for the value to be meaningful.
pub open spec fn tdiv(a: int, b: int) -> int
    recommends
        b != 0,
{
    if (a >= 0) == (b > 0) {
        abs(a) as int / abs(b) as int
    } else {
        -(abs(a) as int / abs(b) as int)
    }
}

/// The scalar product of two raw scalars: the double-width product, scaled
/// back down and saturated.
pub open spec fn fxmul_s(a: int, b: int) -> int {
    clip(tdiv(a * b, FX_ONE as int), FX_MAX as int)
}

/// The scalar quotient of two raw scalars; a zero divisor yields zero.
pub open spec fn fxdiv_s(a: int, b: int) -> int {
    if b == 0 {
        0
    } else {
        clip(tdiv(a * (FX_ONE as int), b), FX_MAX as int)
    }
}

/// Saturating addition of raw scalars.
pub open spec fn fxadd_s(a: int, b: int) -> int {
    clip(a + b, FX_MAX as int)
}

/// Saturating subtraction of raw scalars.
pub open spec fn fxsub_s(a: int, b: int) -> int {
    clip(a - b, FX_MAX as int)
}

/// Saturating negation of a raw scalar.
pub open spec fn fxneg_s(a: int) -> int {
    clip(-a, FX_MAX as int)
}

/// The integer square root: the greatest `r` with `r * r <= n`, defined by
/// primitive recursion.
pub open spec fn isqrt_s(n: nat) -> nat
    decreases n,
{
    if n == 0 {
        0
    } else {
        let p = isqrt_s((n - 1) as nat);
        if (p + 1) * (p + 1) <= n {
            p + 1
        } else {
            p
        }
    }
}

/// The square root of a raw scalar, as a raw scalar: nonpositive inputs
/// yield zero.
pub open spec fn fxsqrt_s(a: int) -> int {
    if a <= 0 {
        0
    } else {
        isqrt_s((a * (FX_ONE as int)) as nat) as int
    }
}

/// `isqrt_s(n)` brackets `n` between consecutive squares.
pub proof fn lemma_isqrt_brackets(n: nat)
    ensures
        isqrt_s(n) * isqrt_s(n) <= n,
        n < (isqrt_s(n) + 1) * (isqrt_s(n) + 1),
    decreases n,
{
    if n == 0 {
        assert(isqrt_s(0) == 0);
        assert((0nat + 1) * (0nat + 1) == 1) by (nonlinear_arith);
    } else {
        let m = (n - 1) as nat;
        let p = isqrt_s(m);
        lemma_isqrt_brackets(m);
        assert(p * p <= m);
        assert(m < (p + 1) * (p + 1));
        if (p + 1) * (p + 1) <= n {
            assert(isqrt_s(n) == p + 1);
            assert(n <= (p + 1) * (p + 1));
            assert(n < (p + 2) * (p + 2)) by (nonlinear_arith)
                requires
                    n <= (p + 1) * (p + 1),
            ;
        } else {
            assert(isqrt_s(n) == p);
            assert(p * p <= n);
        }
    }
}

/// The bracket between consecutive squares determines the root uniquely.
pub proof fn lemma_isqrt_unique(n: nat, r: nat)
    requires
        r * r <= n,
        n < (r + 1) * (r + 1),
    ensures
        r == isqrt_s(n),
{
    lemma_isqrt_brackets(n);
    let s = isqrt_s(n);
    assert(r == s) by (nonlinear_arith)
        requires
            r * r <= n,
            n < (r + 1) * (r + 1),
            s * s <= n,
            n < (s + 1) * (s + 1),
    ;
}

/// Saturation of a double-width value into an `i64` scalar.
pub fn fx_clip(v: i128) -> (r: i64)
    ensures
        r as int == clip(v as int, FX_MAX as int),
{
    if v > FX_MAX as i128 {
        FX_MAX
    } else if v < -(FX_MAX as i128) {
        -FX_MAX
    } else {
        v as i64
    }
}

/// Saturation of a double-width product at `±PROD_CAP`.
pub open spec fn pclip(v: int) -> int {
    clip(v, PROD_CAP as int)
}

/// Exec counterpart of `pclip`.
pub fn prod_clip(v: i128) -> (r: i128)
    ensures
        r as int == pclip(v as int),
{
    if v > PROD_CAP {
        PROD_CAP
    } else if v < -PROD_CAP {
        -PROD_CAP
    } else {
        v
    }
}

/// Double-width division rounding toward zero, for a positive divisor.
pub fn div_trunc(a: i128, b: i128) -> (r: i128)
    requires
        0 < b,
        i128::MIN < a,
    ensures
        r as int == tdiv(a as int, b as int),
{
    if a >= 0 {
        let q: u128 = (a as u128) / (b as u128);
        q as i128
    } else {
        let m: u128 = (-a) as u128;
        let q: u128 = m / (b as u128);
        assert(q <= m) by {
            lemma_div_le_dividend(m as nat, b as nat);
        }
        -(q as i128)
    }
}

proof fn lemma_div_le_dividend(a: nat, b: nat)
    requires
        1 <= b,
    ensures
        a / b <= a,
{
    lemma_fundamental_div_mod(a as int, b as int);
    assert(a / b <= a) by (nonlinear_arith)
        requires
            a == b * (a / b) + a % b,
            0 <= a % b,
            1 <= b,
            0 <= a / b,
    ;
}

/// Truncating division is monotone in the numerator, for a positive
/// divisor.
pub proof fn lemma_tdiv_mono(a1: int, a2: int, b: int)
    requires
        a1 <= a2,
        0 < b,
    ensures
        tdiv(a1, b) <= tdiv(a2, b),
{
    if 0 <= a1 {
        vstd::arithmetic::div_mod::lemma_div_is_ordered(a1, a2, b);
    } else if a2 < 0 {
        vstd::arithmetic::div_mod::lemma_div_is_ordered(-a2, -a1, b);
    } else {
        vstd::arithmetic::div_mod::lemma_div_pos_is_pos(-a1, b);
        vstd::arithmetic::div_mod::lemma_div_pos_is_pos(a2, b);
    }
}

/// Truncating division of a nonnegative value by a positive divisor is
/// nonnegative.
pub proof fn lemma_tdiv_nonneg(a: int, b: int)
    requires
        0 <= a,
        0 < b,
    ensures
        0 <= tdiv(a, b),
{
    vstd::arithmetic::div_mod::lemma_div_pos_is_pos(a, b);
}

/// Scaling by the unit and dividing by it again is exact.
pub proof fn lemma_tdiv_exact_mul(c: int)
    ensures
        tdiv(c * FX_ONE as int, FX_ONE as int) == c,
{
    if c >= 0 {
        assert(c * FX_ONE as int == FX_ONE as int * c) by (nonlinear_arith);
        vstd::arithmetic::div_mod::lemma_div_multiples_vanish(c, FX_ONE as int);
    } else {
        assert(-(c * FX_ONE as int) == FX_ONE as int * (-c)) by (nonlinear_arith);
        vstd::arithmetic::div_mod::lemma_div_multiples_vanish(-c, FX_ONE as int);
        assert(abs(c * FX_ONE as int) == FX_ONE as int * (-c));
    }
}

/// Multiplying both sides of an inequality by a positive factor.
pub proof fn lemma_mul_le_mono(a: int, b: int, c: int)
    requires
        a <= b,
        0 < c,
    ensures
        a * c <= b * c,
{
    assert(a * c <= b * c) by (nonlinear_arith)
        requires
            a <= b,
            0 < c,
    ;
}

/// Bound on a product of bounded factors.
pub proof fn lemma_mul_abs_le(a: int, b: int, ba: int, bb: int)
    requires
        abs(a) <= ba,
        abs(b) <= bb,
    ensures
        abs(a * b) <= ba * bb,
{
    assert(abs(a * b) <= ba * bb) by (nonlinear_arith)
        requires
            abs(a) <= ba,
            abs(b) <= bb,
    ;
}

/// Saturating fixed-point multiplication.
pub fn fxmul(a: i64, b: i64) -> (r: i64)
    ensures
        r as int == fxmul_s(a as int, b as int),
{
    proof {
        lemma_mul_abs_le(a as int, b as int, 0x8000_0000_0000_0000, 0x8000_0000_0000_0000);
    }
    let p: i128 = (a as i128) * (b as i128);
    let q = div_trunc(p, FX_ONE as i128);
    fx_clip(q)
}

/// Saturating fixed-point division; a zero divisor yields zero.
pub fn fxdiv(a: i64, b: i64) -> (r: i64)
    ensures
        r as int == fxdiv_s(a as int, b as int),
{
    if b == 0 {
        0
    } else {
        proof {
            lemma_mul_abs_le(a as int, FX_ONE as int, 0x8000_0000_0000_0000, FX_ONE as int);
        }
        let n: i128 = (a as i128) * (FX_ONE as i128);
        let q = if b > 0 {
            div_trunc(n, b as i128)
        } else {
            div_trunc(-n, -(b as i128))
        };
        proof {
            if b < 0 {
                assert(abs(-n as int) == abs(n as int));
                assert(abs(-(b as int)) == abs(b as int));
            }
        }
        fx_clip(q)
    }
}

/// Saturating addition.
pub fn fxadd(a: i64, b: i64) -> (r: i64)
    ensures
        r as int == fxadd_s(a as int, b as int),
{
    fx_clip((a as i128) + (b as i128))
}

/// Saturating subtraction.
pub fn fxsub(a: i64, b: i64) -> (r: i64)
    ensures
        r as int == fxsub_s(a as int, b as int),
{
    fx_clip((a as i128) - (b as i128))
}

/// Saturating negation.
pub fn fxneg(a: i64) -> (r: i64)
    ensures
        r as int == fxneg_s(a as int),
{
    fx_clip(-(a as i128))
}

/// A pixel index as a fixed-point scalar.
pub fn fx_from_u32(n: u32) -> (r: i64)
    ensures
        r as int == clip(n as int * FX_ONE as int, FX_MAX as int),
{
    proof {
        lemma_mul_abs_le(n as int, FX_ONE as int, 0x1_0000_0000, FX_ONE as int);
    }
    fx_clip((n as i128) * (FX_ONE as i128))
}

/// Integer square root by bisection.
fn isqrt(n: u128) -> (r: u128)
    ensures
        r as nat == isqrt_s(n as nat),
        r * r <= n,
{
    if n == 0 {
        proof {
            assert((0nat + 1) * (0nat + 1) == 1) by (nonlinear_arith);
            lemma_isqrt_unique(0, 0);
        }
        return 0;
    }
    let mut lo: u128 = 0;
    let mut hi: u128 = if n < 0x1_0000_0000_0000_0000 {
        n + 1
    } else {
        0x1_0000_0000_0000_0000
    };
    proof {
        assert((n as int) < (hi as int) * (hi as int)) by (nonlinear_arith)
            requires
                hi as int == if (n as int) < 0x1_0000_0000_0000_0000 {
                    n as int + 1
                } else {
                    0x1_0000_0000_0000_0000int
                },
                0 <= n as int <= 0xffff_ffff_ffff_ffff_ffff_ffff_ffff_ffff,
        ;
    }
    while lo + 1 < hi
        invariant
            0 <= lo < hi,
            (lo as int) * (lo as int) <= n as int,
            (n as int) < (hi as int) * (hi as int),
            hi <= 0x1_0000_0000_0000_0000,
        decreases hi - lo,
    {
        let mid: u128 = lo + (hi - lo) / 2;
        assert(lo < mid < hi);
        if mid <= n / mid {
            proof {
                lemma_fundamental_div_mod(n as int, mid as int);
                lemma_remainder_lower(n as int, mid as int);
                assert((mid as int) * (mid as int) <= n as int) by (nonlinear_arith)
                    requires
                        n as int == (mid as int) * ((n as int) / (mid as int)) + (n as int) % (
                        mid as int),
                        0 <= (n as int) % (mid as int),
                        mid as int <= (n as int) / (mid as int),
                        0 < mid as int,
                ;
            }
            lo = mid;
        } else {
            proof {
                lemma_fundamental_div_mod(n as int, mid as int);
                lemma_remainder_upper(n as int, mid as int);
                assert((n as int) < (mid as int) * (mid as int)) by (nonlinear_arith)
                    requires
                        n as int == (mid as int) * ((n as int) / (mid as int)) + (n as int) % (
                        mid as int),
                        (n as int) % (mid as int) < mid as int,
                        (n as int) / (mid as int) < mid as int,
                        0 < mid as int,
                ;
            }
            hi = mid;
        }
    }
    proof {
        lemma_isqrt_unique(n as nat, lo as nat);
    }
    lo
}

/// Fixed-point square root: `fxsqrt(a)` is the integer square root of
/// `a * FX_ONE`, which carries the scale of the square root of `a`.
pub fn fxsqrt(a: i64) -> (r: i64)
    ensures
        r as int == fxsqrt_s(a as int),
        0 <= r,
{
    if a <= 0 {
        0
    } else {
        proof {
            lemma_mul_abs_le(a as int, FX_ONE as int, 0x8000_0000_0000_0000, FX_ONE as int);
        }
        let n: u128 = (a as u128) * (FX_ONE as u128);
        let r = isqrt(n);
        proof {
            assert(r as int <= 0x1_0000_0000_0000) by (nonlinear_arith)
                requires
                    (r as int) * (r as int) <= n as int,
                    n as int <= 0x8000_0000_0000_0000_0000int,
                    0 <= r as int,
            ;
        }
        r as i64
    }
}

} // verus!
