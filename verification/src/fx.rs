//! Fixed-point scalars.
//!
//! A scalar is an `i64` holding a real value scaled by `SCALE`: the integer
//! `x` stands for the real number `x / SCALE`. Products and quotients round
//! their magnitude toward zero, as the spec functions below state exactly.

use vstd::prelude::*;
use vstd::arithmetic::div_mod::{lemma_div_is_ordered, lemma_div_is_ordered_by_denominator, lemma_div_pos_is_pos};

verus! {

/// Number of integer steps per real unit; `SCALE` itself represents 1.0.
pub const SCALE: i64 = 65536;

/// One half, as a scalar.
pub const HALF: i64 = 32768;

pub open spec fn abs_i(a: int) -> int {
    if a >= 0 {
        a
    } else {
        -a
    }
}

/// The scaled product: magnitude of `a * b / SCALE`, rounded toward zero.
pub open spec fn fx_mul_spec(a: int, b: int) -> int {
    let m = abs_i(a * b) / (SCALE as int);
    if a * b < 0 {
        -m
    } else {
        m
    }
}

/// The scaled quotient: magnitude of `a * SCALE / b`, rounded toward zero.
pub open spec fn fx_div_spec(a: int, b: int) -> int {
    let m = (abs_i(a) * SCALE) / abs_i(b);
    if (a < 0) != (b < 0) {
        -m
    } else {
        m
    }
}

/// `r` is the integer square root of `x * SCALE`, so `r` is the scaled
/// square root of the scalar `x`.
pub open spec fn is_sqrt(x: int, r: int) -> bool {
    &&& 0 <= r
    &&& r * r <= x * SCALE
    &&& x * SCALE < (r + 1) * (r + 1)
}

pub open spec fn fx_sqrt_spec(x: int) -> int {
    choose|r: int| is_sqrt(x, r)
}

/// The integer square root is unique.
pub proof fn lemma_sqrt_unique(x: int, r1: int, r2: int)
    by (nonlinear_arith)
    requires
        0 <= r1,
        r1 * r1 <= x * SCALE,
        x * SCALE < (r1 + 1) * (r1 + 1),
        0 <= r2,
        r2 * r2 <= x * SCALE,
        x * SCALE < (r2 + 1) * (r2 + 1),
    ensures
        r1 == r2,
{
}

/// A root below a square: if `x * SCALE` lies under `c * c`, the root of `x`
/// lies under `c`.
pub proof fn lemma_sqrt_bound(x: int, r: int, c: int)
    by (nonlinear_arith)
    requires
        0 <= r,
        r * r <= x * SCALE,
        0 <= c,
        x * SCALE < c * c,
    ensures
        r < c,
{
}

/// Magnitude bound for a scaled product.
pub proof fn lemma_fx_mul_bound(a: int, b: int, aa: int, bb: int)
    requires
        abs_i(a) <= aa,
        abs_i(b) <= bb,
    ensures
        0 <= abs_i(fx_mul_spec(a, b)) <= (aa * bb) / (SCALE as int),
{
    assert(-(aa * bb) <= a * b <= aa * bb) by (nonlinear_arith)
        requires
            -aa <= a <= aa,
            -bb <= b <= bb,
    ;
    lemma_div_pos_is_pos(abs_i(a * b), SCALE as int);
    lemma_div_is_ordered(abs_i(a * b), aa * bb, SCALE as int);
}

/// Magnitude bound for a scaled quotient, given a floor on the divisor.
pub proof fn lemma_fx_div_bound(a: int, b: int, aa: int, bmin: int)
    requires
        abs_i(a) <= aa,
        1 <= bmin <= abs_i(b),
    ensures
        0 <= abs_i(fx_div_spec(a, b)) <= (aa * SCALE) / bmin,
{
    lemma_div_pos_is_pos(abs_i(a) * SCALE, abs_i(b));
    lemma_div_is_ordered(abs_i(a) * SCALE, aa * SCALE, abs_i(b));
    lemma_div_is_ordered_by_denominator(aa * SCALE, bmin, abs_i(b));
}

/// A scaled square is nonnegative.
pub proof fn lemma_fx_square_nonneg(a: int)
    ensures
        0 <= fx_mul_spec(a, a),
{
    assert(0 <= a * a) by (nonlinear_arith);
    lemma_div_pos_is_pos(abs_i(a * a), SCALE as int);
}

/// The scaled product of two scalars.
pub fn fx_mul(a: i64, b: i64) -> (r: i64)
    requires
        i64::MIN <= fx_mul_spec(a as int, b as int) <= i64::MAX,
    ensures
        r == fx_mul_spec(a as int, b as int),
{
    proof {
        assert((a as int) * (b as int) < 0 ==> ((a < 0) != (b < 0))) by (nonlinear_arith);
        assert(((a < 0) != (b < 0)) ==> (a as int) * (b as int) <= 0) by (nonlinear_arith);
        assert(-0x40000000000000000000000000000000 <= (a as int) * (b as int)
            <= 0x40000000000000000000000000000000) by (nonlinear_arith);
    }
    let neg = (a < 0) != (b < 0);
    let p: i128 = (a as i128) * (b as i128);
    let mag: u128 = if p >= 0 {
        p as u128
    } else {
        (-p) as u128
    };
    let q: u128 = mag / 65536;
    if neg {
        (-(q as i128)) as i64
    } else {
        q as i64
    }
}

/// The scaled quotient of two scalars.
pub fn fx_div(a: i64, b: i64) -> (r: i64)
    requires
        b != 0,
        i64::MIN <= fx_div_spec(a as int, b as int) <= i64::MAX,
    ensures
        r == fx_div_spec(a as int, b as int),
{
    let neg = (a < 0) != (b < 0);
    let ua: u128 = if a >= 0 {
        a as u128
    } else {
        (-(a as i128)) as u128
    };
    let ub: u128 = if b >= 0 {
        b as u128
    } else {
        (-(b as i128)) as u128
    };
    let q: u128 = (ua * 65536) / ub;
    if neg {
        (-(q as i128)) as i64
    } else {
        q as i64
    }
}

/// The scaled square root of a nonnegative scalar, by bisection.
pub fn fx_sqrt(x: i64) -> (r: i64)
    requires
        0 <= x,
    ensures
        r == fx_sqrt_spec(x as int),
        0 <= r < 0x10000000000,
        r * r <= x * SCALE,
        x * SCALE < (r + 1) * (r + 1),
{
    let n: u128 = (x as u128) * 65536;
    let mut lo: u128 = 0;
    let mut hi: u128 = 0x10000000000;
    proof {
        assert(n < hi * hi) by (nonlinear_arith)
            requires
                n < 0x80000000000000000000,
                hi == 0x10000000000,
        ;
    }
    while lo + 1 < hi
        invariant
            lo < hi <= 0x10000000000,
            lo * lo <= n,
            n < hi * hi,
        decreases hi - lo,
    {
        let mid = lo + (hi - lo) / 2;
        proof {
            assert(mid * mid <= 0x100000000000000000000) by (nonlinear_arith)
                requires
                    mid <= 0x10000000000,
            ;
        }
        if mid * mid <= n {
            lo = mid;
        } else {
            hi = mid;
        }
    }
    let r = lo as i64;
    proof {
        assert(hi == lo + 1);
        assert(is_sqrt(x as int, r as int));
        assert(exists|s: int| is_sqrt(x as int, s));
        let c = fx_sqrt_spec(x as int);
        assert(is_sqrt(x as int, c));
        lemma_sqrt_unique(x as int, r as int, c);
    }
    r
}

} // verus!
