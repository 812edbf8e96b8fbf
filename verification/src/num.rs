//! Exact integer arithmetic helpers shared by the geometry pipeline.
//!
//! World coordinates and angles are fixed-point values: `i64` counts of
//! `1 / SCALE` units. Perspective division and drag normalisation use
//! truncating division (round toward zero, as hardware signed division does),
//! specified here once as [`tdiv`]. Distances use an exact integer square
//! root, [`isqrt64`].

use vstd::prelude::*;
use vstd::arithmetic::div_mod::lemma_div_nonincreasing;
use vstd::arithmetic::div_mod::lemma_div_pos_is_pos;
use vstd::arithmetic::div_mod::lemma_div_is_ordered;
use vstd::arithmetic::div_mod::lemma_div_multiples_vanish;

verus! {

/// Fixed-point units per 1.0 of world space or radian of angle.
pub const SCALE: i64 = 4096;

/// Truncating (round-toward-zero) quotient of `a` by a positive `b`.
///
/// On non-negative `a` this is ordinary Euclidean division; on negative `a`
/// it is the negated quotient of the magnitudes.
pub open spec fn tdiv(a: int, b: int) -> int
    recommends
        b > 0,
{
    if a >= 0 {
        a / b
    } else {
        -((-a) / b)
    }
}

/// Truncating division of a 128-bit value by a positive divisor.
pub fn tdiv_i128(a: i128, b: i128) -> (q: i128)
    requires
        b >= 1,
        a > i128::MIN,
    ensures
        q == tdiv(a as int, b as int),
{
    if a >= 0 {
        let ua: u128 = a as u128;
        let ub: u128 = b as u128;
        let uq: u128 = ua / ub;
        proof {
            lemma_div_nonincreasing(ua as int, ub as int);
            lemma_div_pos_is_pos(ua as int, ub as int);
        }
        uq as i128
    } else {
        let ua: u128 = (-a) as u128;
        let ub: u128 = b as u128;
        let uq: u128 = ua / ub;
        proof {
            lemma_div_nonincreasing(ua as int, ub as int);
            lemma_div_pos_is_pos(ua as int, ub as int);
        }
        -(uq as i128)
    }
}

/// Truncating division of a 64-bit value by a positive divisor.
pub fn tdiv_i64(a: i64, b: i64) -> (q: i64)
    requires
        b >= 1,
        a > i64::MIN,
    ensures
        q == tdiv(a as int, b as int),
{
    if a >= 0 {
        let ua: u64 = a as u64;
        let ub: u64 = b as u64;
        let uq: u64 = ua / ub;
        proof {
            lemma_div_nonincreasing(ua as int, ub as int);
            lemma_div_pos_is_pos(ua as int, ub as int);
        }
        uq as i64
    } else {
        let ua: u64 = (-a) as u64;
        let ub: u64 = b as u64;
        let uq: u64 = ua / ub;
        proof {
            lemma_div_nonincreasing(ua as int, ub as int);
            lemma_div_pos_is_pos(ua as int, ub as int);
        }
        -(uq as i64)
    }
}

/// The magnitude of a truncating quotient never exceeds the magnitude of the
/// dividend, and the quotient keeps the dividend's sign.
pub proof fn lemma_tdiv_bound(a: int, b: int, m: int)
    requires
        b >= 1,
        0 <= m,
        -m <= a <= m,
    ensures
        -m <= tdiv(a, b) <= m,
        a >= 0 ==> 0 <= tdiv(a, b),
        a <= 0 ==> tdiv(a, b) <= 0,
{
    if a >= 0 {
        lemma_div_nonincreasing(a, b);
        lemma_div_pos_is_pos(a, b);
    } else {
        lemma_div_nonincreasing(-a, b);
        lemma_div_pos_is_pos(-a, b);
    }
}

/// Exact cancellation: dividing `a * b` back by `b` recovers `a`.
pub proof fn lemma_tdiv_mul_exact(a: int, b: int)
    requires
        b >= 1,
    ensures
        tdiv(a * b, b) == a,
{
    if a * b >= 0 {
        lemma_div_multiples_vanish(a, b);
        assert(a * b == b * a);
    } else {
        lemma_div_multiples_vanish(-a, b);
        assert(-(a * b) == b * (-a)) by (nonlinear_arith);
    }
}

/// A dividend within `m * b` of zero has a truncating quotient within `m`.
pub proof fn lemma_tdiv_quotient_bound(a: int, b: int, m: int)
    requires
        b >= 1,
        0 <= m,
        -(m * b) <= a <= m * b,
    ensures
        -m <= tdiv(a, b) <= m,
{
    lemma_tdiv_mul_exact(m, b);
    if a >= 0 {
        lemma_div_is_ordered(a, m * b, b);
        lemma_div_pos_is_pos(a, b);
    } else {
        lemma_div_is_ordered(-a, m * b, b);
        lemma_div_pos_is_pos(-a, b);
    }
}

/// The integer square root: the greatest `r` with `r * r <= n`.
pub fn isqrt64(n: u64) -> (r: u64)
    ensures
        r * r <= n < (r + 1) * (r + 1),
{
    let mut lo: u64 = 0;
    let mut hi: u64 = 0x1_0000_0000;
    proof {
        assert((0x1_0000_0000 * 0x1_0000_0000) > n as int) by (nonlinear_arith)
            requires
                n <= u64::MAX,
        ;
    }
    while hi - lo > 1
        invariant
            lo < hi <= 0x1_0000_0000,
            lo * lo <= n,
            n < hi * hi,
        decreases hi - lo,
    {
        let mid: u64 = lo + (hi - lo) / 2;
        proof {
            assert(mid * mid < 0x1_0000_0000_0000_0000) by (nonlinear_arith)
                requires
                    mid < 0x1_0000_0000,
            ;
        }
        if mid * mid <= n {
            lo = mid;
        } else {
            hi = mid;
        }
    }
    lo
}

/// Clamp `v` into the closed interval `[lo, hi]`.
pub fn clamp_i64(v: i64, lo: i64, hi: i64) -> (r: i64)
    requires
        lo <= hi,
    ensures
        r == clamped(v as int, lo as int, hi as int),
{
    if v < lo {
        lo
    } else if v > hi {
        hi
    } else {
        v
    }
}

/// The value of `v` clamped into `[lo, hi]`.
pub open spec fn clamped(v: int, lo: int, hi: int) -> int {
    if v < lo {
        lo
    } else if v > hi {
        hi
    } else {
        v
    }
}

} // verus!
