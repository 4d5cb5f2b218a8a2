//! Fixed-point helpers: truncating division by a positive divisor, clamping,
//! and an integer square root, with the lemmas the simulation proofs need.
//!
//! Values are scaled by 1000 (milli-units); see the crate root.

use vstd::prelude::*;

verus! {

use vstd::arithmetic::div_mod::{
    lemma_div_is_ordered,
    lemma_div_nonincreasing,
    lemma_div_pos_is_pos,
    lemma_fundamental_div_mod,
};

/// Division truncating toward zero, as the hardware `/` behaves on signed
/// integers; `/` on `int` is Euclidean, so the negative case is spelled out.
pub open spec fn trunc_div(a: int, d: int) -> int {
    if a >= 0 {
        a / d
    } else {
        -((-a) / d)
    }
}

/// Truncating division by a positive divisor.
pub fn div_fp(a: i64, d: i64) -> (q: i64)
    requires
        d > 0,
        a > i64::MIN,
    ensures
        q == trunc_div(a as int, d as int),
{
    if a >= 0 {
        let q = (a as u64) / (d as u64);
        proof {
            lemma_div_nonincreasing(a as int, d as int);
            lemma_div_pos_is_pos(a as int, d as int);
        }
        q as i64
    } else {
        let n = -a;
        let q = (n as u64) / (d as u64);
        proof {
            lemma_div_nonincreasing(n as int, d as int);
            lemma_div_pos_is_pos(n as int, d as int);
        }
        -(q as i64)
    }
}

/// The quotient of a value bounded by `m` is bounded by `m / d`.
pub proof fn lemma_trunc_div_bound(a: int, d: int, m: int)
    requires
        d > 0,
        0 <= m,
        -m <= a <= m,
    ensures
        -(m / d) <= trunc_div(a, d) <= m / d,
{
    if a >= 0 {
        lemma_div_pos_is_pos(a, d);
        lemma_div_is_ordered(a, m, d);
    } else {
        lemma_div_pos_is_pos(-a, d);
        lemma_div_is_ordered(-a, m, d);
    }
}

/// Truncating division of a nonnegative value agrees with Euclidean division
/// and never exceeds the real quotient.
pub proof fn lemma_trunc_div_nonneg(a: int, d: int)
    requires
        d > 0,
        a >= 0,
    ensures
        trunc_div(a, d) == a / d,
        0 <= trunc_div(a, d),
        d * (a / d) <= a,
{
    lemma_div_pos_is_pos(a, d);
    lemma_fundamental_div_mod(a, d);
}

/// Clamping into `[lo, hi]`.
pub open spec fn clamp_spec(x: int, lo: int, hi: int) -> int {
    if x < lo {
        lo
    } else if x > hi {
        hi
    } else {
        x
    }
}

/// Clamp `x` into `[lo, hi]`.
pub fn clamp_fp(x: i64, lo: i64, hi: i64) -> (r: i64)
    requires
        lo <= hi,
    ensures
        r == clamp_spec(x as int, lo as int, hi as int),
{
    if x < lo {
        lo
    } else if x > hi {
        hi
    } else {
        x
    }
}

/// The integer square root: the largest `r` with `r * r <= n`.
pub fn isqrt(n: u64) -> (r: u64)
    ensures
        r * r <= n,
        (r + 1) * (r + 1) > n,
{
    let mut lo: u64 = 0;
    let mut hi: u64 = 0xffff_ffff;
    while lo < hi
        invariant
            lo <= hi <= 0xffff_ffff,
            lo * lo <= n,
            (hi + 1) * (hi + 1) > n,
        decreases hi - lo,
    {
        let mid = lo + (hi - lo + 1) / 2;
        proof {
            assert(mid * mid <= 0xffff_ffff * 0xffff_ffff) by (nonlinear_arith)
                requires
                    0 <= mid <= 0xffff_ffff,
            ;
        }
        if mid * mid <= n {
            lo = mid;
        } else {
            hi = mid - 1;
        }
    }
    lo
}

} // verus!
