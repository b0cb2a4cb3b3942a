//! Fixed-point scales, truncating division and an integer square root.

use vstd::prelude::*;

verus! {

/// Water levels carry this many units per metre.
pub const LEVEL_SCALE: i64 = 1_000_000;

/// Frequencies carry this many units per hertz.
pub const FREQ_SCALE: i64 = 1_000_000_000_000;

/// Sine and cosine values carry this many units per unit of amplitude.
pub const TRIG_SCALE: i128 = 1_000_000_000;

/// Fourier coefficients and amplitudes carry this many units.
pub const COEF_SCALE: i128 = 1_000_000_000_000;

/// Truncating division: the quotient is rounded toward zero.
pub open spec fn spec_tdiv(a: int, d: int) -> int
    recommends
        d >= 1,
{
    if a >= 0 {
        a / d
    } else {
        -((-a) / d)
    }
}

/// Truncating division of a signed value by a positive divisor.
pub fn tdiv(a: i128, d: i128) -> (r: i128)
    requires
        d >= 1,
        a > i128::MIN,
    ensures
        r == spec_tdiv(a as int, d as int),
{
    if a >= 0 {
        let q: u128 = (a as u128) / (d as u128);
        proof {
            vstd::arithmetic::div_mod::lemma_div_nonincreasing(a as int, d as int);
            vstd::arithmetic::div_mod::lemma_div_pos_is_pos(a as int, d as int);
        }
        q as i128
    } else {
        let m: u128 = (-a) as u128;
        let q: u128 = m / (d as u128);
        proof {
            vstd::arithmetic::div_mod::lemma_div_nonincreasing(m as int, d as int);
            vstd::arithmetic::div_mod::lemma_div_pos_is_pos(m as int, d as int);
        }
        -(q as i128)
    }
}

/// The product of two values stays within the product of their bounds.
pub proof fn lemma_mul_bounds(a: int, b: int, ca: int, cb: int)
    requires
        0 <= ca,
        0 <= cb,
        -ca <= a <= ca,
        -cb <= b <= cb,
    ensures
        -(ca * cb) <= a * b <= ca * cb,
{
    assert(-(ca * cb) <= a * b <= ca * cb) by (nonlinear_arith)
        requires
            0 <= ca,
            0 <= cb,
            -ca <= a <= ca,
            -cb <= b <= cb,
    ;
}

/// A truncating quotient's magnitude shrinks at least by the smallest the
/// divisor can be.
pub proof fn lemma_tdiv_bound_div(a: int, d: int, cap: int, dmin: int)
    requires
        1 <= dmin <= d,
        0 <= cap,
        -cap <= a <= cap,
    ensures
        -(cap / dmin) <= spec_tdiv(a, d) <= cap / dmin,
{
    vstd::arithmetic::div_mod::lemma_div_pos_is_pos(cap, dmin);
    if a >= 0 {
        vstd::arithmetic::div_mod::lemma_div_pos_is_pos(a, d);
        vstd::arithmetic::div_mod::lemma_div_is_ordered_by_denominator(a, dmin, d);
        vstd::arithmetic::div_mod::lemma_div_is_ordered(a, cap, dmin);
    } else {
        vstd::arithmetic::div_mod::lemma_div_pos_is_pos(-a, d);
        vstd::arithmetic::div_mod::lemma_div_is_ordered_by_denominator(-a, dmin, d);
        vstd::arithmetic::div_mod::lemma_div_is_ordered(-a, cap, dmin);
    }
}

/// A nonnegative product stays under the product of the factors' bounds, and
/// so does its quotient by a positive divisor.
pub proof fn lemma_muldiv_bound(a: int, b: int, ca: int, cb: int, d: int)
    requires
        0 <= a <= ca,
        0 <= b <= cb,
        d >= 1,
    ensures
        0 <= a * b <= ca * cb,
        0 <= (a * b) / d <= (ca * cb) / d,
{
    vstd::arithmetic::mul::lemma_mul_upper_bound(a, ca, b, cb);
    vstd::arithmetic::mul::lemma_mul_nonnegative(a, b);
    vstd::arithmetic::div_mod::lemma_div_is_ordered(a * b, ca * cb, d);
    vstd::arithmetic::div_mod::lemma_div_pos_is_pos(a * b, d);
}

/// Dividing a nonnegative value by a positive divisor does not increase it.
pub proof fn lemma_small_div(x: int, d: int)
    requires
        0 <= x,
        d >= 1,
    ensures
        0 <= x / d <= x,
{
    vstd::arithmetic::div_mod::lemma_div_nonincreasing(x, d);
    vstd::arithmetic::div_mod::lemma_div_pos_is_pos(x, d);
}

/// `r` is the integer square root of `x`.
pub open spec fn is_isqrt(x: int, r: int) -> bool {
    r >= 0 && r * r <= x && x < (r + 1) * (r + 1)
}

/// Integer square root by bisection.
pub fn isqrt(x: u128) -> (r: u128)
    ensures
        is_isqrt(x as int, r as int),
{
    if x == 0 {
        return 0;
    }
    let mut lo: u128 = 0;
    let mut hi: u128 = 0x1_0000_0000_0000_0000;
    proof {
        assert((hi as int) * (hi as int) > x as int) by (nonlinear_arith)
            requires
                hi == 0x1_0000_0000_0000_0000u128,
                x <= u128::MAX,
        ;
    }
    while lo + 1 < hi
        invariant
            0 <= lo < hi <= 0x1_0000_0000_0000_0000u128,
            (lo as int) * (lo as int) <= x as int,
            (x as int) < (hi as int) * (hi as int),
        decreases hi - lo,
    {
        let mid: u128 = lo + (hi - lo) / 2;
        proof {
            assert(lo < mid < hi);
            assert((mid as int) * (mid as int) < 0x1_0000_0000_0000_0000_0000_0000_0000_0000)
                by (nonlinear_arith)
                requires
                    mid < 0x1_0000_0000_0000_0000u128,
            ;
        }
        let sq: u128 = mid * mid;
        if sq <= x {
            lo = mid;
        } else {
            hi = mid;
        }
    }
    lo
}

/// An integer square root is unique.
pub proof fn lemma_isqrt_unique(x: int, r1: int, r2: int)
    requires
        is_isqrt(x, r1),
        is_isqrt(x, r2),
    ensures
        r1 == r2,
{
    if r1 < r2 {
        assert((r1 + 1) * (r1 + 1) <= r2 * r2) by (nonlinear_arith)
            requires
                0 <= r1,
                r1 + 1 <= r2,
        ;
    }
    if r2 < r1 {
        assert((r2 + 1) * (r2 + 1) <= r1 * r1) by (nonlinear_arith)
            requires
                0 <= r2,
                r2 + 1 <= r1,
        ;
    }
}

/// The integer square root of a perfect square recovers the root.
pub proof fn lemma_isqrt_of_square(x: int, r: int)
    requires
        x >= 0,
        is_isqrt(x * x, r),
    ensures
        r == x,
{
    assert(is_isqrt(x * x, x)) by (nonlinear_arith)
        requires
            x >= 0,
    ;
    lemma_isqrt_unique(x * x, r, x);
}

/// Restrict a value to `[-cap, cap]`.
pub open spec fn spec_clamp(x: int, cap: int) -> int {
    if x > cap {
        cap
    } else if x < -cap {
        -cap
    } else {
        x
    }
}

/// Restrict a value to `[-cap, cap]`.
pub fn clamp(x: i128, cap: i128) -> (r: i128)
    requires
        cap >= 0,
    ensures
        r == spec_clamp(x as int, cap as int),
{
    if x > cap {
        cap
    } else if x < -cap {
        -cap
    } else {
        x
    }
}

} // verus!
