//! Fixed-point sine and cosine of a phase given in fractions of a whole turn.
//!
//! A phase is held in `FREQ_SCALE` units per turn, so reduction modulo one
//! turn and splitting into quadrants are exact integer operations; only the
//! final quarter-turn polynomial rounds. Results carry `TRIG_SCALE` units.

use vstd::prelude::*;
use crate::fixed::{spec_clamp, clamp, TRIG_SCALE};

verus! {

/// One quarter of a turn, in `FREQ_SCALE` phase units.
pub const QUARTER_TURN: u128 = 250_000_000_000;

/// A whole turn, in `FREQ_SCALE` phase units.
pub const FULL_TURN: u128 = 1_000_000_000_000;

/// Two pi at `TRIG_SCALE`, for converting quarter-turn fractions to radians.
pub const TWO_PI_9: u128 = 6_283_185_307;

/// Largest radian argument handed to the quarter-turn polynomials.
pub const RAD_MAX: u128 = 1_600_000_000;

/// Truncated Taylor polynomial for the sine of `u` radians at `TRIG_SCALE`,
/// `0 <= u <= RAD_MAX` (a quarter turn), restricted to `[-TRIG_SCALE, TRIG_SCALE]`.
pub open spec fn spec_sin_quarter(u: int) -> int {
    let ts = TRIG_SCALE as int;
    let u2 = (u * u) / ts;
    let p3 = (u * u2) / ts;
    let p5 = (p3 * u2) / ts;
    let p7 = (p5 * u2) / ts;
    let p9 = (p7 * u2) / ts;
    let p11 = (p9 * u2) / ts;
    let p13 = (p11 * u2) / ts;
    spec_clamp(
        u - p3 / 6 + p5 / 120 - p7 / 5040 + p9 / 362880 - p11 / 39916800 + p13 / 6227020800,
        ts,
    )
}

/// Truncated Taylor polynomial for the cosine of `u` radians at `TRIG_SCALE`,
/// `0 <= u <= RAD_MAX`, restricted to `[-TRIG_SCALE, TRIG_SCALE]`.
pub open spec fn spec_cos_quarter(u: int) -> int {
    let ts = TRIG_SCALE as int;
    let u2 = (u * u) / ts;
    let p4 = (u2 * u2) / ts;
    let p6 = (p4 * u2) / ts;
    let p8 = (p6 * u2) / ts;
    let p10 = (p8 * u2) / ts;
    let p12 = (p10 * u2) / ts;
    let p14 = (p12 * u2) / ts;
    spec_clamp(
        ts - u2 / 2 + p4 / 24 - p6 / 720 + p8 / 40320 - p10 / 3628800 + p12 / 479001600
            - p14 / 87178291200,
        ts,
    )
}

/// Sine of a phase `p` in `[0, FULL_TURN)` phase units, at `TRIG_SCALE`.
pub open spec fn spec_sin_phase(p: int) -> int {
    let q = p / (QUARTER_TURN as int);
    let u = ((p % (QUARTER_TURN as int)) * (TWO_PI_9 as int)) / (FULL_TURN as int);
    if q == 0 {
        spec_sin_quarter(u)
    } else if q == 1 {
        spec_cos_quarter(u)
    } else if q == 2 {
        -spec_sin_quarter(u)
    } else {
        -spec_cos_quarter(u)
    }
}

/// Cosine of a phase `p` in `[0, FULL_TURN)` phase units, at `TRIG_SCALE`.
pub open spec fn spec_cos_phase(p: int) -> int {
    let q = p / (QUARTER_TURN as int);
    let u = ((p % (QUARTER_TURN as int)) * (TWO_PI_9 as int)) / (FULL_TURN as int);
    if q == 0 {
        spec_cos_quarter(u)
    } else if q == 1 {
        -spec_sin_quarter(u)
    } else if q == 2 {
        -spec_cos_quarter(u)
    } else {
        spec_sin_quarter(u)
    }
}

fn sin_quarter(u: u128) -> (r: i128)
    requires
        u <= RAD_MAX,
    ensures
        r == spec_sin_quarter(u as int),
{
    let ts: u128 = 1_000_000_000;
    proof {
        crate::fixed::lemma_muldiv_bound(u as int, u as int, 1_600_000_000, 1_600_000_000, ts as int);
    }
    let u2: u128 = (u * u) / ts;
    proof {
        assert(u2 <= 2_560_000_000);
        crate::fixed::lemma_muldiv_bound(u as int, u2 as int, 1_600_000_000, 2_560_000_000, ts as int);
    }
    let p3: u128 = (u * u2) / ts;
    proof {
        assert(p3 <= 4_096_000_000);
        crate::fixed::lemma_muldiv_bound(p3 as int, u2 as int, 4_096_000_000, 2_560_000_000, ts as int);
    }
    let p5: u128 = (p3 * u2) / ts;
    proof {
        assert(p5 <= 10_485_760_000);
        crate::fixed::lemma_muldiv_bound(p5 as int, u2 as int, 10_485_760_000, 2_560_000_000, ts as int);
    }
    let p7: u128 = (p5 * u2) / ts;
    proof {
        assert(p7 <= 26_843_545_600);
        crate::fixed::lemma_muldiv_bound(p7 as int, u2 as int, 26_843_545_600, 2_560_000_000, ts as int);
    }
    let p9: u128 = (p7 * u2) / ts;
    proof {
        assert(p9 <= 68_719_476_736);
        crate::fixed::lemma_muldiv_bound(p9 as int, u2 as int, 68_719_476_736, 2_560_000_000, ts as int);
    }
    let p11: u128 = (p9 * u2) / ts;
    proof {
        assert(p11 <= 175_921_860_444);
        crate::fixed::lemma_muldiv_bound(p11 as int, u2 as int, 175_921_860_444, 2_560_000_000, ts as int);
        crate::fixed::lemma_small_div((p9 * u2) as int / (ts as int), 1);
    }
    let p13: u128 = (p11 * u2) / ts;
    proof {
        assert(p13 <= 450_359_962_737);
        crate::fixed::lemma_small_div(p3 as int, 6);
        crate::fixed::lemma_small_div(p5 as int, 120);
        crate::fixed::lemma_small_div(p7 as int, 5040);
        crate::fixed::lemma_small_div(p9 as int, 362880);
        crate::fixed::lemma_small_div(p11 as int, 39916800);
        crate::fixed::lemma_small_div(p13 as int, 6227020800);
    }
    let raw: i128 = (u as i128) - (p3 / 6) as i128 + (p5 / 120) as i128 - (p7 / 5040) as i128
        + (p9 / 362880) as i128 - (p11 / 39916800) as i128 + (p13 / 6227020800) as i128;
    clamp(raw, TRIG_SCALE)
}

fn cos_quarter(u: u128) -> (r: i128)
    requires
        u <= RAD_MAX,
    ensures
        r == spec_cos_quarter(u as int),
{
    let ts: u128 = 1_000_000_000;
    proof {
        crate::fixed::lemma_muldiv_bound(u as int, u as int, 1_600_000_000, 1_600_000_000, ts as int);
    }
    let u2: u128 = (u * u) / ts;
    proof {
        assert(u2 <= 2_560_000_000);
        crate::fixed::lemma_muldiv_bound(u2 as int, u2 as int, 2_560_000_000, 2_560_000_000, ts as int);
    }
    let p4: u128 = (u2 * u2) / ts;
    proof {
        assert(p4 <= 6_553_600_000);
        crate::fixed::lemma_muldiv_bound(p4 as int, u2 as int, 6_553_600_000, 2_560_000_000, ts as int);
    }
    let p6: u128 = (p4 * u2) / ts;
    proof {
        assert(p6 <= 16_777_216_000);
        crate::fixed::lemma_muldiv_bound(p6 as int, u2 as int, 16_777_216_000, 2_560_000_000, ts as int);
    }
    let p8: u128 = (p6 * u2) / ts;
    proof {
        assert(p8 <= 42_949_672_960);
        crate::fixed::lemma_muldiv_bound(p8 as int, u2 as int, 42_949_672_960, 2_560_000_000, ts as int);
    }
    let p10: u128 = (p8 * u2) / ts;
    proof {
        assert(p10 <= 109_951_162_777);
        crate::fixed::lemma_muldiv_bound(p10 as int, u2 as int, 109_951_162_777, 2_560_000_000, ts as int);
    }
    let p12: u128 = (p10 * u2) / ts;
    proof {
        assert(p12 <= 281_474_976_709);
        crate::fixed::lemma_muldiv_bound(p12 as int, u2 as int, 281_474_976_709, 2_560_000_000, ts as int);
    }
    let p14: u128 = (p12 * u2) / ts;
    proof {
        assert(p14 <= 720_575_940_375);
        crate::fixed::lemma_small_div(u2 as int, 2);
        crate::fixed::lemma_small_div(p4 as int, 24);
        crate::fixed::lemma_small_div(p6 as int, 720);
        crate::fixed::lemma_small_div(p8 as int, 40320);
        crate::fixed::lemma_small_div(p10 as int, 3628800);
        crate::fixed::lemma_small_div(p12 as int, 479001600);
        crate::fixed::lemma_small_div(p14 as int, 87178291200);
    }
    let raw: i128 = (ts as i128) - (u2 / 2) as i128 + (p4 / 24) as i128 - (p6 / 720) as i128
        + (p8 / 40320) as i128 - (p10 / 3628800) as i128 + (p12 / 479001600) as i128
        - (p14 / 87178291200) as i128;
    clamp(raw, TRIG_SCALE)
}

/// Sine and cosine of a phase in `[0, FULL_TURN)` phase units.
pub fn sin_cos_phase(p: u128) -> (r: (i128, i128))
    requires
        p < FULL_TURN,
    ensures
        r.0 == spec_sin_phase(p as int),
        r.1 == spec_cos_phase(p as int),
        -TRIG_SCALE <= r.0 <= TRIG_SCALE,
        -TRIG_SCALE <= r.1 <= TRIG_SCALE,
{
    let q: u128 = p / QUARTER_TURN;
    let rem: u128 = p % QUARTER_TURN;
    proof {
        assert(rem < 250_000_000_000);
        crate::fixed::lemma_muldiv_bound(
            rem as int,
            TWO_PI_9 as int,
            249_999_999_999,
            6_283_185_307,
            FULL_TURN as int,
        );
    }
    let u: u128 = (rem * TWO_PI_9) / FULL_TURN;
    proof {
        assert(u <= RAD_MAX);
        assert(q <= 3) by (nonlinear_arith)
            requires
                p < 1_000_000_000_000u128,
                q == p / 250_000_000_000u128,
        ;
    }
    if q == 0 {
        (sin_quarter(u), cos_quarter(u))
    } else if q == 1 {
        let s = sin_quarter(u);
        let c = cos_quarter(u);
        (c, -s)
    } else if q == 2 {
        let s = sin_quarter(u);
        let c = cos_quarter(u);
        (-s, -c)
    } else {
        let s = sin_quarter(u);
        let c = cos_quarter(u);
        (-c, s)
    }
}

} // verus!
