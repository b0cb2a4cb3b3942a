//! Closed-form integration of the piecewise-linear interpolant against the
//! kernel `exp(-2*pi*i*f*t)`, one frequency at a time.
//!
//! For a segment from `(t1, v1)` to `(t2, v2)` the interpolant is the line
//! `a*t + b` with `a = (v2 - v1)/(t2 - t1)` and `b = v1 - a*t1`, and the
//! antiderivative of `(a*t + b)*exp(c*t)` for `c = -2*pi*i*f` is
//! `(a*t + b - a/c)/c * exp(c*t)`. Expanding real and imaginary parts, a
//! segment contributes
//! `re = a/w^2*(cos2 - cos1) + (v2*sin2 - v1*sin1)/w` and
//! `im = (v2*cos2 - v1*cos1)/w - a/w^2*(sin2 - sin1)` with `w = 2*pi*f` and
//! `sin_j, cos_j` taken at `w*t_j`. The zero frequency reduces to the
//! time-weighted trapezoid mean. Every step of the fixed-point evaluation is
//! mirrored by a specification function, so the result is pinned exactly.

use vstd::prelude::*;
use crate::fixed::{
    spec_tdiv, tdiv, spec_clamp, clamp, is_isqrt, isqrt, lemma_mul_bounds, lemma_tdiv_bound_div,
    lemma_muldiv_bound, lemma_isqrt_unique, lemma_isqrt_of_square, TRIG_SCALE,
};
use crate::trig::{spec_sin_phase, spec_cos_phase, sin_cos_phase, FULL_TURN};
use crate::series::{DataSet, DataPoint};
use rayon::iter::ParallelIterator;
use rayon::slice::ParallelSlice;

verus! {

/// Two pi at a scale of 10^15.
pub const TWO_PI_15: i128 = 6_283_185_307_179_586;

/// Numerator for the reciprocal angular frequency at `INV_SCALE`.
pub const INV_NUM: i128 = 1_000_000_000_000_000_000_000_000_000_000_000;

/// Smallest nonzero frequency the fixed-point kernels accept.
pub const MIN_FREQ: i64 = 1_000;

/// Largest frequency the fixed-point kernels accept.
pub const MAX_FREQ: i64 = 10_000_000_000_000;

/// Largest elapsed time covered by one series, in seconds.
pub const MAX_SPAN: i64 = 1_000_000_000;

/// Largest water-level magnitude, at `LEVEL_SCALE` units per metre.
pub const MAX_LEVEL: i64 = 1_000_000_000;

/// Largest number of points in one series.
pub const MAX_POINTS: usize = 100_000;

/// Fourier coefficients are restricted to this magnitude before squaring.
pub const AMP_CAP: i128 = 1_000_000_000_000_000_000;

/// Bound on the reciprocal angular frequency.
pub const IW_CAP: i128 = 160_000_000_000_000;

/// Bound on a per-point kernel value.
pub const Q1_CAP: i128 = 320_000_000_000_000;

/// Bound on a per-segment kernel value.
pub const K_CAP: i128 = 51_200_000_000_000_000_000_000;

/// Bound on one segment's contribution to either accumulator.
pub const TERM_CAP: i128 = 200_000_000_000_000_000_000_000_000_000_000;

/// Bound on one segment's contribution to the trapezoid accumulator.
pub const TRAP_TERM_CAP: i128 = 2_000_000_000_000_000_000;

/// One Fourier coefficient, both parts at `COEF_SCALE` units.
#[derive(Clone, Copy, PartialEq, Eq, Structural, Debug)]
pub struct FourierCoeff {
    pub re: i128,
    pub im: i128,
}

/// The reciprocal of the angular frequency `2*pi*f`, at `INV_SCALE`.
pub open spec fn spec_inv_omega(f: int) -> int {
    (INV_NUM as int) / ((TWO_PI_15 as int) * f)
}

/// The phase `f*t`, reduced to a fraction of one turn.
pub open spec fn spec_phase(f: int, t: int) -> int {
    (f * t) % (FULL_TURN as int)
}

/// Sine of `2*pi*f*t` at `TRIG_SCALE`.
pub open spec fn spec_sin_ft(f: int, t: int) -> int {
    spec_sin_phase(spec_phase(f, t))
}

/// Cosine of `2*pi*f*t` at `TRIG_SCALE`.
pub open spec fn spec_cos_ft(f: int, t: int) -> int {
    spec_cos_phase(spec_phase(f, t))
}

/// `sin(2*pi*f*t) / (2*pi*f)`, at `INV_SCALE`.
pub open spec fn spec_point_sin_kernel(f: int, t: int) -> int {
    spec_tdiv(spec_sin_ft(f, t) * spec_inv_omega(f), TRIG_SCALE as int)
}

/// `cos(2*pi*f*t) / (2*pi*f)`, at `INV_SCALE`.
pub open spec fn spec_point_cos_kernel(f: int, t: int) -> int {
    spec_tdiv(spec_cos_ft(f, t) * spec_inv_omega(f), TRIG_SCALE as int)
}

/// `(cos(w*t2) - cos(w*t1)) / (w^2 * (t2 - t1))`, at `INV_SCALE`.
pub open spec fn spec_seg_cos_kernel(f: int, t1: int, t2: int) -> int {
    let q = spec_tdiv((spec_cos_ft(f, t2) - spec_cos_ft(f, t1)) * spec_inv_omega(f), TRIG_SCALE as int);
    spec_tdiv(q * spec_inv_omega(f), (t2 - t1) * 1_000_000)
}

/// `(sin(w*t2) - sin(w*t1)) / (w^2 * (t2 - t1))`, at `INV_SCALE`.
pub open spec fn spec_seg_sin_kernel(f: int, t1: int, t2: int) -> int {
    let q = spec_tdiv((spec_sin_ft(f, t2) - spec_sin_ft(f, t1)) * spec_inv_omega(f), TRIG_SCALE as int);
    spec_tdiv(q * spec_inv_omega(f), (t2 - t1) * 1_000_000)
}

/// Real part of one segment's contribution, at `COEF_SCALE` (levels enter
/// only through exact products, so the contribution is linear in the levels).
pub open spec fn spec_seg_re(f: int, t1: int, v1: int, t2: int, v2: int) -> int {
    (v2 - v1) * spec_seg_cos_kernel(f, t1, t2) + v2 * spec_point_sin_kernel(f, t2) - v1
        * spec_point_sin_kernel(f, t1)
}

/// Imaginary part of one segment's contribution, at `COEF_SCALE`.
pub open spec fn spec_seg_im(f: int, t1: int, v1: int, t2: int, v2: int) -> int {
    v2 * spec_point_cos_kernel(f, t2) - v1 * spec_point_cos_kernel(f, t1) - (v2 - v1)
        * spec_seg_sin_kernel(f, t1, t2)
}

/// Real part of the sum over the first `m` segments.
pub open spec fn spec_sum_re(s: Seq<DataPoint>, f: int, m: int) -> int
    decreases m,
{
    if m <= 0 {
        0
    } else {
        spec_sum_re(s, f, m - 1) + spec_seg_re(
            f,
            s[m - 1].time as int,
            s[m - 1].water_level as int,
            s[m].time as int,
            s[m].water_level as int,
        )
    }
}

/// Imaginary part of the sum over the first `m` segments.
pub open spec fn spec_sum_im(s: Seq<DataPoint>, f: int, m: int) -> int
    decreases m,
{
    if m <= 0 {
        0
    } else {
        spec_sum_im(s, f, m - 1) + spec_seg_im(
            f,
            s[m - 1].time as int,
            s[m - 1].water_level as int,
            s[m].time as int,
            s[m].water_level as int,
        )
    }
}

/// Twice the time-weighted sum of the trapezoid areas of the first `m`
/// segments, at `LEVEL_SCALE` times seconds.
pub open spec fn spec_trap_num(s: Seq<DataPoint>, m: int) -> int
    decreases m,
{
    if m <= 0 {
        0
    } else {
        spec_trap_num(s, m - 1) + (s[m - 1].water_level as int + s[m].water_level as int) * (
        s[m].time as int - s[m - 1].time as int)
    }
}

/// The covered period.
pub open spec fn spec_span(s: Seq<DataPoint>) -> int {
    s[s.len() - 1].time - s[0].time
}

/// The magnitude of a frequency.
pub open spec fn abs_freq(f: int) -> int {
    if f >= 0 {
        f
    } else {
        -f
    }
}

/// Real part of the Fourier coefficient at frequency `f`, at `COEF_SCALE`:
/// the segment sum normalized by the covered period; at zero frequency, the
/// time-weighted trapezoid mean of the interpolant. The record is real, so
/// the real part is even in `f`.
pub open spec fn spec_coeff_re(s: Seq<DataPoint>, f: int) -> int {
    if f == 0 {
        spec_tdiv(spec_trap_num(s, s.len() - 1) * 1_000_000, 2 * spec_span(s))
    } else {
        spec_tdiv(spec_sum_re(s, abs_freq(f), s.len() - 1), spec_span(s))
    }
}

/// Imaginary part of the Fourier coefficient at frequency `f`, at
/// `COEF_SCALE`; zero at zero frequency. The record is real, so the
/// coefficient at `-f` is the conjugate of the one at `f`: odd in `f`.
pub open spec fn spec_coeff_im(s: Seq<DataPoint>, f: int) -> int {
    if f == 0 {
        0
    } else if f > 0 {
        spec_tdiv(spec_sum_im(s, f, s.len() - 1), spec_span(s))
    } else {
        -spec_tdiv(spec_sum_im(s, -f, s.len() - 1), spec_span(s))
    }
}

/// `a` is the amplitude at frequency `f`: the integer magnitude of the
/// Fourier coefficient, both parts first restricted to `AMP_CAP`.
pub open spec fn spec_amplitude_ok(s: Seq<DataPoint>, f: int, a: int) -> bool {
    let re = spec_clamp(spec_coeff_re(s, f), AMP_CAP as int);
    let im = spec_clamp(spec_coeff_im(s, f), AMP_CAP as int);
    is_isqrt(re * re + im * im, a)
}

/// The series stays within the fixed-point ranges of the integrator.
pub open spec fn bounded_series(s: Seq<DataPoint>) -> bool {
    &&& 2 <= s.len() <= MAX_POINTS
    &&& s[s.len() - 1].time <= MAX_SPAN
    &&& forall|j: int|
        #![trigger s[j]]
        0 <= j < s.len() ==> -MAX_LEVEL <= s[j].water_level <= MAX_LEVEL
}

/// The frequency is zero or its magnitude is within the fixed-point range.
pub open spec fn valid_freq(f: int) -> bool {
    f == 0 || MIN_FREQ <= abs_freq(f) <= MAX_FREQ
}

/// In a sorted series, times grow with the index.
pub proof fn lemma_time_bounds(s: Seq<DataPoint>, i: int, j: int)
    requires
        forall|q: int| #![trigger s[q]] 0 <= q && q + 1 < s.len() ==> s[q].time < s[q + 1].time,
        0 <= i <= j < s.len(),
    ensures
        s[i].time <= s[j].time,
    decreases j - i,
{
    if i < j {
        lemma_time_bounds(s, i, j - 1);
        assert(s[j - 1].time < s[j - 1 + 1].time);
    }
}

/// One segment's contribution to the coefficient accumulators, at
/// `COEF_SCALE` units.
fn segment_term(p1: DataPoint, p2: DataPoint, freq: i64, iw: i128) -> (term: (i128, i128))
    requires
        0 <= p1.time < p2.time <= MAX_SPAN,
        -MAX_LEVEL <= p1.water_level <= MAX_LEVEL,
        -MAX_LEVEL <= p2.water_level <= MAX_LEVEL,
        MIN_FREQ <= freq <= MAX_FREQ,
        iw == spec_inv_omega(freq as int),
        0 <= iw <= IW_CAP,
    ensures
        term.0 == spec_seg_re(
            freq as int,
            p1.time as int,
            p1.water_level as int,
            p2.time as int,
            p2.water_level as int,
        ),
        term.1 == spec_seg_im(
            freq as int,
            p1.time as int,
            p1.water_level as int,
            p2.time as int,
            p2.water_level as int,
        ),
        -TERM_CAP <= term.0 <= TERM_CAP,
        -TERM_CAP <= term.1 <= TERM_CAP,
{
    let t1: i128 = p1.time as i128;
    let t2: i128 = p2.time as i128;
    let v1: i128 = p1.water_level as i128;
    let v2: i128 = p2.water_level as i128;
    proof {
        lemma_muldiv_bound(
            freq as int,
            t1 as int,
            MAX_FREQ as int,
            MAX_SPAN as int,
            1,
        );
        lemma_muldiv_bound(
            freq as int,
            t2 as int,
            MAX_FREQ as int,
            MAX_SPAN as int,
            1,
        );
    }
    let ph1: u128 = ((freq as u128) * (t1 as u128)) % 1_000_000_000_000;
    let ph2: u128 = ((freq as u128) * (t2 as u128)) % 1_000_000_000_000;
    proof {
        vstd::arithmetic::div_mod::lemma_mod_division_less_than_divisor(
            (freq as int) * (t1 as int),
            1_000_000_000_000,
        );
        vstd::arithmetic::div_mod::lemma_mod_division_less_than_divisor(
            (freq as int) * (t2 as int),
            1_000_000_000_000,
        );
    }
    let sc1 = sin_cos_phase(ph1);
    let sc2 = sin_cos_phase(ph2);
    let s1 = sc1.0;
    let c1 = sc1.1;
    let s2 = sc2.0;
    let c2 = sc2.1;
    proof {
        lemma_mul_bounds(s1 as int, iw as int, TRIG_SCALE as int, IW_CAP as int);
        lemma_mul_bounds(s2 as int, iw as int, TRIG_SCALE as int, IW_CAP as int);
        lemma_mul_bounds(c1 as int, iw as int, TRIG_SCALE as int, IW_CAP as int);
        lemma_mul_bounds(c2 as int, iw as int, TRIG_SCALE as int, IW_CAP as int);
    }
    let sk1 = tdiv(s1 * iw, 1_000_000_000);
    let sk2 = tdiv(s2 * iw, 1_000_000_000);
    let ck1 = tdiv(c1 * iw, 1_000_000_000);
    let ck2 = tdiv(c2 * iw, 1_000_000_000);
    proof {
        lemma_tdiv_bound_div(
            (s1 as int) * (iw as int),
            1_000_000_000,
            (TRIG_SCALE as int) * (IW_CAP as int),
            1_000_000_000,
        );
        lemma_tdiv_bound_div(
            (s2 as int) * (iw as int),
            1_000_000_000,
            (TRIG_SCALE as int) * (IW_CAP as int),
            1_000_000_000,
        );
        lemma_tdiv_bound_div(
            (c1 as int) * (iw as int),
            1_000_000_000,
            (TRIG_SCALE as int) * (IW_CAP as int),
            1_000_000_000,
        );
        lemma_tdiv_bound_div(
            (c2 as int) * (iw as int),
            1_000_000_000,
            (TRIG_SCALE as int) * (IW_CAP as int),
            1_000_000_000,
        );
        assert(-IW_CAP <= sk1 <= IW_CAP);
    }
    let dcs = c2 - c1;
    let dsn = s2 - s1;
    proof {
        lemma_mul_bounds(dcs as int, iw as int, 2_000_000_000, IW_CAP as int);
        lemma_mul_bounds(dsn as int, iw as int, 2_000_000_000, IW_CAP as int);
    }
    let q1c = tdiv(dcs * iw, 1_000_000_000);
    let q1s = tdiv(dsn * iw, 1_000_000_000);
    proof {
        lemma_tdiv_bound_div(
            (dcs as int) * (iw as int),
            1_000_000_000,
            2_000_000_000 * (IW_CAP as int),
            1_000_000_000,
        );
        lemma_tdiv_bound_div(
            (dsn as int) * (iw as int),
            1_000_000_000,
            2_000_000_000 * (IW_CAP as int),
            1_000_000_000,
        );
        assert(-Q1_CAP <= q1c <= Q1_CAP);
        lemma_mul_bounds(q1c as int, iw as int, Q1_CAP as int, IW_CAP as int);
        lemma_mul_bounds(q1s as int, iw as int, Q1_CAP as int, IW_CAP as int);
    }
    let dt: i128 = t2 - t1;
    let kc = tdiv(q1c * iw, dt * 1_000_000);
    let ks = tdiv(q1s * iw, dt * 1_000_000);
    proof {
        lemma_tdiv_bound_div(
            (q1c as int) * (iw as int),
            (dt as int) * 1_000_000,
            (Q1_CAP as int) * (IW_CAP as int),
            1_000_000,
        );
        lemma_tdiv_bound_div(
            (q1s as int) * (iw as int),
            (dt as int) * 1_000_000,
            (Q1_CAP as int) * (IW_CAP as int),
            1_000_000,
        );
        assert(-K_CAP <= kc <= K_CAP);
    }
    let dv = v2 - v1;
    proof {
        lemma_mul_bounds(dv as int, kc as int, 2_000_000_000, K_CAP as int);
        lemma_mul_bounds(dv as int, ks as int, 2_000_000_000, K_CAP as int);
        lemma_mul_bounds(v1 as int, sk1 as int, MAX_LEVEL as int, IW_CAP as int);
        lemma_mul_bounds(v2 as int, sk2 as int, MAX_LEVEL as int, IW_CAP as int);
        lemma_mul_bounds(v1 as int, ck1 as int, MAX_LEVEL as int, IW_CAP as int);
        lemma_mul_bounds(v2 as int, ck2 as int, MAX_LEVEL as int, IW_CAP as int);
    }
    let term = (dv * kc + v2 * sk2 - v1 * sk1, v2 * ck2 - v1 * ck1 - dv * ks);
    proof {
        assert(term.0 == spec_seg_re(
            freq as int,
            t1 as int,
            v1 as int,
            t2 as int,
            v2 as int,
        ));
        assert(term.1 == spec_seg_im(
            freq as int,
            t1 as int,
            v1 as int,
            t2 as int,
            v2 as int,
        ));
        assert(-TERM_CAP <= term.0 <= TERM_CAP);
        assert(-TERM_CAP <= term.1 <= TERM_CAP);
    }
    term
}

/// Componentwise sum of two accumulator pairs.
fn pair_add(a: (i128, i128), b: (i128, i128)) -> (r: (i128, i128))
    requires
        i128::MIN <= a.0 + b.0 <= i128::MAX,
        i128::MIN <= a.1 + b.1 <= i128::MAX,
    ensures
        r.0 == a.0 + b.0,
        r.1 == a.1 + b.1,
{
    (a.0 + b.0, a.1 + b.1)
}

/// Relies on rayon's `par_windows`, `map` and `reduce`: every term is
/// computed by the verified `segment_term`, and componentwise integer
/// addition is associative and commutative with `(0, 0)` as identity, so the
/// parallel reduction returns exactly the in-order sum of the per-segment
/// terms; the term and length bounds keep every partial sum inside `i128`.
#[verifier::external_body]
fn sum_segments_parallel(points: &Vec<DataPoint>, freq: i64, iw: i128) -> (r: (i128, i128))
    requires
        2 <= points@.len() <= MAX_POINTS,
        forall|j: int|
            #![trigger points@[j]]
            0 <= j < points@.len() ==> 0 <= points@[j].time <= MAX_SPAN && -MAX_LEVEL
                <= points@[j].water_level <= MAX_LEVEL,
        forall|j: int| #![trigger points@[j]] 0 <= j && j + 1 < points@.len() ==> points@[j].time
            < points@[j + 1].time,
        MIN_FREQ <= freq <= MAX_FREQ,
        iw == spec_inv_omega(freq as int),
        0 <= iw <= IW_CAP,
    ensures
        r.0 == spec_sum_re(points@, freq as int, points@.len() - 1),
        r.1 == spec_sum_im(points@, freq as int, points@.len() - 1),
        -(points@.len() as int) * (TERM_CAP as int) <= r.0 <= (points@.len() as int) * (
        TERM_CAP as int),
        -(points@.len() as int) * (TERM_CAP as int) <= r.1 <= (points@.len() as int) * (
        TERM_CAP as int),
{
    points
        .par_windows(2)
        .map(|w| segment_term(w[0], w[1], freq, iw))
        .reduce(|| (0, 0), |a, b| pair_add(a, b))
}

impl DataSet {
    /// The Fourier coefficient of the piecewise-linear interpolant at the
    /// given frequency, both parts at `COEF_SCALE` units, computed in closed
    /// form per segment and normalized by the covered period. A negative
    /// frequency yields the conjugate of the coefficient at its magnitude,
    /// as a real-valued record demands. The frequency and series bounds are
    /// machine limits of the fixed-point evaluation.
    pub fn integrate_freq(&self, freq: i64) -> (r: FourierCoeff)
        requires
            self.wf(),
            bounded_series(self@),
            valid_freq(freq as int),
        ensures
            r.re == spec_coeff_re(self@, freq as int),
            r.im == spec_coeff_im(self@, freq as int),
    {
        let n = self.len();
        let span64 = self.period_length();
        proof {
            lemma_time_bounds(self@, 1, n as int - 1);
            assert(self@[0].time < self@[1].time);
        }
        let span: i128 = span64 as i128;
        if freq == 0 {
            let mut acc: i128 = 0;
            let mut j: usize = 0;
            while j < n - 1
                invariant
                    self.wf(),
                    bounded_series(self@),
                    n == self@.len(),
                    j <= n - 1,
                    acc == spec_trap_num(self@, j as int),
                    -(j as i128) * TRAP_TERM_CAP <= acc <= (j as i128) * TRAP_TERM_CAP,
                decreases n - 1 - j,
            {
                let p1 = self.point_at(j);
                let p2 = self.point_at(j + 1);
                proof {
                    lemma_time_bounds(self@, 0, j as int);
                    lemma_time_bounds(self@, j as int + 1, n as int - 1);
                    assert(self@[j as int].time < self@[j as int + 1].time);
                }
                let vsum: i128 = p1.water_level as i128 + p2.water_level as i128;
                let dt: i128 = p2.time as i128 - p1.time as i128;
                proof {
                    lemma_mul_bounds(vsum as int, dt as int, 2_000_000_000, 1_000_000_000);
                }
                acc = acc + vsum * dt;
                j += 1;
            }
            let re = tdiv(acc * 1_000_000, 2 * span);
            FourierCoeff { re, im: 0 }
        } else {
            let mag: i64 = if freq >= 0 {
                freq
            } else {
                -freq
            };
            let freq_wide: i128 = mag as i128;
            let denom: i128 = TWO_PI_15 * freq_wide;
            let iw: i128 = tdiv(INV_NUM, denom);
            proof {
                vstd::arithmetic::div_mod::lemma_div_pos_is_pos(INV_NUM as int, denom as int);
                vstd::arithmetic::div_mod::lemma_div_is_ordered_by_denominator(
                    INV_NUM as int,
                    6_283_185_307_179_586_000,
                    denom as int,
                );
                assert(iw == spec_inv_omega(mag as int));
                assert(0 <= iw <= IW_CAP);
            }
            let mut acc_re: i128 = 0;
            let mut acc_im: i128 = 0;
            let mut j: usize = 0;
            while j < n - 1
                invariant
                    self.wf(),
                    bounded_series(self@),
                    valid_freq(freq as int),
                    MIN_FREQ <= mag <= MAX_FREQ,
                    mag as int == abs_freq(freq as int),
                    n == self@.len(),
                    j <= n - 1,
                    freq_wide == mag,
                    iw == spec_inv_omega(mag as int),
                    0 <= iw <= IW_CAP,
                    acc_re == spec_sum_re(self@, mag as int, j as int),
                    acc_im == spec_sum_im(self@, mag as int, j as int),
                    -(j as i128) * TERM_CAP <= acc_re <= (j as i128) * TERM_CAP,
                    -(j as i128) * TERM_CAP <= acc_im <= (j as i128) * TERM_CAP,
                decreases n - 1 - j,
            {
                let p1 = self.point_at(j);
                let p2 = self.point_at(j + 1);
                proof {
                    lemma_time_bounds(self@, 0, j as int);
                    lemma_time_bounds(self@, j as int + 1, n as int - 1);
                    assert(self@[j as int].time < self@[j as int + 1].time);
                }
                let term = segment_term(p1, p2, mag, iw);
                acc_re = acc_re + term.0;
                acc_im = acc_im + term.1;
                j += 1;
                proof {
                    assert(acc_re == spec_sum_re(self@, mag as int, j as int));
                    assert(acc_im == spec_sum_im(self@, mag as int, j as int));
                }
            }
            let re = tdiv(acc_re, span);
            let im0 = tdiv(acc_im, span);
            proof {
                lemma_tdiv_bound_div(
                    acc_im as int,
                    span as int,
                    20_000_000_000_000_000_000_000_000_000_000_000_000,
                    1,
                );
            }
            let im = if freq >= 0 {
                im0
            } else {
                -im0
            };
            FourierCoeff { re, im }
        }
    }

    /// The same Fourier coefficient as `integrate_freq`, with the segment
    /// sum fanned out across worker threads: addition of the per-segment
    /// terms is associative and commutative, so the reduction order cannot
    /// change the result.
    pub fn integrate_freq_parallel(&self, freq: i64) -> (r: FourierCoeff)
        requires
            self.wf(),
            bounded_series(self@),
            valid_freq(freq as int),
        ensures
            r.re == spec_coeff_re(self@, freq as int),
            r.im == spec_coeff_im(self@, freq as int),
    {
        if freq == 0 {
            return self.integrate_freq(freq);
        }
        let mag: i64 = if freq >= 0 {
            freq
        } else {
            -freq
        };
        let n = self.len();
        let span64 = self.period_length();
        proof {
            lemma_time_bounds(self@, 1, n as int - 1);
            assert(self@[0].time < self@[1].time);
        }
        let span: i128 = span64 as i128;
        let denom: i128 = TWO_PI_15 * (mag as i128);
        let iw: i128 = tdiv(INV_NUM, denom);
        proof {
            vstd::arithmetic::div_mod::lemma_div_pos_is_pos(INV_NUM as int, denom as int);
            vstd::arithmetic::div_mod::lemma_div_is_ordered_by_denominator(
                INV_NUM as int,
                6_283_185_307_179_586_000,
                denom as int,
            );
            assert(iw == spec_inv_omega(mag as int));
            assert(0 <= iw <= IW_CAP);
            assert forall|j: int| #![trigger self@[j]] 0 <= j < self@.len() implies 0
                <= self@[j].time <= MAX_SPAN by {
                lemma_time_bounds(self@, 0, j);
                lemma_time_bounds(self@, j, self@.len() - 1);
            }
        }
        let sums = sum_segments_parallel(self.points_ref(), mag, iw);
        let re = tdiv(sums.0, span);
        let im0 = tdiv(sums.1, span);
        proof {
            lemma_tdiv_bound_div(
                sums.1 as int,
                span as int,
                20_000_000_000_000_000_000_000_000_000_000_000_000,
                1,
            );
        }
        let im = if freq >= 0 {
            im0
        } else {
            -im0
        };
        FourierCoeff { re, im }
    }

    /// The amplitude at the given frequency: the integer magnitude of the
    /// Fourier coefficient, at `COEF_SCALE` units.
    pub fn amplitude(&self, freq: i64) -> (a: i128)
        requires
            self.wf(),
            bounded_series(self@),
            valid_freq(freq as int),
        ensures
            spec_amplitude_ok(self@, freq as int, a as int),
            a >= 0,
    {
        let c = self.integrate_freq(freq);
        let re = clamp(c.re, AMP_CAP);
        let im = clamp(c.im, AMP_CAP);
        proof {
            lemma_mul_bounds(re as int, re as int, AMP_CAP as int, AMP_CAP as int);
            lemma_mul_bounds(im as int, im as int, AMP_CAP as int, AMP_CAP as int);
            assert((re as int) * (re as int) >= 0 && (im as int) * (im as int) >= 0)
                by (nonlinear_arith);
        }
        let sq: i128 = re * re + im * im;
        let r = isqrt(sq as u128);
        proof {
            assert(r as int <= 2_000_000_000_000_000_000) by (nonlinear_arith)
                requires
                    (r as int) * (r as int) <= 2_000_000_000_000_000_000_000_000_000_000_000_000,
                    r >= 0,
            ;
        }
        r as i128
    }
}

/// At zero frequency the amplitude is exactly the magnitude of the
/// time-weighted trapezoid mean of the interpolant over the covered period.
pub proof fn lemma_zero_frequency_amplitude(s: Seq<DataPoint>, a: int)
    requires
        spec_amplitude_ok(s, 0, a),
        -AMP_CAP <= spec_coeff_re(s, 0) <= AMP_CAP,
    ensures
        spec_coeff_re(s, 0) == spec_tdiv(spec_trap_num(s, s.len() - 1) * 1_000_000, 2 * spec_span(s)),
        a == if spec_coeff_re(s, 0) >= 0 {
            spec_coeff_re(s, 0)
        } else {
            -spec_coeff_re(s, 0)
        },
{
    let re = spec_coeff_re(s, 0);
    let m = if re >= 0 {
        re
    } else {
        -re
    };
    assert(spec_clamp(re, AMP_CAP as int) == re);
    assert(spec_clamp(spec_coeff_im(s, 0), AMP_CAP as int) == 0);
    assert(re * re + 0 * 0 == m * m) by (nonlinear_arith)
        requires
            m == re || m == -re,
    ;
    lemma_isqrt_of_square(m, a);
}

/// Two amplitude results for the same series and frequency are identical:
/// evaluation is deterministic.
pub proof fn lemma_amplitude_deterministic(s: Seq<DataPoint>, f: int, a1: int, a2: int)
    requires
        spec_amplitude_ok(s, f, a1),
        spec_amplitude_ok(s, f, a2),
    ensures
        a1 == a2,
{
    let re = spec_clamp(spec_coeff_re(s, f), AMP_CAP as int);
    let im = spec_clamp(spec_coeff_im(s, f), AMP_CAP as int);
    lemma_isqrt_unique(re * re + im * im, a1, a2);
}

/// The amplitude spectrum of the real-valued record is symmetric: at `-f`
/// the Fourier coefficient is the complex conjugate of the one at `f`, so
/// the amplitude there is identical.
pub proof fn lemma_negative_frequency_symmetry(s: Seq<DataPoint>, f: int)
    ensures
        spec_coeff_re(s, -f) == spec_coeff_re(s, f),
        spec_coeff_im(s, -f) == -spec_coeff_im(s, f),
        forall|a: int|
            #![trigger spec_amplitude_ok(s, -f, a)]
            spec_amplitude_ok(s, -f, a) <==> spec_amplitude_ok(s, f, a),
{
    assert(abs_freq(-f) == abs_freq(f));
    assert forall|a: int|
        #![trigger spec_amplitude_ok(s, -f, a)]
        spec_amplitude_ok(s, -f, a) <==> spec_amplitude_ok(s, f, a) by {
        let re = spec_clamp(spec_coeff_re(s, f), AMP_CAP as int);
        let im = spec_clamp(spec_coeff_im(s, f), AMP_CAP as int);
        let imn = spec_clamp(spec_coeff_im(s, -f), AMP_CAP as int);
        assert(imn == -im);
        assert(imn * imn == im * im) by (nonlinear_arith)
            requires
                imn == -im,
        ;
    }
}

/// Two series with the same points have the same spectrum: the coefficient
/// and amplitude are functions of the normalized points alone. Together with
/// the time-shift law on raw samples, the whole amplitude spectrum is
/// unaffected by shifting every timestamp by one constant.
pub proof fn lemma_equal_points_equal_spectrum(s1: Seq<DataPoint>, s2: Seq<DataPoint>, f: int)
    requires
        s1.len() == s2.len(),
        forall|j: int| #![trigger s1[j], s2[j]] 0 <= j < s1.len() ==> s1[j] == s2[j],
    ensures
        spec_coeff_re(s1, f) == spec_coeff_re(s2, f),
        spec_coeff_im(s1, f) == spec_coeff_im(s2, f),
        forall|a: int| spec_amplitude_ok(s1, f, a) == spec_amplitude_ok(s2, f, a),
{
    assert(s1 =~= s2);
}

/// The series with every level multiplied by `k`.
pub open spec fn scale_levels(s: Seq<DataPoint>, k: int) -> Seq<DataPoint> {
    Seq::new(
        s.len(),
        |i: int| DataPoint { time: s[i].time, water_level: (k * s[i].water_level) as i64 },
    )
}

/// Scaling every water level by `k` scales the segment sums and the
/// trapezoid sum by exactly `k`: the accumulated coefficient is linear in
/// the levels (levels enter only through exact products and sums).
pub proof fn lemma_scale_invariance(s: Seq<DataPoint>, k: int, f: int, m: int)
    requires
        0 <= m < s.len(),
        forall|j: int|
            #![trigger s[j]]
            0 <= j < s.len() ==> i64::MIN <= k * s[j].water_level <= i64::MAX,
    ensures
        spec_sum_re(scale_levels(s, k), f, m) == k * spec_sum_re(s, f, m),
        spec_sum_im(scale_levels(s, k), f, m) == k * spec_sum_im(s, f, m),
        spec_trap_num(scale_levels(s, k), m) == k * spec_trap_num(s, m),
    decreases m,
{
    let sc = scale_levels(s, k);
    if m <= 0 {
    } else {
        lemma_scale_invariance(s, k, f, m - 1);
        let t1 = s[m - 1].time as int;
        let t2 = s[m].time as int;
        let v1 = s[m - 1].water_level as int;
        let v2 = s[m].water_level as int;
        assert(sc[m - 1].water_level as int == k * v1);
        assert(sc[m].water_level as int == k * v2);
        assert(sc[m - 1].time as int == t1);
        assert(sc[m].time as int == t2);
        let kc = spec_seg_cos_kernel(f, t1, t2);
        let ksn = spec_seg_sin_kernel(f, t1, t2);
        let sk1 = spec_point_sin_kernel(f, t1);
        let sk2 = spec_point_sin_kernel(f, t2);
        let ck1 = spec_point_cos_kernel(f, t1);
        let ck2 = spec_point_cos_kernel(f, t2);
        assert((k * v2 - k * v1) * kc == k * ((v2 - v1) * kc)) by (nonlinear_arith);
        assert((k * v2) * sk2 == k * (v2 * sk2)) by (nonlinear_arith);
        assert((k * v1) * sk1 == k * (v1 * sk1)) by (nonlinear_arith);
        assert((k * v2) * ck2 == k * (v2 * ck2)) by (nonlinear_arith);
        assert((k * v1) * ck1 == k * (v1 * ck1)) by (nonlinear_arith);
        assert((k * v2 - k * v1) * ksn == k * ((v2 - v1) * ksn)) by (nonlinear_arith);
        let a1 = (v2 - v1) * kc;
        let a2 = v2 * sk2;
        let a3 = v1 * sk1;
        let b1 = v2 * ck2;
        let b2 = v1 * ck1;
        let b3 = (v2 - v1) * ksn;
        assert(k * a1 + k * a2 - k * a3 == k * (a1 + a2 - a3)) by (nonlinear_arith);
        assert(k * b1 - k * b2 - k * b3 == k * (b1 - b2 - b3)) by (nonlinear_arith);
        assert((k * v1 + k * v2) * (t2 - t1) == k * ((v1 + v2) * (t2 - t1))) by (nonlinear_arith);
        assert(k * (spec_sum_re(s, f, m - 1) + spec_seg_re(f, t1, v1, t2, v2)) == k * spec_sum_re(
            s,
            f,
            m - 1,
        ) + k * spec_seg_re(f, t1, v1, t2, v2)) by (nonlinear_arith);
        assert(k * (spec_sum_im(s, f, m - 1) + spec_seg_im(f, t1, v1, t2, v2)) == k * spec_sum_im(
            s,
            f,
            m - 1,
        ) + k * spec_seg_im(f, t1, v1, t2, v2)) by (nonlinear_arith);
        assert(k * (spec_trap_num(s, m - 1) + (v1 + v2) * (t2 - t1)) == k * spec_trap_num(s, m - 1)
            + k * ((v1 + v2) * (t2 - t1))) by (nonlinear_arith);
    }
}

} // verus!
