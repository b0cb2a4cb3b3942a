//! Sweeping the integrator across a frequency band at a fixed step.

use vstd::prelude::*;
use crate::series::{DataSet, TideError};
use crate::integrate::{
    spec_amplitude_ok, bounded_series, MIN_FREQ, MAX_FREQ,
};

verus! {

/// One point of the amplitude spectrum: a frequency at `FREQ_SCALE` units
/// per hertz and the amplitude there at `COEF_SCALE` units.
#[derive(Clone, Copy, PartialEq, Eq, Structural, Debug)]
pub struct FtPoint {
    pub freq: i64,
    pub amplitude: i128,
}

/// Evaluates the amplitude spectrum at `start_freq, start_freq + step, ...`,
/// stopping at the last frequency at or under `end_freq`. Rejects a
/// non-positive step or inverted bounds as an invalid range; otherwise the
/// result holds exactly `(end_freq - start_freq) / step + 1` points, the
/// frequencies form that grid in ascending order, and every amplitude is the
/// pinned integer magnitude of the Fourier coefficient at its frequency. The
/// frequency bounds beyond the range check are machine limits of the
/// fixed-point kernels.
#[verifier::rlimit(60)]
pub fn fourier(data: &DataSet, start_freq: i64, end_freq: i64, step: i64) -> (r: Result<
    Vec<FtPoint>,
    TideError,
>)
    requires
        data.wf(),
        bounded_series(data@),
        start_freq >= 0,
        end_freq <= MAX_FREQ,
        start_freq == 0 || start_freq >= MIN_FREQ,
        step <= 0 || MIN_FREQ <= step <= MAX_FREQ,
    ensures
        r == Err::<Vec<FtPoint>, TideError>(TideError::InvalidRange) <==> (step <= 0 || start_freq
            > end_freq),
        r.is_ok() <==> step > 0 && start_freq <= end_freq,
        r.is_ok() ==> {
            let v = r.unwrap()@;
            &&& v.len() == (end_freq - start_freq) / (step as int) + 1
            &&& forall|q: int|
                #![trigger v[q]]
                0 <= q < v.len() ==> v[q].freq == start_freq + q * step && spec_amplitude_ok(
                    data@,
                    v[q].freq as int,
                    v[q].amplitude as int,
                ) && v[q].amplitude >= 0
            &&& forall|q: int| #![trigger v[q]] 0 <= q && q + 1 < v.len() ==> v[q].freq < v[q
                + 1].freq
        },
{
    if step <= 0 || start_freq > end_freq {
        return Err(TideError::InvalidRange);
    }
    let mut result: Vec<FtPoint> = Vec::new();
    let mut current: i64 = start_freq;
    while current <= end_freq
        invariant
            data.wf(),
            bounded_series(data@),
            MIN_FREQ <= step <= MAX_FREQ,
            0 <= start_freq <= end_freq <= MAX_FREQ,
            start_freq == 0 || start_freq >= MIN_FREQ,
            current == start_freq + (result@.len() as int) * step,
            result@.len() > 0 ==> current - step <= end_freq,
            forall|q: int|
                #![trigger result@[q]]
                0 <= q < result@.len() ==> result@[q].freq == start_freq + q * step
                    && spec_amplitude_ok(data@, result@[q].freq as int, result@[q].amplitude as int)
                    && result@[q].amplitude >= 0,
        decreases end_freq + step - current,
    {
        proof {
            if result@.len() > 0 {
                assert((result@.len() as int) * step >= step) by (nonlinear_arith)
                    requires
                        result@.len() >= 1,
                        step >= 1,
                ;
            }
        }
        let amp = data.amplitude(current);
        let ghost old_len = result@.len() as int;
        result.push(FtPoint { freq: current, amplitude: amp });
        proof {
            assert((old_len + 1) * step == old_len * step + step) by (nonlinear_arith);
        }
        current = current + step;
    }
    proof {
        assert(result@.len() > 0);
        let q = result@.len() as int - 1;
        let x = end_freq - start_freq;
        assert((q + 1) * step == q * step + step) by (nonlinear_arith);
        assert(q * step <= x < (q + 1) * step);
        vstd::arithmetic::div_mod::lemma_fundamental_div_mod_converse_div(
            x,
            step as int,
            q,
            x - q * step,
        );
        assert(result@.len() == x / (step as int) + 1);
        assert forall|a: int| #![trigger result@[a]] 0 <= a && a + 1 < result@.len() implies
            result@[a].freq < result@[a + 1].freq by {
            assert((a + 1) * step == a * step + step) by (nonlinear_arith);
        }
    }
    Ok(result)
}

} // verus!
