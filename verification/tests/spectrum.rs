use tides_ft::series::{DataSet, TideError};
use tides_ft::sweep::fourier;

const FREQ_ONE: i64 = 1_000_000_000_000;
const LEVEL_ONE: i64 = 1_000_000;
const COEF_ONE: i128 = 1_000_000_000_000;

fn level_of(x: f64) -> i64 {
    (x * LEVEL_ONE as f64).round() as i64
}

fn triangle_set() -> DataSet {
    let samples: Vec<(i64, i64)> = vec![
        (0, LEVEL_ONE),
        (3600, 2 * LEVEL_ONE),
        (7200, LEVEL_ONE),
    ];
    DataSet::from_samples(&samples).unwrap()
}

fn sine_samples() -> Vec<(i64, i64)> {
    // One millihertz sampled every 25 s across four whole periods.
    let f0 = 0.001_f64;
    let mut samples: Vec<(i64, i64)> = Vec::new();
    let mut k: i64 = 0;
    while k <= 160 {
        let t = (k * 25) as f64;
        let v = (2.0 * std::f64::consts::PI * f0 * t).sin();
        samples.push((k * 25, level_of(v)));
        k += 1;
    }
    samples
}

fn sine_set() -> DataSet {
    DataSet::from_samples(&sine_samples()).unwrap()
}

#[test]
fn zero_frequency_is_time_weighted_mean() {
    // A triangular profile returning to its start: the trapezoid average is
    // exactly 1.5 metres.
    let data = triangle_set();
    let points = fourier(&data, 0, 0, FREQ_ONE).unwrap();
    assert_eq!(points.len(), 1);
    assert_eq!(points[0].freq, 0);
    assert_eq!(points[0].amplitude, 1_500_000_000_000);
}

#[test]
fn zero_frequency_of_ramp() {
    // A pure ramp from 1 m to 3 m averages to exactly 2 m.
    let samples: Vec<(i64, i64)> = vec![(0, LEVEL_ONE), (100, 3 * LEVEL_ONE)];
    let data = DataSet::from_samples(&samples).unwrap();
    let points = fourier(&data, 0, 0, FREQ_ONE).unwrap();
    assert_eq!(points.len(), 1);
    assert_eq!(points[0].amplitude, 2 * COEF_ONE);
}

#[test]
fn sinusoid_amplitude_is_half_at_its_frequency() {
    let data = sine_set();
    let f0: i64 = 1_000_000_000; // 0.001 Hz
    let points = fourier(&data, f0, f0, FREQ_ONE).unwrap();
    assert_eq!(points.len(), 1);
    let amp = points[0].amplitude;
    let expected: i128 = COEF_ONE / 2;
    let err = (amp - expected).abs();
    assert!(
        err < COEF_ONE / 50,
        "amplitude {} too far from {}",
        amp,
        expected
    );
}

#[test]
fn sinusoid_amplitude_away_from_its_frequency_is_small() {
    let data = sine_set();
    // Two full cycles per record length away from the tone: near-zero response.
    let f: i64 = 2_000_000_000; // 0.002 Hz
    let points = fourier(&data, f, f, FREQ_ONE).unwrap();
    assert!(points[0].amplitude < COEF_ONE / 20);
}

#[test]
fn sweep_grid_has_exact_count_and_order() {
    let data = triangle_set();
    let quarter = FREQ_ONE / 4;
    let points = fourier(&data, 0, FREQ_ONE, quarter).unwrap();
    assert_eq!(points.len(), 5);
    let freqs: Vec<i64> = points.iter().map(|p| p.freq).collect();
    assert_eq!(
        freqs,
        vec![0, quarter, 2 * quarter, 3 * quarter, 4 * quarter]
    );
    let mut k = 1;
    while k < points.len() {
        assert!(points[k - 1].freq < points[k].freq);
        k += 1;
    }
}

#[test]
fn sweep_is_deterministic() {
    let data = sine_set();
    let a = fourier(&data, 0, FREQ_ONE, FREQ_ONE / 4).unwrap();
    let b = fourier(&data, 0, FREQ_ONE, FREQ_ONE / 4).unwrap();
    assert_eq!(a, b);
}

#[test]
fn scaling_levels_scales_amplitudes() {
    let base = sine_samples();
    let scaled: Vec<(i64, i64)> = base.iter().map(|p| (p.0, 3 * p.1)).collect();
    let one = DataSet::from_samples(&base).unwrap();
    let three = DataSet::from_samples(&scaled).unwrap();
    let f0: i64 = 1_000_000_000;
    for f in [0_i64, f0, 2 * f0] {
        let step = if f == 0 { FREQ_ONE } else { f };
        let a1 = fourier(&one, f, f, step).unwrap()[0].amplitude;
        let a3 = fourier(&three, f, f, step).unwrap()[0].amplitude;
        // The accumulated coefficient is exactly linear in the levels; only
        // the final normalization and the square root round.
        assert!(
            (a3 - 3 * a1).abs() <= 10,
            "3 * {} vs {} at {}",
            a1,
            a3,
            f
        );
    }
}

#[test]
fn time_shift_leaves_spectrum_unchanged() {
    let base: Vec<(i64, i64)> = vec![
        (0, LEVEL_ONE),
        (3600, 2 * LEVEL_ONE),
        (7200, LEVEL_ONE),
        (10800, 3 * LEVEL_ONE),
    ];
    let shifted: Vec<(i64, i64)> = base.iter().map(|p| (p.0 + 86_400, p.1)).collect();
    let d1 = DataSet::from_samples(&base).unwrap();
    let d2 = DataSet::from_samples(&shifted).unwrap();
    let a = fourier(&d1, 0, FREQ_ONE, FREQ_ONE / 4).unwrap();
    let b = fourier(&d2, 0, FREQ_ONE, FREQ_ONE / 4).unwrap();
    assert_eq!(a, b);
}

#[test]
fn degenerate_segment_is_rejected() {
    let samples: Vec<(i64, i64)> = vec![(0, LEVEL_ONE), (0, 2 * LEVEL_ONE)];
    assert!(matches!(
        DataSet::from_samples(&samples),
        Err(TideError::DegenerateSegment)
    ));
    let backwards: Vec<(i64, i64)> = vec![(100, LEVEL_ONE), (50, 2 * LEVEL_ONE)];
    assert!(matches!(
        DataSet::from_samples(&backwards),
        Err(TideError::DegenerateSegment)
    ));
}

#[test]
fn empty_input_is_rejected() {
    let samples: Vec<(i64, i64)> = vec![];
    assert!(matches!(
        DataSet::from_samples(&samples),
        Err(TideError::EmptyInput)
    ));
}

#[test]
fn invalid_range_is_rejected() {
    let data = triangle_set();
    assert_eq!(
        fourier(&data, FREQ_ONE, 0, FREQ_ONE / 4),
        Err(TideError::InvalidRange)
    );
    assert_eq!(
        fourier(&data, 0, FREQ_ONE, 0),
        Err(TideError::InvalidRange)
    );
    assert_eq!(
        fourier(&data, 0, FREQ_ONE, -FREQ_ONE),
        Err(TideError::InvalidRange)
    );
}

#[test]
fn parallel_sum_matches_sequential() {
    let data = sine_set();
    for f in [0_i64, 1_000_000_000, 1_700_000_000] {
        let a = data.integrate_freq(f);
        let b = data.integrate_freq_parallel(f);
        assert_eq!(a, b);
    }
}

#[test]
fn negative_frequency_amplitude_is_symmetric() {
    let data = sine_set();
    for f in [1_000_000_000_i64, 1_700_000_000] {
        let pos = data.integrate_freq(f);
        let neg = data.integrate_freq(-f);
        assert_eq!(neg.re, pos.re);
        assert_eq!(neg.im, -pos.im);
        assert_eq!(data.amplitude(-f), data.amplitude(f));
    }
}
