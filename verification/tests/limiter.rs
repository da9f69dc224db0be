use soundlock::arithmetic::Arithmetic;
use soundlock::config::LimiterParams;
use soundlock::limiter::LoudnessLimiter;
use soundlock::runtime_params::RuntimeLimiterParams;
use soundlock::single::Single;

struct Host;

fn n(value: f32) -> Single {
    Single::from_bits(value.to_bits())
}

fn f(value: Single) -> f32 {
    f32::from_bits(value.to_bits())
}

impl Arithmetic for Host {
    fn sum(a: Single, b: Single) -> Single {
        n(f(a) + f(b))
    }

    fn difference(a: Single, b: Single) -> Single {
        n(f(a) - f(b))
    }

    fn product(a: Single, b: Single) -> Single {
        n(f(a) * f(b))
    }

    fn quotient(a: Single, b: Single) -> Single {
        n(f(a) / f(b))
    }

    fn square_root(a: Single) -> Single {
        n(f(a).sqrt())
    }

    fn exponential(a: Single) -> Single {
        n(f(a).exp())
    }

    fn power_of_ten(a: Single) -> Single {
        n(10.0f32.powf(f(a)))
    }

    fn logarithm(a: Single) -> Single {
        n(f(a).log10())
    }

    fn from_integer(value: u64) -> Single {
        n(value as f32)
    }

    fn rounded(a: Single) -> u64 {
        f(a).round() as u64
    }

    fn truncated(a: Single) -> u64 {
        f(a) as u64
    }

    fn rounded_signed(a: Single) -> i32 {
        f(a).round() as i32
    }
}

fn test_params() -> LimiterParams {
    LimiterParams {
        threshold_db: n(0.0),
        attack_ms: 10,
        release_ms: 50,
        pre_gain_db: n(0.0),
        peak_release_ms: 50,
    }
}

fn make_limiter(sample_rate: f32, params: LimiterParams) -> LoudnessLimiter {
    let runtime = RuntimeLimiterParams::from_params(params);
    let mut limiter = LoudnessLimiter::new::<Host>(&runtime);
    limiter.set_sample_rate::<Host>(n(sample_rate));
    limiter.begin_audio_callback::<Host>(&runtime);
    limiter
}

fn process(limiter: &mut LoudnessLimiter, left: f32, right: f32) -> (f32, f32) {
    let (l, r) = limiter.process_stereo_frame::<Host>(n(left), n(right));
    (f(l), f(r))
}

#[test]
fn startup_lookahead_outputs_silence_then_audio() {
    let mut limiter = make_limiter(48_000.0, test_params());
    let n = limiter.lookahead_samples;

    for _ in 0..n {
        let (l, r) = process(&mut limiter, 0.5, 0.25);
        assert_eq!(l, 0.0);
        assert_eq!(r, 0.0);
    }

    let (l, r) = process(&mut limiter, 0.5, 0.25);
    assert!(l.abs() > 0.0);
    assert!(r.abs() > 0.0);
}

#[test]
fn channels_are_interchangeable() {
    let mut one = make_limiter(48_000.0, test_params());
    let mut other = make_limiter(48_000.0, test_params());
    for index in 0..3_000 {
        let left = ((index * 37 % 101) as f32 / 50.0 - 1.0) * 3.0;
        let right = (index * 53 % 89) as f32 / 44.0 - 1.0;
        let (l, r) = process(&mut one, left, right);
        assert_eq!(process(&mut other, right, left), (r, l));
    }
    assert_eq!(one.fullband_rms, other.fullband_rms);
    assert_eq!(one.peak_hold_gain, other.peak_hold_gain);
    assert_eq!(one.lookahead_l, other.lookahead_r);
    assert_eq!(one.lookahead_r, other.lookahead_l);
}

#[test]
fn gain_falls_as_the_level_rises() {
    // The gain that a steady level comes to, below, in and above the knee.
    let settled = |amplitude: f32| {
        let mut limiter = make_limiter(48_000.0, test_params());
        for _ in 0..96_000 {
            process(&mut limiter, amplitude, amplitude);
        }
        f(limiter.gain_smoother)
    };
    let threshold = f(test_params().threshold_db);
    let at = |db: f32| settled(10.0f32.powf((threshold + db) / 20.0));
    assert!((at(-4.0) - 1.0).abs() < 1e-3);
    let gains = [at(-2.0), at(0.0), at(2.0), at(6.0)];
    assert!(gains.windows(2).all(|pair| pair[1] < pair[0]));
    // Above the knee the level comes down to the threshold.
    assert!((20.0 * gains[3].log10() + 6.0).abs() < 0.05);
}

#[test]
fn sample_that_is_not_finite_acts_like_zero() {
    let mut one = make_limiter(48_000.0, test_params());
    let mut other = make_limiter(48_000.0, test_params());
    for index in 0..600 {
        let right = (index % 50) as f32 / 25.0 - 1.0;
        let broken = [f32::NAN, f32::INFINITY, f32::NEG_INFINITY][index % 3];
        assert_eq!(process(&mut one, broken, right), process(&mut other, 0.0, right));
        assert!((0.0..=1.0).contains(&f(one.gain_smoother)));
        assert!((0.0..=1.0).contains(&f(one.peak_gain_smoother)));
    }
    assert_eq!(one.fullband_rms, other.fullband_rms);
}

#[test]
fn new_rate_empties_the_delay_lines() {
    let mut limiter = make_limiter(48_000.0, test_params());
    for _ in 0..7 {
        process(&mut limiter, 2.0, 2.0);
    }
    assert_eq!(limiter.lookahead_pos, 7);
    // No stream has such a rate.
    limiter.set_sample_rate::<Host>(n(7_999.0));
    assert_eq!(limiter.lookahead_pos, 7);
    assert_eq!(f(limiter.sample_rate), 48_000.0);
    limiter.set_sample_rate::<Host>(n(8_000.0));
    assert_eq!(limiter.lookahead_pos, 0);
    assert_eq!(limiter.lookahead_l, vec![n(0.0); 40]);
    assert_eq!(limiter.lookahead_r, vec![n(0.0); 40]);
    assert_eq!(f(limiter.peak_hold_gain), 1.0);
    assert_eq!(limiter.peak_hold_counter, 0);
}

#[test]
fn ceiling_is_respected_at_common_sample_rates() {
    for sample_rate in [44_100.0, 48_000.0, 96_000.0] {
        let mut params = test_params();
        params.pre_gain_db = n(12.0);
        let mut limiter = make_limiter(sample_rate, params);

        let frames = limiter.lookahead_samples + 2_000;
        for _ in 0..frames {
            let (l, r) = process(&mut limiter, 1.0, -1.0);
            assert!(
                l.abs() <= f(limiter.peak_threshold_linear) + 1e-6,
                "left exceeded ceiling at {sample_rate} Hz: {l}"
            );
            assert!(
                r.abs() <= f(limiter.peak_threshold_linear) + 1e-6,
                "right exceeded ceiling at {sample_rate} Hz: {r}"
            );
        }
    }
}

#[test]
fn non_finite_input_never_reaches_output() {
    let mut limiter = make_limiter(48_000.0, test_params());

    for index in 0..2_000 {
        let left = match index % 3 {
            0 => f32::NAN,
            1 => f32::INFINITY,
            _ => f32::NEG_INFINITY,
        };

        let right = match index % 3 {
            0 => f32::NEG_INFINITY,
            1 => f32::NAN,
            _ => f32::INFINITY,
        };

        let (l, r) = process(&mut limiter, left, right);
        assert!(l.is_finite());
        assert!(r.is_finite());
        assert!(l.abs() <= f(limiter.peak_threshold_linear) + 1e-6);
        assert!(r.abs() <= f(limiter.peak_threshold_linear) + 1e-6);
    }
}

#[test]
fn stereo_ratio_is_preserved_when_no_ceiling_clamp_occurs() {
    let mut limiter = make_limiter(48_000.0, test_params());
    let frames = limiter.lookahead_samples + 1_000;
    let mut last = (0.0, 0.0);

    for _ in 0..frames {
        last = process(&mut limiter, 0.2, 0.1);
    }

    assert!(last.1.abs() > 1e-6);
    let ratio = last.0 / last.1;
    assert!((ratio - 2.0).abs() < 1e-4, "ratio={ratio}");
}

#[test]
fn one_sided_peak_uses_linked_gain_for_both_channels() {
    let mut limiter = make_limiter(48_000.0, test_params());

    // A quiet right channel fills the lookahead first.
    for _ in 0..(limiter.lookahead_samples + 500) {
        let _ = process(&mut limiter, 0.0, 0.1);
    }

    // Then a strong transient on the left, while the right stays at 0.1.
    let _ = process(&mut limiter, 1.0, 0.1);

    let mut delayed_impulse_frame = (0.0f32, 0.0f32);
    for _ in 0..limiter.lookahead_samples {
        delayed_impulse_frame = process(&mut limiter, 0.0, 0.1);
    }

    assert!(delayed_impulse_frame.0.abs() <= f(limiter.peak_threshold_linear) + 1e-5);
    assert!(
        delayed_impulse_frame.1.abs() < 0.095,
        "right channel was not linked strongly enough: {}",
        delayed_impulse_frame.1
    );
}

#[test]
fn peak_hold_is_not_relaxed_by_a_smaller_over_threshold_peak() {
    let mut limiter = make_limiter(48_000.0, test_params());

    let _ = process(&mut limiter, 1.0, 0.0);
    let first_hold = f(limiter.peak_hold_gain);
    assert!(first_hold < 1.0);

    // 0.8 is above the ceiling too, but below the first peak.
    let _ = process(&mut limiter, 0.8, 0.0);
    let second_hold = f(limiter.peak_hold_gain);

    assert!(second_hold <= first_hold + 1e-6);
    assert_eq!(limiter.peak_hold_counter, limiter.lookahead_samples);
}

#[test]
fn pre_gain_change_is_smoothed_not_stepped() {
    let mut runtime = RuntimeLimiterParams::from_params(test_params());
    let mut limiter = LoudnessLimiter::new::<Host>(&runtime);
    limiter.set_sample_rate::<Host>(n(48_000.0));
    limiter.begin_audio_callback::<Host>(&runtime);

    let new_params = LimiterParams {
        pre_gain_db: n(12.0),
        ..test_params()
    };
    runtime.publish(new_params);
    limiter.begin_audio_callback::<Host>(&runtime);

    let before = f(limiter.pre_gain_smoother);
    let target = f(limiter.pre_gain_target_linear);
    assert!(target > before);

    let _ = process(&mut limiter, 0.01, 0.01);
    let after_one = f(limiter.pre_gain_smoother);

    assert!(after_one > before);
    assert!(after_one < target);

    for _ in 0..48_000 {
        let _ = process(&mut limiter, 0.01, 0.01);
    }

    assert!(f(limiter.pre_gain_smoother) <= target + 1e-5);
    assert!((f(limiter.pre_gain_smoother) - target).abs() < 1e-3);
}

#[test]
fn new_limiter_has_the_coefficients_of_48_khz() {
    let runtime = RuntimeLimiterParams::from_params(test_params());
    let limiter = LoudnessLimiter::new::<Host>(&runtime);
    assert_eq!(f(limiter.sample_rate), 48_000.0);
    assert_eq!(limiter.lookahead_samples, 240);
    assert_eq!(limiter.last_parameter_version, u64::MAX);
    assert_eq!(f(limiter.attack_coeff), (-1.0f32 / (0.01f32 * 48_000.0)).exp());
    assert_eq!(f(limiter.peak_threshold_linear), 10.0f32.powf(-3.0 / 20.0));
    assert_eq!(f(limiter.gain_smoother), 1.0);
}

#[test]
fn impossible_sample_rates_are_ignored() {
    let mut limiter = make_limiter(44_100.0, test_params());
    let lookahead = limiter.lookahead_samples;
    for rate in [f32::NAN, f32::INFINITY, 7_999.0, -48_000.0] {
        limiter.set_sample_rate::<Host>(n(rate));
        assert_eq!(f(limiter.sample_rate), 44_100.0);
        assert_eq!(limiter.lookahead_samples, lookahead);
    }
    limiter.set_sample_rate::<Host>(n(8_000.0));
    assert_eq!(f(limiter.sample_rate), 8_000.0);
    assert_eq!(limiter.lookahead_samples, 40);
}

#[test]
fn output_is_the_input_of_one_lookahead_before() {
    let mut limiter = make_limiter(48_000.0, test_params());
    let lookahead = limiter.lookahead_samples;
    let _ = process(&mut limiter, 0.125, -0.25);
    for _ in 1..lookahead {
        assert_eq!(process(&mut limiter, 0.0, 0.0), (0.0, 0.0));
    }
    // A quiet frame is not scaled at all.
    assert_eq!(process(&mut limiter, 0.0, 0.0), (0.125, -0.25));
    assert_eq!(process(&mut limiter, 0.0, 0.0), (0.0, 0.0));
}

#[test]
fn hold_lasts_until_the_peak_has_left_the_delay_line() {
    let mut limiter = make_limiter(48_000.0, test_params());
    let _ = process(&mut limiter, 1.0, 1.0);
    let held = f(limiter.peak_hold_gain);
    assert!(held < 1.0);
    for _ in 0..limiter.lookahead_samples {
        let _ = process(&mut limiter, 0.0, 0.0);
        assert_eq!(f(limiter.peak_hold_gain), held);
    }
    let _ = process(&mut limiter, 0.0, 0.0);
    assert_eq!(f(limiter.peak_hold_gain), 1.0);
}

#[test]
fn not_a_number_counts_as_silence() {
    let mut with_nan = make_limiter(48_000.0, test_params());
    let mut with_zero = make_limiter(48_000.0, test_params());
    for index in 0..1_000 {
        let left = if index % 7 == 0 { f32::NAN } else { 0.3 };
        let clean = if index % 7 == 0 { 0.0 } else { 0.3 };
        assert_eq!(
            process(&mut with_nan, left, 0.6),
            process(&mut with_zero, clean, 0.6)
        );
    }
}

#[test]
fn gain_stays_between_zero_and_one() {
    let mut params = test_params();
    params.threshold_db = n(-30.0);
    params.pre_gain_db = n(12.0);
    let mut limiter = make_limiter(48_000.0, params);
    for index in 0..10_000 {
        let x = ((index as f32) * 0.37).sin() * 2.0;
        let _ = process(&mut limiter, x, -x);
        assert!((0.0..=1.0).contains(&f(limiter.gain_smoother)));
        assert!((0.0..=1.0).contains(&f(limiter.peak_gain_smoother)));
    }
    assert!(f(limiter.gain_smoother) < 0.1);
}

#[test]
fn order_of_bit_patterns_is_order_of_numbers() {
    let values = [
        f32::NEG_INFINITY,
        -3.5e20,
        -1.0,
        -1e-42,
        -0.0,
        0.0,
        1e-42,
        0.5,
        1.0,
        3.4e38,
        f32::INFINITY,
    ];
    for a in values {
        for b in values {
            assert_eq!(n(a).lt(n(b)), a < b);
            assert_eq!(n(a).le(n(b)), a <= b);
            assert_eq!(n(a).is_same(n(b)), a == b);
            assert_eq!(f(n(a).max(n(b))), a.max(b));
            assert_eq!(f(n(a).min(n(b))), a.min(b));
        }
        assert!(!n(a).lt(n(f32::NAN)));
        assert!(!n(f32::NAN).le(n(a)));
        assert_eq!(f(n(a).abs()), a.abs());
        assert_eq!(f(n(a).neg()), -a);
        assert_eq!(n(a).is_finite(), a.is_finite());
        assert_eq!(f(n(a).clamp(n(-2.0), n(2.0))), a.clamp(-2.0, 2.0));
        assert_eq!(f(n(f32::NAN).max(n(a))), a);
    }
    assert!(n(f32::NAN).is_nan());
    assert!(f(n(f32::NAN).clamp(n(-2.0), n(2.0))).is_nan());
    assert!(!n(f32::NAN).is_same(n(f32::NAN)));
}
