//! What the constants stand for, as exact values.

use vstd::prelude::*;

use crate::single::{scaled_magnitude, single, Single};

verus! {

/// `x` is exactly the number `n / d`.
pub open spec fn is_number(x: Single, n: int, d: int) -> bool {
    x.finite() && x.scaled() * d == n * vstd::arithmetic::power2::pow2(149)
}

/// A pattern whose leading digits, `digits` of them behind the point, make up `n / d`.
proof fn lemma_number(pattern: nat, digits: nat, n: nat, d: nat)
    requires
        1 <= pattern / 0x80_0000 <= 150,
        digits == 150 - pattern / 0x80_0000,
        (0x80_0000 + pattern % 0x80_0000) * d == n * vstd::arithmetic::power2::pow2(digits),
    ensures
        scaled_magnitude(pattern) * d == n * vstd::arithmetic::power2::pow2(149),
{
    let exponent = (pattern / 0x80_0000 - 1) as nat;
    let mantissa = 0x80_0000 + pattern % 0x80_0000;
    let unit = vstd::arithmetic::power2::pow2(exponent);
    let rest = vstd::arithmetic::power2::pow2(digits);
    vstd::arithmetic::power2::lemma_pow2_adds(exponent, digits);
    assert(unit * rest == vstd::arithmetic::power2::pow2(149));
    assert((mantissa * unit) * d == n * (unit * rest)) by (nonlinear_arith)
        requires
            mantissa * d == n * rest,
    ;
}

/// The ceiling is at -3 decibels and the knee is 6 decibels wide; a limiter starts at 48000
/// frames a second and takes no rate below 8000. Silence is told as -120 decibels. The plain
/// numbers are what they are called.
pub proof fn law_numbers_of_the_limiter()
    ensures
        is_number(single(crate::limiter::PEAK_THRESHOLD_DB), -3, 1),
        is_number(single(crate::limiter::RMS_KNEE_DB), 6, 1),
        is_number(single(crate::limiter::ZERO), 0, 1),
        is_number(single(crate::limiter::ONE), 1, 1),
        is_number(single(crate::limiter::MINUS_ONE), -1, 1),
        is_number(single(crate::limiter::HALF), 1, 2),
        is_number(single(crate::limiter::TWO), 2, 1),
        is_number(single(crate::limiter::TWENTY), 20, 1),
        is_number(single(crate::limiter::THOUSAND), 1000, 1),
        is_number(single(crate::limiter::SILENCE_DB), -120, 1),
        is_number(single(crate::limiter::INITIAL_SAMPLE_RATE), 48000, 1),
        is_number(single(crate::limiter::LOWEST_SAMPLE_RATE), 8000, 1),
{
    vstd::arithmetic::power2::lemma2_to64();
    vstd::arithmetic::power2::lemma_pow2_pos(149);
    lemma_number(0x40400000, 22, 3, 1);
    lemma_number(0x40c00000, 21, 6, 1);
    lemma_number(0x3f800000, 23, 1, 1);
    lemma_number(0x3f800000, 23, 1, 1);
    lemma_number(0x3f000000, 24, 1, 2);
    lemma_number(0x40000000, 22, 2, 1);
    lemma_number(0x41a00000, 19, 20, 1);
    lemma_number(0x447a0000, 14, 1000, 1);
    lemma_number(0x42f00000, 17, 120, 1);
    lemma_number(0x473b8000, 8, 48000, 1);
    lemma_number(0x45fa0000, 11, 8000, 1);
    assert(scaled_magnitude(0) == 0);
}

/// The ring is kept at 150 milliseconds, may stray by 30, is corrected every 250, and a session
/// is faded in over 10.
pub proof fn law_numbers_of_the_ring()
    ensures
        is_number(single(crate::geometry::TARGET_RING_LATENCY_MS), 150, 1),
        is_number(single(crate::geometry::RING_DRIFT_DEADBAND_MS), 30, 1),
        is_number(single(crate::geometry::RING_DRIFT_CORRECTION_INTERVAL_MS), 250, 1),
        is_number(single(crate::geometry::RECONNECT_FADE_MS), 10, 1),
{
    vstd::arithmetic::power2::lemma2_to64();
    vstd::arithmetic::power2::lemma_pow2_pos(149);
    lemma_number(0x43160000, 16, 150, 1);
    lemma_number(0x41f00000, 19, 30, 1);
    lemma_number(0x437a0000, 16, 250, 1);
    lemma_number(0x41200000, 20, 10, 1);
    assert(scaled_magnitude(0) == 0);
}

/// The threshold is -16 decibels unless chosen, and from -60 to 0; the pre-gain is 6 decibels
/// unless chosen, and from 0 to 12.
pub proof fn law_numbers_of_the_settings()
    ensures
        is_number(single(crate::config::DEFAULT_THRESHOLD_DB), -16, 1),
        is_number(single(crate::config::DEFAULT_PRE_GAIN_DB), 6, 1),
        is_number(single(crate::config::LOWEST_THRESHOLD_DB), -60, 1),
        is_number(single(crate::config::HIGHEST_THRESHOLD_DB), 0, 1),
        is_number(single(crate::config::LOWEST_PRE_GAIN_DB), 0, 1),
        is_number(single(crate::config::HIGHEST_PRE_GAIN_DB), 12, 1),
{
    vstd::arithmetic::power2::lemma2_to64();
    vstd::arithmetic::power2::lemma_pow2_pos(149);
    lemma_number(0x41800000, 19, 16, 1);
    lemma_number(0x40c00000, 21, 6, 1);
    lemma_number(0x42700000, 18, 60, 1);
    lemma_number(0x41400000, 20, 12, 1);
    assert(scaled_magnitude(0) == 0);
}

/// The sliders count tenths, the one for the threshold from -60 decibels on.
pub proof fn law_numbers_of_the_sliders()
    ensures
        is_number(single(crate::settings::SIXTY), 60, 1),
        is_number(single(crate::settings::TEN), 10, 1),
{
    vstd::arithmetic::power2::lemma2_to64();
    vstd::arithmetic::power2::lemma_pow2_pos(149);
    lemma_number(0x42700000, 18, 60, 1);
    lemma_number(0x41200000, 20, 10, 1);
    assert(scaled_magnitude(0) == 0);
}

/// Where no settings can be read, the threshold is -20 decibels, the attack 10 milliseconds, the
/// release 50, and the crossover 300 a second; a limiter starts at 44100 samples a second.
pub proof fn law_numbers_of_the_modes()
    ensures
        is_number(single(crate::modes::limiter::FALLBACK_THRESHOLD_DB), -20, 1),
        is_number(single(crate::modes::limiter::FALLBACK_ATTACK_MS), 10, 1),
        is_number(single(crate::modes::limiter::FALLBACK_RELEASE_MS), 50, 1),
        is_number(single(crate::modes::limiter::FALLBACK_CROSSOVER_FREQ), 300, 1),
        is_number(single(crate::modes::limiter::FIRST_SAMPLE_RATE), 44100, 1),
{
    vstd::arithmetic::power2::lemma2_to64();
    vstd::arithmetic::power2::lemma_pow2_pos(149);
    lemma_number(0x41a00000, 19, 20, 1);
    lemma_number(0x41200000, 20, 10, 1);
    lemma_number(0x42480000, 18, 50, 1);
    lemma_number(0x43960000, 15, 300, 1);
    lemma_number(0x472c4400, 8, 44100, 1);
    assert(scaled_magnitude(0) == 0);
}

/// `x` is above zero, and no number of its kind is nearer to `n / d`.
pub open spec fn is_nearest(x: Single, n: int, d: int) -> bool {
    let unit = vstd::arithmetic::power2::pow2((x.magnitude() / 0x80_0000 - 1) as nat);
    &&& x.finite()
    &&& !x.negative()
    &&& -d * unit <= 2 * (x.scaled() * d - n * vstd::arithmetic::power2::pow2(149)) <= d * unit
}

proof fn lemma_nearest(pattern: nat, digits: nat, n: int, d: int)
    requires
        1 <= pattern / 0x80_0000 <= 150,
        digits == 150 - pattern / 0x80_0000,
        -d <= 2 * ((0x80_0000 + pattern % 0x80_0000) * d - n * vstd::arithmetic::power2::pow2(digits))
            <= d,
    ensures
        ({
            let unit = vstd::arithmetic::power2::pow2((pattern / 0x80_0000 - 1) as nat);
            -d * unit <= 2 * (scaled_magnitude(pattern) * d - n * vstd::arithmetic::power2::pow2(149))
                <= d * unit
        }),
{
    let exponent = (pattern / 0x80_0000 - 1) as nat;
    let mantissa: int = (0x80_0000 + pattern % 0x80_0000) as int;
    let unit: int = vstd::arithmetic::power2::pow2(exponent) as int;
    let rest: int = vstd::arithmetic::power2::pow2(digits) as int;
    vstd::arithmetic::power2::lemma_pow2_adds(exponent, digits);
    vstd::arithmetic::power2::lemma_pow2_pos(exponent);
    assert(unit * rest == vstd::arithmetic::power2::pow2(149));
    assert((mantissa * unit) * d - n * (unit * rest) == (mantissa * d - n * rest) * unit)
        by (nonlinear_arith);
    let off = mantissa * d - n * rest;
    assert(-d * unit <= 2 * (off * unit) <= d * unit) by (nonlinear_arith)
        requires
            -d <= 2 * off <= d,
            unit > 0,
    ;
}

/// Levels up to a millionth count as silence in the limiter, and in the modes no level is taken to be
/// below a ten thousand millionth; the modes take a level over a hundredth of a second, and a full turn
/// is twice pi.
pub proof fn law_small_numbers_are_the_nearest()
    ensures
        is_nearest(single(crate::limiter::SILENCE), 1, 1_000_000),
        is_nearest(single(crate::modes::limiter::LOWEST_LEVEL), 1, 10_000_000_000),
        is_nearest(single(crate::modes::limiter::LEVEL_SECONDS), 1, 100),
        is_nearest(
            single(crate::modes::limiter::FULL_TURN),
            6_283_185_307_179_586,
            1_000_000_000_000_000,
        ),
{
    vstd::arithmetic::power2::lemma2_to64();
    vstd::arithmetic::power2::lemma2_to64_rest();
    lemma_nearest(0x3586_37bd, 43, 1, 1_000_000);
    lemma_nearest(0x2edb_e6ff, 57, 1, 10_000_000_000);
    lemma_nearest(0x3c23_d70a, 30, 1, 100);
    lemma_nearest(0x40c9_0fdb, 21, 6_283_185_307_179_586, 1_000_000_000_000_000);
}

} // verus!
