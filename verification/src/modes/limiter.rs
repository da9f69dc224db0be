//! The limiter of the two modes: a gain that slides towards what the level asks for, on
//! the whole signal or on its upper band alone.

use vstd::prelude::*;

use crate::arithmetic::{
    answers_alike, difference_is, exponential_is, integer_is, knows_one_and_zero, logarithm_is,
    power_of_ten_is, product_is, quotient_is, sum_is, undoes_power, Arithmetic,
};
use crate::limiter::{unit, MINUS_ONE, ONE, THOUSAND, TWENTY, ZERO};
use crate::modes::config::Tuning;
use crate::single::{single, Single};

verus! {

/// Bit pattern of -20: the threshold where the settings cannot be read.
pub const FALLBACK_THRESHOLD_DB: u32 = 0xc1a0_0000;

/// Bit pattern of 10.
pub const FALLBACK_ATTACK_MS: u32 = 0x4120_0000;

/// Bit pattern of 50.
pub const FALLBACK_RELEASE_MS: u32 = 0x4248_0000;

/// Bit pattern of 300.
pub const FALLBACK_CROSSOVER_FREQ: u32 = 0x4396_0000;

/// Bit pattern of 44100.
pub const FIRST_SAMPLE_RATE: u32 = 0x472c_4400;

/// Bit pattern of twice pi.
pub const FULL_TURN: u32 = 0x40c9_0fdb;

/// Bit pattern of 0.01: the seconds over which the level is taken.
pub const LEVEL_SECONDS: u32 = 0x3c23_d70a;

/// Bit pattern of 0.0000000001: no level is taken to be below this.
pub const LOWEST_LEVEL: u32 = 0x2edb_e6ff;

/// `steps` is an answer for the number of samples in `time_ms`.
pub open spec fn steps_is<A: Arithmetic>(time_ms: Single, rate: Single, steps: Single) -> bool {
    exists|seconds: Single| #[trigger]
        quotient_is::<A>(time_ms, single(THOUSAND), seconds) && product_is::<A>(
            seconds,
            rate,
            steps,
        )
}

fn steps_in<A: Arithmetic>(time_ms: Single, rate: Single) -> (steps: Single)
    ensures
        steps_is::<A>(time_ms, rate, steps),
{
    let seconds = A::quotient(time_ms, Single::from_bits(THOUSAND));
    assert(quotient_is::<A>(time_ms, single(THOUSAND), seconds));
    A::product(seconds, rate)
}

/// `alpha` is an answer for the coefficient of a filter at `cutoff`.
pub open spec fn filter_is<A: Arithmetic>(cutoff: Single, rate: Single, alpha: Single) -> bool {
    exists|dt: Single, turn: Single, rc: Single, both: Single|
        #![trigger quotient_is::<A>(single(ONE), rate, dt), product_is::<A>(single(FULL_TURN), cutoff, turn), quotient_is::<A>(single(ONE), turn, rc), sum_is::<A>(rc, dt, both)]
        {
            &&& quotient_is::<A>(single(ONE), rate, dt)
            &&& product_is::<A>(single(FULL_TURN), cutoff, turn)
            &&& quotient_is::<A>(single(ONE), turn, rc)
            &&& sum_is::<A>(rc, dt, both)
            &&& quotient_is::<A>(dt, both, alpha)
        }
}

fn filter_coefficient<A: Arithmetic>(cutoff: Single, rate: Single) -> (alpha: Single)
    ensures
        filter_is::<A>(cutoff, rate, alpha),
{
    let dt = A::quotient(Single::from_bits(ONE), rate);
    let turn = A::product(Single::from_bits(FULL_TURN), cutoff);
    let rc = A::quotient(Single::from_bits(ONE), turn);
    let both = A::sum(rc, dt);
    assert(quotient_is::<A>(single(ONE), rate, dt));
    assert(product_is::<A>(single(FULL_TURN), cutoff, turn));
    assert(quotient_is::<A>(single(ONE), turn, rc));
    assert(sum_is::<A>(rc, dt, both));
    A::quotient(dt, both)
}

/// `alpha` is an answer for the coefficient that the level is smoothed with.
pub open spec fn level_filter_is<A: Arithmetic>(rate: Single, alpha: Single) -> bool {
    exists|samples: Single, exponent: Single, decay: Single|
        #![trigger product_is::<A>(single(LEVEL_SECONDS), rate, samples), quotient_is::<A>(single(MINUS_ONE), samples, exponent), exponential_is::<A>(exponent, decay)]
        {
            &&& product_is::<A>(single(LEVEL_SECONDS), rate, samples)
            &&& quotient_is::<A>(single(MINUS_ONE), samples, exponent)
            &&& exponential_is::<A>(exponent, decay)
            &&& difference_is::<A>(single(ONE), decay, alpha)
        }
}

fn level_coefficient<A: Arithmetic>(rate: Single) -> (alpha: Single)
    ensures
        level_filter_is::<A>(rate, alpha),
{
    let samples = A::product(Single::from_bits(LEVEL_SECONDS), rate);
    let exponent = A::quotient(Single::from_bits(MINUS_ONE), samples);
    let decay = A::exponential(exponent);
    assert(product_is::<A>(single(LEVEL_SECONDS), rate, samples));
    assert(quotient_is::<A>(single(MINUS_ONE), samples, exponent));
    assert(exponential_is::<A>(exponent, decay));
    A::difference(Single::from_bits(ONE), decay)
}

/// `db` is an answer for a level in decibels.
pub open spec fn level_db_is<A: Arithmetic>(level: Single, db: Single) -> bool {
    exists|log: Single| #[trigger]
        logarithm_is::<A>(level, log) && product_is::<A>(single(TWENTY), log, db)
}

fn level_in_db<A: Arithmetic>(level: Single) -> (db: Single)
    ensures
        level_db_is::<A>(level, db),
{
    let log = A::logarithm(level);
    assert(logarithm_is::<A>(level, log));
    A::product(Single::from_bits(TWENTY), log)
}

/// `gain` is an answer for the gain that takes `excess` decibels away.
pub open spec fn taking_away_is<A: Arithmetic>(excess: Single, gain: Single) -> bool {
    exists|exponent: Single| #[trigger]
        quotient_is::<A>(excess.negated(), single(TWENTY), exponent) && power_of_ten_is::<A>(
            exponent,
            gain,
        )
}

fn gain_taking_away<A: Arithmetic>(excess: Single) -> (gain: Single)
    ensures
        taking_away_is::<A>(excess, gain),
{
    let exponent = A::quotient(excess.neg(), Single::from_bits(TWENTY));
    assert(quotient_is::<A>(excess.negated(), single(TWENTY), exponent));
    A::power_of_ten(exponent)
}

/// `gain` is an answer for the gain that brings a level of `db` down to the threshold; one
/// where it is not above it.
pub open spec fn down_to_is<A: Arithmetic>(db: Single, threshold: Single, gain: Single) -> bool {
    if threshold.below(db) {
        exists|excess: Single| #[trigger]
            difference_is::<A>(db, threshold, excess) && taking_away_is::<A>(excess, gain)
    } else {
        gain == single(ONE)
    }
}

fn gain_down_to<A: Arithmetic>(db: Single, threshold: Single) -> (gain: Single)
    ensures
        down_to_is::<A>(db, threshold, gain),
{
    if threshold.lt(db) {
        let excess = A::difference(db, threshold);
        assert(difference_is::<A>(db, threshold, excess));
        gain_taking_away::<A>(excess)
    } else {
        Single::from_bits(ONE)
    }
}

/// `step` is an answer for how far the gain moves with each sample, from `gain` towards
/// `target`.
pub open spec fn step_is<A: Arithmetic>(
    gain: Single,
    target: Single,
    attack_steps: Single,
    release_steps: Single,
    step: Single,
) -> bool {
    if target.below(gain) {
        exists|way: Single| #[trigger]
            difference_is::<A>(gain, target, way) && quotient_is::<A>(
                way,
                attack_steps.greater(single(ONE)),
                step,
            )
    } else {
        exists|way: Single| #[trigger]
            difference_is::<A>(target, gain, way) && quotient_is::<A>(
                way,
                release_steps.greater(single(ONE)),
                step,
            )
    }
}

fn step_towards<A: Arithmetic>(
    gain: Single,
    target: Single,
    attack_steps: Single,
    release_steps: Single,
) -> (step: Single)
    ensures
        step_is::<A>(gain, target, attack_steps, release_steps, step),
{
    if target.lt(gain) {
        let way = A::difference(gain, target);
        assert(difference_is::<A>(gain, target, way));
        A::quotient(way, attack_steps.max(Single::from_bits(ONE)))
    } else {
        let way = A::difference(target, gain);
        assert(difference_is::<A>(target, gain, way));
        A::quotient(way, release_steps.max(Single::from_bits(ONE)))
    }
}

/// `next` is an answer for the gain one step on.
pub open spec fn moved_is<A: Arithmetic>(
    gain: Single,
    target: Single,
    step: Single,
    next: Single,
) -> bool {
    if target.below(gain) {
        difference_is::<A>(gain, step, next)
    } else {
        sum_is::<A>(gain, step, next)
    }
}

/// `result` is an answer for the gain after at most `samples` steps.
pub open spec fn slid_is<A: Arithmetic>(
    gain: Single,
    target: Single,
    step: Single,
    samples: nat,
    result: Single,
) -> bool
    decreases samples,
{
    if samples == 0 {
        result == gain
    } else {
        exists|way: Single|
            {
                &&& #[trigger] difference_is::<A>(gain, target, way)
                &&& if way.absolute().at_most(step) {
                    result == target
                } else {
                    exists|next: Single| #[trigger]
                        moved_is::<A>(gain, target, step, next) && slid_is::<A>(
                            next,
                            target,
                            step,
                            (samples - 1) as nat,
                            result,
                        )
                }
            }
    }
}

/// Moves the gain by one step; gives back whether it arrived.
fn slide_once<A: Arithmetic>(gain: Single, target: Single, step: Single) -> (slid: (Single, bool))
    ensures
        exists|way: Single|
            {
                &&& #[trigger] difference_is::<A>(gain, target, way)
                &&& slid.1 == way.absolute().at_most(step)
                &&& if slid.1 {
                    slid.0 == target
                } else {
                    moved_is::<A>(gain, target, step, slid.0)
                }
            },
{
    let way = A::difference(gain, target);
    assert(difference_is::<A>(gain, target, way));
    if way.abs().le(step) {
        (target, true)
    } else if target.lt(gain) {
        (A::difference(gain, step), false)
    } else {
        (A::sum(gain, step), false)
    }
}

fn slide<A: Arithmetic>(start: Single, target: Single, step: Single, samples: usize) -> (result:
    Single)
    ensures
        slid_is::<A>(start, target, step, samples as nat, result),
{
    let mut gain = start;
    let mut left: usize = samples;
    while left > 0
        invariant
            left <= samples,
            forall|result: Single| #[trigger]
                slid_is::<A>(gain, target, step, left as nat, result) ==> slid_is::<A>(
                    start,
                    target,
                    step,
                    samples as nat,
                    result,
                ),
        decreases left,
    {
        let (next, arrived) = slide_once::<A>(gain, target, step);
        if arrived {
            proof {
                assert(slid_is::<A>(gain, target, step, left as nat, target));
            }
            return next;
        }
        let ghost earlier = gain;
        gain = next;
        left = left - 1;
        proof {
            assert forall|result: Single| #[trigger]
                slid_is::<A>(gain, target, step, left as nat, result) implies slid_is::<A>(
                start,
                target,
                step,
                samples as nat,
                result,
            ) by {
                assert(moved_is::<A>(earlier, target, step, gain));
                assert(slid_is::<A>(earlier, target, step, (left + 1) as nat, result));
            }
        }
    }
    proof {
        assert(slid_is::<A>(gain, target, step, 0, gain));
    }
    gain
}

/// The limiter.
#[derive(Clone, Copy, Debug, PartialEq, Eq, Structural)]
pub struct LoudnessLimiter {
    pub current_gain: Single,
    pub cached_threshold_db: Single,
    pub cached_attack_ms: Single,
    pub cached_release_ms: Single,
    pub cached_crossover_freq: Single,
    pub sample_rate: Single,
    pub hp_x1: Single,
    pub hp_y1: Single,
    pub high_rms_smooth: Single,
    pub high_gain: Single,
    pub high_attack_steps: Single,
    pub high_release_steps: Single,
    pub alpha: Single,
    pub rms_alpha: Single,
}

/// The numbers that come up while one sample is processed.
pub struct SampleTrace {
    pub ahead: Single,
    pub change: Single,
    pub low: Single,
    pub rise: Single,
    pub part: Single,
    pub target: Single,
    pub step: Single,
    pub scaled: Single,
}

impl LoudnessLimiter {
    /// The coefficients are those of the settings and the rate.
    pub open spec fn tuned<A: Arithmetic>(self) -> bool {
        &&& filter_is::<A>(self.cached_crossover_freq, self.sample_rate, self.alpha)
        &&& level_filter_is::<A>(self.sample_rate, self.rms_alpha)
        &&& steps_is::<A>(self.cached_attack_ms, self.sample_rate, self.high_attack_steps)
        &&& steps_is::<A>(self.cached_release_ms, self.sample_rate, self.high_release_steps)
    }

    /// The limiter with other coefficients.
    pub open spec fn with_coefficients(self, other: LoudnessLimiter) -> LoudnessLimiter {
        LoudnessLimiter {
            alpha: other.alpha,
            rms_alpha: other.rms_alpha,
            high_attack_steps: other.high_attack_steps,
            high_release_steps: other.high_release_steps,
            ..self
        }
    }

    /// The settings in force are `tuning`.
    pub open spec fn holds<A: Arithmetic>(self, tuning: Tuning) -> bool {
        &&& self.cached_threshold_db == tuning.threshold_db
        &&& integer_is::<A>(tuning.attack_ms as u64, self.cached_attack_ms)
        &&& integer_is::<A>(tuning.release_ms as u64, self.cached_release_ms)
        &&& self.cached_crossover_freq == tuning.crossover_freq
    }

    /// The settings in force are those for want of others.
    pub open spec fn holds_fallback(self) -> bool {
        &&& self.cached_threshold_db == single(FALLBACK_THRESHOLD_DB)
        &&& self.cached_attack_ms == single(FALLBACK_ATTACK_MS)
        &&& self.cached_release_ms == single(FALLBACK_RELEASE_MS)
        &&& self.cached_crossover_freq == single(FALLBACK_CROSSOVER_FREQ)
    }

    /// Nothing has been heard yet.
    pub open spec fn unmoved(self) -> bool {
        &&& self.current_gain == single(ONE)
        &&& self.hp_x1 == single(ZERO)
        &&& self.hp_y1 == single(ZERO)
        &&& self.high_rms_smooth == single(ZERO)
        &&& self.high_gain == single(ONE)
    }

    /// A limiter for the settings, if they can be read.
    pub fn new<A: Arithmetic>(tuning: Option<Tuning>) -> (limiter: LoudnessLimiter)
        ensures
            limiter.unmoved(),
            limiter.sample_rate == single(FIRST_SAMPLE_RATE),
            match tuning {
                Some(tuning) => limiter.holds::<A>(tuning),
                None => limiter.holds_fallback(),
            },
            limiter.tuned::<A>(),
    {
        let (threshold, attack, release, crossover) = match tuning {
            Some(tuning) => (
                tuning.threshold_db,
                A::from_integer(tuning.attack_ms as u64),
                A::from_integer(tuning.release_ms as u64),
                tuning.crossover_freq,
            ),
            None => (
                Single::from_bits(FALLBACK_THRESHOLD_DB),
                Single::from_bits(FALLBACK_ATTACK_MS),
                Single::from_bits(FALLBACK_RELEASE_MS),
                Single::from_bits(FALLBACK_CROSSOVER_FREQ),
            ),
        };
        let zero = Single::from_bits(ZERO);
        let one = Single::from_bits(ONE);
        let mut limiter = LoudnessLimiter {
            current_gain: one,
            cached_threshold_db: threshold,
            cached_attack_ms: attack,
            cached_release_ms: release,
            cached_crossover_freq: crossover,
            sample_rate: Single::from_bits(FIRST_SAMPLE_RATE),
            hp_x1: zero,
            hp_y1: zero,
            high_rms_smooth: zero,
            high_gain: one,
            high_attack_steps: zero,
            high_release_steps: zero,
            alpha: zero,
            rms_alpha: zero,
        };
        limiter.recalc_filter_coeffs::<A>();
        limiter
    }

    pub fn set_sample_rate<A: Arithmetic>(&mut self, rate: Single)
        ensures
            *final(self) == (LoudnessLimiter {
                sample_rate: rate,
                ..*old(self)
            }).with_coefficients(*final(self)),
            final(self).tuned::<A>(),
    {
        self.sample_rate = rate;
        self.recalc_filter_coeffs::<A>();
    }

    /// Takes over the settings, if they can be read.
    pub fn update_parameters<A: Arithmetic>(&mut self, tuning: Option<Tuning>)
        ensures
            match tuning {
                Some(tuning) => {
                    &&& final(self).holds::<A>(tuning)
                    &&& final(self).tuned::<A>()
                    &&& *final(self) == (LoudnessLimiter {
                        cached_threshold_db: final(self).cached_threshold_db,
                        cached_attack_ms: final(self).cached_attack_ms,
                        cached_release_ms: final(self).cached_release_ms,
                        cached_crossover_freq: final(self).cached_crossover_freq,
                        ..*old(self)
                    }).with_coefficients(*final(self))
                },
                None => *final(self) == *old(self),
            },
    {
        if let Some(tuning) = tuning {
            self.cached_threshold_db = tuning.threshold_db;
            self.cached_attack_ms = A::from_integer(tuning.attack_ms as u64);
            self.cached_release_ms = A::from_integer(tuning.release_ms as u64);
            self.cached_crossover_freq = tuning.crossover_freq;
            self.recalc_filter_coeffs::<A>();
        }
    }

    fn recalc_filter_coeffs<A: Arithmetic>(&mut self)
        ensures
            *final(self) == old(self).with_coefficients(*final(self)),
            final(self).tuned::<A>(),
    {
        self.alpha = filter_coefficient::<A>(self.cached_crossover_freq, self.sample_rate);
        self.rms_alpha = level_coefficient::<A>(self.sample_rate);
        self.high_attack_steps = steps_in::<A>(self.cached_attack_ms, self.sample_rate);
        self.high_release_steps = steps_in::<A>(self.cached_release_ms, self.sample_rate);
    }

    /// `gain` is an answer for the gain that a level asks for.
    pub open spec fn target_gain_is<A: Arithmetic>(self, level: Single, gain: Single) -> bool {
        exists|db: Single| #[trigger]
            level_db_is::<A>(level.greater(single(LOWEST_LEVEL)), db) && down_to_is::<A>(
                db,
                self.cached_threshold_db,
                gain,
            )
    }

    /// The gain that a level asks for: what brings it down to the threshold.
    pub fn compute_target_gain<A: Arithmetic>(&self, rms: Single) -> (gain: Single)
        ensures
            self.target_gain_is::<A>(rms, gain),
    {
        let db = level_in_db::<A>(rms.max(Single::from_bits(LOWEST_LEVEL)));
        assert(level_db_is::<A>(rms.greater(single(LOWEST_LEVEL)), db));
        gain_down_to::<A>(db, self.cached_threshold_db)
    }

    /// `gain` is an answer for the gain that a level asks for, by way of how far it is above
    /// the threshold.
    pub open spec fn excess_gain_is<A: Arithmetic>(self, level: Single, gain: Single) -> bool {
        exists|db: Single, excess: Single|
            #![trigger level_db_is::<A>(level.greater(single(LOWEST_LEVEL)), db), difference_is::<A>(db, self.cached_threshold_db, excess)]
            {
                &&& level_db_is::<A>(level.greater(single(LOWEST_LEVEL)), db)
                &&& difference_is::<A>(db, self.cached_threshold_db, excess)
                &&& if single(ZERO).below(excess) {
                    taking_away_is::<A>(excess, gain)
                } else {
                    gain == single(ONE)
                }
            }
    }

    /// `gain` is an answer for where the gain has slid to after so many samples at a level.
    pub open spec fn gain_after_is<A: Arithmetic>(
        self,
        level: Single,
        samples: nat,
        gain: Single,
    ) -> bool {
        exists|target: Single, attack: Single, release: Single, step: Single|
            #![trigger self.excess_gain_is::<A>(level, target), steps_is::<A>(self.cached_attack_ms, self.sample_rate, attack), steps_is::<A>(self.cached_release_ms, self.sample_rate, release), step_is::<A>(self.current_gain, target, attack, release, step)]
            {
                &&& self.excess_gain_is::<A>(level, target)
                &&& steps_is::<A>(self.cached_attack_ms, self.sample_rate, attack)
                &&& steps_is::<A>(self.cached_release_ms, self.sample_rate, release)
                &&& step_is::<A>(self.current_gain, target, attack, release, step)
                &&& slid_is::<A>(self.current_gain, target, step, samples, gain)
            }
    }

    /// Lets the gain slide for so many samples at a level; gives back where it arrives.
    pub fn calculate_gain<A: Arithmetic>(&mut self, input_rms: Single, num_samples: usize) -> (gain:
        Single)
        ensures
            old(self).gain_after_is::<A>(input_rms, num_samples as nat, gain),
            *final(self) == (LoudnessLimiter { current_gain: gain, ..*old(self) }),
    {
        let level = input_rms.max(Single::from_bits(LOWEST_LEVEL));
        let db = level_in_db::<A>(level);
        let excess = A::difference(db, self.cached_threshold_db);
        assert(level_db_is::<A>(input_rms.greater(single(LOWEST_LEVEL)), db));
        assert(difference_is::<A>(db, self.cached_threshold_db, excess));
        let target = if Single::from_bits(ZERO).lt(excess) {
            gain_taking_away::<A>(excess)
        } else {
            Single::from_bits(ONE)
        };
        let attack = steps_in::<A>(self.cached_attack_ms, self.sample_rate);
        let release = steps_in::<A>(self.cached_release_ms, self.sample_rate);
        let step = step_towards::<A>(self.current_gain, target, attack, release);
        let gain = slide::<A>(self.current_gain, target, step, num_samples);
        proof {
            assert(self.excess_gain_is::<A>(input_rms, target));
            assert(steps_is::<A>(self.cached_attack_ms, self.sample_rate, attack));
            assert(steps_is::<A>(self.cached_release_ms, self.sample_rate, release));
            assert(step_is::<A>(self.current_gain, target, attack, release, step));
        }
        self.current_gain = gain;
        gain
    }

    /// The coefficients are of no use: the whole signal is scaled instead of its upper band.
    pub open spec fn bypassed(self) -> bool {
        self.alpha.at_most(single(ZERO)) || self.high_attack_steps.at_most(single(ZERO))
    }

    /// `gain` is an answer for the gain that the level of the upper band asks for.
    pub open spec fn band_gain_is<A: Arithmetic>(self, gain: Single) -> bool {
        if single(LOWEST_LEVEL).below(self.high_rms_smooth) {
            exists|db: Single| #[trigger]
                level_db_is::<A>(self.high_rms_smooth, db) && down_to_is::<A>(
                    db,
                    self.cached_threshold_db,
                    gain,
                )
        } else {
            gain == single(ONE)
        }
    }

    /// `next` and `output` are what a sample leads to by way of `trace`, where the upper
    /// band is scaled.
    pub open spec fn processes<A: Arithmetic>(
        self,
        sample: Single,
        trace: SampleTrace,
        next: LoudnessLimiter,
        output: Single,
    ) -> bool {
        let high = next.hp_y1;
        // What lies above the crossover, and the rest.
        &&& sum_is::<A>(self.hp_y1, sample, trace.ahead)
        &&& difference_is::<A>(trace.ahead, self.hp_x1, trace.change)
        &&& product_is::<A>(self.alpha, trace.change, high)
        &&& difference_is::<A>(sample, high, trace.low)
        // Its level.
        &&& difference_is::<A>(high.absolute(), self.high_rms_smooth, trace.rise)
        &&& product_is::<A>(self.rms_alpha, trace.rise, trace.part)
        &&& sum_is::<A>(self.high_rms_smooth, trace.part, next.high_rms_smooth)
        // The gain, one step on.
        &&& next.band_gain_is::<A>(trace.target)
        &&& step_is::<A>(
            self.high_gain,
            trace.target,
            self.high_attack_steps,
            self.high_release_steps,
            trace.step,
        )
        &&& slid_is::<A>(self.high_gain, trace.target, trace.step, 1, next.high_gain)
        &&& product_is::<A>(high, next.high_gain, trace.scaled)
        &&& sum_is::<A>(trace.low, trace.scaled, output)
        &&& next == (LoudnessLimiter {
            hp_x1: sample,
            hp_y1: next.hp_y1,
            high_rms_smooth: next.high_rms_smooth,
            high_gain: next.high_gain,
            ..self
        })
    }

    /// `next` and `output` are what a sample leads to where the whole signal is scaled.
    pub open spec fn scales_whole<A: Arithmetic>(
        self,
        sample: Single,
        next: LoudnessLimiter,
        output: Single,
    ) -> bool {
        &&& self.gain_after_is::<A>(sample.absolute(), 1, next.current_gain)
        &&& next == (LoudnessLimiter { current_gain: next.current_gain, ..self })
        &&& product_is::<A>(sample, next.current_gain, output)
    }

    /// Takes one sample in and gives it out with its upper band limited.
    pub fn process_sample_multiband<A: Arithmetic>(&mut self, sample: Single) -> (output: Single)
        ensures
            old(self).bypassed() ==> {
                &&& old(self).gain_after_is::<A>(sample.absolute(), 1, final(self).current_gain)
                &&& *final(self) == (LoudnessLimiter {
                    current_gain: final(self).current_gain,
                    ..*old(self)
                })
                &&& product_is::<A>(sample, final(self).current_gain, output)
            },
            old(self).bypassed() ==> old(self).scales_whole::<A>(sample, *final(self), output),
            !old(self).bypassed() ==> exists|trace: SampleTrace|
                old(self).processes::<A>(sample, trace, *final(self), output),
    {
        let zero = Single::from_bits(ZERO);
        if self.alpha.le(zero) || self.high_attack_steps.le(zero) {
            let gain = self.calculate_gain::<A>(sample.abs(), 1);
            return A::product(sample, gain);
        }
        let ghost before = *self;
        let ahead = A::sum(self.hp_y1, sample);
        let change = A::difference(ahead, self.hp_x1);
        let high = A::product(self.alpha, change);
        self.hp_x1 = sample;
        self.hp_y1 = high;
        let low = A::difference(sample, high);

        let rise = A::difference(high.abs(), self.high_rms_smooth);
        let part = A::product(self.rms_alpha, rise);
        self.high_rms_smooth = A::sum(self.high_rms_smooth, part);

        let target = if Single::from_bits(LOWEST_LEVEL).lt(self.high_rms_smooth) {
            let db = level_in_db::<A>(self.high_rms_smooth);
            assert(level_db_is::<A>(self.high_rms_smooth, db));
            gain_down_to::<A>(db, self.cached_threshold_db)
        } else {
            Single::from_bits(ONE)
        };
        let step = step_towards::<A>(
            self.high_gain,
            target,
            self.high_attack_steps,
            self.high_release_steps,
        );
        self.high_gain = slide::<A>(self.high_gain, target, step, 1);
        let scaled = A::product(high, self.high_gain);
        let output = A::sum(low, scaled);
        proof {
            let trace = SampleTrace { ahead, change, low, rise, part, target, step, scaled };
            assert(self.band_gain_is::<A>(target));
            assert(before.processes::<A>(sample, trace, *self, output));
        }
        output
    }
}

/// The host's arithmetic keeps what taking decibels away promises: what is above a threshold
/// is so by at least nothing, and to take that away never amplifies.
pub open spec fn attenuates<A: Arithmetic>() -> bool {
    &&& forall|db: Single, threshold: Single, excess: Single| #[trigger]
        difference_is::<A>(db, threshold, excess) && threshold.below(db) ==> single(ZERO).at_most(
            excess,
        )
    &&& forall|excess: Single, gain: Single| #[trigger]
        taking_away_is::<A>(excess, gain) && single(ZERO).at_most(excess) ==> single(ZERO).at_most(
            gain,
        ) && gain.at_most(single(ONE))
}

/// Sound that is not above the threshold is left alone, and no sound is ever amplified.
pub proof fn law_only_loud_sound_is_reduced<A: Arithmetic>(
    limiter: LoudnessLimiter,
    level: Single,
    gain: Single,
)
    requires
        limiter.target_gain_is::<A>(level, gain),
    ensures
        (forall|db: Single| #[trigger]
            level_db_is::<A>(level.greater(single(LOWEST_LEVEL)), db)
                ==> !limiter.cached_threshold_db.below(db)) ==> gain == single(ONE),
        attenuates::<A>() ==> single(ZERO).at_most(gain) && gain.at_most(single(ONE)),
{
}

/// Processing a sample changes neither the settings nor the coefficients.
pub proof fn law_sample_keeps_tuning<A: Arithmetic>(
    limiter: LoudnessLimiter,
    sample: Single,
    trace: SampleTrace,
    next: LoudnessLimiter,
    output: Single,
)
    requires
        limiter.tuned::<A>(),
        limiter.processes::<A>(sample, trace, next, output),
    ensures
        next.tuned::<A>(),
        next.cached_threshold_db == limiter.cached_threshold_db,
        next.current_gain == limiter.current_gain,
        next.hp_x1 == sample,
{
}

/// `x` lies between the two, or is one of them.
pub open spec fn between(x: Single, a: Single, b: Single) -> bool {
    a.at_most(x) && x.at_most(b) || b.at_most(x) && x.at_most(a)
}

/// The host's arithmetic keeps what moving a gain in steps promises, for numbers from zero to
/// one: the way from one to the other is such a number too, a part of a way is not negative,
/// and a step that is shorter than the way does not lead past its end.
pub open spec fn steps_in_order<A: Arithmetic>() -> bool {
    &&& forall|a: Single, b: Single, way: Single| #[trigger]
        difference_is::<A>(a, b, way) && unit(a) && unit(b) && b.at_most(a) ==> unit(way)
    &&& forall|way: Single, steps: Single, step: Single| #[trigger]
        quotient_is::<A>(way, steps, step) && unit(way) && single(ONE).at_most(steps)
            ==> single(ZERO).at_most(step)
    &&& forall|gain: Single, target: Single, way: Single, step: Single, next: Single|
        #![trigger difference_is::<A>(gain, target, way), moved_is::<A>(gain, target, step, next)]
        difference_is::<A>(gain, target, way) && moved_is::<A>(gain, target, step, next) && unit(
            gain,
        ) && unit(target) && single(ZERO).at_most(step) && !way.absolute().at_most(step)
            ==> between(next, gain, target)
}

proof fn lemma_slide_stays_between<A: Arithmetic>(
    gain: Single,
    target: Single,
    step: Single,
    samples: nat,
    result: Single,
)
    requires
        steps_in_order::<A>(),
        unit(gain),
        unit(target),
        single(ZERO).at_most(step),
        slid_is::<A>(gain, target, step, samples, result),
    ensures
        between(result, gain, target),
        unit(result),
    decreases samples,
{
    if samples > 0 {
        let way = choose|way: Single|
            {
                &&& #[trigger] difference_is::<A>(gain, target, way)
                &&& if way.absolute().at_most(step) {
                    result == target
                } else {
                    exists|next: Single| #[trigger]
                        moved_is::<A>(gain, target, step, next) && slid_is::<A>(
                            next,
                            target,
                            step,
                            (samples - 1) as nat,
                            result,
                        )
                }
            };
        if !way.absolute().at_most(step) {
            let next = choose|next: Single| #[trigger]
                moved_is::<A>(gain, target, step, next) && slid_is::<A>(
                    next,
                    target,
                    step,
                    (samples - 1) as nat,
                    result,
                );
            assert(between(next, gain, target));
            lemma_slide_stays_between::<A>(next, target, step, (samples - 1) as nat, result);
        }
    }
}

/// A gain that slides towards its target never goes past it, and never away from it.
pub proof fn law_gain_never_overshoots<A: Arithmetic>(
    gain: Single,
    target: Single,
    attack_steps: Single,
    release_steps: Single,
    step: Single,
    samples: nat,
    result: Single,
)
    requires
        steps_in_order::<A>(),
        unit(gain),
        unit(target),
        step_is::<A>(gain, target, attack_steps, release_steps, step),
        slid_is::<A>(gain, target, step, samples, result),
    ensures
        between(result, gain, target),
        unit(result),
{
    assert(single(ONE).at_most(attack_steps.greater(single(ONE))));
    assert(single(ONE).at_most(release_steps.greater(single(ONE))));
    assert(single(ZERO).at_most(step)) by {
        if target.below(gain) {
            let way = choose|way: Single| #[trigger]
                difference_is::<A>(gain, target, way) && quotient_is::<A>(
                    way,
                    attack_steps.greater(single(ONE)),
                    step,
                );
            assert(unit(way));
        } else {
            let way = choose|way: Single| #[trigger]
                difference_is::<A>(target, gain, way) && quotient_is::<A>(
                    way,
                    release_steps.greater(single(ONE)),
                    step,
                );
            assert(unit(way));
        }
    }
    lemma_slide_stays_between::<A>(gain, target, step, samples, result);
}

/// The gain of the whole signal slides towards what the level asks for without going past it,
/// however many samples go by.
pub proof fn law_level_gain_never_overshoots<A: Arithmetic>(
    limiter: LoudnessLimiter,
    level: Single,
    samples: nat,
    gain: Single,
)
    requires
        steps_in_order::<A>(),
        attenuates::<A>(),
        unit(limiter.current_gain),
        limiter.gain_after_is::<A>(level, samples, gain),
    ensures
        exists|target: Single| #[trigger]
            limiter.excess_gain_is::<A>(level, target) && unit(target) && between(
                gain,
                limiter.current_gain,
                target,
            ),
        unit(gain),
{
    let (target, attack, release, step) = choose|
        target: Single,
        attack: Single,
        release: Single,
        step: Single,
    |
        #![trigger limiter.excess_gain_is::<A>(level, target), steps_is::<A>(limiter.cached_attack_ms, limiter.sample_rate, attack), steps_is::<A>(limiter.cached_release_ms, limiter.sample_rate, release), step_is::<A>(limiter.current_gain, target, attack, release, step)]
        {
            &&& limiter.excess_gain_is::<A>(level, target)
            &&& steps_is::<A>(limiter.cached_attack_ms, limiter.sample_rate, attack)
            &&& steps_is::<A>(limiter.cached_release_ms, limiter.sample_rate, release)
            &&& step_is::<A>(limiter.current_gain, target, attack, release, step)
            &&& slid_is::<A>(limiter.current_gain, target, step, samples, gain)
        };
    assert(unit(target)) by {
        if target != single(ONE) {
            let (db, excess) = choose|db: Single, excess: Single|
                #![trigger level_db_is::<A>(level.greater(single(LOWEST_LEVEL)), db), difference_is::<A>(db, limiter.cached_threshold_db, excess)]
                {
                    &&& level_db_is::<A>(level.greater(single(LOWEST_LEVEL)), db)
                    &&& difference_is::<A>(db, limiter.cached_threshold_db, excess)
                    &&& if single(ZERO).below(excess) {
                        taking_away_is::<A>(excess, target)
                    } else {
                        target == single(ONE)
                    }
                };
            assert(taking_away_is::<A>(excess, target));
        }
    }
    law_gain_never_overshoots::<A>(
        limiter.current_gain,
        target,
        attack,
        release,
        step,
        samples,
        gain,
    );
}

/// The gain of the upper band takes one step with each sample, and never goes past what its
/// level asks for.
pub proof fn law_band_gain_never_overshoots<A: Arithmetic>(
    limiter: LoudnessLimiter,
    sample: Single,
    trace: SampleTrace,
    next: LoudnessLimiter,
    output: Single,
)
    requires
        steps_in_order::<A>(),
        unit(limiter.high_gain),
        unit(trace.target),
        limiter.processes::<A>(sample, trace, next, output),
    ensures
        between(next.high_gain, limiter.high_gain, trace.target),
        unit(next.high_gain),
{
    law_gain_never_overshoots::<A>(
        limiter.high_gain,
        trace.target,
        limiter.high_attack_steps,
        limiter.high_release_steps,
        trace.step,
        1,
        next.high_gain,
    );
}

/// Sound that is not above the threshold leaves a full gain full, however many samples of it go
/// by.
pub proof fn law_quiet_sound_keeps_full_gain<A: Arithmetic>(
    limiter: LoudnessLimiter,
    level: Single,
    samples: nat,
    gain: Single,
)
    requires
        knows_one_and_zero::<A>(),
        limiter.current_gain == single(ONE),
        limiter.cached_threshold_db.finite(),
        forall|log: Single, db: Single|
            #![trigger logarithm_is::<A>(level.greater(single(LOWEST_LEVEL)), log), product_is::<A>(single(TWENTY), log, db)]
            logarithm_is::<A>(level.greater(single(LOWEST_LEVEL)), log) && product_is::<A>(
                single(TWENTY),
                log,
                db,
            ) ==> db.finite() && db.at_most(limiter.cached_threshold_db),
        forall|a: Single, b: Single, r: Single| #[trigger]
            difference_is::<A>(a, b, r) && a.finite() && b.finite() && a.at_most(b)
                ==> r.at_most(single(ZERO)),
        limiter.gain_after_is::<A>(level, samples, gain),
    ensures
        gain == single(ONE),
{
    let (target, attack, release, step) = choose|
        target: Single,
        attack: Single,
        release: Single,
        step: Single,
    |
        #![trigger limiter.excess_gain_is::<A>(level, target), steps_is::<A>(limiter.cached_attack_ms, limiter.sample_rate, attack), steps_is::<A>(limiter.cached_release_ms, limiter.sample_rate, release), step_is::<A>(limiter.current_gain, target, attack, release, step)]
        {
            &&& limiter.excess_gain_is::<A>(level, target)
            &&& steps_is::<A>(limiter.cached_attack_ms, limiter.sample_rate, attack)
            &&& steps_is::<A>(limiter.cached_release_ms, limiter.sample_rate, release)
            &&& step_is::<A>(limiter.current_gain, target, attack, release, step)
            &&& slid_is::<A>(limiter.current_gain, target, step, samples, gain)
        };
    assert(target == single(ONE)) by {
        let (db, excess) = choose|db: Single, excess: Single|
            #![trigger level_db_is::<A>(level.greater(single(LOWEST_LEVEL)), db), difference_is::<A>(db, limiter.cached_threshold_db, excess)]
            {
                &&& level_db_is::<A>(level.greater(single(LOWEST_LEVEL)), db)
                &&& difference_is::<A>(db, limiter.cached_threshold_db, excess)
                &&& if single(ZERO).below(excess) {
                    taking_away_is::<A>(excess, target)
                } else {
                    target == single(ONE)
                }
            };
        let log = choose|log: Single| #[trigger]
            logarithm_is::<A>(level.greater(single(LOWEST_LEVEL)), log) && product_is::<A>(
                single(TWENTY),
                log,
                db,
            );
        assert(db.at_most(limiter.cached_threshold_db));
    }
    assert(single(ZERO).at_most(step)) by {
        let way = choose|way: Single| #[trigger]
            difference_is::<A>(target, limiter.current_gain, way) && quotient_is::<A>(
                way,
                release.greater(single(ONE)),
                step,
            );
        assert(way.same(single(ZERO)));
    }
}

/// Taking decibels away is measured in the decibels that levels are told in: the gain that takes
/// some away has, as a level, minus these decibels.
pub proof fn law_taking_away_is_told_in_decibels<A: Arithmetic>(
    excess: Single,
    gain: Single,
    db: Single,
)
    requires
        undoes_power::<A>(excess.negated(), single(TWENTY)),
        taking_away_is::<A>(excess, gain),
        level_db_is::<A>(gain, db),
    ensures
        db == excess.negated(),
{
}

/// A gain that has to fall does so over the attack, and one that may rise over the release: with
/// an attack of at most one sample it has fallen after the first, whatever the release is, and
/// with a release of at most one sample it has risen after the first, whatever the attack is.
pub proof fn law_gain_falls_over_attack_and_rises_over_release<A: Arithmetic>(
    gain: Single,
    target: Single,
    attack_steps: Single,
    release_steps: Single,
    step: Single,
    samples: nat,
    result: Single,
)
    requires
        answers_alike::<A>(),
        knows_one_and_zero::<A>(),
        unit(gain),
        unit(target),
        forall|a: Single, b: Single, r: Single| #[trigger]
            difference_is::<A>(a, b, r) && unit(a) && unit(b) && b.at_most(a) ==> single(
                ZERO,
            ).at_most(r),
        forall|a: Single, b: Single, r: Single, q: Single|
            #![trigger difference_is::<A>(a, b, r), difference_is::<A>(b, a, q)]
            difference_is::<A>(a, b, r) && difference_is::<A>(b, a, q) && unit(a) && unit(b)
                ==> r.absolute() == q.absolute(),
        step_is::<A>(gain, target, attack_steps, release_steps, step),
        slid_is::<A>(gain, target, step, samples, result),
        samples > 0,
    ensures
        target.below(gain) && attack_steps.at_most(single(ONE)) ==> result == target,
        gain.at_most(target) && release_steps.at_most(single(ONE)) ==> result == target,
{
    if target.below(gain) && attack_steps.at_most(single(ONE)) {
        assert(attack_steps.greater(single(ONE)).same(single(ONE)));
        assert(attack_steps.greater(single(ONE)) == single(ONE));
        assert(difference_is::<A>(gain, target, step));
        assert(step.absolute().at_most(step));
    }
    if gain.at_most(target) && release_steps.at_most(single(ONE)) {
        assert(!target.below(gain));
        assert(release_steps.greater(single(ONE)) == single(ONE));
        assert(difference_is::<A>(target, gain, step));
        assert(step.absolute().at_most(step));
    }
}

/// The gain of the whole signal falls over the attack of the settings and rises over their
/// release: where the attack takes at most one sample at the rate in force, a gain that has to
/// fall is at once what the level asks for, and where the release does, so is one that may rise.
pub proof fn law_level_gain_goes_by_its_settings<A: Arithmetic>(
    limiter: LoudnessLimiter,
    level: Single,
    samples: nat,
    gain: Single,
)
    requires
        answers_alike::<A>(),
        knows_one_and_zero::<A>(),
        unit(limiter.current_gain),
        forall|target: Single| #[trigger]
            limiter.excess_gain_is::<A>(level, target) ==> unit(target),
        forall|a: Single, b: Single, r: Single| #[trigger]
            difference_is::<A>(a, b, r) && unit(a) && unit(b) && b.at_most(a) ==> single(
                ZERO,
            ).at_most(r),
        forall|a: Single, b: Single, r: Single, q: Single|
            #![trigger difference_is::<A>(a, b, r), difference_is::<A>(b, a, q)]
            difference_is::<A>(a, b, r) && difference_is::<A>(b, a, q) && unit(a) && unit(b)
                ==> r.absolute() == q.absolute(),
        limiter.gain_after_is::<A>(level, samples, gain),
        samples > 0,
    ensures
        exists|target: Single|
            {
                &&& #[trigger] limiter.excess_gain_is::<A>(level, target)
                &&& target.below(limiter.current_gain) && (forall|seconds: Single, steps: Single|
                    #![trigger quotient_is::<A>(limiter.cached_attack_ms, single(THOUSAND), seconds), product_is::<A>(seconds, limiter.sample_rate, steps)]
                    quotient_is::<A>(limiter.cached_attack_ms, single(THOUSAND), seconds)
                        && product_is::<A>(seconds, limiter.sample_rate, steps)
                        ==> steps.at_most(single(ONE))) ==> gain == target
                &&& limiter.current_gain.at_most(target) && (forall|
                    seconds: Single,
                    steps: Single,
                |
                    #![trigger quotient_is::<A>(limiter.cached_release_ms, single(THOUSAND), seconds), product_is::<A>(seconds, limiter.sample_rate, steps)]
                    quotient_is::<A>(limiter.cached_release_ms, single(THOUSAND), seconds)
                        && product_is::<A>(seconds, limiter.sample_rate, steps)
                        ==> steps.at_most(single(ONE))) ==> gain == target
            },
{
    let (target, attack, release, step) = choose|
        target: Single,
        attack: Single,
        release: Single,
        step: Single,
    |
        #![trigger limiter.excess_gain_is::<A>(level, target), steps_is::<A>(limiter.cached_attack_ms, limiter.sample_rate, attack), steps_is::<A>(limiter.cached_release_ms, limiter.sample_rate, release), step_is::<A>(limiter.current_gain, target, attack, release, step)]
        {
            &&& limiter.excess_gain_is::<A>(level, target)
            &&& steps_is::<A>(limiter.cached_attack_ms, limiter.sample_rate, attack)
            &&& steps_is::<A>(limiter.cached_release_ms, limiter.sample_rate, release)
            &&& step_is::<A>(limiter.current_gain, target, attack, release, step)
            &&& slid_is::<A>(limiter.current_gain, target, step, samples, gain)
        };
    law_gain_falls_over_attack_and_rises_over_release::<A>(
        limiter.current_gain,
        target,
        attack,
        release,
        step,
        samples,
        gain,
    );
}

/// The gain that is slid to and the gain that is looked up are the same for a level, as long as
/// the host's differences have the sign that the comparison says.
pub proof fn law_both_ways_to_a_gain_agree<A: Arithmetic>(
    limiter: LoudnessLimiter,
    level: Single,
    gain: Single,
)
    requires
        forall|a: Single, b: Single, r: Single| #[trigger]
            difference_is::<A>(a, b, r) ==> (single(ZERO).below(r) <==> b.below(a)),
        limiter.excess_gain_is::<A>(level, gain),
    ensures
        limiter.target_gain_is::<A>(level, gain),
{
}

/// The gain of the upper band is the gain that its level asks for, as that of the whole signal is.
pub proof fn law_band_gain_is_that_of_its_level<A: Arithmetic>(
    limiter: LoudnessLimiter,
    gain: Single,
)
    requires
        limiter.band_gain_is::<A>(gain),
    ensures
        single(LOWEST_LEVEL).below(limiter.high_rms_smooth) ==> limiter.target_gain_is::<A>(
            limiter.high_rms_smooth,
            gain,
        ),
        limiter.high_rms_smooth.at_most(single(LOWEST_LEVEL)) ==> gain == single(ONE),
{
    let level = limiter.high_rms_smooth;
    if single(LOWEST_LEVEL).below(level) {
        assert(level.greater(single(LOWEST_LEVEL)) == level);
    }
}

/// The two bands add up to the sample: while the gain of the upper band is one, a sample comes
/// out as it came in, if the host takes a part away and adds it again without rounding.
pub proof fn law_bands_add_up_to_the_sample<A: Arithmetic>(
    limiter: LoudnessLimiter,
    sample: Single,
    trace: SampleTrace,
    next: LoudnessLimiter,
    output: Single,
)
    requires
        knows_one_and_zero::<A>(),
        limiter.processes::<A>(sample, trace, next, output),
        !next.hp_y1.nan(),
        next.high_gain == single(ONE),
        forall|low: Single, whole: Single|
            #![trigger difference_is::<A>(sample, next.hp_y1, low), sum_is::<A>(low, next.hp_y1, whole)]
            difference_is::<A>(sample, next.hp_y1, low) && sum_is::<A>(low, next.hp_y1, whole)
                ==> whole == sample,
    ensures
        output == sample,
{
}

/// Where the gain of the upper band is zero, only the rest comes out.
pub proof fn law_muted_band_leaves_the_rest<A: Arithmetic>(
    limiter: LoudnessLimiter,
    sample: Single,
    trace: SampleTrace,
    next: LoudnessLimiter,
    output: Single,
    rest: Single,
)
    requires
        answers_alike::<A>(),
        knows_one_and_zero::<A>(),
        limiter.processes::<A>(sample, trace, next, output),
        next.hp_y1.finite(),
        next.high_gain == single(ZERO),
        difference_is::<A>(sample, next.hp_y1, rest),
        !rest.nan(),
    ensures
        output.same(rest),
{
}

/// What lies above the crossover: from rest it is the change since the sample before, scaled by
/// the coefficient of the filter, and while the samples stay the same it dies away by that
/// coefficient.
#[verifier::spinoff_prover]
#[verifier::rlimit(60)]
pub proof fn law_upper_band_is_what_changes<A: Arithmetic>(
    limiter: LoudnessLimiter,
    sample: Single,
    trace: SampleTrace,
    next: LoudnessLimiter,
    output: Single,
)
    requires
        knows_one_and_zero::<A>(),
        limiter.processes::<A>(sample, trace, next, output),
        sample.finite(),
        !sample.same(single(ZERO)),
    ensures
        limiter.hp_y1.same(single(ZERO)) ==> exists|change: Single| #[trigger]
            difference_is::<A>(sample, limiter.hp_x1, change) && product_is::<A>(
                limiter.alpha,
                change,
                next.hp_y1,
            ),
        sample == limiter.hp_x1 && (forall|ahead: Single, change: Single|
            #![trigger sum_is::<A>(limiter.hp_y1, sample, ahead), difference_is::<A>(ahead, sample, change)]
            sum_is::<A>(limiter.hp_y1, sample, ahead) && difference_is::<A>(ahead, sample, change)
                ==> change == limiter.hp_y1) ==> product_is::<A>(
            limiter.alpha,
            limiter.hp_y1,
            next.hp_y1,
        ),
        next.hp_x1 == sample,
{
    if limiter.hp_y1.same(single(ZERO)) {
        assert(trace.ahead.same(sample));
        assert(trace.ahead == sample);
        assert(difference_is::<A>(sample, limiter.hp_x1, trace.change));
    }
}

/// The level of the upper band goes to the distance from zero of what lies above the crossover,
/// as its coefficient says: from silence at once with one, not at all with zero, and not where it
/// is already there.
pub proof fn law_band_level_goes_to_the_distance<A: Arithmetic>(
    limiter: LoudnessLimiter,
    sample: Single,
    trace: SampleTrace,
    next: LoudnessLimiter,
    output: Single,
)
    requires
        knows_one_and_zero::<A>(),
        limiter.processes::<A>(sample, trace, next, output),
        next.hp_y1.finite(),
        limiter.high_rms_smooth.finite(),
        trace.rise.finite(),
        limiter.rms_alpha.finite(),
    ensures
        limiter.rms_alpha == single(ZERO) ==> next.high_rms_smooth.same(limiter.high_rms_smooth),
        limiter.rms_alpha == single(ONE) && limiter.high_rms_smooth.same(single(ZERO))
            ==> next.high_rms_smooth.same(next.hp_y1.absolute()),
        limiter.high_rms_smooth.same(next.hp_y1.absolute()) ==> next.high_rms_smooth.same(
            limiter.high_rms_smooth,
        ),
{
}

/// A gain that is within a step of its target arrives there with the next sample.
pub proof fn law_gain_arrives<A: Arithmetic>(
    gain: Single,
    target: Single,
    step: Single,
    samples: nat,
    result: Single,
)
    requires
        samples > 0,
        forall|other: Single| #[trigger]
            difference_is::<A>(gain, target, other) ==> other.absolute().at_most(step),
        slid_is::<A>(gain, target, step, samples, result),
    ensures
        result == target,
{
}

/// A tuned limiter has the steps of its settings: as many as there are samples in the attack and in
/// the release, at the rate in force.
pub proof fn law_tuned_limiter_has_its_steps<A: Arithmetic>(limiter: LoudnessLimiter, tuning: Tuning)
    requires
        limiter.holds::<A>(tuning),
        limiter.tuned::<A>(),
    ensures
        limiter.cached_threshold_db == tuning.threshold_db,
        limiter.cached_crossover_freq == tuning.crossover_freq,
        exists|ms: Single, seconds: Single|
            #![trigger integer_is::<A>(tuning.attack_ms as u64, ms), quotient_is::<A>(ms, single(THOUSAND), seconds)]
            {
                &&& integer_is::<A>(tuning.attack_ms as u64, ms)
                &&& quotient_is::<A>(ms, single(THOUSAND), seconds)
                &&& product_is::<A>(seconds, limiter.sample_rate, limiter.high_attack_steps)
            },
        exists|ms: Single, seconds: Single|
            #![trigger integer_is::<A>(tuning.release_ms as u64, ms), quotient_is::<A>(ms, single(THOUSAND), seconds)]
            {
                &&& integer_is::<A>(tuning.release_ms as u64, ms)
                &&& quotient_is::<A>(ms, single(THOUSAND), seconds)
                &&& product_is::<A>(seconds, limiter.sample_rate, limiter.high_release_steps)
            },
{
}

/// The upper band is limited on its own wherever its filter takes something and its gain has steps to
/// fall by; anything else scales the whole signal.
pub proof fn law_useless_coefficients_scale_the_whole(limiter: LoudnessLimiter)
    requires
        !limiter.alpha.nan(),
        !limiter.high_attack_steps.nan(),
    ensures
        limiter.bypassed() <==> !(single(ZERO).below(limiter.alpha) && single(ZERO).below(
            limiter.high_attack_steps,
        )),
{
}

/// Where the whole signal is scaled, a sample and its opposite lead to the same gains: the level is a
/// distance. Only the gain moves, and at full gain the sample comes out as it went in.
pub proof fn law_whole_signal_goes_by_its_distance<A: Arithmetic>(
    limiter: LoudnessLimiter,
    sample: Single,
    next: LoudnessLimiter,
    output: Single,
    opposite_output: Single,
)
    requires
        limiter.scales_whole::<A>(sample, next, output),
        product_is::<A>(sample.negated(), next.current_gain, opposite_output),
        crate::arithmetic::knows_one_and_zero::<A>(),
        sample.finite(),
    ensures
        limiter.scales_whole::<A>(sample.negated(), next, opposite_output),
        limiter.gain_after_is::<A>(single((sample.bits % 0x8000_0000) as u32), 1, next.current_gain),
        next.current_gain == single(ONE) ==> output == sample,
        next.high_gain == limiter.high_gain && next.hp_y1 == limiter.hp_y1 && next.high_rms_smooth
            == limiter.high_rms_smooth,
{
    assert(sample.negated().absolute() == sample.absolute());
}

/// A new limiter has heard nothing: full gains, and silence before the first sample.
pub proof fn law_new_limiter_has_heard_nothing(limiter: LoudnessLimiter)
    requires
        limiter.unmoved(),
    ensures
        crate::values::is_number(limiter.current_gain, 1, 1),
        crate::values::is_number(limiter.high_gain, 1, 1),
        crate::values::is_number(limiter.hp_x1, 0, 1),
        crate::values::is_number(limiter.hp_y1, 0, 1),
        crate::values::is_number(limiter.high_rms_smooth, 0, 1),
{
    crate::values::law_numbers_of_the_limiter();
}

/// A limiter that could read no settings goes by a threshold of -20 decibels, an attack of ten
/// milliseconds, a release of fifty, and a crossover at 300 a second.
pub proof fn law_fallback_settings_have_their_places(limiter: LoudnessLimiter)
    requires
        limiter.holds_fallback(),
    ensures
        crate::values::is_number(limiter.cached_threshold_db, -20, 1),
        crate::values::is_number(limiter.cached_attack_ms, 10, 1),
        crate::values::is_number(limiter.cached_release_ms, 50, 1),
        crate::values::is_number(limiter.cached_crossover_freq, 300, 1),
{
    crate::values::law_numbers_of_the_modes();
}

/// The higher the crossover, the larger the coefficient of the filter. Let the host keep the order of
/// numbers, answer alike, and find something above zero wherever the filter divides.
pub proof fn law_higher_crossovers_have_larger_coefficients<A: Arithmetic>(
    lower: Single,
    higher: Single,
    rate: Single,
    alpha: Single,
    larger: Single,
)
    requires
        crate::arithmetic::keeps_order::<A>(),
        answers_alike::<A>(),
        filter_is::<A>(lower, rate, alpha),
        filter_is::<A>(higher, rate, larger),
        lower.finite(),
        higher.finite(),
        lower.at_most(higher),
        forall|dt: Single| #[trigger]
            quotient_is::<A>(single(ONE), rate, dt) ==> dt.finite() && single(ZERO).below(dt),
        forall|turn: Single| #[trigger]
            product_is::<A>(single(FULL_TURN), lower, turn) ==> single(ZERO).below(turn),
        forall|rc: Single, dt: Single, both: Single| #[trigger]
            sum_is::<A>(rc, dt, both) && single(ZERO).at_most(rc) && single(ZERO).below(dt)
                ==> single(ZERO).below(both),
        forall|turn: Single, rc: Single| #[trigger]
            quotient_is::<A>(single(ONE), turn, rc) && single(ZERO).below(turn) ==> single(
                ZERO,
            ).at_most(rc),
    ensures
        alpha.at_most(larger),
{
    let (dt, turn, rc, both) = choose|dt: Single, turn: Single, rc: Single, both: Single|
        #![trigger quotient_is::<A>(single(ONE), rate, dt), product_is::<A>(single(FULL_TURN), lower, turn), quotient_is::<A>(single(ONE), turn, rc), sum_is::<A>(rc, dt, both)]
        {
            &&& quotient_is::<A>(single(ONE), rate, dt)
            &&& product_is::<A>(single(FULL_TURN), lower, turn)
            &&& quotient_is::<A>(single(ONE), turn, rc)
            &&& sum_is::<A>(rc, dt, both)
            &&& quotient_is::<A>(dt, both, alpha)
        };
    let (dt2, turn2, rc2, both2) = choose|dt: Single, turn: Single, rc: Single, both: Single|
        #![trigger quotient_is::<A>(single(ONE), rate, dt), product_is::<A>(single(FULL_TURN), higher, turn), quotient_is::<A>(single(ONE), turn, rc), sum_is::<A>(rc, dt, both)]
        {
            &&& quotient_is::<A>(single(ONE), rate, dt)
            &&& product_is::<A>(single(FULL_TURN), higher, turn)
            &&& quotient_is::<A>(single(ONE), turn, rc)
            &&& sum_is::<A>(rc, dt, both)
            &&& quotient_is::<A>(dt, both, larger)
        };
    assert(dt2 == dt);
    assert(turn.at_most(turn2));
    assert(rc2.at_most(rc));
    assert(both2.at_most(both));
    assert(single(ZERO).below(both2));
}

/// The more samples a second, the less one of them counts for the level. Let the host keep the order of
/// numbers, and find something above zero wherever the coefficient divides.
pub proof fn law_samples_count_less_at_higher_rates<A: Arithmetic>(
    lower: Single,
    higher: Single,
    alpha: Single,
    smaller: Single,
)
    requires
        crate::arithmetic::keeps_order::<A>(),
        level_filter_is::<A>(lower, alpha),
        level_filter_is::<A>(higher, smaller),
        lower.finite(),
        higher.finite(),
        lower.at_most(higher),
        forall|samples: Single| #[trigger]
            product_is::<A>(single(LEVEL_SECONDS), lower, samples) ==> single(ZERO).below(samples),
    ensures
        smaller.at_most(alpha),
{
    let (samples, exponent, decay) = choose|samples: Single, exponent: Single, decay: Single|
        #![trigger product_is::<A>(single(LEVEL_SECONDS), lower, samples), quotient_is::<A>(single(MINUS_ONE), samples, exponent), exponential_is::<A>(exponent, decay)]
        {
            &&& product_is::<A>(single(LEVEL_SECONDS), lower, samples)
            &&& quotient_is::<A>(single(MINUS_ONE), samples, exponent)
            &&& exponential_is::<A>(exponent, decay)
            &&& difference_is::<A>(single(ONE), decay, alpha)
        };
    let (samples2, exponent2, decay2) = choose|samples: Single, exponent: Single, decay: Single|
        #![trigger product_is::<A>(single(LEVEL_SECONDS), higher, samples), quotient_is::<A>(single(MINUS_ONE), samples, exponent), exponential_is::<A>(exponent, decay)]
        {
            &&& product_is::<A>(single(LEVEL_SECONDS), higher, samples)
            &&& quotient_is::<A>(single(MINUS_ONE), samples, exponent)
            &&& exponential_is::<A>(exponent, decay)
            &&& difference_is::<A>(single(ONE), decay, smaller)
        };
    assert(samples.at_most(samples2));
    assert(exponent.at_most(exponent2));
    assert(decay.at_most(decay2));
}

/// A thousand milliseconds have as many samples as there are in a second.
pub proof fn law_a_second_has_its_samples<A: Arithmetic>(rate: Single, steps: Single)
    requires
        knows_one_and_zero::<A>(),
        steps_is::<A>(single(THOUSAND), rate, steps),
        !rate.nan(),
    ensures
        steps == rate,
{
    crate::values::law_numbers_of_the_limiter();
}

} // verus!
