//! The stereo loudness limiter.
//!
//! A frame is amplified by a smoothed pre-gain, measured by a level detector and by a peak
//! detector, delayed by a short lookahead, scaled by the smaller of the two gains on both
//! channels alike, and clamped to the ceiling.

use vstd::prelude::*;

use crate::arithmetic::{
    answers_alike, difference_is, exponential_is, integer_is, logarithm_is, power_of_ten_is,
    product_is, quotient_is, rounded_is, square_root_is, squares_have_no_sign, sum_is, Arithmetic,
};
use crate::config::LimiterParams;
use crate::runtime_params::RuntimeLimiterParams;
use crate::single::{single, Single};

verus! {

/// Bit pattern of -3: the ceiling, in decibels of full scale.
pub const PEAK_THRESHOLD_DB: u32 = 0xc040_0000;

pub const RMS_DETECTOR_MS: u32 = 10;

/// Bit pattern of 6.
pub const RMS_KNEE_DB: u32 = 0x40c0_0000;

pub const PEAK_ATTACK_MS: u32 = 1;

pub const LOOKAHEAD_MS: u32 = 5;

pub const PRE_GAIN_SMOOTH_MS: u32 = 20;

/// Bit pattern of 0.
pub const ZERO: u32 = 0;

/// Bit pattern of 1.
pub const ONE: u32 = 0x3f80_0000;

/// Bit pattern of -1.
pub const MINUS_ONE: u32 = 0xbf80_0000;

/// Bit pattern of 0.5.
pub const HALF: u32 = 0x3f00_0000;

/// Bit pattern of 2.
pub const TWO: u32 = 0x4000_0000;

/// Bit pattern of 20.
pub const TWENTY: u32 = 0x41a0_0000;

/// Bit pattern of 1000.
pub const THOUSAND: u32 = 0x447a_0000;

/// Bit pattern of 0.000001: levels up to this count as silence.
pub const SILENCE: u32 = 0x3586_37bd;

/// Bit pattern of -120: the level of silence in decibels.
pub const SILENCE_DB: u32 = 0xc2f0_0000;

/// Bit pattern of 48000.
pub const INITIAL_SAMPLE_RATE: u32 = 0x473b_8000;

/// Bit pattern of 8000.
pub const LOWEST_SAMPLE_RATE: u32 = 0x45fa_0000;

/// `r` is an answer for `target * (1 - coeff) + previous * coeff`.
pub open spec fn smoothed_is<A: Arithmetic>(
    target: Single,
    coeff: Single,
    previous: Single,
    r: Single,
) -> bool {
    exists|rest: Single, new_part: Single, old_part: Single|
        #![trigger difference_is::<A>(single(ONE), coeff, rest), product_is::<A>(target, rest, new_part), product_is::<A>(previous, coeff, old_part)]
        {
            &&& difference_is::<A>(single(ONE), coeff, rest)
            &&& product_is::<A>(target, rest, new_part)
            &&& product_is::<A>(previous, coeff, old_part)
            &&& sum_is::<A>(new_part, old_part, r)
        }
}

/// Moves from `previous` towards `target`; `coeff` says how much of `previous` is kept.
pub fn smooth<A: Arithmetic>(target: Single, coeff: Single, previous: Single) -> (r: Single)
    ensures
        smoothed_is::<A>(target, coeff, previous, r),
{
    let rest = A::difference(Single::from_bits(ONE), coeff);
    let new_part = A::product(target, rest);
    let old_part = A::product(previous, coeff);
    let r = A::sum(new_part, old_part);
    assert(difference_is::<A>(single(ONE), coeff, rest));
    assert(product_is::<A>(target, rest, new_part));
    assert(product_is::<A>(previous, coeff, old_part));
    r
}

/// `r` is an answer for the factor that `db` decibels stand for.
pub open spec fn linear_is<A: Arithmetic>(db: Single, r: Single) -> bool {
    exists|exponent: Single|
        #[trigger] quotient_is::<A>(db, single(TWENTY), exponent) && power_of_ten_is::<A>(
            exponent,
            r,
        )
}

/// `r` is an answer for the decibels that the factor `value` stands for.
pub open spec fn decibels_is<A: Arithmetic>(value: Single, r: Single) -> bool {
    if value.at_most(single(SILENCE)) {
        r == single(SILENCE_DB)
    } else {
        exists|log: Single|
            #[trigger] logarithm_is::<A>(value, log) && product_is::<A>(single(TWENTY), log, r)
    }
}

/// `r` is an answer for the smoothing coefficient of `time_ms` at `rate` frames a second.
pub open spec fn coefficient_is<A: Arithmetic>(time_ms: u32, rate: Single, r: Single) -> bool {
    exists|ms: Single, seconds: Single, samples: Single|
        #![trigger integer_is::<A>(time_ms as u64, ms), quotient_is::<A>(ms, single(THOUSAND), seconds), product_is::<A>(seconds, rate, samples)]
        {
            &&& integer_is::<A>(time_ms as u64, ms)
            &&& quotient_is::<A>(ms, single(THOUSAND), seconds)
            &&& product_is::<A>(seconds, rate, samples)
            &&& if samples.at_most(single(ZERO)) {
                r == single(ZERO)
            } else {
                exists|exponent: Single|
                    #[trigger] quotient_is::<A>(single(MINUS_ONE), samples, exponent)
                        && exponential_is::<A>(exponent, r)
            }
        }
}

/// `count`, or the largest size that the machine knows where `count` exceeds it.
pub open spec fn machine_size(count: u64) -> usize {
    if count > usize::MAX {
        usize::MAX
    } else {
        count as usize
    }
}

/// Brings a count into the range of sizes.
pub fn to_machine_size(count: u64) -> (size: usize)
    ensures
        size == machine_size(count),
{
    if count > usize::MAX as u64 {
        usize::MAX
    } else {
        count as usize
    }
}

/// The larger of a size and `least`.
pub open spec fn at_least(size: usize, least: usize) -> usize {
    if size < least {
        least
    } else {
        size
    }
}

/// `n` is an answer for the number of frames in `rate * time / 1000`, at least one.
pub open spec fn frames_in_is<A: Arithmetic>(rate: Single, time: Single, n: usize) -> bool {
    exists|scaled: Single, frames: Single, count: u64|
        #![trigger product_is::<A>(rate, time, scaled), quotient_is::<A>(scaled, single(THOUSAND), frames), rounded_is::<A>(frames, count)]
        {
            &&& product_is::<A>(rate, time, scaled)
            &&& quotient_is::<A>(scaled, single(THOUSAND), frames)
            &&& rounded_is::<A>(frames, count)
            &&& n == at_least(machine_size(count), 1)
        }
}

/// The number of frames in `rate * time / 1000`, at least one.
pub fn frames_in<A: Arithmetic>(rate: Single, time: Single) -> (n: usize)
    ensures
        frames_in_is::<A>(rate, time, n),
        n >= 1,
{
    let scaled = A::product(rate, time);
    let frames = A::quotient(scaled, Single::from_bits(THOUSAND));
    let count: u64 = A::rounded(frames);
    assert(product_is::<A>(rate, time, scaled));
    assert(quotient_is::<A>(scaled, single(THOUSAND), frames));
    assert(rounded_is::<A>(frames, count));
    let size: usize = to_machine_size(count);
    if size < 1 {
        1
    } else {
        size
    }
}

/// `n` is an answer for the number of frames in `time_ms` at `rate` frames a second.
pub open spec fn lookahead_is<A: Arithmetic>(time_ms: u32, rate: Single, n: usize) -> bool {
    exists|time: Single|
        #[trigger] integer_is::<A>(time_ms as u64, time) && frames_in_is::<A>(rate, time, n)
}

/// `r` is an answer for the level reduction, in decibels, that a soft knee of width
/// `knee` around `threshold` asks of a signal at `level`.
pub open spec fn knee_reduction_is<A: Arithmetic>(
    level: Single,
    threshold: Single,
    knee: Single,
    r: Single,
) -> bool {
    exists|half: Single, start: Single, end: Single|
        #![trigger product_is::<A>(knee, single(HALF), half), difference_is::<A>(threshold, half, start), sum_is::<A>(threshold, half, end)]
        {
            &&& product_is::<A>(knee, single(HALF), half)
            &&& difference_is::<A>(threshold, half, start)
            &&& sum_is::<A>(threshold, half, end)
            &&& if level.at_most(start) {
                r == single(ZERO)
            } else if end.at_most(level) {
                difference_is::<A>(threshold, level, r)
            } else {
                exists|into: Single, square: Single, width: Single|
                    #![trigger difference_is::<A>(level, start, into), product_is::<A>(into, into, square), product_is::<A>(single(TWO), knee, width)]
                    {
                        &&& difference_is::<A>(level, start, into)
                        &&& product_is::<A>(into, into, square)
                        &&& product_is::<A>(single(TWO), knee, width)
                        &&& quotient_is::<A>(square.negated(), width, r)
                    }
            }
        }
}

/// `r` is an answer for the gain that a soft knee of width `knee` around `threshold` asks
/// of a signal at `level`, all in decibels.
pub open spec fn knee_gain_is<A: Arithmetic>(
    level: Single,
    threshold: Single,
    knee: Single,
    r: Single,
) -> bool {
    if !level.finite() {
        r == single(ONE)
    } else if knee.at_most(single(ZERO)) {
        if level.at_most(threshold) {
            r == single(ONE)
        } else {
            exists|excess: Single|
                #[trigger] difference_is::<A>(threshold, level, excess) && linear_is::<A>(
                    excess,
                    r,
                )
        }
    } else {
        exists|reduction: Single, factor: Single|
            #![trigger knee_reduction_is::<A>(level, threshold, knee, reduction), linear_is::<A>(reduction, factor)]
            {
                &&& knee_reduction_is::<A>(level, threshold, knee, reduction)
                &&& linear_is::<A>(reduction, factor)
                &&& r == factor.clamped(single(ZERO), single(ONE))
            }
    }
}

/// The limiter with everything that one frame leaves for the next.
pub struct LoudnessLimiter {
    pub current_params: LimiterParams,
    pub last_parameter_version: u64,
    pub sample_rate: Single,
    pub pre_gain_target_linear: Single,
    pub pre_gain_smoother: Single,
    pub pre_gain_smooth_coeff: Single,
    pub threshold_db: Single,
    pub attack_coeff: Single,
    pub release_coeff: Single,
    pub rms_detector_coeff: Single,
    pub fullband_rms: Single,
    pub gain_smoother: Single,
    pub peak_threshold_linear: Single,
    pub peak_attack_coeff: Single,
    pub peak_release_coeff: Single,
    pub peak_gain_smoother: Single,
    pub peak_hold_gain: Single,
    pub peak_hold_counter: usize,
    pub lookahead_samples: usize,
    pub lookahead_l: Vec<Single>,
    pub lookahead_r: Vec<Single>,
    pub lookahead_pos: usize,
}

/// The limiter as its behaviour sees it: the two delay lines, oldest sample first, stand
/// in place of the buffers.
pub struct LimiterState {
    pub current_params: LimiterParams,
    pub last_parameter_version: u64,
    pub sample_rate: Single,
    pub pre_gain_target_linear: Single,
    pub pre_gain_smoother: Single,
    pub pre_gain_smooth_coeff: Single,
    pub threshold_db: Single,
    pub attack_coeff: Single,
    pub release_coeff: Single,
    pub rms_detector_coeff: Single,
    pub fullband_rms: Single,
    pub gain_smoother: Single,
    pub peak_threshold_linear: Single,
    pub peak_attack_coeff: Single,
    pub peak_release_coeff: Single,
    pub peak_gain_smoother: Single,
    pub peak_hold_gain: Single,
    pub peak_hold_counter: nat,
    pub delayed_left: Seq<Single>,
    pub delayed_right: Seq<Single>,
}

/// The content of a circular buffer that is next read and written at `pos`, oldest first.
pub open spec fn oldest_first(buffer: Seq<Single>, pos: int) -> Seq<Single> {
    buffer.skip(pos) + buffer.take(pos)
}

/// `count` samples of silence.
pub open spec fn silence(count: nat) -> Seq<Single> {
    Seq::new(count, |i: int| single(ZERO))
}

impl View for LoudnessLimiter {
    type V = LimiterState;

    open spec fn view(&self) -> LimiterState {
        LimiterState {
            current_params: self.current_params,
            last_parameter_version: self.last_parameter_version,
            sample_rate: self.sample_rate,
            pre_gain_target_linear: self.pre_gain_target_linear,
            pre_gain_smoother: self.pre_gain_smoother,
            pre_gain_smooth_coeff: self.pre_gain_smooth_coeff,
            threshold_db: self.threshold_db,
            attack_coeff: self.attack_coeff,
            release_coeff: self.release_coeff,
            rms_detector_coeff: self.rms_detector_coeff,
            fullband_rms: self.fullband_rms,
            gain_smoother: self.gain_smoother,
            peak_threshold_linear: self.peak_threshold_linear,
            peak_attack_coeff: self.peak_attack_coeff,
            peak_release_coeff: self.peak_release_coeff,
            peak_gain_smoother: self.peak_gain_smoother,
            peak_hold_gain: self.peak_hold_gain,
            peak_hold_counter: self.peak_hold_counter as nat,
            delayed_left: oldest_first(self.lookahead_l@, self.lookahead_pos as int),
            delayed_right: oldest_first(self.lookahead_r@, self.lookahead_pos as int),
        }
    }
}

/// The numbers that come up while one frame is processed.
pub struct FrameTrace {
    pub boosted_left: Single,
    pub boosted_right: Single,
    pub energy_left: Single,
    pub energy_right: Single,
    pub rms: Single,
    pub rms_db: Single,
    pub rms_target: Single,
    pub rms_smoothed: Single,
    pub peak_ratio: Single,
    pub peak_smoothed: Single,
    pub processed_left: Single,
    pub processed_right: Single,
}

impl FrameTrace {
    /// The larger of the two channels' distances from zero.
    pub open spec fn peak(self) -> Single {
        self.boosted_left.absolute().greater(self.boosted_right.absolute())
    }

    /// The gain that would bring the peak down to the ceiling, at most one.
    pub open spec fn peak_target(self) -> Single {
        if self.peak().at_most(single(ZERO)) {
            single(ONE)
        } else {
            self.peak_ratio.lesser(single(ONE))
        }
    }
}

impl LimiterState {
    /// The delay lines are equally long and not empty, and the hold lasts no longer than
    /// the delay.
    pub open spec fn valid(self) -> bool {
        &&& self.delayed_left.len() > 0
        &&& self.delayed_left.len() == self.delayed_right.len()
        &&& self.peak_hold_counter <= self.delayed_left.len()
    }

    /// By how many frames the output lags behind the input.
    pub open spec fn lookahead(self) -> nat {
        self.delayed_left.len()
    }

    /// The limiter with its two delay lines exchanged.
    pub open spec fn exchanged(self) -> LimiterState {
        LimiterState {
            delayed_left: self.delayed_right,
            delayed_right: self.delayed_left,
            ..self
        }
    }

    /// The gain that both channels are scaled by.
    pub open spec fn gain(self) -> Single {
        self.gain_smoother.lesser(self.peak_gain_smoother)
    }

    /// The first samples that come out of the delay lines.
    pub open spec fn oldest(self) -> (Single, Single) {
        (self.delayed_left[0], self.delayed_right[0])
    }

    /// A limiter that has just been made for the settings `params`.
    pub open spec fn fresh<A: Arithmetic>(self, params: LimiterParams) -> bool {
        let rate = single(INITIAL_SAMPLE_RATE);
        &&& self.current_params == params
        &&& self.last_parameter_version == u64::MAX
        &&& self.sample_rate == rate
        &&& linear_is::<A>(params.pre_gain_db, self.pre_gain_target_linear)
        &&& self.pre_gain_smoother == self.pre_gain_target_linear
        &&& coefficient_is::<A>(PRE_GAIN_SMOOTH_MS, rate, self.pre_gain_smooth_coeff)
        &&& self.threshold_db == params.threshold_db
        &&& coefficient_is::<A>(params.attack_ms, rate, self.attack_coeff)
        &&& coefficient_is::<A>(params.release_ms, rate, self.release_coeff)
        &&& coefficient_is::<A>(RMS_DETECTOR_MS, rate, self.rms_detector_coeff)
        &&& self.fullband_rms == single(ZERO)
        &&& self.gain_smoother == single(ONE)
        &&& linear_is::<A>(single(PEAK_THRESHOLD_DB), self.peak_threshold_linear)
        &&& coefficient_is::<A>(PEAK_ATTACK_MS, rate, self.peak_attack_coeff)
        &&& coefficient_is::<A>(params.peak_release_ms, rate, self.peak_release_coeff)
        &&& self.peak_gain_smoother == single(ONE)
        &&& self.peak_hold_gain == single(ONE)
        &&& self.peak_hold_counter == 0
        &&& self.silent_for::<A>(rate)
    }

    /// The delay lines hold silence, as long as the lookahead is at `rate`.
    pub open spec fn silent_for<A: Arithmetic>(self, rate: Single) -> bool {
        exists|n: usize| #[trigger] lookahead_is::<A>(LOOKAHEAD_MS, rate, n) && {
            &&& self.delayed_left == silence(n as nat)
            &&& self.delayed_right == silence(n as nat)
        }
    }

    /// `next` is `self` with the settings `params` in force; the pre-gain moves towards
    /// its new target only with the frames to come.
    pub open spec fn retuned<A: Arithmetic>(self, params: LimiterParams, next: LimiterState) -> bool {
        &&& coefficient_is::<A>(params.attack_ms, self.sample_rate, next.attack_coeff)
        &&& coefficient_is::<A>(params.release_ms, self.sample_rate, next.release_coeff)
        &&& coefficient_is::<A>(params.peak_release_ms, self.sample_rate, next.peak_release_coeff)
        &&& linear_is::<A>(params.pre_gain_db, next.pre_gain_target_linear)
        &&& next == (LimiterState {
            current_params: params,
            threshold_db: params.threshold_db,
            attack_coeff: next.attack_coeff,
            release_coeff: next.release_coeff,
            peak_release_coeff: next.peak_release_coeff,
            pre_gain_target_linear: next.pre_gain_target_linear,
            ..self
        })
    }

    /// `next` is `self` made ready for streams of `rate` frames a second.
    pub open spec fn resampled<A: Arithmetic>(self, rate: Single, next: LimiterState) -> bool {
        let params = self.current_params.cleaned();
        &&& coefficient_is::<A>(params.attack_ms, rate, next.attack_coeff)
        &&& coefficient_is::<A>(params.release_ms, rate, next.release_coeff)
        &&& coefficient_is::<A>(params.peak_release_ms, rate, next.peak_release_coeff)
        &&& linear_is::<A>(params.pre_gain_db, next.pre_gain_target_linear)
        &&& coefficient_is::<A>(PRE_GAIN_SMOOTH_MS, rate, next.pre_gain_smooth_coeff)
        &&& coefficient_is::<A>(RMS_DETECTOR_MS, rate, next.rms_detector_coeff)
        &&& coefficient_is::<A>(PEAK_ATTACK_MS, rate, next.peak_attack_coeff)
        &&& next.silent_for::<A>(rate)
        &&& next == (LimiterState {
            sample_rate: rate,
            current_params: params,
            threshold_db: params.threshold_db,
            attack_coeff: next.attack_coeff,
            release_coeff: next.release_coeff,
            peak_release_coeff: next.peak_release_coeff,
            pre_gain_target_linear: next.pre_gain_target_linear,
            pre_gain_smooth_coeff: next.pre_gain_smooth_coeff,
            rms_detector_coeff: next.rms_detector_coeff,
            peak_attack_coeff: next.peak_attack_coeff,
            peak_hold_gain: single(ONE),
            peak_hold_counter: 0,
            delayed_left: next.delayed_left,
            delayed_right: next.delayed_right,
            ..self
        })
    }

    /// The hold after a frame whose peak asks for the gain `target`: what is held and for
    /// how many more frames.
    pub open spec fn hold_after(self, target: Single) -> (Single, nat) {
        if target.below(single(ONE)) {
            (self.peak_hold_gain.lesser(target), self.lookahead())
        } else if self.peak_hold_counter > 0 {
            (self.peak_hold_gain, (self.peak_hold_counter - 1) as nat)
        } else {
            (single(ONE), 0)
        }
    }

    /// `next` and `output` are what the frame `(left, right)` leads to by way of `trace`.
    pub open spec fn processes<A: Arithmetic>(
        self,
        left: Single,
        right: Single,
        trace: FrameTrace,
        next: LimiterState,
        output: (Single, Single),
    ) -> bool {
        let hold = self.hold_after(trace.peak_target());
        let rms_coeff = if trace.rms_target.below(self.gain_smoother) {
            self.attack_coeff
        } else {
            self.release_coeff
        };
        let peak_coeff = if hold.0.below(self.peak_gain_smoother) {
            self.peak_attack_coeff
        } else {
            self.peak_release_coeff
        };
        let ceiling = self.peak_threshold_linear;
        // The smoothed pre-gain.
        &&& smoothed_is::<A>(
            self.pre_gain_target_linear,
            self.pre_gain_smooth_coeff,
            self.pre_gain_smoother,
            next.pre_gain_smoother,
        )
        &&& product_is::<A>(
            left.finite_or(single(ZERO)),
            next.pre_gain_smoother,
            trace.boosted_left,
        )
        &&& product_is::<A>(
            right.finite_or(single(ZERO)),
            next.pre_gain_smoother,
            trace.boosted_right,
        )
        // The level, of the louder channel.
        &&& product_is::<A>(trace.boosted_left, trace.boosted_left, trace.energy_left)
        &&& product_is::<A>(trace.boosted_right, trace.boosted_right, trace.energy_right)
        &&& smoothed_is::<A>(
            trace.energy_left.greater(trace.energy_right),
            self.rms_detector_coeff,
            self.fullband_rms,
            next.fullband_rms,
        )
        &&& square_root_is::<A>(next.fullband_rms.greater(single(ZERO)), trace.rms)
        &&& decibels_is::<A>(trace.rms, trace.rms_db)
        &&& knee_gain_is::<A>(
            trace.rms_db,
            self.threshold_db,
            single(RMS_KNEE_DB),
            trace.rms_target,
        )
        &&& smoothed_is::<A>(trace.rms_target, rms_coeff, self.gain_smoother, trace.rms_smoothed)
        // The peak, and the hold that it starts.
        &&& !trace.peak().at_most(single(ZERO)) ==> quotient_is::<A>(
            ceiling,
            trace.peak(),
            trace.peak_ratio,
        )
        &&& smoothed_is::<A>(hold.0, peak_coeff, self.peak_gain_smoother, trace.peak_smoothed)
        // One gain for both channels of the delayed frame.
        &&& product_is::<A>(self.oldest().0, next.gain(), trace.processed_left)
        &&& product_is::<A>(self.oldest().1, next.gain(), trace.processed_right)
        &&& output.0 == trace.processed_left.clamped(ceiling.negated(), ceiling)
        &&& output.1 == trace.processed_right.clamped(ceiling.negated(), ceiling)
        &&& next == (LimiterState {
            pre_gain_smoother: next.pre_gain_smoother,
            fullband_rms: next.fullband_rms,
            gain_smoother: trace.rms_smoothed.clamped(single(ZERO), single(ONE)),
            peak_hold_gain: hold.0,
            peak_hold_counter: hold.1,
            peak_gain_smoother: trace.peak_smoothed.clamped(single(ZERO), single(ONE)),
            delayed_left: self.delayed_left.drop_first().push(trace.boosted_left),
            delayed_right: self.delayed_right.drop_first().push(trace.boosted_right),
            ..self
        })
    }
}

/// Writing where the oldest sample was read, and moving on, drops that sample and appends
/// the new one.
proof fn lemma_delay_line(buffer: Seq<Single>, pos: int, value: Single)
    requires
        0 <= pos < buffer.len(),
    ensures
        oldest_first(buffer, pos)[0] == buffer[pos],
        oldest_first(buffer, pos).len() == buffer.len(),
        oldest_first(
            buffer.update(pos, value),
            if pos + 1 >= buffer.len() {
                0
            } else {
                pos + 1
            },
        ) == oldest_first(buffer, pos).drop_first().push(value),
{
    let written = buffer.update(pos, value);
    if pos + 1 >= buffer.len() {
        assert(oldest_first(written, 0) =~= oldest_first(buffer, pos).drop_first().push(value));
    } else {
        assert(oldest_first(written, pos + 1) =~= oldest_first(buffer, pos).drop_first().push(
            value,
        ));
    }
}

/// `count` samples of silence.
fn silent_buffer(count: usize) -> (buffer: Vec<Single>)
    ensures
        buffer@ == silence(count as nat),
{
    let mut buffer: Vec<Single> = Vec::new();
    let mut i: usize = 0;
    while i < count
        invariant
            i <= count,
            buffer@ == silence(i as nat),
        decreases count - i,
    {
        buffer.push(Single::from_bits(ZERO));
        i = i + 1;
        assert(buffer@ =~= silence(i as nat));
    }
    buffer
}

impl LoudnessLimiter {
    /// The buffers have the length of the lookahead, and the place in them exists.
    pub open spec fn wf(&self) -> bool {
        &&& self.lookahead_samples >= 1
        &&& self.lookahead_l@.len() == self.lookahead_samples
        &&& self.lookahead_r@.len() == self.lookahead_samples
        &&& self.lookahead_pos < self.lookahead_samples
        &&& self.peak_hold_counter <= self.lookahead_samples
    }

    /// The buffers of the delay lines, and the place in them that is read and written next.
    pub open spec fn buffers(&self) -> (Seq<Single>, Seq<Single>, usize) {
        (self.lookahead_l@, self.lookahead_r@, self.lookahead_pos)
    }

    /// A limiter for the settings in force on the channel.
    pub fn new<A: Arithmetic>(runtime_params: &RuntimeLimiterParams) -> (limiter: LoudnessLimiter)
        requires
            runtime_params.stable(),
        ensures
            limiter.wf(),
            limiter@.valid(),
            limiter@.fresh::<A>(runtime_params.params().cleaned()),
            limiter.lookahead_pos == 0,
    {
        proof {
            crate::config::law_cleaning_params(runtime_params.params());
        }
        let params = runtime_params.snapshot().sanitized();
        let sample_rate = Single::from_bits(INITIAL_SAMPLE_RATE);
        let pre_gain_linear = Self::db_to_linear::<A>(params.pre_gain_db);
        let lookahead_samples: usize = Self::calc_lookahead_samples::<A>(LOOKAHEAD_MS, sample_rate);
        let limiter = LoudnessLimiter {
            current_params: params,
            last_parameter_version: u64::MAX,
            sample_rate,
            pre_gain_target_linear: pre_gain_linear,
            pre_gain_smoother: pre_gain_linear,
            pre_gain_smooth_coeff: Self::calc_coeff::<A>(PRE_GAIN_SMOOTH_MS, sample_rate),
            threshold_db: params.threshold_db,
            attack_coeff: Self::calc_coeff::<A>(params.attack_ms, sample_rate),
            release_coeff: Self::calc_coeff::<A>(params.release_ms, sample_rate),
            rms_detector_coeff: Self::calc_coeff::<A>(RMS_DETECTOR_MS, sample_rate),
            fullband_rms: Single::from_bits(ZERO),
            gain_smoother: Single::from_bits(ONE),
            peak_threshold_linear: Self::db_to_linear::<A>(Single::from_bits(PEAK_THRESHOLD_DB)),
            peak_attack_coeff: Self::calc_coeff::<A>(PEAK_ATTACK_MS, sample_rate),
            peak_release_coeff: Self::calc_coeff::<A>(params.peak_release_ms, sample_rate),
            peak_gain_smoother: Single::from_bits(ONE),
            peak_hold_gain: Single::from_bits(ONE),
            peak_hold_counter: 0,
            lookahead_samples,
            lookahead_l: silent_buffer(lookahead_samples),
            lookahead_r: silent_buffer(lookahead_samples),
            lookahead_pos: 0,
        };
        proof {
            assert(limiter@.delayed_left =~= silence(lookahead_samples as nat));
            assert(limiter@.delayed_right =~= silence(lookahead_samples as nat));
            assert(lookahead_is::<A>(LOOKAHEAD_MS, sample_rate, lookahead_samples));
        }
        limiter
    }

    /// To be called once at the start of every audio callback: takes over the settings
    /// where new ones were published.
    pub fn begin_audio_callback<A: Arithmetic>(&mut self, runtime_params: &RuntimeLimiterParams)
        requires
            old(self).wf(),
        ensures
            final(self).wf(),
            runtime_params.stable() && runtime_params.parameter_version
                != old(self).last_parameter_version ==> (LimiterState {
                last_parameter_version: runtime_params.parameter_version,
                ..old(self)@
            }).retuned::<A>(runtime_params.params().cleaned(), final(self)@),
            !runtime_params.stable() || runtime_params.parameter_version
                == old(self).last_parameter_version ==> final(self)@ == old(self)@,
            final(self).buffers() == old(self).buffers(),
    {
        proof {
            crate::config::law_cleaning_params(runtime_params.params());
        }
        let mut version: u64 = self.last_parameter_version;
        match runtime_params.load_if_changed(&mut version) {
            Some(params) => {
                self.adopt::<A>(version, params);
            },
            None => {},
        }
    }

    /// Takes over settings that were read under a new version.
    pub fn adopt<A: Arithmetic>(&mut self, version: u64, params: LimiterParams)
        requires
            old(self).wf(),
        ensures
            final(self).wf(),
            (LimiterState { last_parameter_version: version, ..old(self)@ }).retuned::<A>(
                params.cleaned(),
                final(self)@,
            ),
            final(self).buffers() == old(self).buffers(),
    {
        self.last_parameter_version = version;
        self.apply_runtime_params::<A>(params);
    }

    fn apply_runtime_params<A: Arithmetic>(&mut self, params: LimiterParams)
        requires
            old(self).wf(),
        ensures
            final(self).wf(),
            old(self)@.retuned::<A>(params.cleaned(), final(self)@),
            final(self).buffers() == old(self).buffers(),
    {
        let params = params.sanitized();
        self.current_params = params;
        self.threshold_db = params.threshold_db;
        self.attack_coeff = Self::calc_coeff::<A>(params.attack_ms, self.sample_rate);
        self.release_coeff = Self::calc_coeff::<A>(params.release_ms, self.sample_rate);
        self.peak_release_coeff = Self::calc_coeff::<A>(params.peak_release_ms, self.sample_rate);
        // Only the target changes; the smoother keeps the gain from jumping.
        self.pre_gain_target_linear = Self::db_to_linear::<A>(params.pre_gain_db);
    }

    /// Makes the limiter ready for streams of `sr` frames a second. A rate that no stream
    /// can have is ignored. The delay lines are emptied, so this is not for a running
    /// stream.
    pub fn set_sample_rate<A: Arithmetic>(&mut self, sr: Single)
        requires
            old(self).wf(),
        ensures
            final(self).wf(),
            !sr.finite() || sr.below(single(LOWEST_SAMPLE_RATE)) ==> *final(self) == *old(self),
            sr.finite() && !sr.below(single(LOWEST_SAMPLE_RATE)) ==> {
                &&& old(self)@.resampled::<A>(sr, final(self)@)
                &&& final(self).lookahead_pos == 0
            },
    {
        if !sr.is_finite() || sr.lt(Single::from_bits(LOWEST_SAMPLE_RATE)) {
            return;
        }
        self.sample_rate = sr;
        let params = self.current_params.sanitized();
        self.current_params = params;
        self.threshold_db = params.threshold_db;
        self.attack_coeff = Self::calc_coeff::<A>(params.attack_ms, sr);
        self.release_coeff = Self::calc_coeff::<A>(params.release_ms, sr);
        self.peak_release_coeff = Self::calc_coeff::<A>(params.peak_release_ms, sr);
        self.pre_gain_target_linear = Self::db_to_linear::<A>(params.pre_gain_db);
        self.pre_gain_smooth_coeff = Self::calc_coeff::<A>(PRE_GAIN_SMOOTH_MS, sr);
        self.rms_detector_coeff = Self::calc_coeff::<A>(RMS_DETECTOR_MS, sr);
        self.peak_attack_coeff = Self::calc_coeff::<A>(PEAK_ATTACK_MS, sr);
        self.lookahead_samples = Self::calc_lookahead_samples::<A>(LOOKAHEAD_MS, sr);
        self.lookahead_l = silent_buffer(self.lookahead_samples);
        self.lookahead_r = silent_buffer(self.lookahead_samples);
        self.lookahead_pos = 0;
        self.peak_hold_gain = Single::from_bits(ONE);
        self.peak_hold_counter = 0;
        proof {
            assert(self@.delayed_left =~= silence(self.lookahead_samples as nat));
            assert(self@.delayed_right =~= silence(self.lookahead_samples as nat));
            assert(lookahead_is::<A>(LOOKAHEAD_MS, sr, self.lookahead_samples));
        }
    }

    /// Takes one frame in and gives out the frame of one lookahead before, limited.
    pub fn process_stereo_frame<A: Arithmetic>(&mut self, left: Single, right: Single) -> (output: (
        Single,
        Single,
    ))
        requires
            old(self).wf(),
        ensures
            final(self).wf(),
            exists|trace: FrameTrace|
                old(self)@.processes::<A>(left, right, trace, final(self)@, output),
            final(self).lookahead_samples == old(self).lookahead_samples,
            final(self).lookahead_pos == (if old(self).lookahead_pos + 1
                == old(self).lookahead_samples {
                0
            } else {
                old(self).lookahead_pos + 1
            }),
    {
        let zero = Single::from_bits(ZERO);
        let one = Single::from_bits(ONE);
        let ghost before = self@;
        let clean_left = left.or_if_not_finite(zero);
        let clean_right = right.or_if_not_finite(zero);

        // The smoothed pre-gain.
        self.pre_gain_smoother =
        smooth::<A>(
            self.pre_gain_target_linear,
            self.pre_gain_smooth_coeff,
            self.pre_gain_smoother,
        );
        let boosted_left = A::product(clean_left, self.pre_gain_smoother);
        let boosted_right = A::product(clean_right, self.pre_gain_smoother);

        // The level. The louder channel counts, so that the quieter one does not hide it.
        let energy_left = A::product(boosted_left, boosted_left);
        let energy_right = A::product(boosted_right, boosted_right);
        self.fullband_rms =
        smooth::<A>(energy_left.max(energy_right), self.rms_detector_coeff, self.fullband_rms);
        let rms = A::square_root(self.fullband_rms.max(zero));
        let rms_db = Self::linear_to_db::<A>(rms);
        let rms_target = Self::soft_knee_limiter_gain::<A>(
            rms_db,
            self.threshold_db,
            Single::from_bits(RMS_KNEE_DB),
        );
        let rms_coeff = if rms_target.lt(self.gain_smoother) {
            self.attack_coeff
        } else {
            self.release_coeff
        };
        let rms_smoothed = smooth::<A>(rms_target, rms_coeff, self.gain_smoother);
        self.gain_smoother = rms_smoothed.clamp(zero, one);

        // The peak of both channels.
        let peak = boosted_left.abs().max(boosted_right.abs());
        let mut peak_ratio = one;
        let peak_target = if peak.le(zero) {
            one
        } else {
            peak_ratio = A::quotient(self.peak_threshold_linear, peak);
            peak_ratio.min(one)
        };

        // While a hold lasts, only a stronger reduction replaces it.
        if peak_target.lt(one) {
            self.peak_hold_gain = self.peak_hold_gain.min(peak_target);
            self.peak_hold_counter = self.lookahead_samples;
        } else if self.peak_hold_counter > 0 {
            self.peak_hold_counter = self.peak_hold_counter - 1;
        } else {
            self.peak_hold_gain = one;
        }
        let peak_coeff = if self.peak_hold_gain.lt(self.peak_gain_smoother) {
            self.peak_attack_coeff
        } else {
            self.peak_release_coeff
        };
        let peak_smoothed = smooth::<A>(self.peak_hold_gain, peak_coeff, self.peak_gain_smoother);
        self.peak_gain_smoother = peak_smoothed.clamp(zero, one);
        let final_gain = self.gain_smoother.min(self.peak_gain_smoother);

        // The lookahead.
        let pos: usize = self.lookahead_pos;
        proof {
            lemma_delay_line(self.lookahead_l@, pos as int, boosted_left);
            lemma_delay_line(self.lookahead_r@, pos as int, boosted_right);
        }
        let delayed_left = self.lookahead_l[pos];
        let delayed_right = self.lookahead_r[pos];
        self.lookahead_l.set(pos, boosted_left);
        self.lookahead_r.set(pos, boosted_right);
        self.lookahead_pos = if pos + 1 >= self.lookahead_samples {
            0
        } else {
            pos + 1
        };

        // One gain for both channels, and the ceiling.
        let processed_left = A::product(delayed_left, final_gain);
        let processed_right = A::product(delayed_right, final_gain);
        let ceiling = self.peak_threshold_linear;
        let output = (
            processed_left.clamp(ceiling.neg(), ceiling),
            processed_right.clamp(ceiling.neg(), ceiling),
        );
        proof {
            let trace = FrameTrace {
                boosted_left,
                boosted_right,
                energy_left,
                energy_right,
                rms,
                rms_db,
                rms_target,
                rms_smoothed,
                peak_ratio,
                peak_smoothed,
                processed_left,
                processed_right,
            };
            assert(before.processes::<A>(left, right, trace, self@, output));
        }
        output
    }

    fn soft_knee_limiter_gain<A: Arithmetic>(
        level_db: Single,
        threshold_db: Single,
        knee_db: Single,
    ) -> (gain: Single)
        ensures
            knee_gain_is::<A>(level_db, threshold_db, knee_db, gain),
    {
        if !level_db.is_finite() {
            return Single::from_bits(ONE);
        }
        if knee_db.le(Single::from_bits(ZERO)) {
            if level_db.le(threshold_db) {
                return Single::from_bits(ONE);
            }
            let excess = A::difference(threshold_db, level_db);
            assert(difference_is::<A>(threshold_db, level_db, excess));
            return Self::db_to_linear::<A>(excess);
        }
        let half_knee = A::product(knee_db, Single::from_bits(HALF));
        let knee_start = A::difference(threshold_db, half_knee);
        let knee_end = A::sum(threshold_db, half_knee);
        assert(product_is::<A>(knee_db, single(HALF), half_knee));
        assert(difference_is::<A>(threshold_db, half_knee, knee_start));
        assert(sum_is::<A>(threshold_db, half_knee, knee_end));
        let gain_db = if level_db.le(knee_start) {
            Single::from_bits(ZERO)
        } else if knee_end.le(level_db) {
            A::difference(threshold_db, level_db)
        } else {
            let x = A::difference(level_db, knee_start);
            let square = A::product(x, x);
            let width = A::product(Single::from_bits(TWO), knee_db);
            assert(difference_is::<A>(level_db, knee_start, x));
            assert(product_is::<A>(x, x, square));
            assert(product_is::<A>(single(TWO), knee_db, width));
            A::quotient(square.neg(), width)
        };
        let factor = Self::db_to_linear::<A>(gain_db);
        assert(knee_reduction_is::<A>(level_db, threshold_db, knee_db, gain_db));
        assert(linear_is::<A>(gain_db, factor));
        factor.clamp(Single::from_bits(ZERO), Single::from_bits(ONE))
    }

    fn calc_lookahead_samples<A: Arithmetic>(time_ms: u32, sr: Single) -> (samples: usize)
        ensures
            lookahead_is::<A>(time_ms, sr, samples),
            samples >= 1,
    {
        let time = A::from_integer(time_ms as u64);
        assert(integer_is::<A>(time_ms as u64, time));
        frames_in::<A>(sr, time)
    }

    fn calc_coeff<A: Arithmetic>(time_ms: u32, sr: Single) -> (coeff: Single)
        ensures
            coefficient_is::<A>(time_ms, sr, coeff),
    {
        let ms = A::from_integer(time_ms as u64);
        let seconds = A::quotient(ms, Single::from_bits(THOUSAND));
        let samples = A::product(seconds, sr);
        assert(integer_is::<A>(time_ms as u64, ms));
        assert(quotient_is::<A>(ms, single(THOUSAND), seconds));
        assert(product_is::<A>(seconds, sr, samples));
        if samples.le(Single::from_bits(ZERO)) {
            Single::from_bits(ZERO)
        } else {
            let exponent = A::quotient(Single::from_bits(MINUS_ONE), samples);
            assert(quotient_is::<A>(single(MINUS_ONE), samples, exponent));
            A::exponential(exponent)
        }
    }

    fn db_to_linear<A: Arithmetic>(db: Single) -> (factor: Single)
        ensures
            linear_is::<A>(db, factor),
    {
        let exponent = A::quotient(db, Single::from_bits(TWENTY));
        assert(quotient_is::<A>(db, single(TWENTY), exponent));
        A::power_of_ten(exponent)
    }

    fn linear_to_db<A: Arithmetic>(value: Single) -> (db: Single)
        ensures
            decibels_is::<A>(value, db),
    {
        if value.le(Single::from_bits(SILENCE)) {
            Single::from_bits(SILENCE_DB)
        } else {
            let log = A::logarithm(value);
            assert(logarithm_is::<A>(value, log));
            A::product(Single::from_bits(TWENTY), log)
        }
    }
}

/// A limiter in order has delay lines in order.
pub proof fn law_buffers_are_delay_lines(limiter: LoudnessLimiter)
    requires
        limiter.wf(),
    ensures
        limiter@.valid(),
        limiter@.lookahead() == limiter.lookahead_samples,
{
}

/// A frame keeps the delay lines in order and their length as it is.
pub proof fn law_frame_keeps_lookahead<A: Arithmetic>(
    state: LimiterState,
    left: Single,
    right: Single,
    trace: FrameTrace,
    next: LimiterState,
    output: (Single, Single),
)
    requires
        state.valid(),
        state.processes::<A>(left, right, trace, next, output),
    ensures
        next.valid(),
        next.lookahead() == state.lookahead(),
        next.peak_threshold_linear == state.peak_threshold_linear,
{
}

/// No sample leaves the limiter beyond the ceiling, whatever comes in and whatever the
/// host's arithmetic answers, as long as the scaled sample is a number at all. Where the
/// ceiling is finite, so is the sample.
pub proof fn law_ceiling_is_respected<A: Arithmetic>(
    state: LimiterState,
    left: Single,
    right: Single,
    trace: FrameTrace,
    next: LimiterState,
    output: (Single, Single),
)
    requires
        state.processes::<A>(left, right, trace, next, output),
        single(ZERO).at_most(state.peak_threshold_linear),
    ensures
        !trace.processed_left.nan() ==> {
            &&& state.peak_threshold_linear.negated().at_most(output.0)
            &&& output.0.at_most(state.peak_threshold_linear)
            &&& state.peak_threshold_linear.finite() ==> output.0.finite()
        },
        !trace.processed_right.nan() ==> {
            &&& state.peak_threshold_linear.negated().at_most(output.1)
            &&& output.1.at_most(state.peak_threshold_linear)
            &&& state.peak_threshold_linear.finite() ==> output.1.finite()
        },
{
    let ceiling = state.peak_threshold_linear;
    crate::single::law_clamp_bounds(trace.processed_left, ceiling.negated(), ceiling);
    crate::single::law_clamp_bounds(trace.processed_right, ceiling.negated(), ceiling);
}

/// Samples that are not finite numbers are taken as silence: they lead to the same frame
/// and the same state as silence does.
pub proof fn law_non_finite_input_is_silence<A: Arithmetic>(
    state: LimiterState,
    left: Single,
    right: Single,
    trace: FrameTrace,
    next: LimiterState,
    output: (Single, Single),
)
    requires
        state.processes::<A>(left, right, trace, next, output),
    ensures
        state.processes::<A>(
            left.finite_or(single(ZERO)),
            right.finite_or(single(ZERO)),
            trace,
            next,
            output,
        ),
        left.finite_or(single(ZERO)).finite(),
        right.finite_or(single(ZERO)).finite(),
{
}

/// Both channels of a frame are scaled by one and the same gain, so that their ratio
/// stays.
pub proof fn law_channels_are_linked<A: Arithmetic>(
    state: LimiterState,
    left: Single,
    right: Single,
    trace: FrameTrace,
    next: LimiterState,
    output: (Single, Single),
)
    requires
        state.processes::<A>(left, right, trace, next, output),
    ensures
        exists|gain: Single|
            #![trigger product_is::<A>(state.delayed_left[0], gain, trace.processed_left)]
            {
                &&& product_is::<A>(state.delayed_left[0], gain, trace.processed_left)
                &&& product_is::<A>(state.delayed_right[0], gain, trace.processed_right)
            },
{
    assert(product_is::<A>(state.delayed_left[0], next.gain(), trace.processed_left));
}

proof fn lemma_smoothed_once<A: Arithmetic>(
    target: Single,
    coeff: Single,
    previous: Single,
    r: Single,
    q: Single,
)
    requires
        answers_alike::<A>(),
        smoothed_is::<A>(target, coeff, previous, r),
        smoothed_is::<A>(target, coeff, previous, q),
    ensures
        r == q,
{
}

proof fn lemma_decibels_once<A: Arithmetic>(value: Single, r: Single, q: Single)
    requires
        answers_alike::<A>(),
        decibels_is::<A>(value, r),
        decibels_is::<A>(value, q),
    ensures
        r == q,
{
}

proof fn lemma_knee_gain_once<A: Arithmetic>(
    level: Single,
    threshold: Single,
    knee: Single,
    r: Single,
    q: Single,
)
    requires
        answers_alike::<A>(),
        knee_gain_is::<A>(level, threshold, knee, r),
        knee_gain_is::<A>(level, threshold, knee, q),
    ensures
        r == q,
{
}

/// Where the host answers the same question always alike, so does the limiter: a state and a
/// frame lead to one next state and one output.
pub proof fn law_frame_has_one_outcome<A: Arithmetic>(
    state: LimiterState,
    left: Single,
    right: Single,
    trace: FrameTrace,
    next: LimiterState,
    output: (Single, Single),
    other_trace: FrameTrace,
    other_next: LimiterState,
    other_output: (Single, Single),
)
    requires
        answers_alike::<A>(),
        state.processes::<A>(left, right, trace, next, output),
        state.processes::<A>(left, right, other_trace, other_next, other_output),
    ensures
        other_next == next,
        other_output == output,
{
    lemma_smoothed_once::<A>(
        state.pre_gain_target_linear,
        state.pre_gain_smooth_coeff,
        state.pre_gain_smoother,
        next.pre_gain_smoother,
        other_next.pre_gain_smoother,
    );
    assert(trace.boosted_left == other_trace.boosted_left);
    assert(trace.boosted_right == other_trace.boosted_right);
    assert(trace.energy_left == other_trace.energy_left);
    assert(trace.energy_right == other_trace.energy_right);
    lemma_smoothed_once::<A>(
        trace.energy_left.greater(trace.energy_right),
        state.rms_detector_coeff,
        state.fullband_rms,
        next.fullband_rms,
        other_next.fullband_rms,
    );
    assert(trace.rms == other_trace.rms);
    lemma_decibels_once::<A>(trace.rms, trace.rms_db, other_trace.rms_db);
    lemma_knee_gain_once::<A>(
        trace.rms_db,
        state.threshold_db,
        single(RMS_KNEE_DB),
        trace.rms_target,
        other_trace.rms_target,
    );
    let rms_coeff = if trace.rms_target.below(state.gain_smoother) {
        state.attack_coeff
    } else {
        state.release_coeff
    };
    lemma_smoothed_once::<A>(
        trace.rms_target,
        rms_coeff,
        state.gain_smoother,
        trace.rms_smoothed,
        other_trace.rms_smoothed,
    );
    assert(trace.peak_target() == other_trace.peak_target());
    let hold = state.hold_after(trace.peak_target());
    let peak_coeff = if hold.0.below(state.peak_gain_smoother) {
        state.peak_attack_coeff
    } else {
        state.peak_release_coeff
    };
    lemma_smoothed_once::<A>(
        hold.0,
        peak_coeff,
        state.peak_gain_smoother,
        trace.peak_smoothed,
        other_trace.peak_smoothed,
    );
    assert(next.gain() == other_next.gain());
    assert(trace.processed_left == other_trace.processed_left);
    assert(trace.processed_right == other_trace.processed_right);
}

impl FrameTrace {
    /// The numbers with the two channels exchanged.
    pub open spec fn exchanged(self) -> FrameTrace {
        FrameTrace {
            boosted_left: self.boosted_right,
            boosted_right: self.boosted_left,
            energy_left: self.energy_right,
            energy_right: self.energy_left,
            processed_left: self.processed_right,
            processed_right: self.processed_left,
            ..self
        }
    }
}

proof fn lemma_exchanged_frame<A: Arithmetic>(
    state: LimiterState,
    left: Single,
    right: Single,
    trace: FrameTrace,
    next: LimiterState,
    output: (Single, Single),
)
    requires
        state.valid(),
        !trace.energy_left.nan() && !trace.energy_left.negative(),
        !trace.energy_right.nan() && !trace.energy_right.negative(),
        trace.boosted_left.finite(),
        trace.boosted_right.finite(),
        state.processes::<A>(left, right, trace, next, output),
    ensures
        state.exchanged().processes::<A>(
            right,
            left,
            trace.exchanged(),
            next.exchanged(),
            (output.1, output.0),
        ),
{
    assert(trace.energy_left.greater(trace.energy_right) == trace.energy_right.greater(
        trace.energy_left,
    ));
    assert(trace.exchanged().peak() == trace.peak());
    assert(trace.exchanged().peak_target() == trace.peak_target());
}

/// Neither channel is preferred: a limiter whose delay lines are exchanged, given the frame
/// with its channels exchanged, gives out the exchanged frame and ends in the exchanged
/// state. The samples are to be finite once they are amplified.
pub proof fn law_channels_are_interchangeable<A: Arithmetic>(
    state: LimiterState,
    left: Single,
    right: Single,
    trace: FrameTrace,
    next: LimiterState,
    output: (Single, Single),
    other_trace: FrameTrace,
    other_next: LimiterState,
    other_output: (Single, Single),
)
    requires
        state.valid(),
        answers_alike::<A>(),
        squares_have_no_sign::<A>(),
        trace.boosted_left.finite(),
        trace.boosted_right.finite(),
        state.processes::<A>(left, right, trace, next, output),
        state.exchanged().processes::<A>(right, left, other_trace, other_next, other_output),
    ensures
        other_output == (output.1, output.0),
        other_next == next.exchanged(),
{
    assert(product_is::<A>(trace.boosted_left, trace.boosted_left, trace.energy_left));
    assert(product_is::<A>(trace.boosted_right, trace.boosted_right, trace.energy_right));
    lemma_exchanged_frame::<A>(state, left, right, trace, next, output);
    law_frame_has_one_outcome::<A>(
        state.exchanged(),
        right,
        left,
        trace.exchanged(),
        next.exchanged(),
        (output.1, output.0),
        other_trace,
        other_next,
        other_output,
    );
}

/// The host's arithmetic keeps the order of what it rounds: where the operands are in order,
/// so are the answers. A power of ten with no exponent is one.
pub open spec fn rounds_in_order<A: Arithmetic>() -> bool {
    // Differences.
    &&& forall|a: Single, b: Single, r: Single| #[trigger]
        difference_is::<A>(a, b, r) && a.finite() && b.finite() ==> !r.nan() && (b.at_most(a)
            ==> single(ZERO).at_most(r)) && (a.at_most(b) ==> r.at_most(single(ZERO)))
    &&& forall|a: Single, b: Single, c: Single, r: Single, q: Single|
        #![trigger difference_is::<A>(a, c, r), difference_is::<A>(b, c, q)]
        difference_is::<A>(a, c, r) && difference_is::<A>(b, c, q) && a.finite() && b.finite()
            && c.finite() && a.at_most(b) ==> r.at_most(q)
    &&& forall|a: Single, b: Single, c: Single, r: Single, q: Single|
        #![trigger difference_is::<A>(c, a, r), difference_is::<A>(c, b, q)]
        difference_is::<A>(c, a, r) && difference_is::<A>(c, b, q) && a.finite() && b.finite()
            && c.finite() && a.at_most(b) ==> q.at_most(r)
    // Squares.
    &&& forall|a: Single, b: Single, r: Single, q: Single|
        #![trigger product_is::<A>(a, a, r), product_is::<A>(b, b, q)]
        product_is::<A>(a, a, r) && product_is::<A>(b, b, q) && single(ZERO).at_most(a)
            && a.at_most(b) ==> single(ZERO).at_most(r) && r.at_most(q)
    // Parts.
    &&& forall|a: Single, b: Single, whole: Single, r: Single, q: Single|
        #![trigger quotient_is::<A>(a, whole, r), quotient_is::<A>(b, whole, q)]
        quotient_is::<A>(a, whole, r) && quotient_is::<A>(b, whole, q) && whole.finite() && single(
            ZERO,
        ).below(whole) && a.at_most(b) ==> r.at_most(q)
    &&& forall|a: Single, whole: Single, r: Single| #[trigger]
        quotient_is::<A>(a, whole, r) && whole.finite() && single(ZERO).below(whole) ==> (a.at_most(
            single(ZERO),
        ) ==> r.at_most(single(ZERO))) && (single(ZERO).at_most(a) ==> single(ZERO).at_most(r))
    // Powers.
    &&& forall|a: Single, b: Single, r: Single, q: Single|
        #![trigger power_of_ten_is::<A>(a, r), power_of_ten_is::<A>(b, q)]
        power_of_ten_is::<A>(a, r) && power_of_ten_is::<A>(b, q) && a.at_most(b) ==> single(
            ZERO,
        ).at_most(r) && r.at_most(q)
    &&& forall|a: Single, r: Single| #[trigger]
        power_of_ten_is::<A>(a, r) ==> (a.same(single(ZERO)) ==> r == single(ONE)) && (a.at_most(
            single(ZERO),
        ) ==> single(ZERO).at_most(r) && r.at_most(single(ONE)))
}

proof fn lemma_linear_in_order<A: Arithmetic>(a: Single, b: Single, r: Single, q: Single)
    requires
        rounds_in_order::<A>(),
        linear_is::<A>(a, r),
        linear_is::<A>(b, q),
        a.at_most(b),
    ensures
        single(ZERO).at_most(r),
        r.at_most(q),
        a.same(single(ZERO)) ==> r == single(ONE),
        b.same(single(ZERO)) ==> q == single(ONE),
{
    let ea = choose|e: Single| #[trigger]
        quotient_is::<A>(a, single(TWENTY), e) && power_of_ten_is::<A>(e, r);
    let eb = choose|e: Single| #[trigger]
        quotient_is::<A>(b, single(TWENTY), e) && power_of_ten_is::<A>(e, q);
    assert(quotient_is::<A>(a, single(TWENTY), ea) && power_of_ten_is::<A>(ea, r));
    assert(quotient_is::<A>(b, single(TWENTY), eb) && power_of_ten_is::<A>(eb, q));
    assert(single(ZERO).below(single(TWENTY)));
    assert(single(TWENTY).finite());
    assert(ea.at_most(eb));
}

/// Decibels of at most none make a factor from zero to one.
proof fn lemma_reduction_is_unit<A: Arithmetic>(db: Single, r: Single)
    requires
        rounds_in_order::<A>(),
        linear_is::<A>(db, r),
        db.at_most(single(ZERO)),
    ensures
        single(ZERO).at_most(r),
        r.at_most(single(ONE)),
{
    let exponent = choose|exponent: Single| #[trigger]
        quotient_is::<A>(db, single(TWENTY), exponent) && power_of_ten_is::<A>(exponent, r);
    assert(quotient_is::<A>(db, single(TWENTY), exponent) && power_of_ten_is::<A>(exponent, r));
    assert(single(ZERO).below(single(TWENTY)));
    assert(single(TWENTY).finite());
    assert(exponent.at_most(single(ZERO)));
}

/// The three parts of a knee, where the host's answers for them are the given ones: where it
/// starts, where it ends, and twice its width.
pub open spec fn knee_parts_are<A: Arithmetic>(
    threshold: Single,
    knee: Single,
    start: Single,
    end: Single,
    width: Single,
) -> bool {
    exists|half: Single|
        {
            &&& #[trigger] product_is::<A>(knee, single(HALF), half)
            &&& difference_is::<A>(threshold, half, start)
            &&& sum_is::<A>(threshold, half, end)
            &&& product_is::<A>(single(TWO), knee, width)
        }
}

proof fn lemma_knee_reduction<A: Arithmetic>(
    level: Single,
    threshold: Single,
    knee: Single,
    start: Single,
    end: Single,
    width: Single,
    r: Single,
)
    requires
        answers_alike::<A>(),
        knee_parts_are::<A>(threshold, knee, start, end, width),
        knee_reduction_is::<A>(level, threshold, knee, r),
    ensures
        level.at_most(start) ==> r == single(ZERO),
        !level.at_most(start) && end.at_most(level) ==> difference_is::<A>(threshold, level, r),
        !level.at_most(start) && !end.at_most(level) ==> exists|into: Single, square: Single|
            #![trigger difference_is::<A>(level, start, into), product_is::<A>(into, into, square)]
            {
                &&& difference_is::<A>(level, start, into)
                &&& product_is::<A>(into, into, square)
                &&& quotient_is::<A>(square.negated(), width, r)
            },
{
}

#[verifier::rlimit(60)]
proof fn lemma_knee_in_order<A: Arithmetic>(
    a: Single,
    b: Single,
    threshold: Single,
    knee: Single,
    start: Single,
    end: Single,
    width: Single,
    r: Single,
    q: Single,
)
    requires
        answers_alike::<A>(),
        rounds_in_order::<A>(),
        knee_parts_are::<A>(threshold, knee, start, end, width),
        threshold.finite() && start.finite() && end.finite() && width.finite(),
        start.at_most(threshold) && threshold.at_most(end) && single(ZERO).below(width),
        a.finite() && b.finite() && a.at_most(b),
        knee_reduction_is::<A>(a, threshold, knee, r),
        knee_reduction_is::<A>(b, threshold, knee, q),
        // Where only the seam between the knee and what is above it lies between the levels.
        start.below(a) && a.below(end) && end.at_most(b) ==> exists|seam: Single| #[trigger]
            difference_is::<A>(threshold, end, seam) && seam.at_most(r),
    ensures
        q.at_most(r),
        r.at_most(single(ZERO)),
        q.at_most(single(ZERO)),
{
    lemma_knee_reduction::<A>(a, threshold, knee, start, end, width, r);
    lemma_knee_reduction::<A>(b, threshold, knee, start, end, width, q);
    lemma_reduction_is_not_above_zero::<A>(a, threshold, knee, start, end, width, r);
    lemma_reduction_is_not_above_zero::<A>(b, threshold, knee, start, end, width, q);
    if a.at_most(start) {
    } else if end.at_most(a) {
        assert(difference_is::<A>(threshold, a, r));
        assert(difference_is::<A>(threshold, b, q));
    } else if end.at_most(b) {
        let seam = choose|seam: Single| #[trigger]
            difference_is::<A>(threshold, end, seam) && seam.at_most(r);
        assert(difference_is::<A>(threshold, b, q));
        assert(q.at_most(seam));
    } else {
        let (ia, sa) = choose|into: Single, square: Single|
            #![trigger difference_is::<A>(a, start, into), product_is::<A>(into, into, square)]
            {
                &&& difference_is::<A>(a, start, into)
                &&& product_is::<A>(into, into, square)
                &&& quotient_is::<A>(square.negated(), width, r)
            };
        let (ib, sb) = choose|into: Single, square: Single|
            #![trigger difference_is::<A>(b, start, into), product_is::<A>(into, into, square)]
            {
                &&& difference_is::<A>(b, start, into)
                &&& product_is::<A>(into, into, square)
                &&& quotient_is::<A>(square.negated(), width, q)
            };
        assert(single(ZERO).at_most(ia));
        assert(ia.at_most(ib));
        assert(sa.at_most(sb));
        assert(sb.negated().at_most(sa.negated()));
    }
}

proof fn lemma_reduction_is_not_above_zero<A: Arithmetic>(
    level: Single,
    threshold: Single,
    knee: Single,
    start: Single,
    end: Single,
    width: Single,
    r: Single,
)
    requires
        answers_alike::<A>(),
        rounds_in_order::<A>(),
        knee_parts_are::<A>(threshold, knee, start, end, width),
        threshold.finite() && start.finite() && end.finite() && width.finite(),
        start.at_most(threshold) && threshold.at_most(end) && single(ZERO).below(width),
        level.finite(),
        knee_reduction_is::<A>(level, threshold, knee, r),
    ensures
        r.at_most(single(ZERO)),
{
    lemma_knee_reduction::<A>(level, threshold, knee, start, end, width, r);
    if !level.at_most(start) && !end.at_most(level) {
        let (into, square) = choose|into: Single, square: Single|
            #![trigger difference_is::<A>(level, start, into), product_is::<A>(into, into, square)]
            {
                &&& difference_is::<A>(level, start, into)
                &&& product_is::<A>(into, into, square)
                &&& quotient_is::<A>(square.negated(), width, r)
            };
        assert(single(ZERO).at_most(into));
        assert(single(ZERO).at_most(square));
        assert(square.negated().at_most(single(ZERO)));
        assert(quotient_is::<A>(square.negated(), width, r));
    }
}

/// Where the host rounds, the end of a knee is a seam: the knee reduces a level in it by no
/// more than it reduces one at its end.
pub open spec fn seam_holds<A: Arithmetic>(
    level: Single,
    threshold: Single,
    knee: Single,
    end: Single,
) -> bool {
    exists|seam: Single| #[trigger]
        difference_is::<A>(threshold, end, seam) && forall|r: Single| #[trigger]
            knee_reduction_is::<A>(level, threshold, knee, r) ==> seam.at_most(r)
}

/// The soft knee: a level below the knee is left alone, the gain falls as the level rises,
/// and above the knee the gain takes away exactly the decibels above the threshold. The gain
/// is always from zero to one.
pub proof fn law_soft_knee<A: Arithmetic>(
    a: Single,
    b: Single,
    threshold: Single,
    knee: Single,
    start: Single,
    end: Single,
    width: Single,
    gain_a: Single,
    gain_b: Single,
)
    requires
        answers_alike::<A>(),
        rounds_in_order::<A>(),
        single(ZERO).below(knee),
        knee_parts_are::<A>(threshold, knee, start, end, width),
        threshold.finite() && start.finite() && end.finite() && width.finite(),
        start.at_most(threshold) && threshold.at_most(end) && single(ZERO).below(width),
        a.finite() && b.finite() && a.at_most(b),
        start.below(a) && a.below(end) && end.at_most(b) ==> seam_holds::<A>(
            a,
            threshold,
            knee,
            end,
        ),
        knee_gain_is::<A>(a, threshold, knee, gain_a),
        knee_gain_is::<A>(b, threshold, knee, gain_b),
    ensures
        gain_b.at_most(gain_a),
        single(ZERO).at_most(gain_b),
        gain_a.at_most(single(ONE)),
        a.at_most(start) ==> gain_a == single(ONE),
        start.below(b) && end.at_most(b) ==> exists|reduction: Single| #[trigger]
            difference_is::<A>(threshold, b, reduction) && linear_is::<A>(reduction, gain_b),
{
    let (ra, fa) = choose|reduction: Single, factor: Single|
        #![trigger knee_reduction_is::<A>(a, threshold, knee, reduction), linear_is::<A>(reduction, factor)]
        {
            &&& knee_reduction_is::<A>(a, threshold, knee, reduction)
            &&& linear_is::<A>(reduction, factor)
            &&& gain_a == factor.clamped(single(ZERO), single(ONE))
        };
    let (rb, fb) = choose|reduction: Single, factor: Single|
        #![trigger knee_reduction_is::<A>(b, threshold, knee, reduction), linear_is::<A>(reduction, factor)]
        {
            &&& knee_reduction_is::<A>(b, threshold, knee, reduction)
            &&& linear_is::<A>(reduction, factor)
            &&& gain_b == factor.clamped(single(ZERO), single(ONE))
        };
    lemma_knee_in_order::<A>(a, b, threshold, knee, start, end, width, ra, rb);
    lemma_knee_reduction::<A>(a, threshold, knee, start, end, width, ra);
    lemma_knee_reduction::<A>(b, threshold, knee, start, end, width, rb);
    lemma_linear_in_order::<A>(rb, ra, fb, fa);
    lemma_reduction_is_unit::<A>(ra, fa);
    lemma_reduction_is_unit::<A>(rb, fb);
    assert(gain_a == fa);
    assert(gain_b == fb);
}

/// Without a knee, a level up to the threshold is left alone, and the gain falls as the level
/// rises above it. A level that is no finite number is left alone with and without a knee.
pub proof fn law_hard_knee<A: Arithmetic>(
    a: Single,
    b: Single,
    threshold: Single,
    knee: Single,
    gain_a: Single,
    gain_b: Single,
)
    requires
        rounds_in_order::<A>(),
        threshold.finite(),
        knee_gain_is::<A>(a, threshold, knee, gain_a),
        knee_gain_is::<A>(b, threshold, knee, gain_b),
    ensures
        !a.finite() ==> gain_a == single(ONE),
        knee.at_most(single(ZERO)) && a.finite() && b.finite() && a.at_most(b) ==> {
            &&& gain_b.at_most(gain_a)
            &&& single(ZERO).at_most(gain_b)
            &&& gain_a.at_most(single(ONE))
            &&& a.at_most(threshold) ==> gain_a == single(ONE)
        },
{
    if knee.at_most(single(ZERO)) && a.finite() && b.finite() && a.at_most(b) {
        if !b.at_most(threshold) {
            let eb = choose|excess: Single| #[trigger]
                difference_is::<A>(threshold, b, excess) && linear_is::<A>(excess, gain_b);
            lemma_reduction_is_unit::<A>(eb, gain_b);
            if !a.at_most(threshold) {
                let ea = choose|excess: Single| #[trigger]
                    difference_is::<A>(threshold, a, excess) && linear_is::<A>(excess, gain_a);
                lemma_reduction_is_unit::<A>(ea, gain_a);
                lemma_linear_in_order::<A>(eb, ea, gain_b, gain_a);
            }
        }
    }
}

/// The gains that the limiter arrives at are between zero and one wherever they are
/// numbers: it never amplifies past the pre-gain.
pub proof fn law_gain_never_amplifies<A: Arithmetic>(
    state: LimiterState,
    left: Single,
    right: Single,
    trace: FrameTrace,
    next: LimiterState,
    output: (Single, Single),
)
    requires
        state.processes::<A>(left, right, trace, next, output),
        !trace.rms_smoothed.nan(),
        !trace.peak_smoothed.nan(),
    ensures
        single(ZERO).at_most(next.gain()),
        next.gain().at_most(single(ONE)),
        next.gain().at_most(next.gain_smoother),
        next.gain().at_most(next.peak_gain_smoother),
{
    crate::single::law_clamp_bounds(trace.rms_smoothed, single(ZERO), single(ONE));
    crate::single::law_clamp_bounds(trace.peak_smoothed, single(ZERO), single(ONE));
}

/// New settings leave the pre-gain where it is; only its target moves.
pub proof fn law_pre_gain_is_smoothed_not_stepped<A: Arithmetic>(
    state: LimiterState,
    params: LimiterParams,
    next: LimiterState,
)
    requires
        state.retuned::<A>(params, next),
    ensures
        next.pre_gain_smoother == state.pre_gain_smoother,
        next.gain_smoother == state.gain_smoother,
        next.peak_gain_smoother == state.peak_gain_smoother,
        next.delayed_left == state.delayed_left,
        next.delayed_right == state.delayed_right,
{
}

/// A stretch of frames that a limiter processed one after the other.
pub struct FrameRun {
    /// The state before each frame, and the state after the last.
    pub states: Seq<LimiterState>,
    pub inputs: Seq<(Single, Single)>,
    pub traces: Seq<FrameTrace>,
    pub outputs: Seq<(Single, Single)>,
}

impl FrameRun {
    pub open spec fn valid<A: Arithmetic>(self) -> bool {
        &&& self.states.len() == self.inputs.len() + 1
        &&& self.traces.len() == self.inputs.len()
        &&& self.outputs.len() == self.inputs.len()
        &&& self.states[0].valid()
        &&& forall|i: int|
            #![trigger self.traces[i]]
            0 <= i < self.inputs.len() ==> self.states[i].processes::<A>(
                self.inputs[i].0,
                self.inputs[i].1,
                self.traces[i],
                self.states[i + 1],
                self.outputs[i],
            )
    }
}

proof fn lemma_run_states_valid<A: Arithmetic>(run: FrameRun, at: int)
    requires
        run.valid::<A>(),
        0 <= at < run.states.len(),
    ensures
        run.states[at].valid(),
        run.states[at].lookahead() == run.states[0].lookahead(),
        run.states[at].peak_threshold_linear == run.states[0].peak_threshold_linear,
    decreases at,
{
    if at > 0 {
        lemma_run_states_valid::<A>(run, at - 1);
        let trace = run.traces[at - 1];
        law_frame_keeps_lookahead::<A>(
            run.states[at - 1],
            run.inputs[at - 1].0,
            run.inputs[at - 1].1,
            trace,
            run.states[at],
            run.outputs[at - 1],
        );
    }
}

/// Where the sample that was at `place` of the delay lines is after `passed` frames.
proof fn lemma_sample_moves_up<A: Arithmetic>(run: FrameRun, at: int, place: int, passed: int)
    requires
        run.valid::<A>(),
        0 <= passed <= place,
        0 <= at,
        at + passed < run.states.len(),
        place < run.states[0].lookahead(),
    ensures
        run.states[at + passed].delayed_left[place - passed] == run.states[at].delayed_left[place],
        run.states[at + passed].delayed_right[place - passed]
            == run.states[at].delayed_right[place],
    decreases passed,
{
    if passed > 0 {
        lemma_sample_moves_up::<A>(run, at, place, passed - 1);
        let i = at + passed - 1;
        lemma_run_states_valid::<A>(run, i);
        let trace = run.traces[i];
        let before = run.states[i];
        let after = run.states[i + 1];
        assert(after.delayed_left == before.delayed_left.drop_first().push(trace.boosted_left));
        assert(after.delayed_right == before.delayed_right.drop_first().push(trace.boosted_right));
    }
}

/// The output lags behind the input by exactly the lookahead: the frame that is scaled
/// and given out is the amplified frame of one lookahead before.
pub proof fn law_output_is_delayed_by_lookahead<A: Arithmetic>(run: FrameRun, at: int)
    requires
        run.valid::<A>(),
        0 <= at,
        at + run.states[0].lookahead() < run.inputs.len(),
    ensures
        ({
            let later = at + run.states[0].lookahead();
            &&& product_is::<A>(
                run.traces[at].boosted_left,
                run.states[later + 1].gain(),
                run.traces[later].processed_left,
            )
            &&& product_is::<A>(
                run.traces[at].boosted_right,
                run.states[later + 1].gain(),
                run.traces[later].processed_right,
            )
        }),
{
    let n = run.states[0].lookahead() as int;
    let trace = run.traces[at];
    lemma_run_states_valid::<A>(run, at);
    lemma_run_states_valid::<A>(run, at + 1);
    assert(run.states[at + 1].delayed_left[n - 1] == trace.boosted_left);
    assert(run.states[at + 1].delayed_right[n - 1] == trace.boosted_right);
    lemma_sample_moves_up::<A>(run, at + 1, n - 1, n - 1);
    let later = at + n;
    let late_trace = run.traces[later];
    assert(run.states[later].delayed_left[0] == trace.boosted_left);
    assert(run.states[later].delayed_right[0] == trace.boosted_right);
}

/// A limiter whose delay lines hold silence gives out scaled silence for the length of
/// the lookahead, whatever comes in.
pub proof fn law_startup_is_silent<A: Arithmetic>(run: FrameRun, at: int)
    requires
        run.valid::<A>(),
        run.states[0].delayed_left == silence(run.states[0].lookahead()),
        run.states[0].delayed_right == silence(run.states[0].lookahead()),
        0 <= at < run.inputs.len(),
        at < run.states[0].lookahead(),
    ensures
        product_is::<A>(single(ZERO), run.states[at + 1].gain(), run.traces[at].processed_left),
        product_is::<A>(single(ZERO), run.states[at + 1].gain(), run.traces[at].processed_right),
{
    lemma_sample_moves_up::<A>(run, 0, at, at);
    let trace = run.traces[at];
}

/// The hold while `passed` more frames go by.
proof fn lemma_hold_lasts<A: Arithmetic>(run: FrameRun, at: int, passed: int)
    requires
        run.valid::<A>(),
        0 <= at < run.inputs.len(),
        run.traces[at].peak_target().below(single(ONE)),
        0 <= passed <= run.states[0].lookahead(),
        at + 1 + passed < run.states.len(),
    ensures
        run.states[at + 1 + passed].peak_hold_gain.at_most(run.traces[at].peak_target()),
        run.states[at + 1 + passed].peak_hold_counter >= run.states[0].lookahead() - passed,
    decreases passed,
{
    lemma_run_states_valid::<A>(run, at);
    let trace = run.traces[at];
    if passed > 0 {
        lemma_hold_lasts::<A>(run, at, passed - 1);
        let i = at + passed;
        lemma_run_states_valid::<A>(run, i);
        let late_trace = run.traces[i];
        assert(run.states[i].peak_hold_counter > 0);
    }
}

/// A peak above the ceiling keeps the held gain at or below what it asks for until the
/// peak itself has left the delay lines; a smaller peak in between does not relax it.
pub proof fn law_hold_outlasts_the_peak<A: Arithmetic>(run: FrameRun, at: int, later: int)
    requires
        run.valid::<A>(),
        0 <= at <= later < run.inputs.len(),
        later <= at + run.states[0].lookahead(),
        run.traces[at].peak_target().below(single(ONE)),
    ensures
        run.states[later + 1].peak_hold_gain.at_most(run.traces[at].peak_target()),
{
    lemma_hold_lasts::<A>(run, at, later - at);
}

/// A sample that is not a finite number acts exactly like silence on its channel, whatever the
/// other channel holds: the outcome is the same as with zero in its place.
pub proof fn law_non_finite_sample_acts_like_zero<A: Arithmetic>(
    state: LimiterState,
    left: Single,
    right: Single,
    other_left: Single,
    other_right: Single,
    trace: FrameTrace,
    next: LimiterState,
    output: (Single, Single),
    other_trace: FrameTrace,
    other_next: LimiterState,
    other_output: (Single, Single),
)
    requires
        answers_alike::<A>(),
        other_left == left || (!left.finite() && other_left == single(ZERO)),
        other_right == right || (!right.finite() && other_right == single(ZERO)),
        state.processes::<A>(left, right, trace, next, output),
        state.processes::<A>(other_left, other_right, other_trace, other_next, other_output),
    ensures
        other_next == next,
        other_output == output,
{
    assert(left.finite_or(single(ZERO)) == other_left.finite_or(single(ZERO)));
    assert(right.finite_or(single(ZERO)) == other_right.finite_or(single(ZERO)));
    assert(state.processes::<A>(other_left, other_right, trace, next, output));
    law_frame_has_one_outcome::<A>(
        state,
        other_left,
        other_right,
        trace,
        next,
        output,
        other_trace,
        other_next,
        other_output,
    );
}

/// A number from zero to one.
pub open spec fn unit(x: Single) -> bool {
    single(ZERO).at_most(x) && x.at_most(single(ONE))
}

/// The host's arithmetic keeps what the limiter's gains rest on: smoothing between numbers
/// from zero to one gives a number, so does the knee, a ceiling over a peak is not negative,
/// and a finite sample scaled by a number from zero to one is a number.
pub open spec fn keeps_gains<A: Arithmetic>() -> bool {
    &&& forall|target: Single, coeff: Single, previous: Single, r: Single| #[trigger]
        smoothed_is::<A>(target, coeff, previous, r) && unit(target) && unit(coeff) && unit(
            previous,
        ) ==> !r.nan()
    &&& forall|level: Single, threshold: Single, knee: Single, r: Single| #[trigger]
        knee_gain_is::<A>(level, threshold, knee, r) && threshold.finite() && knee == single(
            RMS_KNEE_DB,
        ) ==> !r.nan()
    &&& forall|ceiling: Single, peak: Single, r: Single| #[trigger]
        quotient_is::<A>(ceiling, peak, r) && single(ZERO).at_most(ceiling) && !peak.negative()
            ==> r.nan() || single(ZERO).at_most(r)
    &&& forall|sample: Single, gain: Single, r: Single| #[trigger]
        product_is::<A>(sample, gain, r) && sample.finite() && unit(gain) ==> !r.nan()
}

impl LimiterState {
    /// The gains and the coefficients are numbers from zero to one, and the threshold and the
    /// ceiling are usable.
    pub open spec fn gains_in_range(self) -> bool {
        &&& unit(self.gain_smoother)
        &&& unit(self.peak_gain_smoother)
        &&& unit(self.peak_hold_gain)
        &&& unit(self.attack_coeff)
        &&& unit(self.release_coeff)
        &&& unit(self.peak_attack_coeff)
        &&& unit(self.peak_release_coeff)
        &&& self.threshold_db.finite()
        &&& single(ZERO).at_most(self.peak_threshold_linear)
    }

    /// The delay lines hold finite samples.
    pub open spec fn holds_finite_samples(self) -> bool {
        &&& forall|i: int|
            0 <= i < self.delayed_left.len() ==> (#[trigger] self.delayed_left[i]).finite()
        &&& forall|i: int|
            0 <= i < self.delayed_right.len() ==> (#[trigger] self.delayed_right[i]).finite()
    }
}

proof fn lemma_frame_keeps_gains<A: Arithmetic>(
    state: LimiterState,
    left: Single,
    right: Single,
    trace: FrameTrace,
    next: LimiterState,
    output: (Single, Single),
)
    requires
        keeps_gains::<A>(),
        state.gains_in_range(),
        state.processes::<A>(left, right, trace, next, output),
    ensures
        next.gains_in_range(),
        unit(next.gain()),
{
    assert(unit(trace.rms_target)) by {
        let knee = single(RMS_KNEE_DB);
        assert(knee_gain_is::<A>(trace.rms_db, state.threshold_db, knee, trace.rms_target));
        assert(!trace.rms_target.nan());
        assert(!knee.at_most(single(ZERO)));
        if trace.rms_db.finite() {
            let (reduction, factor) = choose|reduction: Single, factor: Single|
                #![trigger knee_reduction_is::<A>(trace.rms_db, state.threshold_db, knee, reduction), linear_is::<A>(reduction, factor)]
                {
                    &&& knee_reduction_is::<A>(trace.rms_db, state.threshold_db, knee, reduction)
                    &&& linear_is::<A>(reduction, factor)
                    &&& trace.rms_target == factor.clamped(single(ZERO), single(ONE))
                };
            crate::single::law_clamp_bounds(factor, single(ZERO), single(ONE));
        }
    }
    assert(unit(trace.peak_target())) by {
        assert(!trace.peak().negative());
    }
    let hold = state.hold_after(trace.peak_target());
    assert(unit(hold.0));
    crate::single::law_clamp_bounds(trace.rms_smoothed, single(ZERO), single(ONE));
    crate::single::law_clamp_bounds(trace.peak_smoothed, single(ZERO), single(ONE));
}

/// As long as the samples stay finite once they are amplified, every frame of a run is the
/// frame of one lookahead before under one gain from zero to one, and no sample of it is
/// beyond the ceiling.
pub proof fn law_run_stays_within_ceiling<A: Arithmetic>(run: FrameRun, at: int)
    requires
        keeps_gains::<A>(),
        run.valid::<A>(),
        run.states[0].gains_in_range(),
        run.states[0].holds_finite_samples(),
        forall|i: int|
            0 <= i < run.inputs.len() ==> (#[trigger] run.traces[i]).boosted_left.finite()
                && run.traces[i].boosted_right.finite(),
        0 <= at < run.inputs.len(),
    ensures
        ({
            let ceiling = run.states[0].peak_threshold_linear;
            let gain = run.states[at + 1].gain();
            &&& unit(gain)
            &&& product_is::<A>(
                run.states[at].oldest().0,
                gain,
                run.traces[at].processed_left,
            )
            &&& product_is::<A>(
                run.states[at].oldest().1,
                gain,
                run.traces[at].processed_right,
            )
            &&& ceiling.negated().at_most(run.outputs[at].0)
            &&& run.outputs[at].0.at_most(ceiling)
            &&& ceiling.negated().at_most(run.outputs[at].1)
            &&& run.outputs[at].1.at_most(ceiling)
        }),
{
    lemma_run_in_range::<A>(run, at);
    lemma_run_states_valid::<A>(run, at);
    let state = run.states[at];
    let trace = run.traces[at];
    let next = run.states[at + 1];
    lemma_frame_keeps_gains::<A>(
        state,
        run.inputs[at].0,
        run.inputs[at].1,
        trace,
        next,
        run.outputs[at],
    );
    assert(state.delayed_left[0].finite());
    assert(state.delayed_right[0].finite());
    assert(product_is::<A>(state.oldest().0, next.gain(), trace.processed_left));
    assert(product_is::<A>(state.oldest().1, next.gain(), trace.processed_right));
    law_ceiling_is_respected::<A>(
        state,
        run.inputs[at].0,
        run.inputs[at].1,
        trace,
        next,
        run.outputs[at],
    );
}

proof fn lemma_run_in_range<A: Arithmetic>(run: FrameRun, at: int)
    requires
        keeps_gains::<A>(),
        run.valid::<A>(),
        run.states[0].gains_in_range(),
        run.states[0].holds_finite_samples(),
        forall|i: int|
            0 <= i < run.inputs.len() ==> (#[trigger] run.traces[i]).boosted_left.finite()
                && run.traces[i].boosted_right.finite(),
        0 <= at < run.states.len(),
    ensures
        run.states[at].gains_in_range(),
        run.states[at].holds_finite_samples(),
    decreases at,
{
    if at > 0 {
        lemma_run_in_range::<A>(run, at - 1);
        lemma_run_states_valid::<A>(run, at - 1);
        let before = run.states[at - 1];
        let after = run.states[at];
        let trace = run.traces[at - 1];
        lemma_frame_keeps_gains::<A>(
            before,
            run.inputs[at - 1].0,
            run.inputs[at - 1].1,
            trace,
            after,
            run.outputs[at - 1],
        );
        assert(after.delayed_left == before.delayed_left.drop_first().push(trace.boosted_left));
        assert(after.delayed_right == before.delayed_right.drop_first().push(trace.boosted_right));
    }
}

/// A limiter that has just been made, or made ready for a rate, starts with its gains in range
/// and silent delay lines, if the host answers what its coefficients and its ceiling are made
/// of with usable numbers.
pub proof fn law_fresh_limiter_is_in_range<A: Arithmetic>(
    limiter: LimiterState,
    params: LimiterParams,
)
    requires
        limiter.fresh::<A>(params),
        params.threshold_db.finite(),
        unit(limiter.attack_coeff) && unit(limiter.release_coeff),
        unit(limiter.peak_attack_coeff) && unit(limiter.peak_release_coeff),
        single(ZERO).at_most(limiter.peak_threshold_linear),
    ensures
        limiter.gains_in_range(),
        limiter.holds_finite_samples(),
{
}

} // verus!
