//! What a listener may rely on of the limiter: which of two channels counts, how fast the gains
//! move, what passes unchanged, and how decibels and factors belong together.

use vstd::prelude::*;

use crate::arithmetic::{
    answers_alike, difference_is, exponential_is, integer_is, keeps_distances, knows_one_and_zero,
    logarithm_is, power_of_ten_is, product_is, quotient_is, square_root_is, sum_is, undoes_power,
    Arithmetic,
};
use crate::config::LimiterParams;
use crate::limiter::{
    coefficient_is, decibels_is, knee_gain_is, knee_reduction_is, linear_is, smoothed_is, unit,
    FrameTrace, LimiterState, MINUS_ONE, ONE, RMS_KNEE_DB, SILENCE, THOUSAND, TWENTY, ZERO,
};
use crate::single::{single, Single};

verus! {

proof fn lemma_smoothed_once<A: Arithmetic>(
    target: Single,
    coeff: Single,
    previous: Single,
    r: Single,
    q: Single,
)
    requires
        answers_alike::<A>(),
        smoothed_is::<A>(target, coeff, previous, r),
        smoothed_is::<A>(target, coeff, previous, q),
    ensures
        r == q,
{
}

proof fn lemma_knee_gain_once<A: Arithmetic>(
    level: Single,
    threshold: Single,
    knee: Single,
    r: Single,
    q: Single,
)
    requires
        answers_alike::<A>(),
        knee_gain_is::<A>(level, threshold, knee, r),
        knee_gain_is::<A>(level, threshold, knee, q),
    ensures
        r == q,
{
}

proof fn lemma_decibels_once<A: Arithmetic>(value: Single, r: Single, q: Single)
    requires
        answers_alike::<A>(),
        decibels_is::<A>(value, r),
        decibels_is::<A>(value, q),
    ensures
        r == q,
{
}

/// The amplification of a frame does not depend on the frame.
proof fn lemma_same_pre_gain<A: Arithmetic>(
    state: LimiterState,
    left: Single,
    right: Single,
    trace: FrameTrace,
    next: LimiterState,
    output: (Single, Single),
    other_left: Single,
    other_right: Single,
    other_trace: FrameTrace,
    other_next: LimiterState,
    other_output: (Single, Single),
)
    requires
        answers_alike::<A>(),
        state.processes::<A>(left, right, trace, next, output),
        state.processes::<A>(other_left, other_right, other_trace, other_next, other_output),
    ensures
        next.pre_gain_smoother == other_next.pre_gain_smoother,
{
    lemma_smoothed_once::<A>(
        state.pre_gain_target_linear,
        state.pre_gain_smooth_coeff,
        state.pre_gain_smoother,
        next.pre_gain_smoother,
        other_next.pre_gain_smoother,
    );
}

/// Two frames on which the level and the peak agree lead to the same gains.
proof fn lemma_same_loudness<A: Arithmetic>(
    state: LimiterState,
    left: Single,
    right: Single,
    trace: FrameTrace,
    next: LimiterState,
    output: (Single, Single),
    other_left: Single,
    other_right: Single,
    other_trace: FrameTrace,
    other_next: LimiterState,
    other_output: (Single, Single),
)
    requires
        answers_alike::<A>(),
        state.processes::<A>(left, right, trace, next, output),
        state.processes::<A>(other_left, other_right, other_trace, other_next, other_output),
        next.fullband_rms == other_next.fullband_rms,
        trace.peak() == other_trace.peak(),
    ensures
        other_next.gain_smoother == next.gain_smoother,
        other_next.peak_hold_gain == next.peak_hold_gain,
        other_next.peak_hold_counter == next.peak_hold_counter,
        other_next.peak_gain_smoother == next.peak_gain_smoother,
        other_output == output,
{
    assert(trace.rms == other_trace.rms);
    lemma_decibels_once::<A>(trace.rms, trace.rms_db, other_trace.rms_db);
    lemma_knee_gain_once::<A>(
        trace.rms_db,
        state.threshold_db,
        single(RMS_KNEE_DB),
        trace.rms_target,
        other_trace.rms_target,
    );
    let rms_coeff = if trace.rms_target.below(state.gain_smoother) {
        state.attack_coeff
    } else {
        state.release_coeff
    };
    lemma_smoothed_once::<A>(
        trace.rms_target,
        rms_coeff,
        state.gain_smoother,
        trace.rms_smoothed,
        other_trace.rms_smoothed,
    );
    assert(trace.peak_target() == other_trace.peak_target());
    let hold = state.hold_after(trace.peak_target());
    let peak_coeff = if hold.0.below(state.peak_gain_smoother) {
        state.peak_attack_coeff
    } else {
        state.peak_release_coeff
    };
    lemma_smoothed_once::<A>(
        hold.0,
        peak_coeff,
        state.peak_gain_smoother,
        trace.peak_smoothed,
        other_trace.peak_smoothed,
    );
    assert(next.gain() == other_next.gain());
    assert(trace.processed_left == other_trace.processed_left);
    assert(trace.processed_right == other_trace.processed_right);
}

/// Of two samples that are amplified alike the one farther from zero stays so, and has the larger
/// square.
proof fn lemma_quieter_channel<A: Arithmetic>(
    loud: Single,
    quiet: Single,
    gain: Single,
    boosted: Single,
    other: Single,
    square: Single,
    other_square: Single,
)
    requires
        keeps_distances::<A>(),
        product_is::<A>(loud, gain, boosted),
        product_is::<A>(quiet, gain, other),
        product_is::<A>(boosted, boosted, square),
        product_is::<A>(other, other, other_square),
        loud.finite(),
        boosted.finite(),
        quiet.absolute().at_most(loud.absolute()),
    ensures
        other.absolute().at_most(boosted.absolute()),
        other_square.at_most(square),
        !other_square.negative(),
        !square.negative(),
{
    reveal(keeps_distances);
}

/// The louder channel alone decides, where it is the left one: a quieter right channel may hold
/// whatever it likes, silence or the very same sound, without changing the level, the gains or
/// the frame that comes out.
#[verifier::spinoff_prover]
#[verifier::rlimit(60)]
pub proof fn law_louder_left_channel_decides<A: Arithmetic>(
    state: LimiterState,
    loud: Single,
    quiet: Single,
    trace: FrameTrace,
    next: LimiterState,
    output: (Single, Single),
    other_quiet: Single,
    other_trace: FrameTrace,
    other_next: LimiterState,
    other_output: (Single, Single),
)
    requires
        answers_alike::<A>(),
        keeps_distances::<A>(),
        state.processes::<A>(loud, quiet, trace, next, output),
        state.processes::<A>(loud, other_quiet, other_trace, other_next, other_output),
        loud.finite(),
        quiet.absolute().at_most(loud.absolute()),
        other_quiet.absolute().at_most(loud.absolute()),
        trace.boosted_left.finite(),
    ensures
        other_next.fullband_rms == next.fullband_rms,
        other_next.gain_smoother == next.gain_smoother,
        other_next.peak_hold_gain == next.peak_hold_gain,
        other_next.peak_hold_counter == next.peak_hold_counter,
        other_next.peak_gain_smoother == next.peak_gain_smoother,
        other_output == output,
{
    lemma_same_pre_gain::<A>(
        state,
        loud,
        quiet,
        trace,
        next,
        output,
        loud,
        other_quiet,
        other_trace,
        other_next,
        other_output,
    );
    assert(other_trace.boosted_left == trace.boosted_left);
    assert(other_trace.energy_left == trace.energy_left);
    lemma_quieter_channel::<A>(
        loud,
        quiet,
        next.pre_gain_smoother,
        trace.boosted_left,
        trace.boosted_right,
        trace.energy_left,
        trace.energy_right,
    );
    lemma_quieter_channel::<A>(
        loud,
        other_quiet,
        next.pre_gain_smoother,
        trace.boosted_left,
        other_trace.boosted_right,
        trace.energy_left,
        other_trace.energy_right,
    );
    assert(trace.energy_left.greater(trace.energy_right) == trace.energy_left);
    assert(other_trace.energy_left.greater(other_trace.energy_right) == trace.energy_left);
    assert(other_trace.peak() == trace.peak());
    lemma_smoothed_once::<A>(
        trace.energy_left,
        state.rms_detector_coeff,
        state.fullband_rms,
        next.fullband_rms,
        other_next.fullband_rms,
    );
    lemma_same_loudness::<A>(
        state,
        loud,
        quiet,
        trace,
        next,
        output,
        loud,
        other_quiet,
        other_trace,
        other_next,
        other_output,
    );
}

/// The louder channel alone decides, where it is the right one.
#[verifier::spinoff_prover]
#[verifier::rlimit(60)]
pub proof fn law_louder_right_channel_decides<A: Arithmetic>(
    state: LimiterState,
    quiet: Single,
    loud: Single,
    trace: FrameTrace,
    next: LimiterState,
    output: (Single, Single),
    other_quiet: Single,
    other_trace: FrameTrace,
    other_next: LimiterState,
    other_output: (Single, Single),
)
    requires
        answers_alike::<A>(),
        keeps_distances::<A>(),
        state.processes::<A>(quiet, loud, trace, next, output),
        state.processes::<A>(other_quiet, loud, other_trace, other_next, other_output),
        loud.finite(),
        quiet.absolute().at_most(loud.absolute()),
        other_quiet.absolute().at_most(loud.absolute()),
        trace.boosted_right.finite(),
    ensures
        other_next.fullband_rms == next.fullband_rms,
        other_next.gain_smoother == next.gain_smoother,
        other_next.peak_hold_gain == next.peak_hold_gain,
        other_next.peak_hold_counter == next.peak_hold_counter,
        other_next.peak_gain_smoother == next.peak_gain_smoother,
        other_output == output,
{
    lemma_same_pre_gain::<A>(
        state,
        quiet,
        loud,
        trace,
        next,
        output,
        other_quiet,
        loud,
        other_trace,
        other_next,
        other_output,
    );
    assert(other_trace.boosted_right == trace.boosted_right);
    assert(other_trace.energy_right == trace.energy_right);
    lemma_quieter_channel::<A>(
        loud,
        quiet,
        next.pre_gain_smoother,
        trace.boosted_right,
        trace.boosted_left,
        trace.energy_right,
        trace.energy_left,
    );
    lemma_quieter_channel::<A>(
        loud,
        other_quiet,
        next.pre_gain_smoother,
        trace.boosted_right,
        other_trace.boosted_left,
        trace.energy_right,
        other_trace.energy_left,
    );
    assert(trace.energy_left.greater(trace.energy_right) == trace.energy_right);
    assert(other_trace.energy_left.greater(other_trace.energy_right) == trace.energy_right);
    assert(other_trace.peak() == trace.peak());
    lemma_smoothed_once::<A>(
        trace.energy_right,
        state.rms_detector_coeff,
        state.fullband_rms,
        next.fullband_rms,
        other_next.fullband_rms,
    );
    lemma_same_loudness::<A>(
        state,
        quiet,
        loud,
        trace,
        next,
        output,
        other_quiet,
        loud,
        other_trace,
        other_next,
        other_output,
    );
}

/// What is smoothed into the level is the square of one of the two amplified samples, and no
/// less than the square of either.
pub proof fn law_level_takes_in_the_larger_square<A: Arithmetic>(
    state: LimiterState,
    left: Single,
    right: Single,
    trace: FrameTrace,
    next: LimiterState,
    output: (Single, Single),
    left_square: Single,
    right_square: Single,
)
    requires
        answers_alike::<A>(),
        state.processes::<A>(left, right, trace, next, output),
        product_is::<A>(trace.boosted_left, trace.boosted_left, left_square),
        product_is::<A>(trace.boosted_right, trace.boosted_right, right_square),
        !left_square.nan(),
        !right_square.nan(),
    ensures
        exists|energy: Single|
            {
                &&& #[trigger] smoothed_is::<A>(
                    energy,
                    state.rms_detector_coeff,
                    state.fullband_rms,
                    next.fullband_rms,
                )
                &&& energy == left_square || energy == right_square
                &&& left_square.at_most(energy)
                &&& right_square.at_most(energy)
            },
{
    assert(trace.energy_left == left_square);
    assert(trace.energy_right == right_square);
    let energy = trace.energy_left.greater(trace.energy_right);
    assert(smoothed_is::<A>(
        energy,
        state.rms_detector_coeff,
        state.fullband_rms,
        next.fullband_rms,
    ));
}

/// A sound that goes on as it was keeps its level, and that level is its distance from zero: not
/// its square, and not a part of it. Let the level stand at the square of the amplified sample of
/// both channels, and let the host smooth between equal numbers and take the root of this square
/// without rounding.
pub proof fn law_steady_sound_is_measured_by_its_distance<A: Arithmetic>(
    state: LimiterState,
    left: Single,
    right: Single,
    trace: FrameTrace,
    next: LimiterState,
    output: (Single, Single),
    distance: Single,
    square: Single,
)
    requires
        answers_alike::<A>(),
        state.processes::<A>(left, right, trace, next, output),
        single(ZERO).below(distance),
        trace.boosted_left == distance || trace.boosted_left == distance.negated(),
        trace.boosted_right == distance || trace.boosted_right == distance.negated(),
        product_is::<A>(distance, distance, square),
        forall|r: Single| #[trigger]
            product_is::<A>(distance.negated(), distance.negated(), r) ==> r == square,
        single(ZERO).at_most(square),
        state.fullband_rms == square,
        forall|r: Single| #[trigger]
            smoothed_is::<A>(square, state.rms_detector_coeff, square, r) ==> r == square,
        forall|r: Single| #[trigger] square_root_is::<A>(square, r) ==> r == distance,
    ensures
        next.fullband_rms == square,
        trace.rms == distance,
        single(SILENCE).below(distance) ==> exists|log: Single| #[trigger]
            logarithm_is::<A>(distance, log) && product_is::<A>(
                single(TWENTY),
                log,
                trace.rms_db,
            ),
{
    assert(trace.energy_left == square);
    assert(trace.energy_right == square);
    assert(smoothed_is::<A>(square, state.rms_detector_coeff, square, next.fullband_rms));
    assert(square_root_is::<A>(next.fullband_rms.greater(single(ZERO)), trace.rms));
    assert(next.fullband_rms.greater(single(ZERO)) == square);
}

/// The two ends of smoothing: where nothing of the number before is kept, the target is reached
/// at once, and where all of it is kept, nothing moves.
pub proof fn law_smoothing_ends<A: Arithmetic>(target: Single, previous: Single, r: Single)
    requires
        knows_one_and_zero::<A>(),
        target.finite(),
        previous.finite(),
    ensures
        smoothed_is::<A>(target, single(ZERO), previous, r) ==> r.same(target),
        smoothed_is::<A>(target, single(ONE), previous, r) ==> r.same(previous),
{
    if smoothed_is::<A>(target, single(ZERO), previous, r) {
        let (rest, new_part, old_part) = choose|rest: Single, new_part: Single, old_part: Single|
            #![trigger difference_is::<A>(single(ONE), single(ZERO), rest), product_is::<A>(target, rest, new_part), product_is::<A>(previous, single(ZERO), old_part)]
            {
                &&& difference_is::<A>(single(ONE), single(ZERO), rest)
                &&& product_is::<A>(target, rest, new_part)
                &&& product_is::<A>(previous, single(ZERO), old_part)
                &&& sum_is::<A>(new_part, old_part, r)
            };
        assert(rest.same(single(ONE)));
        assert(rest == single(ONE));
        assert(new_part == target);
        assert(old_part.same(single(ZERO)));
    }
    if smoothed_is::<A>(target, single(ONE), previous, r) {
        let (rest, new_part, old_part) = choose|rest: Single, new_part: Single, old_part: Single|
            #![trigger difference_is::<A>(single(ONE), single(ONE), rest), product_is::<A>(target, rest, new_part), product_is::<A>(previous, single(ONE), old_part)]
            {
                &&& difference_is::<A>(single(ONE), single(ONE), rest)
                &&& product_is::<A>(target, rest, new_part)
                &&& product_is::<A>(previous, single(ONE), old_part)
                &&& sum_is::<A>(new_part, old_part, r)
            };
        assert(rest.same(single(ZERO)));
        assert(new_part.same(single(ZERO)));
        assert(old_part == previous);
    }
}

/// A gain that has to fall does so as the attack says, and one that may rise does so as the
/// release says, for the level: with an attack that keeps nothing the gain falls at once to what
/// the level asks for, whatever the release is, and with a release that keeps all it does not
/// rise, whatever the attack is; and the other way round.
pub proof fn law_level_gain_falls_by_attack_and_rises_by_release<A: Arithmetic>(
    state: LimiterState,
    left: Single,
    right: Single,
    trace: FrameTrace,
    next: LimiterState,
    output: (Single, Single),
)
    requires
        knows_one_and_zero::<A>(),
        state.processes::<A>(left, right, trace, next, output),
        unit(trace.rms_target),
        unit(state.gain_smoother),
    ensures
        trace.rms_target.below(state.gain_smoother) && state.attack_coeff == single(ZERO)
            ==> next.gain_smoother.same(trace.rms_target),
        trace.rms_target.below(state.gain_smoother) && state.attack_coeff == single(ONE)
            ==> next.gain_smoother.same(state.gain_smoother),
        state.gain_smoother.at_most(trace.rms_target) && state.release_coeff == single(ZERO)
            ==> next.gain_smoother.same(trace.rms_target),
        state.gain_smoother.at_most(trace.rms_target) && state.release_coeff == single(ONE)
            ==> next.gain_smoother.same(state.gain_smoother),
{
    law_smoothing_ends::<A>(trace.rms_target, state.gain_smoother, trace.rms_smoothed);
}

/// The gain of the peak falls by its own attack and rises by its own release, towards what is
/// held.
pub proof fn law_peak_gain_falls_by_attack_and_rises_by_release<A: Arithmetic>(
    state: LimiterState,
    left: Single,
    right: Single,
    trace: FrameTrace,
    next: LimiterState,
    output: (Single, Single),
)
    requires
        knows_one_and_zero::<A>(),
        state.processes::<A>(left, right, trace, next, output),
        unit(next.peak_hold_gain),
        unit(state.peak_gain_smoother),
    ensures
        next.peak_hold_gain.below(state.peak_gain_smoother) && state.peak_attack_coeff == single(
            ZERO,
        ) ==> next.peak_gain_smoother.same(next.peak_hold_gain),
        next.peak_hold_gain.below(state.peak_gain_smoother) && state.peak_attack_coeff == single(
            ONE,
        ) ==> next.peak_gain_smoother.same(state.peak_gain_smoother),
        state.peak_gain_smoother.at_most(next.peak_hold_gain) && state.peak_release_coeff == single(
            ZERO,
        ) ==> next.peak_gain_smoother.same(next.peak_hold_gain),
        state.peak_gain_smoother.at_most(next.peak_hold_gain) && state.peak_release_coeff == single(
            ONE,
        ) ==> next.peak_gain_smoother.same(state.peak_gain_smoother),
{
    law_smoothing_ends::<A>(next.peak_hold_gain, state.peak_gain_smoother, trace.peak_smoothed);
}

/// The pre-gain moves towards its target as its own coefficient says.
pub proof fn law_pre_gain_moves_to_its_target<A: Arithmetic>(
    state: LimiterState,
    left: Single,
    right: Single,
    trace: FrameTrace,
    next: LimiterState,
    output: (Single, Single),
)
    requires
        knows_one_and_zero::<A>(),
        state.processes::<A>(left, right, trace, next, output),
        state.pre_gain_target_linear.finite(),
        state.pre_gain_smoother.finite(),
    ensures
        state.pre_gain_smooth_coeff == single(ZERO) ==> next.pre_gain_smoother.same(
            state.pre_gain_target_linear,
        ),
        state.pre_gain_smooth_coeff == single(ONE) ==> next.pre_gain_smoother.same(
            state.pre_gain_smoother,
        ),
        // A frame is amplified by where the pre-gain has arrived, each channel by itself.
        next.pre_gain_smoother == single(ONE) && left.finite() && right.finite()
            ==> trace.boosted_left == left && trace.boosted_right == right,
{
    law_smoothing_ends::<A>(
        state.pre_gain_target_linear,
        state.pre_gain_smoother,
        next.pre_gain_smoother,
    );
}

/// The gain of a frame is one of the two gains, and the lower one.
pub proof fn law_gain_is_the_lower_of_two<A: Arithmetic>(
    state: LimiterState,
    left: Single,
    right: Single,
    trace: FrameTrace,
    next: LimiterState,
    output: (Single, Single),
    gain: Single,
)
    requires
        answers_alike::<A>(),
        state.processes::<A>(left, right, trace, next, output),
        !next.gain_smoother.nan(),
        !next.peak_gain_smoother.nan(),
        gain == next.gain_smoother || gain == next.peak_gain_smoother,
        gain.at_most(next.gain_smoother),
        gain.at_most(next.peak_gain_smoother),
        next.gain_smoother.same(next.peak_gain_smoother) ==> next.gain_smoother
            == next.peak_gain_smoother,
    ensures
        product_is::<A>(state.delayed_left[0], gain, trace.processed_left),
        product_is::<A>(state.delayed_right[0], gain, trace.processed_right),
{
    assert(next.gain() == gain);
}

/// A frame between the ceilings on both sides comes out as its scaled self.
pub proof fn law_frames_within_the_ceiling_are_not_cut<A: Arithmetic>(
    state: LimiterState,
    left: Single,
    right: Single,
    trace: FrameTrace,
    next: LimiterState,
    output: (Single, Single),
)
    requires
        state.processes::<A>(left, right, trace, next, output),
    ensures
        trace.processed_left.absolute().at_most(state.peak_threshold_linear) ==> output.0
            == trace.processed_left,
        trace.processed_right.absolute().at_most(state.peak_threshold_linear) ==> output.1
            == trace.processed_right,
        !state.peak_threshold_linear.negative() && state.peak_threshold_linear.below(
            trace.processed_left,
        ) ==> output.0 == state.peak_threshold_linear,
        !state.peak_threshold_linear.negative() && trace.processed_left.below(
            state.peak_threshold_linear.negated(),
        ) ==> output.0 == state.peak_threshold_linear.negated(),
        !state.peak_threshold_linear.negative() && state.peak_threshold_linear.below(
            trace.processed_right,
        ) ==> output.1 == state.peak_threshold_linear,
        !state.peak_threshold_linear.negative() && trace.processed_right.below(
            state.peak_threshold_linear.negated(),
        ) ==> output.1 == state.peak_threshold_linear.negated(),
{
}

/// The gain that a frame's peak asks for: none is taken away while both amplified samples are
/// within the ceiling, and beyond it the ceiling over the larger of their distances from zero.
pub proof fn law_peak_asks_for_the_ceiling<A: Arithmetic>(
    state: LimiterState,
    left: Single,
    right: Single,
    trace: FrameTrace,
    next: LimiterState,
    output: (Single, Single),
)
    requires
        state.processes::<A>(left, right, trace, next, output),
        trace.boosted_left.finite(),
        trace.boosted_right.finite(),
        single(ZERO).below(state.peak_threshold_linear),
        state.peak_hold_gain == single(ONE),
        state.peak_hold_counter == 0,
        // A ceiling over what does not exceed it is at least one, over what does at most one.
        forall|a: Single, b: Single, r: Single| #[trigger]
            quotient_is::<A>(a, b, r) && single(ZERO).below(b) && b.finite() && b.at_most(a)
                ==> single(ONE).at_most(r),
        forall|a: Single, b: Single, r: Single| #[trigger]
            quotient_is::<A>(a, b, r) && single(ZERO).below(a) && a.below(b) ==> r.below(
                single(ONE),
            ),
    ensures
        trace.boosted_left.absolute().at_most(state.peak_threshold_linear)
            && trace.boosted_right.absolute().at_most(state.peak_threshold_linear) ==> {
            &&& next.peak_hold_gain == single(ONE)
            &&& next.peak_hold_counter == 0
        },
        state.peak_threshold_linear.below(trace.boosted_left.absolute())
            && trace.boosted_right.absolute().at_most(trace.boosted_left.absolute()) ==> {
            &&& quotient_is::<A>(
                state.peak_threshold_linear,
                trace.boosted_left.absolute(),
                next.peak_hold_gain,
            )
            &&& next.peak_hold_counter == state.delayed_left.len()
        },
        state.peak_threshold_linear.below(trace.boosted_right.absolute())
            && trace.boosted_left.absolute().at_most(trace.boosted_right.absolute()) ==> {
            &&& quotient_is::<A>(
                state.peak_threshold_linear,
                trace.boosted_right.absolute(),
                next.peak_hold_gain,
            )
            &&& next.peak_hold_counter == state.delayed_left.len()
        },
{
}

/// Quiet sound passes unchanged. Let all gains stand at one, let the level of a frame be such
/// that the knee takes nothing away, let its samples be within the ceiling, and let the host
/// smooth from one to one by the three coefficients in play without rounding: what comes out is the frame that came in one
/// lookahead ago, bit for bit, the frame that comes in goes into the delay lines bit for bit, and
/// all gains still stand at one.
#[verifier::spinoff_prover]
#[verifier::rlimit(60)]
pub proof fn law_quiet_sound_passes_unchanged<A: Arithmetic>(
    state: LimiterState,
    left: Single,
    right: Single,
    trace: FrameTrace,
    next: LimiterState,
    output: (Single, Single),
)
    requires
        knows_one_and_zero::<A>(),
        state.processes::<A>(left, right, trace, next, output),
        state.valid(),
        left.finite() && right.finite(),
        state.delayed_left[0].finite() && state.delayed_right[0].finite(),
        state.pre_gain_target_linear == single(ONE) && state.pre_gain_smoother == single(ONE),
        state.gain_smoother == single(ONE) && state.peak_gain_smoother == single(ONE),
        state.peak_hold_gain == single(ONE) && state.peak_hold_counter == 0,
        trace.rms_target == single(ONE),
        forall|coeff: Single, r: Single| #[trigger]
            smoothed_is::<A>(single(ONE), coeff, single(ONE), r) && (coeff
                == state.pre_gain_smooth_coeff || coeff == state.release_coeff || coeff
                == state.peak_release_coeff) ==> r == single(ONE),
        forall|a: Single, b: Single, r: Single| #[trigger]
            quotient_is::<A>(a, b, r) && single(ZERO).below(b) && b.finite() && b.at_most(a)
                ==> single(ONE).at_most(r),
        left.absolute().at_most(state.peak_threshold_linear),
        right.absolute().at_most(state.peak_threshold_linear),
        state.delayed_left[0].absolute().at_most(state.peak_threshold_linear),
        state.delayed_right[0].absolute().at_most(state.peak_threshold_linear),
    ensures
        output == (state.delayed_left[0], state.delayed_right[0]),
        next.delayed_left.last() == left,
        next.delayed_right.last() == right,
        next.pre_gain_smoother == single(ONE),
        next.gain_smoother == single(ONE),
        next.peak_gain_smoother == single(ONE),
        next.peak_hold_gain == single(ONE),
        next.peak_hold_counter == 0,
{
    assert(next.pre_gain_smoother == single(ONE));
    assert(trace.boosted_left == left);
    assert(trace.boosted_right == right);
    assert(trace.rms_smoothed == single(ONE));
    let peak = trace.peak();
    assert(peak.at_most(state.peak_threshold_linear));
    let hold = state.hold_after(trace.peak_target());
    assert(!trace.peak_target().below(single(ONE)));
    assert(hold == (single(ONE), 0nat));
    assert(trace.peak_smoothed == single(ONE));
    assert(next.gain() == single(ONE));
    assert(trace.processed_left == state.delayed_left[0]);
    assert(trace.processed_right == state.delayed_right[0]);
}

/// Decibels and factors belong together: the decibels of the factor that some decibels stand for
/// are these decibels, as long as the factor is not silence and the host does not round.
pub proof fn law_decibels_undo_factors<A: Arithmetic>(db: Single, factor: Single, again: Single)
    requires
        undoes_power::<A>(db, single(TWENTY)),
        linear_is::<A>(db, factor),
        single(SILENCE).below(factor),
        decibels_is::<A>(factor, again),
    ensures
        again == db,
{
}

/// No decibels are a factor of one, and a factor of one is no decibels.
pub proof fn law_no_decibels_are_one<A: Arithmetic>(db: Single, factor: Single)
    requires
        knows_one_and_zero::<A>(),
        forall|a: Single, r: Single| #[trigger]
            power_of_ten_is::<A>(a, r) && a.same(single(ZERO)) ==> r == single(ONE),
        forall|r: Single| #[trigger]
            logarithm_is::<A>(single(ONE), r) ==> r.same(single(ZERO)),
    ensures
        db.same(single(ZERO)) && linear_is::<A>(db, factor) ==> factor == single(ONE),
        factor == single(ONE) && decibels_is::<A>(factor, db) ==> db.same(single(ZERO)),
{
    assert(single(SILENCE).below(single(ONE)));
    assert(!single(TWENTY).same(single(ZERO)));
    assert(single(TWENTY).finite());
}

/// At the threshold itself a knee takes away an eighth of its width: the square of half its
/// width over twice its width. Let the host answer what the knee is made of without rounding.
pub proof fn law_knee_takes_an_eighth_at_the_threshold<A: Arithmetic>(
    threshold: Single,
    knee: Single,
    half: Single,
    start: Single,
    end: Single,
    eighth: Single,
    reduction: Single,
)
    requires
        answers_alike::<A>(),
        product_is::<A>(knee, single(crate::limiter::HALF), half),
        difference_is::<A>(threshold, half, start),
        sum_is::<A>(threshold, half, end),
        start.below(threshold) && threshold.below(end),
        // The threshold lies half a knee above the start.
        difference_is::<A>(threshold, start, half),
        // Minus the square of half a knee over two knees is minus the eighth.
        forall|square: Single, width: Single, r: Single|
            #![trigger product_is::<A>(half, half, square), product_is::<A>(single(crate::limiter::TWO), knee, width), quotient_is::<A>(square.negated(), width, r)]
            product_is::<A>(half, half, square) && product_is::<A>(
                single(crate::limiter::TWO),
                knee,
                width,
            ) && quotient_is::<A>(square.negated(), width, r) ==> r == eighth.negated(),
        knee_reduction_is::<A>(threshold, threshold, knee, reduction),
    ensures
        reduction == eighth.negated(),
{
}

/// The host's arithmetic keeps the order of times: a longer time is more samples, minus one over
/// more samples is nearer to zero, and the exponential grows with its exponent.
pub open spec fn keeps_times_in_order<A: Arithmetic>(rate: Single) -> bool {
    &&& forall|short: u64, long: u64, r: Single, q: Single|
        #![trigger integer_is::<A>(short, r), integer_is::<A>(long, q)]
        integer_is::<A>(short, r) && integer_is::<A>(long, q) && short <= long ==> r.at_most(q)
    &&& forall|a: Single, b: Single, r: Single, q: Single|
        #![trigger quotient_is::<A>(a, single(THOUSAND), r), quotient_is::<A>(b, single(THOUSAND), q)]
        quotient_is::<A>(a, single(THOUSAND), r) && quotient_is::<A>(b, single(THOUSAND), q)
            && a.at_most(b) ==> r.at_most(q)
    &&& forall|a: Single, b: Single, r: Single, q: Single|
        #![trigger product_is::<A>(a, rate, r), product_is::<A>(b, rate, q)]
        product_is::<A>(a, rate, r) && product_is::<A>(b, rate, q) && a.at_most(b) ==> r.at_most(q)
    &&& forall|a: Single, b: Single, r: Single, q: Single|
        #![trigger quotient_is::<A>(single(MINUS_ONE), a, r), quotient_is::<A>(single(MINUS_ONE), b, q)]
        quotient_is::<A>(single(MINUS_ONE), a, r) && quotient_is::<A>(single(MINUS_ONE), b, q)
            && single(ZERO).below(a) && a.at_most(b) ==> r.at_most(q) && q.at_most(single(ZERO))
    &&& forall|a: Single, b: Single, r: Single, q: Single|
        #![trigger exponential_is::<A>(a, r), exponential_is::<A>(b, q)]
        exponential_is::<A>(a, r) && exponential_is::<A>(b, q) && a.at_most(b) ==> single(
            ZERO,
        ).at_most(r) && r.at_most(q)
    &&& forall|a: Single, r: Single| #[trigger]
        exponential_is::<A>(a, r) && a.at_most(single(ZERO)) ==> unit(r)
}

/// A longer time keeps more of what was before, and no time keeps more than all of it.
pub proof fn law_longer_times_keep_more<A: Arithmetic>(
    short_ms: u32,
    long_ms: u32,
    rate: Single,
    short_coeff: Single,
    long_coeff: Single,
)
    requires
        keeps_times_in_order::<A>(rate),
        coefficient_is::<A>(short_ms, rate, short_coeff),
        coefficient_is::<A>(long_ms, rate, long_coeff),
        short_ms <= long_ms,
    ensures
        short_coeff.at_most(long_coeff),
        unit(short_coeff),
        unit(long_coeff),
{
    let (short_time, short_seconds, short_samples) = choose|
        ms: Single,
        seconds: Single,
        samples: Single,
    |
        #![trigger integer_is::<A>(short_ms as u64, ms), quotient_is::<A>(ms, single(THOUSAND), seconds), product_is::<A>(seconds, rate, samples)]
        {
            &&& integer_is::<A>(short_ms as u64, ms)
            &&& quotient_is::<A>(ms, single(THOUSAND), seconds)
            &&& product_is::<A>(seconds, rate, samples)
            &&& if samples.at_most(single(ZERO)) {
                short_coeff == single(ZERO)
            } else {
                exists|exponent: Single|
                    #[trigger] quotient_is::<A>(single(MINUS_ONE), samples, exponent)
                        && exponential_is::<A>(exponent, short_coeff)
            }
        };
    let (long_time, long_seconds, long_samples) = choose|
        ms: Single,
        seconds: Single,
        samples: Single,
    |
        #![trigger integer_is::<A>(long_ms as u64, ms), quotient_is::<A>(ms, single(THOUSAND), seconds), product_is::<A>(seconds, rate, samples)]
        {
            &&& integer_is::<A>(long_ms as u64, ms)
            &&& quotient_is::<A>(ms, single(THOUSAND), seconds)
            &&& product_is::<A>(seconds, rate, samples)
            &&& if samples.at_most(single(ZERO)) {
                long_coeff == single(ZERO)
            } else {
                exists|exponent: Single|
                    #[trigger] quotient_is::<A>(single(MINUS_ONE), samples, exponent)
                        && exponential_is::<A>(exponent, long_coeff)
            }
        };
    assert(short_time.at_most(long_time));
    assert(short_seconds.at_most(long_seconds));
    assert(short_samples.at_most(long_samples));
    if !long_samples.at_most(single(ZERO)) {
        let long_exponent = choose|exponent: Single|
            #[trigger] quotient_is::<A>(single(MINUS_ONE), long_samples, exponent)
                && exponential_is::<A>(exponent, long_coeff);
        assert(exponential_is::<A>(long_exponent, long_coeff));
        assert(long_exponent.at_most(single(ZERO)));
        if !short_samples.at_most(single(ZERO)) {
            let short_exponent = choose|exponent: Single|
                #[trigger] quotient_is::<A>(single(MINUS_ONE), short_samples, exponent)
                    && exponential_is::<A>(exponent, short_coeff);
            assert(exponential_is::<A>(short_exponent, short_coeff));
            assert(short_exponent.at_most(long_exponent));
        }
    }
}

/// Every setting reaches its own place in the limiter, when new settings are taken over: the
/// attack of the level its attack, its release its release, the release of the peak that of the
/// peak, and the threshold and the pre-gain theirs. What no setting names stays.
pub proof fn law_settings_reach_their_places<A: Arithmetic>(
    state: LimiterState,
    params: LimiterParams,
    next: LimiterState,
)
    requires
        state.retuned::<A>(params, next),
    ensures
        coefficient_is::<A>(params.attack_ms, state.sample_rate, next.attack_coeff),
        coefficient_is::<A>(params.release_ms, state.sample_rate, next.release_coeff),
        coefficient_is::<A>(params.peak_release_ms, state.sample_rate, next.peak_release_coeff),
        linear_is::<A>(params.pre_gain_db, next.pre_gain_target_linear),
        next.threshold_db == params.threshold_db,
        next.current_params == params,
        next.sample_rate == state.sample_rate,
        next.pre_gain_smooth_coeff == state.pre_gain_smooth_coeff,
        next.rms_detector_coeff == state.rms_detector_coeff,
        next.peak_attack_coeff == state.peak_attack_coeff,
        next.peak_threshold_linear == state.peak_threshold_linear,
        next.fullband_rms == state.fullband_rms,
        next.peak_hold_gain == state.peak_hold_gain,
        next.peak_hold_counter == state.peak_hold_counter,
        next.last_parameter_version == state.last_parameter_version,
{
}

/// A limiter that has just been made starts at 48000 frames a second, smooths its pre-gain over
/// 20 milliseconds and its level over 10, lets the gain of the peak fall within one, and has every
/// setting in its own place. It has heard nothing and takes nothing away.
pub proof fn law_fresh_limiter_has_its_times<A: Arithmetic>(
    limiter: LimiterState,
    params: LimiterParams,
)
    requires
        limiter.fresh::<A>(params),
    ensures
        coefficient_is::<A>(20, limiter.sample_rate, limiter.pre_gain_smooth_coeff),
        coefficient_is::<A>(10, limiter.sample_rate, limiter.rms_detector_coeff),
        coefficient_is::<A>(1, limiter.sample_rate, limiter.peak_attack_coeff),
        coefficient_is::<A>(params.attack_ms, limiter.sample_rate, limiter.attack_coeff),
        coefficient_is::<A>(params.release_ms, limiter.sample_rate, limiter.release_coeff),
        coefficient_is::<A>(
            params.peak_release_ms,
            limiter.sample_rate,
            limiter.peak_release_coeff,
        ),
        linear_is::<A>(params.pre_gain_db, limiter.pre_gain_smoother),
        limiter.pre_gain_target_linear == limiter.pre_gain_smoother,
        limiter.threshold_db == params.threshold_db,
        limiter.fullband_rms == single(ZERO),
        limiter.gain_smoother == single(ONE),
        limiter.peak_gain_smoother == single(ONE),
        limiter.peak_hold_gain == single(ONE),
        limiter.peak_hold_counter == 0,
        exists|time: Single, n: usize|
            #![trigger integer_is::<A>(5, time), crate::limiter::frames_in_is::<A>(limiter.sample_rate, time, n)]
            {
                &&& integer_is::<A>(5, time)
                &&& crate::limiter::frames_in_is::<A>(limiter.sample_rate, time, n)
                &&& limiter.delayed_left.len() == n
                &&& limiter.delayed_right.len() == n
            },
{
    let n = choose|n: usize| #[trigger]
        crate::limiter::lookahead_is::<A>(5, limiter.sample_rate, n) && {
            &&& limiter.delayed_left == crate::limiter::silence(n as nat)
            &&& limiter.delayed_right == crate::limiter::silence(n as nat)
        };
}

/// A limiter that is made ready for another rate has the same times at the new rate, keeps its
/// gains, the level and the pre-gain, and starts with silence and without a hold.
pub proof fn law_resampled_limiter_keeps_its_times<A: Arithmetic>(
    state: LimiterState,
    rate: Single,
    next: LimiterState,
)
    requires
        state.resampled::<A>(rate, next),
        state.current_params.usable(),
    ensures
        next.sample_rate == rate,
        next.current_params == state.current_params,
        coefficient_is::<A>(20, rate, next.pre_gain_smooth_coeff),
        coefficient_is::<A>(10, rate, next.rms_detector_coeff),
        coefficient_is::<A>(1, rate, next.peak_attack_coeff),
        coefficient_is::<A>(state.current_params.attack_ms, rate, next.attack_coeff),
        coefficient_is::<A>(state.current_params.release_ms, rate, next.release_coeff),
        coefficient_is::<A>(state.current_params.peak_release_ms, rate, next.peak_release_coeff),
        linear_is::<A>(state.current_params.pre_gain_db, next.pre_gain_target_linear),
        next.threshold_db == state.current_params.threshold_db,
        next.pre_gain_smoother == state.pre_gain_smoother,
        next.fullband_rms == state.fullband_rms,
        next.gain_smoother == state.gain_smoother,
        next.peak_gain_smoother == state.peak_gain_smoother,
        next.peak_threshold_linear == state.peak_threshold_linear,
        next.peak_hold_gain == single(ONE),
        next.peak_hold_counter == 0,
        forall|i: int|
            0 <= i < next.delayed_left.len() ==> #[trigger] next.delayed_left[i] == single(ZERO),
        forall|i: int|
            0 <= i < next.delayed_right.len() ==> #[trigger] next.delayed_right[i] == single(ZERO),
{
    crate::config::law_cleaning_params(state.current_params);
}

/// What a level asks for: below the knee nothing is taken away, and above it the level comes down to
/// the threshold of the settings. The knee is six decibels wide, three to each side.
pub proof fn law_level_comes_down_to_the_threshold<A: Arithmetic>(
    state: LimiterState,
    left: Single,
    right: Single,
    trace: FrameTrace,
    next: LimiterState,
    output: (Single, Single),
    start: Single,
    end: Single,
    width: Single,
)
    requires
        answers_alike::<A>(),
        crate::limiter::rounds_in_order::<A>(),
        state.processes::<A>(left, right, trace, next, output),
        crate::limiter::knee_parts_are::<A>(
            state.threshold_db,
            single(0x40c0_0000),
            start,
            end,
            width,
        ),
        state.threshold_db.finite() && start.finite() && end.finite() && width.finite(),
        start.below(state.threshold_db) && state.threshold_db.below(end) && single(ZERO).below(
            width,
        ),
        trace.rms_db.finite(),
    ensures
        trace.rms_db.at_most(start) ==> trace.rms_target == single(ONE),
        end.at_most(trace.rms_db) ==> exists|reduction: Single| #[trigger]
            difference_is::<A>(state.threshold_db, trace.rms_db, reduction) && linear_is::<A>(
                reduction,
                trace.rms_target,
            ),
        unit(trace.rms_target),
{
    crate::limiter::law_soft_knee::<A>(
        trace.rms_db,
        trace.rms_db,
        state.threshold_db,
        single(0x40c0_0000),
        start,
        end,
        width,
        trace.rms_target,
        trace.rms_target,
    );
}

/// The hold: a peak beyond the ceiling takes the held gain down to what it asks for or leaves it
/// lower, and starts the time anew; other frames count the time down and keep what is held, and once
/// it has run out nothing is held.
pub proof fn law_hold_counts_down<A: Arithmetic>(
    state: LimiterState,
    left: Single,
    right: Single,
    trace: FrameTrace,
    next: LimiterState,
    output: (Single, Single),
)
    requires
        state.processes::<A>(left, right, trace, next, output),
        trace.boosted_left.finite(),
        trace.boosted_right.finite(),
        single(ZERO).below(state.peak_threshold_linear),
        unit(state.peak_hold_gain),
        forall|a: Single, b: Single, r: Single| #[trigger]
            quotient_is::<A>(a, b, r) && single(ZERO).below(b) && b.finite() && b.at_most(a)
                ==> single(ONE).at_most(r),
        forall|a: Single, b: Single, r: Single| #[trigger]
            quotient_is::<A>(a, b, r) && single(ZERO).below(a) && a.below(b) ==> r.below(
                single(ONE),
            ),
    ensures
        ({
            let quiet = trace.boosted_left.absolute().at_most(state.peak_threshold_linear)
                && trace.boosted_right.absolute().at_most(state.peak_threshold_linear);
            &&& quiet && state.peak_hold_counter > 0 ==> {
                &&& next.peak_hold_gain == state.peak_hold_gain
                &&& next.peak_hold_counter == state.peak_hold_counter - 1
            }
            &&& quiet && state.peak_hold_counter == 0 ==> {
                &&& next.peak_hold_gain == single(ONE)
                &&& next.peak_hold_counter == 0
            }
            &&& !quiet ==> {
                &&& next.peak_hold_gain.at_most(state.peak_hold_gain)
                &&& next.peak_hold_gain.below(single(ONE))
                &&& next.peak_hold_counter == state.delayed_left.len()
            }
        }),
{
    let peak = trace.peak();
    assert(peak.finite());
    if peak.at_most(state.peak_threshold_linear) {
        assert(!trace.peak_target().below(single(ONE)));
    } else {
        assert(trace.peak_target().below(single(ONE)));
    }
}

/// The frames in a time: where the host answers the product of rate and time, its thousandth and the
/// rounding of that with `count`, there are so many frames, but never none.
pub proof fn law_frames_are_a_thousandth_of_rate_and_time<A: Arithmetic>(
    rate: Single,
    time: Single,
    count: u64,
    n: usize,
)
    requires
        forall|scaled: Single, frames: Single, r: u64|
            #![trigger product_is::<A>(rate, time, scaled), quotient_is::<A>(scaled, single(THOUSAND), frames), crate::arithmetic::rounded_is::<A>(frames, r)]
            product_is::<A>(rate, time, scaled) && quotient_is::<A>(
                scaled,
                single(THOUSAND),
                frames,
            ) && crate::arithmetic::rounded_is::<A>(frames, r) ==> r == count,
        crate::limiter::frames_in_is::<A>(rate, time, n),
        count <= usize::MAX,
    ensures
        count >= 1 ==> n == count,
        count == 0 ==> n == 1,
{
}

} // verus!
