//! Limiting everything that goes through a virtual sound card: samples from the recording
//! end are scaled by one gain for each callback and put into a ring, from which the output
//! device is filled.

use vstd::prelude::*;

use crate::arithmetic::{
    answers_alike, difference_is, integer_is, knows_one_and_zero, logarithm_is, product_is,
    quotient_is, square_root_is, sum_is, truncated_is, Arithmetic,
};
use crate::geometry::TARGET_RING_LATENCY_MS;
use crate::limiter::{machine_size, to_machine_size, ONE, THOUSAND, TWENTY, ZERO};
use crate::modes::config::Access;
use crate::modes::limiter::{law_quiet_sound_keeps_full_gain, LoudnessLimiter, LOWEST_LEVEL};
use crate::playback::{lemma_served_on, served};
use crate::ring::{
    answers, largest_ring, levels, new_ring, offers, one_ring, ring_fits, room, sink_goes_on,
    sink_in_order, source_goes_on, source_in_order, visible, FrameBits, FrameSink, FrameSource,
};
use crate::single::{single, Single};

verus! {

/// `samples` is an answer for the number of samples that the latency takes.
pub open spec fn latency_is<A: Arithmetic>(rate: Single, channels: u16, samples: int) -> bool {
    exists|seconds: Single, frames: Single, count: u64|
        #![trigger quotient_is::<A>(single(TARGET_RING_LATENCY_MS), single(THOUSAND), seconds), product_is::<A>(seconds, rate, frames), truncated_is::<A>(frames, count)]
        {
            &&& quotient_is::<A>(single(TARGET_RING_LATENCY_MS), single(THOUSAND), seconds)
            &&& product_is::<A>(seconds, rate, frames)
            &&& truncated_is::<A>(frames, count)
            &&& samples == machine_size(count) * channels
        }
}

/// The number of samples that the latency takes, unless a ring of twice as many cannot be.
pub fn latency_samples<A: Arithmetic>(rate: Single, channels: u16) -> (samples: Option<usize>)
    ensures
        match samples {
            Some(samples) => {
                &&& latency_is::<A>(rate, channels, samples as int)
                &&& 0 < 2 * samples <= largest_ring()
            },
            None => exists|samples: int| #[trigger]
                latency_is::<A>(rate, channels, samples) && !(0 < 2 * samples
                    <= largest_ring()),
        },
{
    let seconds = A::quotient(
        Single::from_bits(TARGET_RING_LATENCY_MS),
        Single::from_bits(THOUSAND),
    );
    let frames = A::product(seconds, rate);
    let count: u64 = A::truncated(frames);
    assert(quotient_is::<A>(single(TARGET_RING_LATENCY_MS), single(THOUSAND), seconds));
    assert(product_is::<A>(seconds, rate, frames));
    assert(truncated_is::<A>(frames, count));
    let size: usize = to_machine_size(count);
    let ghost wanted = size * channels;
    assert(latency_is::<A>(rate, channels, wanted));
    match size.checked_mul(channels as usize) {
        None => None,
        Some(samples) => if samples > usize::MAX / 2 || !ring_fits(2 * samples) {
            None
        } else {
            Some(samples)
        },
    }
}

/// Makes the ring and fills half of it with silence. A sample takes the first half of a
/// frame.
pub fn open_cable_ring(latency: usize) -> (ends: (FrameSink, FrameSource))
    requires
        0 < 2 * latency <= largest_ring(),
    ensures
        offers(ends.0) == Seq::new(latency as nat, |i: int| ((ZERO, ZERO), true)),
        room(ends.0) == latency,
        visible(ends.1) == Seq::<FrameBits>::empty(),
        answers(ends.1) == Seq::<Option<FrameBits>>::empty(),
        levels(ends.1) == Seq::<usize>::empty(),
        one_ring(ends.0, ends.1),
        sink_in_order(ends.0),
        source_in_order(ends.1),
{
    let (mut sink, source) = new_ring(2 * latency);
    let mut pushed: usize = 0;
    while pushed < latency
        invariant
            pushed <= latency,
            room(sink) == 2 * latency - pushed,
            one_ring(sink, source),
            sink_in_order(sink),
            offers(sink) == Seq::new(pushed as nat, |i: int| ((ZERO, ZERO), true)),
        decreases latency - pushed,
    {
        let taken = sink.push((ZERO, ZERO));
        pushed = pushed + 1;
        proof {
            assert(offers(sink) =~= Seq::new(pushed as nat, |i: int| ((ZERO, ZERO), true)));
        }
    }
    (sink, source)
}

/// `total` is an answer for `start` and the squares of the samples.
pub open spec fn energy_on_is<A: Arithmetic>(start: Single, data: Seq<Single>, total: Single) -> bool
    decreases data.len(),
{
    if data.len() == 0 {
        total == start
    } else {
        exists|front: Single, square: Single|
            #![trigger product_is::<A>(data.last(), data.last(), square), sum_is::<A>(front, square, total)]
            {
                &&& energy_on_is::<A>(start, data.drop_last(), front)
                &&& product_is::<A>(data.last(), data.last(), square)
                &&& sum_is::<A>(front, square, total)
            }
    }
}

/// `total` is an answer for the sum of the squares of the samples.
pub open spec fn energy_is<A: Arithmetic>(data: Seq<Single>, total: Single) -> bool {
    energy_on_is::<A>(single(ZERO), data, total)
}

/// `rms` is an answer for the level of `count` samples whose squares sum up to `total`; zero
/// where there are none.
pub open spec fn level_is<A: Arithmetic>(total: Single, count: nat, rms: Single) -> bool {
    if count == 0 {
        rms == single(ZERO)
    } else {
        exists|number: Single, mean: Single|
            #![trigger integer_is::<A>(count as u64, number), quotient_is::<A>(total, number, mean)]
            {
                &&& integer_is::<A>(count as u64, number)
                &&& quotient_is::<A>(total, number, mean)
                &&& square_root_is::<A>(mean, rms)
            }
    }
}

/// `rms` is an answer for the level of the samples; zero where there are none.
pub open spec fn rms_is<A: Arithmetic>(data: Seq<Single>, rms: Single) -> bool {
    exists|total: Single| #[trigger]
        energy_is::<A>(data, total) && level_is::<A>(total, data.len(), rms)
}

/// Adds the squares of the samples to `start`. The samples of a callback may be added up in
/// several stretches.
pub fn add_energy<A: Arithmetic>(start: Single, data: &[Single]) -> (total: Single)
    ensures
        energy_on_is::<A>(start, data@, total),
        data@.len() == 0 ==> total == start,
        data@.len() == 1 ==> exists|square: Single| #[trigger]
            product_is::<A>(data@[0], data@[0], square) && sum_is::<A>(start, square, total),
{
    let length: usize = data.len();
    let mut total = start;
    let mut i: usize = 0;
    proof {
        assert(data@.take(0).len() == 0);
    }
    while i < length
        invariant
            length == data@.len(),
            i <= length,
            energy_on_is::<A>(start, data@.take(i as int), total),
        decreases length - i,
    {
        let ghost front = total;
        let square = A::product(data[i], data[i]);
        total = A::sum(total, square);
        proof {
            let longer = data@.take(i + 1);
            assert(longer.drop_last() =~= data@.take(i as int));
            assert(longer.last() == data@[i as int]);
            assert(product_is::<A>(longer.last(), longer.last(), square));
            assert(sum_is::<A>(front, square, total));
        }
        i = i + 1;
    }
    proof {
        assert(data@.take(length as int) =~= data@);
        if length == 1 {
            assert(data@ =~= Seq::<Single>::empty().push(data@[0]));
            law_sample_adds_its_square::<A>(start, Seq::empty(), data@[0], total);
        }
    }
    total
}

/// The level of `count` samples whose squares sum up to `total`.
pub fn level_of<A: Arithmetic>(total: Single, count: usize) -> (rms: Single)
    ensures
        level_is::<A>(total, count as nat, rms),
{
    if count == 0 {
        return Single::from_bits(ZERO);
    }
    let number = A::from_integer(count as u64);
    let mean = A::quotient(total, number);
    assert(integer_is::<A>(count as u64, number));
    assert(quotient_is::<A>(total, number, mean));
    A::square_root(mean)
}

/// `gain` is an answer for the gain of a callback of `count` samples at a level, and `next`
/// is the limiter after it; the samples pass as they are where the limiter is busy.
pub open spec fn gain_at_is<A: Arithmetic>(
    limiter: Option<LoudnessLimiter>,
    rms: Single,
    count: nat,
    gain: Single,
    next: Option<LoudnessLimiter>,
) -> bool {
    match limiter {
        Some(limiter) => limiter.gain_after_is::<A>(rms, count, gain) && next == Some(
            LoudnessLimiter { current_gain: gain, ..limiter },
        ),
        None => gain == single(ONE) && next is None,
    }
}

/// Lets the limiter slide for a callback of `count` samples at a level; gives back the gain
/// of the callback. `limiter` is `None` where it is busy.
pub fn callback_gain<A: Arithmetic>(
    limiter: &mut Option<LoudnessLimiter>,
    rms: Single,
    count: usize,
) -> (gain: Single)
    ensures
        gain_at_is::<A>(*old(limiter), rms, count as nat, gain, *final(limiter)),
{
    match limiter {
        Some(limiter) => limiter.calculate_gain::<A>(rms, count),
        None => Single::from_bits(ONE),
    }
}

/// `gain` is an answer for the gain of a callback with these samples, and `next` is the
/// limiter after it.
pub open spec fn callback_gain_is<A: Arithmetic>(
    limiter: Option<LoudnessLimiter>,
    data: Seq<Single>,
    gain: Single,
    next: Option<LoudnessLimiter>,
) -> bool {
    exists|rms: Single| #[trigger]
        rms_is::<A>(data, rms) && gain_at_is::<A>(limiter, rms, data.len(), gain, next)
}

/// Offers the samples to the ring, scaled by `gain`; gives back whether the ring had no place
/// for some of them. The samples of a callback may be offered in several stretches.
pub fn offer_samples<A: Arithmetic>(sink: &mut FrameSink, data: &[Single], gain: Single) -> (
    fell_behind: bool)
    ensures
        sink_goes_on(*old(sink), *final(sink)),
        offers(*final(sink)).len() == offers(*old(sink)).len() + data@.len(),
        offers(*final(sink)).take(offers(*old(sink)).len() as int) == offers(*old(sink)),
        forall|i: int|
            0 <= i < data@.len() ==> product_is::<A>(
                #[trigger] data@[i],
                gain,
                single(offers(*final(sink))[offers(*old(sink)).len() + i].0.0),
            ),
        fell_behind == exists|i: int|
            offers(*old(sink)).len() <= i < offers(*final(sink)).len() && !(#[trigger] offers(
                *final(sink),
            )[i]).1,
        room(*old(sink)) >= data@.len() ==> !fell_behind && room(*final(sink)) == room(*old(sink))
            - data@.len(),
{
    let ghost first = offers(*sink);
    let mut fell_behind = false;
    let mut i: usize = 0;
    while i < data.len()
        invariant
            i <= data@.len(),
            sink_goes_on(*old(sink), *sink),
            room(*old(sink)) >= data@.len() ==> !fell_behind && room(*sink) == room(*old(sink)) - i,
            offers(*sink).len() == first.len() + i,
            forall|j: int| 0 <= j < first.len() ==> #[trigger] offers(*sink)[j] == first[j],
            forall|j: int|
                0 <= j < i ==> product_is::<A>(
                    #[trigger] data@[j],
                    gain,
                    single(offers(*sink)[first.len() + j].0.0),
                ),
            fell_behind == exists|j: int|
                first.len() <= j < offers(*sink).len() && !(#[trigger] offers(*sink)[j]).1,
        decreases data@.len() - i,
    {
        let ghost earlier = offers(*sink);
        let scaled = A::product(data[i], gain);
        let taken = sink.push((scaled.to_bits(), ZERO));
        proof {
            assert(single(scaled.bits) == scaled);
            assert(product_is::<A>(data@[i as int], gain, scaled));
            assert(forall|j: int|
                0 <= j < earlier.len() ==> #[trigger] offers(*sink)[j] == earlier[j]);
            assert(offers(*sink)[first.len() + i] == ((scaled.bits, ZERO), taken));
        }
        let ghost fell_before = fell_behind;
        if !taken {
            fell_behind = true;
        }
        proof {
            if fell_before {
                let j = choose|j: int|
                    first.len() <= j < earlier.len() && !(#[trigger] earlier[j]).1;
                assert(!offers(*sink)[j].1);
            }
        }
        i = i + 1;
    }
    proof {
        assert(offers(*sink).take(first.len() as int) =~= first);
    }
    fell_behind
}

/// The input side: measures the samples of a callback, lets the limiter slide, and offers
/// the scaled samples to the ring. `limiter` is `None` where it is busy. Gives back whether
/// the ring had no place for some of them.
pub fn capture_samples<A: Arithmetic>(
    limiter: &mut Option<LoudnessLimiter>,
    sink: &mut FrameSink,
    data: &[Single],
) -> (fell_behind: bool)
    ensures
        sink_goes_on(*old(sink), *final(sink)),
        offers(*final(sink)).len() == offers(*old(sink)).len() + data@.len(),
        offers(*final(sink)).take(offers(*old(sink)).len() as int) == offers(*old(sink)),
        exists|gain: Single|
            {
                &&& #[trigger] callback_gain_is::<A>(*old(limiter), data@, gain, *final(limiter))
                &&& forall|i: int|
                    0 <= i < data@.len() ==> product_is::<A>(
                        #[trigger] data@[i],
                        gain,
                        single(offers(*final(sink))[offers(*old(sink)).len() + i].0.0),
                    )
            },
        fell_behind == exists|i: int|
            offers(*old(sink)).len() <= i < offers(*final(sink)).len() && !(#[trigger] offers(
                *final(sink),
            )[i]).1,
        room(*old(sink)) >= data@.len() ==> !fell_behind && room(*final(sink)) == room(*old(sink))
            - data@.len(),
{
    let total = add_energy::<A>(Single::from_bits(ZERO), data);
    let rms = level_of::<A>(total, data.len());
    let gain = callback_gain::<A>(limiter, rms, data.len());
    proof {
        assert(energy_is::<A>(data@, total));
        assert(rms_is::<A>(data@, rms));
        assert(callback_gain_is::<A>(*old(limiter), data@, gain, *limiter));
    }
    offer_samples::<A>(sink, data, gain)
}

/// Samples that are added up in two stretches are added up like one.
pub proof fn law_energy_adds_up<A: Arithmetic>(
    start: Single,
    first: Seq<Single>,
    second: Seq<Single>,
    middle: Single,
    total: Single,
)
    requires
        energy_on_is::<A>(start, first, middle),
        energy_on_is::<A>(middle, second, total),
    ensures
        energy_on_is::<A>(start, first + second, total),
    decreases second.len(),
{
    let all = first + second;
    if second.len() == 0 {
        assert(all =~= first);
    } else {
        let (front, square) = choose|front: Single, square: Single|
            #![trigger product_is::<A>(second.last(), second.last(), square), sum_is::<A>(front, square, total)]
            {
                &&& energy_on_is::<A>(middle, second.drop_last(), front)
                &&& product_is::<A>(second.last(), second.last(), square)
                &&& sum_is::<A>(front, square, total)
            };
        law_energy_adds_up::<A>(start, first, second.drop_last(), middle, front);
        assert(all.drop_last() =~= first + second.drop_last());
        assert(all.last() == second.last());
        assert(product_is::<A>(all.last(), all.last(), square));
        assert(sum_is::<A>(front, square, total));
    }
}

/// A sample adds its own square, whatever its sign, to what was added up before it.
pub proof fn law_sample_adds_its_square<A: Arithmetic>(
    start: Single,
    data: Seq<Single>,
    sample: Single,
    total: Single,
)
    requires
        energy_on_is::<A>(start, data.push(sample), total),
    ensures
        exists|front: Single, square: Single|
            #![trigger product_is::<A>(sample, sample, square), sum_is::<A>(front, square, total)]
            {
                &&& energy_on_is::<A>(start, data, front)
                &&& product_is::<A>(sample, sample, square)
                &&& sum_is::<A>(front, square, total)
            },
        data.len() == 0 ==> exists|square: Single| #[trigger]
            product_is::<A>(sample, sample, square) && sum_is::<A>(start, square, total),
{
    let all = data.push(sample);
    assert(all.drop_last() =~= data);
    assert(all.last() == sample);
    if data.len() == 0 {
        let (front, square) = choose|front: Single, square: Single|
            #![trigger product_is::<A>(all.last(), all.last(), square), sum_is::<A>(front, square, total)]
            {
                &&& energy_on_is::<A>(start, all.drop_last(), front)
                &&& product_is::<A>(all.last(), all.last(), square)
                &&& sum_is::<A>(front, square, total)
            };
        assert(front == start);
        assert(product_is::<A>(sample, sample, square));
    }
}

/// `total` is an answer for `part` added `count` times to nothing.
pub open spec fn repeated_is<A: Arithmetic>(part: Single, count: nat, total: Single) -> bool
    decreases count,
{
    if count == 0 {
        total == single(ZERO)
    } else {
        exists|front: Single| #[trigger]
            sum_is::<A>(front, part, total) && repeated_is::<A>(part, (count - 1) as nat, front)
    }
}

/// The host's arithmetic averages `count` numbers at the distance `distance` from zero without
/// rounding: their square does not depend on the sign, and the root of the mean of the squares
/// is the distance again.
pub open spec fn averages_exactly<A: Arithmetic>(distance: Single, count: nat) -> bool {
    &&& forall|sample: Single, square: Single| #[trigger]
        product_is::<A>(sample, sample, square) && sample.absolute() == distance
            ==> product_is::<A>(distance, distance, square)
    &&& forall|square: Single, total: Single, number: Single, mean: Single, root: Single|
        #![trigger product_is::<A>(distance, distance, square), repeated_is::<A>(square, count, total), integer_is::<A>(count as u64, number), quotient_is::<A>(total, number, mean), square_root_is::<A>(mean, root)]
        product_is::<A>(distance, distance, square) && repeated_is::<A>(square, count, total)
            && integer_is::<A>(count as u64, number) && quotient_is::<A>(total, number, mean)
            && square_root_is::<A>(mean, root) ==> root == distance
}

proof fn lemma_even_energy<A: Arithmetic>(data: Seq<Single>, distance: Single, square: Single, total: Single)
    requires
        answers_alike::<A>(),
        forall|sample: Single, square: Single| #[trigger]
            product_is::<A>(sample, sample, square) && sample.absolute() == distance
                ==> product_is::<A>(distance, distance, square),
        product_is::<A>(distance, distance, square),
        forall|i: int| 0 <= i < data.len() ==> (#[trigger] data[i]).absolute() == distance,
        energy_is::<A>(data, total),
    ensures
        repeated_is::<A>(square, data.len(), total),
    decreases data.len(),
{
    if data.len() > 0 {
        let (front, last_square) = choose|front: Single, square: Single|
            #![trigger product_is::<A>(data.last(), data.last(), square), sum_is::<A>(front, square, total)]
            {
                &&& energy_on_is::<A>(single(ZERO), data.drop_last(), front)
                &&& product_is::<A>(data.last(), data.last(), square)
                &&& sum_is::<A>(front, square, total)
            };
        assert(data.last() == data[data.len() - 1]);
        assert(product_is::<A>(distance, distance, last_square));
        assert(last_square == square);
        assert(forall|i: int|
            0 <= i < data.drop_last().len() ==> #[trigger] data.drop_last()[i] == data[i]);
        lemma_even_energy::<A>(data.drop_last(), distance, square, front);
        assert(sum_is::<A>(front, square, total));
    }
}

/// The level of samples that all have the same distance from zero is that distance, whatever
/// their signs.
pub proof fn law_level_of_even_sound_is_its_distance<A: Arithmetic>(
    data: Seq<Single>,
    distance: Single,
    rms: Single,
)
    requires
        answers_alike::<A>(),
        averages_exactly::<A>(distance, data.len()),
        data.len() > 0,
        forall|i: int| 0 <= i < data.len() ==> (#[trigger] data[i]).absolute() == distance,
        rms_is::<A>(data, rms),
    ensures
        rms == distance,
{
    let total = choose|total: Single| #[trigger]
        energy_is::<A>(data, total) && level_is::<A>(total, data.len(), rms);
    let (number, mean) = choose|number: Single, mean: Single|
        #![trigger integer_is::<A>(data.len() as u64, number), quotient_is::<A>(total, number, mean)]
        {
            &&& integer_is::<A>(data.len() as u64, number)
            &&& quotient_is::<A>(total, number, mean)
            &&& square_root_is::<A>(mean, rms)
        };
    let (front, square) = choose|front: Single, square: Single|
        #![trigger product_is::<A>(data.last(), data.last(), square), sum_is::<A>(front, square, total)]
        {
            &&& energy_on_is::<A>(single(ZERO), data.drop_last(), front)
            &&& product_is::<A>(data.last(), data.last(), square)
            &&& sum_is::<A>(front, square, total)
        };
    assert(data.last() == data[data.len() - 1]);
    assert(product_is::<A>(distance, distance, square));
    lemma_even_energy::<A>(data, distance, square, total);
}

/// Sound at or below the threshold passes as it is: while the gain is one, a callback of samples
/// that all lie at the same distance from zero, a distance whose decibels are not above the
/// threshold, has the gain one, the limiter stays as it is, and every sample that is scaled by
/// that gain is the sample itself.
pub proof fn law_quiet_callback_passes<A: Arithmetic>(
    limiter: LoudnessLimiter,
    data: Seq<Single>,
    distance: Single,
    gain: Single,
    next: Option<LoudnessLimiter>,
)
    requires
        answers_alike::<A>(),
        knows_one_and_zero::<A>(),
        averages_exactly::<A>(distance, data.len()),
        data.len() > 0,
        forall|i: int| 0 <= i < data.len() ==> (#[trigger] data[i]).absolute() == distance,
        single(LOWEST_LEVEL).at_most(distance),
        limiter.current_gain == single(ONE),
        limiter.cached_threshold_db.finite(),
        // Twenty times the logarithm is not above the threshold.
        forall|log: Single, db: Single|
            #![trigger logarithm_is::<A>(distance, log), product_is::<A>(single(TWENTY), log, db)]
            logarithm_is::<A>(distance, log) && product_is::<A>(single(TWENTY), log, db)
                ==> db.finite() && db.at_most(limiter.cached_threshold_db),
        forall|a: Single, b: Single, r: Single| #[trigger]
            difference_is::<A>(a, b, r) && a.finite() && b.finite() && a.at_most(b)
                ==> r.at_most(single(ZERO)),
        callback_gain_is::<A>(Some(limiter), data, gain, next),
    ensures
        gain == single(ONE),
        next == Some(limiter),
        forall|sample: Single, scaled: Single| #[trigger]
            product_is::<A>(sample, gain, scaled) && !sample.nan() ==> scaled == sample,
{
    let rms = choose|rms: Single| #[trigger]
        rms_is::<A>(data, rms) && gain_at_is::<A>(Some(limiter), rms, data.len(), gain, next);
    law_level_of_even_sound_is_its_distance::<A>(data, distance, rms);
    assert(distance.greater(single(LOWEST_LEVEL)).same(distance));
    assert(distance.greater(single(LOWEST_LEVEL)) == distance);
    law_quiet_sound_keeps_full_gain::<A>(limiter, distance, data.len(), gain);
}

/// The sample that the ring gave, or silence.
pub open spec fn sample_of(answer: Option<FrameBits>) -> Single {
    match answer {
        Some(frame) => single(frame.0),
        None => single(ZERO),
    }
}

/// The output side: fills the buffer of a callback from the ring, one sample for each
/// answer. Gives back whether the ring ran dry.
pub fn play_samples(source: &mut FrameSource, out: &mut [Single]) -> (fell_behind: bool)
    ensures
        final(out)@.len() == old(out)@.len(),
        source_goes_on(*old(source), *final(source)),
        levels(*final(source)) == levels(*old(source)),
        answers(*final(source)).len() == answers(*old(source)).len() + old(out)@.len(),
        answers(*final(source)).take(answers(*old(source)).len() as int) == answers(*old(source)),
        forall|i: int|
            0 <= i < old(out)@.len() ==> #[trigger] final(out)@[i] == sample_of(
                answers(*final(source))[answers(*old(source)).len() + i],
            ),
        fell_behind == exists|i: int|
            answers(*old(source)).len() <= i < answers(*final(source)).len()
                && (#[trigger] answers(*final(source))[i]) is None,
        served(
            visible(*old(source)),
            answers(*final(source)).skip(answers(*old(source)).len() as int),
            visible(*final(source)),
        ),
        old(out)@.len() <= visible(*old(source)).len() ==> !fell_behind,
{
    let length: usize = out.len();
    let ghost first = answers(*source);
    let ghost looked = levels(*source);
    let ghost seen = visible(*source);
    proof {
        assert(first.skip(first.len() as int) =~= Seq::empty());
        assert(seen.skip(0) =~= seen);
    }
    let mut fell_behind = false;
    let mut i: usize = 0;
    while i < length
        invariant
            length == out@.len(),
            length == old(out)@.len(),
            i <= length,
            source_goes_on(*old(source), *source),
            served(seen, answers(*source).skip(first.len() as int), visible(*source)),
            levels(*source) == looked,
            answers(*source).len() == first.len() + i,
            forall|j: int| 0 <= j < first.len() ==> #[trigger] answers(*source)[j] == first[j],
            forall|j: int|
                0 <= j < i ==> #[trigger] out@[j] == sample_of(answers(*source)[first.len() + j]),
            fell_behind == exists|j: int|
                first.len() <= j < answers(*source).len() && (#[trigger] answers(*source)[j])
                    is None,
        decreases length - i,
    {
        let ghost earlier = answers(*source);
        let ghost fell_before = fell_behind;
        let ghost seen_now = visible(*source);
        let answer = source.pop();
        proof {
            let taken = earlier.skip(first.len() as int);
            if seen_now.len() > 0 {
                assert(seen_now.skip(1) =~= seen_now.drop_first());
            }
            lemma_served_on(seen, taken, seen_now, seq![answer], visible(*source));
            assert(answers(*source).skip(first.len() as int) =~= taken + seq![answer]);
            assert(forall|j: int|
                0 <= j < earlier.len() ==> #[trigger] answers(*source)[j] == earlier[j]);
            assert(answers(*source)[first.len() + i] == answer);
        }
        out[i] = match answer {
            Some(frame) => Single::from_bits(frame.0),
            None => {
                fell_behind = true;
                Single::from_bits(ZERO)
            },
        };
        proof {
            if fell_before {
                let j = choose|j: int|
                    first.len() <= j < earlier.len() && (#[trigger] earlier[j]) is None;
                assert(answers(*source)[j] is None);
            }
        }
        i = i + 1;
    }
    proof {
        assert(answers(*source).take(first.len() as int) =~= first);
        let taken = answers(*source).skip(first.len() as int);
        assert(forall|i: int|
            first.len() <= i < answers(*source).len() ==> #[trigger] answers(*source)[i]
                == taken[i - first.len()]);
    }
    fell_behind
}

/// What a loop that runs as long as limiting is on does next.
#[derive(Clone, Copy, Debug, PartialEq, Eq, Structural)]
pub enum LoopStep {
    /// Somebody else is at the state: sleep for so many milliseconds and look again.
    Retry(u64),
    Stop,
    GoOn,
}

/// How long to sleep where somebody else is at the state, in milliseconds.
pub const BUSY_RETRY_MS: u64 = 10;

/// How often the cable loop takes over the settings, in seconds.
pub const TUNING_INTERVAL_SECONDS: u64 = 1;

/// What a loop does where looking at `is_limiting` came to this.
pub open spec fn loop_step(is_limiting: Access<bool>) -> LoopStep {
    match is_limiting {
        Access::Granted(limiting) => if limiting {
            LoopStep::GoOn
        } else {
            LoopStep::Stop
        },
        Access::Busy => LoopStep::Retry(BUSY_RETRY_MS),
        Access::Poisoned => LoopStep::Stop,
    }
}

/// Decides whether a loop goes on, from what looking at `is_limiting` came to.
pub fn should_continue(is_limiting: Access<bool>) -> (step: LoopStep)
    ensures
        step == (match is_limiting {
            Access::Granted(true) => LoopStep::GoOn,
            Access::Granted(false) => LoopStep::Stop,
            Access::Busy => LoopStep::Retry(BUSY_RETRY_MS),
            Access::Poisoned => LoopStep::Stop,
        }),
        step == loop_step(is_limiting),
{
    match is_limiting {
        Access::Granted(limiting) => if limiting {
            LoopStep::GoOn
        } else {
            LoopStep::Stop
        },
        Access::Busy => LoopStep::Retry(BUSY_RETRY_MS),
        Access::Poisoned => LoopStep::Stop,
    }
}

/// The latency is the same for every channel: so many channels take so many times the samples of
/// one.
pub proof fn law_latency_grows_with_channels<A: Arithmetic>(
    rate: Single,
    channels: u16,
    samples: int,
    one: int,
)
    requires
        answers_alike::<A>(),
        forall|a: Single, r: u64, q: u64| #[trigger]
            truncated_is::<A>(a, r) && #[trigger] truncated_is::<A>(a, q) ==> r == q,
        latency_is::<A>(rate, channels, samples),
        latency_is::<A>(rate, 1, one),
    ensures
        samples == channels * one,
{
    let (seconds, frames, count) = choose|seconds: Single, frames: Single, count: u64|
        #![trigger quotient_is::<A>(single(TARGET_RING_LATENCY_MS), single(THOUSAND), seconds), product_is::<A>(seconds, rate, frames), truncated_is::<A>(frames, count)]
        {
            &&& quotient_is::<A>(single(TARGET_RING_LATENCY_MS), single(THOUSAND), seconds)
            &&& product_is::<A>(seconds, rate, frames)
            &&& truncated_is::<A>(frames, count)
            &&& samples == machine_size(count) * channels
        };
    assert(one == machine_size(count) * 1);
    assert(machine_size(count) * channels == channels * machine_size(count)) by (nonlinear_arith);
}

/// A sample comes out of the ring as the bits that went in, and an empty ring gives silence.
pub proof fn law_ring_gives_samples_or_silence(frame: FrameBits)
    ensures
        sample_of(Some(frame)).bits == frame.0,
        sample_of(None).bits == 0,
{
}

/// A busy limiter lets everything pass and stays busy; another one keeps all but its gain, which is
/// the gain of the callback.
pub proof fn law_callback_moves_only_the_gain<A: Arithmetic>(
    limiter: Option<LoudnessLimiter>,
    data: Seq<Single>,
    gain: Single,
    next: Option<LoudnessLimiter>,
)
    requires
        callback_gain_is::<A>(limiter, data, gain, next),
    ensures
        limiter is None ==> gain == single(ONE) && next is None,
        limiter is Some ==> next is Some && next->0.current_gain == gain && next->0 == (
        LoudnessLimiter { current_gain: gain, ..limiter->0 }),
{
}

/// A loop goes on only where it could see that limiting is on, and ends only where it could see that
/// it is off or where nobody can see it any more; while somebody else is at the state it sleeps for
/// ten milliseconds.
pub proof fn law_loops_run_while_limiting_is_on(is_limiting: Access<bool>)
    ensures
        loop_step(is_limiting) == LoopStep::GoOn <==> is_limiting == Access::Granted(true),
        loop_step(is_limiting) == LoopStep::Stop <==> is_limiting == Access::Granted(false)
            || is_limiting is Poisoned,
        loop_step(is_limiting) == LoopStep::Retry(10) <==> is_limiting is Busy,
{
}

/// The latency takes as many samples of each channel as there are whole frames in it. Let the host
/// count `count` whole frames.
pub proof fn law_latency_counts_whole_frames<A: Arithmetic>(
    rate: Single,
    channels: u16,
    count: u64,
    samples: int,
)
    requires
        forall|seconds: Single, frames: Single, r: u64|
            #![trigger quotient_is::<A>(single(0x4316_0000), single(THOUSAND), seconds), product_is::<A>(seconds, rate, frames), truncated_is::<A>(frames, r)]
            quotient_is::<A>(single(0x4316_0000), single(THOUSAND), seconds) && product_is::<A>(
                seconds,
                rate,
                frames,
            ) && truncated_is::<A>(frames, r) ==> r == count,
        latency_is::<A>(rate, channels, samples),
        count <= usize::MAX,
    ensures
        samples == count * channels,
{
}

/// No samples at all have the level of silence.
pub proof fn law_nothing_is_silent<A: Arithmetic>(total: Single, rms: Single)
    requires
        level_is::<A>(total, 0, rms),
    ensures
        rms.bits == 0,
{
}

} // verus!
