//! The input side of an audio session: frames from the input device through the limiter
//! into the ring.

use vstd::prelude::*;

use crate::arithmetic::{
    integer_is, knows_one_and_zero, product_is, quotient_is, Arithmetic,
};
use crate::limiter::{FrameRun, FrameTrace, LimiterState, LoudnessLimiter, ONE, ZERO};
use crate::recorder::capture::{begin_input_callback, end_input_callback};
use crate::recorder::cells::{add_dropped_frames, wrapped_sum, RecorderCells};
use crate::recorder::session::RealtimeRecorder;
use crate::ring::{offers, room, room_sufficed, sink_goes_on, FrameBits, FrameSink};
use crate::runtime_params::RuntimeLimiterParams;
use crate::single::{single, Single};

verus! {

/// The frames of interleaved samples; a sample without a partner is left out.
pub open spec fn frames_in_samples(data: Seq<Single>) -> Seq<(Single, Single)> {
    Seq::new(data.len() / 2, |i: int| (data[2 * i], data[2 * i + 1]))
}

/// `gain` is an answer for how much of frame `index` passes while `total` frames are faded
/// in.
pub open spec fn fade_gain_is<A: Arithmetic>(index: usize, total: usize, gain: Single) -> bool {
    exists|step: Single, steps: Single|
        #![trigger integer_is::<A>((index + 1) as u64, step), integer_is::<A>(total as u64, steps)]
        {
            &&& integer_is::<A>((index + 1) as u64, step)
            &&& integer_is::<A>(total as u64, steps)
            &&& quotient_is::<A>(step, steps, gain)
        }
}

/// `frame` is an answer for frame `index` where `total` frames are faded in; later frames
/// pass as they are.
pub open spec fn faded_is<A: Arithmetic>(
    index: usize,
    total: usize,
    sample: (Single, Single),
    frame: FrameBits,
) -> bool {
    if index < total {
        exists|gain: Single| #[trigger]
            fade_gain_is::<A>(index, total, gain) && product_is::<A>(
                sample.0,
                gain,
                single(frame.0),
            ) && product_is::<A>(sample.1, gain, single(frame.1))
    } else {
        frame == (sample.0.bits, sample.1.bits)
    }
}

/// How many of the offered frames the ring refused.
pub open spec fn refused(offered: Seq<(FrameBits, bool)>) -> nat
    decreases offered.len(),
{
    if offered.len() == 0 {
        0
    } else if offered.last().1 {
        refused(offered.drop_last())
    } else {
        refused(offered.drop_last()) + 1
    }
}

proof fn lemma_none_refused(offered: Seq<(FrameBits, bool)>)
    requires
        forall|i: int| 0 <= i < offered.len() ==> (#[trigger] offered[i]).1,
    ensures
        refused(offered) == 0,
    decreases offered.len(),
{
    if offered.len() > 0 {
        assert(offered.last() == offered[offered.len() - 1]);
        let front = offered.drop_last();
        assert(forall|i: int| 0 <= i < front.len() ==> #[trigger] front[i] == offered[i]);
        lemma_none_refused(front);
    }
}

/// The input side.
pub struct Capture {
    pub limiter: LoudnessLimiter,
    /// The writing end of the ring to the output side.
    pub producer: FrameSink,
    /// The writing end of the recorder's ring, where there is a recorder.
    pub recorder: Option<RealtimeRecorder>,
    pub fade_frames: usize,
    /// How many frames have been faded in.
    pub fade_index: usize,
}

/// How many frames have been faded in after `count` more.
pub open spec fn fade_after(index: usize, total: usize, count: int) -> usize {
    if index >= total {
        index
    } else if index + count >= total {
        total
    } else {
        (index + count) as usize
    }
}

/// What one callback of samples does to the input side.
pub struct CaptureRun {
    /// What the limiter makes of the frames.
    pub run: FrameRun,
    /// What the ring was offered.
    pub offered: Seq<(FrameBits, bool)>,
    /// What the recorder's ring was offered.
    pub recorded: Seq<(FrameBits, bool)>,
}

impl CaptureRun {
    /// The frames of `data` go through the limiter one by one, are faded in and offered to
    /// the ring; before that they are offered to the recorder's ring as they came, if a
    /// recording is under way.
    pub open spec fn valid<A: Arithmetic>(
        self,
        data: Seq<Single>,
        fade_index: usize,
        fade_frames: usize,
        recording: bool,
    ) -> bool {
        let frames = frames_in_samples(data);
        &&& self.run.valid::<A>()
        &&& self.run.inputs == frames
        &&& self.offered.len() == frames.len()
        &&& forall|i: int|
            0 <= i < frames.len() ==> faded_is::<A>(
                fade_after(fade_index, fade_frames, i),
                fade_frames,
                self.run.outputs[i],
                (#[trigger] self.offered[i]).0,
            )
        &&& self.recorded.len() == (if recording {
            frames.len()
        } else {
            0
        })
        &&& recording ==> forall|i: int|
            0 <= i < frames.len() ==> (#[trigger] self.recorded[i]).0 == (
                frames[i].0.bits,
                frames[i].1.bits,
            )
    }
}

impl Capture {
    pub open spec fn wf(&self) -> bool {
        self.limiter.wf()
    }

    /// A capture that is about to hand frames to the recorder.
    pub open spec fn records(&self, recording: bool) -> bool {
        recording && self.recorder is Some
    }

    /// `next` is `self` after a callback that went as `run` says.
    pub open spec fn advanced(&self, run: CaptureRun, recording: bool, next: &Capture) -> bool {
        &&& run.run.states[0] == self.limiter@
        &&& run.run.states.last() == next.limiter@
        &&& offers(next.producer) == offers(self.producer) + run.offered
        &&& sink_goes_on(self.producer, next.producer)
        &&& room_sufficed(self.producer, run.offered, next.producer)
        &&& next.fade_frames == self.fade_frames
        &&& next.fade_index == fade_after(
            self.fade_index,
            self.fade_frames,
            run.offered.len() as int,
        )
        &&& next.recorder is Some == self.recorder is Some
        &&& self.records(recording) ==> {
            &&& offers(next.recorder->0.producer) == offers(self.recorder->0.producer)
                + run.recorded
            &&& sink_goes_on(self.recorder->0.producer, next.recorder->0.producer)
            &&& room_sufficed(
                self.recorder->0.producer,
                run.recorded,
                next.recorder->0.producer,
            )
        }
        &&& !self.records(recording) ==> next.recorder == self.recorder
    }

    /// The input side of a session that begins.
    pub fn new(
        limiter: LoudnessLimiter,
        producer: FrameSink,
        recorder: Option<RealtimeRecorder>,
        fade_frames: usize,
    ) -> (capture: Capture)
        requires
            limiter.wf(),
        ensures
            capture.wf(),
            capture.limiter == limiter,
            capture.producer == producer,
            capture.recorder == recorder,
            capture.fade_frames == fade_frames,
            capture.fade_index == 0,
    {
        Capture { limiter, producer, recorder, fade_frames, fade_index: 0 }
    }

    /// Deals with the samples of one callback; gives back how many frames the recorder's
    /// ring had no place for.
    pub fn process<A: Arithmetic>(&mut self, data: &[Single], recording: bool) -> (dropped: u64)
        requires
            old(self).wf(),
        ensures
            final(self).wf(),
            exists|run: CaptureRun|
                {
                    &&& #[trigger] run.valid::<A>(
                        data@,
                        old(self).fade_index,
                        old(self).fade_frames,
                        old(self).records(recording),
                    )
                    &&& old(self).advanced(run, recording, final(self))
                    &&& dropped == refused(run.recorded)
                },
            // Nothing is dropped while the recorder's ring has room, or where none is asked.
            !old(self).records(recording) ==> dropped == 0,
            old(self).records(recording) && room(old(self).recorder->0.producer) >= data@.len() / 2
                ==> dropped == 0,
    {
        let count: usize = data.len() / 2;
        let ghost frames = frames_in_samples(data@);
        let ghost first_offers = offers(self.producer);
        let ghost start_index = self.fade_index;
        let ghost start_recorder = self.recorder;
        let ghost records = self.records(recording);
        let ghost first_recorded = if records {
            offers(self.recorder->0.producer)
        } else {
            Seq::empty()
        };
        let ghost mut course = CaptureRun {
            run: FrameRun {
                states: seq![self.limiter@],
                inputs: Seq::empty(),
                traces: Seq::empty(),
                outputs: Seq::empty(),
            },
            offered: Seq::empty(),
            recorded: Seq::empty(),
        };
        proof {
            crate::limiter::law_buffers_are_delay_lines(self.limiter);
            assert(offers(self.producer) =~= first_offers + course.offered);
            assert(records ==> offers(self.recorder->0.producer) =~= first_recorded
                + course.recorded);
        }
        let mut dropped: u64 = 0;
        let mut i: usize = 0;
        while i < count
            invariant
                count == data@.len() / 2,
                data@.len() <= usize::MAX,
                i <= count,
                self.wf(),
                frames == frames_in_samples(data@),
                records == (recording && start_recorder is Some),
                self.recorder is Some == start_recorder is Some,
                !records ==> self.recorder == start_recorder,
                self.fade_frames == old(self).fade_frames,
                self.fade_index == fade_after(start_index, self.fade_frames, i as int),
                course.run.valid::<A>(),
                course.run.inputs == frames.take(i as int),
                course.run.states[0] == old(self).limiter@,
                course.run.states.last() == self.limiter@,
                course.offered.len() == i,
                offers(self.producer) == first_offers + course.offered,
                sink_goes_on(old(self).producer, self.producer),
                room_sufficed(old(self).producer, course.offered, self.producer),
                forall|j: int|
                    0 <= j < i ==> faded_is::<A>(
                        fade_after(start_index, self.fade_frames, j),
                        self.fade_frames,
                        course.run.outputs[j],
                        (#[trigger] course.offered[j]).0,
                    ),
                course.recorded.len() == (if records {
                    i as nat
                } else {
                    0
                }),
                records ==> offers(self.recorder->0.producer) == first_recorded
                    + course.recorded,
                records ==> sink_goes_on(start_recorder->0.producer, self.recorder->0.producer),
                records ==> room_sufficed(
                    start_recorder->0.producer,
                    course.recorded,
                    self.recorder->0.producer,
                ),
                records ==> forall|j: int|
                    0 <= j < i ==> (#[trigger] course.recorded[j]).0 == (
                        frames[j].0.bits,
                        frames[j].1.bits,
                    ),
                dropped == refused(course.recorded),
                dropped <= i,
            decreases count - i,
        {
            let left = data[2 * i];
            let right = data[2 * i + 1];
            let ghost before = course;
            if recording {
                if let Some(recorder) = &mut self.recorder {
                    let taken = recorder.try_push(left, right);
                    if !taken {
                        dropped = dropped + 1;
                    }
                    proof {
                        let entry = ((left.bits, right.bits), taken);
                        course.recorded = course.recorded.push(entry);
                        assert(course.recorded.drop_last() =~= before.recorded);
                        assert(offers(recorder.producer) =~= first_recorded + course.recorded);
                    }
                }
            }
            let ghost state = self.limiter@;
            let output = self.limiter.process_stereo_frame::<A>(left, right);
            let ghost trace = choose|trace: FrameTrace|
                state.processes::<A>(left, right, trace, self.limiter@, output);
            let frame = self.fade::<A>(output);
            let taken = self.producer.push(frame);
            proof {
                let longer = FrameRun {
                    states: before.run.states.push(self.limiter@),
                    inputs: before.run.inputs.push((left, right)),
                    traces: before.run.traces.push(trace),
                    outputs: before.run.outputs.push(output),
                };
                assert(longer.valid::<A>()) by {
                    assert forall|j: int|
                        #![trigger longer.traces[j]]
                        0 <= j < longer.inputs.len() implies longer.states[j].processes::<A>(
                        longer.inputs[j].0,
                        longer.inputs[j].1,
                        longer.traces[j],
                        longer.states[j + 1],
                        longer.outputs[j],
                    ) by {
                        if j < i {
                            let same = before.run.traces[j];
                        }
                    }
                }
                course.run = longer;
                course.offered = before.offered.push((frame, taken));
                assert(course.run.inputs =~= frames.take(i + 1));
                assert(offers(self.producer) =~= first_offers + course.offered);
                assert forall|j: int| 0 <= j < i + 1 implies faded_is::<A>(
                    fade_after(start_index, self.fade_frames, j),
                    self.fade_frames,
                    course.run.outputs[j],
                    (#[trigger] course.offered[j]).0,
                ) by {
                    if j < i {
                        assert(course.offered[j] == before.offered[j]);
                        assert(course.run.outputs[j] == before.run.outputs[j]);
                    }
                }
            }
            i = i + 1;
        }
        proof {
            assert(frames.take(count as int) =~= frames);
            assert(course.valid::<A>(data@, start_index, self.fade_frames, records));
            if records && room(start_recorder->0.producer) >= count {
                lemma_none_refused(course.recorded);
            }
        }
        dropped
    }

    /// Fades one frame in, if it is still one of the first.
    fn fade<A: Arithmetic>(&mut self, sample: (Single, Single)) -> (frame: FrameBits)
        ensures
            *final(self) == (Capture {
                fade_index: fade_after(old(self).fade_index, old(self).fade_frames, 1),
                ..*old(self)
            }),
            faded_is::<A>(old(self).fade_index, old(self).fade_frames, sample, frame),
    {
        if self.fade_index < self.fade_frames {
            let step = A::from_integer((self.fade_index + 1) as u64);
            let steps = A::from_integer(self.fade_frames as u64);
            let gain = A::quotient(step, steps);
            assert(integer_is::<A>((self.fade_index + 1) as u64, step));
            assert(integer_is::<A>(self.fade_frames as u64, steps));
            assert(fade_gain_is::<A>(self.fade_index, self.fade_frames, gain));
            let left = A::product(sample.0, gain);
            let right = A::product(sample.1, gain);
            assert(single(left.bits) == left);
            assert(single(right.bits) == right);
            self.fade_index = self.fade_index + 1;
            (left.to_bits(), right.to_bits())
        } else {
            (sample.0.to_bits(), sample.1.to_bits())
        }
    }

    /// A whole input callback, where nobody else touches the cells meanwhile: new settings
    /// are taken over, the callback joins a recording that is asked for, the samples are
    /// dealt with, and frames that the recorder had no place for are counted.
    pub fn callback<A: Arithmetic>(
        &mut self,
        runtime_params: &RuntimeLimiterParams,
        cells: &mut RecorderCells,
        data: &[Single],
    )
        requires
            old(self).wf(),
        ensures
            final(self).wf(),
            exists|tuned: Capture, run: CaptureRun|
                {
                    &&& #[trigger] old(self).retuned::<A>(runtime_params, &tuned)
                    &&& #[trigger] run.valid::<A>(
                        data@,
                        tuned.fade_index,
                        tuned.fade_frames,
                        tuned.records(old(cells).recording_requested),
                    )
                    &&& tuned.advanced(run, old(cells).recording_requested, final(self))
                    &&& *final(cells) == (RecorderCells {
                        dropped_frames: wrapped_sum(
                            old(cells).dropped_frames,
                            refused(run.recorded) as u64,
                        ),
                        ..*old(cells)
                    })
                },
            old(self).records(old(cells).recording_requested) && room(
                old(self).recorder->0.producer,
            ) >= data@.len() / 2 ==> *final(cells) == *old(cells),
    {
        let ghost before = *self;
        self.limiter.begin_audio_callback::<A>(runtime_params);
        let ghost tuned = *self;
        proof {
            assert(before.retuned::<A>(runtime_params, &tuned));
        }
        let mut capture = begin_input_callback(cells);
        let recording = capture.is_recording();
        let dropped: u64 = self.process::<A>(data, recording);
        add_dropped_frames(cells, dropped);
        end_input_callback(cells, &mut capture);
    }

    /// `next` is `self` with the settings in force taken over, if they are new.
    pub open spec fn retuned<A: Arithmetic>(
        &self,
        runtime_params: &RuntimeLimiterParams,
        next: &Capture,
    ) -> bool {
        &&& next.producer == self.producer
        &&& next.recorder == self.recorder
        &&& next.fade_frames == self.fade_frames
        &&& next.fade_index == self.fade_index
        &&& if runtime_params.stable() && runtime_params.parameter_version
            != self.limiter.last_parameter_version {
            (LimiterState {
                last_parameter_version: runtime_params.parameter_version,
                ..self.limiter@
            }).retuned::<A>(runtime_params.params().cleaned(), next.limiter@)
        } else {
            next.limiter@ == self.limiter@
        }
    }
}

impl CaptureRun {
    /// What two stretches of one callback do, one after the other.
    pub open spec fn followed_by(self, other: CaptureRun) -> CaptureRun {
        CaptureRun {
            run: FrameRun {
                states: self.run.states.drop_last() + other.run.states,
                inputs: self.run.inputs + other.run.inputs,
                traces: self.run.traces + other.run.traces,
                outputs: self.run.outputs + other.run.outputs,
            },
            offered: self.offered + other.offered,
            recorded: self.recorded + other.recorded,
        }
    }
}

/// A callback that is dealt with in two stretches, the first of them of whole frames, is
/// dealt with as if it were one.
pub proof fn law_stretches_join<A: Arithmetic>(
    first_data: Seq<Single>,
    second_data: Seq<Single>,
    fade_index: usize,
    fade_frames: usize,
    recording: bool,
    first: CaptureRun,
    second: CaptureRun,
)
    requires
        first_data.len() % 2 == 0,
        first.valid::<A>(first_data, fade_index, fade_frames, recording),
        second.valid::<A>(
            second_data,
            fade_after(fade_index, fade_frames, first.offered.len() as int),
            fade_frames,
            recording,
        ),
        second.run.states[0] == first.run.states.last(),
    ensures
        first.followed_by(second).valid::<A>(
            first_data + second_data,
            fade_index,
            fade_frames,
            recording,
        ),
        first.followed_by(second).run.states[0] == first.run.states[0],
        first.followed_by(second).run.states.last() == second.run.states.last(),
{
    let all = first.followed_by(second);
    let data = first_data + second_data;
    let count = first.run.inputs.len() as int;
    assert(frames_in_samples(data) =~= frames_in_samples(first_data) + frames_in_samples(
        second_data,
    ));
    assert(all.run.inputs =~= frames_in_samples(data));
    assert forall|i: int|
        #![trigger all.run.traces[i]]
        0 <= i < all.run.inputs.len() implies all.run.states[i].processes::<A>(
        all.run.inputs[i].0,
        all.run.inputs[i].1,
        all.run.traces[i],
        all.run.states[i + 1],
        all.run.outputs[i],
    ) by {
        if i < count {
            let trace = first.run.traces[i];
            assert(all.run.states[i + 1] == first.run.states[i + 1]);
        } else {
            let trace = second.run.traces[i - count];
        }
    }
    assert forall|i: int| 0 <= i < all.run.inputs.len() implies faded_is::<A>(
        fade_after(fade_index, fade_frames, i),
        fade_frames,
        all.run.outputs[i],
        (#[trigger] all.offered[i]).0,
    ) by {
        if i < count {
            assert(all.offered[i] == first.offered[i]);
        } else {
            assert(all.offered[i] == second.offered[i - count]);
        }
    }
    if recording {
        assert forall|i: int| 0 <= i < all.run.inputs.len() implies (#[trigger] all.recorded[i]).0
            == (all.run.inputs[i].0.bits, all.run.inputs[i].1.bits) by {
            if i < count {
                assert(all.recorded[i] == first.recorded[i]);
            } else {
                assert(all.recorded[i] == second.recorded[i - count]);
            }
        }
    }
}

/// The host's arithmetic keeps what scaling by a factor from zero to one promises: no
/// number moves away from zero, and a part of a whole is such a factor.
pub open spec fn scales_down<A: Arithmetic>() -> bool {
    &&& forall|x: Single, factor: Single, r: Single|
        #[trigger] product_is::<A>(x, factor, r) && single(ZERO).at_most(factor)
            && factor.at_most(single(ONE)) && x.finite() ==> r.absolute().at_most(x.absolute())
    &&& forall|index: usize, total: usize, gain: Single| #[trigger]
        fade_gain_is::<A>(index, total, gain) && index < total ==> single(ZERO).at_most(gain)
            && gain.at_most(single(ONE))
}

/// Fading in ends at full strength: the last of the faded frames, and every frame after it, is
/// given out bit for bit.
pub proof fn law_fade_ends_at_full_strength<A: Arithmetic>(
    index: usize,
    total: usize,
    sample: (Single, Single),
    frame: FrameBits,
)
    requires
        answers_alike_on_integers::<A>(),
        knows_one_and_zero::<A>(),
        forall|n: u64, r: Single| #[trigger]
            integer_is::<A>(n, r) && n > 0 ==> r.finite() && !r.same(single(ZERO)),
        faded_is::<A>(index, total, sample, frame),
        index + 1 >= total,
        !sample.0.nan(),
        !sample.1.nan(),
    ensures
        frame == (sample.0.bits, sample.1.bits),
{
    if index < total {
        let gain = choose|gain: Single| #[trigger]
            fade_gain_is::<A>(index, total, gain) && product_is::<A>(
                sample.0,
                gain,
                single(frame.0),
            ) && product_is::<A>(sample.1, gain, single(frame.1));
        assert((index + 1) as u64 == total as u64);
        assert(gain == single(ONE));
        assert(single(frame.0) == sample.0);
        assert(single(frame.1) == sample.1);
    }
}

/// The host tells an integer as a single precision number always alike.
pub open spec fn answers_alike_on_integers<A: Arithmetic>() -> bool {
    forall|n: u64, r: Single, q: Single| #[trigger]
        integer_is::<A>(n, r) && #[trigger] integer_is::<A>(n, q) ==> r == q
}

/// Fading in grows: of two faded frames of the same samples the later one is at least as strong,
/// on both channels.
pub proof fn law_fade_grows<A: Arithmetic>(
    index: usize,
    later: usize,
    total: usize,
    sample: (Single, Single),
    frame: FrameBits,
    later_frame: FrameBits,
)
    requires
        answers_alike_on_integers::<A>(),
        // More of the same whole is a larger part, and a larger part of a number is farther from
        // zero.
        forall|a: u64, b: u64, r: Single, q: Single|
            #![trigger integer_is::<A>(a, r), integer_is::<A>(b, q)]
            integer_is::<A>(a, r) && integer_is::<A>(b, q) && a <= b ==> single(ZERO).at_most(r)
                && r.at_most(q),
        forall|a: Single, b: Single, whole: Single, r: Single, q: Single|
            #![trigger quotient_is::<A>(a, whole, r), quotient_is::<A>(b, whole, q)]
            quotient_is::<A>(a, whole, r) && quotient_is::<A>(b, whole, q) && single(ZERO).at_most(
                a,
            ) && a.at_most(b) && integer_is::<A>(total as u64, whole) ==> single(ZERO).at_most(r)
                && r.at_most(q),
        forall|x: Single, a: Single, b: Single, r: Single, q: Single|
            #![trigger product_is::<A>(x, a, r), product_is::<A>(x, b, q)]
            product_is::<A>(x, a, r) && product_is::<A>(x, b, q) && x.finite() && single(
                ZERO,
            ).at_most(a) && a.at_most(b) ==> r.absolute().at_most(q.absolute()),
        faded_is::<A>(index, total, sample, frame),
        faded_is::<A>(later, total, sample, later_frame),
        index <= later < total,
        sample.0.finite() && sample.1.finite(),
    ensures
        single(frame.0).absolute().at_most(single(later_frame.0).absolute()),
        single(frame.1).absolute().at_most(single(later_frame.1).absolute()),
{
    let gain = choose|gain: Single| #[trigger]
        fade_gain_is::<A>(index, total, gain) && product_is::<A>(sample.0, gain, single(frame.0))
            && product_is::<A>(sample.1, gain, single(frame.1));
    let later_gain = choose|gain: Single| #[trigger]
        fade_gain_is::<A>(later, total, gain) && product_is::<A>(
            sample.0,
            gain,
            single(later_frame.0),
        ) && product_is::<A>(sample.1, gain, single(later_frame.1));
    let (step, steps) = choose|step: Single, steps: Single|
        #![trigger integer_is::<A>((index + 1) as u64, step), integer_is::<A>(total as u64, steps)]
        {
            &&& integer_is::<A>((index + 1) as u64, step)
            &&& integer_is::<A>(total as u64, steps)
            &&& quotient_is::<A>(step, steps, gain)
        };
    let (later_step, later_steps) = choose|step: Single, steps: Single|
        #![trigger integer_is::<A>((later + 1) as u64, step), integer_is::<A>(total as u64, steps)]
        {
            &&& integer_is::<A>((later + 1) as u64, step)
            &&& integer_is::<A>(total as u64, steps)
            &&& quotient_is::<A>(step, steps, later_gain)
        };
    assert(steps == later_steps);
    assert(step.at_most(later_step));
    assert(gain.at_most(later_gain));
}

/// The samples of a callback go into the limiter and, while a recording is under way, to the
/// recorder two by two and untouched: the first of each pair on the left, the second on the
/// right. Without a recording the recorder is offered nothing.
pub proof fn law_samples_go_in_pairs<A: Arithmetic>(
    run: CaptureRun,
    data: Seq<Single>,
    fade_index: usize,
    fade_frames: usize,
    recording: bool,
    at: int,
)
    requires
        run.valid::<A>(data, fade_index, fade_frames, recording),
        0 <= at,
        2 * at + 1 < data.len(),
    ensures
        run.run.inputs[at] == (data[2 * at], data[2 * at + 1]),
        recording ==> run.recorded[at].0 == (data[2 * at].bits, data[2 * at + 1].bits),
        recording ==> 2 * run.recorded.len() == data.len() - data.len() % 2,
        !recording ==> run.recorded.len() == 0,
        2 * run.offered.len() == data.len() - data.len() % 2,
        // Once all frames are faded in, what comes out of the limiter goes into the ring as it is.
        fade_index >= fade_frames ==> run.offered[at].0 == (
            run.run.outputs[at].0.bits,
            run.run.outputs[at].1.bits,
        ),
{
    let offered = run.offered[at];
    if recording {
        let recorded = run.recorded[at];
    }
}

/// Frames are faded in one after the other, each once: after `count` frames the fade stands as
/// many frames further, at its end at the latest, and it stays there.
pub proof fn law_fade_counts_frames(index: usize, total: usize, count: int)
    requires
        0 <= count,
        index <= total,
    ensures
        index + count <= total ==> fade_after(index, total, count) == index + count,
        index + count > total ==> fade_after(index, total, count) == total,
{
}

/// Fading in never makes a sample larger, so that what is within the ceiling stays there.
pub proof fn law_fade_keeps_ceiling<A: Arithmetic>(
    index: usize,
    total: usize,
    sample: (Single, Single),
    frame: FrameBits,
    ceiling: Single,
)
    requires
        scales_down::<A>(),
        faded_is::<A>(index, total, sample, frame),
        ceiling.finite(),
        sample.0.absolute().at_most(ceiling),
        sample.1.absolute().at_most(ceiling),
    ensures
        single(frame.0).absolute().at_most(ceiling),
        single(frame.1).absolute().at_most(ceiling),
{
    if index < total {
        let gain = choose|gain: Single| #[trigger]
            fade_gain_is::<A>(index, total, gain) && product_is::<A>(
                sample.0,
                gain,
                single(frame.0),
            ) && product_is::<A>(sample.1, gain, single(frame.1));
        assert(single(frame.0).absolute().at_most(sample.0.absolute()));
        assert(single(frame.1).absolute().at_most(sample.1.absolute()));
    } else {
        assert(single(frame.0) == sample.0);
        assert(single(frame.1) == sample.1);
    }
}

/// A callback takes over settings that were published since the last one took any over, brought into
/// their ranges, and remembers which they were; while they are being published, and where it has them
/// already, the limiter stays as it is. Neither the rings nor the fade have a part in that.
pub proof fn law_new_settings_are_taken_over<A: Arithmetic>(
    capture: Capture,
    runtime_params: RuntimeLimiterParams,
    next: Capture,
)
    requires
        capture.retuned::<A>(&runtime_params, &next),
    ensures
        runtime_params.parameter_version % 2 == 0 && runtime_params.parameter_version
            != capture.limiter.last_parameter_version ==> {
            &&& next.limiter.last_parameter_version == runtime_params.parameter_version
            &&& next.limiter.current_params == runtime_params.params().cleaned()
        },
        runtime_params.parameter_version % 2 != 0 ==> next.limiter@ == capture.limiter@,
        runtime_params.parameter_version == capture.limiter.last_parameter_version
            ==> next.limiter@ == capture.limiter@,
        next.producer == capture.producer && next.recorder == capture.recorder,
        next.fade_index == capture.fade_index && next.fade_frames == capture.fade_frames,
{
}

} // verus!
