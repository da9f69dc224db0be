//! The output side of an audio session: frames from the ring to the output device.
//!
//! Input and output devices run on clocks of their own, so the ring slowly fills up or
//! runs dry. Outside a band around the target level one frame is stretched or two frames
//! are merged now and then; inside the band frames pass as they are.

use vstd::prelude::*;

use crate::arithmetic::{product_is, sum_is, Arithmetic};
use crate::limiter::{HALF, ZERO};
use crate::ring::{answers, levels, source_goes_on, visible, FrameBits, FrameSource};
use crate::single::{single, Single};

verus! {

/// `r` is an answer for the number halfway between `a` and `b`.
pub open spec fn halfway_is<A: Arithmetic>(a: u32, b: u32, r: u32) -> bool {
    exists|total: Single|
        #[trigger] sum_is::<A>(single(a), single(b), total) && product_is::<A>(
            total,
            single(HALF),
            single(r),
        )
}

/// `r` is an answer for the frame halfway between `a` and `b`.
pub open spec fn midpoint_is<A: Arithmetic>(a: FrameBits, b: FrameBits, r: FrameBits) -> bool {
    halfway_is::<A>(a.0, b.0, r.0) && halfway_is::<A>(a.1, b.1, r.1)
}

fn halfway<A: Arithmetic>(a: u32, b: u32) -> (r: u32)
    ensures
        halfway_is::<A>(a, b, r),
{
    let total = A::sum(Single::from_bits(a), Single::from_bits(b));
    let r = A::product(total, Single::from_bits(HALF));
    assert(sum_is::<A>(single(a), single(b), total));
    assert(single(r.bits) == r);
    r.to_bits()
}

fn midpoint<A: Arithmetic>(a: FrameBits, b: FrameBits) -> (r: FrameBits)
    ensures
        midpoint_is::<A>(a, b, r),
{
    (halfway::<A>(a.0, b.0), halfway::<A>(a.1, b.1))
}

/// What one slot of the output leaves for the next.
#[derive(Clone, Copy, Debug, PartialEq, Eq)]
pub struct SlotState {
    /// The frame given out last.
    pub last: FrameBits,
    /// A frame that was taken from the ring and is to be given out next.
    pub pending: Option<FrameBits>,
    /// Whether this callback has stretched or merged already.
    pub corrected: bool,
}

/// What the level of the ring asks of a callback.
#[derive(Clone, Copy, Debug, PartialEq, Eq, Structural)]
pub enum Correction {
    /// The level is within the band.
    Pass,
    /// The ring runs dry: take one frame less.
    Stretch,
    /// The ring fills up: take one frame more.
    Merge,
}

impl SlotState {
    /// `next` and `frame` are what a slot leads to, where asking the ring for frames gave
    /// `taken`.
    pub open spec fn gives<A: Arithmetic>(
        self,
        correction: Correction,
        taken: Seq<Option<FrameBits>>,
        next: SlotState,
        frame: FrameBits,
    ) -> bool {
        match self.pending {
            Some(pending) => {
                &&& taken.len() == 0
                &&& frame == pending
                &&& next == (SlotState { last: pending, pending: None, ..self })
            },
            None => if correction == Correction::Stretch && !self.corrected {
                &&& taken.len() == 1
                &&& match taken[0] {
                    Some(following) => {
                        &&& midpoint_is::<A>(self.last, following, frame)
                        &&& next == (SlotState {
                            last: frame,
                            pending: Some(following),
                            corrected: true,
                        })
                    },
                    None => frame == self.last && next == self,
                }
            } else if correction == Correction::Merge && !self.corrected {
                &&& taken.len() >= 1
                &&& match taken[0] {
                    Some(first) => {
                        &&& taken.len() == 2
                        &&& match taken[1] {
                            Some(second) => {
                                &&& midpoint_is::<A>(first, second, frame)
                                &&& next == (SlotState { last: frame, corrected: true, ..self })
                            },
                            None => frame == first && next == (SlotState { last: first, ..self }),
                        }
                    },
                    None => taken.len() == 1 && frame == self.last && next == self,
                }
            } else {
                &&& taken.len() == 1
                &&& match taken[0] {
                    Some(popped) => frame == popped && next == (SlotState { last: popped, ..self }),
                    None => frame == self.last && next == self,
                }
            },
        }
    }
}

/// How the slots of one callback follow one another.
pub struct SlotCourse {
    /// The state before each slot, and the state after the last.
    pub states: Seq<SlotState>,
    /// The frame of each slot.
    pub frames: Seq<FrameBits>,
    /// How many times the ring had been asked before each slot, and after the last.
    pub asked: Seq<int>,
}

impl SlotCourse {
    /// The course is one of `count` slots that ask the ring for frames and are answered by
    /// `taken`, all of it.
    pub open spec fn valid<A: Arithmetic>(
        self,
        correction: Correction,
        taken: Seq<Option<FrameBits>>,
        count: int,
    ) -> bool {
        &&& count >= 0
        &&& self.states.len() == count + 1
        &&& self.frames.len() == count
        &&& self.asked.len() == count + 1
        &&& self.asked[0] == 0
        &&& self.asked[count] == taken.len()
        &&& forall|i: int, j: int|
            0 <= i <= j <= count ==> #[trigger] self.asked[i] <= #[trigger] self.asked[j]
        &&& forall|i: int|
            #![trigger self.frames[i]]
            0 <= i < count ==> self.states[i].gives::<A>(
                correction,
                taken.subrange(self.asked[i], self.asked[i + 1]),
                self.states[i + 1],
                self.frames[i],
            )
    }
}

impl SlotCourse {
    /// The course with one more slot.
    pub open spec fn extended(
        self,
        next: SlotState,
        frame: FrameBits,
        more: Seq<Option<FrameBits>>,
    ) -> SlotCourse {
        SlotCourse {
            states: self.states.push(next),
            frames: self.frames.push(frame),
            asked: self.asked.push(self.asked.last() + more.len()),
        }
    }
}

proof fn lemma_course_extends<A: Arithmetic>(
    course: SlotCourse,
    correction: Correction,
    taken: Seq<Option<FrameBits>>,
    count: int,
    more: Seq<Option<FrameBits>>,
    next: SlotState,
    frame: FrameBits,
)
    requires
        course.valid::<A>(correction, taken, count),
        course.states[count].gives::<A>(correction, more, next, frame),
    ensures
        course.extended(next, frame, more).valid::<A>(correction, taken + more, count + 1),
{
    let longer = course.extended(next, frame, more);
    let all = taken + more;
    assert forall|i: int| #![trigger longer.frames[i]] 0 <= i < count + 1 implies longer.states[
        i
    ].gives::<A>(
        correction,
        all.subrange(longer.asked[i], longer.asked[i + 1]),
        longer.states[i + 1],
        longer.frames[i],
    ) by {
        if i < count {
            let same = course.frames[i];
            assert(0 <= course.asked[i] <= course.asked[i + 1] <= taken.len());
            assert(all.subrange(longer.asked[i], longer.asked[i + 1]) =~= taken.subrange(
                course.asked[i],
                course.asked[i + 1],
            ));
        } else {
            assert(all.subrange(longer.asked[i], longer.asked[i + 1]) =~= more);
        }
    }
    assert forall|i: int, j: int| 0 <= i <= j <= count + 1 implies #[trigger] longer.asked[i]
        <= #[trigger] longer.asked[j] by {
        if i <= count && j <= count {
            assert(course.asked[i] <= course.asked[j]);
        } else if i <= count {
            assert(course.asked[i] <= course.asked[count]);
        }
    }
}

/// The samples of `frames`, left before right, and a zero where the length is odd.
pub open spec fn interleaved(frames: Seq<FrameBits>, samples: int) -> Seq<Single> {
    Seq::new(
        samples as nat,
        |i: int|
            if i / 2 >= frames.len() {
                single(ZERO)
            } else if i % 2 == 0 {
                single(frames[i / 2].0)
            } else {
                single(frames[i / 2].1)
            },
    )
}

/// The output side of a session.
#[derive(Clone, Copy, Debug, PartialEq, Eq)]
pub struct Playback {
    /// Below this level of the ring a frame is stretched.
    pub low_watermark: usize,
    /// Above this level of the ring two frames are merged.
    pub high_watermark: usize,
    /// Two corrected frames lie at least so many frames apart.
    pub interval: usize,
    /// Frames given out since the callback that corrected last.
    pub since: usize,
    pub last: FrameBits,
    pub pending: Option<FrameBits>,
}

/// `a + b`, or the largest size where that is exceeded.
pub open spec fn saturating_sum(a: usize, b: usize) -> usize {
    if a + b > usize::MAX {
        usize::MAX
    } else {
        (a + b) as usize
    }
}

impl Playback {
    /// A session that has not given out anything yet; a correction is allowed at once.
    pub open spec fn fresh(low_watermark: usize, high_watermark: usize, interval: usize) -> Playback {
        Playback {
            low_watermark,
            high_watermark,
            interval,
            since: interval,
            last: (ZERO, ZERO),
            pending: None,
        }
    }

    /// What a callback has to do where the ring holds `level` frames.
    pub open spec fn correction(self, level: usize) -> Correction {
        if self.since < self.interval {
            Correction::Pass
        } else if level < self.low_watermark {
            Correction::Stretch
        } else if level > self.high_watermark {
            Correction::Merge
        } else {
            Correction::Pass
        }
    }

    /// The state before the first slot of a callback.
    pub open spec fn first_slot(self) -> SlotState {
        SlotState { last: self.last, pending: self.pending, corrected: false }
    }

    /// The session after a callback of `count` frames that ended in `slot`.
    pub open spec fn after(self, count: usize, slot: SlotState) -> Playback {
        Playback {
            since: if slot.corrected {
                0
            } else {
                saturating_sum(self.since, count)
            },
            last: slot.last,
            pending: slot.pending,
            ..self
        }
    }

    pub fn new(low_watermark: usize, high_watermark: usize, interval: usize) -> (playback: Playback)
        ensures
            playback == Playback::fresh(low_watermark, high_watermark, interval),
    {
        Playback {
            low_watermark,
            high_watermark,
            interval,
            since: interval,
            last: (ZERO, ZERO),
            pending: None,
        }
    }

    /// Decides, once for each callback, what the level of the ring asks for. Only the frames
    /// already given out count towards the interval, not those of the callback itself.
    pub fn choose_correction(&self, level: usize) -> (correction: Correction)
        ensures
            correction == self.correction(level),
    {
        if self.since < self.interval {
            Correction::Pass
        } else if level < self.low_watermark {
            Correction::Stretch
        } else if level > self.high_watermark {
            Correction::Merge
        } else {
            Correction::Pass
        }
    }

    /// Begins an output callback: looks at the level of the ring, once, and decides what it
    /// asks for.
    pub fn begin(&self, source: &mut FrameSource) -> (first: (SlotState, Correction))
        ensures
            first.0 == self.first_slot(),
            first.1 == self.correction(levels(*final(source)).last()),
            answers(*final(source)) == answers(*old(source)),
            levels(*final(source)).len() == levels(*old(source)).len() + 1,
            levels(*final(source)).drop_last() == levels(*old(source)),
            visible(*old(source)).is_prefix_of(visible(*final(source))),
            visible(*final(source)).len() == levels(*final(source)).last(),
            source_goes_on(*old(source), *final(source)),
    {
        let ghost before = levels(*source);
        let level: usize = source.occupied_len();
        proof {
            assert(levels(*source).drop_last() =~= before);
        }
        (
            SlotState { last: self.last, pending: self.pending, corrected: false },
            self.choose_correction(level),
        )
    }

    /// Ends an output callback of `count` frames whose last slot led to `slot`.
    pub fn finish(&mut self, count: usize, slot: SlotState)
        ensures
            *final(self) == old(self).after(count, slot),
    {
        self.since = if slot.corrected {
            0
        } else {
            add_saturating(self.since, count)
        };
        self.last = slot.last;
        self.pending = slot.pending;
    }

    /// Fills the buffer of an output callback from the ring. The level of the ring is
    /// looked at once.
    pub fn fill<A: Arithmetic>(&mut self, source: &mut FrameSource, out: &mut [Single])
        ensures
            final(out)@.len() == old(out)@.len(),
            answers(*old(source)).is_prefix_of(answers(*final(source))),
            levels(*final(source)).len() == levels(*old(source)).len() + 1,
            levels(*final(source)).drop_last() == levels(*old(source)),
            source_goes_on(*old(source), *final(source)),
            ({
                let count = (old(out)@.len() / 2) as usize;
                let taken = answers(*final(source)).skip(answers(*old(source)).len() as int);
                let level = levels(*final(source)).last();
                let correction = old(self).correction(level);
                &&& exists|course: SlotCourse|
                    {
                        &&& #[trigger] course.valid::<A>(correction, taken, count as int)
                        &&& course.states[0] == old(self).first_slot()
                        &&& *final(self) == old(self).after(count, course.states[count as int])
                        &&& final(out)@ == interleaved(course.frames, old(out)@.len() as int)
                    }
                // While the level is not used up, each answer is the next frame of the ring.
                &&& exists|seen: Seq<FrameBits>|
                    {
                        &&& seen.len() == level
                        &&& visible(*old(source)).is_prefix_of(seen)
                        &&& #[trigger] served(seen, taken, visible(*final(source)))
                    }
            }),
    {
        let (mut slot, correction) = self.begin(source);
        let ghost seen = visible(*source);
        let samples: usize = out.len();
        fill_part::<A>(&mut slot, correction, source, out);
        self.finish(samples / 2, slot);
        proof {
            assert(served(
                seen,
                answers(*source).skip(answers(*old(source)).len() as int),
                visible(*source),
            ));
        }
    }
}

/// A reading end that knew of the frames `seen` gave them out, eldest first, as long as there
/// were some; `left` is what it knows of after the answers `taken`.
pub open spec fn served(
    seen: Seq<FrameBits>,
    taken: Seq<Option<FrameBits>>,
    left: Seq<FrameBits>,
) -> bool {
    &&& forall|i: int|
        0 <= i < taken.len() && i < seen.len() ==> #[trigger] taken[i] == Some(seen[i])
    &&& taken.len() <= seen.len() ==> left == seen.skip(taken.len() as int)
}

/// What two stretches of answers were served with, they were served with as one.
pub proof fn lemma_served_on(
    seen: Seq<FrameBits>,
    taken: Seq<Option<FrameBits>>,
    between: Seq<FrameBits>,
    more: Seq<Option<FrameBits>>,
    left: Seq<FrameBits>,
)
    requires
        served(seen, taken, between),
        served(between, more, left),
    ensures
        served(seen, taken + more, left),
{
    let all = taken + more;
    assert forall|i: int| 0 <= i < all.len() && i < seen.len() implies #[trigger] all[i] == Some(
        seen[i],
    ) by {
        if i >= taken.len() {
            assert(all[i] == more[i - taken.len()]);
            assert(between[i - taken.len()] == seen[i]);
        } else {
            assert(all[i] == taken[i]);
        }
    }
    if all.len() <= seen.len() {
        assert(left =~= seen.skip(all.len() as int));
    }
}

/// Fills a stretch of an output callback's buffer from the ring. Where the callback is filled
/// in several stretches, all but the last have an even length.
pub fn fill_part<A: Arithmetic>(
    slot: &mut SlotState,
    correction: Correction,
    source: &mut FrameSource,
    out: &mut [Single],
)
    ensures
        final(out)@.len() == old(out)@.len(),
        answers(*old(source)).is_prefix_of(answers(*final(source))),
        levels(*final(source)) == levels(*old(source)),
        source_goes_on(*old(source), *final(source)),
        ({
            let count = (old(out)@.len() / 2) as int;
            let taken = answers(*final(source)).skip(answers(*old(source)).len() as int);
            &&& exists|course: SlotCourse|
                {
                    &&& #[trigger] course.valid::<A>(correction, taken, count)
                    &&& course.states[0] == *old(slot)
                    &&& course.states[count] == *final(slot)
                    &&& final(out)@ == interleaved(course.frames, old(out)@.len() as int)
                }
            &&& served(visible(*old(source)), taken, visible(*final(source)))
        }),
{
    let samples: usize = out.len();
    let count: usize = samples / 2;
    let ghost start = *slot;
    let ghost asked_before = answers(*source);
    let ghost seen = visible(*source);
    let ghost mut course = SlotCourse { states: seq![*slot], frames: Seq::empty(), asked: seq![0] };
    proof {
        assert(answers(*source).skip(asked_before.len() as int) =~= Seq::empty());
        assert(seen.skip(0) =~= seen);
    }
    let mut i: usize = 0;
    while i < count
        invariant
            samples == old(out)@.len(),
            out@.len() == samples,
            count == samples / 2,
            i <= count,
            levels(*source) == levels(*old(source)),
            source_goes_on(*old(source), *source),
            asked_before.is_prefix_of(answers(*source)),
            served(seen, answers(*source).skip(asked_before.len() as int), visible(*source)),
            course.valid::<A>(
                correction,
                answers(*source).skip(asked_before.len() as int),
                i as int,
            ),
            course.states[0] == start,
            course.states[i as int] == *slot,
            forall|j: int|
                0 <= j < i ==> out@[2 * j] == single((#[trigger] course.frames[j]).0) && out@[2
                    * j + 1] == single(course.frames[j].1),
        decreases count - i,
    {
        let ghost answers_before = answers(*source);
        let ghost visible_before = visible(*source);
        let frame = next_frame::<A>(slot, correction, source);
        out[2 * i] = Single::from_bits(frame.0);
        out[2 * i + 1] = Single::from_bits(frame.1);
        proof {
            let base = asked_before.len() as int;
            let more = answers(*source).skip(answers_before.len() as int);
            let longer = course.extended(*slot, frame, more);
            lemma_course_extends::<A>(
                course,
                correction,
                answers_before.skip(base),
                i as int,
                more,
                *slot,
                frame,
            );
            lemma_served_on(
                seen,
                answers_before.skip(base),
                visible_before,
                more,
                visible(*source),
            );
            assert(answers(*source).skip(base) =~= answers_before.skip(base) + more);
            assert forall|j: int| 0 <= j < i + 1 implies out@[2 * j] == single(
                (#[trigger] longer.frames[j]).0,
            ) && out@[2 * j + 1] == single(longer.frames[j].1) by {
                if j < i {
                    assert(longer.frames[j] == course.frames[j]);
                }
            }
            course = longer;
        }
        i = i + 1;
    }
    // A sample without a partner is silenced, so that left and right keep their places.
    if 2 * count < samples {
        out[2 * count] = Single::from_bits(ZERO);
    }
    proof {
        assert(out@ =~= interleaved(course.frames, samples as int)) by {
            assert forall|k: int| 0 <= k < samples implies out@[k] == interleaved(
                course.frames,
                samples as int,
            )[k] by {
                if k < 2 * count {
                    let frame = course.frames[k / 2];
                }
            }
        }
    }
}

/// `a + b`, or the largest size where that is exceeded.
fn add_saturating(a: usize, b: usize) -> (r: usize)
    ensures
        r == saturating_sum(a, b),
{
    if a > usize::MAX - b {
        usize::MAX
    } else {
        a + b
    }
}

/// The frame of one slot, and what the slot leaves for the next.
pub fn next_frame<A: Arithmetic>(
    slot: &mut SlotState,
    correction: Correction,
    source: &mut FrameSource,
) -> (frame: FrameBits)
    ensures
        levels(*final(source)) == levels(*old(source)),
        answers(*old(source)).is_prefix_of(answers(*final(source))),
        old(slot).gives::<A>(
            correction,
            answers(*final(source)).skip(answers(*old(source)).len() as int),
            *final(slot),
            frame,
        ),
        served(
            visible(*old(source)),
            answers(*final(source)).skip(answers(*old(source)).len() as int),
            visible(*final(source)),
        ),
        source_goes_on(*old(source), *final(source)),
{
    let ghost before = answers(*source);
    let ghost seen = visible(*source);
    proof {
        assert(seen.skip(0) =~= seen);
        if seen.len() >= 1 {
            assert(seen.skip(1) =~= seen.drop_first());
        }
        if seen.len() >= 2 {
            assert(seen.skip(2) =~= seen.drop_first().drop_first());
        }
    }
    match slot.pending {
        Some(pending) => {
            proof {
                assert(answers(*source).skip(before.len() as int).len() == 0);
            }
            slot.last = pending;
            slot.pending = None;
            pending
        },
        None => {
            let first = source.pop();
            let merging = match correction {
                Correction::Merge => !slot.corrected,
                _ => false,
            };
            if merging && first.is_some() {
                let second = source.pop();
                proof {
                    assert(answers(*source).skip(before.len() as int) =~= seq![first, second]);
                }
                merge_slot::<A>(slot, first, second)
            } else {
                proof {
                    assert(answers(*source).skip(before.len() as int) =~= seq![first]);
                }
                match correction {
                    Correction::Stretch => stretch_slot::<A>(slot, first),
                    Correction::Merge => if merging {
                        slot.last
                    } else {
                        plain_slot(slot, first)
                    },
                    Correction::Pass => plain_slot(slot, first),
                }
            }
        },
    }
}

/// A slot that gives out the frame it was handed, or repeats the last one.
pub fn plain_slot(slot: &mut SlotState, popped: Option<FrameBits>) -> (frame: FrameBits)
    ensures
        frame == (match popped {
            Some(popped) => popped,
            None => old(slot).last,
        }),
        *final(slot) == (SlotState { last: frame, ..*old(slot) }),
{
    match popped {
        Some(popped) => {
            slot.last = popped;
            popped
        },
        None => slot.last,
    }
}

/// A slot that stretches, if the callback has not corrected yet: it gives out the frame
/// halfway to the one it was handed and keeps that one for the next slot.
pub fn stretch_slot<A: Arithmetic>(slot: &mut SlotState, popped: Option<FrameBits>) -> (frame:
    FrameBits)
    requires
        old(slot).pending is None,
    ensures
        old(slot).gives::<A>(Correction::Stretch, seq![popped], *final(slot), frame),
{
    if slot.corrected {
        return plain_slot(slot, popped);
    }
    match popped {
        Some(following) => {
            let frame = midpoint::<A>(slot.last, following);
            slot.last = frame;
            slot.pending = Some(following);
            slot.corrected = true;
            frame
        },
        None => slot.last,
    }
}

/// A slot that merges the two frames it was handed into one.
pub fn merge_slot<A: Arithmetic>(
    slot: &mut SlotState,
    first: Option<FrameBits>,
    second: Option<FrameBits>,
) -> (frame: FrameBits)
    requires
        old(slot).pending is None,
        !old(slot).corrected,
        first is Some,
    ensures
        old(slot).gives::<A>(Correction::Merge, seq![first, second], *final(slot), frame),
{
    match (first, second) {
        (Some(first), Some(second)) => {
            let frame = midpoint::<A>(first, second);
            slot.last = frame;
            slot.corrected = true;
            frame
        },
        (Some(first), None) => {
            slot.last = first;
            first
        },
        (None, _) => slot.last,
    }
}

impl SlotCourse {
    /// The course of two stretches of one callback, one after the other.
    pub open spec fn followed_by(self, other: SlotCourse) -> SlotCourse {
        SlotCourse {
            states: self.states.drop_last() + other.states,
            frames: self.frames + other.frames,
            asked: self.asked.drop_last() + Seq::new(
                other.asked.len(),
                |i: int| self.asked.last() + other.asked[i],
            ),
        }
    }
}

/// A callback that is filled in two stretches is filled as if it were one.
pub proof fn law_stretches_join<A: Arithmetic>(
    correction: Correction,
    first: SlotCourse,
    first_taken: Seq<Option<FrameBits>>,
    first_count: int,
    second: SlotCourse,
    second_taken: Seq<Option<FrameBits>>,
    second_count: int,
)
    requires
        first.valid::<A>(correction, first_taken, first_count),
        second.valid::<A>(correction, second_taken, second_count),
        second.states[0] == first.states[first_count],
    ensures
        first.followed_by(second).valid::<A>(
            correction,
            first_taken + second_taken,
            first_count + second_count,
        ),
        first.followed_by(second).states[0] == first.states[0],
        first.followed_by(second).states[first_count + second_count]
            == second.states[second_count],
{
    let all = first.followed_by(second);
    let taken = first_taken + second_taken;
    assert(second.asked[0] == 0);
    assert forall|i: int| 0 <= i <= first_count implies #[trigger] all.asked[i] == first.asked[i]
        && all.states[i] == first.states[i] by {}
    assert forall|i: int| first_count <= i <= first_count + second_count implies #[trigger]
    all.asked[i] == first_taken.len() + second.asked[i - first_count] && all.states[i]
        == second.states[i - first_count] by {}
    assert forall|i: int, j: int| 0 <= i <= j <= first_count + second_count implies #[trigger]
    all.asked[i] <= #[trigger] all.asked[j] by {
        if j <= first_count {
            assert(first.asked[i] <= first.asked[j]);
        } else if i < first_count {
            assert(first.asked[i] <= first.asked[first_count]);
            assert(second.asked[0] <= second.asked[j - first_count]);
        } else {
            assert(second.asked[i - first_count] <= second.asked[j - first_count]);
        }
    }
    assert forall|i: int|
        #![trigger all.frames[i]]
        0 <= i < first_count + second_count implies all.states[i].gives::<A>(
        correction,
        taken.subrange(all.asked[i], all.asked[i + 1]),
        all.states[i + 1],
        all.frames[i],
    ) by {
        assert(all.asked[i] <= all.asked[i + 1]);
        if i < first_count {
            let frame = first.frames[i];
            assert(0 <= first.asked[0] <= first.asked[i] <= first.asked[i + 1]
                <= first.asked[first_count]);
            assert(taken.subrange(all.asked[i], all.asked[i + 1]) =~= first_taken.subrange(
                first.asked[i],
                first.asked[i + 1],
            ));
        } else {
            let k = i - first_count;
            let frame = second.frames[k];
            assert(0 <= second.asked[0] <= second.asked[k] <= second.asked[k + 1]
                <= second.asked[second_count]);
            assert(taken.subrange(all.asked[i], all.asked[i + 1]) =~= second_taken.subrange(
                second.asked[k],
                second.asked[k + 1],
            ));
        }
    }
}

/// While the ring is within its band, every slot gives out the next frame of the ring as
/// it is, or repeats the last one where the ring has none.
pub proof fn law_frames_pass_within_band<A: Arithmetic>(
    playback: Playback,
    level: usize,
    count: usize,
    course: SlotCourse,
    taken: Seq<Option<FrameBits>>,
    at: int,
)
    requires
        playback.low_watermark <= level <= playback.high_watermark,
        course.valid::<A>(playback.correction(level), taken, count as int),
        0 <= at < count,
        course.states[at].pending is None,
    ensures
        course.asked[at + 1] == course.asked[at] + 1,
        course.frames[at] == (match taken[course.asked[at]] {
            Some(frame) => frame,
            None => course.states[at].last,
        }),
        course.states[at + 1].pending is None,
        course.states[at + 1].corrected == course.states[at].corrected,
{
    let frame = course.frames[at];
    assert(0 <= course.asked[0] <= course.asked[at] <= course.asked[at + 1] <= course.asked[count as int]);
    let part = taken.subrange(course.asked[at], course.asked[at + 1]);
    assert(part.len() == course.asked[at + 1] - course.asked[at]);
    assert(part[0] == taken[course.asked[at]]);
}

proof fn lemma_balance<A: Arithmetic>(
    course: SlotCourse,
    correction: Correction,
    taken: Seq<Option<FrameBits>>,
    count: int,
    at: int,
)
    requires
        course.valid::<A>(correction, taken, count),
        !course.states[0].corrected,
        forall|i: int| 0 <= i < taken.len() ==> #[trigger] taken[i] is Some,
        0 <= at <= count,
    ensures
        correction == Correction::Pass ==> !course.states[at].corrected,
        course.asked[at] + one_if(course.states[0].pending is Some) - one_if(
            course.states[at].pending is Some,
        ) == at + (if !course.states[at].corrected {
            0int
        } else if correction == Correction::Stretch {
            -1
        } else {
            1
        }),
    decreases at,
{
    if at > 0 {
        lemma_balance::<A>(course, correction, taken, count, at - 1);
        let frame = course.frames[at - 1];
        assert(0 <= course.asked[0] <= course.asked[at - 1] <= course.asked[at]
            <= course.asked[count]);
        let part = taken.subrange(course.asked[at - 1], course.asked[at]);
        assert(part.len() == course.asked[at] - course.asked[at - 1]);
        assert(forall|i: int|
            0 <= i < part.len() ==> #[trigger] part[i] == taken[course.asked[at - 1] + i]);
    }
}

/// One where `condition` holds.
pub open spec fn one_if(condition: bool) -> int {
    if condition {
        1
    } else {
        0
    }
}

/// While the ring has frames to give, a callback takes as many frames from it as it gives
/// out, one fewer where it stretched and one more where it merged; a frame that is taken
/// in one callback and given out in the next counts for the next. It never corrects twice,
/// and never without being asked to.
pub proof fn law_callback_takes_what_it_gives<A: Arithmetic>(
    playback: Playback,
    level: usize,
    count: usize,
    course: SlotCourse,
    taken: Seq<Option<FrameBits>>,
)
    requires
        course.valid::<A>(playback.correction(level), taken, count as int),
        course.states[0] == playback.first_slot(),
        forall|i: int| 0 <= i < taken.len() ==> #[trigger] taken[i] is Some,
    ensures
        ({
            let correction = playback.correction(level);
            let end = course.states[count as int];
            &&& end.corrected ==> correction != Correction::Pass
            &&& taken.len() + one_if(playback.pending is Some) - one_if(end.pending is Some)
                == count + (if !end.corrected {
                0int
            } else if correction == Correction::Stretch {
                -1
            } else {
                1
            })
        }),
{
    lemma_balance::<A>(
        course,
        playback.correction(level),
        taken,
        count as int,
        count as int,
    );
}

/// The level of the ring settles how many frames a callback of at least two takes, if the
/// ring holds more than it asks for and nothing is kept from the callback before: one for
/// each frame that it gives out, one fewer where it stretches and one more where it merges,
/// which it then does exactly once.
pub proof fn law_level_settles_frames_taken<A: Arithmetic>(
    playback: Playback,
    level: usize,
    count: usize,
    course: SlotCourse,
    taken: Seq<Option<FrameBits>>,
    seen: Seq<FrameBits>,
    left: Seq<FrameBits>,
)
    requires
        course.valid::<A>(playback.correction(level), taken, count as int),
        course.states[0] == playback.first_slot(),
        playback.pending is None,
        seen.len() == level,
        served(seen, taken, left),
        2 <= count < level,
    ensures
        taken.len() == count + (match playback.correction(level) {
            Correction::Pass => 0int,
            Correction::Stretch => -1,
            Correction::Merge => 1,
        }),
        course.states[count as int].corrected == (playback.correction(level) != Correction::Pass),
        course.states[count as int].pending is None,
        forall|i: int| 0 <= i < taken.len() ==> #[trigger] taken[i] == Some(seen[i]),
        left == seen.skip(taken.len() as int),
{
    lemma_settled::<A>(course, playback.correction(level), taken, seen, left, count as int, count as int);
}

proof fn lemma_settled<A: Arithmetic>(
    course: SlotCourse,
    correction: Correction,
    taken: Seq<Option<FrameBits>>,
    seen: Seq<FrameBits>,
    left: Seq<FrameBits>,
    count: int,
    at: int,
)
    requires
        course.valid::<A>(correction, taken, count),
        !course.states[0].corrected,
        course.states[0].pending is None,
        served(seen, taken, left),
        count < seen.len(),
        0 <= at <= count,
    ensures
        correction == Correction::Pass ==> course.asked[at] == at && !course.states[at].corrected
            && course.states[at].pending is None,
        correction == Correction::Stretch && at >= 1 ==> course.states[at].corrected && (
        course.states[at].pending is Some) == (at == 1),
        correction == Correction::Stretch && at >= 2 ==> course.asked[at] == at - 1,
        correction == Correction::Stretch && at == 1 ==> course.asked[at] == 1,
        correction == Correction::Merge && at >= 1 ==> course.asked[at] == at + 1
            && course.states[at].corrected && course.states[at].pending is None,
    decreases at,
{
    if at > 0 {
        lemma_settled::<A>(course, correction, taken, seen, left, count, at - 1);
        let frame = course.frames[at - 1];
        assert(0 <= course.asked[0] <= course.asked[at - 1] <= course.asked[at]
            <= course.asked[count]);
        let part = taken.subrange(course.asked[at - 1], course.asked[at]);
        assert(part.len() == course.asked[at] - course.asked[at - 1]);
        assert(forall|i: int|
            0 <= i < part.len() ==> #[trigger] part[i] == taken[course.asked[at - 1] + i]);
    }
}

/// The ring is led back to its band: where the last correction is long enough ago, a callback of
/// at least two frames that finds the ring below its band takes one frame fewer than it gives
/// out, one that finds it above takes one more, and any other takes as many as it gives out.
/// Sooner than the interval allows no callback takes more or fewer.
pub proof fn law_ring_is_led_back_to_its_band<A: Arithmetic>(
    playback: Playback,
    level: usize,
    count: usize,
    course: SlotCourse,
    taken: Seq<Option<FrameBits>>,
    seen: Seq<FrameBits>,
    left: Seq<FrameBits>,
)
    requires
        course.valid::<A>(playback.correction(level), taken, count as int),
        course.states[0] == playback.first_slot(),
        playback.pending is None,
        seen.len() == level,
        served(seen, taken, left),
        2 <= count < level,
        playback.low_watermark <= playback.high_watermark,
    ensures
        playback.since >= playback.interval && level < playback.low_watermark ==> {
            &&& taken.len() == count - 1
            &&& left.len() == level - count + 1
        },
        playback.since >= playback.interval && level > playback.high_watermark ==> {
            &&& taken.len() == count + 1
            &&& left.len() == level - count - 1
        },
        playback.low_watermark <= level <= playback.high_watermark || playback.since
            < playback.interval ==> {
            &&& taken.len() == count
            &&& left.len() == level - count
        },
{
    law_level_settles_frames_taken::<A>(playback, level, count, course, taken, seen, left);
}

/// A frame halfway between two: between equal frames it is that frame, it does not matter which
/// of the two comes first, and it lies between them. Let the host add a number to itself and
/// halve the sum without rounding, add in any order alike, and keep what lies between two numbers
/// between them.
pub proof fn law_midpoint_lies_between<A: Arithmetic>(
    a: FrameBits,
    b: FrameBits,
    middle: FrameBits,
    other: FrameBits,
)
    requires
        forall|x: Single, y: Single, total: Single, r: Single|
            #![trigger sum_is::<A>(x, y, total), product_is::<A>(total, single(HALF), r)]
            sum_is::<A>(x, y, total) && product_is::<A>(total, single(HALF), r) && total.finite()
                && !x.nan() && !y.nan() ==> {
                &&& x == y ==> r == x
                &&& x.at_most(y) ==> x.at_most(r) && r.at_most(y)
                &&& y.at_most(x) ==> y.at_most(r) && r.at_most(x)
            },
        forall|x: Single, y: Single, total: Single| #[trigger]
            sum_is::<A>(x, y, total) && (x == single(a.0) && y == single(b.0) || x == single(a.1)
                && y == single(b.1)) ==> total.finite(),
        forall|x: Single, y: Single, r: Single, q: Single|
            #![trigger sum_is::<A>(x, y, r), sum_is::<A>(y, x, q)]
            sum_is::<A>(x, y, r) && sum_is::<A>(y, x, q) ==> r == q,
        forall|x: Single, r: Single, q: Single|
            #![trigger product_is::<A>(x, single(HALF), r), product_is::<A>(x, single(HALF), q)]
            product_is::<A>(x, single(HALF), r) && product_is::<A>(x, single(HALF), q) ==> r == q,
        midpoint_is::<A>(a, b, middle),
        midpoint_is::<A>(b, a, other),
        !single(a.0).nan() && !single(a.1).nan() && !single(b.0).nan() && !single(b.1).nan(),
    ensures
        a == b ==> middle == a,
        other == middle,
        single(a.0).at_most(single(b.0)) ==> single(a.0).at_most(single(middle.0)) && single(
            middle.0,
        ).at_most(single(b.0)),
        single(b.0).at_most(single(a.0)) ==> single(b.0).at_most(single(middle.0)) && single(
            middle.0,
        ).at_most(single(a.0)),
        single(a.1).at_most(single(b.1)) ==> single(a.1).at_most(single(middle.1)) && single(
            middle.1,
        ).at_most(single(b.1)),
        single(b.1).at_most(single(a.1)) ==> single(b.1).at_most(single(middle.1)) && single(
            middle.1,
        ).at_most(single(a.1)),
{
    assert(single(middle.0) == single(other.0));
    assert(single(middle.1) == single(other.1));
}

/// A stretched frame is put in between: the slot gives out the frame halfway between the one given
/// out last and the next of the ring, and the slot after it that next one, without asking the ring.
pub proof fn law_stretched_frame_comes_in_between<A: Arithmetic>(
    state: SlotState,
    following: FrameBits,
    next: SlotState,
    frame: FrameBits,
    correction: Correction,
    taken: Seq<Option<FrameBits>>,
    later: SlotState,
    later_frame: FrameBits,
)
    requires
        state.pending is None,
        !state.corrected,
        state.gives::<A>(Correction::Stretch, seq![Some(following)], next, frame),
        next.gives::<A>(correction, taken, later, later_frame),
    ensures
        midpoint_is::<A>(state.last, following, frame),
        later_frame == following,
        taken.len() == 0,
        later.last == following,
        later.pending is None,
        later.corrected,
{
}

/// Two frames are merged into the one halfway between them, and nothing is kept of them.
pub proof fn law_merged_frames_become_one<A: Arithmetic>(
    state: SlotState,
    first: FrameBits,
    second: FrameBits,
    next: SlotState,
    frame: FrameBits,
)
    requires
        state.pending is None,
        !state.corrected,
        state.gives::<A>(Correction::Merge, seq![Some(first), Some(second)], next, frame),
    ensures
        midpoint_is::<A>(first, second, frame),
        next.last == frame,
        next.pending is None,
        next.corrected,
{
}

/// The frames of a callback fill its buffer in their order, the left sample of each before the
/// right one.
pub proof fn law_buffer_holds_left_before_right(frames: Seq<FrameBits>, samples: int, at: int)
    requires
        0 <= at < frames.len(),
        2 * at + 1 < samples,
    ensures
        interleaved(frames, samples).len() == samples,
        interleaved(frames, samples)[2 * at] == single(frames[at].0),
        interleaved(frames, samples)[2 * at + 1] == single(frames[at].1),
{
    assert((2 * at) / 2 == at && (2 * at) % 2 == 0);
    assert((2 * at + 1) / 2 == at && (2 * at + 1) % 2 == 1);
}

/// What a callback leaves for the next: a callback that corrected starts the interval anew, one
/// that did not adds its frames to what has gone by, and the band and the interval stay.
pub proof fn law_interval_counts_frames(playback: Playback, count: usize, slot: SlotState)
    ensures
        ({
            let after = playback.after(count, slot);
            &&& slot.corrected ==> after.since == 0
            &&& !slot.corrected && playback.since + count <= usize::MAX ==> after.since
                == playback.since + count
            &&& after.last == slot.last
            &&& after.pending == slot.pending
            &&& after.low_watermark == playback.low_watermark
            &&& after.high_watermark == playback.high_watermark
            &&& after.interval == playback.interval
        }),
{
}

/// A stretch of callbacks, one after the other.
pub struct PlaybackRun {
    /// The output side before each callback, and after the last.
    pub playbacks: Seq<Playback>,
    /// The frames of each callback.
    pub counts: Seq<usize>,
    /// The level of the ring that each callback saw.
    pub levels: Seq<usize>,
    /// What the ring answered to each callback.
    pub answered: Seq<Seq<Option<FrameBits>>>,
    /// How the slots of each callback followed one another.
    pub courses: Seq<SlotCourse>,
}

impl PlaybackRun {
    /// Each callback follows from the one before.
    pub open spec fn valid<A: Arithmetic>(self) -> bool {
        &&& self.playbacks.len() == self.counts.len() + 1
        &&& self.levels.len() == self.counts.len()
        &&& self.answered.len() == self.counts.len()
        &&& self.courses.len() == self.counts.len()
        &&& forall|i: int|
            #![trigger self.courses[i]]
            0 <= i < self.counts.len() ==> {
                &&& self.courses[i].valid::<A>(
                    self.playbacks[i].correction(self.levels[i]),
                    self.answered[i],
                    self.counts[i] as int,
                )
                &&& self.courses[i].states[0] == self.playbacks[i].first_slot()
                &&& self.playbacks[i + 1] == self.playbacks[i].after(
                    self.counts[i],
                    self.courses[i].states[self.counts[i] as int],
                )
            }
    }

    /// The frames of the callbacks from `from` up to, but without, `to`.
    pub open spec fn frames_between(self, from: int, to: int) -> int
        decreases to - from,
    {
        if to <= from {
            0
        } else {
            self.frames_between(from, to - 1) + self.counts[to - 1]
        }
    }

    /// Where a slot of a callback stands among all frames that are given out.
    pub open spec fn position(self, callback: int, slot: int) -> int {
        self.frames_between(0, callback) + slot
    }

    /// The frame of this slot is a corrected one.
    pub open spec fn corrects_at(self, callback: int, slot: int) -> bool {
        &&& 0 <= callback < self.counts.len()
        &&& 0 <= slot < self.counts[callback]
        &&& !self.courses[callback].states[slot].corrected
        &&& self.courses[callback].states[slot + 1].corrected
    }
}

/// Whoever has corrected in a callback stays so until its end, and nobody does unless asked.
proof fn lemma_corrected_stays<A: Arithmetic>(
    course: SlotCourse,
    correction: Correction,
    taken: Seq<Option<FrameBits>>,
    count: int,
    from: int,
    to: int,
)
    requires
        course.valid::<A>(correction, taken, count),
        0 <= from <= to <= count,
    ensures
        course.states[from].corrected ==> course.states[to].corrected,
        correction == Correction::Pass ==> course.states[to].corrected
            == course.states[from].corrected,
    decreases to - from,
{
    if from < to {
        lemma_corrected_stays::<A>(course, correction, taken, count, from, to - 1);
        let frame = course.frames[to - 1];
    }
}

proof fn lemma_frames_add_up(run: PlaybackRun, from: int, middle: int, to: int)
    requires
        0 <= from <= middle <= to <= run.counts.len(),
    ensures
        run.frames_between(from, to) == run.frames_between(from, middle) + run.frames_between(
            middle,
            to,
        ),
        run.frames_between(middle, to) >= 0,
    decreases to,
{
    if middle < to {
        lemma_frames_add_up(run, from, middle, to - 1);
    }
}

proof fn lemma_since_is_bounded<A: Arithmetic>(run: PlaybackRun, first: int, at: int)
    requires
        run.valid::<A>(),
        0 <= first < at < run.playbacks.len(),
        run.courses[first].states[run.counts[first] as int].corrected,
    ensures
        run.playbacks[at].since <= run.frames_between(first + 1, at),
        run.playbacks[at].interval == run.playbacks[first].interval,
    decreases at,
{
    let course = run.courses[at - 1];
    if at > first + 1 {
        lemma_since_is_bounded::<A>(run, first, at - 1);
    }
}

/// Any two corrected frames lie at least `interval` frames apart, counted in the frames that
/// are given out and whatever the sizes of the callbacks.
pub proof fn law_corrections_keep_their_distance<A: Arithmetic>(
    run: PlaybackRun,
    callback: int,
    slot: int,
    later_callback: int,
    later_slot: int,
)
    requires
        run.valid::<A>(),
        run.corrects_at(callback, slot),
        run.corrects_at(later_callback, later_slot),
        run.position(callback, slot) < run.position(later_callback, later_slot),
    ensures
        run.position(later_callback, later_slot) - run.position(callback, slot)
            >= run.playbacks[callback].interval,
{
    let course = run.courses[callback];
    let later_course = run.courses[later_callback];
    let count = run.counts[callback] as int;
    let later_count = run.counts[later_callback] as int;
    if callback > later_callback {
        lemma_frames_add_up(run, 0, later_callback + 1, callback);
        assert(false);
    } else if callback == later_callback {
        lemma_corrected_stays::<A>(
            course,
            run.playbacks[callback].correction(run.levels[callback]),
            run.answered[callback],
            count,
            slot + 1,
            later_slot,
        );
        assert(false);
    } else {
        lemma_corrected_stays::<A>(
            course,
            run.playbacks[callback].correction(run.levels[callback]),
            run.answered[callback],
            count,
            slot + 1,
            count,
        );
        lemma_since_is_bounded::<A>(run, callback, later_callback);
        lemma_corrected_stays::<A>(
            later_course,
            run.playbacks[later_callback].correction(run.levels[later_callback]),
            run.answered[later_callback],
            later_count,
            later_slot,
            later_slot + 1,
        );
        lemma_frames_add_up(run, 0, callback + 1, later_callback);
    }
}

} // verus!
