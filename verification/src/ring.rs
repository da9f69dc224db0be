//! The two ends of a ring of stereo frames, one for the thread that fills it and one for
//! the thread that empties it.
//!
//! The ring itself is the one of the `ringbuf` crate. Each of its ends keeps its own idea
//! of the ring, which lags behind the other end: the reading end knows the frames up to
//! where it last looked, the writing end knows the free places up to where it last looked.
//! What is stated here of an end is about its own idea alone, so it holds whatever the
//! thread at the other end does. The two ends meet in what the ring carries: the frames that
//! ever go through it, counted from the first. The writing end puts each frame in at the next
//! place of that list, the reading end takes each frame out from the next place, and both
//! ends of one ring have the same list.

use ringbuf::traits::{Consumer, Observer, Producer, Split};
use vstd::prelude::*;

verus! {

/// The bit patterns of a left and a right sample.
pub type FrameBits = (u32, u32);

/// Most frames that a ring may hold: an allocation has no more bytes than the largest
/// signed size, and a frame takes eight.
pub open spec fn largest_ring() -> int {
    isize::MAX / 8
}

/// Whether a ring may hold so many frames.
pub fn ring_fits(capacity: usize) -> (fits: bool)
    ensures
        fits == (0 < capacity <= largest_ring()),
{
    0 < capacity && capacity <= isize::MAX as usize / 8
}

/// The writing end of a ring.
#[verifier::external_body]
pub struct FrameSink {
    inner: ringbuf::HeapProd<FrameBits>,
}

/// The reading end of a ring.
#[verifier::external_body]
pub struct FrameSource {
    inner: ringbuf::HeapCons<FrameBits>,
}

/// The free places that a writing end knows of.
pub uninterp spec fn room(sink: FrameSink) -> nat;

/// The frames that a writing end was given so far, each with whether the ring took it.
pub uninterp spec fn offers(sink: FrameSink) -> Seq<(FrameBits, bool)>;

/// The frames that a reading end knows of, eldest first.
pub uninterp spec fn visible(source: FrameSource) -> Seq<FrameBits>;

/// What a reading end answered so far each time it was asked for a frame.
pub uninterp spec fn answers(source: FrameSource) -> Seq<Option<FrameBits>>;

/// What a reading end answered so far each time it was asked how many frames there are.
pub uninterp spec fn levels(source: FrameSource) -> Seq<usize>;

/// The frames that ever go through the ring of a writing end, by their place in the order in
/// which they go in.
pub uninterp spec fn carried_in(sink: FrameSink) -> Map<nat, FrameBits>;

/// The frames that ever go through the ring of a reading end, by their place in the order in
/// which they come out.
pub uninterp spec fn carried_out(source: FrameSource) -> Map<nat, FrameBits>;

/// The frames among the offered ones that the ring took.
pub open spec fn taken_frames(offered: Seq<(FrameBits, bool)>) -> Seq<FrameBits>
    decreases offered.len(),
{
    if offered.len() == 0 {
        Seq::empty()
    } else if offered.last().1 {
        taken_frames(offered.drop_last()).push(offered.last().0)
    } else {
        taken_frames(offered.drop_last())
    }
}

/// The frames among the answers.
pub open spec fn given_frames(answered: Seq<Option<FrameBits>>) -> Seq<FrameBits>
    decreases answered.len(),
{
    if answered.len() == 0 {
        Seq::empty()
    } else {
        match answered.last() {
            Some(frame) => given_frames(answered.drop_last()).push(frame),
            None => given_frames(answered.drop_last()),
        }
    }
}

/// What the ring took from this end is what it carries, frame by frame.
pub open spec fn sink_in_order(sink: FrameSink) -> bool {
    forall|k: int|
        0 <= k < taken_frames(offers(sink)).len() ==> carried_in(sink)[k as nat]
            == #[trigger] taken_frames(offers(sink))[k]
}

/// What this end was given is what the ring carries, frame by frame.
pub open spec fn source_in_order(source: FrameSource) -> bool {
    forall|k: int|
        0 <= k < given_frames(answers(source)).len() ==> carried_out(source)[k as nat]
            == #[trigger] given_frames(answers(source))[k]
}

/// The two are the ends of one ring.
pub open spec fn one_ring(sink: FrameSink, source: FrameSource) -> bool {
    carried_in(sink) == carried_out(source)
}

/// `next` is a later state of the writing end `sink`: it belongs to the same ring, and goes
/// on putting the frames in one after the other.
pub open spec fn sink_goes_on(sink: FrameSink, next: FrameSink) -> bool {
    &&& carried_in(next) == carried_in(sink)
    &&& sink_in_order(sink) ==> sink_in_order(next)
}

/// `next` is a later state of the reading end `source`: it belongs to the same ring, and goes
/// on taking the frames out one after the other.
pub open spec fn source_goes_on(source: FrameSource, next: FrameSource) -> bool {
    &&& carried_out(next) == carried_out(source)
    &&& source_in_order(source) ==> source_in_order(next)
}

/// A writing end that knew of a place for each of the frames `offered` took them all.
pub open spec fn room_sufficed(
    before: FrameSink,
    offered: Seq<(FrameBits, bool)>,
    after: FrameSink,
) -> bool {
    room(before) >= offered.len() ==> {
        &&& room(after) == room(before) - offered.len()
        &&& forall|i: int| 0 <= i < offered.len() ==> (#[trigger] offered[i]).1
    }
}

/// Calls `ringbuf::HeapRb::new` and `split`: a ring of `capacity` places starts empty, both
/// ends know it, and both carry the same frames. `HeapRb::new` panics where `capacity` is zero or where the places
/// take more memory than an allocation can have, which is left out here.
#[verifier::external_body]
pub(crate) fn new_ring(capacity: usize) -> (ends: (FrameSink, FrameSource))
    requires
        0 < capacity <= largest_ring(),
    ensures
        room(ends.0) == capacity,
        offers(ends.0) == Seq::<(FrameBits, bool)>::empty(),
        visible(ends.1) == Seq::<FrameBits>::empty(),
        answers(ends.1) == Seq::<Option<FrameBits>>::empty(),
        levels(ends.1) == Seq::<usize>::empty(),
        carried_in(ends.0) == carried_out(ends.1),
{
    let (sink, source) = ringbuf::HeapRb::<FrameBits>::new(capacity).split();
    (FrameSink { inner: sink }, FrameSource { inner: source })
}

impl FrameSink {
    /// Calls `try_push` of `ringbuf`'s producer. Where the end knows of a free place, the
    /// frame goes there. Where it knows of none it looks again, and refuses the frame only
    /// if it still finds none. How many places it then finds depends on the other end. A frame
    /// that is taken goes through the ring behind all those that were taken before it.
    #[verifier::external_body]
    pub(crate) fn try_push(&mut self, frame: FrameBits) -> (taken: bool)
        ensures
            offers(*final(self)) == offers(*old(self)).push((frame, taken)),
            room(*old(self)) > 0 ==> taken && room(*final(self)) == room(*old(self)) - 1,
            !taken ==> room(*final(self)) == 0,
            carried_in(*final(self)) == carried_in(*old(self)),
            taken ==> carried_in(*old(self))[taken_frames(offers(*old(self))).len()] == frame,
    {
        self.inner.try_push(frame).is_ok()
    }
}

impl FrameSource {
    /// Calls `try_pop` of `ringbuf`'s consumer. Where the end knows of frames, it gives the
    /// eldest. Where it knows of none it looks again, and gives nothing only if it still
    /// finds none. Which frames it then finds depends on the other end. A frame that is given
    /// is the one that goes through the ring behind all those that were given before it.
    #[verifier::external_body]
    pub(crate) fn try_pop(&mut self) -> (frame: Option<FrameBits>)
        ensures
            answers(*final(self)) == answers(*old(self)).push(frame),
            levels(*final(self)) == levels(*old(self)),
            visible(*old(self)).len() > 0 ==> {
                &&& frame == Some(visible(*old(self))[0])
                &&& visible(*final(self)) == visible(*old(self)).drop_first()
            },
            frame is None ==> visible(*final(self)) == Seq::<FrameBits>::empty(),
            carried_out(*final(self)) == carried_out(*old(self)),
            frame is Some ==> frame == Some(
                carried_out(*old(self))[given_frames(answers(*old(self))).len()],
            ),
    {
        self.inner.try_pop()
    }

    /// Calls `occupied_len` of `ringbuf`'s observer on the reading end. The end looks again,
    /// and may come to know of further frames behind those that it knew; the result is the
    /// number that it then knows of. Which frames are added depends on the other end.
    #[verifier::external_body]
    pub(crate) fn occupied_len(&mut self) -> (count: usize)
        ensures
            answers(*final(self)) == answers(*old(self)),
            levels(*final(self)) == levels(*old(self)).push(count),
            carried_out(*final(self)) == carried_out(*old(self)),
            visible(*old(self)).is_prefix_of(visible(*final(self))),
            count == visible(*final(self)).len(),
    {
        self.inner.occupied_len()
    }
}

proof fn lemma_taken_push(offered: Seq<(FrameBits, bool)>, frame: FrameBits, taken: bool)
    ensures
        taken_frames(offered.push((frame, taken))) == (if taken {
            taken_frames(offered).push(frame)
        } else {
            taken_frames(offered)
        }),
{
    assert(offered.push((frame, taken)).drop_last() =~= offered);
}

proof fn lemma_given_push(answered: Seq<Option<FrameBits>>, answer: Option<FrameBits>)
    ensures
        given_frames(answered.push(answer)) == (match answer {
            Some(frame) => given_frames(answered).push(frame),
            None => given_frames(answered),
        }),
{
    assert(answered.push(answer).drop_last() =~= answered);
}

impl FrameSink {
    /// Offers a frame to the ring; gives back whether the ring took it.
    pub fn push(&mut self, frame: FrameBits) -> (taken: bool)
        ensures
            offers(*final(self)) == offers(*old(self)).push((frame, taken)),
            room(*old(self)) > 0 ==> taken && room(*final(self)) == room(*old(self)) - 1,
            !taken ==> room(*final(self)) == 0,
            sink_goes_on(*old(self), *final(self)),
    {
        let ghost before = *self;
        let taken = self.try_push(frame);
        proof {
            lemma_taken_push(offers(before), frame, taken);
        }
        taken
    }
}

impl FrameSource {
    /// Asks the ring for the next frame.
    pub fn pop(&mut self) -> (frame: Option<FrameBits>)
        ensures
            answers(*final(self)) == answers(*old(self)).push(frame),
            levels(*final(self)) == levels(*old(self)),
            visible(*old(self)).len() > 0 ==> {
                &&& frame == Some(visible(*old(self))[0])
                &&& visible(*final(self)) == visible(*old(self)).drop_first()
            },
            frame is None ==> visible(*final(self)) == Seq::<FrameBits>::empty(),
            source_goes_on(*old(self), *final(self)),
    {
        let ghost before = *self;
        let frame = self.try_pop();
        proof {
            lemma_given_push(answers(before), frame);
        }
        frame
    }
}

/// First in, first out: of the two ends of one ring, the frame that the reading end was given
/// at any place is the one that the ring took from the writing end at that place.
pub proof fn law_frames_come_out_as_they_went_in(sink: FrameSink, source: FrameSource, at: int)
    requires
        one_ring(sink, source),
        sink_in_order(sink),
        source_in_order(source),
        0 <= at < taken_frames(offers(sink)).len(),
        at < given_frames(answers(source)).len(),
    ensures
        given_frames(answers(source))[at] == taken_frames(offers(sink))[at],
{
}

} // verus!
