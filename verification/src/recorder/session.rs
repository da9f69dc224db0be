//! The recorder's part of an audio session, from its start until it is taken down.

use vstd::prelude::*;

use crate::recorder::cells::{
    Recorder, RecorderAccess, RecorderCells, STATE_ERROR, STATE_IDLE, STATE_RECORDING,
    STATE_SAVING, STATE_STARTING,
};
use crate::recorder::writer::Fault;
use crate::ring::{
    answers, largest_ring, levels, new_ring, offers, one_ring, room, sink_goes_on, sink_in_order,
    source_in_order, visible, FrameBits, FrameSink, FrameSource,
};
use crate::single::Single;

verus! {

/// The ring between the input callbacks and the writer holds so many seconds.
pub const RECORDER_BUFFER_SECONDS: usize = 2;

/// How many frames that is.
pub open spec fn recorder_capacity(sample_rate: u32) -> usize {
    if sample_rate * RECORDER_BUFFER_SECONDS > usize::MAX {
        usize::MAX
    } else if sample_rate == 0 {
        1
    } else {
        (sample_rate * RECORDER_BUFFER_SECONDS) as usize
    }
}

/// The capacity of the ring for `sample_rate` frames a second.
pub fn ring_capacity(sample_rate: u32) -> (capacity: usize)
    ensures
        capacity == recorder_capacity(sample_rate),
{
    let rate: usize = sample_rate as usize;
    if rate > usize::MAX / RECORDER_BUFFER_SECONDS {
        usize::MAX
    } else if rate == 0 {
        1
    } else {
        rate * RECORDER_BUFFER_SECONDS
    }
}

/// The end of the recorder's ring that the input callbacks hold. Handing a frame over
/// neither waits nor allocates.
pub struct RealtimeRecorder {
    pub producer: FrameSink,
}

impl RealtimeRecorder {
    /// Hands a frame over; gives back whether there was a place for it.
    pub fn try_push(&mut self, left: Single, right: Single) -> (taken: bool)
        ensures
            offers(final(self).producer) == offers(old(self).producer).push(
                ((left.bits, right.bits), taken),
            ),
            room(old(self).producer) > 0 ==> taken && room(final(self).producer) == room(
                old(self).producer,
            ) - 1,
            !taken ==> room(final(self).producer) == 0,
            sink_goes_on(old(self).producer, final(self).producer),
    {
        self.producer.push((left.to_bits(), right.to_bits()))
    }
}

/// A ring for the recording of a stream of `sample_rate` frames a second.
pub fn recorder_ring(sample_rate: u32) -> (ends: (RealtimeRecorder, FrameSource))
    requires
        recorder_capacity(sample_rate) <= largest_ring(),
    ensures
        room(ends.0.producer) == recorder_capacity(sample_rate),
        offers(ends.0.producer) == Seq::<(FrameBits, bool)>::empty(),
        visible(ends.1) == Seq::<FrameBits>::empty(),
        answers(ends.1) == Seq::<Option<FrameBits>>::empty(),
        levels(ends.1) == Seq::<usize>::empty(),
        one_ring(ends.0.producer, ends.1),
        sink_in_order(ends.0.producer),
        source_in_order(ends.1),
{
    let (producer, consumer) = new_ring(ring_capacity(sample_rate));
    (RealtimeRecorder { producer }, consumer)
}

/// What a session that begins does to the cells, in order.
pub open spec fn opening(sample_rate: u32) -> Seq<RecorderAccess> {
    seq![
        RecorderAccess::StoreAvailable(false),
        RecorderAccess::StoreRequested(false),
        RecorderAccess::StoreState(STATE_IDLE),
        RecorderAccess::StoreRate(sample_rate),
        RecorderAccess::ResetCallbacks,
        RecorderAccess::ClearError,
    ]
}

pub fn opening_accesses(sample_rate: u32) -> (accesses: Vec<RecorderAccess>)
    ensures
        accesses@ == opening(sample_rate),
{
    let mut accesses: Vec<RecorderAccess> = Vec::new();
    accesses.push(RecorderAccess::StoreAvailable(false));
    accesses.push(RecorderAccess::StoreRequested(false));
    accesses.push(RecorderAccess::StoreState(STATE_IDLE));
    accesses.push(RecorderAccess::StoreRate(sample_rate));
    accesses.push(RecorderAccess::ResetCallbacks);
    accesses.push(RecorderAccess::ClearError);
    proof {
        assert(accesses@ =~= opening(sample_rate));
    }
    accesses
}

/// The recorder after the accesses, one after the other.
pub open spec fn after_all(recorder: Recorder, accesses: Seq<RecorderAccess>) -> Recorder
    decreases accesses.len(),
{
    if accesses.len() == 0 {
        recorder
    } else {
        after_all(recorder, accesses.drop_last()).after(accesses.last())
    }
}

/// The recorder at the start of a session.
pub open spec fn opened(recorder: Recorder, sample_rate: u32) -> Recorder {
    Recorder {
        cells: RecorderCells {
            session_available: false,
            recording_requested: false,
            recorder_state: STATE_IDLE,
            sample_rate,
            active_input_callbacks: 0,
            ..recorder.cells
        },
        last_path: recorder.last_path,
        last_error: None,
    }
}

/// Starts a session: resets the cells and makes the ring. Recordings can be asked for once
/// the session is marked as available.
pub fn start_session(recorder: &mut Recorder, sample_rate: u32) -> (session: (
    RealtimeRecorder,
    FrameSource,
    RecorderSession,
))
    requires
        recorder_capacity(sample_rate) <= largest_ring(),
    ensures
        *final(recorder) == opened(*old(recorder), sample_rate),
        room(session.0.producer) == recorder_capacity(sample_rate),
        offers(session.0.producer) == Seq::<(FrameBits, bool)>::empty(),
        visible(session.1) == Seq::<FrameBits>::empty(),
        answers(session.1) == Seq::<Option<FrameBits>>::empty(),
        levels(session.1) == Seq::<usize>::empty(),
        one_ring(session.0.producer, session.1),
        sink_in_order(session.0.producer),
        source_in_order(session.1),
        session.2 == RecorderSession::fresh(),
{
    let accesses = opening_accesses(sample_rate);
    let ghost before = *recorder;
    let mut i: usize = 0;
    while i < accesses.len()
        invariant
            i <= accesses@.len(),
            *recorder == after_all(before, accesses@.take(i as int)),
        decreases accesses@.len() - i,
    {
        recorder.perform(accesses[i]);
        proof {
            assert(accesses@.take(i + 1).drop_last() =~= accesses@.take(i as int));
        }
        i = i + 1;
    }
    proof {
        assert(accesses@.take(i as int) =~= opening(sample_rate));
        lemma_opening(before, sample_rate);
    }
    let (realtime, consumer) = recorder_ring(sample_rate);
    (realtime, consumer, RecorderSession::new())
}

proof fn lemma_opening(recorder: Recorder, sample_rate: u32)
    ensures
        after_all(recorder, opening(sample_rate)) == opened(recorder, sample_rate),
{
    let all = opening(sample_rate);
    assert(all.take(6) =~= all);
    assert(all.take(6).drop_last() =~= all.take(5));
    assert(all.take(5).drop_last() =~= all.take(4));
    assert(all.take(4).drop_last() =~= all.take(3));
    assert(all.take(3).drop_last() =~= all.take(2));
    assert(all.take(2).drop_last() =~= all.take(1));
    assert(all.take(1).drop_last() =~= all.take(0));
    assert(after_all(recorder, all.take(0)) == recorder);
    let one = after_all(recorder, all.take(1));
    let two = after_all(recorder, all.take(2));
    let three = after_all(recorder, all.take(3));
    let four = after_all(recorder, all.take(4));
    let five = after_all(recorder, all.take(5));
    assert(one == recorder.after(all[0]));
    assert(two == one.after(all[1]));
    assert(three == two.after(all[2]));
    assert(four == three.after(all[3]));
    assert(five == four.after(all[4]));
}

/// What the owner of a session does next while it takes the session down.
#[derive(Clone, Copy, Debug, PartialEq, Eq, Structural)]
pub enum TeardownStep {
    Access(RecorderAccess),
    /// Tell the writer to end.
    SignalShutdown,
    /// Wait until the writer has ended; answers whether it ended by a panic.
    JoinWriter,
    /// Make the fault the last error.
    NoteFault(Fault),
    /// Forget whom to wake.
    ForgetWriter,
}

/// Where the taking down stands.
#[derive(Clone, Copy, Debug, PartialEq, Eq, Structural)]
pub enum TeardownStage {
    Close,
    Withdraw,
    Signal,
    Wake,
    Join,
    NoteCrash,
    MarkCrash,
    Forget,
    /// A request may have come in between.
    WithdrawAgain,
    LookState,
    MarkIdle,
    Done,
}

/// The owner's hold on the recorder's part of a session.
#[derive(Clone, Copy, Debug, PartialEq, Eq, Structural)]
pub struct RecorderSession {
    pub stage: TeardownStage,
}

impl RecorderSession {
    /// A session that is not being taken down yet.
    pub open spec fn fresh() -> RecorderSession {
        RecorderSession { stage: TeardownStage::Close }
    }

    pub open spec fn upcoming(self) -> Option<TeardownStep> {
        match self.stage {
            TeardownStage::Close => Some(
                TeardownStep::Access(RecorderAccess::StoreAvailable(false)),
            ),
            TeardownStage::Withdraw => Some(
                TeardownStep::Access(RecorderAccess::StoreRequested(false)),
            ),
            TeardownStage::Signal => Some(TeardownStep::SignalShutdown),
            TeardownStage::Wake => Some(TeardownStep::Access(RecorderAccess::Wake)),
            TeardownStage::Join => Some(TeardownStep::JoinWriter),
            TeardownStage::NoteCrash => Some(TeardownStep::NoteFault(Fault::Crash)),
            TeardownStage::MarkCrash => Some(
                TeardownStep::Access(RecorderAccess::StoreState(STATE_ERROR)),
            ),
            TeardownStage::Forget => Some(TeardownStep::ForgetWriter),
            TeardownStage::WithdrawAgain => Some(
                TeardownStep::Access(RecorderAccess::StoreRequested(false)),
            ),
            TeardownStage::LookState => Some(TeardownStep::Access(RecorderAccess::LoadState)),
            TeardownStage::MarkIdle => Some(
                TeardownStep::Access(RecorderAccess::StoreState(STATE_IDLE)),
            ),
            TeardownStage::Done => None,
        }
    }

    /// The owner after its next step gave `answer`.
    pub open spec fn resumed(self, answer: u64) -> RecorderSession {
        let stage = match self.stage {
            TeardownStage::Close => TeardownStage::Withdraw,
            TeardownStage::Withdraw => TeardownStage::Signal,
            TeardownStage::Signal => TeardownStage::Wake,
            TeardownStage::Wake => TeardownStage::Join,
            TeardownStage::Join => if answer != 0 {
                TeardownStage::NoteCrash
            } else {
                TeardownStage::Forget
            },
            TeardownStage::NoteCrash => TeardownStage::MarkCrash,
            TeardownStage::MarkCrash => TeardownStage::Forget,
            TeardownStage::Forget => TeardownStage::WithdrawAgain,
            TeardownStage::WithdrawAgain => TeardownStage::LookState,
            TeardownStage::LookState => if answer == STATE_STARTING || answer == STATE_RECORDING
                || answer == STATE_SAVING {
                TeardownStage::MarkIdle
            } else {
                TeardownStage::Done
            },
            TeardownStage::MarkIdle => TeardownStage::Done,
            TeardownStage::Done => TeardownStage::Done,
        };
        RecorderSession { stage }
    }

    pub fn new() -> (session: RecorderSession)
        ensures
            session == RecorderSession::fresh(),
    {
        RecorderSession { stage: TeardownStage::Close }
    }

    /// What marks the session as one in which recordings can be asked for.
    pub fn availability() -> (access: RecorderAccess)
        ensures
            access == RecorderAccess::StoreAvailable(true),
    {
        RecorderAccess::StoreAvailable(true)
    }

    /// From now on recordings can be asked for.
    pub fn mark_available(&self, recorder: &mut Recorder)
        ensures
            *final(recorder) == (Recorder {
                cells: RecorderCells { session_available: true, ..old(recorder).cells },
                ..*old(recorder)
            }),
    {
        recorder.perform(Self::availability());
    }

    pub fn next_step(&self) -> (step: Option<TeardownStep>)
        ensures
            step == self.upcoming(),
    {
        match self.stage {
            TeardownStage::Close => Some(
                TeardownStep::Access(RecorderAccess::StoreAvailable(false)),
            ),
            TeardownStage::Withdraw => Some(
                TeardownStep::Access(RecorderAccess::StoreRequested(false)),
            ),
            TeardownStage::Signal => Some(TeardownStep::SignalShutdown),
            TeardownStage::Wake => Some(TeardownStep::Access(RecorderAccess::Wake)),
            TeardownStage::Join => Some(TeardownStep::JoinWriter),
            TeardownStage::NoteCrash => Some(TeardownStep::NoteFault(Fault::Crash)),
            TeardownStage::MarkCrash => Some(
                TeardownStep::Access(RecorderAccess::StoreState(STATE_ERROR)),
            ),
            TeardownStage::Forget => Some(TeardownStep::ForgetWriter),
            TeardownStage::WithdrawAgain => Some(
                TeardownStep::Access(RecorderAccess::StoreRequested(false)),
            ),
            TeardownStage::LookState => Some(TeardownStep::Access(RecorderAccess::LoadState)),
            TeardownStage::MarkIdle => Some(
                TeardownStep::Access(RecorderAccess::StoreState(STATE_IDLE)),
            ),
            TeardownStage::Done => None,
        }
    }

    /// Takes in what the step last asked for gave.
    pub fn resume(&mut self, answer: u64)
        ensures
            *final(self) == old(self).resumed(answer),
    {
        self.stage = match self.stage {
            TeardownStage::Close => TeardownStage::Withdraw,
            TeardownStage::Withdraw => TeardownStage::Signal,
            TeardownStage::Signal => TeardownStage::Wake,
            TeardownStage::Wake => TeardownStage::Join,
            TeardownStage::Join => if answer != 0 {
                TeardownStage::NoteCrash
            } else {
                TeardownStage::Forget
            },
            TeardownStage::NoteCrash => TeardownStage::MarkCrash,
            TeardownStage::MarkCrash => TeardownStage::Forget,
            TeardownStage::Forget => TeardownStage::WithdrawAgain,
            TeardownStage::WithdrawAgain => TeardownStage::LookState,
            TeardownStage::LookState => if answer == STATE_STARTING as u64 || answer
                == STATE_RECORDING as u64 || answer == STATE_SAVING as u64 {
                TeardownStage::MarkIdle
            } else {
                TeardownStage::Done
            },
            TeardownStage::MarkIdle => TeardownStage::Done,
            TeardownStage::Done => TeardownStage::Done,
        };
    }
}

/// The ring between the input callbacks and the writer holds two seconds.
pub proof fn law_ring_holds_two_seconds(sample_rate: u32)
    ensures
        0 < sample_rate && 2 * sample_rate <= usize::MAX ==> recorder_capacity(sample_rate) == 2
            * sample_rate,
        recorder_capacity(sample_rate) >= 1,
        sample_rate == 0 ==> recorder_capacity(sample_rate) == 1,
{
}

/// A session begins with nothing asked for, nothing available and no callback at work, in the idle
/// state and at its own rate; it forgets the last error, and keeps the file of the last recording
/// and what was counted of it.
pub proof fn law_session_begins_idle(recorder: Recorder, sample_rate: u32)
    ensures
        !opened(recorder, sample_rate).cells.session_available,
        !opened(recorder, sample_rate).cells.recording_requested,
        opened(recorder, sample_rate).cells.recorder_state == 0,
        opened(recorder, sample_rate).cells.sample_rate == sample_rate,
        opened(recorder, sample_rate).cells.active_input_callbacks == 0,
        opened(recorder, sample_rate).cells.written_frames == recorder.cells.written_frames,
        opened(recorder, sample_rate).cells.dropped_frames == recorder.cells.dropped_frames,
        opened(recorder, sample_rate).last_error is None,
        opened(recorder, sample_rate).last_path == recorder.last_path,
{
}

/// A session is taken down in order: it is closed to requests before a request is taken back, the
/// writer is told to end and woken before it is waited for, a writer that panicked is reported as
/// an error, and a state that is still to be followed by another is settled last.
pub proof fn law_session_is_taken_down_in_order(answer: u64)
    ensures
        ({
            let first = RecorderSession::fresh();
            let second = first.resumed(answer);
            let third = second.resumed(answer);
            let fourth = third.resumed(answer);
            let waiting = fourth.resumed(answer);
            &&& first.upcoming() == Some(
                TeardownStep::Access(RecorderAccess::StoreAvailable(false)),
            )
            &&& second.upcoming() == Some(
                TeardownStep::Access(RecorderAccess::StoreRequested(false)),
            )
            &&& third.upcoming() == Some(TeardownStep::SignalShutdown)
            &&& fourth.upcoming() == Some(TeardownStep::Access(RecorderAccess::Wake))
            &&& waiting.upcoming() == Some(TeardownStep::JoinWriter)
            &&& answer != 0 ==> {
                let crashed = waiting.resumed(answer);
                &&& crashed.upcoming() == Some(TeardownStep::NoteFault(Fault::Crash))
                &&& crashed.resumed(0).upcoming() == Some(
                    TeardownStep::Access(RecorderAccess::StoreState(5)),
                )
                &&& crashed.resumed(0).resumed(0) == waiting.resumed(0)
            }
            &&& {
                let ended = waiting.resumed(0);
                let again = ended.resumed(answer);
                let look = again.resumed(answer);
                &&& ended.upcoming() == Some(TeardownStep::ForgetWriter)
                &&& again.upcoming() == Some(
                    TeardownStep::Access(RecorderAccess::StoreRequested(false)),
                )
                &&& look.upcoming() == Some(TeardownStep::Access(RecorderAccess::LoadState))
                &&& answer == 1 || answer == 2 || answer == 3 ==> look.resumed(answer).upcoming()
                    == Some(TeardownStep::Access(RecorderAccess::StoreState(0)))
                &&& answer == 0 || answer > 3 ==> look.resumed(answer).upcoming() is None
            }
        }),
{
}

} // verus!
