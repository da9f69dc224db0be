//! What holds of a recording however the accesses of the parties fall between one another.

use vstd::prelude::*;

use crate::recorder::capture::{CaptureStage, InputCallbackCapture};
use crate::recorder::cells::{flag, RecorderCells};
use crate::recorder::writer::{Fault, Writer, WriterStage, WriterStep};
use crate::ring::FrameBits;

verus! {

/// A frame on its way to the file, with the callback that handed it over.
pub struct Handed {
    pub by: int,
    pub frame: FrameBits,
}

/// The frames without the callbacks that handed them over.
pub open spec fn frames_of(handed: Seq<Handed>) -> Seq<FrameBits> {
    Seq::new(handed.len(), |i: int| handed[i].frame)
}

/// The first `limit` frames.
pub open spec fn limited(frames: Seq<FrameBits>, limit: u64) -> Seq<FrameBits> {
    if frames.len() <= limit {
        frames
    } else {
        frames.take(limit as int)
    }
}

/// How many of the callbacks count as active.
pub open spec fn joined_count(captures: Seq<InputCallbackCapture>) -> nat
    decreases captures.len(),
{
    if captures.len() == 0 {
        0
    } else if captures.last().joined() {
        joined_count(captures.drop_last()) + 1
    } else {
        joined_count(captures.drop_last())
    }
}

/// One audio session: the cells, the ring and everybody who works on them.
pub struct RecordingWorld {
    pub cells: RecorderCells,
    /// All input callbacks of the session so far, in the order in which they began.
    pub captures: Seq<InputCallbackCapture>,
    /// The frames that the callbacks handed over so far and the ring took.
    pub handed: Seq<Handed>,
    /// The frames in the ring, eldest first.
    pub pending: Seq<Handed>,
    pub writer: Writer,
    /// The frames that the writer took from the ring so far.
    pub popped: Seq<Handed>,
    /// How many frames the writer had taken when it made the last file.
    pub opened_at: int,
    /// The frames in the last file.
    pub file: Seq<FrameBits>,
    /// The callbacks as they were when the writer, with a file open, last looked for the
    /// request.
    pub watched: Seq<InputCallbackCapture>,
}

impl RecordingWorld {
    pub open spec fn starts(self, sample_rate: u32) -> bool {
        &&& self.cells.active_input_callbacks == 0
        &&& self.captures.len() == 0
        &&& self.handed.len() == 0
        &&& self.pending.len() == 0
        &&& self.writer == Writer::fresh(sample_rate)
        &&& self.popped.len() == 0
        &&& self.opened_at == 0
        &&& self.file.len() == 0
        &&& self.watched.len() == 0
    }

    /// One step of one of the parties leads from `self` to `next`.
    pub open spec fn leads_to(self, next: RecordingWorld) -> bool {
        ||| self.callback_begins(next)
        ||| exists|at: int| #[trigger] self.callback_acts(next, at)
        ||| exists|at: int, frame: FrameBits| #[trigger] self.callback_hands(next, at, frame)
        ||| exists|at: int| #[trigger] self.callback_ends(next, at)
        ||| self.others_act(next)
        ||| exists|answer: u64| #[trigger] self.writer_acts(next, answer)
        ||| self.writer_takes(next)
    }

    pub open spec fn callback_begins(self, next: RecordingWorld) -> bool {
        next == (RecordingWorld {
            captures: self.captures.push(InputCallbackCapture::fresh()),
            ..self
        })
    }

    pub open spec fn callback_acts(self, next: RecordingWorld, at: int) -> bool {
        &&& 0 <= at < self.captures.len()
        &&& self.captures[at].upcoming() matches Some(access)
        &&& next == (RecordingWorld {
            cells: self.cells.after(access),
            captures: self.captures.update(
                at,
                self.captures[at].resumed(self.cells.answer(access)),
            ),
            ..self
        })
    }

    /// A callback hands a frame over and the ring has a place for it.
    pub open spec fn callback_hands(self, next: RecordingWorld, at: int, frame: FrameBits) -> bool {
        &&& 0 <= at < self.captures.len()
        &&& self.captures[at].stage == CaptureStage::Recording
        &&& next == (RecordingWorld {
            handed: self.handed.push(Handed { by: at, frame }),
            pending: self.pending.push(Handed { by: at, frame }),
            ..self
        })
    }

    pub open spec fn callback_ends(self, next: RecordingWorld, at: int) -> bool {
        &&& 0 <= at < self.captures.len()
        &&& next == (RecordingWorld {
            captures: self.captures.update(at, self.captures[at].ended()),
            ..self
        })
    }

    /// The user interface and the owner of the session do what they like with the cells,
    /// but for the count of active callbacks.
    pub open spec fn others_act(self, next: RecordingWorld) -> bool {
        &&& next.cells.active_input_callbacks == self.cells.active_input_callbacks
        &&& next == (RecordingWorld { cells: next.cells, ..self })
    }

    /// The writer makes its next step, which is not to take a frame. Where the step is not
    /// an access to the cells or a look into the ring, the answer is up to the machine.
    pub open spec fn writer_acts(self, next: RecordingWorld, answer: u64) -> bool {
        let moved = RecordingWorld { writer: self.writer.resumed(answer), ..self };
        match self.writer.upcoming() {
            None => false,
            Some(WriterStep::Pop) => false,
            Some(WriterStep::Access(access)) => {
                &&& answer == self.cells.answer(access)
                &&& next == (RecordingWorld {
                    cells: self.cells.after(access),
                    watched: if self.writer.stage == WriterStage::FileRequested {
                        self.captures
                    } else {
                        self.watched
                    },
                    ..moved
                })
            },
            Some(WriterStep::LookIntoRing) => {
                &&& answer == flag(self.pending.len() > 0)
                &&& next == moved
            },
            Some(WriterStep::CreateFile) => next == if answer != 0 {
                RecordingWorld {
                    opened_at: self.popped.len() as int,
                    file: Seq::empty(),
                    ..moved
                }
            } else {
                moved
            },
            Some(WriterStep::Write(frame)) => next == if answer != 0 {
                RecordingWorld { file: self.file.push(frame), ..moved }
            } else {
                moved
            },
            Some(_) => next == moved,
        }
    }

    /// The writer takes the eldest frame from the ring, or finds none.
    pub open spec fn writer_takes(self, next: RecordingWorld) -> bool {
        &&& self.writer.upcoming() == Some(WriterStep::Pop)
        &&& next == if self.pending.len() > 0 {
            RecordingWorld {
                writer: self.writer.handed(Some(self.pending[0].frame)),
                pending: self.pending.drop_first(),
                popped: self.popped.push(self.pending[0]),
                ..self
            }
        } else {
            RecordingWorld { writer: self.writer.handed(None), ..self }
        }
    }

    /// No file is open, the session is available, and the writer has not seen that it is being
    /// taken down.
    pub open spec fn waits(self) -> bool {
        &&& !self.writer.file_open
        &&& !self.writer.shutting_down
        &&& self.cells.session_available
    }

    /// The frames that the writer took since it made the last file.
    pub open spec fn taken_since(self) -> Seq<FrameBits> {
        frames_of(self.popped.skip(self.opened_at))
    }

    spec fn counts_callbacks(self) -> bool {
        self.cells.active_input_callbacks == joined_count(self.captures)
    }

    spec fn knows_callbacks(self) -> bool {
        forall|k: int|
            0 <= k < self.pending.len() ==> 0 <= (#[trigger] self.pending[k]).by
                < self.captures.len()
    }

    spec fn watches(self) -> bool {
        let stage = self.writer.stage;
        let looking = stage == WriterStage::FileCallbacks;
        let settled = stage == WriterStage::FileRing || stage == WriterStage::Finalize;
        &&& looking || settled ==> self.watched.len() <= self.captures.len()
        &&& looking ==> forall|i: int|
            #![trigger self.captures[i]]
            0 <= i < self.watched.len() && self.watched[i].stage == CaptureStage::Recording ==> {
                ||| self.captures[i].stage == CaptureStage::Recording
                ||| self.captures[i].stage == CaptureStage::Leave
                ||| self.captures[i].stage == CaptureStage::Over
            }
        &&& settled ==> forall|i: int|
            #![trigger self.captures[i]]
            0 <= i < self.watched.len() && self.watched[i].stage == CaptureStage::Recording
                ==> self.captures[i].stage == CaptureStage::Over
        &&& stage == WriterStage::Finalize ==> forall|k: int|
            0 <= k < self.pending.len() && (#[trigger] self.pending[k]).by < self.watched.len()
                ==> self.watched[self.pending[k].by].stage != CaptureStage::Recording
    }

    /// At these stages a file is open.
    spec fn with_file(stage: WriterStage) -> bool {
        match stage {
            WriterStage::Drain => true,
            WriterStage::Write(_) => true,
            WriterStage::Publish(failed) => failed,
            WriterStage::Withdraw(fault) => fault == Fault::Write,
            WriterStage::Close(fault) => fault == Fault::Write,
            WriterStage::FileRequested => true,
            WriterStage::FileCallbacks => true,
            WriterStage::FileRing => true,
            WriterStage::Finalize => true,
            _ => false,
        }
    }

    /// At these stages none is.
    spec fn without_file(stage: WriterStage) -> bool {
        match stage {
            WriterStage::CreateFile => true,
            WriterStage::NoteNewPath => true,
            WriterStage::ResetWritten => true,
            WriterStage::MarkRecording => true,
            WriterStage::LookAvailable => true,
            WriterStage::Discard => true,
            WriterStage::Withdraw(fault) => fault != Fault::Write,
            WriterStage::Close(fault) => fault != Fault::Write,
            WriterStage::Seal(_) => true,
            WriterStage::Remove(_) => true,
            WriterStage::Note(_) => true,
            WriterStage::Mark(_) => true,
            WriterStage::NoteSavedPath => true,
            WriterStage::MarkSaved => true,
            WriterStage::RestRequested => true,
            WriterStage::RestCallbacks => true,
            WriterStage::RestRing => true,
            WriterStage::RestState => true,
            WriterStage::RestMark => true,
            WriterStage::ExitCallbacks => true,
            WriterStage::ExitRing => true,
            WriterStage::IdleRequested => true,
            WriterStage::IdleCallbacks => true,
            WriterStage::IdleRing => true,
            WriterStage::Exited => true,
            _ => false,
        }
    }

    spec fn writer_in_order(self) -> bool {
        let writer = self.writer;
        let stage = writer.stage;
        &&& Self::with_file(stage) ==> writer.file_open
        &&& Self::without_file(stage) ==> !writer.file_open
        &&& stage == WriterStage::ExitCallbacks || stage == WriterStage::ExitRing || stage
            == WriterStage::Exited ==> writer.shutting_down
        &&& writer.frames_written <= writer.maximum_frames
        &&& stage == WriterStage::LimitSwap || stage == WriterStage::LimitMark
            ==> writer.frames_written == writer.maximum_frames
    }

    spec fn file_in_order(self) -> bool {
        let stage = self.writer.stage;
        let limit = self.writer.maximum_frames;
        let since = self.taken_since();
        let broken = stage == WriterStage::Publish(true) || stage == WriterStage::Withdraw(
            Fault::Write,
        ) || stage == WriterStage::Close(Fault::Write);
        &&& 0 <= self.opened_at <= self.popped.len()
        &&& stage == WriterStage::NoteNewPath || stage == WriterStage::ResetWritten || stage
            == WriterStage::MarkRecording ==> {
            &&& self.opened_at == self.popped.len()
            &&& self.file.len() == 0
        }
        &&& stage == WriterStage::ResetWritten || stage == WriterStage::MarkRecording
            ==> self.writer.frames_written == 0
        &&& self.writer.file_open && !broken ==> {
            &&& self.writer.frames_written == self.file.len()
            &&& match stage {
                WriterStage::Write(frame) => {
                    &&& since.len() > 0
                    &&& frame == since.last()
                    &&& self.file == since.drop_last()
                    &&& self.file.len() < limit
                },
                _ => self.file == limited(since, limit),
            }
        }
    }

    /// What the writer took and what waits is what was handed over.
    spec fn loses_nothing(self) -> bool {
        self.handed == self.popped + self.pending
    }

    spec fn in_order(self) -> bool {
        &&& self.counts_callbacks()
        &&& self.loses_nothing()
        &&& self.knows_callbacks()
        &&& self.watches()
        &&& self.writer_in_order()
        &&& self.file_in_order()
    }
}

/// A course of events of one audio session.
pub open spec fn recording_course(worlds: Seq<RecordingWorld>, sample_rate: u32) -> bool {
    &&& worlds.len() > 0
    &&& worlds[0].starts(sample_rate)
    &&& forall|i: int|
        #![trigger worlds[i]]
        0 <= i < worlds.len() - 1 ==> worlds[i].leads_to(worlds[i + 1])
    &&& forall|i: int|
        0 <= i < worlds.len() ==> (#[trigger] worlds[i]).captures.len() <= u32::MAX
}

proof fn lemma_count_bounds(captures: Seq<InputCallbackCapture>)
    ensures
        joined_count(captures) <= captures.len(),
    decreases captures.len(),
{
    if captures.len() > 0 {
        lemma_count_bounds(captures.drop_last());
    }
}

proof fn lemma_count_zero(captures: Seq<InputCallbackCapture>, at: int)
    requires
        joined_count(captures) == 0,
        0 <= at < captures.len(),
    ensures
        !captures[at].joined(),
    decreases captures.len(),
{
    if at < captures.len() - 1 {
        lemma_count_zero(captures.drop_last(), at);
        assert(captures.drop_last()[at] == captures[at]);
    }
}

proof fn lemma_count_update(
    captures: Seq<InputCallbackCapture>,
    at: int,
    capture: InputCallbackCapture,
)
    requires
        0 <= at < captures.len(),
    ensures
        joined_count(captures.update(at, capture)) == joined_count(captures) - (
        if captures[at].joined() {
            1int
        } else {
            0
        }) + (if capture.joined() {
            1int
        } else {
            0
        }),
    decreases captures.len(),
{
    let updated = captures.update(at, capture);
    if at == captures.len() - 1 {
        assert(updated.drop_last() =~= captures.drop_last());
    } else {
        lemma_count_update(captures.drop_last(), at, capture);
        assert(updated.drop_last() =~= captures.drop_last().update(at, capture));
        assert(updated.last() == captures.last());
    }
}

proof fn lemma_callback_step(world: RecordingWorld, next: RecordingWorld, at: int)
    requires
        world.in_order(),
        world.captures.len() <= u32::MAX,
        world.callback_acts(next, at) || world.callback_ends(next, at),
    ensures
        next.in_order(),
{
    let before = world.captures[at];
    let after = next.captures[at];
    lemma_count_update(world.captures, at, after);
    lemma_count_bounds(world.captures);
    lemma_count_bounds(next.captures);
    assert(next.watches()) by {
        assert(forall|i: int|
            0 <= i < world.captures.len() && i != at ==> next.captures[i]
                == #[trigger] world.captures[i]);
        assert(before == world.captures[at]);
    }
}

proof fn lemma_writer_step(world: RecordingWorld, next: RecordingWorld, answer: u64)
    requires
        world.in_order(),
        world.writer_acts(next, answer),
    ensures
        next.in_order(),
{
    let stage = world.writer.stage;
    assert(next.counts_callbacks());
    assert(next.writer_in_order());
    assert(next.watches()) by {
        if stage == WriterStage::FileCallbacks && answer == 0 {
            assert forall|i: int|
                #![trigger next.captures[i]]
                0 <= i < next.watched.len() && next.watched[i].stage
                    == CaptureStage::Recording implies next.captures[i].stage
                == CaptureStage::Over by {
                lemma_count_zero(world.captures, i);
                assert(world.captures[i] == next.captures[i]);
            }
        }
    }
    assert(next.file_in_order()) by {
        if let WriterStage::Write(frame) = stage {
            let since = world.taken_since();
            assert(since.drop_last().push(frame) =~= since);
        }
        if stage == WriterStage::MarkRecording {
            assert(next.taken_since() =~= Seq::empty());
            assert(next.file =~= Seq::empty());
        }
    }
}

proof fn lemma_take_step(world: RecordingWorld, next: RecordingWorld)
    requires
        world.in_order(),
        world.writer_takes(next),
    ensures
        next.in_order(),
{
    assert(next.knows_callbacks());
    assert(next.loses_nothing()) by {
        assert(next.popped + next.pending =~= world.popped + world.pending);
    }
    if world.pending.len() > 0 {
        let since = world.taken_since();
        let taken = world.pending[0];
        assert(next.taken_since() =~= since.push(taken.frame));
        assert(next.taken_since().drop_last() =~= since);
        if world.writer.stage == WriterStage::Drain {
            if world.writer.frames_written >= world.writer.maximum_frames {
                assert(limited(next.taken_since(), world.writer.maximum_frames) =~= limited(
                    since,
                    world.writer.maximum_frames,
                ));
            }
        }
    }
}

proof fn lemma_step_keeps_order(world: RecordingWorld, next: RecordingWorld)
    requires
        world.in_order(),
        world.leads_to(next),
        world.captures.len() <= u32::MAX,
    ensures
        next.in_order(),
{
    if world.callback_begins(next) {
        assert(next.captures.drop_last() =~= world.captures);
        assert(forall|i: int|
            0 <= i < world.captures.len() ==> next.captures[i] == #[trigger] world.captures[i]);
        assert(next.watches());
    } else if exists|at: int| #[trigger] world.callback_acts(next, at) {
        let at = choose|at: int| #[trigger] world.callback_acts(next, at);
        lemma_callback_step(world, next, at);
    } else if exists|at: int, frame: FrameBits| #[trigger] world.callback_hands(next, at, frame) {
        let (at, frame) = choose|at: int, frame: FrameBits| #[trigger]
            world.callback_hands(next, at, frame);
        assert(next.handed =~= next.popped + next.pending);
        assert(next.watches()) by {
            assert(world.captures[at] == next.captures[at]);
        }
    } else if exists|at: int| #[trigger] world.callback_ends(next, at) {
        let at = choose|at: int| #[trigger] world.callback_ends(next, at);
        lemma_callback_step(world, next, at);
    } else if exists|answer: u64| #[trigger] world.writer_acts(next, answer) {
        let answer = choose|answer: u64| #[trigger] world.writer_acts(next, answer);
        lemma_writer_step(world, next, answer);
    } else if world.writer_takes(next) {
        lemma_take_step(world, next);
    }
}

proof fn lemma_course_in_order(worlds: Seq<RecordingWorld>, sample_rate: u32, at: int)
    requires
        recording_course(worlds, sample_rate),
        0 <= at < worlds.len(),
    ensures
        worlds[at].in_order(),
    decreases at,
{
    if at == 0 {
        assert(worlds[0].handed =~= worlds[0].popped + worlds[0].pending);
    } else {
        lemma_course_in_order(worlds, sample_rate, at - 1);
        assert(worlds[at - 1].leads_to(worlds[at]));
        lemma_step_keeps_order(worlds[at - 1], worlds[at]);
    }
}

/// The count of active callbacks is at all times the number of callbacks that joined and
/// have not left.
pub proof fn law_active_count_is_exact(worlds: Seq<RecordingWorld>, sample_rate: u32, at: int)
    requires
        recording_course(worlds, sample_rate),
        0 <= at < worlds.len(),
    ensures
        worlds[at].cells.active_input_callbacks == joined_count(worlds[at].captures),
{
    lemma_course_in_order(worlds, sample_rate, at);
}

/// The writer does not complete a file while a callback may still append to it: whoever
/// was handing frames over when the writer saw that the request was gone has ended, and
/// none of the frames waits in the ring any more.
pub proof fn law_no_frame_is_left_behind(
    worlds: Seq<RecordingWorld>,
    sample_rate: u32,
    at: int,
    callback: int,
)
    requires
        recording_course(worlds, sample_rate),
        0 <= at < worlds.len(),
        worlds[at].writer.stage == WriterStage::Finalize,
        0 <= callback < worlds[at].watched.len(),
        worlds[at].watched[callback].stage == CaptureStage::Recording,
    ensures
        worlds[at].captures[callback].finished(),
        forall|k: int|
            0 <= k < worlds[at].pending.len() ==> (#[trigger] worlds[at].pending[k]).by
                != callback,
{
    lemma_course_in_order(worlds, sample_rate, at);
    let capture = worlds[at].captures[callback];
}

/// A callback that has ended never hands a frame over again.
pub proof fn law_finished_callbacks_stay_finished(
    worlds: Seq<RecordingWorld>,
    sample_rate: u32,
    at: int,
    later: int,
    callback: int,
)
    requires
        recording_course(worlds, sample_rate),
        0 <= at <= later < worlds.len(),
        0 <= callback < worlds[at].captures.len(),
        worlds[at].captures[callback].finished(),
    ensures
        callback < worlds[later].captures.len(),
        worlds[later].captures[callback].finished(),
    decreases later - at,
{
    if later > at {
        law_finished_callbacks_stay_finished(worlds, sample_rate, at, later - 1, callback);
        assert(worlds[later - 1].leads_to(worlds[later]));
    }
}

/// The frames that the writer took and those that wait in the ring are together, and in
/// their order, those that were handed over.
pub proof fn law_ring_loses_nothing(worlds: Seq<RecordingWorld>, sample_rate: u32, at: int)
    requires
        recording_course(worlds, sample_rate),
        0 <= at < worlds.len(),
    ensures
        worlds[at].handed == worlds[at].popped + worlds[at].pending,
{
    lemma_course_in_order(worlds, sample_rate, at);
}

/// While the session is available and is not being taken down, no frame is thrown away: as
/// long as no file is open, all frames wait.
pub proof fn law_frames_wait_for_their_file(
    worlds: Seq<RecordingWorld>,
    sample_rate: u32,
    from: int,
    at: int,
)
    requires
        recording_course(worlds, sample_rate),
        0 <= from <= at < worlds.len(),
        worlds[from].writer.stage != WriterStage::Discard,
        forall|i: int| from <= i <= at ==> (#[trigger] worlds[i]).waits(),
    ensures
        worlds[at].popped == worlds[from].popped,
        worlds[at].writer.stage != WriterStage::Discard,
    decreases at - from,
{
    if at > from {
        law_frames_wait_for_their_file(worlds, sample_rate, from, at - 1);
        lemma_course_in_order(worlds, sample_rate, at - 1);
        assert(worlds[at - 1].waits());
        assert(worlds[at - 1].leads_to(worlds[at]));
    }
}

proof fn lemma_handed_grows(worlds: Seq<RecordingWorld>, sample_rate: u32, from: int, at: int)
    requires
        recording_course(worlds, sample_rate),
        0 <= from <= at < worlds.len(),
    ensures
        worlds[from].handed.is_prefix_of(worlds[at].handed),
        worlds[from].popped.is_prefix_of(worlds[at].popped),
    decreases at - from,
{
    if at > from {
        lemma_handed_grows(worlds, sample_rate, from, at - 1);
        assert(worlds[at - 1].leads_to(worlds[at]));
    }
}

proof fn lemma_file_stays(worlds: Seq<RecordingWorld>, sample_rate: u32, from: int, at: int)
    requires
        recording_course(worlds, sample_rate),
        0 <= from <= at < worlds.len(),
        forall|i: int|
            from <= i < at ==> (#[trigger] worlds[i]).writer.stage != WriterStage::CreateFile,
    ensures
        worlds[at].opened_at == worlds[from].opened_at,
    decreases at - from,
{
    if at > from {
        lemma_file_stays(worlds, sample_rate, from, at - 1);
        assert(worlds[at - 1].leads_to(worlds[at]));
    }
}

/// A recording is complete. Let no file be open from some moment on, such as that of the
/// request, and the session be available, until the writer makes a file at the step after
/// `made`. Once it comes to complete this file, the file holds all frames that were handed
/// over since that moment, in their order, but for those that still wait, and as far as the
/// limit allows; before them it holds what already waited then.
pub proof fn law_recording_is_complete(
    worlds: Seq<RecordingWorld>,
    sample_rate: u32,
    from: int,
    made: int,
    at: int,
)
    requires
        recording_course(worlds, sample_rate),
        0 <= from <= made < at < worlds.len(),
        worlds[from].writer.stage != WriterStage::Discard,
        forall|i: int| from <= i <= made ==> (#[trigger] worlds[i]).waits(),
        worlds[made].writer.stage == WriterStage::CreateFile,
        worlds[made + 1].writer.stage == WriterStage::NoteNewPath,
        forall|i: int|
            made < i <= at ==> (#[trigger] worlds[i]).writer.stage != WriterStage::CreateFile,
        worlds[at].writer.stage == WriterStage::Finalize,
    ensures
        worlds[from].handed.is_prefix_of(worlds[at].handed),
        worlds[from].handed == worlds[from].popped + worlds[from].pending,
        worlds[at].handed == worlds[at].popped + worlds[at].pending,
        worlds[at].file == limited(
            frames_of(
                worlds[at].handed.subrange(
                    worlds[from].popped.len() as int,
                    worlds[at].popped.len() as int,
                ),
            ),
            worlds[at].writer.maximum_frames,
        ),
{
    lemma_course_in_order(worlds, sample_rate, from);
    lemma_course_in_order(worlds, sample_rate, made);
    lemma_course_in_order(worlds, sample_rate, at);
    lemma_handed_grows(worlds, sample_rate, from, at);
    law_frames_wait_for_their_file(worlds, sample_rate, from, made);
    assert(worlds[made].leads_to(worlds[made + 1]));
    assert(worlds[made + 1].opened_at == worlds[made].popped.len());
    lemma_file_stays(worlds, sample_rate, made + 1, at);
    let first = worlds[from].popped.len() as int;
    assert(worlds[at].handed.subrange(first, worlds[at].popped.len() as int)
        =~= worlds[at].popped.skip(first));
}

/// A file that is completed holds exactly the frames that were taken from the ring since
/// it was made, in their order, as far as the limit allows.
pub proof fn law_file_holds_what_was_handed_over(
    worlds: Seq<RecordingWorld>,
    sample_rate: u32,
    at: int,
)
    requires
        recording_course(worlds, sample_rate),
        0 <= at < worlds.len(),
        worlds[at].writer.stage == WriterStage::Finalize,
    ensures
        worlds[at].file == limited(worlds[at].taken_since(), worlds[at].writer.maximum_frames),
        worlds[at].file.len() == worlds[at].writer.frames_written,
        worlds[at].file.len() <= worlds[at].writer.maximum_frames,
{
    lemma_course_in_order(worlds, sample_rate, at);
}

proof fn lemma_limit_stays(worlds: Seq<RecordingWorld>, sample_rate: u32, at: int)
    requires
        recording_course(worlds, sample_rate),
        0 <= at < worlds.len(),
    ensures
        worlds[at].writer.maximum_frames == 120 * sample_rate,
    decreases at,
{
    if at > 0 {
        lemma_limit_stays(worlds, sample_rate, at - 1);
        assert(worlds[at - 1].leads_to(worlds[at]));
    }
}

/// A recording may last two minutes: at any moment of a session a file has room for 120 times
/// as many frames as there are in a second.
pub proof fn law_limit_is_two_minutes(worlds: Seq<RecordingWorld>, sample_rate: u32, at: int)
    requires
        recording_course(worlds, sample_rate),
        0 <= at < worlds.len(),
    ensures
        worlds[at].writer.maximum_frames == 120 * sample_rate,
        worlds[at].writer.frames_written <= 120 * sample_rate,
{
    lemma_limit_stays(worlds, sample_rate, at);
    lemma_course_in_order(worlds, sample_rate, at);
}

/// A recording of at most two minutes is whole: as long as no more than 120 seconds of frames
/// were taken since the file was made, a file that is about to be completed holds all of them.
pub proof fn law_short_recording_is_whole(
    worlds: Seq<RecordingWorld>,
    sample_rate: u32,
    at: int,
)
    requires
        recording_course(worlds, sample_rate),
        0 <= at < worlds.len(),
        worlds[at].writer.stage == WriterStage::Finalize,
        worlds[at].taken_since().len() <= 120 * sample_rate,
    ensures
        worlds[at].file == worlds[at].taken_since(),
{
    lemma_limit_stays(worlds, sample_rate, at);
    lemma_course_in_order(worlds, sample_rate, at);
}

/// A longer recording is cut: a file that is about to be completed holds the first two minutes
/// of what was taken since it was made.
pub proof fn law_long_recording_is_cut(worlds: Seq<RecordingWorld>, sample_rate: u32, at: int)
    requires
        recording_course(worlds, sample_rate),
        0 <= at < worlds.len(),
        worlds[at].writer.stage == WriterStage::Finalize,
        worlds[at].taken_since().len() >= 120 * sample_rate,
    ensures
        worlds[at].file == worlds[at].taken_since().take(120 * sample_rate as int),
{
    lemma_limit_stays(worlds, sample_rate, at);
    lemma_course_in_order(worlds, sample_rate, at);
    let since = worlds[at].taken_since();
    assert(since.take(since.len() as int) =~= since);
}

/// The writer takes a request back on account of the limit only once the file is full: not
/// before 120 seconds of frames are in it.
pub proof fn law_limit_ends_only_full_recordings(
    worlds: Seq<RecordingWorld>,
    sample_rate: u32,
    at: int,
)
    requires
        recording_course(worlds, sample_rate),
        0 <= at < worlds.len(),
        worlds[at].writer.stage == WriterStage::LimitSwap,
    ensures
        worlds[at].writer.frames_written == 120 * sample_rate,
        worlds[at].writer.file_open ==> {
            &&& worlds[at].file.len() == 120 * sample_rate
            &&& worlds[at].taken_since().len() >= 120 * sample_rate
        },
{
    lemma_limit_stays(worlds, sample_rate, at);
    lemma_course_in_order(worlds, sample_rate, at);
}

/// The writer ends only when the session is being taken down, and never with a file open.
pub proof fn law_writer_ends_without_file(worlds: Seq<RecordingWorld>, sample_rate: u32, at: int)
    requires
        recording_course(worlds, sample_rate),
        0 <= at < worlds.len(),
        worlds[at].writer.stage == WriterStage::Exited,
    ensures
        worlds[at].writer.shutting_down,
        !worlds[at].writer.file_open,
{
    lemma_course_in_order(worlds, sample_rate, at);
}

} // verus!
