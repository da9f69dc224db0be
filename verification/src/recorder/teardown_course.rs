//! What holds of the end of a session however the accesses of the parties fall between one
//! another.

use vstd::prelude::*;

use crate::recorder::cells::{unsettled, RecorderAccess, RecorderCells};
use crate::recorder::requests::{StartRequest, StartStage, StopRequest, StopStage};
use crate::recorder::session::{RecorderSession, TeardownStage, TeardownStep};
use crate::recorder::writer::{Writer, WriterStep};

verus! {

/// What the user interface is doing: it makes or takes back one request at a time.
pub enum User {
    Idle,
    Starting(StartRequest),
    Stopping(StopRequest),
}

/// A session and everybody who touches its cells.
pub struct TeardownWorld {
    pub cells: RecorderCells,
    pub owner: RecorderSession,
    pub user: User,
    pub writer_alive: bool,
}

impl TeardownWorld {
    /// The session has reset the cells; the user interface may be in the middle of
    /// something.
    pub open spec fn starts(self) -> bool {
        &&& !self.cells.session_available
        &&& !self.cells.recording_requested
        &&& !unsettled(self.cells.recorder_state)
        &&& self.owner == RecorderSession::fresh()
        &&& self.writer_alive
    }

    /// One step of one of the parties leads from `self` to `next`.
    pub open spec fn leads_to(self, next: TeardownWorld) -> bool {
        ||| self.session_becomes_available(next)
        ||| exists|answer: u64| #[trigger] self.owner_acts(next, answer)
        ||| self.user_begins(next)
        ||| self.user_acts(next)
        ||| self.user_returns(next)
        ||| exists|writer: Writer| #[trigger] self.writer_acts(next, writer)
        ||| self.writer_ends(next)
        ||| self.callback_acts(next)
    }

    pub open spec fn session_becomes_available(self, next: TeardownWorld) -> bool {
        &&& self.owner.stage == TeardownStage::Close
        &&& next == (TeardownWorld {
            cells: self.cells.after(RecorderAccess::StoreAvailable(true)),
            ..self
        })
    }

    pub open spec fn owner_acts(self, next: TeardownWorld, answer: u64) -> bool {
        let moved = TeardownWorld { owner: self.owner.resumed(answer), ..self };
        match self.owner.upcoming() {
            None => false,
            Some(TeardownStep::Access(access)) => {
                &&& answer == self.cells.answer(access)
                &&& next == (TeardownWorld { cells: self.cells.after(access), ..moved })
            },
            Some(TeardownStep::JoinWriter) => !self.writer_alive && next == moved,
            Some(_) => next == moved,
        }
    }

    pub open spec fn user_begins(self, next: TeardownWorld) -> bool {
        &&& self.user is Idle
        &&& {
            ||| next == (TeardownWorld { user: User::Starting(StartRequest::fresh()), ..self })
            ||| next == (TeardownWorld { user: User::Stopping(StopRequest::fresh()), ..self })
        }
    }

    pub open spec fn user_acts(self, next: TeardownWorld) -> bool {
        match self.user {
            User::Idle => false,
            User::Starting(request) => {
                &&& request.upcoming() matches Some(access)
                &&& next == (TeardownWorld {
                    cells: self.cells.after(access),
                    user: User::Starting(request.resumed(self.cells.answer(access))),
                    ..self
                })
            },
            User::Stopping(request) => {
                &&& request.upcoming() matches Some(access)
                &&& next == (TeardownWorld {
                    cells: self.cells.after(access),
                    user: User::Stopping(request.resumed(self.cells.answer(access))),
                    ..self
                })
            },
        }
    }

    pub open spec fn user_returns(self, next: TeardownWorld) -> bool {
        &&& match self.user {
            User::Idle => false,
            User::Starting(request) => request.upcoming() is None,
            User::Stopping(request) => request.upcoming() is None,
        }
        &&& next == (TeardownWorld { user: User::Idle, ..self })
    }

    /// The writer, wherever it stands, makes an access that a writer makes there.
    pub open spec fn writer_acts(self, next: TeardownWorld, writer: Writer) -> bool {
        &&& self.writer_alive
        &&& writer.upcoming() matches Some(WriterStep::Access(access))
        &&& next == (TeardownWorld { cells: self.cells.after(access), ..self })
    }

    pub open spec fn writer_ends(self, next: TeardownWorld) -> bool {
        next == (TeardownWorld { writer_alive: false, ..self })
    }

    pub open spec fn callback_acts(self, next: TeardownWorld) -> bool {
        ||| next == (TeardownWorld {
            cells: self.cells.after(RecorderAccess::JoinCallbacks),
            ..self
        })
        ||| next == (TeardownWorld {
            cells: self.cells.after(RecorderAccess::LeaveCallbacks),
            ..self
        })
    }

    /// The user interface is about to mark a recording as one to be saved.
    pub open spec fn stop_is_marking(self) -> bool {
        self.user matches User::Stopping(request) && request.stage == StopStage::MarkSaving
    }

    /// The session is down and the user interface has nothing left to do.
    pub open spec fn at_rest(self) -> bool {
        self.owner.stage == TeardownStage::Done && self.user is Idle
    }

    spec fn start_stage(self) -> Option<StartStage> {
        match self.user {
            User::Starting(request) => Some(request.stage),
            _ => None,
        }
    }

    spec fn in_order(self) -> bool {
        let stage = self.owner.stage;
        let start = self.start_stage();
        let closed = stage != TeardownStage::Close;
        let ended = stage == TeardownStage::NoteCrash || stage == TeardownStage::MarkCrash || stage
            == TeardownStage::Forget || stage == TeardownStage::WithdrawAgain || stage
            == TeardownStage::LookState || stage == TeardownStage::MarkIdle || stage
            == TeardownStage::Done;
        let withdrawn = stage == TeardownStage::LookState || stage == TeardownStage::MarkIdle
            || stage == TeardownStage::Done;
        &&& closed ==> !self.cells.session_available
        &&& ended ==> !self.writer_alive
        // Nobody else makes requests.
        &&& start == Some(StartStage::ResetWritten) || start == Some(StartStage::ResetDropped)
            || start == Some(StartStage::ClearError) || start == Some(StartStage::MarkStarting)
            || start == Some(StartStage::MakeRequest) ==> !self.cells.recording_requested
        &&& withdrawn && self.cells.recording_requested ==> start == Some(
            StartStage::LookAvailableAgain,
        ) || start == Some(StartStage::Withdraw)
        &&& stage == TeardownStage::Done && unsettled(self.cells.recorder_state) ==> start == Some(
            StartStage::MakeRequest,
        ) || start == Some(StartStage::LookAvailableAgain) || start == Some(StartStage::Withdraw)
            || start == Some(StartStage::MarkIdle)
    }
}

/// A course of events of one session. No request is taken back in such a way that the
/// recording is marked as one to be saved after the session has settled the state.
pub open spec fn teardown_course(worlds: Seq<TeardownWorld>) -> bool {
    &&& worlds.len() > 0
    &&& worlds[0].starts()
    &&& forall|i: int|
        #![trigger worlds[i]]
        0 <= i < worlds.len() - 1 ==> worlds[i].leads_to(worlds[i + 1])
    &&& forall|i: int|
        0 <= i < worlds.len() && (#[trigger] worlds[i]).owner.stage == TeardownStage::Done
            ==> !worlds[i].stop_is_marking()
}

proof fn lemma_step_keeps_order(world: TeardownWorld, next: TeardownWorld)
    requires
        world.in_order(),
        world.leads_to(next),
        world.owner.stage == TeardownStage::Done ==> !world.stop_is_marking(),
    ensures
        next.in_order(),
{
    if exists|writer: Writer| #[trigger] world.writer_acts(next, writer) {
        let writer = choose|writer: Writer| #[trigger] world.writer_acts(next, writer);
        law_writer_never_asks(writer, world.cells);
    } else if exists|answer: u64| #[trigger] world.owner_acts(next, answer) {
        let answer = choose|answer: u64| #[trigger] world.owner_acts(next, answer);
        assert(next.in_order());
    }
}

proof fn lemma_course_in_order(worlds: Seq<TeardownWorld>, at: int)
    requires
        teardown_course(worlds),
        0 <= at < worlds.len(),
    ensures
        worlds[at].in_order(),
    decreases at,
{
    if at > 0 {
        lemma_course_in_order(worlds, at - 1);
        assert(worlds[at - 1].leads_to(worlds[at]));
        lemma_step_keeps_order(worlds[at - 1], worlds[at]);
    }
}

/// The writer never asks for a recording and never makes a session available; it can only
/// take these back.
pub proof fn law_writer_never_asks(writer: Writer, cells: RecorderCells)
    ensures
        writer.upcoming() matches Some(WriterStep::Access(access)) ==> {
            &&& cells.after(access).recording_requested ==> cells.recording_requested
            &&& cells.after(access).session_available ==> cells.session_available
            &&& cells.after(access).active_input_callbacks == cells.active_input_callbacks
        },
{
}

/// A request that is made while the session is taken down leaves nothing behind: once both
/// are through, nothing is asked for and the state is a settled one.
pub proof fn law_teardown_leaves_no_request(worlds: Seq<TeardownWorld>, at: int)
    requires
        teardown_course(worlds),
        0 <= at < worlds.len(),
        worlds[at].at_rest(),
    ensures
        !worlds[at].cells.session_available,
        !worlds[at].cells.recording_requested,
        !unsettled(worlds[at].cells.recorder_state),
{
    lemma_course_in_order(worlds, at);
}

} // verus!
