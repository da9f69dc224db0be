//! Asking for a recording, and taking the request back.

use vstd::prelude::*;

use crate::recorder::cells::{
    Recorder, RecorderAccess, RecorderCells, STATE_IDLE, STATE_RECORDING, STATE_SAVING,
    STATE_STARTING,
};

verus! {

/// Why a recording cannot be had.
#[derive(Clone, Copy, Debug, PartialEq, Eq, Structural)]
pub enum StartRefusal {
    /// No audio session runs.
    NoSession,
    /// The session went away while the request was made.
    Reconnecting,
}

impl StartRefusal {
    pub open spec fn text(self) -> Seq<char> {
        match self {
            StartRefusal::NoSession => "请先启动限制，等待状态显示为运行中后再录制"@,
            StartRefusal::Reconnecting => "音频设备正在重连，请稍后再点一次录制"@,
        }
    }

    pub fn message(&self) -> (message: &'static str)
        ensures
            message@ == self.text(),
    {
        match self {
            StartRefusal::NoSession => "请先启动限制，等待状态显示为运行中后再录制",
            StartRefusal::Reconnecting => "音频设备正在重连，请稍后再点一次录制",
        }
    }
}

/// Where a request for a recording stands: what it is to do next, or how it ended.
#[derive(Clone, Copy, Debug, PartialEq, Eq, Structural)]
pub enum StartStage {
    LookAvailable,
    LookRequested,
    ResetWritten,
    ResetDropped,
    ClearError,
    MarkStarting,
    MakeRequest,
    LookAvailableAgain,
    /// The session is gone: take the request back.
    Withdraw,
    MarkIdle,
    Wake,
    Accepted,
    Refused(StartRefusal),
}

/// The user interface while it asks for a recording.
#[derive(Clone, Copy, Debug, PartialEq, Eq, Structural)]
pub struct StartRequest {
    pub stage: StartStage,
}

impl StartRequest {
    pub open spec fn upcoming(self) -> Option<RecorderAccess> {
        match self.stage {
            StartStage::LookAvailable => Some(RecorderAccess::LoadAvailable),
            StartStage::LookRequested => Some(RecorderAccess::LoadRequested),
            StartStage::ResetWritten => Some(RecorderAccess::StoreWritten(0)),
            StartStage::ResetDropped => Some(RecorderAccess::ResetDropped),
            StartStage::ClearError => Some(RecorderAccess::ClearError),
            StartStage::MarkStarting => Some(RecorderAccess::StoreState(STATE_STARTING)),
            StartStage::MakeRequest => Some(RecorderAccess::ExchangeRequested),
            StartStage::LookAvailableAgain => Some(RecorderAccess::LoadAvailable),
            StartStage::Withdraw => Some(RecorderAccess::StoreRequested(false)),
            StartStage::MarkIdle => Some(RecorderAccess::StoreState(STATE_IDLE)),
            StartStage::Wake => Some(RecorderAccess::Wake),
            StartStage::Accepted => None,
            StartStage::Refused(_) => None,
        }
    }

    /// The request after its next access gave `answer`.
    pub open spec fn resumed(self, answer: u64) -> StartRequest {
        let stage = match self.stage {
            StartStage::LookAvailable => if answer == 0 {
                StartStage::Refused(StartRefusal::NoSession)
            } else {
                StartStage::LookRequested
            },
            StartStage::LookRequested => if answer == 0 {
                StartStage::ResetWritten
            } else {
                StartStage::Accepted
            },
            StartStage::ResetWritten => StartStage::ResetDropped,
            StartStage::ResetDropped => StartStage::ClearError,
            StartStage::ClearError => StartStage::MarkStarting,
            StartStage::MarkStarting => StartStage::MakeRequest,
            StartStage::MakeRequest => if answer == 0 {
                StartStage::Accepted
            } else {
                StartStage::LookAvailableAgain
            },
            StartStage::LookAvailableAgain => if answer == 0 {
                StartStage::Withdraw
            } else {
                StartStage::Wake
            },
            StartStage::Withdraw => StartStage::MarkIdle,
            StartStage::MarkIdle => StartStage::Refused(StartRefusal::Reconnecting),
            StartStage::Wake => StartStage::Accepted,
            other => other,
        };
        StartRequest { stage }
    }

    pub open spec fn fresh() -> StartRequest {
        StartRequest { stage: StartStage::LookAvailable }
    }

    /// How the request ended, once it has.
    pub open spec fn result(self) -> Option<Result<(), StartRefusal>> {
        match self.stage {
            StartStage::Accepted => Some(Ok(())),
            StartStage::Refused(refusal) => Some(Err(refusal)),
            _ => None,
        }
    }

    spec fn rank(self) -> nat {
        match self.stage {
            StartStage::LookAvailable => 11,
            StartStage::LookRequested => 10,
            StartStage::ResetWritten => 9,
            StartStage::ResetDropped => 8,
            StartStage::ClearError => 7,
            StartStage::MarkStarting => 6,
            StartStage::MakeRequest => 5,
            StartStage::LookAvailableAgain => 4,
            StartStage::Withdraw => 3,
            StartStage::MarkIdle => 2,
            StartStage::Wake => 1,
            _ => 0,
        }
    }

    pub fn new() -> (request: StartRequest)
        ensures
            request == StartRequest::fresh(),
    {
        StartRequest { stage: StartStage::LookAvailable }
    }

    pub fn next_access(&self) -> (access: Option<RecorderAccess>)
        ensures
            access == self.upcoming(),
    {
        match self.stage {
            StartStage::LookAvailable => Some(RecorderAccess::LoadAvailable),
            StartStage::LookRequested => Some(RecorderAccess::LoadRequested),
            StartStage::ResetWritten => Some(RecorderAccess::StoreWritten(0)),
            StartStage::ResetDropped => Some(RecorderAccess::ResetDropped),
            StartStage::ClearError => Some(RecorderAccess::ClearError),
            StartStage::MarkStarting => Some(RecorderAccess::StoreState(STATE_STARTING)),
            StartStage::MakeRequest => Some(RecorderAccess::ExchangeRequested),
            StartStage::LookAvailableAgain => Some(RecorderAccess::LoadAvailable),
            StartStage::Withdraw => Some(RecorderAccess::StoreRequested(false)),
            StartStage::MarkIdle => Some(RecorderAccess::StoreState(STATE_IDLE)),
            StartStage::Wake => Some(RecorderAccess::Wake),
            StartStage::Accepted => None,
            StartStage::Refused(_) => None,
        }
    }

    /// Takes in what the access last asked for gave.
    pub fn resume(&mut self, answer: u64)
        ensures
            *final(self) == old(self).resumed(answer),
    {
        self.stage = match self.stage {
            StartStage::LookAvailable => if answer == 0 {
                StartStage::Refused(StartRefusal::NoSession)
            } else {
                StartStage::LookRequested
            },
            StartStage::LookRequested => if answer == 0 {
                StartStage::ResetWritten
            } else {
                StartStage::Accepted
            },
            StartStage::ResetWritten => StartStage::ResetDropped,
            StartStage::ResetDropped => StartStage::ClearError,
            StartStage::ClearError => StartStage::MarkStarting,
            StartStage::MarkStarting => StartStage::MakeRequest,
            StartStage::MakeRequest => if answer == 0 {
                StartStage::Accepted
            } else {
                StartStage::LookAvailableAgain
            },
            StartStage::LookAvailableAgain => if answer == 0 {
                StartStage::Withdraw
            } else {
                StartStage::Wake
            },
            StartStage::Withdraw => StartStage::MarkIdle,
            StartStage::MarkIdle => StartStage::Refused(StartRefusal::Reconnecting),
            StartStage::Wake => StartStage::Accepted,
            other => other,
        };
    }

    pub fn outcome(&self) -> (outcome: Option<Result<(), StartRefusal>>)
        ensures
            outcome == self.result(),
    {
        match self.stage {
            StartStage::Accepted => Some(Ok(())),
            StartStage::Refused(refusal) => Some(Err(refusal)),
            _ => None,
        }
    }
}

/// The recorder once a recording has been asked for.
pub open spec fn started(recorder: Recorder) -> Recorder {
    Recorder {
        cells: RecorderCells {
            written_frames: 0,
            dropped_frames: 0,
            recorder_state: STATE_STARTING,
            recording_requested: true,
            ..recorder.cells
        },
        last_path: recorder.last_path,
        last_error: None,
    }
}

/// Where the recorder is at a stage of a request that began at `before` and is not
/// disturbed.
spec fn undisturbed(before: Recorder, stage: StartStage) -> Recorder {
    let reset = Recorder {
        cells: RecorderCells { written_frames: 0, ..before.cells },
        ..before
    };
    let emptied = Recorder {
        cells: RecorderCells { dropped_frames: 0, ..reset.cells },
        ..reset
    };
    let cleared = Recorder { last_error: None, ..emptied };
    let marked = Recorder {
        cells: RecorderCells { recorder_state: STATE_STARTING, ..cleared.cells },
        ..cleared
    };
    match stage {
        StartStage::ResetDropped => reset,
        StartStage::ClearError => emptied,
        StartStage::MarkStarting => cleared,
        StartStage::MakeRequest => marked,
        StartStage::LookAvailableAgain => started(before),
        StartStage::Wake => started(before),
        _ => before,
    }
}

/// Asks for a recording where nobody else touches the cells meanwhile. A second request
/// changes nothing.
pub fn request_start(recorder: &mut Recorder) -> (result: Result<(), &'static str>)
    ensures
        !old(recorder).cells.session_available ==> {
            &&& result matches Err(message)
            &&& message@ == StartRefusal::NoSession.text()
            &&& *final(recorder) == *old(recorder)
        },
        old(recorder).cells.session_available && old(recorder).cells.recording_requested ==> {
            &&& result is Ok
            &&& *final(recorder) == *old(recorder)
        },
        old(recorder).cells.session_available && !old(recorder).cells.recording_requested ==> {
            &&& result is Ok
            &&& *final(recorder) == started(*old(recorder))
        },
{
    let mut request = StartRequest::new();
    let ghost before = *recorder;
    loop
        invariant
            request.stage == StartStage::Refused(StartRefusal::NoSession)
                <==> !before.cells.session_available && request.stage
                != StartStage::LookAvailable,
            request.stage == StartStage::Accepted ==> if before.cells.recording_requested {
                *recorder == before
            } else {
                *recorder == started(before)
            },
            request.stage != StartStage::Accepted ==> *recorder == undisturbed(
                before,
                request.stage,
            ),
            request.stage != StartStage::LookAvailable && request.stage
                != StartStage::LookRequested && request.stage != StartStage::Accepted
                && !(request.stage is Refused) ==> !before.cells.recording_requested,
            request.stage != StartStage::Withdraw,
            request.stage != StartStage::MarkIdle,
            request.stage is Refused ==> request.stage == StartStage::Refused(
                StartRefusal::NoSession,
            ),
        ensures
            request.stage is Accepted || request.stage is Refused,
        decreases request.rank(),
    {
        match request.next_access() {
            Some(access) => {
                let answer: u64 = recorder.perform(access);
                request.resume(answer);
            },
            None => {
                break;
            },
        }
    }
    match request.outcome() {
        Some(Err(refusal)) => Err(refusal.message()),
        _ => Ok(()),
    }
}

/// Where the taking back of a request stands.
#[derive(Clone, Copy, Debug, PartialEq, Eq, Structural)]
pub enum StopStage {
    LookState,
    MarkSaving,
    Withdraw,
    Wake,
    Done,
}

/// The user interface while it takes a request back.
#[derive(Clone, Copy, Debug, PartialEq, Eq, Structural)]
pub struct StopRequest {
    pub stage: StopStage,
}

impl StopRequest {
    pub open spec fn upcoming(self) -> Option<RecorderAccess> {
        match self.stage {
            StopStage::LookState => Some(RecorderAccess::LoadState),
            StopStage::MarkSaving => Some(RecorderAccess::StoreState(STATE_SAVING)),
            StopStage::Withdraw => Some(RecorderAccess::StoreRequested(false)),
            StopStage::Wake => Some(RecorderAccess::Wake),
            StopStage::Done => None,
        }
    }

    /// The taking back after its next access gave `answer`.
    pub open spec fn resumed(self, answer: u64) -> StopRequest {
        let stage = match self.stage {
            StopStage::LookState => if answer == STATE_STARTING || answer == STATE_RECORDING {
                StopStage::MarkSaving
            } else {
                StopStage::Withdraw
            },
            StopStage::MarkSaving => StopStage::Withdraw,
            StopStage::Withdraw => StopStage::Wake,
            StopStage::Wake => StopStage::Done,
            StopStage::Done => StopStage::Done,
        };
        StopRequest { stage }
    }

    spec fn rank(self) -> nat {
        match self.stage {
            StopStage::LookState => 4,
            StopStage::MarkSaving => 3,
            StopStage::Withdraw => 2,
            StopStage::Wake => 1,
            StopStage::Done => 0,
        }
    }

    pub open spec fn fresh() -> StopRequest {
        StopRequest { stage: StopStage::LookState }
    }

    pub fn new() -> (request: StopRequest)
        ensures
            request == StopRequest::fresh(),
    {
        StopRequest { stage: StopStage::LookState }
    }

    pub fn next_access(&self) -> (access: Option<RecorderAccess>)
        ensures
            access == self.upcoming(),
    {
        match self.stage {
            StopStage::LookState => Some(RecorderAccess::LoadState),
            StopStage::MarkSaving => Some(RecorderAccess::StoreState(STATE_SAVING)),
            StopStage::Withdraw => Some(RecorderAccess::StoreRequested(false)),
            StopStage::Wake => Some(RecorderAccess::Wake),
            StopStage::Done => None,
        }
    }

    /// Takes in what the access last asked for gave.
    pub fn resume(&mut self, answer: u64)
        ensures
            *final(self) == old(self).resumed(answer),
    {
        self.stage = match self.stage {
            StopStage::LookState => if answer == STATE_STARTING as u64 || answer
                == STATE_RECORDING as u64 {
                StopStage::MarkSaving
            } else {
                StopStage::Withdraw
            },
            StopStage::MarkSaving => StopStage::Withdraw,
            StopStage::Withdraw => StopStage::Wake,
            StopStage::Wake => StopStage::Done,
            StopStage::Done => StopStage::Done,
        };
    }
}

/// The cells once a request has been taken back.
pub open spec fn stopped(cells: RecorderCells) -> RecorderCells {
    RecorderCells {
        recorder_state: if cells.recorder_state == STATE_STARTING || cells.recorder_state
            == STATE_RECORDING {
            STATE_SAVING
        } else {
            cells.recorder_state
        },
        recording_requested: false,
        ..cells
    }
}

/// Takes a request back where nobody else touches the cells meanwhile.
pub fn request_stop(cells: &mut RecorderCells)
    ensures
        *final(cells) == stopped(*old(cells)),
{
    let mut request = StopRequest::new();
    let ghost before = *cells;
    loop
        invariant
            *cells == (match request.stage {
                StopStage::LookState => before,
                StopStage::MarkSaving => before,
                StopStage::Withdraw => RecorderCells {
                    recording_requested: before.recording_requested,
                    ..stopped(before)
                },
                StopStage::Wake => stopped(before),
                StopStage::Done => stopped(before),
            }),
            request.stage == StopStage::MarkSaving ==> before.recorder_state == STATE_STARTING
                || before.recorder_state == STATE_RECORDING,
        ensures
            request.stage == StopStage::Done,
        decreases request.rank(),
    {
        match request.next_access() {
            Some(access) => {
                let answer: u64 = cells.perform(access);
                request.resume(answer);
            },
            None => {
                break;
            },
        }
    }
}

/// A request that was made is taken back for good: the recording is to be saved, and a
/// new one can be asked for.
pub proof fn law_stop_undoes_start(recorder: Recorder)
    ensures
        !stopped(started(recorder).cells).recording_requested,
        stopped(started(recorder).cells).recorder_state == STATE_SAVING,
        stopped(stopped(recorder.cells)) == stopped(recorder.cells),
{
}

/// A recording that was asked for starts from nothing: no frame is written or missing yet, no
/// error is known, the state says that it starts, and the session, the rate, the callbacks and the
/// file of the last recording are as they were.
pub proof fn law_request_starts_from_nothing(recorder: Recorder)
    ensures
        started(recorder).cells.recording_requested,
        started(recorder).cells.recorder_state == 1,
        started(recorder).cells.written_frames == 0,
        started(recorder).cells.dropped_frames == 0,
        started(recorder).last_error is None,
        started(recorder).last_path == recorder.last_path,
        started(recorder).cells.session_available == recorder.cells.session_available,
        started(recorder).cells.sample_rate == recorder.cells.sample_rate,
        started(recorder).cells.active_input_callbacks == recorder.cells.active_input_callbacks,
{
}

/// A request that is taken back leaves what was recorded: only a recording that starts or is under
/// way goes over to being saved, and any other state stays.
pub proof fn law_stop_keeps_what_was_recorded(cells: RecorderCells)
    ensures
        !stopped(cells).recording_requested,
        cells.recorder_state == 1 || cells.recorder_state == 2 ==> stopped(cells).recorder_state
            == 3,
        cells.recorder_state != 1 && cells.recorder_state != 2 ==> stopped(cells).recorder_state
            == cells.recorder_state,
        stopped(cells).written_frames == cells.written_frames,
        stopped(cells).dropped_frames == cells.dropped_frames,
        stopped(cells).session_available == cells.session_available,
        stopped(cells).active_input_callbacks == cells.active_input_callbacks,
        stopped(cells).sample_rate == cells.sample_rate,
{
}

/// A request that nobody disturbs is refused where no session is available, changes nothing where
/// there is one already, and else looks for the session once more after it was made, so that a
/// session that went away meanwhile takes it back.
pub proof fn law_request_looks_twice_for_the_session(answer: u64)
    ensures
        ({
            let first = StartRequest::fresh();
            &&& first.upcoming() == Some(RecorderAccess::LoadAvailable)
            &&& first.resumed(0).result() == Some(
                Err::<(), StartRefusal>(StartRefusal::NoSession),
            )
            &&& answer != 0 ==> {
                let second = first.resumed(answer);
                &&& second.upcoming() == Some(RecorderAccess::LoadRequested)
                &&& second.resumed(answer).result() == Some(Ok::<(), StartRefusal>(()))
                &&& second.resumed(0).result() is None
            }
        }),
        ({
            let made = (StartRequest { stage: StartStage::MakeRequest }).resumed(1);
            &&& made.upcoming() == Some(RecorderAccess::LoadAvailable)
            &&& made.resumed(0).upcoming() == Some(RecorderAccess::StoreRequested(false))
            &&& made.resumed(0).resumed(answer).upcoming() == Some(
                RecorderAccess::StoreState(0),
            )
            &&& made.resumed(0).resumed(answer).resumed(answer).result() == Some(
                Err::<(), StartRefusal>(StartRefusal::Reconnecting),
            )
            &&& answer != 0 ==> made.resumed(answer).upcoming() == Some(RecorderAccess::Wake)
            &&& answer != 0 ==> made.resumed(answer).resumed(0).result() == Some(
                Ok::<(), StartRefusal>(()),
            )
        }),
{
}

} // verus!
