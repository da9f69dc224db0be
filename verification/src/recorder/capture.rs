//! How an input callback learns whether to hand its frames over.
//!
//! A callback that sees a request joins the count of active callbacks and looks again.
//! From then on the writer does not complete a file before the callback has left.

use vstd::prelude::*;

use crate::recorder::cells::{RecorderAccess, RecorderCells};

verus! {

/// Where a callback stands.
#[derive(Clone, Copy, Debug, PartialEq, Eq, Structural)]
pub enum CaptureStage {
    /// It is to look for a request.
    Look,
    /// It saw one and is to join.
    Join,
    /// It has joined and is to look again.
    LookAgain,
    /// The request is gone; it is to leave.
    BackOut,
    /// It does not hand frames over.
    Passing,
    /// It hands frames over.
    Recording,
    /// It is done and is to leave.
    Leave,
    /// It is over.
    Over,
}

/// What one input callback knows of the recording.
#[derive(Clone, Copy, Debug, PartialEq, Eq, Structural)]
pub struct InputCallbackCapture {
    pub stage: CaptureStage,
}

impl InputCallbackCapture {
    /// The callback counts as active.
    pub open spec fn joined(self) -> bool {
        ||| self.stage == CaptureStage::LookAgain
        ||| self.stage == CaptureStage::BackOut
        ||| self.stage == CaptureStage::Recording
        ||| self.stage == CaptureStage::Leave
    }

    /// The callback will hand over no frames any more.
    pub open spec fn finished(self) -> bool {
        self.stage == CaptureStage::Over
    }

    pub open spec fn upcoming(self) -> Option<RecorderAccess> {
        match self.stage {
            CaptureStage::Look => Some(RecorderAccess::LoadRequested),
            CaptureStage::Join => Some(RecorderAccess::JoinCallbacks),
            CaptureStage::LookAgain => Some(RecorderAccess::LoadRequested),
            CaptureStage::BackOut => Some(RecorderAccess::LeaveCallbacks),
            CaptureStage::Leave => Some(RecorderAccess::LeaveCallbacks),
            _ => None,
        }
    }

    /// The callback after its next access gave `answer`.
    pub open spec fn resumed(self, answer: u64) -> InputCallbackCapture {
        let stage = match self.stage {
            CaptureStage::Look => if answer == 0 {
                CaptureStage::Passing
            } else {
                CaptureStage::Join
            },
            CaptureStage::Join => CaptureStage::LookAgain,
            CaptureStage::LookAgain => if answer == 0 {
                CaptureStage::BackOut
            } else {
                CaptureStage::Recording
            },
            CaptureStage::BackOut => CaptureStage::Passing,
            CaptureStage::Leave => CaptureStage::Over,
            other => other,
        };
        InputCallbackCapture { stage }
    }

    /// The callback once it has handed over its frames.
    pub open spec fn ended(self) -> InputCallbackCapture {
        let stage = match self.stage {
            CaptureStage::Recording => CaptureStage::Leave,
            CaptureStage::Passing => CaptureStage::Over,
            other => other,
        };
        InputCallbackCapture { stage }
    }

    /// A callback that has just begun.
    pub open spec fn fresh() -> InputCallbackCapture {
        InputCallbackCapture { stage: CaptureStage::Look }
    }

    pub fn enter() -> (capture: InputCallbackCapture)
        ensures
            capture == InputCallbackCapture::fresh(),
    {
        InputCallbackCapture { stage: CaptureStage::Look }
    }

    pub fn is_recording(&self) -> (recording: bool)
        ensures
            recording == (self.stage == CaptureStage::Recording),
    {
        match self.stage {
            CaptureStage::Recording => true,
            _ => false,
        }
    }

    pub fn next_access(&self) -> (access: Option<RecorderAccess>)
        ensures
            access == self.upcoming(),
    {
        match self.stage {
            CaptureStage::Look => Some(RecorderAccess::LoadRequested),
            CaptureStage::Join => Some(RecorderAccess::JoinCallbacks),
            CaptureStage::LookAgain => Some(RecorderAccess::LoadRequested),
            CaptureStage::BackOut => Some(RecorderAccess::LeaveCallbacks),
            CaptureStage::Leave => Some(RecorderAccess::LeaveCallbacks),
            _ => None,
        }
    }

    /// Takes in what the access last asked for gave.
    pub fn resume(&mut self, answer: u64)
        ensures
            *final(self) == old(self).resumed(answer),
    {
        self.stage = match self.stage {
            CaptureStage::Look => if answer == 0 {
                CaptureStage::Passing
            } else {
                CaptureStage::Join
            },
            CaptureStage::Join => CaptureStage::LookAgain,
            CaptureStage::LookAgain => if answer == 0 {
                CaptureStage::BackOut
            } else {
                CaptureStage::Recording
            },
            CaptureStage::BackOut => CaptureStage::Passing,
            CaptureStage::Leave => CaptureStage::Over,
            other => other,
        };
    }

    /// To be called once the callback has handed over its frames.
    pub fn end(&mut self)
        ensures
            *final(self) == old(self).ended(),
    {
        self.stage = match self.stage {
            CaptureStage::Recording => CaptureStage::Leave,
            CaptureStage::Passing => CaptureStage::Over,
            other => other,
        };
    }
}

/// Begins an input callback where nobody else touches the cells meanwhile: it hands its
/// frames over, and counts as active, just where a recording is asked for.
pub fn begin_input_callback(cells: &mut RecorderCells) -> (capture: InputCallbackCapture)
    ensures
        capture.stage == (if old(cells).recording_requested {
            CaptureStage::Recording
        } else {
            CaptureStage::Passing
        }),
        *final(cells) == (if old(cells).recording_requested {
            old(cells).after(RecorderAccess::JoinCallbacks)
        } else {
            *old(cells)
        }),
{
    let mut capture = InputCallbackCapture::enter();
    let answer: u64 = cells.perform(RecorderAccess::LoadRequested);
    capture.resume(answer);
    if let Some(access) = capture.next_access() {
        let answer: u64 = cells.perform(access);
        capture.resume(answer);
        let answer: u64 = cells.perform(RecorderAccess::LoadRequested);
        capture.resume(answer);
    }
    capture
}

/// Ends an input callback: one that counted as active leaves.
pub fn end_input_callback(cells: &mut RecorderCells, capture: &mut InputCallbackCapture)
    requires
        old(capture).stage == CaptureStage::Recording || old(capture).stage
            == CaptureStage::Passing,
    ensures
        final(capture).finished(),
        *final(cells) == (if old(capture).stage == CaptureStage::Recording {
            old(cells).after(RecorderAccess::LeaveCallbacks)
        } else {
            *old(cells)
        }),
{
    capture.end();
    if let Some(access) = capture.next_access() {
        let answer: u64 = cells.perform(access);
        capture.resume(answer);
    }
}

/// A callback that was begun and ended leaves the cells as it found them.
pub proof fn law_callback_leaves_no_trace(cells: RecorderCells)
    ensures
        cells.after(RecorderAccess::JoinCallbacks).after(RecorderAccess::LeaveCallbacks) == cells,
{
}

} // verus!
