//! The writer: the background thread that makes and completes the files.
//!
//! The writer goes round and round. In each round it looks whether a file is to be made,
//! moves the waiting frames into the file that is open, and completes the file once the
//! request is gone, no input callback counts as active any more and no frame waits.

use vstd::prelude::*;

use crate::recorder::cells::{
    RecorderAccess, STATE_ERROR, STATE_IDLE, STATE_RECORDING, STATE_SAVED, STATE_SAVING,
    STATE_STARTING,
};
use crate::recorder::cells::flag;
use crate::ring::{answers, levels, source_goes_on, visible, FrameBits, FrameSource};
use crate::text::{append_text, joined_text};

verus! {

/// A recording is not longer than so many seconds.
pub const MAX_RECORDING_SECONDS: u64 = 120;

/// How long the writer sleeps while there is nothing to do, in milliseconds.
pub const IDLE_PARK_MS: u64 = 1000;

/// How long the writer sleeps while a recording is under way, in milliseconds.
pub const BUSY_PARK_MS: u64 = 2;

/// What can go wrong with a recording.
#[derive(Clone, Copy, Debug, PartialEq, Eq, Structural)]
pub enum Fault {
    /// The file could not be made.
    Create,
    /// A frame could not be written.
    Write,
    /// The file could not be completed.
    Save,
    /// The writer could not be started.
    Spawn,
    /// The writer ended on its own.
    Crash,
}

impl Fault {
    /// What stands before the reason.
    pub open spec fn opening(self) -> Seq<char> {
        match self {
            Fault::Create => "无法创建原始录音文件："@,
            Fault::Write => "写入原始录音失败："@,
            Fault::Save => "保存原始录音失败："@,
            Fault::Spawn => "无法启动原始录音线程："@,
            Fault::Crash => "原始录音后台线程异常退出"@,
        }
    }

    /// What the user is told, where the machine gave `reason`.
    pub open spec fn text(self, reason: Seq<char>) -> Seq<char> {
        match self {
            Fault::Spawn => self.opening() + reason,
            Fault::Crash => self.opening(),
            _ => self.opening() + reason + "。请停止并重新启动限制后重试"@,
        }
    }

    pub fn message(&self, reason: &str) -> (message: String)
        ensures
            message@ == self.text(reason@),
    {
        match self {
            Fault::Create => joined_text(
                "无法创建原始录音文件：",
                reason,
                "。请停止并重新启动限制后重试",
            ),
            Fault::Write => joined_text(
                "写入原始录音失败：",
                reason,
                "。请停止并重新启动限制后重试",
            ),
            Fault::Save => joined_text(
                "保存原始录音失败：",
                reason,
                "。请停止并重新启动限制后重试",
            ),
            Fault::Spawn => {
                let mut message = String::new();
                append_text(&mut message, "无法启动原始录音线程：");
                append_text(&mut message, reason);
                message
            },
            Fault::Crash => {
                let mut message = String::new();
                append_text(&mut message, "原始录音后台线程异常退出");
                message
            },
        }
    }
}

/// What the writer does next.
#[derive(Clone, Copy, Debug, PartialEq, Eq)]
pub enum WriterStep {
    /// Look whether the session is being taken down.
    LoadShutdown,
    Access(RecorderAccess),
    /// Look whether frames wait.
    LookIntoRing,
    /// Make a file and write its header; answers whether that worked.
    CreateFile,
    /// Make the file's path the last path.
    NotePath,
    /// Take a frame out of the ring.
    Pop,
    /// Append a frame to the file; answers whether that worked.
    Write(FrameBits),
    /// Complete the file; answers whether that worked.
    Finalize,
    /// Remove the file.
    RemoveFile,
    /// Make the fault the last error.
    NoteFault(Fault),
    /// Sleep for so many milliseconds, or until woken.
    Park(u64),
}

/// Where the writer stands.
#[derive(Clone, Copy, Debug, PartialEq, Eq)]
pub enum WriterStage {
    LookShutdown,
    LookRequested,
    LookState,
    LookPending,
    CreateFile,
    NoteNewPath,
    ResetWritten,
    MarkRecording,
    /// No file is open: frames are thrown away if the session is gone.
    LookAvailable,
    Discard,
    Drain,
    Write(FrameBits),
    /// The frames that could be written are; whether one could not be.
    Publish(bool),
    Withdraw(Fault),
    Close(Fault),
    Seal(Fault),
    Remove(Fault),
    Note(Fault),
    Mark(Fault),
    /// The file is as long as it may be.
    LimitSwap,
    LimitMark,
    /// A file is open: it may be time to complete it.
    FileRequested,
    FileCallbacks,
    FileRing,
    Finalize,
    NoteSavedPath,
    MarkSaved,
    /// No file is open: the state may have to be settled.
    RestRequested,
    RestCallbacks,
    RestRing,
    RestState,
    RestMark,
    ExitCallbacks,
    ExitRing,
    IdleRequested,
    IdleCallbacks,
    IdleRing,
    Park(u64),
    Exited,
}

/// The writer.
#[derive(Clone, Copy, Debug, PartialEq, Eq)]
pub struct Writer {
    pub maximum_frames: u64,
    pub stage: WriterStage,
    /// A file is open.
    pub file_open: bool,
    /// Frames in the last file.
    pub frames_written: u64,
    /// What this round saw.
    pub shutting_down: bool,
    pub requested: bool,
    pub state: u64,
}

impl Writer {
    pub open spec fn fresh(sample_rate: u32) -> Writer {
        Writer {
            maximum_frames: (sample_rate * MAX_RECORDING_SECONDS) as u64,
            stage: WriterStage::LookShutdown,
            file_open: false,
            frames_written: 0,
            shutting_down: false,
            requested: false,
            state: STATE_IDLE as u64,
        }
    }

    pub open spec fn at(self, stage: WriterStage) -> Writer {
        Writer { stage, ..self }
    }

    /// A file is to be made: none is open, and either a recording is asked for, or frames
    /// wait of one that was asked for and taken back before a file was made.
    pub open spec fn wants_file(self, pending: bool) -> bool {
        !self.file_open && (self.requested || (pending && (self.state == STATE_STARTING
            || self.state == STATE_SAVING)))
    }

    /// Where to go on once there is a file or none is wanted.
    pub open spec fn to_frames(self) -> Writer {
        self.at(
            if self.file_open {
                WriterStage::Drain
            } else if self.shutting_down {
                WriterStage::Discard
            } else {
                WriterStage::LookAvailable
            },
        )
    }

    /// Where to go on once the frames are dealt with.
    pub open spec fn to_limit(self) -> Writer {
        if self.frames_written >= self.maximum_frames {
            self.at(WriterStage::LimitSwap)
        } else {
            self.to_completion()
        }
    }

    /// Where to go on to see whether the recording is over.
    pub open spec fn to_completion(self) -> Writer {
        self.at(
            if self.file_open {
                WriterStage::FileRequested
            } else {
                WriterStage::RestRequested
            },
        )
    }

    /// Where to go on to see whether the writer is to end.
    pub open spec fn to_exit(self) -> Writer {
        if self.shutting_down && !self.file_open {
            self.at(WriterStage::ExitCallbacks)
        } else {
            self.to_sleep()
        }
    }

    /// Where to go on to see how long to sleep.
    pub open spec fn to_sleep(self) -> Writer {
        self.at(
            if self.file_open {
                WriterStage::Park(BUSY_PARK_MS)
            } else {
                WriterStage::IdleRequested
            },
        )
    }

    pub open spec fn upcoming(self) -> Option<WriterStep> {
        match self.stage {
            WriterStage::LookShutdown => Some(WriterStep::LoadShutdown),
            WriterStage::LookRequested => Some(WriterStep::Access(RecorderAccess::LoadRequested)),
            WriterStage::LookState => Some(WriterStep::Access(RecorderAccess::LoadState)),
            WriterStage::LookPending => Some(WriterStep::LookIntoRing),
            WriterStage::CreateFile => Some(WriterStep::CreateFile),
            WriterStage::NoteNewPath => Some(WriterStep::NotePath),
            WriterStage::ResetWritten => Some(WriterStep::Access(RecorderAccess::StoreWritten(0))),
            WriterStage::MarkRecording => Some(
                WriterStep::Access(RecorderAccess::StoreState(STATE_RECORDING)),
            ),
            WriterStage::LookAvailable => Some(WriterStep::Access(RecorderAccess::LoadAvailable)),
            WriterStage::Discard => Some(WriterStep::Pop),
            WriterStage::Drain => Some(WriterStep::Pop),
            WriterStage::Write(frame) => Some(WriterStep::Write(frame)),
            WriterStage::Publish(_) => Some(
                WriterStep::Access(RecorderAccess::StoreWritten(self.frames_written)),
            ),
            WriterStage::Withdraw(_) => Some(
                WriterStep::Access(RecorderAccess::StoreRequested(false)),
            ),
            WriterStage::Close(_) => Some(
                WriterStep::Access(RecorderAccess::StoreAvailable(false)),
            ),
            WriterStage::Seal(_) => Some(WriterStep::Finalize),
            WriterStage::Remove(_) => Some(WriterStep::RemoveFile),
            WriterStage::Note(fault) => Some(WriterStep::NoteFault(fault)),
            WriterStage::Mark(_) => Some(
                WriterStep::Access(RecorderAccess::StoreState(STATE_ERROR)),
            ),
            WriterStage::LimitSwap => Some(WriterStep::Access(RecorderAccess::SwapRequested)),
            WriterStage::LimitMark => Some(
                WriterStep::Access(RecorderAccess::StoreState(STATE_SAVING)),
            ),
            WriterStage::FileRequested => Some(WriterStep::Access(RecorderAccess::LoadRequested)),
            WriterStage::FileCallbacks => Some(WriterStep::Access(RecorderAccess::LoadCallbacks)),
            WriterStage::FileRing => Some(WriterStep::LookIntoRing),
            WriterStage::Finalize => Some(WriterStep::Finalize),
            WriterStage::NoteSavedPath => Some(WriterStep::NotePath),
            WriterStage::MarkSaved => Some(
                WriterStep::Access(RecorderAccess::StoreState(STATE_SAVED)),
            ),
            WriterStage::RestRequested => Some(WriterStep::Access(RecorderAccess::LoadRequested)),
            WriterStage::RestCallbacks => Some(WriterStep::Access(RecorderAccess::LoadCallbacks)),
            WriterStage::RestRing => Some(WriterStep::LookIntoRing),
            WriterStage::RestState => Some(WriterStep::Access(RecorderAccess::LoadState)),
            WriterStage::RestMark => Some(
                WriterStep::Access(RecorderAccess::StoreState(STATE_IDLE)),
            ),
            WriterStage::ExitCallbacks => Some(WriterStep::Access(RecorderAccess::LoadCallbacks)),
            WriterStage::ExitRing => Some(WriterStep::LookIntoRing),
            WriterStage::IdleRequested => Some(WriterStep::Access(RecorderAccess::LoadRequested)),
            WriterStage::IdleCallbacks => Some(WriterStep::Access(RecorderAccess::LoadCallbacks)),
            WriterStage::IdleRing => Some(WriterStep::LookIntoRing),
            WriterStage::Park(milliseconds) => Some(WriterStep::Park(milliseconds)),
            WriterStage::Exited => None,
        }
    }

    /// The writer after its next step, which was not to take a frame, gave `answer`.
    pub open spec fn resumed(self, answer: u64) -> Writer {
        match self.stage {
            WriterStage::LookShutdown => Writer {
                shutting_down: answer != 0,
                ..self
            }.at(WriterStage::LookRequested),
            WriterStage::LookRequested => Writer {
                requested: answer != 0 && !self.shutting_down,
                ..self
            }.at(WriterStage::LookState),
            WriterStage::LookState => Writer { state: answer, ..self }.at(
                WriterStage::LookPending,
            ),
            WriterStage::LookPending => if self.wants_file(answer != 0) {
                self.at(WriterStage::CreateFile)
            } else {
                self.to_frames()
            },
            WriterStage::CreateFile => if answer != 0 {
                self.at(WriterStage::NoteNewPath)
            } else {
                self.at(WriterStage::Withdraw(Fault::Create))
            },
            WriterStage::NoteNewPath => Writer { frames_written: 0, ..self }.at(
                WriterStage::ResetWritten,
            ),
            WriterStage::ResetWritten => self.at(WriterStage::MarkRecording),
            WriterStage::MarkRecording => Writer { file_open: true, ..self }.to_frames(),
            WriterStage::LookAvailable => if answer == 0 {
                self.at(WriterStage::Discard)
            } else {
                self.at(WriterStage::Publish(false))
            },
            WriterStage::Write(_) => if answer != 0 {
                Writer {
                    frames_written: if self.frames_written == u64::MAX {
                        u64::MAX
                    } else {
                        (self.frames_written + 1) as u64
                    },
                    ..self
                }.at(WriterStage::Drain)
            } else {
                self.at(WriterStage::Publish(true))
            },
            WriterStage::Publish(failed) => if failed {
                self.at(WriterStage::Withdraw(Fault::Write))
            } else {
                self.to_limit()
            },
            WriterStage::Withdraw(fault) => self.at(WriterStage::Close(fault)),
            WriterStage::Close(fault) => match fault {
                Fault::Write => Writer { file_open: false, ..self }.at(WriterStage::Seal(fault)),
                Fault::Save => self.at(WriterStage::Remove(fault)),
                _ => self.at(WriterStage::Note(fault)),
            },
            WriterStage::Seal(fault) => self.at(WriterStage::Remove(fault)),
            WriterStage::Remove(fault) => self.at(WriterStage::Note(fault)),
            WriterStage::Note(fault) => self.at(WriterStage::Mark(fault)),
            WriterStage::Mark(fault) => match fault {
                Fault::Write => self.to_limit(),
                Fault::Save => self.to_exit(),
                _ => self.to_frames(),
            },
            WriterStage::LimitSwap => if answer != 0 {
                self.at(WriterStage::LimitMark)
            } else {
                self.to_completion()
            },
            WriterStage::LimitMark => self.to_completion(),
            WriterStage::FileRequested => if answer == 0 {
                self.at(WriterStage::FileCallbacks)
            } else {
                self.to_exit()
            },
            WriterStage::FileCallbacks => if answer == 0 {
                self.at(WriterStage::FileRing)
            } else {
                self.to_exit()
            },
            WriterStage::FileRing => if answer == 0 {
                self.at(WriterStage::Finalize)
            } else {
                self.to_exit()
            },
            WriterStage::Finalize => if answer != 0 {
                Writer { file_open: false, ..self }.at(WriterStage::NoteSavedPath)
            } else {
                Writer { file_open: false, ..self }.at(WriterStage::Close(Fault::Save))
            },
            WriterStage::NoteSavedPath => self.at(WriterStage::MarkSaved),
            WriterStage::MarkSaved => self.to_exit(),
            WriterStage::RestRequested => if answer == 0 {
                self.at(WriterStage::RestCallbacks)
            } else {
                self.to_exit()
            },
            WriterStage::RestCallbacks => if answer == 0 {
                self.at(WriterStage::RestRing)
            } else {
                self.to_exit()
            },
            WriterStage::RestRing => if answer == 0 {
                self.at(WriterStage::RestState)
            } else {
                self.to_exit()
            },
            WriterStage::RestState => if answer == STATE_STARTING || answer == STATE_SAVING {
                self.at(WriterStage::RestMark)
            } else {
                self.to_exit()
            },
            WriterStage::RestMark => self.to_exit(),
            WriterStage::ExitCallbacks => if answer == 0 {
                self.at(WriterStage::ExitRing)
            } else {
                self.to_sleep()
            },
            WriterStage::ExitRing => if answer == 0 {
                self.at(WriterStage::Exited)
            } else {
                self.to_sleep()
            },
            WriterStage::IdleRequested => if answer == 0 {
                self.at(WriterStage::IdleCallbacks)
            } else {
                self.at(WriterStage::Park(BUSY_PARK_MS))
            },
            WriterStage::IdleCallbacks => if answer == 0 {
                self.at(WriterStage::IdleRing)
            } else {
                self.at(WriterStage::Park(BUSY_PARK_MS))
            },
            WriterStage::IdleRing => if answer == 0 {
                self.at(WriterStage::Park(IDLE_PARK_MS))
            } else {
                self.at(WriterStage::Park(BUSY_PARK_MS))
            },
            WriterStage::Park(_) => self.at(WriterStage::LookShutdown),
            _ => self,
        }
    }

    /// The writer after its next step, which was to take a frame, gave `frame`.
    pub open spec fn handed(self, frame: Option<FrameBits>) -> Writer {
        match self.stage {
            WriterStage::Drain => match frame {
                Some(frame) => if self.frames_written < self.maximum_frames {
                    self.at(WriterStage::Write(frame))
                } else {
                    self
                },
                None => self.at(WriterStage::Publish(false)),
            },
            WriterStage::Discard => match frame {
                Some(_) => self,
                None => self.at(WriterStage::Publish(false)),
            },
            _ => self,
        }
    }

    /// The writer of a session of `sample_rate` frames a second.
    pub fn new(sample_rate: u32) -> (writer: Writer)
        ensures
            writer == Writer::fresh(sample_rate),
            writer.maximum_frames == 120 * sample_rate,
            !writer.file_open,
            writer.frames_written == 0,
    {
        Writer {
            maximum_frames: sample_rate as u64 * MAX_RECORDING_SECONDS,
            stage: WriterStage::LookShutdown,
            file_open: false,
            frames_written: 0,
            shutting_down: false,
            requested: false,
            state: STATE_IDLE as u64,
        }
    }

    fn frames_stage(&self) -> (stage: WriterStage)
        ensures
            self.at(stage) == self.to_frames(),
    {
        if self.file_open {
            WriterStage::Drain
        } else if self.shutting_down {
            WriterStage::Discard
        } else {
            WriterStage::LookAvailable
        }
    }

    fn limit_stage(&self) -> (stage: WriterStage)
        ensures
            self.at(stage) == self.to_limit(),
    {
        if self.frames_written >= self.maximum_frames {
            WriterStage::LimitSwap
        } else {
            self.completion_stage()
        }
    }

    fn completion_stage(&self) -> (stage: WriterStage)
        ensures
            self.at(stage) == self.to_completion(),
    {
        if self.file_open {
            WriterStage::FileRequested
        } else {
            WriterStage::RestRequested
        }
    }

    fn exit_stage(&self) -> (stage: WriterStage)
        ensures
            self.at(stage) == self.to_exit(),
    {
        if self.shutting_down && !self.file_open {
            WriterStage::ExitCallbacks
        } else {
            self.sleep_stage()
        }
    }

    fn sleep_stage(&self) -> (stage: WriterStage)
        ensures
            self.at(stage) == self.to_sleep(),
    {
        if self.file_open {
            WriterStage::Park(BUSY_PARK_MS)
        } else {
            WriterStage::IdleRequested
        }
    }

    /// What is to be done next; nothing once the writer has ended.
    pub fn next_step(&self) -> (step: Option<WriterStep>)
        ensures
            step == self.upcoming(),
    {
        match self.stage {
            WriterStage::LookShutdown => Some(WriterStep::LoadShutdown),
            WriterStage::LookRequested => Some(WriterStep::Access(RecorderAccess::LoadRequested)),
            WriterStage::LookState => Some(WriterStep::Access(RecorderAccess::LoadState)),
            WriterStage::LookPending => Some(WriterStep::LookIntoRing),
            WriterStage::CreateFile => Some(WriterStep::CreateFile),
            WriterStage::NoteNewPath => Some(WriterStep::NotePath),
            WriterStage::ResetWritten => Some(WriterStep::Access(RecorderAccess::StoreWritten(0))),
            WriterStage::MarkRecording => Some(
                WriterStep::Access(RecorderAccess::StoreState(STATE_RECORDING)),
            ),
            WriterStage::LookAvailable => Some(WriterStep::Access(RecorderAccess::LoadAvailable)),
            WriterStage::Discard => Some(WriterStep::Pop),
            WriterStage::Drain => Some(WriterStep::Pop),
            WriterStage::Write(frame) => Some(WriterStep::Write(frame)),
            WriterStage::Publish(_) => Some(
                WriterStep::Access(RecorderAccess::StoreWritten(self.frames_written)),
            ),
            WriterStage::Withdraw(_) => Some(
                WriterStep::Access(RecorderAccess::StoreRequested(false)),
            ),
            WriterStage::Close(_) => Some(
                WriterStep::Access(RecorderAccess::StoreAvailable(false)),
            ),
            WriterStage::Seal(_) => Some(WriterStep::Finalize),
            WriterStage::Remove(_) => Some(WriterStep::RemoveFile),
            WriterStage::Note(fault) => Some(WriterStep::NoteFault(fault)),
            WriterStage::Mark(_) => Some(
                WriterStep::Access(RecorderAccess::StoreState(STATE_ERROR)),
            ),
            WriterStage::LimitSwap => Some(WriterStep::Access(RecorderAccess::SwapRequested)),
            WriterStage::LimitMark => Some(
                WriterStep::Access(RecorderAccess::StoreState(STATE_SAVING)),
            ),
            WriterStage::FileRequested => Some(WriterStep::Access(RecorderAccess::LoadRequested)),
            WriterStage::FileCallbacks => Some(WriterStep::Access(RecorderAccess::LoadCallbacks)),
            WriterStage::FileRing => Some(WriterStep::LookIntoRing),
            WriterStage::Finalize => Some(WriterStep::Finalize),
            WriterStage::NoteSavedPath => Some(WriterStep::NotePath),
            WriterStage::MarkSaved => Some(
                WriterStep::Access(RecorderAccess::StoreState(STATE_SAVED)),
            ),
            WriterStage::RestRequested => Some(WriterStep::Access(RecorderAccess::LoadRequested)),
            WriterStage::RestCallbacks => Some(WriterStep::Access(RecorderAccess::LoadCallbacks)),
            WriterStage::RestRing => Some(WriterStep::LookIntoRing),
            WriterStage::RestState => Some(WriterStep::Access(RecorderAccess::LoadState)),
            WriterStage::RestMark => Some(
                WriterStep::Access(RecorderAccess::StoreState(STATE_IDLE)),
            ),
            WriterStage::ExitCallbacks => Some(WriterStep::Access(RecorderAccess::LoadCallbacks)),
            WriterStage::ExitRing => Some(WriterStep::LookIntoRing),
            WriterStage::IdleRequested => Some(WriterStep::Access(RecorderAccess::LoadRequested)),
            WriterStage::IdleCallbacks => Some(WriterStep::Access(RecorderAccess::LoadCallbacks)),
            WriterStage::IdleRing => Some(WriterStep::LookIntoRing),
            WriterStage::Park(milliseconds) => Some(WriterStep::Park(milliseconds)),
            WriterStage::Exited => None,
        }
    }

    /// Takes in what the step last asked for, which was not to take a frame, gave.
    pub fn resume(&mut self, answer: u64)
        ensures
            *final(self) == old(self).resumed(answer),
    {
        match self.stage {
            WriterStage::LookShutdown => {
                self.shutting_down = answer != 0;
                self.stage = WriterStage::LookRequested;
            },
            WriterStage::LookRequested => {
                self.requested = answer != 0 && !self.shutting_down;
                self.stage = WriterStage::LookState;
            },
            WriterStage::LookState => {
                self.state = answer;
                self.stage = WriterStage::LookPending;
            },
            WriterStage::LookPending => {
                let early = self.state == STATE_STARTING as u64 || self.state
                    == STATE_SAVING as u64;
                self.stage = if !self.file_open && (self.requested || (answer != 0 && early)) {
                    WriterStage::CreateFile
                } else {
                    self.frames_stage()
                };
            },
            WriterStage::CreateFile => {
                self.stage = if answer != 0 {
                    WriterStage::NoteNewPath
                } else {
                    WriterStage::Withdraw(Fault::Create)
                };
            },
            WriterStage::NoteNewPath => {
                self.frames_written = 0;
                self.stage = WriterStage::ResetWritten;
            },
            WriterStage::ResetWritten => {
                self.stage = WriterStage::MarkRecording;
            },
            WriterStage::MarkRecording => {
                self.file_open = true;
                self.stage = self.frames_stage();
            },
            WriterStage::LookAvailable => {
                self.stage = if answer == 0 {
                    WriterStage::Discard
                } else {
                    WriterStage::Publish(false)
                };
            },
            WriterStage::Write(_) => {
                if answer != 0 {
                    if self.frames_written < u64::MAX {
                        self.frames_written = self.frames_written + 1;
                    }
                    self.stage = WriterStage::Drain;
                } else {
                    self.stage = WriterStage::Publish(true);
                }
            },
            WriterStage::Publish(failed) => {
                self.stage = if failed {
                    WriterStage::Withdraw(Fault::Write)
                } else {
                    self.limit_stage()
                };
            },
            WriterStage::Withdraw(fault) => {
                self.stage = WriterStage::Close(fault);
            },
            WriterStage::Close(fault) => {
                match fault {
                    Fault::Write => {
                        self.file_open = false;
                        self.stage = WriterStage::Seal(fault);
                    },
                    Fault::Save => {
                        self.stage = WriterStage::Remove(fault);
                    },
                    _ => {
                        self.stage = WriterStage::Note(fault);
                    },
                }
            },
            WriterStage::Seal(fault) => {
                self.stage = WriterStage::Remove(fault);
            },
            WriterStage::Remove(fault) => {
                self.stage = WriterStage::Note(fault);
            },
            WriterStage::Note(fault) => {
                self.stage = WriterStage::Mark(fault);
            },
            WriterStage::Mark(fault) => {
                self.stage = match fault {
                    Fault::Write => self.limit_stage(),
                    Fault::Save => self.exit_stage(),
                    _ => self.frames_stage(),
                };
            },
            WriterStage::LimitSwap => {
                self.stage = if answer != 0 {
                    WriterStage::LimitMark
                } else {
                    self.completion_stage()
                };
            },
            WriterStage::LimitMark => {
                self.stage = self.completion_stage();
            },
            WriterStage::FileRequested => {
                self.stage = if answer == 0 {
                    WriterStage::FileCallbacks
                } else {
                    self.exit_stage()
                };
            },
            WriterStage::FileCallbacks => {
                self.stage = if answer == 0 {
                    WriterStage::FileRing
                } else {
                    self.exit_stage()
                };
            },
            WriterStage::FileRing => {
                self.stage = if answer == 0 {
                    WriterStage::Finalize
                } else {
                    self.exit_stage()
                };
            },
            WriterStage::Finalize => {
                self.file_open = false;
                self.stage = if answer != 0 {
                    WriterStage::NoteSavedPath
                } else {
                    WriterStage::Close(Fault::Save)
                };
            },
            WriterStage::NoteSavedPath => {
                self.stage = WriterStage::MarkSaved;
            },
            WriterStage::MarkSaved => {
                self.stage = self.exit_stage();
            },
            WriterStage::RestRequested => {
                self.stage = if answer == 0 {
                    WriterStage::RestCallbacks
                } else {
                    self.exit_stage()
                };
            },
            WriterStage::RestCallbacks => {
                self.stage = if answer == 0 {
                    WriterStage::RestRing
                } else {
                    self.exit_stage()
                };
            },
            WriterStage::RestRing => {
                self.stage = if answer == 0 {
                    WriterStage::RestState
                } else {
                    self.exit_stage()
                };
            },
            WriterStage::RestState => {
                self.stage = if answer == STATE_STARTING as u64 || answer == STATE_SAVING as u64 {
                    WriterStage::RestMark
                } else {
                    self.exit_stage()
                };
            },
            WriterStage::RestMark => {
                self.stage = self.exit_stage();
            },
            WriterStage::ExitCallbacks => {
                self.stage = if answer == 0 {
                    WriterStage::ExitRing
                } else {
                    self.sleep_stage()
                };
            },
            WriterStage::ExitRing => {
                self.stage = if answer == 0 {
                    WriterStage::Exited
                } else {
                    self.sleep_stage()
                };
            },
            WriterStage::IdleRequested => {
                self.stage = if answer == 0 {
                    WriterStage::IdleCallbacks
                } else {
                    WriterStage::Park(BUSY_PARK_MS)
                };
            },
            WriterStage::IdleCallbacks => {
                self.stage = if answer == 0 {
                    WriterStage::IdleRing
                } else {
                    WriterStage::Park(BUSY_PARK_MS)
                };
            },
            WriterStage::IdleRing => {
                self.stage = if answer == 0 {
                    WriterStage::Park(IDLE_PARK_MS)
                } else {
                    WriterStage::Park(BUSY_PARK_MS)
                };
            },
            WriterStage::Park(_) => {
                self.stage = WriterStage::LookShutdown;
            },
            _ => {},
        }
    }

    /// Takes in the frame that the ring gave.
    pub fn resume_pop(&mut self, frame: Option<FrameBits>)
        ensures
            *final(self) == old(self).handed(frame),
    {
        match self.stage {
            WriterStage::Drain => match frame {
                Some(frame) => {
                    if self.frames_written < self.maximum_frames {
                        self.stage = WriterStage::Write(frame);
                    }
                },
                None => {
                    self.stage = WriterStage::Publish(false);
                },
            },
            WriterStage::Discard => match frame {
                Some(_) => {},
                None => {
                    self.stage = WriterStage::Publish(false);
                },
            },
            _ => {},
        }
    }

    /// Makes the next step where that is to take a frame or to look whether frames wait;
    /// gives back whether it was.
    pub fn step_ring(&mut self, source: &mut FrameSource) -> (stepped: bool)
        ensures
            source_goes_on(*old(source), *final(source)),
            old(self).upcoming() == Some(WriterStep::Pop) ==> {
                &&& stepped
                &&& visible(*old(source)).len() > 0 ==> {
                    &&& answers(*final(source)).last() == Some(visible(*old(source))[0])
                    &&& visible(*final(source)) == visible(*old(source)).drop_first()
                }
                &&& answers(*final(source)).last() is None ==> visible(*final(source)).len() == 0
                &&& answers(*final(source)).len() == answers(*old(source)).len() + 1
                &&& answers(*final(source)).drop_last() == answers(*old(source))
                &&& levels(*final(source)) == levels(*old(source))
                &&& *final(self) == old(self).handed(answers(*final(source)).last())
            },
            old(self).upcoming() == Some(WriterStep::LookIntoRing) ==> {
                &&& stepped
                &&& answers(*final(source)) == answers(*old(source))
                &&& levels(*final(source)).len() == levels(*old(source)).len() + 1
                &&& levels(*final(source)).drop_last() == levels(*old(source))
                &&& visible(*old(source)).is_prefix_of(visible(*final(source)))
                &&& levels(*final(source)).last() == visible(*final(source)).len()
                &&& *final(self) == old(self).resumed(flag(levels(*final(source)).last() > 0))
            },
            old(self).upcoming() != Some(WriterStep::Pop) && old(self).upcoming() != Some(
                WriterStep::LookIntoRing,
            ) ==> {
                &&& !stepped
                &&& *final(self) == *old(self)
                &&& *final(source) == *old(source)
            },
    {
        let ghost asked = answers(*source);
        let ghost looked = levels(*source);
        match self.next_step() {
            Some(WriterStep::Pop) => {
                let frame = source.pop();
                proof {
                    assert(answers(*source).drop_last() =~= asked);
                }
                self.resume_pop(frame);
                true
            },
            Some(WriterStep::LookIntoRing) => {
                let count: usize = source.occupied_len();
                proof {
                    assert(levels(*source).drop_last() =~= looked);
                }
                self.resume(
                    if count > 0 {
                        1
                    } else {
                        0
                    },
                );
                true
            },
            _ => false,
        }
    }
}

/// A file is made where none is open and a recording is asked for, or where frames wait of one
/// that starts or is to be saved; where a file is open none is made.
pub proof fn law_file_is_made_when_wanted(writer: Writer, answer: u64)
    requires
        writer.stage == WriterStage::LookPending,
    ensures
        !writer.file_open && writer.requested ==> writer.resumed(answer).upcoming() == Some(
            WriterStep::CreateFile,
        ),
        !writer.file_open && answer != 0 && (writer.state == 1 || writer.state == 3)
            ==> writer.resumed(answer).upcoming() == Some(WriterStep::CreateFile),
        writer.file_open ==> writer.resumed(answer).upcoming() == Some(WriterStep::Pop),
        !writer.file_open && !writer.requested && (answer == 0 || writer.state != 1
            && writer.state != 3) ==> writer.resumed(answer).upcoming() != Some(
            WriterStep::CreateFile,
        ),
{
}

/// What a round looks at first: whether the session is being taken down, whether a recording is
/// asked for, which counts only where it is not, the state, and whether frames wait.
pub proof fn law_round_looks_at_everything(writer: Writer, down: u64, asked: u64, state: u64)
    requires
        writer.stage == WriterStage::LookShutdown,
    ensures
        ({
            let first = writer.resumed(down);
            let second = first.resumed(asked);
            let third = second.resumed(state);
            &&& writer.upcoming() == Some(WriterStep::LoadShutdown)
            &&& first.upcoming() == Some(WriterStep::Access(RecorderAccess::LoadRequested))
            &&& second.upcoming() == Some(WriterStep::Access(RecorderAccess::LoadState))
            &&& third.upcoming() == Some(WriterStep::LookIntoRing)
            &&& third.shutting_down == (down != 0)
            &&& third.requested == (asked != 0 && down == 0)
            &&& third.state == state
            &&& third.file_open == writer.file_open
            &&& third.frames_written == writer.frames_written
            &&& third.maximum_frames == writer.maximum_frames
        }),
{
}

/// A file that could be made is noted, starts with no frames, and the state says that it is being
/// recorded; then its frames are taken.
pub proof fn law_new_file_starts_empty(writer: Writer, made: u64)
    requires
        writer.stage == WriterStage::CreateFile,
        made != 0,
    ensures
        ({
            let noted = writer.resumed(made);
            let counted = noted.resumed(0);
            let marked = counted.resumed(0);
            let ready = marked.resumed(0);
            &&& noted.upcoming() == Some(WriterStep::NotePath)
            &&& counted.upcoming() == Some(WriterStep::Access(RecorderAccess::StoreWritten(0)))
            &&& marked.upcoming() == Some(WriterStep::Access(RecorderAccess::StoreState(2)))
            &&& ready.upcoming() == Some(WriterStep::Pop)
            &&& ready.file_open
            &&& ready.frames_written == 0
        }),
{
}

/// A frame that was taken with room left in the file is the next thing that is written, bit for
/// bit, and once it is written it is counted; where the file is full frames are taken and thrown
/// away.
pub proof fn law_taken_frame_is_written(writer: Writer, frame: FrameBits, written: u64)
    requires
        writer.stage == WriterStage::Drain,
        writer.frames_written < u64::MAX,
        written != 0,
    ensures
        writer.frames_written < writer.maximum_frames ==> {
            &&& writer.handed(Some(frame)).upcoming() == Some(WriterStep::Write(frame))
            &&& writer.handed(Some(frame)).resumed(written).frames_written == writer.frames_written
                + 1
            &&& writer.handed(Some(frame)).resumed(written).upcoming() == Some(WriterStep::Pop)
        },
        writer.frames_written >= writer.maximum_frames ==> writer.handed(Some(frame)) == writer,
        writer.handed(None).upcoming() == Some(
            WriterStep::Access(RecorderAccess::StoreWritten(writer.frames_written)),
        ),
{
}

/// A full file ends its recording: the request is taken back, and where there was one the state
/// says that the recording is being saved. A file that is not full does neither.
pub proof fn law_full_file_ends_its_recording(writer: Writer, answer: u64)
    requires
        writer.stage == WriterStage::Publish(false),
    ensures
        writer.frames_written >= writer.maximum_frames ==> {
            let full = writer.resumed(0);
            &&& full.upcoming() == Some(WriterStep::Access(RecorderAccess::SwapRequested))
            &&& answer != 0 ==> full.resumed(answer).upcoming() == Some(
                WriterStep::Access(RecorderAccess::StoreState(3)),
            )
            &&& full.resumed(0).upcoming() == Some(
                WriterStep::Access(RecorderAccess::LoadRequested),
            )
        },
        writer.frames_written < writer.maximum_frames ==> writer.resumed(0).upcoming() == Some(
            WriterStep::Access(RecorderAccess::LoadRequested),
        ),
{
}

/// A file is completed once the request is gone, no callback is at work and no frame waits, and
/// not before: as long as one of the three is not so, the writer sleeps for two milliseconds.
pub proof fn law_file_is_completed_once_all_is_quiet(writer: Writer, answer: u64)
    requires
        writer.stage == WriterStage::FileRequested,
        writer.file_open,
        answer != 0,
    ensures
        ({
            let unasked = writer.resumed(0);
            let unused = unasked.resumed(0);
            let empty = unused.resumed(0);
            &&& writer.upcoming() == Some(WriterStep::Access(RecorderAccess::LoadRequested))
            &&& unasked.upcoming() == Some(WriterStep::Access(RecorderAccess::LoadCallbacks))
            &&& unused.upcoming() == Some(WriterStep::LookIntoRing)
            &&& empty.upcoming() == Some(WriterStep::Finalize)
            &&& writer.resumed(answer).upcoming() == Some(WriterStep::Park(2))
            &&& unasked.resumed(answer).upcoming() == Some(WriterStep::Park(2))
            &&& unused.resumed(answer).upcoming() == Some(WriterStep::Park(2))
        }),
{
}

/// A completed file is noted and the state says that it is saved; one that could not be completed
/// closes the recorder, is removed and reported, and the state says that there was an error.
pub proof fn law_completed_file_is_saved(writer: Writer, answer: u64)
    requires
        writer.stage == WriterStage::Finalize,
        answer != 0,
    ensures
        ({
            let done = writer.resumed(answer);
            &&& done.upcoming() == Some(WriterStep::NotePath)
            &&& done.resumed(0).upcoming() == Some(
                WriterStep::Access(RecorderAccess::StoreState(4)),
            )
            &&& !done.file_open
        }),
        ({
            let failed = writer.resumed(0);
            let closed = failed.resumed(0);
            let removed = closed.resumed(0);
            let noted = removed.resumed(0);
            &&& failed.upcoming() == Some(
                WriterStep::Access(RecorderAccess::StoreAvailable(false)),
            )
            &&& closed.upcoming() == Some(WriterStep::RemoveFile)
            &&& removed.upcoming() == Some(WriterStep::NoteFault(Fault::Save))
            &&& noted.upcoming() == Some(WriterStep::Access(RecorderAccess::StoreState(5)))
            &&& !noted.file_open
        }),
{
}

/// A file that cannot be made, and one that cannot be written to, take the request back and close
/// the recorder; the one that was written to is completed as far as it goes and removed. Both are
/// reported, and the state says that there was an error.
pub proof fn law_faults_close_the_recorder(writer: Writer, frame: FrameBits)
    ensures
        writer.stage == WriterStage::CreateFile ==> {
            let failed = writer.resumed(0);
            let withdrawn = failed.resumed(0);
            let closed = withdrawn.resumed(0);
            let noted = closed.resumed(0);
            &&& failed.upcoming() == Some(
                WriterStep::Access(RecorderAccess::StoreRequested(false)),
            )
            &&& withdrawn.upcoming() == Some(
                WriterStep::Access(RecorderAccess::StoreAvailable(false)),
            )
            &&& closed.upcoming() == Some(WriterStep::NoteFault(Fault::Create))
            &&& noted.upcoming() == Some(WriterStep::Access(RecorderAccess::StoreState(5)))
        },
        writer.stage == WriterStage::Write(frame) ==> {
            let failed = writer.resumed(0);
            let published = failed.resumed(0);
            let withdrawn = published.resumed(0);
            let closed = withdrawn.resumed(0);
            let sealed = closed.resumed(0);
            let removed = sealed.resumed(0);
            let noted = removed.resumed(0);
            &&& failed.upcoming() == Some(
                WriterStep::Access(RecorderAccess::StoreWritten(writer.frames_written)),
            )
            &&& published.upcoming() == Some(
                WriterStep::Access(RecorderAccess::StoreRequested(false)),
            )
            &&& withdrawn.upcoming() == Some(
                WriterStep::Access(RecorderAccess::StoreAvailable(false)),
            )
            &&& closed.upcoming() == Some(WriterStep::Finalize)
            &&& sealed.upcoming() == Some(WriterStep::RemoveFile)
            &&& removed.upcoming() == Some(WriterStep::NoteFault(Fault::Write))
            &&& noted.upcoming() == Some(WriterStep::Access(RecorderAccess::StoreState(5)))
            &&& !noted.file_open
        },
{
}

/// Without a file the writer settles a state that waits for one, ends where the session is being
/// taken down and all is quiet, and else sleeps: for a second where nothing is to be done, for two
/// milliseconds where something is about to be.
pub proof fn law_writer_without_file_rests_or_ends(writer: Writer, state: u64, answer: u64)
    requires
        writer.stage == WriterStage::RestRequested,
        !writer.file_open,
        answer != 0,
    ensures
        ({
            let unasked = writer.resumed(0);
            let unused = unasked.resumed(0);
            let empty = unused.resumed(0);
            let told = empty.resumed(state);
            &&& unasked.upcoming() == Some(WriterStep::Access(RecorderAccess::LoadCallbacks))
            &&& unused.upcoming() == Some(WriterStep::LookIntoRing)
            &&& empty.upcoming() == Some(WriterStep::Access(RecorderAccess::LoadState))
            &&& state == 1 || state == 3 ==> told.upcoming() == Some(
                WriterStep::Access(RecorderAccess::StoreState(0)),
            )
            &&& state != 1 && state != 3 && writer.shutting_down ==> {
                &&& told.upcoming() == Some(WriterStep::Access(RecorderAccess::LoadCallbacks))
                &&& told.resumed(0).upcoming() == Some(WriterStep::LookIntoRing)
                &&& told.resumed(0).resumed(0).upcoming() is None
                &&& told.resumed(answer).upcoming() is Some
                &&& told.resumed(0).resumed(answer).upcoming() is Some
            }
            &&& state != 1 && state != 3 && !writer.shutting_down ==> {
                &&& told.upcoming() == Some(WriterStep::Access(RecorderAccess::LoadRequested))
                &&& told.resumed(0).resumed(0).resumed(0).upcoming() == Some(
                    WriterStep::Park(1000),
                )
                &&& told.resumed(answer).upcoming() == Some(WriterStep::Park(2))
                &&& told.resumed(0).resumed(answer).upcoming() == Some(WriterStep::Park(2))
                &&& told.resumed(0).resumed(0).resumed(answer).upcoming() == Some(
                    WriterStep::Park(2),
                )
            }
        }),
{
}

} // verus!
