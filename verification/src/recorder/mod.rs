//! Recording of the untouched input to WAV files.
//!
//! Four parties share a handful of cells: the user interface, which asks for a recording
//! and takes the request back; the input callbacks, which hand frames over while one is
//! asked for; the writer, which makes and completes the files; and the owner of the audio
//! session, which starts the writer and takes everything down. Each party is given as a
//! sequence of single accesses, so that a host can carry out each access on shared memory.

pub mod capture;
pub mod cells;
pub mod path;
pub mod recording_course;
pub mod requests;
pub mod session;
pub mod teardown_course;
pub mod wav;
pub mod writer;

pub use capture::{begin_input_callback, end_input_callback, InputCallbackCapture};
pub use cells::{
    add_dropped_frames, snapshot, status, Recorder, RecorderAccess, RecorderCells,
    RecordingSnapshot, RecordingState, RecordingStatus,
};
pub use requests::{request_start, request_stop};
pub use session::{start_session, RealtimeRecorder, RecorderSession};
