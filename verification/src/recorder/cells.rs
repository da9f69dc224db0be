//! What the parties of a recording share.

use vstd::prelude::*;

use crate::arithmetic::{integer_is, quotient_is, Arithmetic};
use crate::config::copy_of;
use crate::limiter::ZERO;
use crate::single::{single, Single};

verus! {

pub const STATE_IDLE: u8 = 0;

pub const STATE_STARTING: u8 = 1;

pub const STATE_RECORDING: u8 = 2;

pub const STATE_SAVING: u8 = 3;

pub const STATE_SAVED: u8 = 4;

pub const STATE_ERROR: u8 = 5;

#[derive(Clone, Copy, Debug, PartialEq, Eq, Structural)]
pub enum RecordingState {
    Idle,
    Starting,
    Recording,
    Saving,
    Saved,
    Error,
}

/// The state that a number stands for; an unknown number stands for idleness.
pub open spec fn state_of(value: u8) -> RecordingState {
    if value == STATE_STARTING {
        RecordingState::Starting
    } else if value == STATE_RECORDING {
        RecordingState::Recording
    } else if value == STATE_SAVING {
        RecordingState::Saving
    } else if value == STATE_SAVED {
        RecordingState::Saved
    } else if value == STATE_ERROR {
        RecordingState::Error
    } else {
        RecordingState::Idle
    }
}

pub fn decode_state(value: u8) -> (state: RecordingState)
    ensures
        state == state_of(value),
{
    if value == STATE_STARTING {
        RecordingState::Starting
    } else if value == STATE_RECORDING {
        RecordingState::Recording
    } else if value == STATE_SAVING {
        RecordingState::Saving
    } else if value == STATE_SAVED {
        RecordingState::Saved
    } else if value == STATE_ERROR {
        RecordingState::Error
    } else {
        RecordingState::Idle
    }
}

/// A recording is under way: the state is to be followed by another.
pub open spec fn unsettled(state: u8) -> bool {
    state == STATE_STARTING || state == STATE_RECORDING || state == STATE_SAVING
}

/// The cells.
#[derive(Clone, Copy, Debug, PartialEq, Eq, Structural)]
pub struct RecorderCells {
    /// An audio session runs, so that a recording can be asked for.
    pub session_available: bool,
    /// A recording is asked for.
    pub recording_requested: bool,
    /// How many input callbacks may hand frames over at this moment.
    pub active_input_callbacks: u32,
    pub recorder_state: u8,
    pub sample_rate: u32,
    /// Frames in the file so far.
    pub written_frames: u64,
    /// Frames that found no place on their way to the file.
    pub dropped_frames: u64,
}

/// One access to the cells.
#[derive(Clone, Copy, Debug, PartialEq, Eq, Structural)]
pub enum RecorderAccess {
    LoadAvailable,
    StoreAvailable(bool),
    LoadRequested,
    StoreRequested(bool),
    /// Makes the request where there is none; answers whether it did.
    ExchangeRequested,
    /// Takes the request back; answers whether there was one.
    SwapRequested,
    JoinCallbacks,
    LeaveCallbacks,
    LoadCallbacks,
    ResetCallbacks,
    LoadState,
    StoreState(u8),
    StoreRate(u32),
    StoreWritten(u64),
    ResetDropped,
    AddDropped(u64),
    ClearError,
    /// Wakes the writer, should it be asleep.
    Wake,
}

/// One for a flag that is up.
pub open spec fn flag(value: bool) -> u64 {
    if value {
        1
    } else {
        0
    }
}

/// The count after one more.
pub open spec fn wrapping_up(count: u32) -> u32 {
    if count == u32::MAX {
        0
    } else {
        (count + 1) as u32
    }
}

/// The count after one less.
pub open spec fn wrapping_down(count: u32) -> u32 {
    if count == 0 {
        u32::MAX
    } else {
        (count - 1) as u32
    }
}

/// `a + b`, starting over after the largest number.
pub open spec fn wrapped_sum(a: u64, b: u64) -> u64 {
    if a + b > u64::MAX {
        (a + b - 0x1_0000_0000_0000_0000) as u64
    } else {
        (a + b) as u64
    }
}

impl RecorderCells {
    /// The cells of a program that has just started.
    pub open spec fn initial() -> RecorderCells {
        RecorderCells {
            session_available: false,
            recording_requested: false,
            active_input_callbacks: 0,
            recorder_state: STATE_IDLE,
            sample_rate: 0,
            written_frames: 0,
            dropped_frames: 0,
        }
    }

    /// The cells after an access.
    pub open spec fn after(self, access: RecorderAccess) -> RecorderCells {
        match access {
            RecorderAccess::StoreAvailable(value) => RecorderCells {
                session_available: value,
                ..self
            },
            RecorderAccess::StoreRequested(value) => RecorderCells {
                recording_requested: value,
                ..self
            },
            RecorderAccess::ExchangeRequested => RecorderCells {
                recording_requested: true,
                ..self
            },
            RecorderAccess::SwapRequested => RecorderCells { recording_requested: false, ..self },
            RecorderAccess::JoinCallbacks => RecorderCells {
                active_input_callbacks: wrapping_up(self.active_input_callbacks),
                ..self
            },
            RecorderAccess::LeaveCallbacks => RecorderCells {
                active_input_callbacks: wrapping_down(self.active_input_callbacks),
                ..self
            },
            RecorderAccess::ResetCallbacks => RecorderCells { active_input_callbacks: 0, ..self },
            RecorderAccess::StoreState(value) => RecorderCells { recorder_state: value, ..self },
            RecorderAccess::StoreRate(value) => RecorderCells { sample_rate: value, ..self },
            RecorderAccess::StoreWritten(value) => RecorderCells { written_frames: value, ..self },
            RecorderAccess::ResetDropped => RecorderCells { dropped_frames: 0, ..self },
            RecorderAccess::AddDropped(count) => RecorderCells {
                dropped_frames: wrapped_sum(self.dropped_frames, count),
                ..self
            },
            _ => self,
        }
    }

    /// What an access answers; zero where nobody asks.
    pub open spec fn answer(self, access: RecorderAccess) -> u64 {
        match access {
            RecorderAccess::LoadAvailable => flag(self.session_available),
            RecorderAccess::LoadRequested => flag(self.recording_requested),
            RecorderAccess::ExchangeRequested => flag(!self.recording_requested),
            RecorderAccess::SwapRequested => flag(self.recording_requested),
            RecorderAccess::LoadCallbacks => self.active_input_callbacks as u64,
            RecorderAccess::LoadState => self.recorder_state as u64,
            _ => 0,
        }
    }

    pub fn new() -> (cells: RecorderCells)
        ensures
            cells == RecorderCells::initial(),
    {
        RecorderCells {
            session_available: false,
            recording_requested: false,
            active_input_callbacks: 0,
            recorder_state: STATE_IDLE,
            sample_rate: 0,
            written_frames: 0,
            dropped_frames: 0,
        }
    }

    /// Carries out an access.
    pub fn perform(&mut self, access: RecorderAccess) -> (answer: u64)
        ensures
            *final(self) == old(self).after(access),
            answer == old(self).answer(access),
    {
        match access {
            RecorderAccess::LoadAvailable => as_number(self.session_available),
            RecorderAccess::StoreAvailable(value) => {
                self.session_available = value;
                0
            },
            RecorderAccess::LoadRequested => as_number(self.recording_requested),
            RecorderAccess::StoreRequested(value) => {
                self.recording_requested = value;
                0
            },
            RecorderAccess::ExchangeRequested => {
                let made = !self.recording_requested;
                self.recording_requested = true;
                as_number(made)
            },
            RecorderAccess::SwapRequested => {
                let there_was = self.recording_requested;
                self.recording_requested = false;
                as_number(there_was)
            },
            RecorderAccess::JoinCallbacks => {
                self.active_input_callbacks = if self.active_input_callbacks == u32::MAX {
                    0
                } else {
                    self.active_input_callbacks + 1
                };
                0
            },
            RecorderAccess::LeaveCallbacks => {
                self.active_input_callbacks = if self.active_input_callbacks == 0 {
                    u32::MAX
                } else {
                    self.active_input_callbacks - 1
                };
                0
            },
            RecorderAccess::LoadCallbacks => self.active_input_callbacks as u64,
            RecorderAccess::ResetCallbacks => {
                self.active_input_callbacks = 0;
                0
            },
            RecorderAccess::LoadState => self.recorder_state as u64,
            RecorderAccess::StoreState(value) => {
                self.recorder_state = value;
                0
            },
            RecorderAccess::StoreRate(value) => {
                self.sample_rate = value;
                0
            },
            RecorderAccess::StoreWritten(value) => {
                self.written_frames = value;
                0
            },
            RecorderAccess::ResetDropped => {
                self.dropped_frames = 0;
                0
            },
            RecorderAccess::AddDropped(count) => {
                self.dropped_frames = add_wrapping(self.dropped_frames, count);
                0
            },
            RecorderAccess::ClearError => 0,
            RecorderAccess::Wake => 0,
        }
    }
}

fn as_number(value: bool) -> (number: u64)
    ensures
        number == flag(value),
{
    if value {
        1
    } else {
        0
    }
}

/// `a + b`, starting over after the largest number.
pub fn add_wrapping(a: u64, b: u64) -> (r: u64)
    ensures
        r == wrapped_sum(a, b),
{
    if a > u64::MAX - b {
        a - (u64::MAX - b) - 1
    } else {
        a + b
    }
}

/// The cells together with what the user interface is told in words.
pub struct Recorder {
    pub cells: RecorderCells,
    /// The file of the last recording.
    pub last_path: Option<String>,
    pub last_error: Option<String>,
}

impl Recorder {
    /// The recorder after an access.
    pub open spec fn after(self, access: RecorderAccess) -> Recorder {
        Recorder {
            cells: self.cells.after(access),
            last_path: self.last_path,
            last_error: if access == RecorderAccess::ClearError {
                None
            } else {
                self.last_error
            },
        }
    }

    pub fn new() -> (recorder: Recorder)
        ensures
            recorder.cells == RecorderCells::initial(),
            recorder.last_path is None,
            recorder.last_error is None,
    {
        Recorder { cells: RecorderCells::new(), last_path: None, last_error: None }
    }

    /// Carries out an access.
    pub fn perform(&mut self, access: RecorderAccess) -> (answer: u64)
        ensures
            *final(self) == old(self).after(access),
            answer == old(self).cells.answer(access),
    {
        match access {
            RecorderAccess::ClearError => {
                self.last_error = None;
            },
            _ => {},
        }
        self.cells.perform(access)
    }

    pub fn set_last_path(&mut self, path: Option<String>)
        ensures
            *final(self) == (Recorder { last_path: path, ..*old(self) }),
    {
        self.last_path = path;
    }

    pub fn clear_error(&mut self)
        ensures
            *final(self) == (Recorder { last_error: None, ..*old(self) }),
    {
        self.last_error = None;
    }

    /// Makes `message` the last error and says so in the state.
    pub fn set_error(&mut self, message: String)
        ensures
            *final(self) == (Recorder {
                cells: RecorderCells { recorder_state: STATE_ERROR, ..old(self).cells },
                last_error: Some(message),
                ..*old(self)
            }),
    {
        self.last_error = Some(message);
        self.cells.recorder_state = STATE_ERROR;
    }
}

/// What the user interface needs at every turn.
#[derive(Clone, Copy, Debug, PartialEq, Eq, Structural)]
pub struct RecordingStatus {
    pub session_available: bool,
    pub requested: bool,
    pub state: RecordingState,
}

/// What the user interface shows of a recording.
pub struct RecordingSnapshot {
    pub session_available: bool,
    pub requested: bool,
    pub state: RecordingState,
    pub elapsed_seconds: Single,
    pub dropped_frames: u64,
    pub last_path: Option<String>,
    pub last_error: Option<String>,
}

/// Counts frames that found no place.
pub fn add_dropped_frames(cells: &mut RecorderCells, count: u64)
    ensures
        *final(cells) == (RecorderCells {
            dropped_frames: wrapped_sum(old(cells).dropped_frames, count),
            ..*old(cells)
        }),
{
    if count != 0 {
        cells.perform(RecorderAccess::AddDropped(count));
    }
}

pub fn status(cells: &RecorderCells) -> (status: RecordingStatus)
    ensures
        status == (RecordingStatus {
            session_available: cells.session_available,
            requested: cells.recording_requested,
            state: state_of(cells.recorder_state),
        }),
{
    RecordingStatus {
        session_available: cells.session_available,
        requested: cells.recording_requested,
        state: decode_state(cells.recorder_state),
    }
}

/// `r` is an answer for the seconds that `frames` take at `rate` frames a second; zero
/// where the rate is not known yet.
pub open spec fn seconds_is<A: Arithmetic>(frames: u64, rate: u32, r: Single) -> bool {
    if rate == 0 {
        r == single(ZERO)
    } else {
        exists|whole: Single, per_second: Single|
            #![trigger integer_is::<A>(frames, whole), integer_is::<A>(rate as u64, per_second)]
            {
                &&& integer_is::<A>(frames, whole)
                &&& integer_is::<A>(rate as u64, per_second)
                &&& quotient_is::<A>(whole, per_second, r)
            }
    }
}

/// The seconds that `frames` take at `rate` frames a second.
pub fn elapsed_seconds<A: Arithmetic>(frames: u64, rate: u32) -> (seconds: Single)
    ensures
        seconds_is::<A>(frames, rate, seconds),
{
    if rate == 0 {
        return Single::from_bits(ZERO);
    }
    let whole = A::from_integer(frames);
    let per_second = A::from_integer(rate as u64);
    assert(integer_is::<A>(frames, whole));
    assert(integer_is::<A>(rate as u64, per_second));
    A::quotient(whole, per_second)
}

impl RecordingSnapshot {
    /// The snapshot tells what the recorder holds.
    pub open spec fn shows<A: Arithmetic>(self, recorder: Recorder) -> bool {
        &&& self.session_available == recorder.cells.session_available
        &&& self.requested == recorder.cells.recording_requested
        &&& self.state == state_of(recorder.cells.recorder_state)
        &&& seconds_is::<A>(
            recorder.cells.written_frames,
            recorder.cells.sample_rate,
            self.elapsed_seconds,
        )
        &&& self.dropped_frames == recorder.cells.dropped_frames
        &&& self.last_path == recorder.last_path
        &&& self.last_error == recorder.last_error
    }
}

pub fn snapshot<A: Arithmetic>(recorder: &Recorder) -> (snapshot: RecordingSnapshot)
    ensures
        snapshot.shows::<A>(*recorder),
        snapshot.session_available == recorder.cells.session_available,
        snapshot.requested == recorder.cells.recording_requested,
        snapshot.state == state_of(recorder.cells.recorder_state),
        seconds_is::<A>(
            recorder.cells.written_frames,
            recorder.cells.sample_rate,
            snapshot.elapsed_seconds,
        ),
        snapshot.dropped_frames == recorder.cells.dropped_frames,
        snapshot.last_path == recorder.last_path,
        snapshot.last_error == recorder.last_error,
{
    let status = status(&recorder.cells);
    RecordingSnapshot {
        session_available: status.session_available,
        requested: status.requested,
        state: status.state,
        elapsed_seconds: elapsed_seconds::<A>(
            recorder.cells.written_frames,
            recorder.cells.sample_rate,
        ),
        dropped_frames: recorder.cells.dropped_frames,
        last_path: copy_of(&recorder.last_path),
        last_error: copy_of(&recorder.last_error),
    }
}

/// What was stored is what the next look finds, and an access changes the cell that it names and
/// no other.
pub proof fn law_accesses_keep_to_their_cells(
    cells: RecorderCells,
    value: bool,
    state: u8,
    number: u64,
    rate: u32,
)
    ensures
        cells.after(RecorderAccess::StoreAvailable(value)) == (RecorderCells {
            session_available: value,
            ..cells
        }),
        cells.after(RecorderAccess::StoreRequested(value)) == (RecorderCells {
            recording_requested: value,
            ..cells
        }),
        cells.after(RecorderAccess::StoreAvailable(value)).answer(RecorderAccess::LoadAvailable)
            == (if value {
            1u64
        } else {
            0
        }),
        cells.after(RecorderAccess::StoreRequested(value)).answer(RecorderAccess::LoadRequested)
            == (if value {
            1u64
        } else {
            0
        }),
        cells.after(RecorderAccess::StoreState(state)).answer(RecorderAccess::LoadState) == state,
        cells.after(RecorderAccess::StoreState(state)) == (RecorderCells {
            recorder_state: state,
            ..cells
        }),
        cells.after(RecorderAccess::StoreRate(rate)) == (RecorderCells {
            sample_rate: rate,
            ..cells
        }),
        cells.after(RecorderAccess::StoreWritten(number)) == (RecorderCells {
            written_frames: number,
            ..cells
        }),
        cells.after(RecorderAccess::ResetDropped) == (RecorderCells {
            dropped_frames: 0,
            ..cells
        }),
        cells.after(RecorderAccess::ResetCallbacks).answer(RecorderAccess::LoadCallbacks) == 0,
        cells.active_input_callbacks < u32::MAX ==> cells.after(
            RecorderAccess::JoinCallbacks,
        ).answer(RecorderAccess::LoadCallbacks) == cells.answer(RecorderAccess::LoadCallbacks) + 1,
        cells.active_input_callbacks > 0 ==> cells.after(RecorderAccess::LeaveCallbacks).answer(
            RecorderAccess::LoadCallbacks,
        ) == cells.answer(RecorderAccess::LoadCallbacks) - 1,
        cells.dropped_frames + number <= u64::MAX ==> cells.after(
            RecorderAccess::AddDropped(number),
        ) == (RecorderCells { dropped_frames: (cells.dropped_frames + number) as u64, ..cells }),
        cells.after(RecorderAccess::LoadAvailable) == cells,
        cells.after(RecorderAccess::LoadRequested) == cells,
        cells.after(RecorderAccess::LoadCallbacks) == cells,
        cells.after(RecorderAccess::LoadState) == cells,
        cells.after(RecorderAccess::Wake) == cells,
{
}

/// A request is made once and taken back once: whoever makes it first is told so, everybody after
/// is not, and whoever takes it back first is told so.
pub proof fn law_requests_are_made_once(cells: RecorderCells)
    ensures
        ({
            let asked = cells.after(RecorderAccess::ExchangeRequested);
            let taken = cells.after(RecorderAccess::SwapRequested);
            &&& asked.recording_requested
            &&& asked.answer(RecorderAccess::ExchangeRequested) == 0
            &&& asked.answer(RecorderAccess::SwapRequested) != 0
            &&& !taken.recording_requested
            &&& taken.answer(RecorderAccess::SwapRequested) == 0
            &&& taken.answer(RecorderAccess::ExchangeRequested) != 0
            &&& asked == (RecorderCells { recording_requested: true, ..cells })
            &&& taken == (RecorderCells { recording_requested: false, ..cells })
        }),
{
}

/// The states have numbers of their own, and a number that is none of theirs is idleness.
pub proof fn law_states_have_their_numbers(value: u8)
    ensures
        state_of(1) == RecordingState::Starting,
        state_of(2) == RecordingState::Recording,
        state_of(3) == RecordingState::Saving,
        state_of(4) == RecordingState::Saved,
        state_of(5) == RecordingState::Error,
        value == 0 || value > 5 ==> state_of(value) == RecordingState::Idle,
        unsettled(value) <==> state_of(value) == RecordingState::Starting || state_of(value)
            == RecordingState::Recording || state_of(value) == RecordingState::Saving,
{
}

/// As many frames as there are in a second take one second, no frames take none, and of two
/// numbers of frames the larger takes no less time.
pub proof fn law_seconds_count_frames<A: Arithmetic>(
    frames: u64,
    more: u64,
    rate: u32,
    seconds: Single,
    more_seconds: Single,
)
    requires
        rate > 0,
        crate::arithmetic::knows_one_and_zero::<A>(),
        forall|n: u64, r: Single, q: Single| #[trigger]
            integer_is::<A>(n, r) && #[trigger] integer_is::<A>(n, q) ==> r == q,
        forall|a: u64, b: u64, r: Single, q: Single|
            #![trigger integer_is::<A>(a, r), integer_is::<A>(b, q)]
            integer_is::<A>(a, r) && integer_is::<A>(b, q) && a <= b ==> r.at_most(q),
        forall|n: u64, r: Single| #[trigger]
            integer_is::<A>(n, r) ==> r.finite() && (r.same(single(ZERO)) <==> n == 0),
        forall|a: Single, b: Single, whole: Single, r: Single, q: Single|
            #![trigger quotient_is::<A>(a, whole, r), quotient_is::<A>(b, whole, q)]
            quotient_is::<A>(a, whole, r) && quotient_is::<A>(b, whole, q) && integer_is::<A>(
                rate as u64,
                whole,
            ) && a.at_most(b) ==> r.at_most(q),
        seconds_is::<A>(frames, rate, seconds),
        seconds_is::<A>(more, rate, more_seconds),
    ensures
        frames == rate ==> seconds == single(crate::limiter::ONE),
        frames == 0 ==> seconds.same(single(ZERO)),
        frames <= more ==> seconds.at_most(more_seconds),
{
    let (whole, per_second) = choose|whole: Single, per_second: Single|
        #![trigger integer_is::<A>(frames, whole), integer_is::<A>(rate as u64, per_second)]
        {
            &&& integer_is::<A>(frames, whole)
            &&& integer_is::<A>(rate as u64, per_second)
            &&& quotient_is::<A>(whole, per_second, seconds)
        };
    let (more_whole, same_per_second) = choose|whole: Single, per_second: Single|
        #![trigger integer_is::<A>(more, whole), integer_is::<A>(rate as u64, per_second)]
        {
            &&& integer_is::<A>(more, whole)
            &&& integer_is::<A>(rate as u64, per_second)
            &&& quotient_is::<A>(whole, per_second, more_seconds)
        };
    assert(per_second == same_per_second);
    if frames <= more {
        assert(whole.at_most(more_whole));
    }
}

/// What happens to the recorder is seen in the next snapshot, and nothing else is: frames that found
/// no place, a request, a session, a state and an error each change their own part of it.
pub proof fn law_snapshot_tells_what_happened<A: Arithmetic>(
    recorder: Recorder,
    snapshot: RecordingSnapshot,
    count: u64,
    value: bool,
)
    ensures
        snapshot.shows::<A>(recorder.after(RecorderAccess::AddDropped(count)))
            && recorder.cells.dropped_frames + count <= u64::MAX ==> {
            &&& snapshot.dropped_frames == recorder.cells.dropped_frames + count
            &&& snapshot.requested == recorder.cells.recording_requested
            &&& snapshot.session_available == recorder.cells.session_available
            &&& snapshot.last_error == recorder.last_error
            &&& snapshot.last_path == recorder.last_path
        },
        snapshot.shows::<A>(recorder.after(RecorderAccess::StoreRequested(value))) ==> {
            &&& snapshot.requested == value
            &&& snapshot.session_available == recorder.cells.session_available
            &&& snapshot.dropped_frames == recorder.cells.dropped_frames
        },
        snapshot.shows::<A>(recorder.after(RecorderAccess::StoreAvailable(value))) ==> {
            &&& snapshot.session_available == value
            &&& snapshot.requested == recorder.cells.recording_requested
        },
        snapshot.shows::<A>(recorder.after(RecorderAccess::StoreState(4))) ==> snapshot.state
            == RecordingState::Saved,
        snapshot.shows::<A>(recorder.after(RecorderAccess::ClearError)) ==> {
            &&& snapshot.last_error is None
            &&& snapshot.last_path == recorder.last_path
        },
        snapshot.shows::<A>(recorder.after(RecorderAccess::StoreWritten(count))) ==> seconds_is::<A>(
            count,
            recorder.cells.sample_rate,
            snapshot.elapsed_seconds,
        ),
{
}

} // verus!
