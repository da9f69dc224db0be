use soundlock::arithmetic::Arithmetic;
use soundlock::recorder::capture::{begin_input_callback, end_input_callback, InputCallbackCapture};
use soundlock::recorder::cells::{
    add_dropped_frames, decode_state, snapshot, status, Recorder, RecorderAccess, RecorderCells,
    RecordingState, STATE_ERROR, STATE_IDLE, STATE_RECORDING, STATE_SAVED, STATE_SAVING,
    STATE_STARTING,
};
use soundlock::recorder::path::{next_recording_name, recordings_folder_name, NameSearch};
use soundlock::recorder::requests::{request_start, request_stop, StartRefusal, StartRequest};
use soundlock::recorder::session::{
    opening_accesses, recorder_ring, ring_capacity, start_session, RecorderSession, TeardownStep,
};
use soundlock::recorder::wav::{FloatWavFile, WavError};
use soundlock::recorder::writer::{Fault, Writer, WriterStep};
use soundlock::ring::{FrameBits, FrameSource};
use soundlock::single::Single;

struct Host;

fn n(value: f32) -> Single {
    Single::from_bits(value.to_bits())
}

fn f(value: Single) -> f32 {
    f32::from_bits(value.to_bits())
}

impl Arithmetic for Host {
    fn sum(a: Single, b: Single) -> Single {
        n(f(a) + f(b))
    }

    fn difference(a: Single, b: Single) -> Single {
        n(f(a) - f(b))
    }

    fn product(a: Single, b: Single) -> Single {
        n(f(a) * f(b))
    }

    fn quotient(a: Single, b: Single) -> Single {
        n(f(a) / f(b))
    }

    fn square_root(a: Single) -> Single {
        n(f(a).sqrt())
    }

    fn exponential(a: Single) -> Single {
        n(f(a).exp())
    }

    fn power_of_ten(a: Single) -> Single {
        n(10.0f32.powf(f(a)))
    }

    fn logarithm(a: Single) -> Single {
        n(f(a).log10())
    }

    fn from_integer(value: u64) -> Single {
        n(value as f32)
    }

    fn rounded(a: Single) -> u64 {
        f(a).round() as u64
    }

    fn truncated(a: Single) -> u64 {
        f(a) as u64
    }

    fn rounded_signed(a: Single) -> i32 {
        f(a).round() as i32
    }
}

/// Files that live in memory, and can be told to fail.
#[derive(Default)]
struct Files {
    open: Option<Vec<FrameBits>>,
    saved: Vec<Vec<FrameBits>>,
    removed: usize,
    faults: Vec<Fault>,
    parks: Vec<u64>,
    fail_create: bool,
    fail_write: bool,
    fail_finalize: bool,
}

/// Makes steps until the writer sleeps or has ended; gives back whether it has ended.
fn run_round(
    writer: &mut Writer,
    recorder: &mut Recorder,
    source: &mut FrameSource,
    files: &mut Files,
    shutdown: bool,
) -> bool {
    loop {
        if writer.step_ring(source) {
            continue;
        }
        match writer.next_step() {
            None => return true,
            Some(WriterStep::LoadShutdown) => writer.resume(shutdown as u64),
            Some(WriterStep::Access(access)) => {
                let answer = recorder.perform(access);
                writer.resume(answer);
            }
            Some(WriterStep::CreateFile) => {
                if files.fail_create {
                    writer.resume(0);
                } else {
                    files.open = Some(Vec::new());
                    writer.resume(1);
                }
            }
            Some(WriterStep::NotePath) => {
                recorder.set_last_path(Some("file.wav".to_owned()));
                writer.resume(0);
            }
            Some(WriterStep::Write(frame)) => {
                if files.fail_write {
                    writer.resume(0);
                } else {
                    files.open.as_mut().unwrap().push(frame);
                    writer.resume(1);
                }
            }
            Some(WriterStep::Finalize) => {
                if files.fail_finalize {
                    writer.resume(0);
                } else {
                    let frames = files.open.take().unwrap();
                    files.saved.push(frames);
                    writer.resume(1);
                }
            }
            Some(WriterStep::RemoveFile) => {
                files.removed += 1;
                files.open = None;
                writer.resume(0);
            }
            Some(WriterStep::NoteFault(fault)) => {
                files.faults.push(fault);
                recorder.last_error = Some(fault.message("disk"));
                writer.resume(0);
            }
            Some(WriterStep::Park(milliseconds)) => {
                files.parks.push(milliseconds);
                writer.resume(0);
                return false;
            }
            Some(WriterStep::Pop) | Some(WriterStep::LookIntoRing) => unreachable!(),
        }
    }
}

fn bits(left: f32, right: f32) -> FrameBits {
    (left.to_bits(), right.to_bits())
}

#[test]
fn float_wav_header_and_stereo_payload_are_valid() {
    let (mut wav, mut bytes) = FloatWavFile::create(48_000);
    bytes.extend(wav.write_frame(n(0.25), n(-0.5)));
    let (riff, data) = wav.finalize().expect("finalize test WAV");
    for patch in [riff, data] {
        let at = patch.at as usize;
        bytes[at..at + patch.bytes.len()].copy_from_slice(&patch.bytes);
    }

    assert_eq!(&bytes[0..4], b"RIFF");
    assert_eq!(u32::from_le_bytes(bytes[4..8].try_into().unwrap()), 44);
    assert_eq!(&bytes[8..12], b"WAVE");
    assert_eq!(u16::from_le_bytes(bytes[20..22].try_into().unwrap()), 3);
    assert_eq!(u16::from_le_bytes(bytes[22..24].try_into().unwrap()), 2);
    assert_eq!(
        u32::from_le_bytes(bytes[24..28].try_into().unwrap()),
        48_000
    );
    assert_eq!(u16::from_le_bytes(bytes[34..36].try_into().unwrap()), 32);
    assert_eq!(&bytes[36..40], b"data");
    assert_eq!(u32::from_le_bytes(bytes[40..44].try_into().unwrap()), 8);
    assert_eq!(f32::from_le_bytes(bytes[44..48].try_into().unwrap()), 0.25);
    assert_eq!(f32::from_le_bytes(bytes[48..52].try_into().unwrap()), -0.5);
    assert_eq!(&bytes[12..16], b"fmt ");
    assert_eq!(u32::from_le_bytes(bytes[16..20].try_into().unwrap()), 16);
    assert_eq!(
        u32::from_le_bytes(bytes[28..32].try_into().unwrap()),
        384_000
    );
    assert_eq!(u16::from_le_bytes(bytes[32..34].try_into().unwrap()), 8);
    assert_eq!(bytes.len(), 52);
}

#[test]
fn wav_samples_that_are_not_finite_are_written_as_zero() {
    let (mut wav, header) = FloatWavFile::create(u32::MAX);
    assert_eq!(header.len(), 44);
    assert_eq!(
        u32::from_le_bytes(header[28..32].try_into().unwrap()),
        u32::MAX
    );
    let frame = wav.write_frame(n(f32::NAN), n(f32::NEG_INFINITY));
    assert_eq!(frame, vec![0u8; 8]);
    assert_eq!(wav.data_bytes, 8);
}

#[test]
fn wav_files_beyond_the_length_fields_are_refused() {
    let limit = (u32::MAX - 36) as u64;
    let fits = FloatWavFile { data_bytes: limit }.finalize().ok().unwrap();
    assert_eq!(fits.0.bytes, u32::MAX.to_le_bytes());
    let riff = FloatWavFile { data_bytes: limit + 1 }.finalize().err();
    assert_eq!(riff, Some(WavError::RiffTooLong));
    assert_eq!(riff.unwrap().message(), "WAV RIFF 长度溢出");
    let data = FloatWavFile { data_bytes: 1 << 32 }.finalize().err();
    assert_eq!(data, Some(WavError::DataTooLong));
    assert_eq!(data.unwrap().message(), "WAV 文件超过 RIFF 4GB 限制");
    let mut full = FloatWavFile { data_bytes: u64::MAX - 3 };
    full.write_frame(n(0.0), n(0.0));
    assert_eq!(full.data_bytes, u64::MAX);
}

#[test]
fn recording_goes_from_request_to_saved_file() {
    let mut recorder = Recorder::new();
    let (mut realtime, mut source, session) = start_session(&mut recorder, 4);
    let mut writer = Writer::new(4);
    let mut files = Files::default();

    assert_eq!(
        request_start(&mut recorder),
        Err("请先启动限制，等待状态显示为运行中后再录制")
    );
    session.mark_available(&mut recorder);
    assert_eq!(request_start(&mut recorder), Ok(()));
    assert_eq!(status(&recorder.cells).state, RecordingState::Starting);
    assert!(!run_round(&mut writer, &mut recorder, &mut source, &mut files, false));
    assert_eq!(status(&recorder.cells).state, RecordingState::Recording);
    assert_eq!(recorder.last_path.as_deref(), Some("file.wav"));
    assert_eq!(files.parks, vec![2]);

    let mut capture = begin_input_callback(&mut recorder.cells);
    assert!(capture.is_recording());
    assert_eq!(recorder.cells.active_input_callbacks, 1);
    assert!(realtime.try_push(n(0.5), n(-0.5)));
    assert!(realtime.try_push(n(0.25), n(1.0)));
    request_stop(&mut recorder.cells);
    assert_eq!(status(&recorder.cells).state, RecordingState::Saving);

    // The callback is still at work, so that the file stays open.
    assert!(!run_round(&mut writer, &mut recorder, &mut source, &mut files, false));
    assert!(files.saved.is_empty());
    assert!(realtime.try_push(n(0.125), n(0.0)));
    end_input_callback(&mut recorder.cells, &mut capture);
    assert_eq!(recorder.cells.active_input_callbacks, 0);

    assert!(!run_round(&mut writer, &mut recorder, &mut source, &mut files, false));
    assert_eq!(
        files.saved,
        vec![vec![bits(0.5, -0.5), bits(0.25, 1.0), bits(0.125, 0.0)]]
    );
    assert_eq!(status(&recorder.cells).state, RecordingState::Saved);
    let shown = snapshot::<Host>(&recorder);
    assert_eq!(f(shown.elapsed_seconds), 0.75);
    assert!(shown.session_available);
    assert!(!shown.requested);
    assert_eq!(shown.state, RecordingState::Saved);
    assert_eq!(shown.last_path.as_deref(), Some("file.wav"));
    assert!(shown.last_error.is_none());

    // With nothing to do the writer sleeps longer, and it ends with the session.
    assert!(!run_round(&mut writer, &mut recorder, &mut source, &mut files, false));
    assert_eq!(files.parks.last(), Some(&1000));
    assert!(run_round(&mut writer, &mut recorder, &mut source, &mut files, true));
}

#[test]
fn recording_stops_at_the_limit() {
    let mut recorder = Recorder::new();
    let (mut realtime, mut source, session) = start_session(&mut recorder, 1);
    let mut writer = Writer::new(1);
    let mut files = Files::default();
    assert_eq!(writer.maximum_frames, 120);
    session.mark_available(&mut recorder);
    request_start(&mut recorder).unwrap();
    for index in 0..119 {
        assert!(realtime.try_push(n(index as f32), n(0.0)));
        assert!(!run_round(&mut writer, &mut recorder, &mut source, &mut files, false));
        assert!(recorder.cells.recording_requested);
    }
    assert!(realtime.try_push(n(119.0), n(0.0)));
    assert!(realtime.try_push(n(120.0), n(0.0)));
    assert!(!run_round(&mut writer, &mut recorder, &mut source, &mut files, false));
    assert_eq!(files.saved.len(), 1);
    assert_eq!(files.saved[0].len(), 120);
    assert_eq!(files.saved[0][119], bits(119.0, 0.0));
    assert!(!recorder.cells.recording_requested);
    assert_eq!(recorder.cells.written_frames, 120);
}

#[test]
fn full_ring_refuses_frames() {
    let (mut realtime, mut source) = recorder_ring(2);
    assert_eq!(ring_capacity(2), 4);
    for _ in 0..4 {
        assert!(realtime.try_push(n(1.0), n(2.0)));
    }
    assert!(!realtime.try_push(n(3.0), n(4.0)));
    let mut cells = RecorderCells::new();
    add_dropped_frames(&mut cells, 0);
    add_dropped_frames(&mut cells, 3);
    assert_eq!(cells.dropped_frames, 3);
    cells.dropped_frames = u64::MAX;
    add_dropped_frames(&mut cells, 2);
    assert_eq!(cells.dropped_frames, 1);

    // A writer with a file open takes the frames in their order, and makes room.
    let mut recorder = Recorder::new();
    recorder.cells.session_available = true;
    request_start(&mut recorder).unwrap();
    let mut writer = Writer::new(2);
    let mut files = Files::default();
    assert!(!run_round(&mut writer, &mut recorder, &mut source, &mut files, false));
    assert_eq!(files.open.as_ref().unwrap(), &vec![bits(1.0, 2.0); 4]);
    assert!(realtime.try_push(n(3.0), n(4.0)));
    assert_eq!(ring_capacity(0), 1);
}

#[test]
fn file_that_cannot_be_made_closes_the_recorder() {
    let mut recorder = Recorder::new();
    let (_realtime, mut source, session) = start_session(&mut recorder, 4);
    let mut writer = Writer::new(4);
    let mut files = Files {
        fail_create: true,
        ..Files::default()
    };
    session.mark_available(&mut recorder);
    request_start(&mut recorder).unwrap();
    assert!(!run_round(&mut writer, &mut recorder, &mut source, &mut files, false));
    assert_eq!(files.faults, vec![Fault::Create]);
    assert_eq!(
        recorder.last_error.as_deref(),
        Some("无法创建原始录音文件：disk。请停止并重新启动限制后重试")
    );
    assert_eq!(status(&recorder.cells).state, RecordingState::Error);
    assert!(!recorder.cells.session_available);
    assert!(!recorder.cells.recording_requested);
}

#[test]
fn frame_that_cannot_be_written_removes_the_file() {
    let mut recorder = Recorder::new();
    let (mut realtime, mut source, session) = start_session(&mut recorder, 4);
    let mut writer = Writer::new(4);
    let mut files = Files::default();
    session.mark_available(&mut recorder);
    request_start(&mut recorder).unwrap();
    assert!(!run_round(&mut writer, &mut recorder, &mut source, &mut files, false));
    realtime.try_push(n(1.0), n(1.0));
    files.fail_write = true;
    assert!(!run_round(&mut writer, &mut recorder, &mut source, &mut files, false));
    assert_eq!(files.faults, vec![Fault::Write]);
    assert_eq!(files.removed, 1);
    assert_eq!(
        recorder.last_error.as_deref(),
        Some("写入原始录音失败：disk。请停止并重新启动限制后重试")
    );
    assert_eq!(status(&recorder.cells).state, RecordingState::Error);
    assert!(!writer.file_open);
}

#[test]
fn file_that_cannot_be_completed_is_removed() {
    let mut recorder = Recorder::new();
    let (_realtime, mut source, session) = start_session(&mut recorder, 4);
    let mut writer = Writer::new(4);
    let mut files = Files {
        fail_finalize: true,
        ..Files::default()
    };
    session.mark_available(&mut recorder);
    request_start(&mut recorder).unwrap();
    assert!(!run_round(&mut writer, &mut recorder, &mut source, &mut files, false));
    request_stop(&mut recorder.cells);
    assert!(!run_round(&mut writer, &mut recorder, &mut source, &mut files, false));
    assert_eq!(files.faults, vec![Fault::Save]);
    assert_eq!(files.removed, 1);
    assert!(!recorder.cells.session_available);
    assert_eq!(
        recorder.last_error.as_deref(),
        Some("保存原始录音失败：disk。请停止并重新启动限制后重试")
    );
}

#[test]
fn stop_before_a_file_was_made_returns_to_idle() {
    let mut recorder = Recorder::new();
    let (_realtime, mut source, session) = start_session(&mut recorder, 4);
    let mut writer = Writer::new(4);
    let mut files = Files::default();
    session.mark_available(&mut recorder);
    request_start(&mut recorder).unwrap();
    request_stop(&mut recorder.cells);
    assert_eq!(recorder.cells.recorder_state, STATE_SAVING);
    assert!(!run_round(&mut writer, &mut recorder, &mut source, &mut files, false));
    assert_eq!(recorder.cells.recorder_state, STATE_IDLE);
    assert!(files.saved.is_empty());
}

#[test]
fn callback_that_sees_the_request_vanish_backs_out() {
    let mut cells = RecorderCells::new();
    cells.recording_requested = true;
    let mut capture = InputCallbackCapture::enter();
    let access = capture.next_access().unwrap();
    let answer = cells.perform(access);
    capture.resume(answer);
    // The request is taken back between the two looks.
    cells.recording_requested = false;
    while let Some(access) = capture.next_access() {
        let answer = cells.perform(access);
        capture.resume(answer);
    }
    assert!(!capture.is_recording());
    assert_eq!(cells.active_input_callbacks, 0);
}

#[test]
fn request_that_races_with_teardown_leaves_nothing_behind() {
    // The owner takes the session down after each possible number of the user's accesses.
    for user_steps in 0..12 {
        let mut recorder = Recorder::new();
        recorder.cells.session_available = true;
        let mut request = StartRequest::new();
        for _ in 0..user_steps {
            if let Some(access) = request.next_access() {
                let answer = recorder.perform(access);
                request.resume(answer);
            }
        }
        let mut owner = RecorderSession::new();
        while let Some(step) = owner.next_step() {
            let answer = match step {
                TeardownStep::Access(access) => recorder.perform(access),
                _ => 0,
            };
            owner.resume(answer);
        }
        while let Some(access) = request.next_access() {
            let answer = recorder.perform(access);
            request.resume(answer);
        }
        assert!(!recorder.cells.recording_requested);
        assert_eq!(recorder.cells.recorder_state, STATE_IDLE);
        if user_steps == 0 {
            assert_eq!(request.outcome(), Some(Err(StartRefusal::NoSession)));
        } else if user_steps < 8 {
            assert_eq!(request.outcome(), Some(Err(StartRefusal::Reconnecting)));
        } else {
            assert_eq!(request.outcome(), Some(Ok(())));
        }
    }
    assert_eq!(
        StartRefusal::Reconnecting.message(),
        "音频设备正在重连，请稍后再点一次录制"
    );
}

#[test]
fn crashed_writer_is_reported() {
    let mut recorder = Recorder::new();
    recorder.cells.recorder_state = STATE_RECORDING;
    let mut owner = RecorderSession::new();
    let mut faults = Vec::new();
    while let Some(step) = owner.next_step() {
        let answer = match step {
            TeardownStep::Access(access) => recorder.perform(access),
            TeardownStep::JoinWriter => 1,
            TeardownStep::NoteFault(fault) => {
                faults.push(fault);
                0
            }
            _ => 0,
        };
        owner.resume(answer);
    }
    assert_eq!(faults, vec![Fault::Crash]);
    assert_eq!(Fault::Crash.message("x"), "原始录音后台线程异常退出");
    assert_eq!(Fault::Spawn.message("x"), "无法启动原始录音线程：x");
    assert_eq!(recorder.cells.recorder_state, STATE_ERROR);
}

#[test]
fn session_start_resets_the_cells() {
    assert_eq!(
        opening_accesses(7),
        vec![
            RecorderAccess::StoreAvailable(false),
            RecorderAccess::StoreRequested(false),
            RecorderAccess::StoreState(STATE_IDLE),
            RecorderAccess::StoreRate(7),
            RecorderAccess::ResetCallbacks,
            RecorderAccess::ClearError,
        ]
    );
    let mut recorder = Recorder::new();
    recorder.set_error("broken".to_owned());
    assert_eq!(recorder.cells.recorder_state, STATE_ERROR);
    recorder.clear_error();
    assert!(recorder.last_error.is_none());
    recorder.set_error("broken".to_owned());
    recorder.cells.active_input_callbacks = 3;
    recorder.cells.written_frames = 9;
    let _ = start_session(&mut recorder, 48_000);
    assert!(recorder.last_error.is_none());
    assert_eq!(recorder.cells.active_input_callbacks, 0);
    assert_eq!(recorder.cells.sample_rate, 48_000);
    assert_eq!(recorder.cells.recorder_state, STATE_IDLE);
    assert_eq!(recorder.cells.written_frames, 9);
}

#[test]
fn second_request_changes_nothing() {
    let mut recorder = Recorder::new();
    recorder.cells.session_available = true;
    assert_eq!(request_start(&mut recorder), Ok(()));
    recorder.cells.written_frames = 5;
    assert_eq!(request_start(&mut recorder), Ok(()));
    assert_eq!(recorder.cells.written_frames, 5);
    assert_eq!(recorder.cells.recorder_state, STATE_STARTING);
    recorder.cells.recorder_state = STATE_SAVED;
    request_stop(&mut recorder.cells);
    assert_eq!(recorder.cells.recorder_state, STATE_SAVED);
}

#[test]
fn states_are_decoded() {
    assert_eq!(decode_state(STATE_IDLE), RecordingState::Idle);
    assert_eq!(decode_state(STATE_STARTING), RecordingState::Starting);
    assert_eq!(decode_state(STATE_RECORDING), RecordingState::Recording);
    assert_eq!(decode_state(STATE_SAVING), RecordingState::Saving);
    assert_eq!(decode_state(STATE_SAVED), RecordingState::Saved);
    assert_eq!(decode_state(STATE_ERROR), RecordingState::Error);
    assert_eq!(decode_state(77), RecordingState::Idle);
    let recorder = Recorder::new();
    assert_eq!(f(snapshot::<Host>(&recorder).elapsed_seconds), 0.0);
}

#[test]
fn recordings_are_numbered() {
    assert_eq!(recordings_folder_name(), "SoundLock原始录音");
    let mut in_use = vec![false; 9999];
    assert_eq!(next_recording_name(&in_use, 5), "SoundLock原始录音_0001.wav");
    in_use[0] = true;
    in_use[1] = true;
    assert_eq!(next_recording_name(&in_use, 5), "SoundLock原始录音_0003.wav");
    let all = vec![true; 9999];
    assert_eq!(
        next_recording_name(&all, 1700000000),
        "SoundLock原始录音_1700000000.wav"
    );
    let mut search = NameSearch::new();
    assert!(!search.decide(true));
    assert_eq!(search.candidate(0), "SoundLock原始录音_0002.wav");
    assert!(search.decide(false));
    let mut last = NameSearch { number: 10_000 };
    assert!(last.decide(true));
}
