use soundlock::arithmetic::Arithmetic;
use soundlock::config::LimiterParams;
use soundlock::devices::{
    check_channels, find_device_index, find_devices, selected_devices, SessionFault,
};
use soundlock::geometry::RingGeometry;
use soundlock::input::Capture;
use soundlock::limiter::LoudnessLimiter;
use soundlock::playback::{
    fill_part, merge_slot, plain_slot, stretch_slot, Correction, Playback, SlotState,
};
use soundlock::recorder::cells::RecorderCells;
use soundlock::recorder::session::recorder_ring;
use soundlock::ring::ring_fits;
use soundlock::runtime_params::RuntimeLimiterParams;
use soundlock::session::{Session, SessionStep};
use soundlock::single::Single;
use soundlock::supervisor::{
    control_session, interruptible_sleep, is_requested_to_run, wait_for_shutdown, Launch,
    LaunchStep, LifecycleCells, NapStep, SessionControl, SessionExit, ShutdownStep, Supervisor,
    SupervisorStep,
};

struct Host;

fn n(value: f32) -> Single {
    Single::from_bits(value.to_bits())
}

fn f(value: Single) -> f32 {
    f32::from_bits(value.to_bits())
}

impl Arithmetic for Host {
    fn sum(a: Single, b: Single) -> Single {
        n(f(a) + f(b))
    }

    fn difference(a: Single, b: Single) -> Single {
        n(f(a) - f(b))
    }

    fn product(a: Single, b: Single) -> Single {
        n(f(a) * f(b))
    }

    fn quotient(a: Single, b: Single) -> Single {
        n(f(a) / f(b))
    }

    fn square_root(a: Single) -> Single {
        n(f(a).sqrt())
    }

    fn exponential(a: Single) -> Single {
        n(f(a).exp())
    }

    fn power_of_ten(a: Single) -> Single {
        n(10.0f32.powf(f(a)))
    }

    fn logarithm(a: Single) -> Single {
        n(f(a).log10())
    }

    fn from_integer(value: u64) -> Single {
        n(value as f32)
    }

    fn rounded(a: Single) -> u64 {
        f(a).round() as u64
    }

    fn truncated(a: Single) -> u64 {
        f(a) as u64
    }

    fn rounded_signed(a: Single) -> i32 {
        f(a).round() as i32
    }
}

fn quiet_limiter() -> (RuntimeLimiterParams, LoudnessLimiter) {
    let params = LimiterParams {
        threshold_db: n(0.0),
        attack_ms: 10,
        release_ms: 50,
        pre_gain_db: n(0.0),
        peak_release_ms: 50,
    };
    let runtime = RuntimeLimiterParams::from_params(params);
    let mut limiter = LoudnessLimiter::new::<Host>(&runtime);
    // 8000 frames a second: the lookahead is 40 frames.
    limiter.set_sample_rate::<Host>(n(8_000.0));
    (runtime, limiter)
}

fn samples(frames: usize, value: f32) -> Vec<Single> {
    vec![n(value); 2 * frames]
}

fn played(playback: &mut Playback, source: &mut soundlock::ring::FrameSource, count: usize) -> Vec<f32> {
    let mut out = vec![n(9.0); count];
    playback.fill::<Host>(source, &mut out);
    out.into_iter().map(f).collect()
}

#[test]
fn ring_is_sized_for_150_milliseconds() {
    let geometry = RingGeometry::for_rate::<Host>(n(48_000.0)).unwrap();
    assert_eq!(geometry.target, 7_200);
    assert_eq!(geometry.capacity, 14_400);
    assert_eq!(geometry.low_watermark, 5_760);
    assert_eq!(geometry.high_watermark, 8_640);
    assert_eq!(geometry.interval, 12_000);
    assert_eq!(geometry.fade_frames, 480);
    // A ring that no machine can hold.
    assert!(RingGeometry::for_rate::<Host>(n(f32::INFINITY)).is_none());
    assert!(ring_fits(1));
    assert!(!ring_fits(0));
    assert!(!ring_fits(usize::MAX));
}

#[test]
fn tiny_rings_keep_their_order() {
    let geometry = RingGeometry::from_frames(1, 1, 1, 1);
    assert_eq!(geometry.capacity, 2);
    assert_eq!(geometry.low_watermark, 2);
    assert_eq!(geometry.high_watermark, 3);
    let geometry = RingGeometry::from_frames(10, 20, 1, 1);
    assert_eq!(geometry.low_watermark, 2);
    assert_eq!(geometry.high_watermark, 18);
}

#[test]
fn prefilled_ring_plays_silence_first_and_then_what_came_in() {
    let geometry = RingGeometry::from_frames(4, 1, 1_000, 1);
    let (sink, mut source) = geometry.open_ring();
    let (_, limiter) = quiet_limiter();
    let mut capture = Capture::new(limiter, sink, None, 1);
    let mut playback = geometry.playback();

    assert_eq!(played(&mut playback, &mut source, 8), vec![0.0; 8]);
    // The first 40 frames leave the limiter as silence; the ring holds eight.
    assert_eq!(capture.process::<Host>(&samples(40, 0.25), false), 0);
    let mut ring = Vec::new();
    for _ in 0..4 {
        ring.extend(played(&mut playback, &mut source, 4));
    }
    assert!(ring.iter().all(|x| *x == 0.0));
    assert_eq!(capture.process::<Host>(&samples(4, 0.5), false), 0);
    playback.since = 0;
    assert_eq!(played(&mut playback, &mut source, 8), vec![0.25; 8]);
}

#[test]
fn input_is_faded_in() {
    let geometry = RingGeometry::from_frames(8, 1, 1_000, 4);
    let (sink, mut source) = geometry.open_ring();
    let (_, limiter) = quiet_limiter();
    let mut capture = Capture::new(limiter, sink, None, 4);
    let mut playback = geometry.playback();
    // Push silence through the lookahead without the ring: it is full after eight frames.
    capture.process::<Host>(&samples(40, 0.5), false);
    assert_eq!(capture.fade_index, 4);
    // Begin anew to see the fade on real samples.
    capture.fade_index = 0;
    playback.since = 0;
    let _ = played(&mut playback, &mut source, 32);
    capture.process::<Host>(&samples(6, 0.5), false);
    playback.since = 0;
    let heard = played(&mut playback, &mut source, 12);
    assert_eq!(
        heard,
        vec![0.125, 0.125, 0.25, 0.25, 0.375, 0.375, 0.5, 0.5, 0.5, 0.5, 0.5, 0.5]
    );
    assert_eq!(capture.fade_index, 4);
}

#[test]
fn odd_samples_are_left_out_and_silenced() {
    let geometry = RingGeometry::from_frames(4, 1, 1_000, 1);
    let (sink, mut source) = geometry.open_ring();
    let (_, limiter) = quiet_limiter();
    let mut capture = Capture::new(limiter, sink, None, 1);
    let lone = vec![n(0.75)];
    assert_eq!(capture.process::<Host>(&lone, false), 0);
    assert_eq!(capture.fade_index, 0);
    let mut playback = geometry.playback();
    playback.last = (1.0f32.to_bits(), 2.0f32.to_bits());
    assert_eq!(played(&mut playback, &mut source, 3), vec![0.0, 0.0, 0.0]);
    assert_eq!(played(&mut playback, &mut source, 1), vec![0.0]);
}

#[test]
fn recorder_gets_the_untouched_input() {
    let geometry = RingGeometry::from_frames(4, 1, 1_000, 1);
    let (sink, _source) = geometry.open_ring();
    let (runtime, limiter) = quiet_limiter();
    // Room for four frames.
    let (realtime, _frames) = recorder_ring(2);
    let mut capture = Capture::new(limiter, sink, Some(realtime), 1);
    let mut cells = RecorderCells::new();
    cells.recording_requested = true;
    capture.callback::<Host>(&runtime, &mut cells, &samples(6, 0.5));
    assert_eq!(cells.dropped_frames, 2);
    assert_eq!(cells.active_input_callbacks, 0);
    cells.recording_requested = false;
    capture.callback::<Host>(&runtime, &mut cells, &samples(6, 0.5));
    assert_eq!(cells.dropped_frames, 2);
    assert_eq!(capture.limiter.last_parameter_version, 0);
}

#[test]
fn dry_ring_repeats_the_last_frame() {
    let geometry = RingGeometry::from_frames(4, 1, 1_000_000, 1);
    let (_sink, mut source) = geometry.open_ring();
    let mut playback = geometry.playback();
    playback.since = 0;
    let _ = played(&mut playback, &mut source, 8);
    playback.last = (0.5f32.to_bits(), (-0.5f32).to_bits());
    assert_eq!(
        played(&mut playback, &mut source, 4),
        vec![0.5, -0.5, 0.5, -0.5]
    );
}

#[test]
fn low_ring_stretches_one_frame() {
    // The level of four is below a watermark of five.
    let (sink, mut source) = RingGeometry::from_frames(4, 1, 1, 1).open_ring();
    drop(sink);
    let mut playback = Playback::new(5, 6, 10);
    playback.last = (1.0f32.to_bits(), 2.0f32.to_bits());
    assert_eq!(playback.choose_correction(4), Correction::Stretch);
    let heard = played(&mut playback, &mut source, 6);
    // Halfway, the pending frame, and the next.
    assert_eq!(heard, vec![0.5, 1.0, 0.0, 0.0, 0.0, 0.0]);
    assert_eq!(playback.since, 0);
    assert_eq!(playback.choose_correction(0), Correction::Pass);
}

#[test]
fn full_ring_merges_two_frames() {
    let (sink, mut source) = RingGeometry::from_frames(4, 1, 1, 1).open_ring();
    drop(sink);
    let mut playback = Playback::new(1, 2, 10);
    assert_eq!(playback.choose_correction(4), Correction::Merge);
    let heard = played(&mut playback, &mut source, 6);
    assert_eq!(heard, vec![0.0; 6]);
    assert_eq!(playback.since, 0);
    // Four frames were taken for three slots: the ring is empty.
    playback.last = (7.0f32.to_bits(), 7.0f32.to_bits());
    assert_eq!(played(&mut playback, &mut source, 2), vec![7.0, 7.0]);
}

#[test]
fn corrections_keep_their_distance_in_frames() {
    let geometry = RingGeometry::for_rate::<Host>(n(48_000.0)).unwrap();
    // A callback of one frame that merges is followed by one of 12000 frames, which does not,
    // as only one frame has been given out since.
    let mut playback = geometry.playback();
    assert_eq!(playback.choose_correction(9_000), Correction::Merge);
    let mut slot = SlotState {
        last: playback.last,
        pending: None,
        corrected: false,
    };
    merge_slot::<Host>(&mut slot, Some((0, 0)), Some((0, 0)));
    playback.finish(1, slot);
    assert_eq!(playback.choose_correction(9_000), Correction::Pass);
    let calm = SlotState {
        corrected: false,
        ..slot
    };
    playback.finish(11_999, calm);
    assert_eq!(playback.choose_correction(9_000), Correction::Pass);
    playback.finish(1, calm);
    assert_eq!(playback.choose_correction(9_000), Correction::Merge);
    assert_eq!(playback.choose_correction(7_200), Correction::Pass);
    assert_eq!(playback.choose_correction(5_000), Correction::Stretch);
}

#[test]
fn level_settles_how_many_frames_are_taken() {
    let level_after = |low: usize, high: usize| {
        let (_sink, mut source) = RingGeometry::from_frames(10, 1, 1, 1).open_ring();
        let mut playback = Playback::new(low, high, 100);
        played(&mut playback, &mut source, 8);
        // What is left: frames are taken until there are none.
        let mut left = 0;
        while source.pop().is_some() {
            left += 1;
        }
        left
    };
    // Four frames are given out of ten.
    assert_eq!(level_after(5, 15), 6);
    assert_eq!(level_after(11, 15), 7);
    assert_eq!(level_after(5, 9), 5);
}

#[test]
fn frames_come_out_as_they_went_in() {
    let (mut sink, mut source) = RingGeometry::from_frames(2, 1, 1, 1).open_ring();
    assert!(sink.push((1, 2)));
    assert!(sink.push((3, 4)));
    assert!(!sink.push((5, 6)));
    assert_eq!(source.pop(), Some((0, 0)));
    assert!(sink.push((7, 8)));
    assert_eq!(source.pop(), Some((0, 0)));
    assert_eq!(source.pop(), Some((1, 2)));
    assert_eq!(source.pop(), Some((3, 4)));
    assert_eq!(source.pop(), Some((7, 8)));
    assert_eq!(source.pop(), None);
}

#[test]
fn nothing_is_dropped_while_there_is_room() {
    let (_, limiter) = quiet_limiter();
    let (sink, _source) = RingGeometry::from_frames(4, 1, 1, 1).open_ring();
    // One frame a second: the recorder's ring has two places.
    let (realtime, _recorded) = recorder_ring(1);
    let mut capture = Capture::new(limiter, sink, Some(realtime), 0);
    assert_eq!(capture.process::<Host>(&samples(2, 0.1), true), 0);
    assert_eq!(capture.process::<Host>(&samples(3, 0.1), true), 3);
    assert_eq!(capture.process::<Host>(&samples(3, 0.1), false), 0);
}

#[test]
fn recorder_ring_carries_frames() {
    let (mut realtime, mut source) = recorder_ring(48_000);
    assert!(realtime.try_push(n(0.25), n(-0.5)));
    assert_eq!(source.pop(), Some((0.25f32.to_bits(), (-0.5f32).to_bits())));
}

#[test]
fn stretches_are_filled_like_one_callback() {
    let filled = |split: usize| {
        let (mut sink, mut source) = RingGeometry::from_frames(8, 1, 1, 1).open_ring();
        for i in 1..=6u32 {
            sink.push(((i as f32).to_bits(), (-(i as f32)).to_bits()));
        }
        let mut playback = Playback::new(1, 2, 10);
        let (mut slot, correction) = playback.begin(&mut source);
        let mut out = vec![n(9.0); 25];
        let (front, back) = out.split_at_mut(split);
        fill_part::<Host>(&mut slot, correction, &mut source, front);
        fill_part::<Host>(&mut slot, correction, &mut source, back);
        playback.finish(12, slot);
        (out, playback)
    };
    let (whole, playback) = filled(0);
    assert_eq!(playback.since, 0);
    assert_eq!(f(whole[14]), 1.0);
    assert_eq!(f(whole[24]), 0.0);
    assert_eq!(filled(6), (whole.clone(), playback));
    assert_eq!(filled(24), (whole, playback));
}

#[test]
fn session_without_input_is_tried_again() {
    let mut session = Session::new();
    assert_eq!(session.next_step(), Some(SessionStep::Ask));
    session.ask(true);
    assert_eq!(session.select(&None, &Some("b".to_owned())), None);
    assert_eq!(session.next_step(), None);
    assert_eq!(session.exit(), Some(SessionExit::Retry(0)));
    assert_eq!(
        session.fault.unwrap().message(""),
        "no input device selected"
    );
    let mut session = Session::new();
    session.ask(true);
    session.select(&Some("a".to_owned()), &None);
    assert_eq!(session.exit(), Some(SessionExit::Retry(0)));
    assert_eq!(session.fault, Some(SessionFault::NoOutputSelected));
    let mut session = Session::new();
    session.ask(false);
    assert_eq!(session.exit(), Some(SessionExit::StopRequested));
}

fn listed_session() -> Session {
    let mut session = Session::new();
    session.ask(true);
    assert_eq!(
        session.select(&Some("a".to_owned()), &Some("b".to_owned())),
        Some(("a".to_owned(), "b".to_owned()))
    );
    session.advance();
    session.advance();
    session
}

#[test]
fn session_without_two_channels_starts_nothing() {
    let inputs = vec!["x".to_owned(), "a".to_owned()];
    let outputs = vec!["b".to_owned()];
    let mut session = listed_session();
    assert_eq!(session.find("a", "b", &inputs, &outputs), Some((1, 0)));
    assert_eq!(session.next_step(), Some(SessionStep::ReadFormat));
    session.read_format(6);
    assert_eq!(session.next_step(), None);
    assert_eq!(session.exit(), Some(SessionExit::Retry(0)));
    assert_eq!(
        session.fault.unwrap().message(""),
        "PUBG limiter requires stereo input, current device has 6 channel(s)"
    );
    let mut session = listed_session();
    assert_eq!(session.find("a", "b", &outputs, &outputs), None);
    assert_eq!(session.fault, Some(SessionFault::InputMissing));
    let mut session = listed_session();
    assert_eq!(session.find("a", "b", &inputs, &inputs), None);
    assert_eq!(session.fault, Some(SessionFault::OutputMissing));
    assert_eq!(session.exit(), Some(SessionExit::Retry(0)));
}

#[test]
fn session_goes_its_way() {
    let inputs = vec!["a".to_owned()];
    let outputs = vec!["b".to_owned()];
    let mut session = listed_session();
    session.find("a", "b", &inputs, &outputs);
    session.read_format(2);
    for step in [
        SessionStep::Prepare,
        SessionStep::BuildInput,
        SessionStep::BuildOutput,
        SessionStep::StartInput,
        SessionStep::StartOutput,
        SessionStep::MarkAvailable,
    ] {
        assert_eq!(session.next_step(), Some(step));
        session.advance();
    }
    assert_eq!(session.next_step(), Some(SessionStep::Control));
    session.control(true, false, 5);
    assert_eq!(session.next_step(), Some(SessionStep::Sleep));
    session.advance();
    let mut stopped = session;
    stopped.control(false, true, 60);
    assert_eq!(stopped.exit(), Some(SessionExit::StopRequested));
    session.control(true, true, 60);
    assert_eq!(session.exit(), Some(SessionExit::Retry(60)));
    assert_eq!(session.fault, Some(SessionFault::StreamError));
}

#[test]
fn steps_that_do_not_work_have_their_fault() {
    let faults = [
        SessionFault::ListInputs,
        SessionFault::ListOutputs,
        SessionFault::InputConfig,
        SessionFault::BuildInput,
        SessionFault::BuildOutput,
        SessionFault::StartInput,
        SessionFault::StartOutput,
    ];
    let mut seen = Vec::new();
    let ids = vec!["a".to_owned(), "b".to_owned()];
    let mut session = Session::new();
    while let Some(step) = session.next_step() {
        match step {
            SessionStep::Ask => session.ask(true),
            SessionStep::Select => {
                session.select(&Some("a".to_owned()), &Some("b".to_owned()));
            }
            SessionStep::Find => {
                session.find("a", "b", &ids, &ids);
            }
            SessionStep::Prepare | SessionStep::MarkAvailable => session.advance(),
            SessionStep::Control => session.control(false, false, 0),
            _ => {
                let mut broken = session;
                broken.break_off();
                assert_eq!(broken.exit(), Some(SessionExit::Retry(0)));
                seen.push(broken.fault.unwrap());
                if step == SessionStep::ReadFormat {
                    session.read_format(2);
                } else {
                    session.advance();
                }
            }
        }
    }
    assert_eq!(seen, faults);
}

#[test]
fn faults_say_how_long_a_session_ran() {
    assert_eq!(SessionFault::StartOutput.exit(7), SessionExit::Retry(0));
    assert_eq!(SessionFault::StreamError.exit(7), SessionExit::Retry(7));
}

#[test]
fn slots_give_what_they_are_asked_for() {
    let bits = |l: f32, r: f32| (l.to_bits(), r.to_bits());
    let start = SlotState {
        last: bits(1.0, 0.0),
        pending: None,
        corrected: false,
    };
    let mut slot = start;
    assert_eq!(plain_slot(&mut slot, Some(bits(2.0, 3.0))), bits(2.0, 3.0));
    assert_eq!(plain_slot(&mut slot, None), bits(2.0, 3.0));

    let mut slot = start;
    assert_eq!(
        stretch_slot::<Host>(&mut slot, Some(bits(3.0, 1.0))),
        bits(2.0, 0.5)
    );
    assert_eq!(slot.pending, Some(bits(3.0, 1.0)));
    assert!(slot.corrected);
    let mut slot = start;
    assert_eq!(stretch_slot::<Host>(&mut slot, None), bits(1.0, 0.0));
    assert!(!slot.corrected);

    let mut slot = start;
    assert_eq!(
        merge_slot::<Host>(&mut slot, Some(bits(2.0, 4.0)), Some(bits(4.0, 8.0))),
        bits(3.0, 6.0)
    );
    assert!(slot.corrected);
    let mut slot = start;
    assert_eq!(
        merge_slot::<Host>(&mut slot, Some(bits(2.0, 4.0)), None),
        bits(2.0, 4.0)
    );
    assert!(!slot.corrected);
}

#[test]
fn devices_are_found_by_identity() {
    let ids = vec!["a".to_owned(), "b".to_owned(), "b".to_owned()];
    assert_eq!(find_device_index(&ids, "b"), Some(1));
    assert_eq!(find_device_index(&ids, "c"), None);
    assert_eq!(find_devices("b", "a", &ids, &ids), Ok((1, 0)));
    assert_eq!(
        find_devices("c", "c", &ids, &ids),
        Err(SessionFault::InputMissing)
    );
    assert_eq!(
        find_devices("a", "c", &ids, &ids),
        Err(SessionFault::OutputMissing)
    );
    let some = Some("x".to_owned());
    assert_eq!(
        selected_devices(&None, &some),
        Err(SessionFault::NoInputSelected)
    );
    assert_eq!(
        selected_devices(&some, &None),
        Err(SessionFault::NoOutputSelected)
    );
    assert_eq!(
        selected_devices(&some, &some),
        Ok(("x".to_owned(), "x".to_owned()))
    );
    assert_eq!(check_channels(2), Ok(()));
    assert_eq!(check_channels(6), Err(SessionFault::Channels(6)));
}

#[test]
fn session_faults_are_put_in_words() {
    let pairs = [
        (SessionFault::NoInputSelected, "no input device selected"),
        (SessionFault::NoOutputSelected, "no output device selected"),
        (
            SessionFault::ListInputs,
            "failed to enumerate input devices: why",
        ),
        (
            SessionFault::ListOutputs,
            "failed to enumerate output devices: why",
        ),
        (SessionFault::InputMissing, "selected input device not found"),
        (
            SessionFault::OutputMissing,
            "selected output device not found",
        ),
        (SessionFault::InputConfig, "failed to get input config: why"),
        (
            SessionFault::Channels(6),
            "PUBG limiter requires stereo input, current device has 6 channel(s)",
        ),
        (SessionFault::BuildInput, "failed to build input stream: why"),
        (
            SessionFault::BuildOutput,
            "failed to build output stream: why",
        ),
        (SessionFault::StartInput, "failed to start input stream: why"),
        (
            SessionFault::StartOutput,
            "failed to start output stream: why",
        ),
        (
            SessionFault::StreamError,
            "CPAL reported a runtime stream error",
        ),
    ];
    for (fault, text) in pairs {
        assert_eq!(fault.message("why"), text);
    }
}

#[test]
fn supervisor_runs_only_while_wanted() {
    assert!(is_requested_to_run(false, 3, 3, true));
    assert!(!is_requested_to_run(true, 3, 3, true));
    assert!(!is_requested_to_run(false, 4, 3, true));
    assert!(!is_requested_to_run(false, 3, 3, false));
    assert_eq!(control_session(false, true), SessionControl::Stop);
    assert_eq!(control_session(true, true), SessionControl::Fail);
    assert_eq!(control_session(true, false), SessionControl::Wait);
}

#[test]
fn retries_wait_longer_and_longer() {
    let mut supervisor = Supervisor::new();
    supervisor.resume(true);
    let mut delays = Vec::new();
    for ran_for in [0, 0, 0, 0, 9_999, 10_000, 0] {
        supervisor.resume(true);
        assert_eq!(supervisor.next_step(), Some(SupervisorStep::RunSession));
        supervisor.end_session(SessionExit::Retry(ran_for));
        supervisor.resume(true);
        match supervisor.next_step() {
            Some(SupervisorStep::Sleep(delay)) => delays.push(delay),
            other => panic!("{other:?}"),
        }
        supervisor.resume(true);
    }
    assert_eq!(delays, vec![250, 500, 1000, 2000, 2000, 250, 500]);
    supervisor.resume(false);
    assert_eq!(supervisor.next_step(), None);

    let mut stopped = Supervisor::new();
    stopped.resume(true);
    stopped.resume(true);
    stopped.end_session(SessionExit::StopRequested);
    assert_eq!(stopped.next_step(), None);
}

#[test]
fn waits_are_cut_into_pieces() {
    assert_eq!(interruptible_sleep(250_000_000, 0), NapStep::Doze(50_000_000));
    assert_eq!(
        interruptible_sleep(250_000_000, 220_000_000),
        NapStep::Doze(30_000_000)
    );
    assert_eq!(interruptible_sleep(250_000_000, 250_000_000), NapStep::Rise);
    assert_eq!(wait_for_shutdown(0, 9, 5), ShutdownStep::Quiet);
    assert_eq!(wait_for_shutdown(1, 5, 5), ShutdownStep::TimedOut);
    assert_eq!(wait_for_shutdown(1, 4, 5), ShutdownStep::Sleep(10_000_000));
}

fn advance(launch: &mut Launch, cells: &mut LifecycleCells, spawned: bool) -> Option<LaunchStep> {
    let step = launch.next_step()?;
    let answer = match step {
        LaunchStep::Access(access) => cells.perform(access),
        LaunchStep::Spawn => spawned as u64,
        LaunchStep::Supervise => 0,
    };
    launch.resume(answer);
    Some(step)
}

#[test]
fn later_start_is_not_switched_off_by_an_earlier_one() {
    let mut cells = LifecycleCells::new();
    cells.is_limiting = true;
    let mut first = Launch::new();
    while advance(&mut first, &mut cells, true) != Some(LaunchStep::Spawn) {}
    assert_eq!(first.generation, 1);
    let mut second = Launch::new();
    while advance(&mut second, &mut cells, true) != Some(LaunchStep::Spawn) {}
    assert_eq!(second.generation, 2);
    assert_eq!(cells.active_threads, 2);
    while advance(&mut first, &mut cells, true).is_some() {}
    assert!(cells.is_limiting);
    assert_eq!(cells.active_threads, 1);
    while advance(&mut second, &mut cells, true).is_some() {}
    assert!(!cells.is_limiting);
    assert_eq!(cells.active_threads, 0);
}

#[test]
fn failed_start_is_taken_off_the_count() {
    let mut cells = LifecycleCells::new();
    cells.is_limiting = true;
    cells.generation = u64::MAX;
    let mut launch = Launch::new();
    while advance(&mut launch, &mut cells, false).is_some() {}
    assert_eq!(launch.generation, 0);
    assert_eq!(cells.active_threads, 0);
    assert!(!cells.is_limiting);
}
