use soundlock::arithmetic::Arithmetic;
use soundlock::modes::cable::{
    add_energy, callback_gain, capture_samples, latency_samples, level_of, offer_samples,
    open_cable_ring, play_samples, should_continue, LoopStep,
};
use soundlock::modes::config::{Access, Config, OperationMode};
use soundlock::modes::limiter::LoudnessLimiter;
use soundlock::modes::volume::{find_session, VolumeLoop, VolumeStep};
use soundlock::modes::window::{
    choose_loop, device_entry_text, process_name, refresh_needed, select_program_title,
    selected_device_text, selected_index, session_entry_text, start_button_starts, state_text,
    Edited, LimiterLoop, Retries, StartDecision, StartObstacle, NOTHING_SELECTED,
};
use soundlock::single::Single;

struct Host;

fn n(value: f32) -> Single {
    Single::from_bits(value.to_bits())
}

fn f(value: Single) -> f32 {
    f32::from_bits(value.to_bits())
}

impl Arithmetic for Host {
    fn sum(a: Single, b: Single) -> Single {
        n(f(a) + f(b))
    }

    fn difference(a: Single, b: Single) -> Single {
        n(f(a) - f(b))
    }

    fn product(a: Single, b: Single) -> Single {
        n(f(a) * f(b))
    }

    fn quotient(a: Single, b: Single) -> Single {
        n(f(a) / f(b))
    }

    fn square_root(a: Single) -> Single {
        n(f(a).sqrt())
    }

    fn exponential(a: Single) -> Single {
        n(f(a).exp())
    }

    fn power_of_ten(a: Single) -> Single {
        n(10.0f32.powf(f(a)))
    }

    fn logarithm(a: Single) -> Single {
        n(f(a).log10())
    }

    fn from_integer(value: u64) -> Single {
        n(value as f32)
    }

    fn rounded(a: Single) -> u64 {
        f(a).round() as u64
    }

    fn truncated(a: Single) -> u64 {
        f(a) as u64
    }

    fn rounded_signed(a: Single) -> i32 {
        f(a).round() as i32
    }
}

fn config() -> Config {
    Config {
        threshold_db: n(-20.0),
        attack_ms: 10,
        release_ms: 50,
        crossover_freq: n(300.0),
        operation_mode: OperationMode::WindowsAPI,
        target_pid: None,
        scan_interval_ms: 10,
        volume_change_percentage_threshold: n(0.05),
        target_input_device_id: None,
        target_output_device_id: None,
    }
}

fn edited() -> Edited {
    Edited {
        threshold_db: n(-20.0),
        target_pid: None,
        attack_ms: 10,
        release_ms: 50,
        scan_interval_ms: 10,
        volume_change_percentage_threshold: n(0.05),
        operation_mode: OperationMode::WindowsAPI,
        crossover_freq: n(300.0),
        input: NOTHING_SELECTED,
        output: NOTHING_SELECTED,
    }
}

#[test]
fn settings_that_cannot_be_read_fall_back() {
    let busy = LoudnessLimiter::new::<Host>(None);
    let read = LoudnessLimiter::new::<Host>(Some(config().limiter_tuning()));
    assert_eq!(busy, read);
    assert_eq!(f(read.sample_rate), 44_100.0);
    assert_eq!(f(read.high_attack_steps), 10.0 / 1000.0 * 44_100.0);
    let dt = 1.0f32 / 44_100.0;
    let rc = 1.0f32 / (2.0 * std::f32::consts::PI * 300.0);
    assert_eq!(f(read.alpha), dt / (rc + dt));
    assert_eq!(
        f(read.rms_alpha),
        1.0 - (-1.0f32 / (0.01f32 * 44_100.0)).exp()
    );
}

#[test]
fn target_gain_brings_the_level_to_the_threshold() {
    let limiter = LoudnessLimiter::new::<Host>(None);
    assert_eq!(f(limiter.compute_target_gain::<Host>(n(0.05))), 1.0);
    let gain = f(limiter.compute_target_gain::<Host>(n(1.0)));
    assert!((gain - 0.1).abs() < 1e-6);
    assert_eq!(f(limiter.compute_target_gain::<Host>(n(0.0))), 1.0);
}

#[test]
fn gain_slides_over_the_attack_time() {
    let mut limiter = LoudnessLimiter::new::<Host>(None);
    limiter.set_sample_rate::<Host>(n(1_000.0));
    // Ten steps of attack: from 1 down to 0.1.
    let one = f(limiter.calculate_gain::<Host>(n(1.0), 1));
    assert!((one - 0.91).abs() < 1e-5);
    let mut whole = LoudnessLimiter::new::<Host>(None);
    whole.set_sample_rate::<Host>(n(1_000.0));
    let down = f(whole.calculate_gain::<Host>(n(1.0), 20));
    assert!((down - 0.1).abs() < 1e-6);
    assert_eq!(f(whole.current_gain), down);
    let up = f(whole.calculate_gain::<Host>(n(0.0), 1));
    assert!((up - (down + 0.9 / 50.0)).abs() < 1e-5);
    assert_eq!(f(whole.calculate_gain::<Host>(n(1.0), 0)), up);
}

#[test]
fn parameters_are_taken_over_when_they_can_be_read() {
    let mut limiter = LoudnessLimiter::new::<Host>(None);
    let before = limiter;
    limiter.update_parameters::<Host>(None);
    assert_eq!(limiter, before);
    let mut other = config();
    other.threshold_db = n(-30.0);
    other.attack_ms = 20;
    limiter.update_parameters::<Host>(Some(other.limiter_tuning()));
    assert_eq!(f(limiter.cached_threshold_db), -30.0);
    assert_eq!(f(limiter.high_attack_steps), 20.0 / 1000.0 * 44_100.0);
    assert_eq!(f(limiter.current_gain), 1.0);
}

#[test]
fn quiet_samples_pass_both_bands() {
    let mut limiter = LoudnessLimiter::new::<Host>(None);
    for index in 0..100 {
        let sample = (index as f32 * 0.1).sin() * 0.01;
        let out = f(limiter.process_sample_multiband::<Host>(n(sample)));
        assert!((out - sample).abs() < 1e-7);
    }
    assert_eq!(f(limiter.high_gain), 1.0);
}

#[test]
fn loud_upper_band_is_taken_down() {
    let mut limiter = LoudnessLimiter::new::<Host>(None);
    limiter.cached_crossover_freq = n(20_000.0);
    limiter.set_sample_rate::<Host>(n(44_100.0));
    let mut last = 1.0f32;
    for index in 0..20_000 {
        let sample = if index % 2 == 0 { 1.0 } else { -1.0 };
        last = f(limiter.process_sample_multiband::<Host>(n(sample))).abs();
    }
    assert!(f(limiter.high_gain) < 0.5);
    assert!(last < 1.0);
    // Useless coefficients: the whole signal is scaled.
    limiter.alpha = n(0.0);
    let gain = f(limiter.current_gain);
    assert_eq!(gain, 1.0);
    let out = f(limiter.process_sample_multiband::<Host>(n(1.0)));
    assert_eq!(out, f(limiter.current_gain));
    assert!(out < 1.0);
}

#[test]
fn cable_ring_delays_by_half_its_size() {
    assert_eq!(latency_samples::<Host>(n(48_000.0), 2), Some(14_400));
    assert_eq!(latency_samples::<Host>(n(1.0), 2), None);
    assert_eq!(latency_samples::<Host>(n(f32::INFINITY), 2), None);
    let (mut sink, mut source) = open_cable_ring(3);
    let mut limiter = None;
    let data = [n(0.5), n(-0.5), n(0.25)];
    assert!(!capture_samples::<Host>(&mut limiter, &mut sink, &data));
    // The ring of six is full now.
    assert!(capture_samples::<Host>(&mut limiter, &mut sink, &data[..1]));
    let mut out = [n(9.0); 5];
    assert!(!play_samples(&mut source, &mut out));
    assert_eq!(out.map(f), [0.0, 0.0, 0.0, 0.5, -0.5]);
    let mut out = [n(9.0); 2];
    assert!(play_samples(&mut source, &mut out));
    assert_eq!(out.map(f), [0.25, 0.0]);
}

#[test]
fn cable_callback_scales_by_one_gain() {
    let (mut sink, mut source) = open_cable_ring(1);
    let mut limiter = Some(LoudnessLimiter::new::<Host>(None));
    let data = [n(1.0)];
    assert!(!capture_samples::<Host>(&mut limiter, &mut sink, &data));
    let mut expected = LoudnessLimiter::new::<Host>(None);
    let gain = f(expected.calculate_gain::<Host>(n(1.0), 1));
    assert!(gain < 1.0);
    assert_eq!(limiter, Some(expected));
    let mut out = [n(9.0); 2];
    assert!(!play_samples(&mut source, &mut out));
    assert_eq!(out.map(f), [0.0, gain]);
    let none: [Single; 0] = [];
    assert!(!capture_samples::<Host>(&mut limiter, &mut sink, &none));
}

#[test]
fn samples_may_come_in_stretches() {
    let data: Vec<Single> = (0..40).map(|i| n((i as f32 - 20.0) / 15.0)).collect();
    let (mut sink, mut source) = open_cable_ring(60);
    let mut limiter = Some(LoudnessLimiter::new::<Host>(None));
    assert!(!capture_samples::<Host>(&mut limiter, &mut sink, &data));
    let mut whole = vec![n(9.0); 100];
    assert!(!play_samples(&mut source, &mut whole));

    let (mut sink, mut source) = open_cable_ring(60);
    let mut slid = Some(LoudnessLimiter::new::<Host>(None));
    let total = add_energy::<Host>(n(0.0), &data[..13]);
    let total = add_energy::<Host>(total, &data[13..]);
    let rms = level_of::<Host>(total, data.len());
    let gain = callback_gain::<Host>(&mut slid, rms, data.len());
    assert!(!offer_samples::<Host>(&mut sink, &data[..13], gain));
    assert!(!offer_samples::<Host>(&mut sink, &data[13..], gain));
    let mut parts = vec![n(9.0); 100];
    assert!(!play_samples(&mut source, &mut parts));
    assert_eq!(parts, whole);
    assert_eq!(slid, limiter);
    assert!(f(gain) < 1.0);
    assert_eq!(f(level_of::<Host>(n(8.0), 2)), 2.0);
    assert_eq!(f(level_of::<Host>(n(8.0), 0)), 0.0);
    assert_eq!(f(callback_gain::<Host>(&mut None, n(1.0), 5)), 1.0);
}

#[test]
fn loops_run_while_limiting_is_on() {
    assert_eq!(should_continue(Access::Granted(true)), LoopStep::GoOn);
    assert_eq!(should_continue(Access::Granted(false)), LoopStep::Stop);
    assert_eq!(should_continue(Access::Busy), LoopStep::Retry(10));
    assert_eq!(should_continue(Access::Poisoned), LoopStep::Stop);
    assert_eq!(
        choose_loop(Access::Granted(OperationMode::Cable)),
        LimiterLoop::Cable
    );
    assert_eq!(
        choose_loop(Access::Granted(OperationMode::WindowsAPI)),
        LimiterLoop::Volume
    );
    assert_eq!(choose_loop(Access::Busy), LimiterLoop::Refuse);
}

#[test]
fn volume_moves_only_by_more_than_the_threshold() {
    let mut scan = VolumeLoop::new(n(0.8));
    let mut limiter = Some(LoudnessLimiter::new::<Host>(None));
    // The first scan moves from nothing to the full volume.
    let volume = scan.scan::<Host>(&mut limiter, n(0.01), n(0.05));
    assert_eq!(volume.map(f), Some(0.8));
    // Nothing has changed.
    assert!(scan.scan::<Host>(&mut limiter, n(0.01), n(0.05)).is_none());
    // A busy limiter leaves things as they are.
    assert!(scan.scan::<Host>(&mut None, n(1.0), n(0.05)).is_none());
    // One step of a long attack is below the threshold.
    assert!(scan.scan::<Host>(&mut limiter, n(1.0), n(0.05)).is_none());
    limiter.as_mut().unwrap().current_gain = n(0.5);
    limiter.as_mut().unwrap().cached_attack_ms = n(0.0);
    let volume = scan.scan::<Host>(&mut limiter, n(1.0), n(0.05)).map(f).unwrap();
    assert!((volume - 0.08).abs() < 1e-6);
    // More than the full volume is never asked for.
    let mut loud = VolumeLoop::new(n(5.0));
    let mut fresh = Some(LoudnessLimiter::new::<Host>(None));
    let volume = loud.scan::<Host>(&mut fresh, n(0.0), n(0.05));
    assert_eq!(volume.map(f), Some(1.0));
    assert_eq!(find_session(&vec![4, 7, 7], 7), Some(1));
    assert_eq!(find_session(&vec![4], 7), None);
}

#[test]
fn volume_loop_ends_at_the_first_volume() {
    let mut scan = VolumeLoop::new(n(0.8));
    assert_eq!(scan.look(Access::Granted(true)), VolumeStep::ReadSettings);
    assert_eq!(scan.look(Access::Busy), VolumeStep::LookAgain(10));
    assert_eq!(
        scan.begin_scan(Access::Granted((25, n(0.05)))),
        VolumeStep::Scan(25, n(0.05))
    );
    scan.scan::<Host>(&mut Some(LoudnessLimiter::new::<Host>(None)), n(1.0), n(0.0));
    assert_eq!(scan.begin_scan(Access::Busy), VolumeStep::End(n(0.8)));
    assert_eq!(scan.begin_scan(Access::Poisoned), VolumeStep::End(n(0.8)));
    assert_eq!(scan.look(Access::Granted(false)), VolumeStep::End(n(0.8)));
    assert_eq!(scan.look(Access::Poisoned), VolumeStep::End(n(0.8)));
}

#[test]
fn gain_never_overshoots() {
    let mut limiter = LoudnessLimiter::new::<Host>(None);
    let target = f(limiter.compute_target_gain::<Host>(n(0.9)));
    let mut before = f(limiter.current_gain);
    for count in 0..400 {
        let gain = f(limiter.calculate_gain::<Host>(n(0.9), count % 7));
        assert!(target <= gain + 1e-6 && gain <= before);
        before = gain;
    }
    for count in 0..4_000 {
        let gain = f(limiter.calculate_gain::<Host>(n(0.0), count % 7));
        assert!(before <= gain && gain <= 1.0);
        before = gain;
    }
    assert_eq!(f(limiter.calculate_gain::<Host>(n(0.0), 100_000)), 1.0);
}

#[test]
fn ring_with_room_takes_every_sample() {
    let (mut sink, mut source) = open_cable_ring(3);
    let data = [n(0.5), n(-0.5), n(0.25)];
    assert!(!offer_samples::<Host>(&mut sink, &data, n(1.0)));
    assert!(offer_samples::<Host>(&mut sink, &data, n(1.0)));
    let mut out = [n(9.0); 6];
    assert!(!play_samples(&mut source, &mut out));
    assert_eq!(out.map(f), [0.0, 0.0, 0.0, 0.5, -0.5, 0.25]);
}

#[test]
fn window_writes_back_only_what_changed() {
    let ids = vec!["a".to_owned(), "b".to_owned()];
    let mut settings = config();
    assert_eq!(edited().write_back(&mut settings, &ids, &ids), (false, false));

    let mut sliders = edited();
    sliders.attack_ms = 11;
    sliders.threshold_db = n(-10.0);
    sliders.target_pid = Some(5);
    sliders.release_ms = 51;
    sliders.scan_interval_ms = 12;
    sliders.volume_change_percentage_threshold = n(0.1);
    sliders.crossover_freq = n(400.0);
    assert_eq!(sliders.write_back(&mut settings, &ids, &ids), (true, false));
    assert_eq!(settings.attack_ms, 11);
    assert_eq!(settings.target_pid, Some(5));
    assert_eq!(f(settings.crossover_freq), 400.0);

    sliders.input = 1;
    assert_eq!(sliders.write_back(&mut settings, &ids, &ids), (true, true));
    assert_eq!(settings.target_input_device_id.as_deref(), Some("b"));
    assert_eq!(sliders.write_back(&mut settings, &ids, &ids), (false, false));
    sliders.operation_mode = OperationMode::Cable;
    assert_eq!(sliders.write_back(&mut settings, &ids, &ids), (true, true));
    sliders.input = NOTHING_SELECTED;
    assert_eq!(sliders.write_back(&mut settings, &ids, &ids), (true, true));
    assert!(settings.target_input_device_id.is_none());
}

#[test]
fn starting_needs_what_the_mode_works_on() {
    let mut retries = Retries { start: false, stop: false };
    let mut settings = config();
    assert_eq!(
        retries.start_limiting(None, Access::Granted(())),
        StartDecision::Refuse(StartObstacle::SettingsBusy)
    );
    assert_eq!(
        retries.start_limiting(Some(&settings), Access::Granted(())),
        StartDecision::Refuse(StartObstacle::NoProgram)
    );
    settings.operation_mode = OperationMode::Cable;
    settings.target_input_device_id = Some("a".to_owned());
    assert_eq!(
        retries.start_limiting(Some(&settings), Access::Granted(())),
        StartDecision::Refuse(StartObstacle::NoDevices)
    );
    settings.target_output_device_id = Some("b".to_owned());
    assert_eq!(
        retries.start_limiting(Some(&settings), Access::Busy),
        StartDecision::RetryLater
    );
    assert!(retries.start);
    assert_eq!(
        retries.start_limiting(Some(&settings), Access::Poisoned),
        StartDecision::Refuse(StartObstacle::StatePoisoned)
    );
    assert_eq!(
        retries.start_limiting(Some(&settings), Access::Granted(())),
        StartDecision::Start
    );
    assert!(!retries.start);

    assert!(!retries.stop_limiting(Access::Busy));
    assert!(retries.stop);
    assert!(retries.stop_limiting(Access::Granted(())));
    assert!(!retries.stop);
    assert!(!retries.stop_limiting(Access::Poisoned));
    assert!(start_button_starts(None, OperationMode::Cable));
    assert!(start_button_starts(Some(1), OperationMode::WindowsAPI));
    assert!(!start_button_starts(None, OperationMode::WindowsAPI));
    assert_eq!(select_program_title(), "请先选择一个应用");
}

#[test]
fn window_shows_devices_and_programs() {
    let ids = vec!["a".to_owned(), "b".to_owned()];
    assert_eq!(selected_index(&ids, &Some("b".to_owned())), 1);
    assert_eq!(selected_index(&ids, &Some("c".to_owned())), NOTHING_SELECTED);
    assert_eq!(selected_index(&ids, &None), NOTHING_SELECTED);
    assert_eq!(selected_device_text(NOTHING_SELECTED, &None), "未选择");
    assert_eq!(selected_device_text(0, &None), "未知设备");
    assert_eq!(selected_device_text(0, &Some("Mic".to_owned())), "Mic");
    assert_eq!(device_entry_text(3, &None), "设备 3");
    assert_eq!(device_entry_text(3, &Some("Mic".to_owned())), "Mic");
    assert_eq!(session_entry_text("game.exe", 42), "game.exe (PID: 42)");
    assert_eq!(process_name("C:\\Games\\game.exe"), "game.exe");
    assert_eq!(state_text(true), "运行中");
    assert_eq!(state_text(false), "未运行");
    assert!(!refresh_needed(2_000_000_000));
    assert!(refresh_needed(2_000_000_001));
}
