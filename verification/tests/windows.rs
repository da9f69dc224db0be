use soundlock::arithmetic::Arithmetic;
use soundlock::config::Config;
use soundlock::crosshair::{
    centered_window_position, crosshair_wnd_proc, key_is_down, render_crosshair, CrosshairMessage,
    CrosshairReply, CrosshairStyle, TimerAction, Visibility,
};
use soundlock::diagnostics::{
    gain_in_mdb, input_callback, input_error, limiter_batch, limiter_lock_miss, output_callback,
    output_error, output_underrun, replaces_lowest, reset_limiter_stats, ring_push_drop,
    started_line, ui_tick, update_min_gain_db, Diagnostics,
};
use soundlock::icon::WindowIcon;
use soundlock::runtime_params::RuntimeLimiterParams;
use soundlock::settings::{
    command_parts, create_controls, cycle_crosshair_color, devices_missing_message,
    handle_command, is_slider, load_config_into_controls, milliseconds_label, pre_gain_label,
    slider_position, start_button_text, start_or_stop, threshold_label, Command, ControlKind,
    Controls, StartOrStop, ID_COLOR, ID_CROSSHAIR, ID_INPUT, ID_OUTPUT, ID_PEAK_RELEASE,
    ID_REFRESH, ID_SAVE, ID_SIZE, ID_START_STOP, ID_THRESHOLD,
};
use soundlock::setup::{
    is_cable_input_name, is_cable_output_name, is_lower_cable_input_name,
    is_lower_cable_output_name, is_vbcable_installed,
};
use soundlock::single::Single;
use soundlock::text::{contains_text, parse_number, text_after_last, trim_text};
use soundlock::tray::{
    classify_message, tray_loop_continues, tray_wnd_proc, Pump, TrayMessage, TrayReply,
};

struct Host;

fn n(value: f32) -> Single {
    Single::from_bits(value.to_bits())
}

fn f(value: Single) -> f32 {
    f32::from_bits(value.to_bits())
}

impl Arithmetic for Host {
    fn sum(a: Single, b: Single) -> Single {
        n(f(a) + f(b))
    }

    fn difference(a: Single, b: Single) -> Single {
        n(f(a) - f(b))
    }

    fn product(a: Single, b: Single) -> Single {
        n(f(a) * f(b))
    }

    fn quotient(a: Single, b: Single) -> Single {
        n(f(a) / f(b))
    }

    fn square_root(a: Single) -> Single {
        n(f(a).sqrt())
    }

    fn exponential(a: Single) -> Single {
        n(f(a).exp())
    }

    fn power_of_ten(a: Single) -> Single {
        n(10.0f32.powf(f(a)))
    }

    fn logarithm(a: Single) -> Single {
        n(f(a).log10())
    }

    fn from_integer(value: u64) -> Single {
        n(value as f32)
    }

    fn rounded(a: Single) -> u64 {
        f(a).round() as u64
    }

    fn truncated(a: Single) -> u64 {
        f(a) as u64
    }

    fn rounded_signed(a: Single) -> i32 {
        f(a).round() as i32
    }
}

/// The picture as floating point arithmetic draws it.
fn drawn_with_floats(rgb: u32, diameter: u32) -> Vec<u32> {
    let diameter = diameter.clamp(1, 78) as f32;
    let (r, g, b) = ((rgb >> 16) & 0xFF, (rgb >> 8) & 0xFF, rgb & 0xFF);
    let mut pixels = vec![0u32; 6400];
    let radius_sq = (diameter * 0.5) * (diameter * 0.5);
    for y in 0..80 {
        for x in 0..80 {
            let mut inside = 0i32;
            for sample_y in 0..4 {
                let dy = y as f32 + (sample_y as f32 + 0.5) / 4.0 - 40.0;
                for sample_x in 0..4 {
                    let dx = x as f32 + (sample_x as f32 + 0.5) / 4.0 - 40.0;
                    if dx * dx + dy * dy <= radius_sq {
                        inside += 1;
                    }
                }
            }
            if inside == 0 {
                continue;
            }
            let alpha = ((inside * 255 + 8) / 16) as u32;
            pixels[y * 80 + x] = (alpha << 24)
                | (((r * alpha + 127) / 255) << 16)
                | (((g * alpha + 127) / 255) << 8)
                | ((b * alpha + 127) / 255);
        }
    }
    pixels
}

#[test]
fn crosshair_is_the_circle_that_floats_draw() {
    for diameter in [0, 1, 2, 3, 4, 17, 18, 60, 77, 78, 79, u32::MAX] {
        assert_eq!(
            render_crosshair(0x0078FF, diameter),
            drawn_with_floats(0x0078FF, diameter)
        );
    }
    let pixels = render_crosshair(0xFF123456, 18);
    assert_eq!(pixels[40 * 80 + 40], 0xFF123456);
    assert_eq!(pixels[0], 0);
}

#[test]
fn crosshair_is_symmetric_and_premultiplied() {
    let pixels = render_crosshair(0xFFFFFF, 33);
    for y in 0..80 {
        for x in 0..80 {
            let pixel = pixels[y * 80 + x];
            assert_eq!(pixel, pixels[y * 80 + 79 - x]);
            assert_eq!(pixel, pixels[(79 - y) * 80 + x]);
            assert_eq!(pixel, pixels[x * 80 + y]);
            assert_eq!(pixel & 0xFF, pixel >> 24);
        }
    }
}

#[test]
fn crosshair_window_is_in_the_middle() {
    assert_eq!(centered_window_position(1920, 1080), (920, 500));
    assert_eq!(centered_window_position(1921, 1), (920, -40));
    assert_eq!(centered_window_position(-3, i32::MIN), (-41, -1073741864));
    assert!(key_is_down(i16::MIN));
    assert!(!key_is_down(1));
}

#[test]
fn crosshair_timer_follows_the_settings() {
    let mut style = CrosshairStyle::none();
    assert_eq!(
        style.on_timer(true, true, false, true, 1, 2),
        TimerAction::Destroy
    );
    assert_eq!(
        style.on_timer(false, true, false, false, 1, 2),
        TimerAction::Update {
            render: Some((1, 2)),
            visibility: Visibility::Show
        }
    );
    style.rendered(1, 2, false);
    assert_eq!(style, CrosshairStyle::none());
    style.rendered(1, 2, true);
    assert_eq!(
        style.on_timer(false, true, true, true, 1, 2),
        TimerAction::Update {
            render: None,
            visibility: Visibility::Hide
        }
    );
    assert_eq!(
        style.on_timer(false, false, false, false, 1, 3),
        TimerAction::Update {
            render: Some((1, 3)),
            visibility: Visibility::Keep
        }
    );
    assert_eq!(
        style.on_timer(false, true, false, true, 1, 2),
        TimerAction::Update {
            render: None,
            visibility: Visibility::Keep
        }
    );
}

#[test]
fn crosshair_messages_are_answered() {
    let pairs = [
        (CrosshairMessage::HitTest, CrosshairReply::Transparent),
        (CrosshairMessage::EraseBackground, CrosshairReply::Erased),
        (CrosshairMessage::DisplayChange, CrosshairReply::Redraw),
        (CrosshairMessage::Timer, CrosshairReply::Tick),
        (CrosshairMessage::Destroy, CrosshairReply::Quit),
        (CrosshairMessage::Other, CrosshairReply::Standard),
    ];
    for (message, reply) in pairs {
        assert_eq!(crosshair_wnd_proc(message), reply);
    }
}

#[test]
fn counters_count() {
    let mut d = Diagnostics::default();
    ui_tick(&mut d);
    input_callback(&mut d);
    output_callback(&mut d);
    input_error(&mut d);
    output_error(&mut d);
    limiter_lock_miss(&mut d);
    ring_push_drop(&mut d);
    output_underrun(&mut d);
    output_underrun(&mut d);
    limiter_batch::<Host>(&mut d, 100, 3, 2, 1, n(0.5), n(1.0));
    limiter_batch::<Host>(&mut d, 1, 0, 0, 0, n(0.75), n(0.1));
    assert_eq!(
        d.log_line(42),
        "[42] ui_ticks=1 input_callbacks=1 output_callbacks=1 input_errors=1 output_errors=1 \
limiter_lock_misses=1 ring_push_drops=1 output_underruns=2 processed_frames=101 \
ceiling_hit_frames=3 peak_limit_frames=2 peak_hold_events=1 peak_gain_min_db=-6.021 \
rms_gain_min_db=-20.000"
    );
    assert_eq!(
        d.log_line(42).split("peak_gain_min_db=").nth(1).unwrap(),
        format!("{:.3} rms_gain_min_db={:.3}", -6021f32 / 1000.0, -20000f32 / 1000.0)
    );
    reset_limiter_stats(&mut d);
    assert_eq!(d.processed_frames, 0);
    assert_eq!(d.peak_gain_min_mdb, 0);
    assert_eq!(d.output_underruns, 2);
    d.ui_ticks = u64::MAX;
    ui_tick(&mut d);
    assert_eq!(d.ui_ticks, 0);
    assert_eq!(started_line(7), "[7] diagnostics started");
}

#[test]
fn lowest_gain_is_kept() {
    assert_eq!(gain_in_mdb::<Host>(n(f32::NAN)), -120_000);
    assert_eq!(gain_in_mdb::<Host>(n(0.0)), -120_000);
    assert_eq!(gain_in_mdb::<Host>(n(2.0)), 0);
    assert_eq!(gain_in_mdb::<Host>(n(0.1)), -20_000);
    let mut lowest = 0;
    update_min_gain_db::<Host>(&mut lowest, n(0.1));
    update_min_gain_db::<Host>(&mut lowest, n(0.5));
    assert_eq!(lowest, -20_000);
    for gain in [f32::NAN, f32::INFINITY, -1.0, 0.0, 1e-30, 0.000001, 0.3, 1.0, 40.0] {
        update_min_gain_db::<Host>(&mut lowest, n(gain));
        assert!((-120_000..=0).contains(&gain_in_mdb::<Host>(n(gain))));
        assert!((-120_000..=0).contains(&lowest));
    }
    assert_eq!(lowest, -120_000);
    assert!(replaces_lowest(0, -1));
    assert!(!replaces_lowest(-1, -1));
}

#[test]
fn cable_is_known_by_its_name() {
    assert!(is_cable_output_name("CABLE Output (VB-Audio Virtual Cable)"));
    assert!(is_cable_output_name("VB-Audio Hi-Fi CABLE, stereo OUTPUT"));
    assert!(!is_cable_output_name("CABLE Input"));
    assert!(is_cable_input_name("cable INPUT"));
    assert!(!is_cable_input_name("Speakers"));
    assert!(is_lower_cable_output_name("my cable output"));
    assert!(!is_lower_cable_output_name("CABLE OUTPUT"));
    assert!(is_lower_cable_input_name("input of a cable by vb-audio"));
    let speakers = vec!["Speakers".to_owned()];
    let output = vec!["Mic".to_owned(), "CABLE Output".to_owned()];
    let input = vec!["CABLE Input".to_owned()];
    assert!(!is_vbcable_installed(&speakers, &speakers));
    assert!(is_vbcable_installed(&output, &speakers));
    assert!(is_vbcable_installed(&speakers, &input));
    assert!(!is_vbcable_installed(&input, &output));
}

#[test]
fn texts_are_searched_and_read() {
    assert!(contains_text("", ""));
    assert!(contains_text("abcabd", "abd"));
    assert!(!contains_text("ab", "abc"));
    assert_eq!(text_after_last("C:\\a\\b.exe", '\\'), "b.exe");
    assert_eq!(text_after_last("b.exe", '\\'), "b.exe");
    assert_eq!(text_after_last("a\\", '\\'), "");
    for text in ["0", "+7", "007", "4294967295"] {
        assert_eq!(parse_number(text), text.parse::<u32>().ok());
        assert!(parse_number(text).is_some());
    }
    for text in ["", "+", "-1", "4294967296", "99999999999999999999999", "1 ", "１", "a", "++1"] {
        assert_eq!(parse_number(text), text.parse::<u32>().ok());
        assert!(parse_number(text).is_none());
    }
}

#[test]
fn settings_window_has_its_controls() {
    let controls = create_controls();
    assert_eq!(controls.len(), 27);
    assert_eq!(controls[5].text, "刷新设备");
    assert_eq!(controls[5].id, ID_REFRESH);
    assert_eq!(controls[19].kind, ControlKind::Slider);
    assert_eq!(controls[19].id, ID_PEAK_RELEASE);
    assert_eq!((controls[20].x, controls[20].y), (302, 306));
    assert_eq!(controls[24].kind, ControlKind::Number);
    assert_eq!(controls[24].id, ID_SIZE);
}

#[test]
fn sliders_show_the_settings() {
    let sliders = load_config_into_controls::<Host>(&Config::default());
    assert_eq!(sliders.len(), 5);
    assert_eq!(sliders[0].position, 440);
    assert_eq!(sliders[0].packed_range(), 600 << 16);
    assert_eq!(sliders[1].position, 10);
    assert_eq!(sliders[1].packed_range(), 1 | (300 << 16));
    assert_eq!(sliders[3].position, 60);
    assert_eq!(sliders[4].position, 50);
    assert_eq!(sliders[4].packed_range(), 20 | (150 << 16));
    assert_eq!(slider_position(-5), 0);
    assert_eq!(slider_position(77), 77);
    for position in 0..=600u32 {
        let threshold = position as f32 / 10.0 - 60.0;
        assert_eq!(threshold_label(position), format!("{threshold:.1} dB"));
    }
    for position in 0..=120u32 {
        let pre_gain = position as f32 / 10.0;
        assert_eq!(pre_gain_label(position), format!("+{pre_gain:.1} dB"));
    }
    assert_eq!(milliseconds_label(150), "150 ms");
}

fn controls(size: &str) -> Controls {
    Controls {
        size_text: size.to_owned(),
        threshold: 385,
        attack: 0,
        release: 999,
        pre_gain: 85,
        peak_release: 3,
        input: 1,
        output: usize::MAX,
        crosshair_enabled: true,
        crosshair_color: 0xAA00FF00,
    }
}

#[test]
fn controls_are_taken_over() {
    let ids = vec!["a".to_owned(), "b".to_owned()];
    let mut config = Config::default();
    config.target_output_device_id = Some("kept".to_owned());
    assert_eq!(
        controls(" 99 \n").apply_controls::<Host>(&ids, &ids, &mut config),
        Ok(60)
    );
    assert_eq!(f(config.threshold_db), 385.0 / 10.0 - 60.0);
    assert_eq!(config.attack_ms, 1);
    assert_eq!(config.release_ms, 300);
    assert_eq!(f(config.pre_gain_db), 8.5);
    assert_eq!(config.peak_release_ms, 20);
    assert_eq!(config.target_input_device_id.as_deref(), Some("b"));
    assert_eq!(config.target_output_device_id.as_deref(), Some("kept"));
    assert!(config.crosshair_enabled);
    assert_eq!(config.crosshair_color, 0x00FF00);
    assert_eq!(config.crosshair_size, 60);
}

#[test]
fn size_that_is_no_number_changes_nothing() {
    let ids = vec!["a".to_owned()];
    let mut config = Config::default();
    for text in ["", "x", "12px", "-3"] {
        assert_eq!(
            controls(text).apply_controls::<Host>(&ids, &ids, &mut config),
            Err("准星大小 格式不正确")
        );
        assert_eq!(config.release_ms, 50);
        assert!(!config.crosshair_enabled);
    }
    assert_eq!(
        controls("").apply_number::<Host>(Some(2), &ids, &ids, &mut config),
        Ok(4)
    );
}

#[test]
fn applied_settings_are_published() {
    let ids = vec!["a".to_owned()];
    let mut config = Config::default();
    let mut size = 18;
    let mut params = RuntimeLimiterParams::new(&config);
    let first = params.version();
    assert_eq!(
        controls("x").apply_and_publish::<Host>(&ids, &ids, &mut config, &mut size, &mut params),
        Err("准星大小 格式不正确")
    );
    assert_eq!((size, params.version()), (18, first));
    assert_eq!(params.snapshot().release_ms, 50);
    assert_eq!(
        controls("30").apply_and_publish::<Host>(&ids, &ids, &mut config, &mut size, &mut params),
        Ok(())
    );
    assert_eq!(size, 30);
    assert_ne!(params.version(), first);
    assert_eq!(params.snapshot().release_ms, 300);
    assert_eq!(f(params.snapshot().pre_gain_db), 8.5);
}

#[test]
fn white_space_is_trimmed_as_the_standard_library_does() {
    for code in 0..=0x10FFFFu32 {
        if let Some(c) = char::from_u32(code) {
            if c.is_whitespace() || code % 97 == 0 {
                let text = format!("{c} x{c}y \n{c}");
                assert_eq!(trim_text(&text), text.trim());
            }
        }
    }
    assert_eq!(trim_text(""), "");
    assert_eq!(trim_text(" \t\u{3000}"), "");
}

#[test]
fn slider_positions_survive_a_round_trip() {
    let ids = Vec::new();
    let mut config = Config::default();
    for position in 0..=600u32 {
        let mut with_position = controls("18");
        with_position.threshold = position;
        with_position.pre_gain = position.min(120);
        with_position
            .apply_controls::<Host>(&ids, &ids, &mut config)
            .unwrap();
        let sliders = load_config_into_controls::<Host>(&config);
        assert_eq!(sliders[0].position, position);
        assert_eq!(sliders[3].position, position.min(120));
    }
}

#[test]
fn commands_are_told_apart() {
    assert_eq!(handle_command(ID_REFRESH, false), Command::RefreshDevices);
    assert_eq!(handle_command(ID_INPUT, true), Command::Apply);
    assert_eq!(handle_command(ID_OUTPUT, true), Command::Apply);
    assert_eq!(handle_command(ID_INPUT, false), Command::Ignore);
    assert_eq!(handle_command(ID_CROSSHAIR, false), Command::Crosshair);
    assert_eq!(handle_command(ID_COLOR, false), Command::CycleColor);
    assert_eq!(handle_command(ID_START_STOP, false), Command::StartOrStop);
    assert_eq!(handle_command(ID_SAVE, true), Command::Save);
    assert_eq!(handle_command(1, true), Command::Ignore);
    assert_eq!(command_parts(0x1_0065), (101, 1));
    assert!(is_slider(ID_THRESHOLD));
    assert!(is_slider(ID_PEAK_RELEASE));
    assert!(!is_slider(ID_SIZE));
}

#[test]
fn start_button_decides() {
    let mut config = Config::default();
    assert_eq!(start_or_stop(true, false, &config), StartOrStop::Stop);
    assert_eq!(start_or_stop(false, false, &config), StartOrStop::Refuse);
    assert_eq!(
        start_or_stop(false, true, &config),
        StartOrStop::AskForDevices
    );
    config.target_input_device_id = Some("a".to_owned());
    assert_eq!(
        start_or_stop(false, true, &config),
        StartOrStop::AskForDevices
    );
    config.target_output_device_id = Some("b".to_owned());
    assert_eq!(start_or_stop(false, true, &config), StartOrStop::Start);
    assert_eq!(start_button_text(true), "停止");
    assert_eq!(start_button_text(false), "启动限制");
    assert_eq!(devices_missing_message(), "请选择输入和输出设备");
}

#[test]
fn crosshair_colors_go_round() {
    let mut color = 0x0078FF;
    let mut seen = Vec::new();
    for _ in 0..6 {
        color = cycle_crosshair_color(color);
        seen.push(color);
    }
    assert_eq!(
        seen,
        vec![0x00FF00, 0xFF0000, 0xFFFF00, 0xFFFFFF, 0xFF00FF, 0x0078FF]
    );
    assert_eq!(cycle_crosshair_color(0x123456), 0x0078FF);
}

#[test]
fn tray_answers_and_ends() {
    assert_eq!(classify_message(1), Pump::Dispatch);
    assert_eq!(classify_message(0), Pump::Quit);
    assert_eq!(classify_message(-1), Pump::Fail);
    assert!(tray_loop_continues(Pump::Dispatch, false));
    assert!(!tray_loop_continues(Pump::Dispatch, true));
    assert!(!tray_loop_continues(Pump::Fail, false));
    assert_eq!(tray_wnd_proc(TrayMessage::Icon(true)), TrayReply::Menu);
    assert_eq!(tray_wnd_proc(TrayMessage::Icon(false)), TrayReply::Standard);
    assert_eq!(
        tray_wnd_proc(TrayMessage::Command(0x2_0000 + 1002)),
        TrayReply::Exit
    );
    assert_eq!(
        tray_wnd_proc(TrayMessage::Command(1001)),
        TrayReply::Standard
    );
    assert_eq!(tray_wnd_proc(TrayMessage::Destroy), TrayReply::Exit);
    assert_eq!(tray_wnd_proc(TrayMessage::Other), TrayReply::Standard);
}

#[test]
fn icon_is_decoded() {
    // One opaque red pixel.
    let png: [u8; 69] = [
        137, 80, 78, 71, 13, 10, 26, 10, 0, 0, 0, 13, 73, 72, 68, 82, 0, 0, 0, 1, 0, 0, 0,
        1, 8, 2, 0, 0, 0, 144, 119, 83, 222, 0, 0, 0, 12, 73, 68, 65, 84, 120, 218, 99,
        248, 207, 192, 0, 0, 3, 1, 1, 0, 247, 3, 65, 67, 0, 0, 0, 0, 73, 69, 78, 68, 174,
        66, 96, 130,
    ];
    let icon = WindowIcon::decode(&png).unwrap();
    assert_eq!((icon.width, icon.height), (1, 1));
    assert_eq!(icon.rgba, vec![255, 0, 0, 255]);
    assert!(WindowIcon::decode(b"no picture").is_none());
    let made = WindowIcon::from_picture(Some((vec![1, 2, 3, 4], 1, 1))).unwrap();
    assert_eq!(made.rgba, vec![1, 2, 3, 4]);
    assert!(WindowIcon::from_picture(None).is_none());
}
