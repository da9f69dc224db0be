use soundlock::config::{
    Config, LimiterParams, StoredConfig, DEFAULT_CROSSHAIR_COLOR, DEFAULT_CROSSHAIR_SIZE,
    DEFAULT_PRE_GAIN_DB, DEFAULT_THRESHOLD_DB,
};
use soundlock::runtime_params::{
    ParamCell, ParamWrite, Publication, RuntimeLimiterParams, StableRead,
};
use soundlock::single::Single;
use soundlock::storage::{
    backup_failure, config_file_name, log_file_name, next_backup_name, path_parts,
    unique_temp_name, BackupSearch, SaveStage, SaveStep, Saving,
};

fn n(value: f32) -> Single {
    Single::from_bits(value.to_bits())
}

fn number(table: &toml::Table, key: &str) -> Option<Single> {
    table.get(key).and_then(|v| v.as_float()).map(|v| n(v as f32))
}

fn integer(table: &toml::Table, key: &str) -> Option<u32> {
    table.get(key).and_then(|v| v.as_integer()).map(|v| v as u32)
}

fn text(table: &toml::Table, key: &str) -> Option<String> {
    table.get(key).and_then(|v| v.as_str()).map(|v| v.to_owned())
}

fn stored(table: &toml::Table) -> StoredConfig {
    StoredConfig {
        threshold_db: number(table, "threshold_db"),
        attack_ms: integer(table, "attack_ms"),
        release_ms: integer(table, "release_ms"),
        pre_gain_db: number(table, "pre_gain_db"),
        peak_release_ms: integer(table, "peak_release_ms"),
        target_input_device_id: text(table, "target_input_device_id"),
        target_output_device_id: text(table, "target_output_device_id"),
        crosshair_enabled: table.get("crosshair_enabled").and_then(|v| v.as_bool()),
        crosshair_color: integer(table, "crosshair_color"),
        crosshair_size: integer(table, "crosshair_size"),
    }
}

#[test]
fn limiter_params_are_sanitized() {
    let params = LimiterParams {
        threshold_db: n(f32::NAN),
        attack_ms: 0,
        release_ms: 9999,
        pre_gain_db: n(f32::INFINITY),
        peak_release_ms: 1,
    }
    .sanitized();

    assert_eq!(params.threshold_db, Single::from_bits(DEFAULT_THRESHOLD_DB));
    assert_eq!(params.attack_ms, 1);
    assert_eq!(params.release_ms, 300);
    assert_eq!(params.pre_gain_db, Single::from_bits(DEFAULT_PRE_GAIN_DB));
    assert_eq!(params.peak_release_ms, 20);
    assert_eq!(DEFAULT_THRESHOLD_DB, (-16.0f32).to_bits());
    assert_eq!(DEFAULT_PRE_GAIN_DB, 6.0f32.to_bits());
}

#[test]
fn runtime_publish_is_visible_as_one_stable_snapshot() {
    let mut runtime = RuntimeLimiterParams::from_params(LimiterParams::default());
    let mut version = u64::MAX;

    // The first read must find a stable snapshot.
    let _ = runtime.load_if_changed(&mut version).unwrap();

    let expected = LimiterParams {
        threshold_db: n(-21.5),
        attack_ms: 7,
        release_ms: 81,
        pre_gain_db: n(8.0),
        peak_release_ms: 72,
    };

    runtime.publish(expected);
    let actual = runtime.load_if_changed(&mut version).unwrap();
    assert_eq!(actual, expected);

    // Without a new publication there is nothing to read.
    assert!(runtime.load_if_changed(&mut version).is_none());
}

#[test]
fn old_config_without_crosshair_fields_uses_defaults() {
    let table: toml::Table = toml::from_str(
        r#"
threshold_db = -18.0
attack_ms = 12
release_ms = 60
pre_gain_db = 4.0
peak_release_ms = 55
"#,
    )
    .expect("deserialize old config");
    let config = Config::from_stored(stored(&table));

    assert!(!config.crosshair_enabled);
    assert_eq!(config.crosshair_color, DEFAULT_CROSSHAIR_COLOR);
    assert_eq!(config.crosshair_size, DEFAULT_CROSSHAIR_SIZE);
    assert_eq!(config.threshold_db, n(-18.0));
    assert_eq!(config.peak_release_ms, 55);
}

#[test]
fn crosshair_settings_are_sanitized() {
    let mut config = Config {
        crosshair_color: 0xFFFF_FFFF,
        crosshair_size: 999,
        ..Config::default()
    };

    config.sanitize();

    assert_eq!(config.crosshair_color, 0x00FF_FFFF);
    assert_eq!(config.crosshair_size, 60);
}

#[test]
fn usable_settings_are_left_as_they_are() {
    let params = LimiterParams {
        threshold_db: n(-60.0),
        attack_ms: 300,
        release_ms: 1,
        pre_gain_db: n(12.0),
        peak_release_ms: 150,
    };
    assert_eq!(params.sanitized(), params);
    let outside = LimiterParams {
        threshold_db: n(-60.5),
        pre_gain_db: n(-0.5),
        ..params
    };
    assert_eq!(outside.sanitized().threshold_db, n(-60.0));
    assert_eq!(outside.sanitized().pre_gain_db, n(0.0));
}

#[test]
fn missing_file_gives_the_defaults_and_saving_cleans() {
    let config = Config::load(None);
    assert_eq!(config.threshold_db, n(-16.0));
    assert_eq!(config.attack_ms, 10);
    assert_eq!(config.release_ms, 50);
    assert_eq!(config.peak_release_ms, 50);
    assert!(config.target_input_device_id.is_none());

    let table: toml::Table =
        toml::from_str("attack_ms = 100000\ntarget_input_device_id = \"mic\"").unwrap();
    let config = Config::load(Some(stored(&table)));
    assert_eq!(config.attack_ms, 300);
    assert_eq!(config.target_input_device_id.as_deref(), Some("mic"));

    let mut dirty = Config::default();
    dirty.crosshair_size = 1;
    dirty.threshold_db = n(f32::NAN);
    let saved = dirty.save();
    assert_eq!(saved.crosshair_size, 4);
    assert_eq!(saved.threshold_db, n(-16.0));
    assert_eq!(dirty.crosshair_size, 1);
}

#[test]
fn reading_in_the_middle_of_a_publication_gives_nothing() {
    let first = LimiterParams::default();
    let second = LimiterParams {
        attack_ms: 99,
        release_ms: 98,
        ..first
    };
    // A read that begins after `before` writes and in which `between` writes fall between
    // two loads.
    for before in 0..8 {
        for between in 0..8 {
            let mut cells = RuntimeLimiterParams::from_params(first);
            let mut publication = Publication::new(second);
            for _ in 0..before {
                if let Some(write) = publication.next_write() {
                    cells.write(write);
                    publication.advance();
                }
            }
            let mut read = StableRead::any_version();
            let mut loads = 0;
            while let Some(cell) = read.next_load() {
                let value = cells.load(cell);
                read.resume(value);
                loads += 1;
                if loads == 3 {
                    for _ in 0..between {
                        if let Some(write) = publication.next_write() {
                            cells.write(write);
                            publication.advance();
                        }
                    }
                }
            }
            let expected = if before == 7 {
                Some((2, second))
            } else if before == 0 && between == 0 {
                Some((0, first))
            } else {
                None
            };
            assert_eq!(read.outcome(), expected);
        }
    }
}

#[test]
fn publication_makes_seven_writes_in_order() {
    let params = LimiterParams::default();
    let mut publication = Publication::new(params);
    let mut writes = Vec::new();
    while let Some(write) = publication.next_write() {
        writes.push(write);
        publication.advance();
    }
    assert_eq!(
        writes,
        vec![
            ParamWrite::AdvanceVersion,
            ParamWrite::Threshold((-16.0f32).to_bits()),
            ParamWrite::Attack(10),
            ParamWrite::Release(50),
            ParamWrite::PreGain(6.0f32.to_bits()),
            ParamWrite::PeakRelease(50),
            ParamWrite::AdvanceVersion,
        ]
    );
    let mut runtime = RuntimeLimiterParams::new(&Config::default());
    assert_eq!(runtime.version(), 0);
    runtime.publish_config(&Config::default());
    assert_eq!(runtime.version(), 2);
    assert_eq!(runtime.load(ParamCell::Attack), 10);
    assert_eq!(runtime.snapshot(), params);
}

#[test]
fn files_have_their_places_and_names() {
    let parts = path_parts(&Some("C:\\Users\\me".to_owned()), config_file_name());
    assert_eq!(parts, vec!["C:\\Users\\me", "SoundLockRust", "config.toml"]);
    assert_eq!(path_parts(&None, log_file_name()), vec!["soundlock_debug.log"]);
    assert_eq!(unique_temp_name("config.toml", 77, 3), ".config.toml.77.3.tmp");
    let mut search = BackupSearch::new(1700);
    assert_eq!(search.candidate("config.toml"), "config.toml.corrupt-1700");
    search.reject();
    assert_eq!(search.candidate("config.toml"), "config.toml.corrupt-1700-1");
    search.reject();
    assert_eq!(search.candidate("config.toml"), "config.toml.corrupt-1700-2");
    assert_eq!(
        backup_failure("denied", "full"),
        "rename failed: denied; copy failed: full"
    );
}

#[test]
fn smallest_free_backup_name_is_taken() {
    let name = |in_use: Vec<bool>| next_backup_name(&in_use, "c", 5);
    assert_eq!(name(vec![]), "c.corrupt-5");
    assert_eq!(name(vec![false, true]), "c.corrupt-5");
    assert_eq!(name(vec![true, true, false, false]), "c.corrupt-5-2");
    assert_eq!(name(vec![true, true]), "c.corrupt-5-2");
}

#[test]
fn saving_removes_its_file_where_a_step_fails() {
    let steps = [
        SaveStep::CreateTemporary,
        SaveStep::Write,
        SaveStep::Flush,
        SaveStep::Sync,
        SaveStep::Replace,
    ];
    for failing in 0..=steps.len() {
        let mut saving = Saving::new();
        let mut seen = Vec::new();
        while let Some(step) = saving.next_step() {
            let worked = seen.len() != failing;
            seen.push(step);
            saving.resume(worked);
        }
        if failing == steps.len() {
            assert_eq!(saving.stage, SaveStage::Saved);
            assert_eq!(seen, steps);
        } else {
            assert_eq!(saving.stage, SaveStage::Failed);
            assert_eq!(seen[..=failing], steps[..=failing]);
            assert_eq!(seen[failing + 1..], [SaveStep::RemoveTemporary]);
        }
    }
}
