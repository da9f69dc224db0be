//! Settings of the limiter and of the crosshair, and the rules that keep them usable.

use vstd::prelude::*;

use crate::single::{single, Single};

verus! {

/// Bit pattern of -16.
pub const DEFAULT_THRESHOLD_DB: u32 = 0xc180_0000;

pub const DEFAULT_ATTACK_MS: u32 = 10;

pub const DEFAULT_RELEASE_MS: u32 = 50;

/// Bit pattern of 6.
pub const DEFAULT_PRE_GAIN_DB: u32 = 0x40c0_0000;

pub const DEFAULT_PEAK_RELEASE_MS: u32 = 50;

pub const DEFAULT_CROSSHAIR_ENABLED: bool = false;

pub const DEFAULT_CROSSHAIR_COLOR: u32 = 0x0078FF;

pub const DEFAULT_CROSSHAIR_SIZE: u32 = 18;

/// Bit pattern of -60.
pub const LOWEST_THRESHOLD_DB: u32 = 0xc270_0000;

/// Bit pattern of 0.
pub const HIGHEST_THRESHOLD_DB: u32 = 0;

/// Bit pattern of 0.
pub const LOWEST_PRE_GAIN_DB: u32 = 0;

/// Bit pattern of 12.
pub const HIGHEST_PRE_GAIN_DB: u32 = 0x4140_0000;

pub const SHORTEST_TIME_MS: u32 = 1;

pub const LONGEST_TIME_MS: u32 = 300;

pub const SHORTEST_PEAK_RELEASE_MS: u32 = 20;

pub const LONGEST_PEAK_RELEASE_MS: u32 = 150;

pub const SMALLEST_CROSSHAIR: u32 = 4;

pub const LARGEST_CROSSHAIR: u32 = 60;

/// Number of colors that a crosshair color can take.
pub const COLOR_COUNT: u32 = 0x0100_0000;

/// `value`, moved to the nearer end of `low..=high` where it lies outside.
pub open spec fn within(value: u32, low: u32, high: u32) -> u32 {
    if value < low {
        low
    } else if value > high {
        high
    } else {
        value
    }
}

/// Moves `value` to the nearer end of `low..=high` where it lies outside.
pub fn clamp_integer(value: u32, low: u32, high: u32) -> (result: u32)
    ensures
        result == within(value, low, high),
{
    if value < low {
        low
    } else if value > high {
        high
    } else {
        value
    }
}

/// The five settings that the limiter itself runs on.
#[derive(Clone, Copy, Debug, PartialEq, Eq, Structural)]
pub struct LimiterParams {
    pub threshold_db: Single,
    pub attack_ms: u32,
    pub release_ms: u32,
    pub pre_gain_db: Single,
    pub peak_release_ms: u32,
}

impl LimiterParams {
    /// The settings with each one brought into its range; a decibel value that is not a
    /// finite number gives way to its default.
    pub open spec fn cleaned(self) -> LimiterParams {
        LimiterParams {
            threshold_db: self.threshold_db.finite_or(single(DEFAULT_THRESHOLD_DB)).clamped(
                single(LOWEST_THRESHOLD_DB),
                single(HIGHEST_THRESHOLD_DB),
            ),
            attack_ms: within(self.attack_ms, SHORTEST_TIME_MS, LONGEST_TIME_MS),
            release_ms: within(self.release_ms, SHORTEST_TIME_MS, LONGEST_TIME_MS),
            pre_gain_db: self.pre_gain_db.finite_or(single(DEFAULT_PRE_GAIN_DB)).clamped(
                single(LOWEST_PRE_GAIN_DB),
                single(HIGHEST_PRE_GAIN_DB),
            ),
            peak_release_ms: within(
                self.peak_release_ms,
                SHORTEST_PEAK_RELEASE_MS,
                LONGEST_PEAK_RELEASE_MS,
            ),
        }
    }

    /// Whether every setting is a finite number in its range.
    pub open spec fn usable(self) -> bool {
        &&& self.threshold_db.finite()
        &&& single(LOWEST_THRESHOLD_DB).at_most(self.threshold_db)
        &&& self.threshold_db.at_most(single(HIGHEST_THRESHOLD_DB))
        &&& SHORTEST_TIME_MS <= self.attack_ms <= LONGEST_TIME_MS
        &&& SHORTEST_TIME_MS <= self.release_ms <= LONGEST_TIME_MS
        &&& self.pre_gain_db.finite()
        &&& single(LOWEST_PRE_GAIN_DB).at_most(self.pre_gain_db)
        &&& self.pre_gain_db.at_most(single(HIGHEST_PRE_GAIN_DB))
        &&& SHORTEST_PEAK_RELEASE_MS <= self.peak_release_ms <= LONGEST_PEAK_RELEASE_MS
    }

    /// The settings that a configuration holds, as they stand.
    pub open spec fn held_by(config: &Config) -> LimiterParams {
        LimiterParams {
            threshold_db: config.threshold_db,
            attack_ms: config.attack_ms,
            release_ms: config.release_ms,
            pre_gain_db: config.pre_gain_db,
            peak_release_ms: config.peak_release_ms,
        }
    }

    /// The settings in force before anything was chosen.
    pub open spec fn initial() -> LimiterParams {
        LimiterParams {
            threshold_db: single(DEFAULT_THRESHOLD_DB),
            attack_ms: DEFAULT_ATTACK_MS,
            release_ms: DEFAULT_RELEASE_MS,
            pre_gain_db: single(DEFAULT_PRE_GAIN_DB),
            peak_release_ms: DEFAULT_PEAK_RELEASE_MS,
        }
    }

    /// The usable settings nearest to those of `config`.
    pub fn from_config(config: &Config) -> (params: LimiterParams)
        ensures
            params == LimiterParams::held_by(config).cleaned(),
    {
        LimiterParams {
            threshold_db: config.threshold_db,
            attack_ms: config.attack_ms,
            release_ms: config.release_ms,
            pre_gain_db: config.pre_gain_db,
            peak_release_ms: config.peak_release_ms,
        }.sanitized()
    }

    /// Brings every setting into its range.
    pub fn sanitized(self) -> (params: LimiterParams)
        ensures
            params == self.cleaned(),
    {
        LimiterParams {
            threshold_db: self.threshold_db.or_if_not_finite(
                Single::from_bits(DEFAULT_THRESHOLD_DB),
            ).clamp(
                Single::from_bits(LOWEST_THRESHOLD_DB),
                Single::from_bits(HIGHEST_THRESHOLD_DB),
            ),
            attack_ms: clamp_integer(self.attack_ms, SHORTEST_TIME_MS, LONGEST_TIME_MS),
            release_ms: clamp_integer(self.release_ms, SHORTEST_TIME_MS, LONGEST_TIME_MS),
            pre_gain_db: self.pre_gain_db.or_if_not_finite(
                Single::from_bits(DEFAULT_PRE_GAIN_DB),
            ).clamp(
                Single::from_bits(LOWEST_PRE_GAIN_DB),
                Single::from_bits(HIGHEST_PRE_GAIN_DB),
            ),
            peak_release_ms: clamp_integer(
                self.peak_release_ms,
                SHORTEST_PEAK_RELEASE_MS,
                LONGEST_PEAK_RELEASE_MS,
            ),
        }
    }
}

impl Default for LimiterParams {
    fn default() -> (params: LimiterParams)
        ensures
            params == LimiterParams::initial(),
    {
        LimiterParams {
            threshold_db: Single::from_bits(DEFAULT_THRESHOLD_DB),
            attack_ms: DEFAULT_ATTACK_MS,
            release_ms: DEFAULT_RELEASE_MS,
            pre_gain_db: Single::from_bits(DEFAULT_PRE_GAIN_DB),
            peak_release_ms: DEFAULT_PEAK_RELEASE_MS,
        }
    }
}

/// Everything that is kept between two runs of the program.
#[derive(Clone, Debug)]
pub struct Config {
    pub threshold_db: Single,
    pub attack_ms: u32,
    pub release_ms: u32,
    pub pre_gain_db: Single,
    pub peak_release_ms: u32,
    pub target_input_device_id: Option<String>,
    pub target_output_device_id: Option<String>,
    pub crosshair_enabled: bool,
    pub crosshair_color: u32,
    pub crosshair_size: u32,
}

/// What a configuration file held: a setting that the file does not mention is `None`.
#[derive(Clone, Debug)]
pub struct StoredConfig {
    pub threshold_db: Option<Single>,
    pub attack_ms: Option<u32>,
    pub release_ms: Option<u32>,
    pub pre_gain_db: Option<Single>,
    pub peak_release_ms: Option<u32>,
    pub target_input_device_id: Option<String>,
    pub target_output_device_id: Option<String>,
    pub crosshair_enabled: Option<bool>,
    pub crosshair_color: Option<u32>,
    pub crosshair_size: Option<u32>,
}

/// The value of an option, or `fallback` where it has none.
pub open spec fn given_or<T>(value: Option<T>, fallback: T) -> T {
    match value {
        Some(given) => given,
        None => fallback,
    }
}

impl Config {
    /// The configuration in force before anything was chosen.
    pub open spec fn initial() -> Config {
        Config {
            threshold_db: single(DEFAULT_THRESHOLD_DB),
            attack_ms: DEFAULT_ATTACK_MS,
            release_ms: DEFAULT_RELEASE_MS,
            pre_gain_db: single(DEFAULT_PRE_GAIN_DB),
            peak_release_ms: DEFAULT_PEAK_RELEASE_MS,
            target_input_device_id: None,
            target_output_device_id: None,
            crosshair_enabled: DEFAULT_CROSSHAIR_ENABLED,
            crosshair_color: DEFAULT_CROSSHAIR_COLOR,
            crosshair_size: DEFAULT_CROSSHAIR_SIZE,
        }
    }

    /// The configuration with the limiter settings `params` in place of its own.
    pub open spec fn with_params(self, params: LimiterParams) -> Config {
        Config {
            threshold_db: params.threshold_db,
            attack_ms: params.attack_ms,
            release_ms: params.release_ms,
            pre_gain_db: params.pre_gain_db,
            peak_release_ms: params.peak_release_ms,
            ..self
        }
    }

    /// The configuration with every setting brought into its range; devices and the
    /// crosshair switch are kept.
    pub open spec fn cleaned(self) -> Config {
        Config {
            crosshair_color: (self.crosshair_color % COLOR_COUNT) as u32,
            crosshair_size: within(self.crosshair_size, SMALLEST_CROSSHAIR, LARGEST_CROSSHAIR),
            ..self.with_params(LimiterParams::held_by(&self).cleaned())
        }
    }

    /// Whether every setting is in its range.
    pub open spec fn usable(self) -> bool {
        &&& LimiterParams::held_by(&self).usable()
        &&& self.crosshair_color < COLOR_COUNT
        &&& SMALLEST_CROSSHAIR <= self.crosshair_size <= LARGEST_CROSSHAIR
    }

    /// The configuration that a file stands for: what it does not mention has its default.
    pub open spec fn completed(stored: StoredConfig) -> Config {
        Config {
            threshold_db: given_or(stored.threshold_db, single(DEFAULT_THRESHOLD_DB)),
            attack_ms: given_or(stored.attack_ms, DEFAULT_ATTACK_MS),
            release_ms: given_or(stored.release_ms, DEFAULT_RELEASE_MS),
            pre_gain_db: given_or(stored.pre_gain_db, single(DEFAULT_PRE_GAIN_DB)),
            peak_release_ms: given_or(stored.peak_release_ms, DEFAULT_PEAK_RELEASE_MS),
            target_input_device_id: stored.target_input_device_id,
            target_output_device_id: stored.target_output_device_id,
            crosshair_enabled: given_or(stored.crosshair_enabled, DEFAULT_CROSSHAIR_ENABLED),
            crosshair_color: given_or(stored.crosshair_color, DEFAULT_CROSSHAIR_COLOR),
            crosshair_size: given_or(stored.crosshair_size, DEFAULT_CROSSHAIR_SIZE),
        }
    }

    /// The content of a file that mentions every setting of the configuration.
    pub open spec fn stored(self) -> StoredConfig {
        StoredConfig {
            threshold_db: Some(self.threshold_db),
            attack_ms: Some(self.attack_ms),
            release_ms: Some(self.release_ms),
            pre_gain_db: Some(self.pre_gain_db),
            peak_release_ms: Some(self.peak_release_ms),
            target_input_device_id: self.target_input_device_id,
            target_output_device_id: self.target_output_device_id,
            crosshair_enabled: Some(self.crosshair_enabled),
            crosshair_color: Some(self.crosshair_color),
            crosshair_size: Some(self.crosshair_size),
        }
    }

    /// Fills in the defaults for what a configuration file does not mention.
    pub fn from_stored(stored: StoredConfig) -> (config: Config)
        ensures
            config == Config::completed(stored),
    {
        Config {
            threshold_db: stored.threshold_db.unwrap_or(Single::from_bits(DEFAULT_THRESHOLD_DB)),
            attack_ms: stored.attack_ms.unwrap_or(DEFAULT_ATTACK_MS),
            release_ms: stored.release_ms.unwrap_or(DEFAULT_RELEASE_MS),
            pre_gain_db: stored.pre_gain_db.unwrap_or(Single::from_bits(DEFAULT_PRE_GAIN_DB)),
            peak_release_ms: stored.peak_release_ms.unwrap_or(DEFAULT_PEAK_RELEASE_MS),
            target_input_device_id: stored.target_input_device_id,
            target_output_device_id: stored.target_output_device_id,
            crosshair_enabled: stored.crosshair_enabled.unwrap_or(DEFAULT_CROSSHAIR_ENABLED),
            crosshair_color: stored.crosshair_color.unwrap_or(DEFAULT_CROSSHAIR_COLOR),
            crosshair_size: stored.crosshair_size.unwrap_or(DEFAULT_CROSSHAIR_SIZE),
        }
    }

    /// The configuration to start with. `stored` is `None` where there is no file or
    /// where the file cannot be understood.
    pub fn load(stored: Option<StoredConfig>) -> (config: Config)
        ensures
            config == (match stored {
                Some(stored) => Config::completed(stored).cleaned(),
                None => Config::initial(),
            }),
            config.usable(),
    {
        proof {
            law_defaults_are_usable();
        }
        let mut config = match stored {
            Some(stored) => Config::from_stored(stored),
            None => Config::default(),
        };
        let ghost read = config;
        config.sanitize();
        proof {
            law_cleaning_makes_usable(read);
        }
        config
    }

    /// The configuration as it goes to the file: every setting in its range.
    pub fn save(&self) -> (config: Config)
        ensures
            config == self.cleaned(),
    {
        let mut config = Config {
            threshold_db: self.threshold_db,
            attack_ms: self.attack_ms,
            release_ms: self.release_ms,
            pre_gain_db: self.pre_gain_db,
            peak_release_ms: self.peak_release_ms,
            target_input_device_id: copy_of(&self.target_input_device_id),
            target_output_device_id: copy_of(&self.target_output_device_id),
            crosshair_enabled: self.crosshair_enabled,
            crosshair_color: self.crosshair_color,
            crosshair_size: self.crosshair_size,
        };
        config.sanitize();
        config
    }

    /// The usable limiter settings nearest to those of the configuration.
    pub fn limiter_params(&self) -> (params: LimiterParams)
        ensures
            params == LimiterParams::held_by(self).cleaned(),
    {
        LimiterParams::from_config(self)
    }

    /// Brings every setting into its range.
    pub fn sanitize(&mut self)
        ensures
            *final(self) == old(self).cleaned(),
    {
        let params = self.limiter_params();
        self.threshold_db = params.threshold_db;
        self.attack_ms = params.attack_ms;
        self.release_ms = params.release_ms;
        self.pre_gain_db = params.pre_gain_db;
        self.peak_release_ms = params.peak_release_ms;
        self.crosshair_color = self.crosshair_color % COLOR_COUNT;
        self.crosshair_size =
        clamp_integer(self.crosshair_size, SMALLEST_CROSSHAIR, LARGEST_CROSSHAIR);
    }
}

impl Default for Config {
    fn default() -> (config: Config)
        ensures
            config == Config::initial(),
    {
        Config {
            threshold_db: Single::from_bits(DEFAULT_THRESHOLD_DB),
            attack_ms: DEFAULT_ATTACK_MS,
            release_ms: DEFAULT_RELEASE_MS,
            pre_gain_db: Single::from_bits(DEFAULT_PRE_GAIN_DB),
            peak_release_ms: DEFAULT_PEAK_RELEASE_MS,
            target_input_device_id: None,
            target_output_device_id: None,
            crosshair_enabled: DEFAULT_CROSSHAIR_ENABLED,
            crosshair_color: DEFAULT_CROSSHAIR_COLOR,
            crosshair_size: DEFAULT_CROSSHAIR_SIZE,
        }
    }
}

/// A copy of an optional text.
pub fn copy_of(text: &Option<String>) -> (copy: Option<String>)
    ensures
        copy == *text,
{
    match text {
        Some(text) => Some(text.clone()),
        None => None,
    }
}

/// Settings that were brought into their ranges are usable, and usable settings are
/// left as they are.
pub proof fn law_cleaning_params(params: LimiterParams)
    ensures
        params.cleaned().usable(),
        params.usable() ==> params.cleaned() == params,
        params.cleaned().cleaned() == params.cleaned(),
{
}

/// A configuration that was brought into range is usable, a usable one is left as it
/// is, and neither the devices nor the crosshair switch are touched.
pub proof fn law_cleaning_makes_usable(config: Config)
    ensures
        config.cleaned().usable(),
        config.usable() ==> config.cleaned() == config,
        config.cleaned().cleaned() == config.cleaned(),
        config.cleaned().target_input_device_id == config.target_input_device_id,
        config.cleaned().target_output_device_id == config.target_output_device_id,
        config.cleaned().crosshair_enabled == config.crosshair_enabled,
{
    law_cleaning_params(LimiterParams::held_by(&config));
}

/// The defaults are in range.
pub proof fn law_defaults_are_usable()
    ensures
        Config::initial().usable(),
        LimiterParams::initial().usable(),
{
}

/// A configuration that was saved is the one that is loaded next.
pub proof fn law_saved_config_is_loaded(config: Config)
    ensures
        Config::completed(config.cleaned().stored()).cleaned() == config.cleaned(),
{
    law_cleaning_makes_usable(config);
}

/// What is loaded comes from the entry of its own name, where the file mentions it and it is in
/// range: times from 1 to 300 milliseconds, the release of the peak from 20 to 150, a crosshair
/// from 4 to 60 pixels in a colour of three bytes, decibels within their ranges, any device and
/// either position of the switch.
pub proof fn law_entries_are_loaded_under_their_names(stored: StoredConfig)
    ensures
        ({
            let config = Config::completed(stored).cleaned();
            &&& stored.attack_ms matches Some(ms) ==> 1 <= ms <= 300 ==> config.attack_ms == ms
            &&& stored.release_ms matches Some(ms) ==> 1 <= ms <= 300 ==> config.release_ms == ms
            &&& stored.peak_release_ms matches Some(ms) ==> 20 <= ms <= 150
                ==> config.peak_release_ms == ms
            &&& stored.crosshair_size matches Some(size) ==> 4 <= size <= 60
                ==> config.crosshair_size == size
            &&& stored.crosshair_color matches Some(color) ==> color < 0x100_0000
                ==> config.crosshair_color == color
            &&& stored.crosshair_enabled matches Some(enabled) ==> config.crosshair_enabled
                == enabled
            &&& stored.threshold_db matches Some(db) ==> single(0xc270_0000).at_most(db)
                && db.at_most(single(0)) ==> config.threshold_db == db
            &&& stored.pre_gain_db matches Some(db) ==> single(0).at_most(db) && db.at_most(
                single(0x4140_0000),
            ) ==> config.pre_gain_db == db
            &&& config.target_input_device_id == stored.target_input_device_id
            &&& config.target_output_device_id == stored.target_output_device_id
        }),
{
}

/// What the file does not mention has its default, whatever else it mentions: -16 decibels, an
/// attack of 10 milliseconds, a release of 50, a pre-gain of 6 decibels, a release of the peak of
/// 50, and a crosshair that is off, 18 pixels across and blue.
pub proof fn law_missing_entries_have_their_defaults(stored: StoredConfig)
    ensures
        ({
            let config = Config::completed(stored).cleaned();
            &&& stored.threshold_db is None ==> config.threshold_db == single(0xc180_0000)
            &&& stored.attack_ms is None ==> config.attack_ms == 10
            &&& stored.release_ms is None ==> config.release_ms == 50
            &&& stored.pre_gain_db is None ==> config.pre_gain_db == single(0x40c0_0000)
            &&& stored.peak_release_ms is None ==> config.peak_release_ms == 50
            &&& stored.crosshair_enabled is None ==> !config.crosshair_enabled
            &&& stored.crosshair_color is None ==> config.crosshair_color == 0x0078FF
            &&& stored.crosshair_size is None ==> config.crosshair_size == 18
        }),
        ({
            let config = Config::initial();
            &&& config.threshold_db == single(0xc180_0000)
            &&& config.attack_ms == 10
            &&& config.release_ms == 50
            &&& config.pre_gain_db == single(0x40c0_0000)
            &&& config.peak_release_ms == 50
            &&& config.target_input_device_id is None
            &&& config.target_output_device_id is None
            &&& !config.crosshair_enabled
            &&& config.crosshair_color == 0x0078FF
            &&& config.crosshair_size == 18
        }),
{
}

/// Bringing a setting into range moves it no further than it has to: no setting in range is
/// nearer to what was given. Decibels beyond an end of their range go to that end, and those that
/// are no finite number to their default.
pub proof fn law_cleaning_goes_to_the_nearest(config: Config, other: u32)
    ensures
        ({
            let clean = config.cleaned();
            let farther = |given: u32, kept: u32, other: u32|
                if given <= kept {
                    kept - given <= other - given || other < given
                } else {
                    given - kept <= given - other || other > given
                };
            &&& 1 <= other <= 300 ==> farther(config.attack_ms, clean.attack_ms, other)
            &&& 1 <= other <= 300 ==> farther(config.release_ms, clean.release_ms, other)
            &&& 20 <= other <= 150 ==> farther(
                config.peak_release_ms,
                clean.peak_release_ms,
                other,
            )
            &&& 4 <= other <= 60 ==> farther(config.crosshair_size, clean.crosshair_size, other)
            &&& clean.crosshair_color == config.crosshair_color % 0x100_0000
            &&& config.threshold_db.below(single(0xc270_0000)) && config.threshold_db.finite()
                ==> clean.threshold_db == single(0xc270_0000)
            &&& single(0).below(config.threshold_db) && config.threshold_db.finite()
                ==> clean.threshold_db == single(0)
            &&& !config.threshold_db.finite() ==> clean.threshold_db == single(0xc180_0000)
            &&& config.pre_gain_db.below(single(0)) && config.pre_gain_db.finite()
                ==> clean.pre_gain_db == single(0)
            &&& single(0x4140_0000).below(config.pre_gain_db) && config.pre_gain_db.finite()
                ==> clean.pre_gain_db == single(0x4140_0000)
            &&& !config.pre_gain_db.finite() ==> clean.pre_gain_db == single(0x40c0_0000)
        }),
{
}

/// The limiter runs on the settings of the configuration that have their names, as they are where
/// they are usable.
pub proof fn law_limiter_runs_on_the_configured_settings(config: Config)
    requires
        config.usable(),
    ensures
        ({
            let params = LimiterParams::held_by(&config).cleaned();
            &&& params.threshold_db == config.threshold_db
            &&& params.attack_ms == config.attack_ms
            &&& params.release_ms == config.release_ms
            &&& params.pre_gain_db == config.pre_gain_db
            &&& params.peak_release_ms == config.peak_release_ms
        }),
{
    law_cleaning_params(LimiterParams::held_by(&config));
}

/// What goes to the file stands there under its own name.
pub proof fn law_file_mentions_every_setting(config: Config)
    ensures
        config.stored().threshold_db == Some(config.threshold_db),
        config.stored().attack_ms == Some(config.attack_ms),
        config.stored().release_ms == Some(config.release_ms),
        config.stored().pre_gain_db == Some(config.pre_gain_db),
        config.stored().peak_release_ms == Some(config.peak_release_ms),
        config.stored().target_input_device_id == config.target_input_device_id,
        config.stored().target_output_device_id == config.target_output_device_id,
        config.stored().crosshair_enabled == Some(config.crosshair_enabled),
        config.stored().crosshair_color == Some(config.crosshair_color),
        config.stored().crosshair_size == Some(config.crosshair_size),
{
}

} // verus!
