//! The settings of the two modes.

use vstd::prelude::*;

use crate::single::Single;

verus! {

#[derive(Clone, Copy, Debug, PartialEq, Eq, Structural)]
pub enum OperationMode {
    /// One program's volume, through the system's mixer.
    WindowsAPI,
    /// Everything that goes through a virtual sound card.
    Cable,
}

#[derive(Clone, Debug)]
pub struct Config {
    pub threshold_db: Single,
    pub attack_ms: u32,
    pub release_ms: u32,
    pub crossover_freq: Single,
    pub operation_mode: OperationMode,
    pub target_pid: Option<u32>,
    pub scan_interval_ms: u32,
    pub volume_change_percentage_threshold: Single,
    pub target_input_device_id: Option<String>,
    pub target_output_device_id: Option<String>,
}

/// What trying to get at something that is shared came to.
#[derive(Clone, Copy, Debug, PartialEq, Eq, Structural)]
pub enum Access<T> {
    Granted(T),
    /// Somebody else is at it.
    Busy,
    /// Somebody panicked while at it.
    Poisoned,
}

/// The four settings that the limiter runs on.
#[derive(Clone, Copy, Debug, PartialEq, Eq, Structural)]
pub struct Tuning {
    pub threshold_db: Single,
    pub attack_ms: u32,
    pub release_ms: u32,
    pub crossover_freq: Single,
}

impl Config {
    pub open spec fn tuning(&self) -> Tuning {
        Tuning {
            threshold_db: self.threshold_db,
            attack_ms: self.attack_ms,
            release_ms: self.release_ms,
            crossover_freq: self.crossover_freq,
        }
    }

    pub fn limiter_tuning(&self) -> (tuning: Tuning)
        ensures
            tuning == self.tuning(),
    {
        Tuning {
            threshold_db: self.threshold_db,
            attack_ms: self.attack_ms,
            release_ms: self.release_ms,
            crossover_freq: self.crossover_freq,
        }
    }
}

/// The limiter is tuned by the settings of these names.
pub proof fn law_tuning_takes_its_own_settings(config: Config)
    ensures
        config.tuning().threshold_db == config.threshold_db,
        config.tuning().attack_ms == config.attack_ms,
        config.tuning().release_ms == config.release_ms,
        config.tuning().crossover_freq == config.crossover_freq,
{
}

} // verus!
