//! The channel on which the settings window hands limiter settings to the audio callback.
//!
//! A writer makes the version odd, stores the five settings one by one, and makes the
//! version even again. A reader that finds the version even, loads the five settings and
//! finds the same version again holds settings that were published together. Neither
//! waits for the other. Writer and reader are given as sequences of single accesses, so
//! that a host can carry out each access on shared memory; the same sequences, carried
//! out in one go, make up the plain operations of [`RuntimeLimiterParams`].

use vstd::prelude::*;

use crate::config::{Config, LimiterParams};
use crate::single::{single, Single};

verus! {

/// The cells that writer and readers share.
#[derive(Clone, Copy, Debug, PartialEq, Eq, Structural)]
pub struct RuntimeLimiterParams {
    pub threshold_db_bits: u32,
    pub attack_ms: u32,
    pub release_ms: u32,
    pub pre_gain_db_bits: u32,
    pub peak_release_ms: u32,
    pub parameter_version: u64,
}

/// A cell that can be loaded.
#[derive(Clone, Copy, Debug, PartialEq, Eq, Structural)]
pub enum ParamCell {
    Version,
    Threshold,
    Attack,
    Release,
    PreGain,
    PeakRelease,
}

/// A change to one cell.
#[derive(Clone, Copy, Debug, PartialEq, Eq, Structural)]
pub enum ParamWrite {
    /// Adds one to the version, starting over after the largest one.
    AdvanceVersion,
    Threshold(u32),
    Attack(u32),
    Release(u32),
    PreGain(u32),
    PeakRelease(u32),
}

/// The version that follows `version`.
pub open spec fn version_after(version: u64) -> u64 {
    if version == u64::MAX {
        0
    } else {
        (version + 1) as u64
    }
}

impl RuntimeLimiterParams {
    /// The settings that the cells hold.
    pub open spec fn params(self) -> LimiterParams {
        LimiterParams {
            threshold_db: single(self.threshold_db_bits),
            attack_ms: self.attack_ms,
            release_ms: self.release_ms,
            pre_gain_db: single(self.pre_gain_db_bits),
            peak_release_ms: self.peak_release_ms,
        }
    }

    /// The content of a cell.
    pub open spec fn content(self, cell: ParamCell) -> u64 {
        match cell {
            ParamCell::Version => self.parameter_version,
            ParamCell::Threshold => self.threshold_db_bits as u64,
            ParamCell::Attack => self.attack_ms as u64,
            ParamCell::Release => self.release_ms as u64,
            ParamCell::PreGain => self.pre_gain_db_bits as u64,
            ParamCell::PeakRelease => self.peak_release_ms as u64,
        }
    }

    /// The cells after a change.
    pub open spec fn written(self, write: ParamWrite) -> RuntimeLimiterParams {
        match write {
            ParamWrite::AdvanceVersion => RuntimeLimiterParams {
                parameter_version: version_after(self.parameter_version),
                ..self
            },
            ParamWrite::Threshold(bits) => RuntimeLimiterParams { threshold_db_bits: bits, ..self },
            ParamWrite::Attack(ms) => RuntimeLimiterParams { attack_ms: ms, ..self },
            ParamWrite::Release(ms) => RuntimeLimiterParams { release_ms: ms, ..self },
            ParamWrite::PreGain(bits) => RuntimeLimiterParams { pre_gain_db_bits: bits, ..self },
            ParamWrite::PeakRelease(ms) => RuntimeLimiterParams { peak_release_ms: ms, ..self },
        }
    }

    /// The cells after a whole publication of usable settings.
    pub open spec fn published(self, params: LimiterParams) -> RuntimeLimiterParams {
        RuntimeLimiterParams {
            threshold_db_bits: params.threshold_db.bits,
            attack_ms: params.attack_ms,
            release_ms: params.release_ms,
            pre_gain_db_bits: params.pre_gain_db.bits,
            peak_release_ms: params.peak_release_ms,
            parameter_version: version_after(version_after(self.parameter_version)),
        }
    }

    /// The cells before the first publication.
    pub open spec fn started_with(params: LimiterParams) -> RuntimeLimiterParams {
        RuntimeLimiterParams {
            threshold_db_bits: params.threshold_db.bits,
            attack_ms: params.attack_ms,
            release_ms: params.release_ms,
            pre_gain_db_bits: params.pre_gain_db.bits,
            peak_release_ms: params.peak_release_ms,
            parameter_version: 0,
        }
    }

    /// No publication is under way.
    pub open spec fn stable(self) -> bool {
        self.parameter_version % 2 == 0
    }

    pub fn new(config: &Config) -> (cells: RuntimeLimiterParams)
        ensures
            cells == RuntimeLimiterParams::started_with(LimiterParams::held_by(config).cleaned()),
    {
        proof {
            crate::config::law_cleaning_params(LimiterParams::held_by(config));
        }
        RuntimeLimiterParams::from_params(LimiterParams::from_config(config))
    }

    pub fn from_params(params: LimiterParams) -> (cells: RuntimeLimiterParams)
        ensures
            cells == RuntimeLimiterParams::started_with(params.cleaned()),
    {
        let params = params.sanitized();
        RuntimeLimiterParams {
            threshold_db_bits: params.threshold_db.to_bits(),
            attack_ms: params.attack_ms,
            release_ms: params.release_ms,
            pre_gain_db_bits: params.pre_gain_db.to_bits(),
            peak_release_ms: params.peak_release_ms,
            parameter_version: 0,
        }
    }

    /// Loads one cell.
    pub fn load(&self, cell: ParamCell) -> (value: u64)
        ensures
            value == self.content(cell),
    {
        match cell {
            ParamCell::Version => self.parameter_version,
            ParamCell::Threshold => self.threshold_db_bits as u64,
            ParamCell::Attack => self.attack_ms as u64,
            ParamCell::Release => self.release_ms as u64,
            ParamCell::PreGain => self.pre_gain_db_bits as u64,
            ParamCell::PeakRelease => self.peak_release_ms as u64,
        }
    }

    /// Changes one cell.
    pub fn write(&mut self, write: ParamWrite)
        ensures
            *final(self) == old(self).written(write),
    {
        match write {
            ParamWrite::AdvanceVersion => {
                self.parameter_version = if self.parameter_version == u64::MAX {
                    0
                } else {
                    self.parameter_version + 1
                };
            },
            ParamWrite::Threshold(bits) => {
                self.threshold_db_bits = bits;
            },
            ParamWrite::Attack(ms) => {
                self.attack_ms = ms;
            },
            ParamWrite::Release(ms) => {
                self.release_ms = ms;
            },
            ParamWrite::PreGain(bits) => {
                self.pre_gain_db_bits = bits;
            },
            ParamWrite::PeakRelease(ms) => {
                self.peak_release_ms = ms;
            },
        }
    }

    /// Publishes the usable settings nearest to those of `config`.
    pub fn publish_config(&mut self, config: &Config)
        ensures
            *final(self) == old(self).published(LimiterParams::held_by(config).cleaned()),
    {
        proof {
            crate::config::law_cleaning_params(LimiterParams::held_by(config));
        }
        self.publish(LimiterParams::from_config(config));
    }

    /// Publishes the usable settings nearest to `params`.
    pub fn publish(&mut self, params: LimiterParams)
        ensures
            *final(self) == old(self).published(params.cleaned()),
    {
        let mut publication = Publication::new(params);
        let ghost start = *self;
        loop
            invariant
                publication.params == params.cleaned(),
                publication.stage <= 7,
                *self == start.partly_published(publication),
            ensures
                publication.stage == 7,
            decreases 7 - publication.stage,
        {
            match publication.next_write() {
                Some(write) => {
                    self.write(write);
                    publication.advance();
                },
                None => {
                    break;
                },
            }
        }
    }

    /// The cells after the writes that `publication` has made so far.
    pub open spec fn partly_published(self, publication: Publication) -> RuntimeLimiterParams {
        let params = publication.params;
        RuntimeLimiterParams {
            threshold_db_bits: if publication.stage > 1 {
                params.threshold_db.bits
            } else {
                self.threshold_db_bits
            },
            attack_ms: if publication.stage > 2 {
                params.attack_ms
            } else {
                self.attack_ms
            },
            release_ms: if publication.stage > 3 {
                params.release_ms
            } else {
                self.release_ms
            },
            pre_gain_db_bits: if publication.stage > 4 {
                params.pre_gain_db.bits
            } else {
                self.pre_gain_db_bits
            },
            peak_release_ms: if publication.stage > 5 {
                params.peak_release_ms
            } else {
                self.peak_release_ms
            },
            parameter_version: if publication.stage == 0 {
                self.parameter_version
            } else if publication.stage < 7 {
                version_after(self.parameter_version)
            } else {
                version_after(version_after(self.parameter_version))
            },
        }
    }

    /// The settings, where a publication has completed since `last_version` and none is
    /// under way. `last_version` then becomes their version.
    pub fn load_if_changed(&self, last_version: &mut u64) -> (params: Option<LimiterParams>)
        ensures
            self.stable() && self.parameter_version != *old(last_version) ==> {
                &&& params == Some(self.params().cleaned())
                &&& *final(last_version) == self.parameter_version
            },
            !self.stable() || self.parameter_version == *old(last_version) ==> {
                &&& params is None
                &&& *final(last_version) == *old(last_version)
            },
    {
        let mut read = StableRead::unless_version(*last_version);
        self.carry_out(&mut read);
        match read.outcome() {
            Some((version, params)) => {
                *last_version = version;
                Some(params)
            },
            None => None,
        }
    }

    /// The settings in force.
    pub fn snapshot(&self) -> (params: LimiterParams)
        requires
            self.stable(),
        ensures
            params == self.params().cleaned(),
    {
        let mut read = StableRead::any_version();
        self.carry_out(&mut read);
        match read.outcome() {
            Some((_, params)) => params,
            None => self.load_relaxed().sanitized(),
        }
    }

    /// The content of the five setting cells.
    fn load_relaxed(&self) -> (params: LimiterParams)
        ensures
            params == self.params(),
    {
        LimiterParams {
            threshold_db: Single::from_bits(self.threshold_db_bits),
            attack_ms: self.attack_ms,
            release_ms: self.release_ms,
            pre_gain_db: Single::from_bits(self.pre_gain_db_bits),
            peak_release_ms: self.peak_release_ms,
        }
    }

    /// Makes all the loads of a read that has not begun.
    fn carry_out(&self, read: &mut StableRead)
        requires
            old(read).stage == 0,
        ensures
            final(read).stage == DONE,
            final(read).unless == old(read).unless,
            self.stable() && old(read).unless != Some(self.parameter_version) ==> {
                &&& final(read).succeeded
                &&& final(read).version == self.parameter_version
                &&& final(read).raw == self.params()
            },
            !self.stable() || old(read).unless == Some(self.parameter_version)
                ==> !final(read).succeeded,
    {
        let ghost unless = read.unless;
        loop
            invariant
                read.unless == unless,
                read.stage <= DONE,
                0 < read.stage < DONE ==> {
                    &&& self.stable()
                    &&& unless != Some(self.parameter_version)
                    &&& read.version == self.parameter_version
                    &&& read.agrees_with(self.params())
                },
                read.stage == DONE && read.succeeded ==> {
                    &&& self.stable()
                    &&& unless != Some(self.parameter_version)
                    &&& read.version == self.parameter_version
                    &&& read.raw == self.params()
                },
                read.stage == DONE && !read.succeeded ==> !self.stable() || unless == Some(
                    self.parameter_version,
                ),
            ensures
                read.stage == DONE,
            decreases DONE - read.stage,
        {
            match read.next_load() {
                Some(cell) => {
                    let value: u64 = self.load(cell);
                    read.resume(value);
                },
                None => {
                    break;
                },
            }
        }
    }

    /// How many times the version has been advanced.
    pub fn version(&self) -> (version: u64)
        ensures
            version == self.parameter_version,
    {
        self.parameter_version
    }
}

/// A writer at work: the writes of one publication, in order.
#[derive(Clone, Copy, Debug, PartialEq, Eq, Structural)]
pub struct Publication {
    /// What is published.
    pub params: LimiterParams,
    /// How many of the seven writes have been made.
    pub stage: u8,
}

impl Publication {
    /// The next write, if one is left.
    pub open spec fn upcoming(self) -> Option<ParamWrite> {
        if self.stage == 0 || self.stage == 6 {
            Some(ParamWrite::AdvanceVersion)
        } else if self.stage == 1 {
            Some(ParamWrite::Threshold(self.params.threshold_db.bits))
        } else if self.stage == 2 {
            Some(ParamWrite::Attack(self.params.attack_ms))
        } else if self.stage == 3 {
            Some(ParamWrite::Release(self.params.release_ms))
        } else if self.stage == 4 {
            Some(ParamWrite::PreGain(self.params.pre_gain_db.bits))
        } else if self.stage == 5 {
            Some(ParamWrite::PeakRelease(self.params.peak_release_ms))
        } else {
            None
        }
    }

    /// The writer after its next write.
    pub open spec fn advanced(self) -> Publication {
        if self.stage < 7 {
            Publication { stage: (self.stage + 1) as u8, ..self }
        } else {
            self
        }
    }

    /// A writer that is to publish the usable settings nearest to `params`.
    pub fn new(params: LimiterParams) -> (publication: Publication)
        ensures
            publication == (Publication { params: params.cleaned(), stage: 0 }),
    {
        Publication { params: params.sanitized(), stage: 0 }
    }

    pub fn next_write(&self) -> (write: Option<ParamWrite>)
        ensures
            write == self.upcoming(),
    {
        if self.stage == 0 || self.stage == 6 {
            Some(ParamWrite::AdvanceVersion)
        } else if self.stage == 1 {
            Some(ParamWrite::Threshold(self.params.threshold_db.to_bits()))
        } else if self.stage == 2 {
            Some(ParamWrite::Attack(self.params.attack_ms))
        } else if self.stage == 3 {
            Some(ParamWrite::Release(self.params.release_ms))
        } else if self.stage == 4 {
            Some(ParamWrite::PreGain(self.params.pre_gain_db.to_bits()))
        } else if self.stage == 5 {
            Some(ParamWrite::PeakRelease(self.params.peak_release_ms))
        } else {
            None
        }
    }

    /// Records that the write last asked for has been made.
    pub fn advance(&mut self)
        ensures
            *final(self) == old(self).advanced(),
    {
        if self.stage < 7 {
            self.stage = self.stage + 1;
        }
    }
}

/// The stage at which a read is over.
pub const DONE: u8 = 7;

/// A reader at work: the loads of one attempt to read the settings, in order.
#[derive(Clone, Copy, Debug, PartialEq, Eq, Structural)]
pub struct StableRead {
    /// The version that the reader already knows.
    pub unless: Option<u64>,
    /// How many of the seven loads have been made, or that no more are to follow.
    pub stage: u8,
    /// The version that the first load gave.
    pub version: u64,
    /// The settings loaded so far.
    pub raw: LimiterParams,
    /// Whether the settings were loaded under one version.
    pub succeeded: bool,
}

impl StableRead {
    /// The next cell to load, if the read is not over.
    pub open spec fn upcoming(self) -> Option<ParamCell> {
        if self.stage == 0 || self.stage == 6 {
            Some(ParamCell::Version)
        } else if self.stage == 1 {
            Some(ParamCell::Threshold)
        } else if self.stage == 2 {
            Some(ParamCell::Attack)
        } else if self.stage == 3 {
            Some(ParamCell::Release)
        } else if self.stage == 4 {
            Some(ParamCell::PreGain)
        } else if self.stage == 5 {
            Some(ParamCell::PeakRelease)
        } else {
            None
        }
    }

    /// Whether the settings loaded so far are those of `params`.
    pub open spec fn agrees_with(self, params: LimiterParams) -> bool {
        &&& self.stage > 1 ==> self.raw.threshold_db == params.threshold_db
        &&& self.stage > 2 ==> self.raw.attack_ms == params.attack_ms
        &&& self.stage > 3 ==> self.raw.release_ms == params.release_ms
        &&& self.stage > 4 ==> self.raw.pre_gain_db == params.pre_gain_db
        &&& self.stage > 5 ==> self.raw.peak_release_ms == params.peak_release_ms
    }

    /// The reader after its next load gave `value`.
    pub open spec fn resumed(self, value: u64) -> StableRead {
        if self.stage == 0 {
            if value % 2 != 0 || self.unless == Some(value) {
                StableRead { stage: DONE, succeeded: false, ..self }
            } else {
                StableRead { stage: 1, version: value, ..self }
            }
        } else if self.stage == 1 {
            StableRead {
                stage: 2,
                raw: LimiterParams { threshold_db: single(value as u32), ..self.raw },
                ..self
            }
        } else if self.stage == 2 {
            StableRead {
                stage: 3,
                raw: LimiterParams { attack_ms: value as u32, ..self.raw },
                ..self
            }
        } else if self.stage == 3 {
            StableRead {
                stage: 4,
                raw: LimiterParams { release_ms: value as u32, ..self.raw },
                ..self
            }
        } else if self.stage == 4 {
            StableRead {
                stage: 5,
                raw: LimiterParams { pre_gain_db: single(value as u32), ..self.raw },
                ..self
            }
        } else if self.stage == 5 {
            StableRead {
                stage: 6,
                raw: LimiterParams { peak_release_ms: value as u32, ..self.raw },
                ..self
            }
        } else if self.stage == 6 {
            StableRead { stage: DONE, succeeded: value == self.version, ..self }
        } else {
            self
        }
    }

    /// A reader that has made no load yet.
    pub open spec fn fresh(unless: Option<u64>) -> StableRead {
        StableRead {
            unless,
            stage: 0,
            version: 0,
            raw: LimiterParams::initial(),
            succeeded: false,
        }
    }

    /// A reader that wants settings of another version than `version`.
    pub fn unless_version(version: u64) -> (read: StableRead)
        ensures
            read == StableRead::fresh(Some(version)),
    {
        StableRead {
            unless: Some(version),
            stage: 0,
            version: 0,
            raw: LimiterParams::default(),
            succeeded: false,
        }
    }

    /// A reader that wants settings of whatever version.
    pub fn any_version() -> (read: StableRead)
        ensures
            read == StableRead::fresh(None),
    {
        StableRead {
            unless: None,
            stage: 0,
            version: 0,
            raw: LimiterParams::default(),
            succeeded: false,
        }
    }

    pub fn next_load(&self) -> (cell: Option<ParamCell>)
        ensures
            cell == self.upcoming(),
    {
        if self.stage == 0 || self.stage == 6 {
            Some(ParamCell::Version)
        } else if self.stage == 1 {
            Some(ParamCell::Threshold)
        } else if self.stage == 2 {
            Some(ParamCell::Attack)
        } else if self.stage == 3 {
            Some(ParamCell::Release)
        } else if self.stage == 4 {
            Some(ParamCell::PreGain)
        } else if self.stage == 5 {
            Some(ParamCell::PeakRelease)
        } else {
            None
        }
    }

    /// Takes in what the load last asked for gave.
    pub fn resume(&mut self, value: u64)
        ensures
            *final(self) == old(self).resumed(value),
    {
        if self.stage == 0 {
            if value % 2 != 0 {
                self.succeeded = false;
                self.stage = DONE;
                return;
            }
            if let Some(known) = self.unless {
                if known == value {
                    self.succeeded = false;
                    self.stage = DONE;
                    return;
                }
            }
            self.version = value;
            self.stage = 1;
        } else if self.stage == 1 {
            self.raw.threshold_db = Single::from_bits(value as u32);
            self.stage = 2;
        } else if self.stage == 2 {
            self.raw.attack_ms = value as u32;
            self.stage = 3;
        } else if self.stage == 3 {
            self.raw.release_ms = value as u32;
            self.stage = 4;
        } else if self.stage == 4 {
            self.raw.pre_gain_db = Single::from_bits(value as u32);
            self.stage = 5;
        } else if self.stage == 5 {
            self.raw.peak_release_ms = value as u32;
            self.stage = 6;
        } else if self.stage == 6 {
            self.succeeded = value == self.version;
            self.stage = DONE;
        }
    }

    /// The settings that were read and their version, where the read succeeded.
    pub fn outcome(&self) -> (outcome: Option<(u64, LimiterParams)>)
        ensures
            outcome == (if self.stage == DONE && self.succeeded {
                Some((self.version, self.raw.cleaned()))
            } else {
                None
            }),
    {
        if self.stage == DONE && self.succeeded {
            Some((self.version, self.raw.sanitized()))
        } else {
            None
        }
    }
}

/// The shared cells with whoever works on them: one writer at most, as publications are
/// made one after the other, and one reader, as readers do not disturb one another.
pub struct ParamWorld {
    pub cells: RuntimeLimiterParams,
    pub writer: Option<Publication>,
    pub reader: StableRead,
    /// The settings of every publication that has begun its writes, and before them the
    /// settings that the cells started with.
    pub history: Seq<LimiterParams>,
}

impl ParamWorld {
    /// Nothing has happened yet.
    pub open spec fn starts(self, params: LimiterParams, unless: Option<u64>) -> bool {
        &&& self.cells == RuntimeLimiterParams::started_with(params.cleaned())
        &&& self.writer is None
        &&& self.reader == StableRead::fresh(unless)
        &&& self.history == seq![params.cleaned()]
    }

    /// One access, or the start or end of an attempt, leads from `self` to `next`.
    pub open spec fn leads_to(self, next: ParamWorld) -> bool {
        ||| self.writer_starts(next)
        ||| self.writer_writes(next)
        ||| self.writer_leaves(next)
        ||| self.reader_loads(next)
        ||| self.reader_starts_over(next)
    }

    pub open spec fn writer_starts(self, next: ParamWorld) -> bool {
        &&& self.writer is None
        &&& exists|params: LimiterParams|
            #![trigger params.cleaned()]
            next == (ParamWorld {
                writer: Some(Publication { params: params.cleaned(), stage: 0 }),
                ..self
            })
    }

    pub open spec fn writer_writes(self, next: ParamWorld) -> bool {
        &&& self.writer matches Some(writer)
        &&& writer.upcoming() matches Some(write)
        &&& next == (ParamWorld {
            cells: self.cells.written(write),
            writer: Some(writer.advanced()),
            history: if writer.stage == 0 {
                self.history.push(writer.params)
            } else {
                self.history
            },
            ..self
        })
    }

    pub open spec fn writer_leaves(self, next: ParamWorld) -> bool {
        &&& self.writer matches Some(writer)
        &&& writer.upcoming() is None
        &&& next == (ParamWorld { writer: None, ..self })
    }

    pub open spec fn reader_loads(self, next: ParamWorld) -> bool {
        &&& self.reader.upcoming() matches Some(cell)
        &&& next == (ParamWorld {
            reader: self.reader.resumed(self.cells.content(cell)),
            ..self
        })
    }

    pub open spec fn reader_starts_over(self, next: ParamWorld) -> bool {
        exists|unless: Option<u64>|
            #![trigger StableRead::fresh(unless)]
            next == (ParamWorld { reader: StableRead::fresh(unless), ..self })
    }

    /// The number of publications that have begun, as the version counts them.
    spec fn begun(self) -> int {
        self.history.len() - 1
    }

    spec fn writer_consistent(self) -> bool {
        let begun = self.begun();
        match self.writer {
            None => {
                &&& self.cells.parameter_version == 2 * begun
                &&& self.cells.params() == self.history[begun]
            },
            Some(writer) => {
                &&& writer.stage <= 7
                &&& writer.params == writer.params.cleaned()
                &&& writer.stage > 0 ==> begun > 0 && writer.params == self.history[begun]
                &&& if writer.stage == 0 || writer.stage == 7 {
                    &&& self.cells.parameter_version == 2 * begun
                    &&& self.cells.params() == self.history[begun]
                } else {
                    let old = self.history[begun - 1];
                    let new = self.history[begun];
                    let seen = self.cells.params();
                    &&& self.cells.parameter_version == 2 * begun - 1
                    &&& seen.threshold_db == if writer.stage > 1 {
                        new.threshold_db
                    } else {
                        old.threshold_db
                    }
                    &&& seen.attack_ms == if writer.stage > 2 {
                        new.attack_ms
                    } else {
                        old.attack_ms
                    }
                    &&& seen.release_ms == if writer.stage > 3 {
                        new.release_ms
                    } else {
                        old.release_ms
                    }
                    &&& seen.pre_gain_db == if writer.stage > 4 {
                        new.pre_gain_db
                    } else {
                        old.pre_gain_db
                    }
                    &&& seen.peak_release_ms == if writer.stage > 5 {
                        new.peak_release_ms
                    } else {
                        old.peak_release_ms
                    }
                }
            },
        }
    }

    spec fn reader_consistent(self) -> bool {
        let reader = self.reader;
        &&& reader.stage <= DONE
        &&& 0 < reader.stage < DONE ==> {
            &&& reader.version % 2 == 0
            &&& reader.unless != Some(reader.version)
            &&& reader.version <= self.cells.parameter_version
            &&& reader.version / 2 <= self.begun()
            &&& reader.version == self.cells.parameter_version ==> reader.agrees_with(
                self.history[reader.version as int / 2],
            )
        }
        &&& reader.stage == DONE && reader.succeeded ==> {
            &&& reader.version % 2 == 0
            &&& reader.unless != Some(reader.version)
            &&& reader.version / 2 <= self.begun()
            &&& reader.raw == self.history[reader.version as int / 2]
        }
    }

    spec fn consistent(self) -> bool {
        &&& self.history.len() > 0
        &&& forall|i: int|
            0 <= i < self.history.len() ==> (#[trigger] self.history[i]).cleaned()
                == self.history[i]
        &&& self.writer_consistent()
        &&& self.reader_consistent()
    }
}

/// A course of events: each world follows from the one before it, and the version does
/// not start over.
pub open spec fn param_course(worlds: Seq<ParamWorld>, params: LimiterParams, unless: Option<u64>) -> bool {
    &&& worlds.len() > 0
    &&& worlds[0].starts(params, unless)
    &&& forall|i: int|
        #![trigger worlds[i]]
        0 <= i < worlds.len() - 1 ==> worlds[i].leads_to(worlds[i + 1])
    &&& forall|i: int|
        0 <= i < worlds.len() ==> (#[trigger] worlds[i]).history.len() < 0x8000_0000_0000_0000
}

proof fn lemma_step_keeps_consistent(world: ParamWorld, next: ParamWorld)
    requires
        world.consistent(),
        world.leads_to(next),
        next.history.len() < 0x8000_0000_0000_0000,
    ensures
        next.consistent(),
{
    if world.writer_writes(next) {
        let writer = world.writer->0;
        assert(next.reader_consistent());
    } else if world.reader_loads(next) {
        let reader = world.reader;
        let cell = reader.upcoming()->0;
        let value = world.cells.content(cell);
        if reader.stage == 0 {
            if !(value % 2 != 0 || reader.unless == Some(value)) {
                assert(next.reader.version == world.cells.parameter_version);
                assert(next.reader_consistent());
            }
        } else if reader.stage == 6 {
            if value == reader.version {
                assert(reader.agrees_with(world.history[reader.version as int / 2]));
                assert(next.reader.raw == world.history[reader.version as int / 2]);
            }
        } else if reader.stage < 6 {
            if reader.version == world.cells.parameter_version {
                assert(world.cells.params() == world.history[world.begun()]);
                assert(reader.version as int / 2 == world.begun());
            }
            assert(next.reader_consistent());
        }
    } else if world.writer_starts(next) {
        let params = choose|params: LimiterParams|
            #![trigger params.cleaned()]
            next == (ParamWorld {
                writer: Some(Publication { params: params.cleaned(), stage: 0 }),
                ..world
            });
        crate::config::law_cleaning_params(params);
    }
}

proof fn lemma_course_is_consistent(
    worlds: Seq<ParamWorld>,
    params: LimiterParams,
    unless: Option<u64>,
    at: int,
)
    requires
        param_course(worlds, params, unless),
        0 <= at < worlds.len(),
    ensures
        worlds[at].consistent(),
    decreases at,
{
    if at == 0 {
        crate::config::law_cleaning_params(params);
    } else {
        lemma_course_is_consistent(worlds, params, unless, at - 1);
        assert(worlds[at - 1].leads_to(worlds[at]));
        lemma_step_keeps_consistent(worlds[at - 1], worlds[at]);
    }
}

/// However the accesses of the writer and of a reader fall between one another, a read
/// that succeeds gives the five settings of one publication, never parts of two, and they
/// are those of the publication that its version stands for. It never gives the version
/// that the reader already knew.
pub proof fn law_reads_are_never_torn(
    worlds: Seq<ParamWorld>,
    params: LimiterParams,
    unless: Option<u64>,
    at: int,
)
    requires
        param_course(worlds, params, unless),
        0 <= at < worlds.len(),
        worlds[at].reader.stage == DONE,
        worlds[at].reader.succeeded,
    ensures
        worlds[at].reader.version % 2 == 0,
        worlds[at].reader.version / 2 < worlds[at].history.len(),
        worlds[at].reader.raw == worlds[at].history[worlds[at].reader.version as int / 2],
        worlds[at].reader.raw.cleaned() == worlds[at].reader.raw,
        worlds[at].reader.unless != Some(worlds[at].reader.version),
{
    lemma_course_is_consistent(worlds, params, unless, at);
}

/// What was published is what the next read gives, under a version that is new to a
/// reader who knew the one before; a second read finds nothing new.
pub proof fn law_published_params_are_read_back(cells: RuntimeLimiterParams, params: LimiterParams)
    requires
        cells.stable(),
    ensures
        cells.published(params.cleaned()).stable(),
        cells.published(params.cleaned()).params().cleaned() == params.cleaned(),
        cells.published(params.cleaned()).parameter_version != cells.parameter_version,
{
    crate::config::law_cleaning_params(params);
}

/// Published settings stand in the cells of their names, as their bits, and a new version stands
/// beside them, two further on; a cell is loaded as it was written, and a write changes no other
/// cell.
pub proof fn law_cells_hold_what_was_published(
    cells: RuntimeLimiterParams,
    params: LimiterParams,
    bits: u32,
)
    ensures
        cells.published(params).content(ParamCell::Threshold) == params.threshold_db.bits,
        cells.published(params).content(ParamCell::Attack) == params.attack_ms,
        cells.published(params).content(ParamCell::Release) == params.release_ms,
        cells.published(params).content(ParamCell::PreGain) == params.pre_gain_db.bits,
        cells.published(params).content(ParamCell::PeakRelease) == params.peak_release_ms,
        cells.parameter_version < u64::MAX - 1 ==> cells.published(params).content(
            ParamCell::Version,
        ) == cells.parameter_version + 2,
        cells.written(ParamWrite::Threshold(bits)).content(ParamCell::Threshold) == bits,
        cells.written(ParamWrite::Attack(bits)).content(ParamCell::Attack) == bits,
        cells.written(ParamWrite::Release(bits)).content(ParamCell::Release) == bits,
        cells.written(ParamWrite::PreGain(bits)).content(ParamCell::PreGain) == bits,
        cells.written(ParamWrite::PeakRelease(bits)).content(ParamCell::PeakRelease) == bits,
        forall|cell: ParamCell| #[trigger]
            cells.written(ParamWrite::Attack(bits)).content(cell) == cells.content(cell) || cell
                == ParamCell::Attack,
        forall|cell: ParamCell| #[trigger]
            cells.written(ParamWrite::Release(bits)).content(cell) == cells.content(cell) || cell
                == ParamCell::Release,
        forall|cell: ParamCell| #[trigger]
            cells.written(ParamWrite::PeakRelease(bits)).content(cell) == cells.content(cell)
                || cell == ParamCell::PeakRelease,
        forall|cell: ParamCell| #[trigger]
            cells.written(ParamWrite::Threshold(bits)).content(cell) == cells.content(cell) || cell
                == ParamCell::Threshold,
        forall|cell: ParamCell| #[trigger]
            cells.written(ParamWrite::PreGain(bits)).content(cell) == cells.content(cell) || cell
                == ParamCell::PreGain,
{
}

/// What the settings window publishes of a usable configuration is what the running limiter
/// reads: each setting under its own name.
pub proof fn law_running_limiter_reads_the_configuration(
    cells: RuntimeLimiterParams,
    config: Config,
)
    requires
        config.usable(),
    ensures
        ({
            let read = cells.published(LimiterParams::held_by(&config).cleaned()).params();
            &&& read.threshold_db == config.threshold_db
            &&& read.attack_ms == config.attack_ms
            &&& read.release_ms == config.release_ms
            &&& read.pre_gain_db == config.pre_gain_db
            &&& read.peak_release_ms == config.peak_release_ms
        }),
        ({
            let read = RuntimeLimiterParams::started_with(
                LimiterParams::held_by(&config).cleaned(),
            );
            &&& read.params().threshold_db == config.threshold_db
            &&& read.params().attack_ms == config.attack_ms
            &&& read.params().release_ms == config.release_ms
            &&& read.params().pre_gain_db == config.pre_gain_db
            &&& read.params().peak_release_ms == config.peak_release_ms
            &&& read.stable()
        }),
{
    crate::config::law_limiter_runs_on_the_configured_settings(config);
}

} // verus!
