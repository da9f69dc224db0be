//! Counters of what the program is doing, and the lines that the log gets of them.

use vstd::prelude::*;

use crate::arithmetic::{logarithm_is, product_is, rounded_signed_is, Arithmetic};
use crate::limiter::{SILENCE, SILENCE_DB, THOUSAND, TWENTY, ZERO};
use crate::recorder::cells::{add_wrapping, wrapped_sum};
use crate::single::{single, Single};
use crate::text::{
    append_decimal, append_padded, append_text, decimal, holds_part, padded, stands_at,
};

verus! {

/// The counters. The two lowest gains are kept in thousandths of a decibel; as the limiter
/// never amplifies, they are not above zero.
#[derive(Clone, Copy, Debug, PartialEq, Eq, Structural)]
pub struct Diagnostics {
    pub ui_ticks: u64,
    pub input_callbacks: u64,
    pub output_callbacks: u64,
    pub input_errors: u64,
    pub output_errors: u64,
    pub limiter_lock_misses: u64,
    pub ring_push_drops: u64,
    pub output_underruns: u64,
    pub processed_frames: u64,
    pub ceiling_hit_frames: u64,
    pub peak_limit_frames: u64,
    pub peak_hold_events: u64,
    pub peak_gain_min_mdb: i32,
    pub rms_gain_min_mdb: i32,
}

impl Diagnostics {
    pub open spec fn initial() -> Diagnostics {
        Diagnostics {
            ui_ticks: 0,
            input_callbacks: 0,
            output_callbacks: 0,
            input_errors: 0,
            output_errors: 0,
            limiter_lock_misses: 0,
            ring_push_drops: 0,
            output_underruns: 0,
            processed_frames: 0,
            ceiling_hit_frames: 0,
            peak_limit_frames: 0,
            peak_hold_events: 0,
            peak_gain_min_mdb: 0,
            rms_gain_min_mdb: 0,
        }
    }
}

impl Default for Diagnostics {
    fn default() -> (diagnostics: Diagnostics)
        ensures
            diagnostics == Diagnostics::initial(),
    {
        Diagnostics {
            ui_ticks: 0,
            input_callbacks: 0,
            output_callbacks: 0,
            input_errors: 0,
            output_errors: 0,
            limiter_lock_misses: 0,
            ring_push_drops: 0,
            output_underruns: 0,
            processed_frames: 0,
            ceiling_hit_frames: 0,
            peak_limit_frames: 0,
            peak_hold_events: 0,
            peak_gain_min_mdb: 0,
            rms_gain_min_mdb: 0,
        }
    }
}

impl Diagnostics {
    /// The counters without what the limiter did.
    pub open spec fn forgetful(self) -> Diagnostics {
        Diagnostics {
            processed_frames: 0,
            ceiling_hit_frames: 0,
            peak_limit_frames: 0,
            peak_hold_events: 0,
            peak_gain_min_mdb: 0,
            rms_gain_min_mdb: 0,
            ..self
        }
    }
}

/// Forgets what the limiter did so far; the other counters go on.
pub fn reset_limiter_stats(d: &mut Diagnostics)
    ensures
        *final(d) == (Diagnostics {
            processed_frames: 0,
            ceiling_hit_frames: 0,
            peak_limit_frames: 0,
            peak_hold_events: 0,
            peak_gain_min_mdb: 0,
            rms_gain_min_mdb: 0,
            ..*old(d)
        }),
        *final(d) == old(d).forgetful(),
{
    d.processed_frames = 0;
    d.ceiling_hit_frames = 0;
    d.peak_limit_frames = 0;
    d.peak_hold_events = 0;
    d.peak_gain_min_mdb = 0;
    d.rms_gain_min_mdb = 0;
}

/// What is counted one by one.
#[derive(Clone, Copy, Debug, PartialEq, Eq, Structural)]
pub enum Event {
    UiTick,
    InputCallback,
    OutputCallback,
    InputError,
    OutputError,
    LimiterLockMiss,
    RingPushDrop,
    OutputUnderrun,
}

impl Diagnostics {
    /// How often something happened so far.
    pub open spec fn count_of(self, event: Event) -> u64 {
        match event {
            Event::UiTick => self.ui_ticks,
            Event::InputCallback => self.input_callbacks,
            Event::OutputCallback => self.output_callbacks,
            Event::InputError => self.input_errors,
            Event::OutputError => self.output_errors,
            Event::LimiterLockMiss => self.limiter_lock_misses,
            Event::RingPushDrop => self.ring_push_drops,
            Event::OutputUnderrun => self.output_underruns,
        }
    }

    /// `next` is `self` after something happened once more: its own count is one higher, and all
    /// else is as it was.
    pub open spec fn counts(self, event: Event, next: Diagnostics) -> bool {
        &&& next.count_of(event) == wrapped_sum(self.count_of(event), 1)
        &&& forall|other: Event| other != event ==> #[trigger] next.count_of(other)
            == self.count_of(other)
        &&& next.processed_frames == self.processed_frames
        &&& next.ceiling_hit_frames == self.ceiling_hit_frames
        &&& next.peak_limit_frames == self.peak_limit_frames
        &&& next.peak_hold_events == self.peak_hold_events
        &&& next.peak_gain_min_mdb == self.peak_gain_min_mdb
        &&& next.rms_gain_min_mdb == self.rms_gain_min_mdb
    }
}

pub fn ui_tick(d: &mut Diagnostics)
    ensures
        old(d).counts(Event::UiTick, *final(d)),
        *final(d) == (Diagnostics { ui_ticks: wrapped_sum(old(d).ui_ticks, 1), ..*old(d) }),
{
    d.ui_ticks = add_wrapping(d.ui_ticks, 1);
}

pub fn input_callback(d: &mut Diagnostics)
    ensures
        old(d).counts(Event::InputCallback, *final(d)),
        *final(d) == (Diagnostics {
            input_callbacks: wrapped_sum(old(d).input_callbacks, 1),
            ..*old(d)
        }),
{
    d.input_callbacks = add_wrapping(d.input_callbacks, 1);
}

pub fn output_callback(d: &mut Diagnostics)
    ensures
        old(d).counts(Event::OutputCallback, *final(d)),
        *final(d) == (Diagnostics {
            output_callbacks: wrapped_sum(old(d).output_callbacks, 1),
            ..*old(d)
        }),
{
    d.output_callbacks = add_wrapping(d.output_callbacks, 1);
}

pub fn input_error(d: &mut Diagnostics)
    ensures
        old(d).counts(Event::InputError, *final(d)),
        *final(d) == (Diagnostics {
            input_errors: wrapped_sum(old(d).input_errors, 1),
            ..*old(d)
        }),
{
    d.input_errors = add_wrapping(d.input_errors, 1);
}

pub fn output_error(d: &mut Diagnostics)
    ensures
        old(d).counts(Event::OutputError, *final(d)),
        *final(d) == (Diagnostics {
            output_errors: wrapped_sum(old(d).output_errors, 1),
            ..*old(d)
        }),
{
    d.output_errors = add_wrapping(d.output_errors, 1);
}

pub fn limiter_lock_miss(d: &mut Diagnostics)
    ensures
        old(d).counts(Event::LimiterLockMiss, *final(d)),
        *final(d) == (Diagnostics {
            limiter_lock_misses: wrapped_sum(old(d).limiter_lock_misses, 1),
            ..*old(d)
        }),
{
    d.limiter_lock_misses = add_wrapping(d.limiter_lock_misses, 1);
}

pub fn ring_push_drop(d: &mut Diagnostics)
    ensures
        old(d).counts(Event::RingPushDrop, *final(d)),
        *final(d) == (Diagnostics {
            ring_push_drops: wrapped_sum(old(d).ring_push_drops, 1),
            ..*old(d)
        }),
{
    d.ring_push_drops = add_wrapping(d.ring_push_drops, 1);
}

pub fn output_underrun(d: &mut Diagnostics)
    ensures
        old(d).counts(Event::OutputUnderrun, *final(d)),
        *final(d) == (Diagnostics {
            output_underruns: wrapped_sum(old(d).output_underruns, 1),
            ..*old(d)
        }),
{
    d.output_underruns = add_wrapping(d.output_underruns, 1);
}

/// `r` is an answer for a gain in decibels, from -120 to 0; what is no gain counts as
/// silence.
pub open spec fn gain_db_is<A: Arithmetic>(gain: Single, r: Single) -> bool {
    if !gain.finite() || gain.at_most(single(SILENCE)) {
        r == single(SILENCE_DB)
    } else {
        exists|log: Single, db: Single|
            #![trigger logarithm_is::<A>(gain, log), product_is::<A>(single(TWENTY), log, db)]
            {
                &&& logarithm_is::<A>(gain, log)
                &&& product_is::<A>(single(TWENTY), log, db)
                &&& r == db.clamped(single(SILENCE_DB), single(ZERO))
            }
    }
}

/// `mdb` is an answer for a gain in thousandths of a decibel.
pub open spec fn gain_mdb_is<A: Arithmetic>(gain: Single, mdb: i32) -> bool {
    exists|db: Single, scaled: Single|
        #![trigger gain_db_is::<A>(gain, db), product_is::<A>(db, single(THOUSAND), scaled)]
        {
            &&& gain_db_is::<A>(gain, db)
            &&& product_is::<A>(db, single(THOUSAND), scaled)
            &&& rounded_signed_is::<A>(scaled, mdb)
        }
}

/// A gain in thousandths of a decibel.
pub fn gain_in_mdb<A: Arithmetic>(gain: Single) -> (mdb: i32)
    ensures
        gain_mdb_is::<A>(gain, mdb),
{
    let db = if !gain.is_finite() || gain.le(Single::from_bits(SILENCE)) {
        Single::from_bits(SILENCE_DB)
    } else {
        let log = A::logarithm(gain);
        let db = A::product(Single::from_bits(TWENTY), log);
        assert(logarithm_is::<A>(gain, log));
        assert(product_is::<A>(single(TWENTY), log, db));
        db.clamp(Single::from_bits(SILENCE_DB), Single::from_bits(ZERO))
    };
    let scaled = A::product(db, Single::from_bits(THOUSAND));
    assert(gain_db_is::<A>(gain, db));
    assert(product_is::<A>(db, single(THOUSAND), scaled));
    A::rounded_signed(scaled)
}

/// The lower of two gains.
pub open spec fn lower(a: i32, b: i32) -> i32 {
    if b < a {
        b
    } else {
        a
    }
}

/// What to do about a new gain where the lowest one so far is `current`: replace it, or
/// leave it. To be asked again with the value found where replacing it did not work because
/// somebody else had changed it.
pub fn replaces_lowest(current: i32, value_mdb: i32) -> (replace: bool)
    ensures
        replace == (lower(current, value_mdb) != current),
{
    value_mdb < current
}

/// Lowers `target` to the gain, if that is lower.
pub fn update_min_gain_db<A: Arithmetic>(target: &mut i32, gain: Single)
    ensures
        exists|mdb: i32| #[trigger]
            gain_mdb_is::<A>(gain, mdb) && *final(target) == lower(*old(target), mdb),
{
    let mdb: i32 = gain_in_mdb::<A>(gain);
    assert(gain_mdb_is::<A>(gain, mdb));
    if replaces_lowest(*target, mdb) {
        *target = mdb;
    }
}

/// Adds what the limiter did in a batch of frames.
pub fn limiter_batch<A: Arithmetic>(
    d: &mut Diagnostics,
    processed_frames: u64,
    ceiling_hit_frames: u64,
    peak_limit_frames: u64,
    peak_hold_events: u64,
    peak_gain_min: Single,
    rms_gain_min: Single,
)
    ensures
        exists|peak: i32, rms: i32|
            {
                &&& #[trigger] gain_mdb_is::<A>(peak_gain_min, peak)
                &&& #[trigger] gain_mdb_is::<A>(rms_gain_min, rms)
                &&& *final(d) == (Diagnostics {
                    processed_frames: wrapped_sum(old(d).processed_frames, processed_frames),
                    ceiling_hit_frames: wrapped_sum(
                        old(d).ceiling_hit_frames,
                        ceiling_hit_frames,
                    ),
                    peak_limit_frames: wrapped_sum(old(d).peak_limit_frames, peak_limit_frames),
                    peak_hold_events: wrapped_sum(old(d).peak_hold_events, peak_hold_events),
                    peak_gain_min_mdb: lower(old(d).peak_gain_min_mdb, peak),
                    rms_gain_min_mdb: lower(old(d).rms_gain_min_mdb, rms),
                    ..*old(d)
                })
            },
{
    d.processed_frames = add_wrapping(d.processed_frames, processed_frames);
    d.ceiling_hit_frames = add_wrapping(d.ceiling_hit_frames, ceiling_hit_frames);
    d.peak_limit_frames = add_wrapping(d.peak_limit_frames, peak_limit_frames);
    d.peak_hold_events = add_wrapping(d.peak_hold_events, peak_hold_events);
    update_min_gain_db::<A>(&mut d.peak_gain_min_mdb, peak_gain_min);
    update_min_gain_db::<A>(&mut d.rms_gain_min_mdb, rms_gain_min);
}

/// A number of thousandths, with three digits behind the point.
pub open spec fn thousandths(value: i32) -> Seq<char> {
    let distance = if value < 0 {
        -value
    } else {
        value as int
    };
    (if value < 0 {
        "-"@
    } else {
        Seq::empty()
    }) + decimal((distance / 1000) as nat) + "."@ + padded((distance % 1000) as nat, 3)
}

fn append_thousandths(text: &mut String, value: i32)
    ensures
        final(text)@ == old(text)@ + thousandths(value),
{
    let ghost before = text@;
    let distance: i64 = if value < 0 {
        append_text(text, "-");
        -(value as i64)
    } else {
        value as i64
    };
    append_decimal(text, (distance / 1000) as u64);
    append_text(text, ".");
    append_padded(text, (distance % 1000) as u64, 3);
    proof {
        assert(text@ =~= before + thousandths(value));
    }
}

/// A label and a counter.
pub open spec fn field(label: Seq<char>, value: u64) -> Seq<char> {
    label + decimal(value as nat)
}

fn append_field(line: &mut String, label: &str, value: u64)
    ensures
        final(line)@ == old(line)@ + field(label@, value),
{
    let ghost before = line@;
    append_text(line, label);
    append_decimal(line, value);
    proof {
        assert(line@ =~= before + field(label@, value));
    }
}

/// The line that opens the log.
pub open spec fn opening_line(seconds: u64) -> Seq<char> {
    "["@ + decimal(seconds as nat) + "] diagnostics started"@
}

pub fn started_line(seconds: u64) -> (line: String)
    ensures
        line@ == opening_line(seconds),
{
    let mut line = String::new();
    append_field(&mut line, "[", seconds);
    append_text(&mut line, "] diagnostics started");
    proof {
        assert(line@ =~= opening_line(seconds));
    }
    line
}

impl Diagnostics {
    /// The line that the log gets every two seconds.
    pub open spec fn line(self, seconds: u64) -> Seq<char> {
        field("["@, seconds) + field("] ui_ticks="@, self.ui_ticks) + field(
            " input_callbacks="@,
            self.input_callbacks,
        ) + field(" output_callbacks="@, self.output_callbacks) + field(
            " input_errors="@,
            self.input_errors,
        ) + field(" output_errors="@, self.output_errors) + field(
            " limiter_lock_misses="@,
            self.limiter_lock_misses,
        ) + field(" ring_push_drops="@, self.ring_push_drops) + field(
            " output_underruns="@,
            self.output_underruns,
        ) + field(" processed_frames="@, self.processed_frames) + field(
            " ceiling_hit_frames="@,
            self.ceiling_hit_frames,
        ) + field(" peak_limit_frames="@, self.peak_limit_frames) + field(
            " peak_hold_events="@,
            self.peak_hold_events,
        ) + " peak_gain_min_db="@ + thousandths(self.peak_gain_min_mdb) + " rms_gain_min_db="@
            + thousandths(self.rms_gain_min_mdb)
    }

    pub fn log_line(&self, seconds: u64) -> (line: String)
        ensures
            line@ == self.line(seconds),
    {
        let mut line = String::new();
        append_field(&mut line, "[", seconds);
        append_field(&mut line, "] ui_ticks=", self.ui_ticks);
        append_field(&mut line, " input_callbacks=", self.input_callbacks);
        append_field(&mut line, " output_callbacks=", self.output_callbacks);
        append_field(&mut line, " input_errors=", self.input_errors);
        append_field(&mut line, " output_errors=", self.output_errors);
        append_field(&mut line, " limiter_lock_misses=", self.limiter_lock_misses);
        append_field(&mut line, " ring_push_drops=", self.ring_push_drops);
        append_field(&mut line, " output_underruns=", self.output_underruns);
        append_field(&mut line, " processed_frames=", self.processed_frames);
        append_field(&mut line, " ceiling_hit_frames=", self.ceiling_hit_frames);
        append_field(&mut line, " peak_limit_frames=", self.peak_limit_frames);
        append_field(&mut line, " peak_hold_events=", self.peak_hold_events);
        append_text(&mut line, " peak_gain_min_db=");
        append_thousandths(&mut line, self.peak_gain_min_mdb);
        append_text(&mut line, " rms_gain_min_db=");
        append_thousandths(&mut line, self.rms_gain_min_mdb);
        proof {
            assert(line@ =~= self.line(seconds));
        }
        line
    }
}

/// The host's arithmetic keeps what telling decibels promises: a gain above silence has
/// decibels, and a thousand times a number from -120 to 0 is rounded to one from -120000 to 0.
pub open spec fn tells_decibels<A: Arithmetic>() -> bool {
    &&& forall|gain: Single, log: Single, db: Single|
        #![trigger logarithm_is::<A>(gain, log), product_is::<A>(single(TWENTY), log, db)]
        gain.finite() && single(SILENCE).below(gain) && logarithm_is::<A>(gain, log)
            && product_is::<A>(single(TWENTY), log, db) ==> !db.nan()
    &&& forall|db: Single, scaled: Single, mdb: i32|
        #![trigger product_is::<A>(db, single(THOUSAND), scaled), rounded_signed_is::<A>(scaled, mdb)]
        single(SILENCE_DB).at_most(db) && db.at_most(single(ZERO)) && product_is::<A>(
            db,
            single(THOUSAND),
            scaled,
        ) && rounded_signed_is::<A>(scaled, mdb) ==> -120_000 <= mdb <= 0
}

/// A gain is told as a number from -120000 to 0, so that the lowest gain, which starts at 0,
/// stays within that range.
pub proof fn law_lowest_gain_is_in_range<A: Arithmetic>(gain: Single, mdb: i32, target: i32)
    requires
        tells_decibels::<A>(),
        gain_mdb_is::<A>(gain, mdb),
        -120_000 <= target <= 0,
    ensures
        -120_000 <= mdb <= 0,
        -120_000 <= lower(target, mdb) <= 0,
{
    let (db, scaled) = choose|db: Single, scaled: Single|
        #![trigger gain_db_is::<A>(gain, db), product_is::<A>(db, single(THOUSAND), scaled)]
        {
            &&& gain_db_is::<A>(gain, db)
            &&& product_is::<A>(db, single(THOUSAND), scaled)
            &&& rounded_signed_is::<A>(scaled, mdb)
        };
    if gain.finite() && !gain.at_most(single(SILENCE)) {
        let (log, told) = choose|log: Single, told: Single|
            #![trigger logarithm_is::<A>(gain, log), product_is::<A>(single(TWENTY), log, told)]
            {
                &&& logarithm_is::<A>(gain, log)
                &&& product_is::<A>(single(TWENTY), log, told)
                &&& db == told.clamped(single(SILENCE_DB), single(ZERO))
            };
        crate::single::law_clamp_bounds(told, single(SILENCE_DB), single(ZERO));
    }
}

/// The lowest gain only ever sinks, and it ends at or below every gain that was reported.
pub proof fn law_lowest_gain_sinks(target: i32, first: i32, second: i32)
    ensures
        lower(target, first) <= target,
        lower(target, first) <= first,
        lower(lower(target, first), second) == lower(lower(target, second), first),
        lower(lower(target, first), first) == lower(target, first),
{
}

proof fn lemma_part_at_end(front: Seq<char>, part: Seq<char>, line: Seq<char>)
    requires
        (front + part).is_prefix_of(line),
    ensures
        holds_part(line, part),
        front.is_prefix_of(line),
{
    let at = front.len() as int;
    assert((front + part).subrange(at, at + part.len()) =~= part);
    assert(line.subrange(at, at + part.len()) =~= (front + part).subrange(at, at + part.len()));
    assert(stands_at(line, part, at));
    assert(front =~= (front + part).take(at));
    assert(front =~= line.take(at));
}

proof fn lemma_pair_at_end(front: Seq<char>, label: Seq<char>, value: Seq<char>, line: Seq<char>)
    requires
        (front + label + value).is_prefix_of(line),
    ensures
        holds_part(line, label + value),
        front.is_prefix_of(line),
{
    assert(front + label + value =~= front + (label + value));
    lemma_part_at_end(front, label + value, line);
}

/// The line of the log tells every counter under its own name, and the two lowest gains.
pub proof fn law_line_tells_every_counter(d: Diagnostics, seconds: u64)
    ensures
        holds_part(d.line(seconds), "] ui_ticks="@ + decimal(d.ui_ticks as nat)),
        holds_part(d.line(seconds), " input_callbacks="@ + decimal(d.input_callbacks as nat)),
        holds_part(d.line(seconds), " output_callbacks="@ + decimal(d.output_callbacks as nat)),
        holds_part(d.line(seconds), " input_errors="@ + decimal(d.input_errors as nat)),
        holds_part(d.line(seconds), " output_errors="@ + decimal(d.output_errors as nat)),
        holds_part(d.line(seconds), " limiter_lock_misses="@ + decimal(d.limiter_lock_misses as nat)),
        holds_part(d.line(seconds), " ring_push_drops="@ + decimal(d.ring_push_drops as nat)),
        holds_part(d.line(seconds), " output_underruns="@ + decimal(d.output_underruns as nat)),
        holds_part(d.line(seconds), " processed_frames="@ + decimal(d.processed_frames as nat)),
        holds_part(d.line(seconds), " ceiling_hit_frames="@ + decimal(d.ceiling_hit_frames as nat)),
        holds_part(d.line(seconds), " peak_limit_frames="@ + decimal(d.peak_limit_frames as nat)),
        holds_part(d.line(seconds), " peak_hold_events="@ + decimal(d.peak_hold_events as nat)),
        holds_part(d.line(seconds), " peak_gain_min_db="@ + thousandths(d.peak_gain_min_mdb)),
        holds_part(d.line(seconds), " rms_gain_min_db="@ + thousandths(d.rms_gain_min_mdb)),
{
    let opening = field("["@, seconds);
    let to_ui_ticks = opening + field("] ui_ticks="@, d.ui_ticks);
    let to_input_callbacks = to_ui_ticks + field(" input_callbacks="@, d.input_callbacks);
    let to_output_callbacks = to_input_callbacks + field(" output_callbacks="@, d.output_callbacks);
    let to_input_errors = to_output_callbacks + field(" input_errors="@, d.input_errors);
    let to_output_errors = to_input_errors + field(" output_errors="@, d.output_errors);
    let to_limiter_lock_misses = to_output_errors + field(" limiter_lock_misses="@, d.limiter_lock_misses);
    let to_ring_push_drops = to_limiter_lock_misses + field(" ring_push_drops="@, d.ring_push_drops);
    let to_output_underruns = to_ring_push_drops + field(" output_underruns="@, d.output_underruns);
    let to_processed_frames = to_output_underruns + field(" processed_frames="@, d.processed_frames);
    let to_ceiling_hit_frames = to_processed_frames + field(" ceiling_hit_frames="@, d.ceiling_hit_frames);
    let to_peak_limit_frames = to_ceiling_hit_frames + field(" peak_limit_frames="@, d.peak_limit_frames);
    let to_peak_hold_events = to_peak_limit_frames + field(" peak_hold_events="@, d.peak_hold_events);
    let to_peak_label = to_peak_hold_events + " peak_gain_min_db="@;
    let to_peak = to_peak_label + thousandths(d.peak_gain_min_mdb);
    let to_rms_label = to_peak + " rms_gain_min_db="@;
    let line = to_rms_label + thousandths(d.rms_gain_min_mdb);
    assert(line == d.line(seconds));
    assert(line.is_prefix_of(line));
    lemma_pair_at_end(to_peak, " rms_gain_min_db="@, thousandths(d.rms_gain_min_mdb), line);
    lemma_pair_at_end(
        to_peak_hold_events,
        " peak_gain_min_db="@,
        thousandths(d.peak_gain_min_mdb),
        line,
    );
    lemma_part_at_end(to_peak_limit_frames, field(" peak_hold_events="@, d.peak_hold_events), line);
    lemma_part_at_end(to_ceiling_hit_frames, field(" peak_limit_frames="@, d.peak_limit_frames), line);
    lemma_part_at_end(to_processed_frames, field(" ceiling_hit_frames="@, d.ceiling_hit_frames), line);
    lemma_part_at_end(to_output_underruns, field(" processed_frames="@, d.processed_frames), line);
    lemma_part_at_end(to_ring_push_drops, field(" output_underruns="@, d.output_underruns), line);
    lemma_part_at_end(to_limiter_lock_misses, field(" ring_push_drops="@, d.ring_push_drops), line);
    lemma_part_at_end(to_output_errors, field(" limiter_lock_misses="@, d.limiter_lock_misses), line);
    lemma_part_at_end(to_input_errors, field(" output_errors="@, d.output_errors), line);
    lemma_part_at_end(to_output_callbacks, field(" input_errors="@, d.input_errors), line);
    lemma_part_at_end(to_input_callbacks, field(" output_callbacks="@, d.output_callbacks), line);
    lemma_part_at_end(to_ui_ticks, field(" input_callbacks="@, d.input_callbacks), line);
    lemma_part_at_end(opening, field("] ui_ticks="@, d.ui_ticks), line);
}

/// Whatever happens is counted on its own, so that no count can be taken for another.
pub proof fn law_events_are_counted_apart(
    d: Diagnostics,
    event: Event,
    next: Diagnostics,
    other: Event,
)
    requires
        d.counts(event, next),
    ensures
        other != event ==> next.count_of(other) == d.count_of(other),
        d.count_of(event) < u64::MAX ==> next.count_of(event) == d.count_of(event) + 1,
        event == Event::InputError ==> next.output_errors == d.output_errors && (d.input_errors
            < u64::MAX ==> next.input_errors == d.input_errors + 1),
        event == Event::OutputError ==> next.input_errors == d.input_errors && (d.output_errors
            < u64::MAX ==> next.output_errors == d.output_errors + 1),
        event == Event::InputCallback ==> next.output_callbacks == d.output_callbacks && (
        d.input_callbacks < u64::MAX ==> next.input_callbacks == d.input_callbacks + 1),
        event == Event::OutputCallback ==> next.input_callbacks == d.input_callbacks && (
        d.output_callbacks < u64::MAX ==> next.output_callbacks == d.output_callbacks + 1),
        event == Event::UiTick && d.ui_ticks < u64::MAX ==> next.ui_ticks == d.ui_ticks + 1,
        event == Event::LimiterLockMiss && d.limiter_lock_misses < u64::MAX
            ==> next.limiter_lock_misses == d.limiter_lock_misses + 1,
        event == Event::RingPushDrop && d.ring_push_drops < u64::MAX ==> next.ring_push_drops
            == d.ring_push_drops + 1,
        event == Event::OutputUnderrun && d.output_underruns < u64::MAX ==> next.output_underruns
            == d.output_underruns + 1,
{
    assert(next.count_of(Event::InputError) == next.input_errors);
    assert(next.count_of(Event::OutputError) == next.output_errors);
    assert(next.count_of(Event::InputCallback) == next.input_callbacks);
    assert(next.count_of(Event::OutputCallback) == next.output_callbacks);
}

/// A gain that is no finite number, and one not above silence, are told like silence; a full gain is
/// told as none taken away; and of two gains the lower one is told no higher. Let the host keep
/// logarithms, their multiples and their rounding in order.
pub proof fn law_gains_are_told_in_order<A: Arithmetic>(
    low: Single,
    high: Single,
    low_mdb: i32,
    high_mdb: i32,
)
    requires
        forall|a: Single, b: Single, r: Single, q: Single|
            #![trigger logarithm_is::<A>(a, r), logarithm_is::<A>(b, q)]
            logarithm_is::<A>(a, r) && logarithm_is::<A>(b, q) && single(SILENCE).below(a)
                && a.at_most(b) ==> r.at_most(q),
        forall|a: Single, b: Single, r: Single, q: Single|
            #![trigger product_is::<A>(single(TWENTY), a, r), product_is::<A>(single(TWENTY), b, q)]
            product_is::<A>(single(TWENTY), a, r) && product_is::<A>(single(TWENTY), b, q)
                && a.at_most(b) ==> r.at_most(q),
        forall|a: Single, b: Single, r: Single, q: Single|
            #![trigger product_is::<A>(a, single(THOUSAND), r), product_is::<A>(b, single(THOUSAND), q)]
            product_is::<A>(a, single(THOUSAND), r) && product_is::<A>(b, single(THOUSAND), q)
                && a.at_most(b) ==> r.at_most(q),
        forall|a: Single, b: Single, r: i32, q: i32|
            #![trigger rounded_signed_is::<A>(a, r), rounded_signed_is::<A>(b, q)]
            rounded_signed_is::<A>(a, r) && rounded_signed_is::<A>(b, q) && a.at_most(b) ==> r <= q,
        tells_decibels::<A>(),
        low.finite() && high.finite() && low.at_most(high),
        gain_mdb_is::<A>(low, low_mdb),
        gain_mdb_is::<A>(high, high_mdb),
    ensures
        low_mdb <= high_mdb,
{
    let (low_db, low_scaled) = choose|db: Single, scaled: Single|
        #![trigger gain_db_is::<A>(low, db), product_is::<A>(db, single(THOUSAND), scaled)]
        {
            &&& gain_db_is::<A>(low, db)
            &&& product_is::<A>(db, single(THOUSAND), scaled)
            &&& rounded_signed_is::<A>(scaled, low_mdb)
        };
    let (high_db, high_scaled) = choose|db: Single, scaled: Single|
        #![trigger gain_db_is::<A>(high, db), product_is::<A>(db, single(THOUSAND), scaled)]
        {
            &&& gain_db_is::<A>(high, db)
            &&& product_is::<A>(db, single(THOUSAND), scaled)
            &&& rounded_signed_is::<A>(scaled, high_mdb)
        };
    assert(low_db.at_most(high_db)) by {
        if !high.at_most(single(SILENCE)) {
            let (high_log, high_told) = choose|log: Single, told: Single|
                #![trigger logarithm_is::<A>(high, log), product_is::<A>(single(TWENTY), log, told)]
                {
                    &&& logarithm_is::<A>(high, log)
                    &&& product_is::<A>(single(TWENTY), log, told)
                    &&& high_db == told.clamped(single(SILENCE_DB), single(ZERO))
                };
            assert(!high_told.nan());
            if !low.at_most(single(SILENCE)) {
                let (low_log, low_told) = choose|log: Single, told: Single|
                    #![trigger logarithm_is::<A>(low, log), product_is::<A>(single(TWENTY), log, told)]
                    {
                        &&& logarithm_is::<A>(low, log)
                        &&& product_is::<A>(single(TWENTY), log, told)
                        &&& low_db == told.clamped(single(SILENCE_DB), single(ZERO))
                    };
                assert(low_log.at_most(high_log));
                assert(low_told.at_most(high_told));
            }
        }
    }
    assert(low_scaled.at_most(high_scaled));
}

/// Nothing is left of what the limiter did, everything else is counted on, and what was forgotten
/// cannot be forgotten again.
pub proof fn law_only_the_limiter_is_forgotten(d: Diagnostics, event: Event)
    ensures
        d.forgetful().count_of(event) == d.count_of(event),
        d.forgetful().processed_frames == 0,
        d.forgetful().ceiling_hit_frames == 0,
        d.forgetful().peak_limit_frames == 0,
        d.forgetful().peak_hold_events == 0,
        d.forgetful().peak_gain_min_mdb == 0,
        d.forgetful().rms_gain_min_mdb == 0,
        d.forgetful().forgetful() == d.forgetful(),
{
}

/// The line that opens the log tells the seconds of the clock.
pub proof fn law_opening_line_tells_the_time(a: u64, b: u64)
    requires
        opening_line(a) == opening_line(b),
    ensures
        a == b,
{
    let front = "["@;
    let back = "] diagnostics started"@;
    let digits_a = decimal(a as nat);
    let digits_b = decimal(b as nat);
    assert(opening_line(a).len() == front.len() + digits_a.len() + back.len());
    assert(opening_line(b).len() == front.len() + digits_b.len() + back.len());
    let start = front.len() as int;
    assert(opening_line(a).subrange(start, start + digits_a.len()) =~= digits_a);
    assert(opening_line(b).subrange(start, start + digits_b.len()) =~= digits_b);
    crate::text::law_decimal_is_read_back(a as nat);
    crate::text::law_decimal_is_read_back(b as nat);
}

/// A number of whole units and thousandths is written with a point between the two, three digits
/// behind it, and with a sign before them where it is below zero.
pub proof fn law_thousandths_stand_behind_the_point(value: i32, opposite: i32, whole: nat, part: nat)
    requires
        value == 1000 * whole + part,
        part < 1000,
        opposite == -value,
    ensures
        thousandths(value) == decimal(whole) + "."@ + padded(part, 3),
        value > 0 ==> thousandths(opposite) == "-"@ + thousandths(value),
{
    assert(value as int / 1000 == whole && value as int % 1000 == part);
    assert(thousandths(value) =~= decimal(whole) + "."@ + padded(part, 3));
    if value > 0 {
        assert(thousandths(opposite) =~= "-"@ + thousandths(value));
    }
}

/// Counting something leaves alone what is told of the limiter.
pub proof fn law_counting_leaves_the_limiter_alone(d: Diagnostics, event: Event, next: Diagnostics)
    requires
        d.counts(event, next),
    ensures
        next.processed_frames == d.processed_frames,
        next.ceiling_hit_frames == d.ceiling_hit_frames,
        next.peak_limit_frames == d.peak_limit_frames,
        next.peak_hold_events == d.peak_hold_events,
        next.peak_gain_min_mdb == d.peak_gain_min_mdb,
        next.rms_gain_min_mdb == d.rms_gain_min_mdb,
{
}

} // verus!
