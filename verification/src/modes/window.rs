//! The window that offers the two modes: what it shows, what it takes over, and when it
//! starts and stops the limiter.

use vstd::prelude::*;

use crate::devices::{find_device_index, first_with_id};
use crate::modes::config::{Access, Config, OperationMode};
use crate::single::Single;
use crate::text::{append_decimal, append_text, decimal, last_part, text_after_last};

verus! {

/// How long lists of programs and devices are shown before they are fetched anew, in
/// milliseconds.
pub const REFRESH_AFTER_MS: u64 = 2000;

/// The place of an entry where none is selected.
pub const NOTHING_SELECTED: usize = usize::MAX;

/// Lists of this age are not shown any more.
pub open spec fn outdated(elapsed_ns: u64) -> bool {
    elapsed_ns > REFRESH_AFTER_MS * 1_000_000
}

/// Whether the lists are to be fetched anew: more than two seconds have passed.
pub fn refresh_needed(elapsed_ns: u64) -> (needed: bool)
    ensures
        needed == (elapsed_ns > REFRESH_AFTER_MS * 1_000_000),
        needed == outdated(elapsed_ns),
{
    elapsed_ns > REFRESH_AFTER_MS * 1_000_000
}

/// The entry `at` is the one for the device `id`.
pub open spec fn selects(ids: Seq<String>, id: Option<String>, at: usize) -> bool {
    match id {
        None => at == NOTHING_SELECTED,
        Some(id) => if exists|i: int| 0 <= i < ids.len() && (#[trigger] ids[i])@ == id@ {
            first_with_id(ids, id@, at as int)
        } else {
            at == NOTHING_SELECTED
        },
    }
}

/// The entry for the device that the settings name.
pub fn selected_index(ids: &Vec<String>, id: &Option<String>) -> (at: usize)
    ensures
        selects(ids@, *id, at),
{
    match id {
        None => NOTHING_SELECTED,
        Some(id) => match find_device_index(ids, id.as_str()) {
            Some(at) => {
                proof {
                    assert(ids@[at as int]@ == id@);
                }
                at
            },
            None => NOTHING_SELECTED,
        },
    }
}

/// What is shown for the selected device; `name` is what it calls itself, if it does.
pub open spec fn device_text(at: usize, name: Option<Seq<char>>) -> Seq<char> {
    if at == NOTHING_SELECTED {
        "未选择"@
    } else {
        match name {
            Some(name) => name,
            None => "未知设备"@,
        }
    }
}

pub fn selected_device_text(at: usize, name: &Option<String>) -> (text: String)
    ensures
        text@ == device_text(
            at,
            match name {
                Some(name) => Some(name@),
                None => None,
            },
        ),
{
    if at == NOTHING_SELECTED {
        "未选择".to_owned()
    } else {
        match name {
            Some(name) => name.clone(),
            None => "未知设备".to_owned(),
        }
    }
}

/// What the list says of a device that does not call itself anything.
pub open spec fn nameless_entry(at: usize) -> Seq<char> {
    "设备 "@ + decimal(at as nat)
}

/// What an entry of a device list says.
pub fn device_entry_text(at: usize, name: &Option<String>) -> (text: String)
    ensures
        text@ == (match name {
            Some(name) => name@,
            None => "设备 "@ + decimal(at as nat),
        }),
        name is None ==> text@ == nameless_entry(at),
{
    match name {
        Some(name) => name.clone(),
        None => {
            let mut text = String::new();
            append_text(&mut text, "设备 ");
            append_decimal(&mut text, at as u64);
            text
        },
    }
}

/// What the list says of a program.
pub open spec fn program_entry(name: Seq<char>, pid: u32) -> Seq<char> {
    name + " (PID: "@ + decimal(pid as nat) + ")"@
}

/// What an entry of the program list says.
pub fn session_entry_text(name: &str, pid: u32) -> (text: String)
    ensures
        text@ == name@ + " (PID: "@ + decimal(pid as nat) + ")"@,
        text@ == program_entry(name@, pid),
{
    let mut text = String::new();
    append_text(&mut text, name);
    append_text(&mut text, " (PID: ");
    append_decimal(&mut text, pid as u64);
    append_text(&mut text, ")");
    proof {
        assert(text@ =~= name@ + " (PID: "@ + decimal(pid as nat) + ")"@);
    }
    text
}

/// The name of a program: the last part of the path to its file.
pub fn process_name(path: &str) -> (name: String)
    ensures
        name@ == last_part(path@, '\\'),
{
    text_after_last(path, '\\')
}

/// What stands behind the word for the state.
pub fn state_text(is_limiting: bool) -> (text: &'static str)
    ensures
        text@ == (if is_limiting {
            "运行中"@
        } else {
            "未运行"@
        }),
{
    if is_limiting {
        "运行中"
    } else {
        "未运行"
    }
}

/// What the window holds at the end of a frame.
pub struct Edited {
    pub threshold_db: Single,
    pub target_pid: Option<u32>,
    pub attack_ms: u32,
    pub release_ms: u32,
    pub scan_interval_ms: u32,
    pub volume_change_percentage_threshold: Single,
    pub operation_mode: OperationMode,
    pub crossover_freq: Single,
    pub input: usize,
    pub output: usize,
}

/// The device that an entry stands for.
pub open spec fn device_at(ids: Seq<String>, at: usize) -> Option<String> {
    if at < ids.len() {
        Some(ids[at as int])
    } else {
        None
    }
}

fn device_in(ids: &Vec<String>, at: usize) -> (id: Option<String>)
    ensures
        id == device_at(ids@, at),
{
    if at < ids.len() {
        Some(ids[at].clone())
    } else {
        None
    }
}

/// The two name the same device, or none.
pub open spec fn same_device(a: Option<String>, b: Option<String>) -> bool {
    match (a, b) {
        (Some(a), Some(b)) => a@ == b@,
        (None, None) => true,
        _ => false,
    }
}

fn is_same_device(a: &Option<String>, b: &Option<String>) -> (same: bool)
    ensures
        same == same_device(*a, *b),
{
    match (a, b) {
        (Some(a), Some(b)) => *a == *b,
        (None, None) => true,
        _ => false,
    }
}

/// The value of a number that was edited: the old one where the two are the same.
pub open spec fn edited_number(old_value: Single, new_value: Single) -> Single {
    if new_value.same(old_value) {
        old_value
    } else {
        new_value
    }
}

/// The device after editing: the old one where the two are the same.
pub open spec fn edited_device(old_id: Option<String>, new_id: Option<String>) -> Option<String> {
    if same_device(new_id, old_id) {
        old_id
    } else {
        new_id
    }
}

impl Edited {
    /// The mode or a device has changed, so that a running limiter is to be stopped.
    pub open spec fn needs_stop(self, config: Config, inputs: Seq<String>, outputs: Seq<String>) -> bool {
        ||| self.operation_mode != config.operation_mode
        ||| !same_device(device_at(inputs, self.input), config.target_input_device_id)
        ||| !same_device(device_at(outputs, self.output), config.target_output_device_id)
    }

    /// Anything has changed, so that the settings are to be saved.
    pub open spec fn changes(self, config: Config, inputs: Seq<String>, outputs: Seq<String>) -> bool {
        ||| self.needs_stop(config, inputs, outputs)
        ||| !self.threshold_db.same(config.threshold_db)
        ||| self.target_pid != config.target_pid
        ||| self.attack_ms != config.attack_ms
        ||| self.release_ms != config.release_ms
        ||| self.scan_interval_ms != config.scan_interval_ms
        ||| !self.volume_change_percentage_threshold.same(
            config.volume_change_percentage_threshold,
        )
        ||| !self.crossover_freq.same(config.crossover_freq)
    }

    /// The settings with what the window holds.
    pub open spec fn written_to(self, config: Config, inputs: Seq<String>, outputs: Seq<String>) -> Config {
        Config {
            threshold_db: edited_number(config.threshold_db, self.threshold_db),
            attack_ms: self.attack_ms,
            release_ms: self.release_ms,
            crossover_freq: edited_number(config.crossover_freq, self.crossover_freq),
            operation_mode: self.operation_mode,
            target_pid: self.target_pid,
            scan_interval_ms: self.scan_interval_ms,
            volume_change_percentage_threshold: edited_number(
                config.volume_change_percentage_threshold,
                self.volume_change_percentage_threshold,
            ),
            target_input_device_id: edited_device(
                config.target_input_device_id,
                device_at(inputs, self.input),
            ),
            target_output_device_id: edited_device(
                config.target_output_device_id,
                device_at(outputs, self.output),
            ),
        }
    }

    /// Takes over what the window holds; gives back whether the settings are to be saved,
    /// and whether the limiter is to be stopped.
    pub fn write_back(&self, config: &mut Config, inputs: &Vec<String>, outputs: &Vec<String>) -> (r: (
        bool,
        bool,
    ))
        ensures
            *final(config) == self.written_to(*old(config), inputs@, outputs@),
            r.0 == self.changes(*old(config), inputs@, outputs@),
            r.1 == self.needs_stop(*old(config), inputs@, outputs@),
    {
        let mut changed = false;
        let mut need_stop = false;
        if !self.threshold_db.is_same(config.threshold_db) {
            config.threshold_db = self.threshold_db;
            changed = true;
        }
        if !same_pid(self.target_pid, config.target_pid) {
            config.target_pid = self.target_pid;
            changed = true;
        }
        if self.attack_ms != config.attack_ms {
            config.attack_ms = self.attack_ms;
            changed = true;
        }
        if self.release_ms != config.release_ms {
            config.release_ms = self.release_ms;
            changed = true;
        }
        if self.scan_interval_ms != config.scan_interval_ms {
            config.scan_interval_ms = self.scan_interval_ms;
            changed = true;
        }
        if !self.volume_change_percentage_threshold.is_same(
            config.volume_change_percentage_threshold,
        ) {
            config.volume_change_percentage_threshold = self.volume_change_percentage_threshold;
            changed = true;
        }
        if self.operation_mode != config.operation_mode {
            config.operation_mode = self.operation_mode;
            need_stop = true;
            changed = true;
        }
        if !self.crossover_freq.is_same(config.crossover_freq) {
            config.crossover_freq = self.crossover_freq;
            changed = true;
        }
        let new_input = device_in(inputs, self.input);
        if !is_same_device(&new_input, &config.target_input_device_id) {
            config.target_input_device_id = new_input;
            need_stop = true;
            changed = true;
        }
        let new_output = device_in(outputs, self.output);
        if !is_same_device(&new_output, &config.target_output_device_id) {
            config.target_output_device_id = new_output;
            need_stop = true;
            changed = true;
        }
        (changed, need_stop)
    }
}

fn same_pid(a: Option<u32>, b: Option<u32>) -> (same: bool)
    ensures
        same == (a == b),
{
    match (a, b) {
        (Some(a), Some(b)) => a == b,
        (None, None) => true,
        _ => false,
    }
}

/// Only what needs it stops the limiter, and whatever stops it is saved too; a window that
/// shows what the settings hold changes nothing.
pub proof fn law_stop_implies_save(
    edited: Edited,
    config: Config,
    inputs: Seq<String>,
    outputs: Seq<String>,
)
    ensures
        edited.needs_stop(config, inputs, outputs) ==> edited.changes(config, inputs, outputs),
        !edited.changes(config, inputs, outputs) ==> edited.written_to(config, inputs, outputs)
            == config,
{
}

/// What the window shows is what the settings hold afterwards, each in the setting of its own
/// name, and each device from its own list: a number or a device that was not edited is kept bit
/// for bit, and where no entry is selected there is no device.
pub proof fn law_settings_hold_what_the_window_shows(
    edited: Edited,
    config: Config,
    inputs: Seq<String>,
    outputs: Seq<String>,
)
    ensures
        ({
            let next = edited.written_to(config, inputs, outputs);
            &&& next.attack_ms == edited.attack_ms
            &&& next.release_ms == edited.release_ms
            &&& next.scan_interval_ms == edited.scan_interval_ms
            &&& next.target_pid == edited.target_pid
            &&& next.operation_mode == edited.operation_mode
            &&& !edited.threshold_db.nan() ==> next.threshold_db.same(edited.threshold_db)
            &&& !edited.crossover_freq.nan() ==> next.crossover_freq.same(edited.crossover_freq)
            &&& !edited.volume_change_percentage_threshold.nan()
                ==> next.volume_change_percentage_threshold.same(
                edited.volume_change_percentage_threshold,
            )
            &&& edited.input < inputs.len() ==> next.target_input_device_id is Some
                && next.target_input_device_id->0@ == inputs[edited.input as int]@
            &&& edited.input >= inputs.len() ==> next.target_input_device_id is None
            &&& edited.output < outputs.len() ==> next.target_output_device_id is Some
                && next.target_output_device_id->0@ == outputs[edited.output as int]@
            &&& edited.output >= outputs.len() ==> next.target_output_device_id is None
        }),
{
}

/// A running limiter is stopped exactly where the mode or one of the devices is another one than
/// before, and the settings are saved exactly where anything is.
pub proof fn law_changes_are_noticed(
    edited: Edited,
    config: Config,
    inputs: Seq<String>,
    outputs: Seq<String>,
)
    ensures
        ({
            let next = edited.written_to(config, inputs, outputs);
            let stop = edited.needs_stop(config, inputs, outputs);
            let save = edited.changes(config, inputs, outputs);
            &&& next.operation_mode != config.operation_mode ==> stop
            &&& next.target_input_device_id != config.target_input_device_id ==> stop
            &&& next.target_output_device_id != config.target_output_device_id ==> stop
            &&& stop ==> next.operation_mode != config.operation_mode
                || next.target_input_device_id != config.target_input_device_id
                || next.target_output_device_id != config.target_output_device_id
            &&& next != config ==> save
            &&& !config.threshold_db.nan() && !config.crossover_freq.nan()
                && !config.volume_change_percentage_threshold.nan() && save ==> next != config
        }),
{
}

/// A second look at what was just taken over finds nothing to take over.
pub proof fn law_writing_back_twice_changes_nothing(
    edited: Edited,
    config: Config,
    inputs: Seq<String>,
    outputs: Seq<String>,
)
    requires
        !edited.threshold_db.nan(),
        !edited.crossover_freq.nan(),
        !edited.volume_change_percentage_threshold.nan(),
    ensures
        ({
            let next = edited.written_to(config, inputs, outputs);
            &&& !edited.changes(next, inputs, outputs)
            &&& !edited.needs_stop(next, inputs, outputs)
            &&& edited.written_to(next, inputs, outputs) == next
        }),
{
}

/// The mixer needs a program and the cable needs both devices; what the other mode needs is not
/// asked for.
pub proof fn law_each_mode_needs_its_own(config: Config)
    ensures
        config.operation_mode == OperationMode::WindowsAPI ==> (obstacle(&config) is None
            <==> config.target_pid is Some),
        config.operation_mode == OperationMode::Cable ==> (obstacle(&config) is None
            <==> config.target_input_device_id is Some && config.target_output_device_id is Some),
        obstacle(&config) == Some(StartObstacle::NoProgram) ==> config.target_pid is None,
        obstacle(&config) == Some(StartObstacle::NoDevices) ==> config.target_input_device_id
            is None || config.target_output_device_id is None,
        obstacle(&config) is Some ==> obstacle(&config) == Some(StartObstacle::NoProgram)
            || obstacle(&config) == Some(StartObstacle::NoDevices),
{
}

/// Why the limiter is not started.
#[derive(Clone, Copy, Debug, PartialEq, Eq, Structural)]
pub enum StartObstacle {
    /// Somebody else is at the settings.
    SettingsBusy,
    NoProgram,
    NoDevices,
    StatePoisoned,
}

/// What starting comes to.
#[derive(Clone, Copy, Debug, PartialEq, Eq, Structural)]
pub enum StartDecision {
    /// Start the thread; limiting is switched on.
    Start,
    /// Somebody else is at the state: try again with the next frame.
    RetryLater,
    Refuse(StartObstacle),
}

/// Whether the settings name what their mode works on.
pub open spec fn obstacle(config: &Config) -> Option<StartObstacle> {
    if config.operation_mode == OperationMode::WindowsAPI && config.target_pid is None {
        Some(StartObstacle::NoProgram)
    } else if config.operation_mode == OperationMode::Cable && (config.target_input_device_id
        is None || config.target_output_device_id is None) {
        Some(StartObstacle::NoDevices)
    } else {
        None
    }
}

/// The requests that wait for the state to be free.
#[derive(Clone, Copy, Debug, PartialEq, Eq, Structural)]
pub struct Retries {
    pub start: bool,
    pub stop: bool,
}

/// What a start comes to.
pub open spec fn start_decision(config: Option<&Config>, state: Access<()>) -> StartDecision {
    match config {
        None => StartDecision::Refuse(StartObstacle::SettingsBusy),
        Some(config) => match obstacle(config) {
            Some(obstacle) => StartDecision::Refuse(obstacle),
            None => match state {
                Access::Granted(_) => StartDecision::Start,
                Access::Busy => StartDecision::RetryLater,
                Access::Poisoned => StartDecision::Refuse(StartObstacle::StatePoisoned),
            },
        },
    }
}

impl Retries {
    /// What waits after a start.
    pub open spec fn after_start(self, decision: StartDecision) -> Retries {
        match decision {
            StartDecision::Start => Retries { start: false, ..self },
            StartDecision::RetryLater => Retries { start: true, ..self },
            StartDecision::Refuse(_) => self,
        }
    }

    /// What waits after a stop.
    pub open spec fn after_stop(self, state: Access<()>) -> Retries {
        Retries { stop: state is Busy, ..self }
    }

    /// Decides about a start. `config` is `None` where somebody else is at it; `state` says
    /// what trying to get at the state came to.
    pub fn start_limiting(&mut self, config: Option<&Config>, state: Access<()>) -> (decision:
        StartDecision)
        ensures
            decision == (match config {
                None => StartDecision::Refuse(StartObstacle::SettingsBusy),
                Some(config) => match obstacle(config) {
                    Some(obstacle) => StartDecision::Refuse(obstacle),
                    None => match state {
                        Access::Granted(_) => StartDecision::Start,
                        Access::Busy => StartDecision::RetryLater,
                        Access::Poisoned => StartDecision::Refuse(StartObstacle::StatePoisoned),
                    },
                },
            }),
            *final(self) == (Retries {
                start: match decision {
                    StartDecision::Start => false,
                    StartDecision::RetryLater => true,
                    StartDecision::Refuse(_) => old(self).start,
                },
                ..*old(self)
            }),
            decision == start_decision(config, state),
            *final(self) == old(self).after_start(decision),
    {
        let config = match config {
            None => return StartDecision::Refuse(StartObstacle::SettingsBusy),
            Some(config) => config,
        };
        match config.operation_mode {
            OperationMode::WindowsAPI => {
                if config.target_pid.is_none() {
                    return StartDecision::Refuse(StartObstacle::NoProgram);
                }
            },
            OperationMode::Cable => {
                if config.target_input_device_id.is_none()
                    || config.target_output_device_id.is_none() {
                    return StartDecision::Refuse(StartObstacle::NoDevices);
                }
            },
        }
        match state {
            Access::Granted(_) => {
                self.start = false;
                StartDecision::Start
            },
            Access::Busy => {
                self.start = true;
                StartDecision::RetryLater
            },
            Access::Poisoned => StartDecision::Refuse(StartObstacle::StatePoisoned),
        }
    }

    /// Decides about a stop: gives back whether limiting is switched off now.
    pub fn stop_limiting(&mut self, state: Access<()>) -> (stopped: bool)
        ensures
            stopped == state is Granted,
            *final(self) == (Retries { stop: state is Busy, ..*old(self) }),
            *final(self) == old(self).after_stop(state),
    {
        match state {
            Access::Granted(_) => {
                self.stop = false;
                true
            },
            Access::Busy => {
                self.stop = true;
                false
            },
            Access::Poisoned => {
                self.stop = false;
                false
            },
        }
    }
}

/// The start button starts something.
pub open spec fn button_starts(selected_pid: Option<u32>, mode: OperationMode) -> bool {
    selected_pid is Some || mode == OperationMode::Cable
}

/// Whether the start button starts anything: in the cable mode always, in the other one
/// only where a program is selected.
pub fn start_button_starts(selected_pid: Option<u32>, mode: OperationMode) -> (starts: bool)
    ensures
        starts == (selected_pid is Some || mode == OperationMode::Cable),
        starts == button_starts(selected_pid, mode),
{
    match mode {
        OperationMode::Cable => true,
        OperationMode::WindowsAPI => selected_pid.is_some(),
    }
}

/// What the title says where a program is to be selected first.
pub fn select_program_title() -> (title: &'static str)
    ensures
        title@ == "请先选择一个应用"@,
{
    "请先选择一个应用"
}

/// Which loop a start runs; none where somebody else is at the settings.
#[derive(Clone, Copy, Debug, PartialEq, Eq, Structural)]
pub enum LimiterLoop {
    Cable,
    Volume,
    Refuse,
}

/// The loop for a mode.
pub open spec fn loop_for(mode: Access<OperationMode>) -> LimiterLoop {
    match mode {
        Access::Granted(mode) => match mode {
            OperationMode::Cable => LimiterLoop::Cable,
            OperationMode::WindowsAPI => LimiterLoop::Volume,
        },
        _ => LimiterLoop::Refuse,
    }
}

pub fn choose_loop(mode: Access<OperationMode>) -> (chosen: LimiterLoop)
    ensures
        chosen == (match mode {
            Access::Granted(OperationMode::Cable) => LimiterLoop::Cable,
            Access::Granted(OperationMode::WindowsAPI) => LimiterLoop::Volume,
            _ => LimiterLoop::Refuse,
        }),
        chosen == loop_for(mode),
{
    match mode {
        Access::Granted(mode) => match mode {
            OperationMode::Cable => LimiterLoop::Cable,
            OperationMode::WindowsAPI => LimiterLoop::Volume,
        },
        _ => LimiterLoop::Refuse,
    }
}

/// Lists are shown for two seconds and not a nanosecond longer.
pub proof fn law_lists_are_shown_for_two_seconds(elapsed_ns: u64)
    ensures
        outdated(elapsed_ns) <==> elapsed_ns >= 2_000_000_001,
{
}

/// The entry that is selected for a device stands for that device when the settings are taken over:
/// a device that is listed survives, and one that is not listed is no device any more.
pub proof fn law_selected_entry_is_the_device(
    ids: Seq<String>,
    id: Option<String>,
    at: usize,
    listed: int,
)
    requires
        selects(ids, id, at),
        ids.len() <= usize::MAX,
        id is Some ==> 0 <= listed < ids.len(),
    ensures
        id is None ==> device_at(ids, at) is None,
        id is Some && ids[listed]@ == id->0@ ==> same_device(device_at(ids, at), id) && at <= listed,
        device_at(ids, at) is Some ==> same_device(device_at(ids, at), id),
{
    if id is Some && ids[listed]@ == id->0@ {
        assert(exists|i: int| 0 <= i < ids.len() && (#[trigger] ids[i])@ == id->0@);
    }
}

/// A selected device is shown by its name, and any other text stands for any device without one.
pub proof fn law_selected_device_is_shown_by_its_name(
    at: usize,
    other: usize,
    name: Seq<char>,
    other_name: Option<Seq<char>>,
)
    requires
        at != NOTHING_SELECTED,
        other != NOTHING_SELECTED,
    ensures
        device_text(at, Some(name)) == name,
        device_text(at, None) == device_text(other, None),
        device_text(NOTHING_SELECTED, Some(name)) == device_text(NOTHING_SELECTED, other_name),
        device_text(NOTHING_SELECTED, other_name) != device_text(at, None),
{
    reveal_strlit("未选择");
    reveal_strlit("未知设备");
    assert("未选择"@.len() != "未知设备"@.len());
}

/// Programs of the same name are told apart by their numbers, and devices without a name by their
/// places.
pub proof fn law_entries_are_told_apart(name: Seq<char>, a: u32, b: u32, at: usize, other: usize)
    ensures
        program_entry(name, a) == program_entry(name, b) ==> a == b,
        nameless_entry(at) == nameless_entry(other) ==> at == other,
        name.is_prefix_of(program_entry(name, a)),
{
    let front = name + " (PID: "@;
    let digits_a = decimal(a as nat);
    let digits_b = decimal(b as nat);
    assert(program_entry(name, a).len() == front.len() + digits_a.len() + ")"@.len());
    assert(program_entry(name, b).len() == front.len() + digits_b.len() + ")"@.len());
    let start = front.len() as int;
    assert(program_entry(name, a).subrange(start, start + digits_a.len()) =~= digits_a);
    assert(program_entry(name, b).subrange(start, start + digits_b.len()) =~= digits_b);
    crate::text::law_decimal_is_read_back(a as nat);
    crate::text::law_decimal_is_read_back(b as nat);
    let short = "设备 "@;
    assert(nameless_entry(at).skip(short.len() as int) =~= decimal(at as nat));
    assert(nameless_entry(other).skip(short.len() as int) =~= decimal(other as nat));
    crate::text::law_decimal_is_read_back(at as nat);
    crate::text::law_decimal_is_read_back(other as nat);
    assert(name =~= program_entry(name, a).take(name.len() as int));
}

/// A start happens only where the settings can be read, name what their mode works on, and nobody
/// else is at the state; it is tried again only where the last of these was wanting. A start that is
/// refused changes nothing of what waits, and a start and a stop leave each other alone.
pub proof fn law_starts_happen_or_wait(
    retries: Retries,
    config: Option<&Config>,
    state: Access<()>,
    decision: StartDecision,
)
    requires
        decision == start_decision(config, state),
    ensures
        decision == StartDecision::Start <==> config is Some && obstacle(config->0) is None && state
            is Granted,
        decision == StartDecision::RetryLater <==> config is Some && obstacle(config->0) is None
            && state is Busy,
        config is None ==> decision == StartDecision::Refuse(StartObstacle::SettingsBusy),
        config is Some && obstacle(config->0) is Some ==> decision == StartDecision::Refuse(
            obstacle(config->0)->0,
        ),
        decision == StartDecision::Start ==> !retries.after_start(decision).start,
        decision == StartDecision::RetryLater ==> retries.after_start(decision).start,
        decision is Refuse ==> retries.after_start(decision) == retries,
        retries.after_start(decision).stop == retries.stop,
        retries.after_stop(state).start == retries.start,
        retries.after_stop(state).stop <==> state is Busy,
{
}

/// Each mode has its own loop, and no loop runs while the mode cannot be read; the button starts
/// whatever a start would not refuse for want of a program.
pub proof fn law_each_mode_has_its_loop(mode: OperationMode, other: OperationMode, config: Config)
    ensures
        loop_for(Access::Granted(mode)) == loop_for(Access::Granted(other)) ==> mode == other,
        loop_for(Access::Granted(OperationMode::Cable)) == LimiterLoop::Cable,
        loop_for(Access::Granted(mode)) != LimiterLoop::Refuse,
        loop_for(Access::Busy) == LimiterLoop::Refuse,
        loop_for(Access::Poisoned) == LimiterLoop::Refuse,
        obstacle(&config) == Some(StartObstacle::NoProgram) <==> !button_starts(
            config.target_pid,
            config.operation_mode,
        ),
{
}

} // verus!
