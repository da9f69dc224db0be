//! The life of audio sessions: starting them, keeping them going when a device drops out,
//! and ending them.
//!
//! Every start is numbered by a generation. A supervisor runs one session after the other
//! for as long as its generation is the latest one, limiting is switched on and the program
//! is not about to end.

use vstd::prelude::*;

verus! {

/// How often a waiting supervisor looks up, in nanoseconds.
pub const CONTROL_POLL_NS: u64 = 50_000_000;

/// How long a program that ends sleeps between two looks at the supervisors, in
/// nanoseconds.
pub const SHUTDOWN_POLL_NS: u64 = 10_000_000;

pub const RECONNECT_BACKOFF_MIN_MS: u64 = 250;

pub const RECONNECT_BACKOFF_MAX_MS: u64 = 2000;

/// A session that ran for so many milliseconds counts as one that was well.
pub const STABLE_SESSION_MS: u64 = 10_000;

/// Whether the supervisor of `generation` is to go on.
pub open spec fn to_run(
    should_exit: bool,
    current_generation: u64,
    generation: u64,
    is_limiting: bool,
) -> bool {
    !should_exit && current_generation == generation && is_limiting
}

pub fn is_requested_to_run(
    should_exit: bool,
    current_generation: u64,
    generation: u64,
    is_limiting: bool,
) -> (run: bool)
    ensures
        run == to_run(should_exit, current_generation, generation, is_limiting),
{
    if should_exit {
        return false;
    }
    if current_generation != generation {
        return false;
    }
    is_limiting
}

/// A supervisor of an earlier generation is not to go on, whatever else holds.
pub proof fn law_only_latest_generation_runs(
    should_exit: bool,
    current_generation: u64,
    a: u64,
    b: u64,
    is_limiting: bool,
)
    requires
        to_run(should_exit, current_generation, a, is_limiting),
        to_run(should_exit, current_generation, b, is_limiting),
    ensures
        a == b,
{
}

/// How a session ended.
#[derive(Clone, Copy, Debug, PartialEq, Eq, Structural)]
pub enum SessionExit {
    StopRequested,
    /// The session could not be had or broke off after so many milliseconds.
    Retry(u64),
}

/// What the control loop of a running session does next.
#[derive(Clone, Copy, Debug, PartialEq, Eq, Structural)]
pub enum SessionControl {
    Stop,
    /// A stream reported an error.
    Fail,
    /// Look again after the poll interval.
    Wait,
}

/// What a running session does where it is wanted or not, and a stream reported an error or not.
pub open spec fn control_of(requested: bool, stream_failed: bool) -> SessionControl {
    if !requested {
        SessionControl::Stop
    } else if stream_failed {
        SessionControl::Fail
    } else {
        SessionControl::Wait
    }
}

pub fn control_session(requested: bool, stream_failed: bool) -> (control: SessionControl)
    ensures
        control == (if !requested {
            SessionControl::Stop
        } else if stream_failed {
            SessionControl::Fail
        } else {
            SessionControl::Wait
        }),
        control == control_of(requested, stream_failed),
{
    if !requested {
        SessionControl::Stop
    } else if stream_failed {
        SessionControl::Fail
    } else {
        SessionControl::Wait
    }
}

/// The delay before the next attempt, where the last session ran for `ran_for_ms` and the
/// delay was to be `backoff_ms`.
pub open spec fn delay_after(backoff_ms: u64, ran_for_ms: u64) -> u64 {
    if ran_for_ms >= STABLE_SESSION_MS {
        RECONNECT_BACKOFF_MIN_MS
    } else {
        backoff_ms
    }
}

/// The delay after the next failure.
pub open spec fn doubled(backoff_ms: u64) -> u64 {
    if 2 * backoff_ms > RECONNECT_BACKOFF_MAX_MS {
        RECONNECT_BACKOFF_MAX_MS
    } else {
        (2 * backoff_ms) as u64
    }
}

/// What a supervisor does next.
#[derive(Clone, Copy, Debug, PartialEq, Eq, Structural)]
pub enum SupervisorStep {
    /// Look whether it is to go on.
    Ask,
    RunSession,
    /// Sleep for so many milliseconds, unless it is to end before; answers whether it is
    /// still to go on.
    Sleep(u64),
}

/// Where a supervisor stands.
#[derive(Clone, Copy, Debug, PartialEq, Eq, Structural)]
pub enum SupervisorStage {
    /// It has waited for its turn and is to look whether it is still wanted.
    AskFirst,
    AskAgain,
    Run,
    /// The session ended after so many milliseconds.
    AskAfter(u64),
    Sleep,
    Done,
}

#[derive(Clone, Copy, Debug, PartialEq, Eq, Structural)]
pub struct Supervisor {
    pub stage: SupervisorStage,
    pub backoff_ms: u64,
}

impl Supervisor {
    pub open spec fn fresh() -> Supervisor {
        Supervisor { stage: SupervisorStage::AskFirst, backoff_ms: RECONNECT_BACKOFF_MIN_MS }
    }

    pub open spec fn wf(self) -> bool {
        RECONNECT_BACKOFF_MIN_MS <= self.backoff_ms <= RECONNECT_BACKOFF_MAX_MS
    }

    pub open spec fn upcoming(self) -> Option<SupervisorStep> {
        match self.stage {
            SupervisorStage::AskFirst => Some(SupervisorStep::Ask),
            SupervisorStage::AskAgain => Some(SupervisorStep::Ask),
            SupervisorStage::Run => Some(SupervisorStep::RunSession),
            SupervisorStage::AskAfter(_) => Some(SupervisorStep::Ask),
            SupervisorStage::Sleep => Some(SupervisorStep::Sleep(self.backoff_ms)),
            SupervisorStage::Done => None,
        }
    }

    /// The supervisor after it looked whether it is to go on, or slept.
    pub open spec fn told(self, go_on: bool) -> Supervisor {
        if !go_on {
            Supervisor { stage: SupervisorStage::Done, ..self }
        } else {
            match self.stage {
                SupervisorStage::AskFirst => Supervisor {
                    stage: SupervisorStage::AskAgain,
                    ..self
                },
                SupervisorStage::AskAgain => Supervisor { stage: SupervisorStage::Run, ..self },
                SupervisorStage::AskAfter(ran_for_ms) => Supervisor {
                    stage: SupervisorStage::Sleep,
                    backoff_ms: delay_after(self.backoff_ms, ran_for_ms),
                },
                SupervisorStage::Sleep => Supervisor {
                    stage: SupervisorStage::AskAgain,
                    backoff_ms: doubled(self.backoff_ms),
                },
                _ => self,
            }
        }
    }

    /// The supervisor after a session.
    pub open spec fn after_session(self, exit: SessionExit) -> Supervisor {
        match exit {
            SessionExit::StopRequested => Supervisor { stage: SupervisorStage::Done, ..self },
            SessionExit::Retry(ran_for_ms) => Supervisor {
                stage: SupervisorStage::AskAfter(ran_for_ms),
                ..self
            },
        }
    }

    pub fn new() -> (supervisor: Supervisor)
        ensures
            supervisor == Supervisor::fresh(),
            supervisor.wf(),
    {
        Supervisor { stage: SupervisorStage::AskFirst, backoff_ms: RECONNECT_BACKOFF_MIN_MS }
    }

    pub fn next_step(&self) -> (step: Option<SupervisorStep>)
        ensures
            step == self.upcoming(),
    {
        match self.stage {
            SupervisorStage::AskFirst => Some(SupervisorStep::Ask),
            SupervisorStage::AskAgain => Some(SupervisorStep::Ask),
            SupervisorStage::Run => Some(SupervisorStep::RunSession),
            SupervisorStage::AskAfter(_) => Some(SupervisorStep::Ask),
            SupervisorStage::Sleep => Some(SupervisorStep::Sleep(self.backoff_ms)),
            SupervisorStage::Done => None,
        }
    }

    /// Takes in whether the supervisor is to go on.
    pub fn resume(&mut self, go_on: bool)
        requires
            old(self).wf(),
        ensures
            *final(self) == old(self).told(go_on),
            final(self).wf(),
    {
        if !go_on {
            self.stage = SupervisorStage::Done;
            return;
        }
        match self.stage {
            SupervisorStage::AskFirst => {
                self.stage = SupervisorStage::AskAgain;
            },
            SupervisorStage::AskAgain => {
                self.stage = SupervisorStage::Run;
            },
            SupervisorStage::AskAfter(ran_for_ms) => {
                if ran_for_ms >= STABLE_SESSION_MS {
                    self.backoff_ms = RECONNECT_BACKOFF_MIN_MS;
                }
                self.stage = SupervisorStage::Sleep;
            },
            SupervisorStage::Sleep => {
                self.backoff_ms = if 2 * self.backoff_ms > RECONNECT_BACKOFF_MAX_MS {
                    RECONNECT_BACKOFF_MAX_MS
                } else {
                    2 * self.backoff_ms
                };
                self.stage = SupervisorStage::AskAgain;
            },
            _ => {},
        }
    }

    /// Takes in how the session ended.
    pub fn end_session(&mut self, exit: SessionExit)
        requires
            old(self).wf(),
        ensures
            *final(self) == old(self).after_session(exit),
            final(self).wf(),
    {
        self.stage = match exit {
            SessionExit::StopRequested => SupervisorStage::Done,
            SessionExit::Retry(ran_for_ms) => SupervisorStage::AskAfter(ran_for_ms),
        };
    }
}

/// The delay after `failures` sessions in a row that were not well.
pub open spec fn delay_sequence(failures: nat) -> u64
    decreases failures,
{
    if failures == 0 {
        RECONNECT_BACKOFF_MIN_MS
    } else {
        doubled(delay_sequence((failures - 1) as nat))
    }
}

/// The delays start at the shortest, double, and stay at the longest.
pub proof fn law_delays_double_up_to_longest(failures: nat)
    ensures
        RECONNECT_BACKOFF_MIN_MS <= delay_sequence(failures) <= RECONNECT_BACKOFF_MAX_MS,
        failures == 0 ==> delay_sequence(failures) == 250,
        failures == 1 ==> delay_sequence(failures) == 500,
        failures == 2 ==> delay_sequence(failures) == 1000,
        failures >= 3 ==> delay_sequence(failures) == 2000,
    decreases failures,
{
    if failures > 0 {
        law_delays_double_up_to_longest((failures - 1) as nat);
    }
}

/// A failed session is followed by a sleep as long as the delay in force, the shortest one
/// where the session had been well; the delay after that is twice as long.
pub proof fn law_failure_is_followed_by_delay(supervisor: Supervisor, ran_for_ms: u64)
    requires
        supervisor.wf(),
        supervisor.stage == SupervisorStage::Run,
    ensures
        ({
            let failed = supervisor.after_session(SessionExit::Retry(ran_for_ms)).told(true);
            let delay = delay_after(supervisor.backoff_ms, ran_for_ms);
            &&& failed.upcoming() == Some(SupervisorStep::Sleep(delay))
            &&& failed.told(true).backoff_ms == doubled(delay)
            &&& failed.told(true).told(true).upcoming() == Some(SupervisorStep::RunSession)
            &&& failed.told(false).upcoming() is None
        }),
{
}

/// What a sleep that can be broken off does next.
#[derive(Clone, Copy, Debug, PartialEq, Eq, Structural)]
pub enum NapStep {
    /// Look whether to go on, and if so sleep for so many nanoseconds.
    Doze(u64),
    /// The time is over: look whether to go on.
    Rise,
}

/// The next piece of a sleep.
pub open spec fn nap(duration_ns: u64, elapsed_ns: u64) -> NapStep {
    if elapsed_ns >= duration_ns {
        NapStep::Rise
    } else if duration_ns - elapsed_ns > CONTROL_POLL_NS {
        NapStep::Doze(CONTROL_POLL_NS)
    } else {
        NapStep::Doze((duration_ns - elapsed_ns) as u64)
    }
}

/// What a sleep of `duration_ns` does after `elapsed_ns`: it is cut into pieces no longer
/// than the poll interval.
pub fn interruptible_sleep(duration_ns: u64, elapsed_ns: u64) -> (step: NapStep)
    ensures
        step == (if elapsed_ns >= duration_ns {
            NapStep::Rise
        } else if duration_ns - elapsed_ns > CONTROL_POLL_NS {
            NapStep::Doze(CONTROL_POLL_NS)
        } else {
            NapStep::Doze((duration_ns - elapsed_ns) as u64)
        }),
        step == nap(duration_ns, elapsed_ns),
{
    if elapsed_ns >= duration_ns {
        NapStep::Rise
    } else {
        let remaining: u64 = duration_ns - elapsed_ns;
        NapStep::Doze(
            if remaining > CONTROL_POLL_NS {
                CONTROL_POLL_NS
            } else {
                remaining
            },
        )
    }
}

/// What a program that ends does next while supervisors may still be at work.
#[derive(Clone, Copy, Debug, PartialEq, Eq, Structural)]
pub enum ShutdownStep {
    /// All have ended.
    Quiet,
    /// It has waited long enough.
    TimedOut,
    /// Sleep for so many nanoseconds and look again.
    Sleep(u64),
}

/// The next step of a wait for supervisors.
pub open spec fn shutdown_step(active_threads: u64, elapsed_ns: u64, timeout_ns: u64) -> ShutdownStep {
    if active_threads == 0 {
        ShutdownStep::Quiet
    } else if elapsed_ns >= timeout_ns {
        ShutdownStep::TimedOut
    } else {
        ShutdownStep::Sleep(SHUTDOWN_POLL_NS)
    }
}

/// Decides how to wait for `active_threads` supervisors, `elapsed_ns` into a wait of at
/// most `timeout_ns`.
pub fn wait_for_shutdown(active_threads: u64, elapsed_ns: u64, timeout_ns: u64) -> (step:
    ShutdownStep)
    ensures
        step == (if active_threads == 0 {
            ShutdownStep::Quiet
        } else if elapsed_ns >= timeout_ns {
            ShutdownStep::TimedOut
        } else {
            ShutdownStep::Sleep(SHUTDOWN_POLL_NS)
        }),
        step == shutdown_step(active_threads, elapsed_ns, timeout_ns),
{
    if active_threads == 0 {
        ShutdownStep::Quiet
    } else if elapsed_ns >= timeout_ns {
        ShutdownStep::TimedOut
    } else {
        ShutdownStep::Sleep(SHUTDOWN_POLL_NS)
    }
}

/// What starts, supervisors and the user interface share.
#[derive(Clone, Copy, Debug, PartialEq, Eq, Structural)]
pub struct LifecycleCells {
    pub generation: u64,
    pub active_threads: u64,
    pub is_limiting: bool,
}

/// One access to these cells.
#[derive(Clone, Copy, Debug, PartialEq, Eq, Structural)]
pub enum LifecycleAccess {
    /// Moves on to the next generation; answers the one before.
    AdvanceGeneration,
    LoadGeneration,
    CountUp,
    CountDown,
    StoreLimiting(bool),
}

/// The number after `value`, starting over after the largest.
pub open spec fn next_number(value: u64) -> u64 {
    if value == u64::MAX {
        0
    } else {
        (value + 1) as u64
    }
}

/// The number before `value`.
pub open spec fn previous_number(value: u64) -> u64 {
    if value == 0 {
        u64::MAX
    } else {
        (value - 1) as u64
    }
}

impl LifecycleCells {
    pub open spec fn after(self, access: LifecycleAccess) -> LifecycleCells {
        match access {
            LifecycleAccess::AdvanceGeneration => LifecycleCells {
                generation: next_number(self.generation),
                ..self
            },
            LifecycleAccess::LoadGeneration => self,
            LifecycleAccess::CountUp => LifecycleCells {
                active_threads: next_number(self.active_threads),
                ..self
            },
            LifecycleAccess::CountDown => LifecycleCells {
                active_threads: previous_number(self.active_threads),
                ..self
            },
            LifecycleAccess::StoreLimiting(value) => LifecycleCells { is_limiting: value, ..self },
        }
    }

    pub open spec fn answer(self, access: LifecycleAccess) -> u64 {
        match access {
            LifecycleAccess::AdvanceGeneration => self.generation,
            LifecycleAccess::LoadGeneration => self.generation,
            _ => 0,
        }
    }

    pub fn new() -> (cells: LifecycleCells)
        ensures
            cells == (LifecycleCells { generation: 0, active_threads: 0, is_limiting: false }),
    {
        LifecycleCells { generation: 0, active_threads: 0, is_limiting: false }
    }

    /// Carries out an access.
    pub fn perform(&mut self, access: LifecycleAccess) -> (answer: u64)
        ensures
            *final(self) == old(self).after(access),
            answer == old(self).answer(access),
    {
        match access {
            LifecycleAccess::AdvanceGeneration => {
                let before: u64 = self.generation;
                self.generation = following(before);
                before
            },
            LifecycleAccess::LoadGeneration => self.generation,
            LifecycleAccess::CountUp => {
                self.active_threads = following(self.active_threads);
                0
            },
            LifecycleAccess::CountDown => {
                self.active_threads = if self.active_threads == 0 {
                    u64::MAX
                } else {
                    self.active_threads - 1
                };
                0
            },
            LifecycleAccess::StoreLimiting(value) => {
                self.is_limiting = value;
                0
            },
        }
    }
}

fn following(value: u64) -> (next: u64)
    ensures
        next == next_number(value),
{
    if value == u64::MAX {
        0
    } else {
        value + 1
    }
}

/// Where a start and the thread that comes of it stand.
#[derive(Clone, Copy, Debug, PartialEq, Eq, Structural)]
pub enum LaunchStage {
    Advance,
    /// Count the thread before it exists, so that none is missed.
    CountUp,
    Spawn,
    /// The thread runs its supervisor.
    Running,
    /// The supervisor has ended: switch limiting off, unless a later start took over.
    LookWhenEnded,
    ClearWhenEnded,
    CountDownWhenEnded,
    /// The thread could not be had.
    CountDownWhenFailed,
    LookWhenFailed,
    ClearWhenFailed,
    Over,
}

/// What is to be done next in the course of a start.
#[derive(Clone, Copy, Debug, PartialEq, Eq, Structural)]
pub enum LaunchStep {
    Access(LifecycleAccess),
    /// Make the thread; answers zero where that fails.
    Spawn,
    /// Run the supervisor.
    Supervise,
}

/// A start and the thread that comes of it.
#[derive(Clone, Copy, Debug, PartialEq, Eq, Structural)]
pub struct Launch {
    pub stage: LaunchStage,
    pub generation: u64,
}

impl Launch {
    pub open spec fn fresh() -> Launch {
        Launch { stage: LaunchStage::Advance, generation: 0 }
    }

    /// The thread counts as active.
    pub open spec fn counted(self) -> bool {
        ||| self.stage == LaunchStage::Spawn
        ||| self.stage == LaunchStage::Running
        ||| self.stage == LaunchStage::LookWhenEnded
        ||| self.stage == LaunchStage::ClearWhenEnded
        ||| self.stage == LaunchStage::CountDownWhenEnded
        ||| self.stage == LaunchStage::CountDownWhenFailed
    }

    pub open spec fn upcoming(self) -> Option<LaunchStep> {
        match self.stage {
            LaunchStage::Advance => Some(LaunchStep::Access(LifecycleAccess::AdvanceGeneration)),
            LaunchStage::CountUp => Some(LaunchStep::Access(LifecycleAccess::CountUp)),
            LaunchStage::Spawn => Some(LaunchStep::Spawn),
            LaunchStage::Running => Some(LaunchStep::Supervise),
            LaunchStage::LookWhenEnded => Some(
                LaunchStep::Access(LifecycleAccess::LoadGeneration),
            ),
            LaunchStage::ClearWhenEnded => Some(
                LaunchStep::Access(LifecycleAccess::StoreLimiting(false)),
            ),
            LaunchStage::CountDownWhenEnded => Some(
                LaunchStep::Access(LifecycleAccess::CountDown),
            ),
            LaunchStage::CountDownWhenFailed => Some(
                LaunchStep::Access(LifecycleAccess::CountDown),
            ),
            LaunchStage::LookWhenFailed => Some(
                LaunchStep::Access(LifecycleAccess::LoadGeneration),
            ),
            LaunchStage::ClearWhenFailed => Some(
                LaunchStep::Access(LifecycleAccess::StoreLimiting(false)),
            ),
            LaunchStage::Over => None,
        }
    }

    pub open spec fn resumed(self, answer: u64) -> Launch {
        match self.stage {
            LaunchStage::Advance => Launch {
                stage: LaunchStage::CountUp,
                generation: next_number(answer),
            },
            LaunchStage::CountUp => Launch { stage: LaunchStage::Spawn, ..self },
            LaunchStage::Spawn => Launch {
                stage: if answer != 0 {
                    LaunchStage::Running
                } else {
                    LaunchStage::CountDownWhenFailed
                },
                ..self
            },
            LaunchStage::Running => Launch { stage: LaunchStage::LookWhenEnded, ..self },
            LaunchStage::LookWhenEnded => Launch {
                stage: if answer == self.generation {
                    LaunchStage::ClearWhenEnded
                } else {
                    LaunchStage::CountDownWhenEnded
                },
                ..self
            },
            LaunchStage::ClearWhenEnded => Launch {
                stage: LaunchStage::CountDownWhenEnded,
                ..self
            },
            LaunchStage::CountDownWhenEnded => Launch { stage: LaunchStage::Over, ..self },
            LaunchStage::CountDownWhenFailed => Launch {
                stage: LaunchStage::LookWhenFailed,
                ..self
            },
            LaunchStage::LookWhenFailed => Launch {
                stage: if answer == self.generation {
                    LaunchStage::ClearWhenFailed
                } else {
                    LaunchStage::Over
                },
                ..self
            },
            LaunchStage::ClearWhenFailed => Launch { stage: LaunchStage::Over, ..self },
            LaunchStage::Over => self,
        }
    }

    pub fn new() -> (launch: Launch)
        ensures
            launch == Launch::fresh(),
    {
        Launch { stage: LaunchStage::Advance, generation: 0 }
    }

    pub fn next_step(&self) -> (step: Option<LaunchStep>)
        ensures
            step == self.upcoming(),
    {
        match self.stage {
            LaunchStage::Advance => Some(LaunchStep::Access(LifecycleAccess::AdvanceGeneration)),
            LaunchStage::CountUp => Some(LaunchStep::Access(LifecycleAccess::CountUp)),
            LaunchStage::Spawn => Some(LaunchStep::Spawn),
            LaunchStage::Running => Some(LaunchStep::Supervise),
            LaunchStage::LookWhenEnded => Some(
                LaunchStep::Access(LifecycleAccess::LoadGeneration),
            ),
            LaunchStage::ClearWhenEnded => Some(
                LaunchStep::Access(LifecycleAccess::StoreLimiting(false)),
            ),
            LaunchStage::CountDownWhenEnded => Some(
                LaunchStep::Access(LifecycleAccess::CountDown),
            ),
            LaunchStage::CountDownWhenFailed => Some(
                LaunchStep::Access(LifecycleAccess::CountDown),
            ),
            LaunchStage::LookWhenFailed => Some(
                LaunchStep::Access(LifecycleAccess::LoadGeneration),
            ),
            LaunchStage::ClearWhenFailed => Some(
                LaunchStep::Access(LifecycleAccess::StoreLimiting(false)),
            ),
            LaunchStage::Over => None,
        }
    }

    /// Takes in what the step last asked for gave.
    pub fn resume(&mut self, answer: u64)
        ensures
            *final(self) == old(self).resumed(answer),
    {
        match self.stage {
            LaunchStage::Advance => {
                self.generation = following(answer);
                self.stage = LaunchStage::CountUp;
            },
            LaunchStage::CountUp => {
                self.stage = LaunchStage::Spawn;
            },
            LaunchStage::Spawn => {
                self.stage = if answer != 0 {
                    LaunchStage::Running
                } else {
                    LaunchStage::CountDownWhenFailed
                };
            },
            LaunchStage::Running => {
                self.stage = LaunchStage::LookWhenEnded;
            },
            LaunchStage::LookWhenEnded => {
                self.stage = if answer == self.generation {
                    LaunchStage::ClearWhenEnded
                } else {
                    LaunchStage::CountDownWhenEnded
                };
            },
            LaunchStage::ClearWhenEnded => {
                self.stage = LaunchStage::CountDownWhenEnded;
            },
            LaunchStage::CountDownWhenEnded => {
                self.stage = LaunchStage::Over;
            },
            LaunchStage::CountDownWhenFailed => {
                self.stage = LaunchStage::LookWhenFailed;
            },
            LaunchStage::LookWhenFailed => {
                self.stage = if answer == self.generation {
                    LaunchStage::ClearWhenFailed
                } else {
                    LaunchStage::Over
                };
            },
            LaunchStage::ClearWhenFailed => {
                self.stage = LaunchStage::Over;
            },
            LaunchStage::Over => {},
        }
    }
}

/// How many of the threads count as active.
pub open spec fn counted_threads(launches: Seq<Launch>) -> nat
    decreases launches.len(),
{
    if launches.len() == 0 {
        0
    } else if launches.last().counted() {
        counted_threads(launches.drop_last()) + 1
    } else {
        counted_threads(launches.drop_last())
    }
}

/// The shared cells with all the starts so far.
pub struct LifecycleWorld {
    pub cells: LifecycleCells,
    pub launches: Seq<Launch>,
}

impl LifecycleWorld {
    pub open spec fn leads_to(self, next: LifecycleWorld) -> bool {
        ||| next == (LifecycleWorld { launches: self.launches.push(Launch::fresh()), ..self })
        ||| exists|at: int, answer: u64| #[trigger] self.launch_acts(next, at, answer)
        ||| self.user_acts(next)
    }

    pub open spec fn launch_acts(self, next: LifecycleWorld, at: int, answer: u64) -> bool {
        &&& 0 <= at < self.launches.len()
        &&& self.launches[at].upcoming() matches Some(step)
        &&& step matches LaunchStep::Access(access) ==> answer == self.cells.answer(access)
        &&& next == (LifecycleWorld {
            cells: match step {
                LaunchStep::Access(access) => self.cells.after(access),
                _ => self.cells,
            },
            launches: self.launches.update(at, self.launches[at].resumed(answer)),
        })
    }

    /// The user interface switches limiting on or off.
    pub open spec fn user_acts(self, next: LifecycleWorld) -> bool {
        next == (LifecycleWorld {
            cells: LifecycleCells { is_limiting: next.cells.is_limiting, ..self.cells },
            ..self
        })
    }
}

pub open spec fn lifecycle_course(worlds: Seq<LifecycleWorld>) -> bool {
    &&& worlds.len() > 0
    &&& worlds[0].cells.active_threads == 0
    &&& worlds[0].launches.len() == 0
    &&& forall|i: int|
        #![trigger worlds[i]]
        0 <= i < worlds.len() - 1 ==> worlds[i].leads_to(worlds[i + 1])
    &&& forall|i: int|
        0 <= i < worlds.len() ==> (#[trigger] worlds[i]).launches.len() <= u64::MAX
}

proof fn lemma_threads_bound(launches: Seq<Launch>)
    ensures
        counted_threads(launches) <= launches.len(),
    decreases launches.len(),
{
    if launches.len() > 0 {
        lemma_threads_bound(launches.drop_last());
    }
}

proof fn lemma_threads_update(launches: Seq<Launch>, at: int, launch: Launch)
    requires
        0 <= at < launches.len(),
    ensures
        counted_threads(launches.update(at, launch)) == counted_threads(launches) - (
        if launches[at].counted() {
            1int
        } else {
            0
        }) + (if launch.counted() {
            1int
        } else {
            0
        }),
    decreases launches.len(),
{
    let updated = launches.update(at, launch);
    if at == launches.len() - 1 {
        assert(updated.drop_last() =~= launches.drop_last());
    } else {
        lemma_threads_update(launches.drop_last(), at, launch);
        assert(updated.drop_last() =~= launches.drop_last().update(at, launch));
        assert(updated.last() == launches.last());
    }
}

proof fn lemma_no_threads(launches: Seq<Launch>, at: int)
    requires
        counted_threads(launches) == 0,
        0 <= at < launches.len(),
    ensures
        !launches[at].counted(),
    decreases launches.len(),
{
    if at < launches.len() - 1 {
        lemma_no_threads(launches.drop_last(), at);
        assert(launches.drop_last()[at] == launches[at]);
    }
}

/// The count of active threads is at all times the number of threads that are being made,
/// run, or have not taken themselves off the count.
pub proof fn law_thread_count_is_exact(worlds: Seq<LifecycleWorld>, at: int)
    requires
        lifecycle_course(worlds),
        0 <= at < worlds.len(),
    ensures
        worlds[at].cells.active_threads == counted_threads(worlds[at].launches),
    decreases at,
{
    if at > 0 {
        law_thread_count_is_exact(worlds, at - 1);
        let world = worlds[at - 1];
        let next = worlds[at];
        assert(world.leads_to(next));
        if exists|place: int, answer: u64| #[trigger] world.launch_acts(next, place, answer) {
            let (place, answer) = choose|place: int, answer: u64| #[trigger]
                world.launch_acts(next, place, answer);
            lemma_threads_update(world.launches, place, next.launches[place]);
            lemma_threads_bound(world.launches);
            lemma_threads_bound(next.launches);
        } else if next.launches.len() > world.launches.len() {
            assert(next.launches.drop_last() =~= world.launches);
        }
    }
}

/// A program that waits until no thread counts as active leaves no supervisor running.
pub proof fn law_quiet_means_no_supervisor(worlds: Seq<LifecycleWorld>, at: int, launch: int)
    requires
        lifecycle_course(worlds),
        0 <= at < worlds.len(),
        worlds[at].cells.active_threads == 0,
        0 <= launch < worlds[at].launches.len(),
    ensures
        worlds[at].launches[launch].stage != LaunchStage::Running,
{
    law_thread_count_is_exact(worlds, at);
    lemma_no_threads(worlds[at].launches, launch);
}

/// A supervisor that ends after a later start took over leaves limiting as it is.
pub proof fn law_late_end_keeps_limiting(launch: Launch, cells: LifecycleCells)
    requires
        launch.stage == LaunchStage::LookWhenEnded || launch.stage == LaunchStage::LookWhenFailed,
        cells.generation != launch.generation,
    ensures
        launch.resumed(cells.generation).upcoming() != Some(
            LaunchStep::Access(LifecycleAccess::StoreLimiting(false)),
        ),
        launch.resumed(cells.generation).resumed(0).upcoming() is None,
{
}

/// A supervisor goes on exactly as long as the program does not end, no later start has taken over
/// and limiting is on.
pub proof fn law_supervisor_goes_on_while_wanted(
    should_exit: bool,
    current_generation: u64,
    generation: u64,
    is_limiting: bool,
)
    ensures
        should_exit ==> !to_run(should_exit, current_generation, generation, is_limiting),
        !is_limiting ==> !to_run(should_exit, current_generation, generation, is_limiting),
        current_generation != generation ==> !to_run(
            should_exit,
            current_generation,
            generation,
            is_limiting,
        ),
        to_run(false, generation, generation, true),
{
}

/// A session that had run for ten seconds is followed by the shortest delay, a quarter of a second,
/// and a shorter one by the delay that was due; the delay after that is twice as long, and never
/// longer than two seconds.
pub proof fn law_well_session_resets_the_delay(supervisor: Supervisor, ran_for_ms: u64)
    requires
        250 <= supervisor.backoff_ms <= 2000,
        supervisor.stage == SupervisorStage::Run,
    ensures
        ({
            let failed = supervisor.after_session(SessionExit::Retry(ran_for_ms)).told(true);
            let woken = failed.told(true);
            &&& ran_for_ms >= 10_000 ==> failed.upcoming() == Some(SupervisorStep::Sleep(250))
            &&& ran_for_ms >= 10_000 ==> woken.backoff_ms == 500
            &&& ran_for_ms < 10_000 ==> failed.upcoming() == Some(
                SupervisorStep::Sleep(supervisor.backoff_ms),
            )
            &&& ran_for_ms < 10_000 && supervisor.backoff_ms <= 1000 ==> woken.backoff_ms == 2
                * supervisor.backoff_ms
            &&& ran_for_ms < 10_000 && supervisor.backoff_ms > 1000 ==> woken.backoff_ms == 2000
            &&& woken.upcoming() == Some(SupervisorStep::Ask)
            &&& woken.told(true).upcoming() == Some(SupervisorStep::RunSession)
        }),
        Supervisor::fresh().backoff_ms == 250,
        supervisor.after_session(SessionExit::StopRequested).upcoming() is None,
        supervisor.after_session(SessionExit::Retry(ran_for_ms)).upcoming() == Some(
            SupervisorStep::Ask,
        ),
        supervisor.after_session(SessionExit::Retry(ran_for_ms)).told(false).upcoming() is None,
{
}

/// A supervisor asks twice before its first session, and one that is told not to go on ends.
pub proof fn law_supervisor_asks_before_it_runs()
    ensures
        Supervisor::fresh().upcoming() == Some(SupervisorStep::Ask),
        Supervisor::fresh().told(true).upcoming() == Some(SupervisorStep::Ask),
        Supervisor::fresh().told(true).told(true).upcoming() == Some(SupervisorStep::RunSession),
        Supervisor::fresh().told(false).upcoming() is None,
        Supervisor::fresh().told(true).told(false).upcoming() is None,
{
}

/// A start knows its own generation: the one that its step made current, and no earlier start has
/// it.
pub proof fn law_start_makes_its_own_generation(cells: LifecycleCells)
    ensures
        ({
            let access = LifecycleAccess::AdvanceGeneration;
            let started = Launch::fresh().resumed(cells.answer(access));
            &&& Launch::fresh().upcoming() == Some(LaunchStep::Access(access))
            &&& started.generation == cells.after(access).generation
            &&& started.generation != cells.generation
            &&& cells.after(access).active_threads == cells.active_threads
            &&& cells.after(access).is_limiting == cells.is_limiting
        }),
{
}

/// A thread counts from before it is made until it has done all else: it is counted, made, run, and
/// taken off the count last; where it could not be made it is taken off the count at once. Whoever
/// is still the latest start switches limiting off at the end.
pub proof fn law_thread_counts_from_start_to_end(launch: Launch, answer: u64)
    requires
        launch.stage == LaunchStage::CountUp,
        answer != 0,
    ensures
        ({
            let counted = launch.resumed(0);
            let running = counted.resumed(answer);
            let ended = running.resumed(0);
            let latest = ended.resumed(launch.generation);
            &&& launch.upcoming() == Some(LaunchStep::Access(LifecycleAccess::CountUp))
            &&& counted.upcoming() == Some(LaunchStep::Spawn)
            &&& running.upcoming() == Some(LaunchStep::Supervise)
            &&& ended.upcoming() == Some(LaunchStep::Access(LifecycleAccess::LoadGeneration))
            &&& latest.upcoming() == Some(
                LaunchStep::Access(LifecycleAccess::StoreLimiting(false)),
            )
            &&& latest.resumed(0).upcoming() == Some(
                LaunchStep::Access(LifecycleAccess::CountDown),
            )
            &&& latest.resumed(0).resumed(0).upcoming() is None
        }),
        ({
            let failed = launch.resumed(0).resumed(0);
            let counted = failed.resumed(0);
            &&& failed.upcoming() == Some(LaunchStep::Access(LifecycleAccess::CountDown))
            &&& counted.upcoming() == Some(LaunchStep::Access(LifecycleAccess::LoadGeneration))
            &&& counted.resumed(launch.generation).upcoming() == Some(
                LaunchStep::Access(LifecycleAccess::StoreLimiting(false)),
            )
            &&& counted.resumed(launch.generation).resumed(0).upcoming() is None
        }),
{
}

/// The shared cells: counting up and down undo each other, and every access changes its own cell.
pub proof fn law_lifecycle_accesses_keep_to_their_cells(cells: LifecycleCells, value: bool)
    ensures
        cells.after(LifecycleAccess::CountUp).after(LifecycleAccess::CountDown) == cells,
        cells.active_threads < u64::MAX ==> cells.after(LifecycleAccess::CountUp).active_threads
            == cells.active_threads + 1,
        cells.after(LifecycleAccess::CountUp).generation == cells.generation,
        cells.after(LifecycleAccess::CountUp).is_limiting == cells.is_limiting,
        cells.after(LifecycleAccess::StoreLimiting(value)) == (LifecycleCells {
            is_limiting: value,
            ..cells
        }),
        cells.after(LifecycleAccess::LoadGeneration) == cells,
        cells.answer(LifecycleAccess::LoadGeneration) == cells.generation,
{
}

/// A session that nobody wants is stopped, whatever its streams report; one that is wanted goes on
/// exactly as long as its streams are well.
pub proof fn law_unwanted_sessions_stop(requested: bool, stream_failed: bool)
    ensures
        control_of(requested, stream_failed) == SessionControl::Stop <==> !requested,
        control_of(requested, stream_failed) == SessionControl::Wait <==> requested
            && !stream_failed,
        control_of(requested, stream_failed) == SessionControl::Fail <==> requested
            && stream_failed,
{
}

/// A sleep ends when its time is over and not before: it never sleeps beyond it, no piece takes longer
/// than fifty milliseconds, and after its last piece it is over.
pub proof fn law_sleep_ends_on_time(duration_ns: u64, elapsed_ns: u64)
    ensures
        nap(duration_ns, elapsed_ns) == NapStep::Rise <==> elapsed_ns >= duration_ns,
        nap(duration_ns, elapsed_ns) matches NapStep::Doze(piece) ==> {
            &&& 0 < piece <= 50_000_000
            &&& elapsed_ns + piece <= duration_ns
            &&& piece < 50_000_000 ==> nap(duration_ns, (elapsed_ns + piece) as u64) == NapStep::Rise
        },
{
}

/// A program that ends waits for nobody once all have ended, and no longer than it may; until then it
/// looks every ten milliseconds.
pub proof fn law_shutdown_waits_for_the_last(
    active_threads: u64,
    elapsed_ns: u64,
    timeout_ns: u64,
)
    ensures
        shutdown_step(active_threads, elapsed_ns, timeout_ns) == ShutdownStep::Quiet
            <==> active_threads == 0,
        shutdown_step(active_threads, elapsed_ns, timeout_ns) == ShutdownStep::TimedOut
            <==> active_threads > 0 && elapsed_ns >= timeout_ns,
        shutdown_step(active_threads, elapsed_ns, timeout_ns) == ShutdownStep::Sleep(10_000_000)
            <==> active_threads > 0 && elapsed_ns < timeout_ns,
{
}

} // verus!
