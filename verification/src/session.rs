//! One audio session, from the look whether it is wanted to its end: what is done in which
//! order, and how the session ends.

use vstd::prelude::*;

use crate::devices::{
    check_channels, find_devices, first_with_id, selected_devices, SessionFault,
};
use crate::supervisor::{control_session, SessionControl, SessionExit};

verus! {

/// What a session does next.
#[derive(Clone, Copy, Debug, PartialEq, Eq, Structural)]
pub enum SessionStep {
    /// Look whether the session is wanted.
    Ask,
    /// Read which devices are selected.
    Select,
    ListInputs,
    ListOutputs,
    /// Look for the selected devices among those that were listed.
    Find,
    /// Read the format in which the input device delivers.
    ReadFormat,
    /// Start the recorder and make the limiter and the ring.
    Prepare,
    BuildInput,
    BuildOutput,
    StartInput,
    StartOutput,
    /// Let recordings be asked for.
    MarkAvailable,
    /// Look whether the session is still wanted and its streams are well.
    Control,
    /// Sleep for the poll interval.
    Sleep,
}

/// Where a session stands.
#[derive(Clone, Copy, Debug, PartialEq, Eq, Structural)]
pub enum SessionStage {
    Doing(SessionStep),
    Over(SessionExit),
}

#[derive(Clone, Copy, Debug, PartialEq, Eq, Structural)]
pub struct Session {
    pub stage: SessionStage,
    /// Why the session could not be had, or broke off.
    pub fault: Option<SessionFault>,
}

/// Why a step did not work that can fail for a reason of the machine's own.
pub open spec fn fault_of(step: SessionStep) -> Option<SessionFault> {
    match step {
        SessionStep::ListInputs => Some(SessionFault::ListInputs),
        SessionStep::ListOutputs => Some(SessionFault::ListOutputs),
        SessionStep::ReadFormat => Some(SessionFault::InputConfig),
        SessionStep::BuildInput => Some(SessionFault::BuildInput),
        SessionStep::BuildOutput => Some(SessionFault::BuildOutput),
        SessionStep::StartInput => Some(SessionFault::StartInput),
        SessionStep::StartOutput => Some(SessionFault::StartOutput),
        _ => None,
    }
}

/// What follows a step that worked.
pub open spec fn following(step: SessionStep) -> SessionStep {
    match step {
        SessionStep::Ask => SessionStep::Select,
        SessionStep::Select => SessionStep::ListInputs,
        SessionStep::ListInputs => SessionStep::ListOutputs,
        SessionStep::ListOutputs => SessionStep::Find,
        SessionStep::Find => SessionStep::ReadFormat,
        SessionStep::ReadFormat => SessionStep::Prepare,
        SessionStep::Prepare => SessionStep::BuildInput,
        SessionStep::BuildInput => SessionStep::BuildOutput,
        SessionStep::BuildOutput => SessionStep::StartInput,
        SessionStep::StartInput => SessionStep::StartOutput,
        SessionStep::StartOutput => SessionStep::MarkAvailable,
        SessionStep::MarkAvailable => SessionStep::Control,
        SessionStep::Control => SessionStep::Sleep,
        SessionStep::Sleep => SessionStep::Control,
    }
}

fn next_of(step: SessionStep) -> (next: SessionStep)
    ensures
        next == following(step),
{
    match step {
        SessionStep::Ask => SessionStep::Select,
        SessionStep::Select => SessionStep::ListInputs,
        SessionStep::ListInputs => SessionStep::ListOutputs,
        SessionStep::ListOutputs => SessionStep::Find,
        SessionStep::Find => SessionStep::ReadFormat,
        SessionStep::ReadFormat => SessionStep::Prepare,
        SessionStep::Prepare => SessionStep::BuildInput,
        SessionStep::BuildInput => SessionStep::BuildOutput,
        SessionStep::BuildOutput => SessionStep::StartInput,
        SessionStep::StartInput => SessionStep::StartOutput,
        SessionStep::StartOutput => SessionStep::MarkAvailable,
        SessionStep::MarkAvailable => SessionStep::Control,
        SessionStep::Control => SessionStep::Sleep,
        SessionStep::Sleep => SessionStep::Control,
    }
}

impl Session {
    /// A session that makes the step next.
    pub open spec fn at(step: SessionStep) -> Session {
        Session { stage: SessionStage::Doing(step), fault: None }
    }

    /// A session that could not be had: it is to be tried again, and did not run at all.
    pub open spec fn failed(fault: SessionFault) -> Session {
        Session { stage: SessionStage::Over(SessionExit::Retry(0)), fault: Some(fault) }
    }

    /// A session that nobody wants.
    pub open spec fn stopped() -> Session {
        Session { stage: SessionStage::Over(SessionExit::StopRequested), fault: None }
    }

    pub fn new() -> (session: Session)
        ensures
            session == Session::at(SessionStep::Ask),
    {
        Session { stage: SessionStage::Doing(SessionStep::Ask), fault: None }
    }

    /// The next step; none once the session is over.
    pub fn next_step(&self) -> (step: Option<SessionStep>)
        ensures
            step == (match self.stage {
                SessionStage::Doing(step) => Some(step),
                SessionStage::Over(_) => None,
            }),
    {
        match self.stage {
            SessionStage::Doing(step) => Some(step),
            SessionStage::Over(_) => None,
        }
    }

    /// How the session ended, once it is over.
    pub fn exit(&self) -> (exit: Option<SessionExit>)
        ensures
            exit == (match self.stage {
                SessionStage::Doing(_) => None,
                SessionStage::Over(exit) => Some(exit),
            }),
    {
        match self.stage {
            SessionStage::Doing(_) => None,
            SessionStage::Over(exit) => Some(exit),
        }
    }

    fn fail(&mut self, fault: SessionFault)
        ensures
            *final(self) == Session::failed(fault),
    {
        self.stage = SessionStage::Over(fault.exit(0));
        self.fault = Some(fault);
    }

    /// Takes in whether the session is wanted.
    pub fn ask(&mut self, requested: bool)
        requires
            *old(self) == Session::at(SessionStep::Ask),
        ensures
            session_leads_to(*old(self), *final(self)),
            *final(self) == (if requested {
                Session::at(SessionStep::Select)
            } else {
                Session::stopped()
            }),
    {
        self.stage = if requested {
            SessionStage::Doing(SessionStep::Select)
        } else {
            SessionStage::Over(SessionExit::StopRequested)
        };
    }

    /// Takes in which devices are selected; gives them back where both are.
    pub fn select(&mut self, input: &Option<String>, output: &Option<String>) -> (devices: Option<
        (String, String),
    >)
        requires
            *old(self) == Session::at(SessionStep::Select),
        ensures
            session_leads_to(*old(self), *final(self)),
            *final(self) == (if input is None {
                Session::failed(SessionFault::NoInputSelected)
            } else if output is None {
                Session::failed(SessionFault::NoOutputSelected)
            } else {
                Session::at(SessionStep::ListInputs)
            }),
            input is Some && output is Some ==> {
                &&& devices matches Some((input_id, output_id))
                &&& input_id@ == input->0@
                &&& output_id@ == output->0@
            },
            input is None || output is None ==> devices is None,
    {
        match selected_devices(input, output) {
            Ok(devices) => {
                self.stage = SessionStage::Doing(SessionStep::ListInputs);
                Some(devices)
            },
            Err(fault) => {
                self.fail(fault);
                None
            },
        }
    }

    /// Looks for the selected devices among those that were listed; gives their places back
    /// where both are there.
    pub fn find(
        &mut self,
        input_id: &str,
        output_id: &str,
        inputs: &Vec<String>,
        outputs: &Vec<String>,
    ) -> (places: Option<(usize, usize)>)
        requires
            *old(self) == Session::at(SessionStep::Find),
        ensures
            session_leads_to(*old(self), *final(self)),
            *final(self) == (if forall|i: int|
                0 <= i < inputs@.len() ==> (#[trigger] inputs@[i])@ != input_id@ {
                Session::failed(SessionFault::InputMissing)
            } else if forall|i: int|
                0 <= i < outputs@.len() ==> (#[trigger] outputs@[i])@ != output_id@ {
                Session::failed(SessionFault::OutputMissing)
            } else {
                Session::at(SessionStep::ReadFormat)
            }),
            match places {
                Some((input, output)) => {
                    &&& first_with_id(inputs@, input_id@, input as int)
                    &&& first_with_id(outputs@, output_id@, output as int)
                },
                None => final(self).fault is Some,
            },
    {
        match find_devices(input_id, output_id, inputs, outputs) {
            Ok((input, output)) => {
                proof {
                    assert(inputs@[input as int]@ == input_id@);
                    assert(outputs@[output as int]@ == output_id@);
                }
                self.stage = SessionStage::Doing(SessionStep::ReadFormat);
                Some((input, output))
            },
            Err(fault) => {
                self.fail(fault);
                None
            },
        }
    }

    /// Takes in how many channels the input device delivers: nothing is prepared and no stream
    /// is built unless there are two.
    pub fn read_format(&mut self, channels: u16)
        requires
            *old(self) == Session::at(SessionStep::ReadFormat),
        ensures
            session_leads_to(*old(self), *final(self)),
            *final(self) == (if channels == 2 {
                Session::at(SessionStep::Prepare)
            } else {
                Session::failed(SessionFault::Channels(channels))
            }),
    {
        match check_channels(channels) {
            Ok(()) => {
                self.stage = SessionStage::Doing(SessionStep::Prepare);
            },
            Err(fault) => self.fail(fault),
        }
    }

    /// Takes in that a step worked that has nothing to tell.
    pub fn advance(&mut self)
        requires
            old(self).stage matches SessionStage::Doing(step) && *old(self) == Session::at(step)
                && step != SessionStep::Ask && step != SessionStep::Select && step
                != SessionStep::Find && step != SessionStep::ReadFormat && step
                != SessionStep::Control,
        ensures
            session_leads_to(*old(self), *final(self)),
            *final(self) == Session::at(following(old(self).stage->Doing_0)),
    {
        if let SessionStage::Doing(step) = self.stage {
            self.stage = SessionStage::Doing(next_of(step));
        }
    }

    /// Takes in that a step did not work.
    pub fn break_off(&mut self)
        requires
            old(self).stage matches SessionStage::Doing(step) && fault_of(step) is Some,
        ensures
            session_leads_to(*old(self), *final(self)),
            *final(self) == Session::failed(fault_of(old(self).stage->Doing_0)->0),
    {
        match self.stage {
            SessionStage::Doing(SessionStep::ListInputs) => self.fail(SessionFault::ListInputs),
            SessionStage::Doing(SessionStep::ListOutputs) => self.fail(SessionFault::ListOutputs),
            SessionStage::Doing(SessionStep::ReadFormat) => self.fail(SessionFault::InputConfig),
            SessionStage::Doing(SessionStep::BuildInput) => self.fail(SessionFault::BuildInput),
            SessionStage::Doing(SessionStep::BuildOutput) => self.fail(SessionFault::BuildOutput),
            SessionStage::Doing(SessionStep::StartInput) => self.fail(SessionFault::StartInput),
            SessionStage::Doing(SessionStep::StartOutput) => self.fail(SessionFault::StartOutput),
            _ => {},
        }
    }

    /// Takes in whether a session that has run for so many milliseconds is still wanted, and
    /// whether a stream reported an error.
    pub fn control(&mut self, requested: bool, stream_failed: bool, ran_for_ms: u64)
        requires
            *old(self) == Session::at(SessionStep::Control),
        ensures
            session_leads_to(*old(self), *final(self)),
            *final(self) == (if !requested {
                Session::stopped()
            } else if stream_failed {
                Session {
                    stage: SessionStage::Over(SessionExit::Retry(ran_for_ms)),
                    fault: Some(SessionFault::StreamError),
                }
            } else {
                Session::at(SessionStep::Sleep)
            }),
    {
        match control_session(requested, stream_failed) {
            SessionControl::Stop => {
                self.stage = SessionStage::Over(SessionExit::StopRequested);
            },
            SessionControl::Fail => {
                self.stage = SessionStage::Over(SessionFault::StreamError.exit(ran_for_ms));
                self.fault = Some(SessionFault::StreamError);
            },
            SessionControl::Wait => {
                self.stage = SessionStage::Doing(SessionStep::Sleep);
            },
        }
    }
}

/// `next` is what one of the steps can make of `session`.
pub open spec fn session_leads_to(session: Session, next: Session) -> bool {
    &&& session.stage matches SessionStage::Doing(step)
    &&& {
        ||| next == Session::at(following(step))
        ||| next == Session::stopped() && (step == SessionStep::Ask || step == SessionStep::Control)
        ||| step != SessionStep::Control && exists|fault: SessionFault| #[trigger]
            Session::failed(fault) == next
        ||| step == SessionStep::Control && next.fault == Some(SessionFault::StreamError)
            && next.stage matches SessionStage::Over(SessionExit::Retry(_))
    }
}

/// The steps from the first one on, where each can make the next of the one before.
pub open spec fn session_course(sessions: Seq<Session>) -> bool {
    &&& sessions.len() > 0
    &&& sessions[0] == Session::at(SessionStep::Ask)
    &&& forall|i: int|
        #![trigger sessions[i]]
        0 <= i < sessions.len() - 1 ==> session_leads_to(sessions[i], sessions[i + 1])
}

/// How far a session has come.
pub open spec fn place_of(step: SessionStep) -> int {
    match step {
        SessionStep::Ask => 0,
        SessionStep::Select => 1,
        SessionStep::ListInputs => 2,
        SessionStep::ListOutputs => 3,
        SessionStep::Find => 4,
        SessionStep::ReadFormat => 5,
        SessionStep::Prepare => 6,
        SessionStep::BuildInput => 7,
        SessionStep::BuildOutput => 8,
        SessionStep::StartInput => 9,
        SessionStep::StartOutput => 10,
        SessionStep::MarkAvailable => 11,
        SessionStep::Control => 12,
        SessionStep::Sleep => 13,
    }
}

/// Whatever a session comes to, it has made all the steps before in their order: the recorder
/// is started and streams are built only after the format was found to be right, and
/// recordings can be asked for only after both streams run.
pub proof fn law_session_steps_are_in_order(sessions: Seq<Session>, at: int, step: SessionStep)
    requires
        session_course(sessions),
        0 <= at < sessions.len(),
        sessions[at].stage == SessionStage::Doing(step),
    ensures
        at >= place_of(step),
        forall|i: int| 0 <= i < 13 && i <= at ==> {
            &&& (#[trigger] sessions[i]).stage matches SessionStage::Doing(made)
            &&& place_of(made) == i
        },
    decreases at,
{
    if at > 0 {
        assert(session_leads_to(sessions[at - 1], sessions[at]));
        let before = sessions[at - 1].stage->Doing_0;
        law_session_steps_are_in_order(sessions, at - 1, before);
        if at < 13 {
            assert(sessions[at - 1].stage matches SessionStage::Doing(made) && place_of(made) == at
                - 1);
        }
    }
}

/// A session that fails before its streams run is tried again as one that did not run at all.
pub proof fn law_failed_session_did_not_run(sessions: Seq<Session>, at: int)
    requires
        session_course(sessions),
        0 < at < sessions.len(),
        sessions[at].fault is Some,
        sessions[at - 1].stage != SessionStage::Doing(SessionStep::Control),
    ensures
        sessions[at].stage == SessionStage::Over(SessionExit::Retry(0)),
{
    assert(session_leads_to(sessions[at - 1], sessions[at]));
}

/// A session that could not be had says why: each step that can fail has a fault of its own, and no
/// two have the same.
pub proof fn law_each_step_has_its_own_fault(step: SessionStep, other: SessionStep)
    ensures
        fault_of(step) is Some && fault_of(step) == fault_of(other) ==> step == other,
        fault_of(SessionStep::ListInputs) == Some(SessionFault::ListInputs),
        fault_of(SessionStep::ListOutputs) == Some(SessionFault::ListOutputs),
        fault_of(SessionStep::ReadFormat) == Some(SessionFault::InputConfig),
        fault_of(SessionStep::BuildInput) == Some(SessionFault::BuildInput),
        fault_of(SessionStep::BuildOutput) == Some(SessionFault::BuildOutput),
        fault_of(SessionStep::StartInput) == Some(SessionFault::StartInput),
        fault_of(SessionStep::StartOutput) == Some(SessionFault::StartOutput),
        fault_of(SessionStep::Prepare) is None,
        fault_of(SessionStep::Control) is None,
{
}

/// A running session looks and sleeps in turn, and every step before leads to the one that is one
/// further on.
pub proof fn law_steps_follow_one_another(step: SessionStep)
    ensures
        step != SessionStep::Sleep ==> place_of(following(step)) == place_of(step) + 1,
        following(SessionStep::Sleep) == SessionStep::Control,
{
}

} // verus!
