//! Which devices a session runs on, and why there is none.

use vstd::prelude::*;

use crate::supervisor::SessionExit;
use crate::text::{append_decimal, append_text, decimal, same_text};

verus! {

/// Why a session could not be had, or broke off.
#[derive(Clone, Copy, Debug, PartialEq, Eq, Structural)]
pub enum SessionFault {
    NoInputSelected,
    NoOutputSelected,
    ListInputs,
    ListOutputs,
    InputMissing,
    OutputMissing,
    InputConfig,
    /// The input has another number of channels than two.
    Channels(u16),
    BuildInput,
    BuildOutput,
    StartInput,
    StartOutput,
    StreamError,
}

impl SessionFault {
    /// What the log says, where the machine gave `reason`.
    pub open spec fn text(self, reason: Seq<char>) -> Seq<char> {
        match self {
            SessionFault::NoInputSelected => "no input device selected"@,
            SessionFault::NoOutputSelected => "no output device selected"@,
            SessionFault::ListInputs => "failed to enumerate input devices: "@ + reason,
            SessionFault::ListOutputs => "failed to enumerate output devices: "@ + reason,
            SessionFault::InputMissing => "selected input device not found"@,
            SessionFault::OutputMissing => "selected output device not found"@,
            SessionFault::InputConfig => "failed to get input config: "@ + reason,
            SessionFault::Channels(channels) =>
                "PUBG limiter requires stereo input, current device has "@ + decimal(
                channels as nat,
            ) + " channel(s)"@,
            SessionFault::BuildInput => "failed to build input stream: "@ + reason,
            SessionFault::BuildOutput => "failed to build output stream: "@ + reason,
            SessionFault::StartInput => "failed to start input stream: "@ + reason,
            SessionFault::StartOutput => "failed to start output stream: "@ + reason,
            SessionFault::StreamError => "CPAL reported a runtime stream error"@,
        }
    }

    pub fn message(&self, reason: &str) -> (message: String)
        ensures
            message@ == self.text(reason@),
    {
        let mut message = String::new();
        match self {
            SessionFault::NoInputSelected => append_text(&mut message, "no input device selected"),
            SessionFault::NoOutputSelected => append_text(
                &mut message,
                "no output device selected",
            ),
            SessionFault::ListInputs => {
                append_text(&mut message, "failed to enumerate input devices: ");
                append_text(&mut message, reason);
            },
            SessionFault::ListOutputs => {
                append_text(&mut message, "failed to enumerate output devices: ");
                append_text(&mut message, reason);
            },
            SessionFault::InputMissing => append_text(
                &mut message,
                "selected input device not found",
            ),
            SessionFault::OutputMissing => append_text(
                &mut message,
                "selected output device not found",
            ),
            SessionFault::InputConfig => {
                append_text(&mut message, "failed to get input config: ");
                append_text(&mut message, reason);
            },
            SessionFault::Channels(channels) => {
                append_text(
                    &mut message,
                    "PUBG limiter requires stereo input, current device has ",
                );
                append_decimal(&mut message, *channels as u64);
                append_text(&mut message, " channel(s)");
            },
            SessionFault::BuildInput => {
                append_text(&mut message, "failed to build input stream: ");
                append_text(&mut message, reason);
            },
            SessionFault::BuildOutput => {
                append_text(&mut message, "failed to build output stream: ");
                append_text(&mut message, reason);
            },
            SessionFault::StartInput => {
                append_text(&mut message, "failed to start input stream: ");
                append_text(&mut message, reason);
            },
            SessionFault::StartOutput => {
                append_text(&mut message, "failed to start output stream: ");
                append_text(&mut message, reason);
            },
            SessionFault::StreamError => append_text(
                &mut message,
                "CPAL reported a runtime stream error",
            ),
        }
        proof {
            assert(message@ =~= self.text(reason@));
        }
        message
    }
}

impl SessionFault {
    /// The exit of a session that has this fault `ran_for_ms` after its streams were started.
    pub open spec fn exit_after(self, ran_for_ms: u64) -> SessionExit {
        match self {
            SessionFault::StreamError => SessionExit::Retry(ran_for_ms),
            _ => SessionExit::Retry(0),
        }
    }

    /// How a session ends, `ran_for_ms` after its streams were started: it is to be tried
    /// again, and did not run at all unless a running stream broke off.
    pub fn exit(&self, ran_for_ms: u64) -> (exit: SessionExit)
        ensures
            exit == SessionExit::Retry(
                if *self == SessionFault::StreamError {
                    ran_for_ms
                } else {
                    0
                },
            ),
            exit == self.exit_after(ran_for_ms),
    {
        match self {
            SessionFault::StreamError => SessionExit::Retry(ran_for_ms),
            _ => SessionExit::Retry(0),
        }
    }
}

/// The devices that were selected.
pub fn selected_devices(input: &Option<String>, output: &Option<String>) -> (devices: Result<
    (String, String),
    SessionFault,
>)
    ensures
        input is None <==> devices == Err::<(String, String), SessionFault>(
            SessionFault::NoInputSelected,
        ),
        input is Some && output is None <==> devices == Err::<(String, String), SessionFault>(
            SessionFault::NoOutputSelected,
        ),
        input is Some && output is Some ==> {
            &&& devices matches Ok((input_id, output_id))
            &&& input_id@ == input->0@
            &&& output_id@ == output->0@
        },
{
    match input {
        None => Err(SessionFault::NoInputSelected),
        Some(input) => match output {
            None => Err(SessionFault::NoOutputSelected),
            Some(output) => Ok((input.clone(), output.clone())),
        },
    }
}

/// The device at `at` is the first whose identity is `id`.
pub open spec fn first_with_id(ids: Seq<String>, id: Seq<char>, at: int) -> bool {
    &&& 0 <= at < ids.len()
    &&& ids[at]@ == id
    &&& forall|i: int| 0 <= i < at ==> (#[trigger] ids[i])@ != id
}

/// The place of the first device whose identity is `id`.
pub fn find_device_index(ids: &Vec<String>, id: &str) -> (index: Option<usize>)
    ensures
        match index {
            Some(at) => first_with_id(ids@, id@, at as int),
            None => forall|i: int| 0 <= i < ids@.len() ==> (#[trigger] ids@[i])@ != id@,
        },
{
    let mut at: usize = 0;
    while at < ids.len()
        invariant
            at <= ids@.len(),
            forall|i: int| 0 <= i < at ==> (#[trigger] ids@[i])@ != id@,
        decreases ids@.len() - at,
    {
        if same_text(ids[at].as_str(), id) {
            return Some(at);
        }
        at = at + 1;
    }
    None
}

/// The places of the selected devices among those that the machine has.
pub fn find_devices(
    input_id: &str,
    output_id: &str,
    inputs: &Vec<String>,
    outputs: &Vec<String>,
) -> (places: Result<(usize, usize), SessionFault>)
    ensures
        match places {
            Ok((input, output)) => {
                &&& first_with_id(inputs@, input_id@, input as int)
                &&& first_with_id(outputs@, output_id@, output as int)
            },
            Err(fault) => {
                ||| {
                    &&& fault == SessionFault::InputMissing
                    &&& forall|i: int|
                        0 <= i < inputs@.len() ==> (#[trigger] inputs@[i])@ != input_id@
                }
                ||| {
                    &&& fault == SessionFault::OutputMissing
                    &&& exists|i: int| 0 <= i < inputs@.len() && #[trigger] inputs@[i]@ == input_id@
                    &&& forall|i: int|
                        0 <= i < outputs@.len() ==> (#[trigger] outputs@[i])@ != output_id@
                }
            },
        },
{
    match find_device_index(inputs, input_id) {
        None => Err(SessionFault::InputMissing),
        Some(input) => match find_device_index(outputs, output_id) {
            None => {
                proof {
                    assert(inputs@[input as int]@ == input_id@);
                }
                Err(SessionFault::OutputMissing)
            },
            Some(output) => Ok((input, output)),
        },
    }
}

/// Streams of so many channels can be limited.
pub open spec fn channels_fit(channels: u16) -> bool {
    channels == 2
}

/// The limiter works on stereo streams only.
pub fn check_channels(channels: u16) -> (checked: Result<(), SessionFault>)
    ensures
        checked == (if channels == 2 {
            Ok::<(), SessionFault>(())
        } else {
            Err(SessionFault::Channels(channels))
        }),
        checked is Ok <==> channels_fit(channels),
{
    if channels != 2 {
        Err(SessionFault::Channels(channels))
    } else {
        Ok(())
    }
}

/// Where several devices have the same identity, the one that is listed first is taken; there is no
/// other place that could be taken, and a device that is listed is found.
pub proof fn law_first_device_is_taken(ids: Seq<String>, id: Seq<char>, at: int, other: int)
    requires
        first_with_id(ids, id, at),
        0 <= other < ids.len(),
    ensures
        ids[at]@ == id,
        ids[other]@ == id ==> at <= other,
        first_with_id(ids, id, other) ==> other == at,
{
}

/// A pair of channels fits, and no other number of channels does.
pub proof fn law_only_a_pair_of_channels_fits(channels: u16)
    ensures
        channels_fit(2),
        channels_fit(channels) ==> channels % 2 == 0 && channels / 2 == 1,
{
}

/// Every fault leads to another attempt, and only a stream that broke off has run before it.
pub proof fn law_faults_are_tried_again(fault: SessionFault, ran_for_ms: u64)
    ensures
        fault.exit_after(ran_for_ms) is Retry,
        SessionFault::StreamError.exit_after(ran_for_ms) == SessionExit::Retry(ran_for_ms),
        fault != SessionFault::StreamError ==> fault.exit_after(ran_for_ms) == fault.exit_after(0),
        fault.exit_after(0) == SessionExit::Retry(0),
{
}

/// The log says what the machine said of a step that did not work, behind words that do not depend
/// on it; where the program itself found the fault the machine has no say.
pub proof fn law_reasons_stand_at_the_end(fault: SessionFault, reason: Seq<char>)
    ensures
        fault.text(reason) == fault.text(Seq::empty()) + reason || fault.text(reason) == fault.text(
            Seq::empty(),
        ),
        fault == SessionFault::ListInputs || fault == SessionFault::ListOutputs || fault
            == SessionFault::InputConfig || fault == SessionFault::BuildInput || fault
            == SessionFault::BuildOutput || fault == SessionFault::StartInput || fault
            == SessionFault::StartOutput ==> fault.text(reason) == fault.text(Seq::empty()) + reason,
{
    if fault == SessionFault::ListInputs || fault == SessionFault::ListOutputs || fault
        == SessionFault::InputConfig || fault == SessionFault::BuildInput || fault
        == SessionFault::BuildOutput || fault == SessionFault::StartInput || fault
        == SessionFault::StartOutput {
        assert(fault.text(reason) =~= fault.text(Seq::empty()) + reason);
    }
}

} // verus!
