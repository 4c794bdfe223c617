//! The decisions of the control channel and of shutdown: what a line read
//! from the operator leads to, which conditions end the process, and with
//! which exit code.
use crate::watchdog::Fault;
use vstd::prelude::*;

verus! {

/// Exit code of a shutdown that the operator asked for.
pub const EXIT_GRACEFUL: i32 = 0;

/// Exit code of every fatal condition.
pub const EXIT_FATAL: i32 = 1;

/// What one blocking read on the control stream brought.
#[derive(Clone, Copy, Debug, PartialEq, Eq, Structural)]
pub enum ControlInput {
    /// A complete line that decodes as a configuration document.
    Document,
    /// A complete line that does not decode.
    Malformed,
    /// End of stream: the operator closed the channel.
    Closed,
    /// The read itself failed.
    ReadError,
}

/// Why the process ends. There is no partial shutdown: each of these ends
/// all of it.
#[derive(Clone, Copy, Debug, PartialEq, Eq, Structural)]
pub enum Termination {
    /// The operator closed the control channel.
    ControlClosed,
    /// Reading the control channel failed.
    ControlReadError,
    /// A configuration document did not decode.
    MalformedConfig,
    /// The watchdog found the audio source dead.
    AudioLost(Fault),
    /// No audio input device could be acquired.
    DeviceUnavailable,
    /// The audio stream could not be started.
    StreamFailed,
}

/// What the control loop does next.
#[derive(Clone, Copy, Debug, PartialEq, Eq, Structural)]
pub enum ControlStep {
    /// Replace the whole shared configuration by the decoded document and
    /// read on.
    ReplaceConfig,
    /// End the process.
    Terminate(Termination),
}

/// The step that an input leads to. Only a well-formed document keeps the
/// process running; a malformed one is not skipped but ends it.
pub open spec fn step_for(input: ControlInput) -> ControlStep {
    match input {
        ControlInput::Document => ControlStep::ReplaceConfig,
        ControlInput::Malformed => ControlStep::Terminate(Termination::MalformedConfig),
        ControlInput::Closed => ControlStep::Terminate(Termination::ControlClosed),
        ControlInput::ReadError => ControlStep::Terminate(Termination::ControlReadError),
    }
}

/// The exit code of the process: graceful only where the operator closed
/// the control channel.
pub open spec fn exit_code_of(termination: Termination) -> i32 {
    if termination == Termination::ControlClosed {
        EXIT_GRACEFUL
    } else {
        EXIT_FATAL
    }
}

/// Decides what follows one read on the control stream.
pub fn control_step(input: ControlInput) -> (step: ControlStep)
    ensures
        step == step_for(input),
{
    match input {
        ControlInput::Document => ControlStep::ReplaceConfig,
        ControlInput::Malformed => ControlStep::Terminate(Termination::MalformedConfig),
        ControlInput::Closed => ControlStep::Terminate(Termination::ControlClosed),
        ControlInput::ReadError => ControlStep::Terminate(Termination::ControlReadError),
    }
}

/// The code that the process exits with.
pub fn exit_code(termination: Termination) -> (code: i32)
    ensures
        code == exit_code_of(termination),
        code == EXIT_GRACEFUL <==> termination == Termination::ControlClosed,
{
    match termination {
        Termination::ControlClosed => EXIT_GRACEFUL,
        _ => EXIT_FATAL,
    }
}

} // verus!
