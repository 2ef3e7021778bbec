//! The decisions of process control: how a liveness probe and a
//! termination signal are interpreted. The probe itself is one OS signal
//! call made by the surrounding binary, which hands back a plain outcome;
//! every rule about what that outcome means stands here, verified.

use vstd::prelude::*;

verus! {

/// The outcome of sending a signal to a process, as the OS reports it.
#[derive(Clone, Copy, Debug, PartialEq, Eq, Structural)]
pub enum ProbeResult {
    /// The signal was delivered: the process exists.
    Delivered,
    /// No process with that id exists.
    NoSuchProcess,
    /// The process exists but belongs to someone else.
    PermissionDenied,
    /// Any other failure.
    Failed,
}

/// A fatal process-control failure, surfaced to the caller.
#[derive(Clone, Copy, Debug, PartialEq, Eq, Structural)]
pub enum ProcessError {
    ProbeFailed,
    TerminateFailed,
}

/// A process id of zero or less is never alive: it guards against acting
/// on an uninitialized or placeholder value, and no probe is made for it.
pub fn pid_can_be_alive(pid: i32) -> (r: bool)
    ensures
        r == (pid >= 1),
{
    pid >= 1
}

/// Interprets a liveness probe (a zero-signal send): a delivered signal
/// proves a live process, and so does a permission refusal — the process
/// is someone else's but still running, and it is safer to assume alive
/// than to treat a live foreign process as dead. Only "no such process"
/// means dead; any other failure is fatal.
pub fn interpret_liveness_probe(probe: ProbeResult) -> (r: Result<bool, ProcessError>)
    ensures
        r == (match probe {
            ProbeResult::Delivered => Ok::<bool, ProcessError>(true),
            ProbeResult::PermissionDenied => Ok::<bool, ProcessError>(true),
            ProbeResult::NoSuchProcess => Ok::<bool, ProcessError>(false),
            ProbeResult::Failed => Err::<bool, ProcessError>(ProcessError::ProbeFailed),
        }),
{
    match probe {
        ProbeResult::Delivered => Ok(true),
        ProbeResult::PermissionDenied => Ok(true),
        ProbeResult::NoSuchProcess => Ok(false),
        ProbeResult::Failed => Err(ProcessError::ProbeFailed),
    }
}

/// Interprets a termination signal's outcome: a process that is already
/// gone counts as success, and any other failure — a permission refusal
/// included — is fatal.
pub fn interpret_termination(outcome: ProbeResult) -> (r: Result<(), ProcessError>)
    ensures
        r == (match outcome {
            ProbeResult::Delivered => Ok::<(), ProcessError>(()),
            ProbeResult::NoSuchProcess => Ok::<(), ProcessError>(()),
            ProbeResult::PermissionDenied => Err::<(), ProcessError>(
                ProcessError::TerminateFailed,
            ),
            ProbeResult::Failed => Err::<(), ProcessError>(ProcessError::TerminateFailed),
        }),
{
    match outcome {
        ProbeResult::Delivered => Ok(()),
        ProbeResult::NoSuchProcess => Ok(()),
        ProbeResult::PermissionDenied => Err(ProcessError::TerminateFailed),
        ProbeResult::Failed => Err(ProcessError::TerminateFailed),
    }
}

} // verus!
