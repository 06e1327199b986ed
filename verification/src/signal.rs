//! Asking a single process to terminate.

use vstd::prelude::*;

verus! {

/// Whether the platform can ask a process to terminate itself.
#[derive(Clone, Copy, Debug, PartialEq, Eq, Structural)]
pub enum GracefulTerminator {
    /// A graceful signal exists: a process is asked to stop before it is
    /// stopped by force.
    SignalCapable,
    /// No graceful signal exists: stale instances are left alone, and the
    /// backend is stopped by force at once, without a chance to drain.
    SignalIncapable,
}

/// What became of an attempt to signal one process.
#[derive(Clone, Copy, Debug, PartialEq, Eq, Structural)]
pub enum SignalOutcome {
    /// The operating system accepted the signal for the process.
    Delivered,
    /// The operating system refused: the process is gone, or belongs to
    /// somebody else.
    Failed,
    /// The pid names no single process, so nothing was sent.
    Undeliverable,
}

/// Whether `pid` addresses exactly one process. Zero and values beyond the
/// positive range of the system's pid type address process groups instead.
pub open spec fn is_signalable(pid: u32) -> bool {
    0 < pid <= i32::MAX
}

/// Converts a pid to the form the signalling call takes, or to `None` where
/// the pid addresses no single process.
pub fn signal_target(pid: u32) -> (target: Option<i32>)
    ensures
        is_signalable(pid) ==> target == Some(pid as i32),
        !is_signalable(pid) ==> target is None,
{
    if 0 < pid && pid <= 0x7fff_ffff {
        Some(pid as i32)
    } else {
        None
    }
}

/// `nix::sys::signal::kill` with `SIGTERM` on the process `target`. Nothing
/// is claimed of the answer: it says whether the operating system accepted
/// the signal, which depends on the processes that exist at that moment.
/// Targets that are not positive are kept out, since the call would then
/// address a process group.
#[verifier::external_body]
fn raise_sigterm(target: i32) -> (accepted: bool)
    requires
        target > 0,
{
    nix::sys::signal::kill(nix::unistd::Pid::from_raw(target), nix::sys::signal::SIGTERM).is_ok()
}

/// Sends the graceful-termination signal to the process `pid` and to no
/// other. A pid that addresses no single process is left alone; for any
/// other the outcome is the operating system's answer.
pub fn send_graceful(pid: u32) -> (outcome: SignalOutcome)
    ensures
        outcome == SignalOutcome::Undeliverable <==> !is_signalable(pid),
{
    match signal_target(pid) {
        None => SignalOutcome::Undeliverable,
        Some(target) => outcome_of_answer(raise_sigterm(target)),
    }
}

/// Reads the operating system's answer to a signal.
pub fn outcome_of_answer(accepted: bool) -> (outcome: SignalOutcome)
    ensures
        outcome == if accepted {
            SignalOutcome::Delivered
        } else {
            SignalOutcome::Failed
        },
{
    if accepted {
        SignalOutcome::Delivered
    } else {
        SignalOutcome::Failed
    }
}

} // verus!
