use vstd::prelude::*;

verus! {

/// `errno` for "no such process".
pub const ESRCH: i32 = 3;

/// Interrupt from the terminal; passed on to the containers.
pub const SIGINT: i32 = 2;

/// Quit from the terminal; passed on to the containers.
pub const SIGQUIT: i32 = 3;

/// Termination request; passed on to the containers, and sent to each at shutdown.
pub const SIGTERM: i32 = 15;

/// A signal to deliver to a process.
#[derive(Clone, Copy, Debug, PartialEq, Eq, Structural)]
pub struct SignalOrder {
    pub pid: i32,
    pub signal: i32,
}

/// An exit reaped from a child process: its pid and its exit code.
#[derive(Clone, Copy, Debug, PartialEq, Eq, Structural)]
pub struct ExitEvent {
    pub pid: i32,
    pub exit_code: i32,
}

/// What one non-blocking reap of any child reported.
#[derive(Clone, Copy, Debug, PartialEq, Eq, Structural)]
pub enum ReapResult {
    /// A child exited with this status code.
    Exited { pid: i32, code: i32 },
    /// A child was killed by this signal.
    Signaled { pid: i32, signal: u8 },
    /// Children remain, none of them has terminated.
    StillAlive,
    /// A child changed state without terminating (stopped, continued, ...).
    OtherStatus,
    /// There are no children left.
    NoChildren,
    /// The reap failed for another reason.
    Failed,
}

/// The dispatcher's decision after one reap: the exit event to emit, if any,
/// and whether to reap again.
#[derive(Clone, Copy, Debug, PartialEq, Eq, Structural)]
pub struct ReapStep {
    pub event: Option<ExitEvent>,
    pub again: bool,
}

/// Exit code reported for a process killed by signal `signal`.
pub open spec fn signaled_exit_code(signal: u8) -> i32 {
    (128 + signal) as i32
}

/// The step the dispatcher takes on a reap result.
pub open spec fn reap_step_of(r: ReapResult) -> ReapStep {
    match r {
        ReapResult::Exited { pid, code } => ReapStep {
            event: Some(ExitEvent { pid, exit_code: code }),
            again: true,
        },
        ReapResult::Signaled { pid, signal } => ReapStep {
            event: Some(ExitEvent { pid, exit_code: signaled_exit_code(signal) }),
            again: true,
        },
        ReapResult::OtherStatus => ReapStep { event: None, again: true },
        _ => ReapStep { event: None, again: false },
    }
}

/// Decides what to do with one reap result: an exited child is reported with
/// its status, a signalled one with `128 + signal`; reaping goes on until no
/// terminated child is left, there are no children, or the reap fails.
pub fn reap_step(r: ReapResult) -> (s: ReapStep)
    ensures
        s == reap_step_of(r),
{
    match r {
        ReapResult::Exited { pid, code } => ReapStep {
            event: Some(ExitEvent { pid, exit_code: code }),
            again: true,
        },
        ReapResult::Signaled { pid, signal } => ReapStep {
            event: Some(ExitEvent { pid, exit_code: 128 + signal as i32 }),
            again: true,
        },
        ReapResult::OtherStatus => ReapStep { event: None, again: true },
        ReapResult::StillAlive => ReapStep { event: None, again: false },
        ReapResult::NoChildren => ReapStep { event: None, again: false },
        ReapResult::Failed => ReapStep { event: None, again: false },
    }
}

/// Interprets the result of delivering a signal: delivery, or a target that no
/// longer exists, is success; any other `errno` is passed on.
pub fn forward_signal(delivery: Result<(), i32>) -> (r: Result<(), i32>)
    ensures
        r is Ok <==> (delivery is Ok || delivery == Err::<(), i32>(ESRCH)),
        r is Err ==> r == delivery,
{
    match delivery {
        Ok(()) => Ok(()),
        Err(e) => {
            if e == ESRCH {
                Ok(())
            } else {
                Err(e)
            }
        },
    }
}

/// Signal numbers known on Linux: `SIGHUP` (1) to `SIGSYS` (31).
pub open spec fn known_signal(n: int) -> bool {
    1 <= n <= 31
}

/// Relies on nix's `TryFrom<i32> for Signal`, which on Linux (other than MIPS
/// and SPARC) maps each of the numbers 1 to 31 to its signal and refuses every
/// other number with `EINVAL`.
#[verifier::external_body]
fn nix_signal_exists(n: i32) -> (r: bool)
    ensures
        r == known_signal(n as int),
{
    nix::sys::signal::Signal::try_from(n).is_ok()
}

/// Whether a signal number as received over the wire names a known signal.
pub fn is_valid_signal(n: u32) -> (r: bool)
    ensures
        r == known_signal(n as int),
{
    if n > i32::MAX as u32 {
        false
    } else {
        nix_signal_exists(n as i32)
    }
}

} // verus!
