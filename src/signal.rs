use vstd::prelude::*;

use nix::sys::signal::Signal;

use crate::exit::{ChildSlot, ExitCache};
use crate::tracking::{model_of, signal_refused};

verus! {

/// The signal numbers that name a signal: 1 through 31 on Linux on the
/// architectures other than mips and sparc64.
pub open spec fn is_signal_number(n: i32) -> bool {
    1 <= n <= 31
}

/// Relies on nix's `TryFrom<i32> for Signal`, which on Linux (x86, x86_64,
/// arm, aarch64, riscv, powerpc, s390x; not mips or sparc64) accepts exactly
/// the numbers 1 to 31 and fails with `EINVAL` on any other.
#[verifier::external_body]
fn names_signal(n: i32) -> (r: bool)
    ensures
        r == is_signal_number(n),
{
    Signal::try_from(n).is_ok()
}

/// Why a signal was not sent.
#[derive(Debug, PartialEq, Eq, Structural)]
pub enum SignalRefusal {
    /// The process has been reaped, or its exit code is known: its process id
    /// may already belong to another process.
    AlreadyExited,
    /// The number names no signal.
    InvalidSignal,
}

/// Decides whether a signal may be sent to the process of a handle; returns
/// the process id and the signal number to send. The process cannot be
/// reaped between this check and the kill call as long as the caller holds
/// the exit cache across both, and every reap happens with the exit cache
/// held.
pub fn signal_target<C>(cache: &ExitCache, slot: &ChildSlot<C>, signal: i32) -> (r: Result<(i32, i32), SignalRefusal>)
    ensures
        r matches Err(SignalRefusal::AlreadyExited) <==> signal_refused(model_of(cache, slot)),
        r matches Err(SignalRefusal::InvalidSignal) <==> (!signal_refused(model_of(cache, slot))
            && !is_signal_number(signal)),
        r matches Ok((pid, sig)) ==> pid == slot.spec_pid() && sig == signal,
{
    if cache.known().is_some() {
        return Err(SignalRefusal::AlreadyExited);
    }
    let pid = match slot.pid() {
        Some(p) => p,
        None => {
            return Err(SignalRefusal::AlreadyExited);
        },
    };
    if names_signal(signal) {
        Ok((pid, signal))
    } else {
        Err(SignalRefusal::InvalidSignal)
    }
}

} // verus!
