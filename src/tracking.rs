use vstd::prelude::*;

use crate::exit::{published, ChildSlot, ExitCache, UNKNOWN_EXIT_CODE};

verus! {

/// What the exit-tracking slots of a handle hold: the cached code, and
/// whether the wait slot still holds the unreaped process.
pub struct ExitModel {
    pub cache: Option<i32>,
    pub present: bool,
}

pub open spec fn model_of<C>(cache: &ExitCache, slot: &ChildSlot<C>) -> ExitModel {
    ExitModel { cache: cache@, present: slot.is_present() }
}

/// The state of a freshly spawned process.
pub open spec fn spawned() -> ExitModel {
    ExitModel { cache: None, present: true }
}

/// One critical section of a wait, poll or signal call on the exit slots.
pub enum ExitEvent {
    /// The cache was read.
    ReadCache,
    /// The OS reaped the process in the slot with this code.
    Reap(i32),
    /// An OS poll found the process still running.
    PollRunning,
    /// An OS poll could not query the process: it is given up as terminated
    /// with an unknown code.
    PollFailed,
    /// A wait found the slot empty and read the cache again.
    ReadEmptySlot,
}

/// Whether `e` can happen in state `s`: the OS is only asked about a process
/// that is still in the slot and whose code is not cached, with both slots
/// held.
pub open spec fn enabled(s: ExitModel, e: ExitEvent) -> bool {
    match e {
        ExitEvent::Reap(_) | ExitEvent::PollRunning | ExitEvent::PollFailed => s.present && s.cache is None,
        ExitEvent::ReadEmptySlot => !s.present,
        ExitEvent::ReadCache => true,
    }
}

pub open spec fn exit_step(s: ExitModel, e: ExitEvent) -> ExitModel {
    match e {
        ExitEvent::Reap(code) => ExitModel { cache: Some(published(s.cache, code)), present: false },
        ExitEvent::PollFailed => ExitModel {
            cache: Some(published(s.cache, UNKNOWN_EXIT_CODE)),
            present: false,
        },
        _ => s,
    }
}

/// The exit code that `e` hands to its caller, if any.
pub open spec fn observed(s: ExitModel, e: ExitEvent) -> Option<i32> {
    match e {
        ExitEvent::Reap(code) => Some(published(s.cache, code)),
        ExitEvent::ReadCache | ExitEvent::ReadEmptySlot => s.cache,
        _ => None,
    }
}

/// Whether `e` tells its caller that the process has terminated.
pub open spec fn terminal(s: ExitModel, e: ExitEvent) -> bool {
    match e {
        ExitEvent::Reap(_) | ExitEvent::PollFailed | ExitEvent::ReadEmptySlot => true,
        ExitEvent::ReadCache => s.cache is Some,
        _ => false,
    }
}

/// Whether the handle is settled in state `s`: signal requests are refused,
/// and a poll answers "not alive" without asking the OS.
pub open spec fn signal_refused(s: ExitModel) -> bool {
    s.cache is Some || !s.present
}

/// Whether `e` ends the tracking of the process with code `code`.
pub open spec fn settles_with(e: ExitEvent, code: i32) -> bool {
    e == ExitEvent::Reap(code) || (e is PollFailed && code == UNKNOWN_EXIT_CODE)
}

/// Some event of `t` ended the tracking with code `code`.
pub open spec fn settled_by(t: Seq<ExitEvent>, code: i32) -> bool {
    exists|i: int| 0 <= i < t.len() && #[trigger] settles_with(t[i], code)
}

pub open spec fn run(s: ExitModel, trace: Seq<ExitEvent>) -> ExitModel
    decreases trace.len(),
{
    if trace.len() == 0 {
        s
    } else {
        exit_step(run(s, trace.drop_last()), trace.last())
    }
}

pub open spec fn all_enabled(s: ExitModel, trace: Seq<ExitEvent>) -> bool {
    forall|i: int| 0 <= i < trace.len() ==> #[trigger] enabled(run(s, trace.take(i)), trace[i])
}

/// The number of OS reaps in `trace`.
pub open spec fn reap_count(trace: Seq<ExitEvent>) -> nat
    decreases trace.len(),
{
    if trace.len() == 0 {
        0
    } else {
        reap_count(trace.drop_last()) + if trace.last() is Reap { 1nat } else { 0nat }
    }
}

/// The number of events in `trace` that end the tracking of the process.
pub open spec fn settle_count(trace: Seq<ExitEvent>) -> nat
    decreases trace.len(),
{
    if trace.len() == 0 {
        0
    } else {
        settle_count(trace.drop_last()) + if trace.last() is Reap || trace.last() is PollFailed {
            1nat
        } else {
            0nat
        }
    }
}

/// Outcome of an OS status check of a process.
#[derive(Debug, PartialEq, Eq, Structural)]
pub enum PollStatus {
    Running,
    Exited(i32),
    QueryFailed,
}

pub open spec fn poll_event(status: PollStatus) -> ExitEvent {
    match status {
        PollStatus::Running => ExitEvent::PollRunning,
        PollStatus::Exited(code) => ExitEvent::Reap(code),
        PollStatus::QueryFailed => ExitEvent::PollFailed,
    }
}

/// Answers a poll from the slots alone where they decide it: `Some(false)`
/// once the process is settled, `None` when the OS must be asked.
pub fn known_liveness<C>(cache: &ExitCache, slot: &ChildSlot<C>) -> (r: Option<bool>)
    ensures
        r == (if signal_refused(model_of(cache, slot)) { Some(false) } else { None::<bool> }),
{
    if cache.known().is_some() || !slot.is_occupied() {
        Some(false)
    } else {
        None
    }
}

/// A wait that found the slot already emptied by another caller.
#[derive(Debug, PartialEq, Eq, Structural)]
pub enum WaitError {
    /// The process was reaped, and its code is not published.
    AlreadyReaped,
}

/// Answers a wait from the slots alone where they decide it: the cached code,
/// or `AlreadyReaped` for an empty slot without a code; `None` when the OS
/// must be asked.
pub fn known_exit<C>(cache: &ExitCache, slot: &ChildSlot<C>) -> (r: Option<Result<i32, WaitError>>)
    ensures
        r == (match cache@ {
            Some(c) => Some(Ok::<i32, WaitError>(c)),
            None => if slot.is_present() {
                None::<Result<i32, WaitError>>
            } else {
                Some(Err(WaitError::AlreadyReaped))
            },
        }),
{
    match cache.known() {
        Some(c) => Some(Ok(c)),
        None => if slot.is_occupied() {
            None
        } else {
            Some(Err(WaitError::AlreadyReaped))
        },
    }
}

/// How the blocking wait for a process to terminate, which does not reap it,
/// came back.
#[derive(Debug, PartialEq, Eq, Structural)]
pub enum BlockOutcome {
    /// The process has terminated and awaits its reap.
    Ready,
    /// A signal interrupted the wait.
    Interrupted,
    /// The wait failed.
    Failed,
}

/// What a blocking wait does next.
#[derive(Debug, PartialEq, Eq, Structural)]
pub enum WaitStep {
    /// The reap found this exit code; record it.
    Reap(i32),
    /// Block again.
    Retry,
    /// Give up with the OS error.
    Fail,
}

/// Decides the next step of a blocking wait from how the blocking part came
/// back and what the non-blocking reap that follows it found: a terminated
/// process is reaped; a process still running is waited for again, unless
/// the blocking part failed; a failed reap ends the wait.
pub fn wait_step(blocked: BlockOutcome, status: PollStatus) -> (r: WaitStep)
    ensures
        r == (match status {
            PollStatus::Exited(code) => WaitStep::Reap(code),
            PollStatus::QueryFailed => WaitStep::Fail,
            PollStatus::Running => if blocked == BlockOutcome::Failed {
                WaitStep::Fail
            } else {
                WaitStep::Retry
            },
        }),
{
    match status {
        PollStatus::Exited(code) => WaitStep::Reap(code),
        PollStatus::QueryFailed => WaitStep::Fail,
        PollStatus::Running => match blocked {
            BlockOutcome::Failed => WaitStep::Fail,
            _ => WaitStep::Retry,
        },
    }
}

/// Records that the OS reaped the process in `slot` with exit code `code`:
/// the code is published to the cache, then the slot is emptied. Returns the
/// code. The caller holds both slots across the OS reap and this call.
pub fn record_reap<C>(cache: &mut ExitCache, slot: &mut ChildSlot<C>, code: i32) -> (r: i32)
    requires
        enabled(model_of(old(cache), old(slot)), ExitEvent::Reap(code)),
    ensures
        model_of(final(cache), final(slot)) == exit_step(model_of(old(cache), old(slot)), ExitEvent::Reap(code)),
        Some(r) == observed(model_of(old(cache), old(slot)), ExitEvent::Reap(code)),
        r == code,
        final(cache)@ == Some(code),
        final(slot).spec_pid() == old(slot).spec_pid(),
{
    let r = cache.publish(code);
    slot.clear();
    r
}

/// Settles a poll of the process in `slot` from the OS answer `status`;
/// returns whether the process is alive. A failed query settles the process
/// as terminated with an unknown code.
pub fn settle_poll<C>(cache: &mut ExitCache, slot: &mut ChildSlot<C>, status: PollStatus) -> (alive: bool)
    requires
        old(slot).is_present(),
        old(cache)@ is None,
    ensures
        alive == (status == PollStatus::Running),
        model_of(final(cache), final(slot)) == exit_step(model_of(old(cache), old(slot)), poll_event(status)),
        alive <==> !signal_refused(model_of(final(cache), final(slot))),
        final(slot).spec_pid() == old(slot).spec_pid(),
{
    match status {
        PollStatus::Running => true,
        PollStatus::Exited(code) => {
            record_reap(cache, slot, code);
            false
        },
        PollStatus::QueryFailed => {
            cache.publish(UNKNOWN_EXIT_CODE);
            slot.clear();
            false
        },
    }
}

proof fn lemma_run_take(s: ExitModel, t: Seq<ExitEvent>, j: int)
    requires
        0 <= j < t.len(),
    ensures
        run(s, t.take(j + 1)) == exit_step(run(s, t.take(j)), t[j]),
{
    assert(t.take(j + 1).drop_last() =~= t.take(j));
}

proof fn lemma_cache_stays(s: ExitModel, t: Seq<ExitEvent>, i: int, j: int)
    requires
        0 <= i <= j <= t.len(),
        run(s, t.take(i)).cache is Some,
    ensures
        run(s, t.take(j)).cache == run(s, t.take(i)).cache,
    decreases j - i,
{
    if i < j {
        lemma_cache_stays(s, t, i, j - 1);
        lemma_run_take(s, t, j - 1);
    }
}

proof fn lemma_refusal_stays(s: ExitModel, t: Seq<ExitEvent>, i: int, j: int)
    requires
        0 <= i <= j <= t.len(),
        signal_refused(run(s, t.take(i))),
    ensures
        signal_refused(run(s, t.take(j))),
    decreases j - i,
{
    if i < j {
        lemma_refusal_stays(s, t, i, j - 1);
        lemma_run_take(s, t, j - 1);
    }
}

proof fn lemma_enabled_prefix(s: ExitModel, t: Seq<ExitEvent>)
    requires
        t.len() > 0,
        all_enabled(s, t),
    ensures
        all_enabled(s, t.drop_last()),
        enabled(run(s, t.drop_last()), t.last()),
{
    assert forall|i: int| 0 <= i < t.drop_last().len() implies #[trigger] enabled(
        run(s, t.drop_last().take(i)),
        t.drop_last()[i],
    ) by {
        assert(t.drop_last().take(i) =~= t.take(i));
        assert(enabled(run(s, t.take(i)), t[i]));
    }
    assert(t.take(t.len() - 1) =~= t.drop_last());
    assert(enabled(run(s, t.take(t.len() - 1)), t[t.len() - 1]));
}

proof fn lemma_reap_invariant(t: Seq<ExitEvent>)
    requires
        all_enabled(spawned(), t),
    ensures
        run(spawned(), t).present ==> run(spawned(), t).cache is None && settle_count(t) == 0,
        !run(spawned(), t).present ==> run(spawned(), t).cache is Some && settle_count(t) == 1,
        reap_count(t) <= settle_count(t),
        run(spawned(), t).cache is Some ==> settled_by(t, run(spawned(), t).cache->Some_0),
    decreases t.len(),
{
    if t.len() > 0 {
        let p = t.drop_last();
        lemma_enabled_prefix(spawned(), t);
        lemma_reap_invariant(p);
        let s = run(spawned(), p);
        let n = t.len() - 1;
        match t.last() {
            ExitEvent::Reap(c) => {
                assert(t[n] == t.last());
                assert(run(spawned(), t).cache == Some(c));
                assert(settles_with(t[n], c));
            },
            ExitEvent::PollFailed => {
                assert(t[n] == t.last());
                assert(run(spawned(), t).cache == Some(UNKNOWN_EXIT_CODE));
                assert(settles_with(t[n], UNKNOWN_EXIT_CODE));
            },
            _ => {
                assert(run(spawned(), t) == s);
                if let Some(c) = s.cache {
                    let i = choose|i: int| 0 <= i < p.len() && #[trigger] settles_with(p[i], c);
                    assert(t[i] == p[i]);
                    assert(settles_with(t[i], c));
                }
            },
        }
    }
}

/// No status query of the process failed in `t`.
pub open spec fn no_failed_query(t: Seq<ExitEvent>) -> bool {
    forall|i: int| 0 <= i < t.len() ==> !(#[trigger] t[i] is PollFailed)
}

proof fn lemma_reaps_without_failure(t: Seq<ExitEvent>)
    requires
        no_failed_query(t),
    ensures
        reap_count(t) == settle_count(t),
    decreases t.len(),
{
    if t.len() > 0 {
        let p = t.drop_last();
        assert forall|i: int| 0 <= i < p.len() implies !(#[trigger] p[i] is PollFailed) by {
            assert(p[i] == t[i]);
        }
        lemma_reaps_without_failure(p);
        assert(!(t[t.len() - 1] is PollFailed));
    }
}

/// Single reap: on any interleaving of the critical sections of wait and
/// poll calls on one handle, the OS reaps the process at most once; the
/// tracking ends exactly once when the slot has been emptied (by that reap,
/// or by a failed query); every exit code handed to a caller is the one the
/// cache finally holds, which is the code of that single reap, or the
/// unknown code after a failed query; and where no query failed, the process
/// was reaped exactly once as soon as any caller was handed a code.
pub proof fn lemma_single_reap(trace: Seq<ExitEvent>)
    requires
        all_enabled(spawned(), trace),
    ensures
        reap_count(trace) <= settle_count(trace) <= 1,
        settle_count(trace) == 1 <==> !run(spawned(), trace).present,
        forall|i: int|
            0 <= i < trace.len() ==> (#[trigger] observed(run(spawned(), trace.take(i)), trace[i])
                matches Some(c) ==> run(spawned(), trace).cache == Some(c) && settle_count(trace) == 1),
        no_failed_query(trace) ==> reap_count(trace) == settle_count(trace),
        forall|i: int|
            0 <= i < trace.len() ==> (#[trigger] trace[i] matches ExitEvent::Reap(c) ==> run(
                spawned(),
                trace,
            ).cache == Some(c)),
        run(spawned(), trace).cache is Some ==> settled_by(trace, run(spawned(), trace).cache->Some_0),
{
    lemma_reap_invariant(trace);
    let n = trace.len() as int;
    assert(trace.take(n) =~= trace);
    if no_failed_query(trace) {
        lemma_reaps_without_failure(trace);
    }
    assert forall|i: int|
        0 <= i < trace.len() implies (#[trigger] observed(run(spawned(), trace.take(i)), trace[i])
            matches Some(c) ==> run(spawned(), trace).cache == Some(c) && settle_count(trace) == 1) by {
        if trace[i] is Reap {
            lemma_run_take(spawned(), trace, i);
            lemma_cache_stays(spawned(), trace, i + 1, n);
        } else if run(spawned(), trace.take(i)).cache is Some {
            lemma_cache_stays(spawned(), trace, i, n);
        }
    }
    assert forall|i: int|
        0 <= i < trace.len() implies (#[trigger] trace[i] matches ExitEvent::Reap(c) ==> run(
            spawned(),
            trace,
        ).cache == Some(c)) by {
        if trace[i] is Reap {
            assert(enabled(run(spawned(), trace.take(i)), trace[i]));
            lemma_run_take(spawned(), trace, i);
            lemma_cache_stays(spawned(), trace, i + 1, n);
        }
    }
}

/// No signal after exit: once a call has been told that the process
/// terminated (a reap, a poll that could not query it, a cached code, an
/// empty slot), every later signal request on the handle is refused, and
/// every later poll answers "not alive" without asking the OS.
pub proof fn lemma_no_signal_after_exit(s: ExitModel, trace: Seq<ExitEvent>, i: int, j: int)
    requires
        all_enabled(s, trace),
        0 <= i < j <= trace.len(),
        terminal(run(s, trace.take(i)), trace[i]),
    ensures
        signal_refused(run(s, trace.take(j))),
{
    assert(enabled(run(s, trace.take(i)), trace[i]));
    lemma_run_take(s, trace, i);
    lemma_refusal_stays(s, trace, i + 1, j);
}

} // verus!
