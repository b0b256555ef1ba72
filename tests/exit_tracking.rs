use procman::{wait_step, BlockOutcome, WaitStep};
use procman::{
    exit_code, known_exit, known_liveness, record_reap, settle_poll, signal_target, ChildSlot, ExitCache, PollStatus,
    SignalRefusal, WaitError, UNKNOWN_EXIT_CODE,
};

#[test]
fn exit_code_mapping() {
    assert_eq!(exit_code(Some(7), None), 7);
    assert_eq!(exit_code(None, Some(9)), 137);
    assert_eq!(exit_code(None, None), -1);
    assert_eq!(exit_code(Some(0), None), 0);
}

#[test]
fn poll_then_wait_reports_cached_code() {
    // a process that exits at once with code 3
    let mut cache = ExitCache::new();
    let mut slot = ChildSlot::new((), 4242);
    assert!(settle_poll(&mut cache, &mut slot, PollStatus::Running));
    assert_eq!(cache.known(), None);
    assert!(slot.is_occupied());
    assert!(!settle_poll(&mut cache, &mut slot, PollStatus::Exited(3)));
    assert_eq!(cache.known(), Some(3));
    assert!(!slot.is_occupied());
    assert_eq!(slot.pid(), None);
    // wait answers from the cache, twice
    assert_eq!(known_liveness(&cache, &slot), Some(false));
    assert_eq!(known_liveness(&cache, &slot), Some(false));
    assert_eq!(known_exit(&cache, &slot), Some(Ok(3)));
    assert_eq!(known_exit(&cache, &slot), Some(Ok(3)));
}

#[test]
fn failed_poll_settles_the_process() {
    let mut cache = ExitCache::new();
    let mut slot = ChildSlot::new((), 10);
    assert_eq!(known_liveness(&cache, &slot), None);
    assert!(!settle_poll(&mut cache, &mut slot, PollStatus::QueryFailed));
    assert_eq!(cache.known(), Some(UNKNOWN_EXIT_CODE));
    assert_eq!(cache.known(), Some(-1));
    assert_eq!(slot.pid(), None);
    // later polls stay "not alive", signals are refused, a wait reports -1
    assert_eq!(known_liveness(&cache, &slot), Some(false));
    assert_eq!(signal_target(&cache, &slot, 15), Err(SignalRefusal::AlreadyExited));
    assert_eq!(known_exit(&cache, &slot), Some(Ok(-1)));
}

#[test]
fn live_process_needs_the_os() {
    let cache = ExitCache::new();
    let slot = ChildSlot::new((), 10);
    assert_eq!(known_liveness(&cache, &slot), None);
    assert_eq!(known_exit(&cache, &slot), None);
}

#[test]
fn published_code_is_never_replaced() {
    let mut cache = ExitCache::new();
    assert_eq!(cache.publish(5), 5);
    assert_eq!(cache.publish(6), 5);
    assert_eq!(cache.known(), Some(5));
}

#[test]
fn empty_slot_without_code_is_already_reaped() {
    let cache = ExitCache::new();
    let mut slot = ChildSlot::new((), 2);
    let mut other = ExitCache::new();
    record_reap(&mut other, &mut slot, 0);
    assert_eq!(known_exit(&cache, &slot), Some(Err(WaitError::AlreadyReaped)));
    assert_eq!(known_liveness(&cache, &slot), Some(false));
}

#[test]
fn signal_goes_to_live_process() {
    let cache = ExitCache::new();
    let slot = ChildSlot::new((), 777);
    assert_eq!(signal_target(&cache, &slot, 15), Ok((777, 15)));
    assert_eq!(signal_target(&cache, &slot, 9), Ok((777, 9)));
    assert_eq!(signal_target(&cache, &slot, 1), Ok((777, 1)));
    assert_eq!(signal_target(&cache, &slot, 31), Ok((777, 31)));
}

#[test]
fn signal_number_must_name_a_signal() {
    let cache = ExitCache::new();
    let slot = ChildSlot::new((), 777);
    assert_eq!(signal_target(&cache, &slot, 0), Err(SignalRefusal::InvalidSignal));
    assert_eq!(signal_target(&cache, &slot, 32), Err(SignalRefusal::InvalidSignal));
    assert_eq!(signal_target(&cache, &slot, -1), Err(SignalRefusal::InvalidSignal));
}

#[test]
fn no_signal_after_exit_is_observed() {
    let mut cache = ExitCache::new();
    let mut slot = ChildSlot::new((), 55);
    assert_eq!(record_reap(&mut cache, &mut slot, 0), 0);
    assert_eq!(signal_target(&cache, &slot, 15), Err(SignalRefusal::AlreadyExited));
    // a slot emptied by another caller refuses as well
    let cache = ExitCache::new();
    let mut slot = ChildSlot::new((), 56);
    let mut other = ExitCache::new();
    record_reap(&mut other, &mut slot, 1);
    assert_eq!(signal_target(&cache, &slot, 15), Err(SignalRefusal::AlreadyExited));
}

#[test]
fn terminated_by_signal_reports_128_plus_signal() {
    // a long-running process is sent SIGTERM; the OS reports the signal
    let mut cache = ExitCache::new();
    let mut slot = ChildSlot::new((), 900);
    let (pid, sig) = signal_target(&cache, &slot, 15).unwrap();
    assert_eq!(pid, 900);
    assert_eq!(sig, 15);
    let code = exit_code(None, Some(sig));
    assert_eq!(record_reap(&mut cache, &mut slot, code), 143);
    assert_eq!(known_exit(&cache, &slot), Some(Ok(143)));
}

#[test]
fn child_object_is_reachable_until_reaped() {
    let mut cache = ExitCache::new();
    let mut slot = ChildSlot::new(41u32, 3);
    if let Some(c) = slot.child_mut() {
        *c += 1;
    }
    assert!(slot.child_mut().map(|c| *c) == Some(42));
    record_reap(&mut cache, &mut slot, 0);
    assert!(slot.child_mut().is_none());
}

#[test]
fn blocking_wait_steps() {
    assert_eq!(wait_step(BlockOutcome::Ready, PollStatus::Exited(3)), WaitStep::Reap(3));
    assert_eq!(wait_step(BlockOutcome::Failed, PollStatus::Exited(0)), WaitStep::Reap(0));
    assert_eq!(wait_step(BlockOutcome::Interrupted, PollStatus::Running), WaitStep::Retry);
    assert_eq!(wait_step(BlockOutcome::Ready, PollStatus::Running), WaitStep::Retry);
    assert_eq!(wait_step(BlockOutcome::Failed, PollStatus::Running), WaitStep::Fail);
    assert_eq!(wait_step(BlockOutcome::Ready, PollStatus::QueryFailed), WaitStep::Fail);
}
