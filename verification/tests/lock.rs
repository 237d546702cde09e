use atomics::Mutex;
use atomics::protocol::acquire_step;
use atomics::protocol::LockEvent;
use atomics::protocol::Phase;

#[test]
fn new_holds_initial_value() {
    let m = Mutex::new(7u64);
    let (_, seen) = m.with_lock(|v: u64| (v, v));
    assert_eq!(seen, 7);
}

#[test]
fn with_lock_returns_action_result() {
    let m = Mutex::new(10u64);
    let (m, doubled) = m.with_lock(|v: u64| (v, v * 2));
    assert_eq!(doubled, 20);
    let (_, seen) = m.with_lock(|v: u64| (v, v));
    assert_eq!(seen, 10);
}

#[test]
fn zero_work() {
    // One thread, no increments: the final value is the initial 0.
    let m = Mutex::new(0u64);
    let (_, seen) = m.with_lock(|v: u64| (v, v));
    assert_eq!(seen, 0);
}

#[test]
fn single_thread_program_order() {
    // Each call's read reflects exactly the prior call's write.
    let m = Mutex::new(0u64);
    let (m, before) = m.with_lock(|v: u64| (v + 1, v));
    assert_eq!(before, 0);
    let (m, before) = m.with_lock(|v: u64| (v + 10, v));
    assert_eq!(before, 1);
    let (_, seen) = m.with_lock(|v: u64| (v, v));
    assert_eq!(seen, 11);
}

#[test]
fn sequential_increments() {
    // One thread doing its whole quota of lock-protected increments.
    let mut m = Mutex::new(0u64);
    for _ in 0..1000 {
        let (m2, ()) = m.with_lock(|v: u64| (v + 1, ()));
        m = m2;
    }
    let (_, seen) = m.with_lock(|v: u64| (v, v));
    assert_eq!(seen, 1000);
}

#[test]
fn acquire_decisions() {
    // The decision table of the test-and-test-and-set loop.
    assert_eq!(acquire_step(Phase::Trying, LockEvent::SwapAcquired), Phase::Critical);
    assert_eq!(acquire_step(Phase::Trying, LockEvent::SwapMissed), Phase::Spinning);
    assert_eq!(acquire_step(Phase::Spinning, LockEvent::ReadHeld), Phase::Spinning);
    assert_eq!(acquire_step(Phase::Spinning, LockEvent::ReadReleased), Phase::Trying);
    // Observations a phase cannot produce leave it alone.
    assert_eq!(acquire_step(Phase::Critical, LockEvent::ReadHeld), Phase::Critical);
    assert_eq!(acquire_step(Phase::Idle, LockEvent::SwapMissed), Phase::Idle);
}
