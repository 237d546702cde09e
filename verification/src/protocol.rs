//! A ghost model of the spin-lock protocol that `Mutex` runs.
//!
//! The model has any number of worker threads contending for one shared lock
//! word in the test-and-test-and-set style, each owing a fixed quota of
//! increments to a guarded counter. An interleaving of the workers' atomic
//! operations is a sequence of [`Step`]s; every interleaving the hardware may
//! choose is such a sequence, including spurious failures of the weak
//! compare-and-swap. The theorems state the protocol's guarantees over all
//! of those interleavings: mutual exclusion, the exact final counter value,
//! and the lock word never being left raised. At the end stands the
//! executable decision table of the acquire loop, for a driver that owns the
//! real atomics, with a proof that it agrees with the model.

use vstd::prelude::*;

verus! {

/// Where a worker stands in the test-and-test-and-set loop.
#[derive(Clone, Copy, PartialEq, Eq, Structural, Debug)]
pub enum Phase {
    /// Outside the lock code, between critical sections.
    Idle,
    /// About to attempt the compare-and-swap of the lock word.
    Trying,
    /// Busy-waiting: reading the lock word until it looks released.
    Spinning,
    /// Holding the lock, inside the critical section.
    Critical,
}

/// One worker thread: its phase, and how many of its increments it has done.
pub struct Worker {
    pub phase: Phase,
    pub done: nat,
}

/// The whole system: the shared lock word, the guarded counter, the quota of
/// increments each worker owes, and the workers themselves.
pub struct ProtocolState {
    pub locked: bool,
    pub counter: nat,
    pub quota: nat,
    pub workers: Seq<Worker>,
}

/// One atomic operation of one worker, the grain at which the scheduler may
/// interleave threads.
pub enum Step {
    /// Worker `i`, with increments left, leaves `Idle` to contend.
    Begin { i: int },
    /// Worker `i`'s compare-and-swap finds the word released and raises it.
    CasOk { i: int },
    /// Worker `i`'s weak compare-and-swap fails: the word was held, or the
    /// failure is spurious.
    CasFail { i: int },
    /// Worker `i` reads the lock word and finds it still held.
    SpinHeld { i: int },
    /// Worker `i` reads the lock word released and goes back to the swap.
    SpinFree { i: int },
    /// Worker `i` increments the counter and releases the lock word.
    Finish { i: int },
}

/// `i` indexes a worker of `s`.
pub open spec fn worker_ok(s: ProtocolState, i: int) -> bool {
    0 <= i < s.workers.len()
}

/// The state `s` with worker `i` moved to phase `p`, all else unchanged.
pub open spec fn set_phase(s: ProtocolState, i: int, p: Phase) -> ProtocolState {
    ProtocolState {
        workers: s.workers.update(i, Worker { phase: p, ..s.workers[i] }),
        ..s
    }
}

/// Whether the scheduler may take `step` from `s`.
pub open spec fn enabled(s: ProtocolState, step: Step) -> bool {
    match step {
        Step::Begin { i } => worker_ok(s, i) && s.workers[i].phase is Idle
            && s.workers[i].done < s.quota,
        Step::CasOk { i } => worker_ok(s, i) && s.workers[i].phase is Trying && !s.locked,
        Step::CasFail { i } => worker_ok(s, i) && s.workers[i].phase is Trying,
        Step::SpinHeld { i } => worker_ok(s, i) && s.workers[i].phase is Spinning && s.locked,
        Step::SpinFree { i } => worker_ok(s, i) && s.workers[i].phase is Spinning && !s.locked,
        Step::Finish { i } => worker_ok(s, i) && s.workers[i].phase is Critical,
    }
}

/// The state after `step` is taken from `s`.
pub open spec fn apply(s: ProtocolState, step: Step) -> ProtocolState {
    match step {
        Step::Begin { i } => set_phase(s, i, Phase::Trying),
        Step::CasOk { i } => ProtocolState { locked: true, ..set_phase(s, i, Phase::Critical) },
        Step::CasFail { i } => set_phase(s, i, Phase::Spinning),
        Step::SpinHeld { i: _ } => s,
        Step::SpinFree { i } => set_phase(s, i, Phase::Trying),
        Step::Finish { i } => ProtocolState {
            locked: false,
            counter: s.counter + 1,
            quota: s.quota,
            workers: s.workers.update(
                i,
                Worker { phase: Phase::Idle, done: s.workers[i].done + 1 },
            ),
        },
    }
}

/// The starting state: `n` idle workers, nothing done, counter zero, the lock
/// word released, and a quota of `m` increments per worker.
pub open spec fn init(s: ProtocolState, n: nat, m: nat) -> bool {
    &&& !s.locked
    &&& s.counter == 0
    &&& s.quota == m
    &&& s.workers.len() == n
    &&& forall|i: int| 0 <= i < n ==> s.workers[i] == (Worker { phase: Phase::Idle, done: 0nat })
}

/// Worker `i` of `s` is inside its critical section.
pub open spec fn holds_lock(s: ProtocolState, i: int) -> bool {
    worker_ok(s, i) && s.workers[i].phase is Critical
}

/// The increments completed so far, summed over all workers.
pub open spec fn total_done(ws: Seq<Worker>) -> nat
    decreases ws.len(),
{
    if ws.len() == 0 {
        0
    } else {
        ws[0].done + total_done(ws.drop_first())
    }
}

/// The protocol invariant, preserved by every step:
/// the lock word is raised exactly while some worker is in its critical
/// section, that worker is unique, the counter equals the increments done,
/// and no worker overshoots its quota.
pub open spec fn inv(s: ProtocolState) -> bool {
    &&& (s.locked <==> exists|i: int| holds_lock(s, i))
    &&& forall|i: int, j: int| holds_lock(s, i) && holds_lock(s, j) ==> i == j
    &&& s.counter == total_done(s.workers)
    &&& forall|i: int| #![trigger s.workers[i]] worker_ok(s, i) && s.workers[i].phase is Idle
        ==> s.workers[i].done <= s.quota
    &&& forall|i: int| #![trigger s.workers[i]] worker_ok(s, i) && !(s.workers[i].phase is Idle)
        ==> s.workers[i].done < s.quota
}

/// Replacing worker `i` by `w` changes the done-sum by the difference of
/// their individual counts.
proof fn lemma_total_done_update(ws: Seq<Worker>, i: int, w: Worker)
    requires
        0 <= i < ws.len(),
    ensures
        total_done(ws.update(i, w)) + ws[i].done == total_done(ws) + w.done,
    decreases ws.len(),
{
    let ws2 = ws.update(i, w);
    if i == 0 {
        assert(ws2.drop_first() =~= ws.drop_first());
    } else {
        assert(ws2.drop_first() =~= ws.drop_first().update(i - 1, w));
        lemma_total_done_update(ws.drop_first(), i - 1, w);
    }
}

/// When every worker's count is `m`, the done-sum is the worker count times `m`.
proof fn lemma_total_done_uniform(ws: Seq<Worker>, m: nat)
    requires
        forall|i: int| 0 <= i < ws.len() ==> ws[i].done == m,
    ensures
        total_done(ws) == ws.len() * m,
    decreases ws.len(),
{
    if ws.len() == 0 {
    } else {
        assert(ws.drop_first().len() == ws.len() - 1);
        lemma_total_done_uniform(ws.drop_first(), m);
        assert(m + (ws.len() - 1) * m == ws.len() * m) by (nonlinear_arith);
    }
}

/// The starting state satisfies the invariant.
pub proof fn lemma_init_inv(s: ProtocolState, n: nat, m: nat)
    requires
        init(s, n, m),
    ensures
        inv(s),
{
    lemma_total_done_uniform(s.workers, 0);
    assert forall|i: int| !holds_lock(s, i) by {
        if worker_ok(s, i) {
            assert(s.workers[i].phase is Idle);
        }
    }
}

/// Every enabled step preserves the invariant.
pub proof fn lemma_step_preserves_inv(s: ProtocolState, step: Step)
    requires
        inv(s),
        enabled(s, step),
    ensures
        inv(apply(s, step)),
{
    let s2 = apply(s, step);
    match step {
        Step::Begin { i } => {
            lemma_total_done_update(s.workers, i, s2.workers[i]);
            assert(forall|j: int| holds_lock(s2, j) <==> holds_lock(s, j));
        },
        Step::CasOk { i } => {
            lemma_total_done_update(s.workers, i, s2.workers[i]);
            assert(holds_lock(s2, i));
            // No one else was in a critical section: the word was released.
            assert forall|j: int| holds_lock(s2, j) implies j == i by {
                if j != i {
                    assert(holds_lock(s, j));
                }
            }
        },
        Step::CasFail { i } => {
            lemma_total_done_update(s.workers, i, s2.workers[i]);
            assert(forall|j: int| holds_lock(s2, j) <==> holds_lock(s, j));
        },
        Step::SpinHeld { i: _ } => {},
        Step::SpinFree { i } => {
            lemma_total_done_update(s.workers, i, s2.workers[i]);
            assert(forall|j: int| holds_lock(s2, j) <==> holds_lock(s, j));
        },
        Step::Finish { i } => {
            lemma_total_done_update(s.workers, i, s2.workers[i]);
            // The releaser was the one holder, so afterwards no one holds.
            assert forall|j: int| !holds_lock(s2, j) by {
                if j != i && holds_lock(s2, j) {
                    assert(holds_lock(s, j));
                    assert(holds_lock(s, i));
                }
            }
        },
    }
}

/// The step relation: some worker's next atomic operation takes `s1` to `s2`.
pub open spec fn next(s1: ProtocolState, s2: ProtocolState) -> bool {
    exists|step: Step| enabled(s1, step) && s2 == apply(s1, step)
}

/// The invariant is inductive over the step relation.
pub proof fn lemma_next_preserves_inv(s1: ProtocolState, s2: ProtocolState)
    requires
        inv(s1),
        next(s1, s2),
    ensures
        inv(s2),
{
    let step = choose|step: Step| enabled(s1, step) && s2 == apply(s1, step);
    lemma_step_preserves_inv(s1, step);
}

/// `steps` is an interleaving the scheduler may take from `s`: each step in
/// turn is enabled in the state the previous ones produced.
pub open spec fn run_ok(s: ProtocolState, steps: Seq<Step>) -> bool
    decreases steps.len(),
{
    steps.len() == 0 || (enabled(s, steps[0]) && run_ok(apply(s, steps[0]), steps.drop_first()))
}

/// The state an interleaving leaves the system in.
pub open spec fn run_result(s: ProtocolState, steps: Seq<Step>) -> ProtocolState
    decreases steps.len(),
{
    if steps.len() == 0 {
        s
    } else {
        run_result(apply(s, steps[0]), steps.drop_first())
    }
}

/// The invariant holds after any interleaving that starts under it.
pub proof fn lemma_run_preserves_inv(s: ProtocolState, steps: Seq<Step>)
    requires
        inv(s),
        run_ok(s, steps),
    ensures
        inv(run_result(s, steps)),
    decreases steps.len(),
{
    if steps.len() > 0 {
        lemma_step_preserves_inv(s, steps[0]);
        lemma_run_preserves_inv(apply(s, steps[0]), steps.drop_first());
    }
}

/// Mutual exclusion: however the scheduler interleaves any number of workers,
/// at no instant are two of them inside their critical sections at once.
pub proof fn theorem_mutual_exclusion(
    s0: ProtocolState,
    steps: Seq<Step>,
    n: nat,
    m: nat,
    i: int,
    j: int,
)
    requires
        init(s0, n, m),
        run_ok(s0, steps),
        i != j,
    ensures
        !(holds_lock(run_result(s0, steps), i) && holds_lock(run_result(s0, steps), j)),
{
    lemma_init_inv(s0, n, m);
    lemma_run_preserves_inv(s0, steps);
}

/// Linearizable increments: after any interleaving in which all `n` workers
/// have completed their `m` increments and stepped back out, the counter is
/// exactly `n * m` — on every run, not merely on average.
pub proof fn theorem_increments_total(s0: ProtocolState, steps: Seq<Step>, n: nat, m: nat)
    requires
        init(s0, n, m),
        run_ok(s0, steps),
        forall|i: int| #![auto] worker_ok(run_result(s0, steps), i)
            ==> run_result(s0, steps).workers[i].phase is Idle
                && run_result(s0, steps).workers[i].done == m,
    ensures
        run_result(s0, steps).counter == n * m,
{
    lemma_init_inv(s0, n, m);
    lemma_run_preserves_inv(s0, steps);
    let r = run_result(s0, steps);
    assert forall|i: int| 0 <= i < r.workers.len() implies #[trigger] r.workers[i].done == m by {
        assert(worker_ok(r, i));
    }
    lemma_total_done_uniform(r.workers, m);
    assert(r.workers.len() == n) by {
        lemma_run_same_shape(s0, steps);
    }
}

/// An interleaving never adds or removes workers and never changes the quota.
pub proof fn lemma_run_same_shape(s: ProtocolState, steps: Seq<Step>)
    requires
        run_ok(s, steps),
    ensures
        run_result(s, steps).workers.len() == s.workers.len(),
        run_result(s, steps).quota == s.quota,
    decreases steps.len(),
{
    if steps.len() > 0 {
        lemma_run_same_shape(apply(s, steps[0]), steps.drop_first());
    }
}

/// No deadlock from the algorithm itself: whenever no worker is inside its
/// critical section, the lock word is released, so any worker attempting the
/// compare-and-swap can acquire at once.
pub proof fn theorem_lock_available(s0: ProtocolState, steps: Seq<Step>, n: nat, m: nat, i: int)
    requires
        init(s0, n, m),
        run_ok(s0, steps),
        forall|j: int| !holds_lock(run_result(s0, steps), j),
        worker_ok(run_result(s0, steps), i),
        run_result(s0, steps).workers[i].phase is Trying,
    ensures
        enabled(run_result(s0, steps), Step::CasOk { i }),
{
    lemma_init_inv(s0, n, m);
    lemma_run_preserves_inv(s0, steps);
}

/// What a worker just observed from the shared lock word.
#[derive(Clone, Copy, PartialEq, Eq, Structural, Debug)]
pub enum LockEvent {
    /// The weak compare-and-swap saw the word released and raised it.
    SwapAcquired,
    /// The compare-and-swap failed: the word was held, or spuriously.
    SwapMissed,
    /// A plain read of the lock word saw it held.
    ReadHeld,
    /// A plain read of the lock word saw it released.
    ReadReleased,
}

/// The decision table of the acquire loop: the phase a worker moves to after
/// observing `ev` in phase `p`. Observations that cannot arise in a phase
/// leave the phase alone.
pub open spec fn acquire_transition(p: Phase, ev: LockEvent) -> Phase {
    match (p, ev) {
        (Phase::Trying, LockEvent::SwapAcquired) => Phase::Critical,
        (Phase::Trying, LockEvent::SwapMissed) => Phase::Spinning,
        (Phase::Spinning, LockEvent::ReadHeld) => Phase::Spinning,
        (Phase::Spinning, LockEvent::ReadReleased) => Phase::Trying,
        (q, _) => q,
    }
}

/// One decision of the test-and-test-and-set acquire loop. A driver that
/// owns the real atomics performs one atomic operation, hands what it
/// observed to this function, and obeys the phase that comes back: attempt
/// the swap in `Trying`, read the word in `Spinning`, enter the critical
/// section in `Critical`.
pub fn acquire_step(p: Phase, ev: LockEvent) -> (next: Phase)
    ensures
        next == acquire_transition(p, ev),
{
    match (p, ev) {
        (Phase::Trying, LockEvent::SwapAcquired) => Phase::Critical,
        (Phase::Trying, LockEvent::SwapMissed) => Phase::Spinning,
        (Phase::Spinning, LockEvent::ReadHeld) => Phase::Spinning,
        (Phase::Spinning, LockEvent::ReadReleased) => Phase::Trying,
        (q, _) => q,
    }
}

/// The protocol step a worker's observation stands for.
pub open spec fn event_step(i: int, ev: LockEvent) -> Step {
    match ev {
        LockEvent::SwapAcquired => Step::CasOk { i },
        LockEvent::SwapMissed => Step::CasFail { i },
        LockEvent::ReadHeld => Step::SpinHeld { i },
        LockEvent::ReadReleased => Step::SpinFree { i },
    }
}

/// The decision table agrees with the protocol: whenever a worker's
/// observation is one the shared word can actually produce, the protocol
/// step it stands for moves that worker to exactly the phase the table
/// gives, and touches no other worker's phase.
pub proof fn lemma_acquire_matches_protocol(s: ProtocolState, i: int, ev: LockEvent)
    requires
        enabled(s, event_step(i, ev)),
    ensures
        apply(s, event_step(i, ev)).workers[i].phase
            == acquire_transition(s.workers[i].phase, ev),
        forall|j: int| worker_ok(s, j) && j != i
            ==> apply(s, event_step(i, ev)).workers[j] == s.workers[j],
{
}

} // verus!
