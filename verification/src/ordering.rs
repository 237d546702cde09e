//! A ghost model of the two-flag, two-observer experiment that validates the
//! memory-ordering assumption the lock relies on.
//!
//! Two writer threads each raise one of two shared flags, once. Two observer
//! threads each spin until their own flag is up, then check the other flag
//! and, if it is up too, increment a shared counter. Every access to either
//! flag is sequentially consistent, so an execution is one total order of
//! these operations — here, a sequence of [`ExpStep`]s. The theorem at the
//! bottom pins the reachable outcomes: once both observers have finished,
//! the counter reads 1 or 2, never 0.

use vstd::prelude::*;

verus! {

/// Where an observer thread stands.
#[derive(Clone, Copy, PartialEq, Eq, Structural, Debug)]
pub enum ObserverPc {
    /// Spinning until its own flag reads raised.
    Waiting,
    /// Past the spin; about to read the other flag.
    Checking,
    /// Done; its conditional increment, if any, has happened.
    Finished,
}

/// One observer: its program counter and whether it incremented the counter.
pub struct Observer {
    pub pc: ObserverPc,
    pub hit: bool,
}

/// The experiment: the two flags, the shared counter, and the two observers.
/// `first` spins on `x` and then checks `y`; `second` spins on `y` and then
/// checks `x`.
pub struct Experiment {
    pub x: bool,
    pub y: bool,
    pub hits: nat,
    pub first: Observer,
    pub second: Observer,
}

/// One sequentially consistent operation of one thread.
pub enum ExpStep {
    /// The first writer raises `x`.
    RaiseX,
    /// The second writer raises `y`.
    RaiseY,
    /// The first observer reads `x` still down and keeps spinning.
    FirstSpins,
    /// The first observer reads `x` raised and leaves its spin.
    FirstPasses,
    /// The first observer reads `y`; if it is raised, the counter goes up.
    FirstChecks,
    /// The second observer reads `y` still down and keeps spinning.
    SecondSpins,
    /// The second observer reads `y` raised and leaves its spin.
    SecondPasses,
    /// The second observer reads `x`; if it is raised, the counter goes up.
    SecondChecks,
}

/// The starting state: both flags down, counter zero, both observers spinning.
pub open spec fn exp_init(s: Experiment) -> bool {
    &&& !s.x
    &&& !s.y
    &&& s.hits == 0
    &&& s.first == (Observer { pc: ObserverPc::Waiting, hit: false })
    &&& s.second == (Observer { pc: ObserverPc::Waiting, hit: false })
}

/// Whether the total order may place `step` next after `s`.
pub open spec fn exp_enabled(s: Experiment, step: ExpStep) -> bool {
    match step {
        ExpStep::RaiseX => !s.x,
        ExpStep::RaiseY => !s.y,
        ExpStep::FirstSpins => s.first.pc is Waiting && !s.x,
        ExpStep::FirstPasses => s.first.pc is Waiting && s.x,
        ExpStep::FirstChecks => s.first.pc is Checking,
        ExpStep::SecondSpins => s.second.pc is Waiting && !s.y,
        ExpStep::SecondPasses => s.second.pc is Waiting && s.y,
        ExpStep::SecondChecks => s.second.pc is Checking,
    }
}

/// The state after `step`.
pub open spec fn exp_apply(s: Experiment, step: ExpStep) -> Experiment {
    match step {
        ExpStep::RaiseX => Experiment { x: true, ..s },
        ExpStep::RaiseY => Experiment { y: true, ..s },
        ExpStep::FirstSpins => s,
        ExpStep::FirstPasses => Experiment {
            first: Observer { pc: ObserverPc::Checking, ..s.first },
            ..s
        },
        ExpStep::FirstChecks => Experiment {
            first: Observer { pc: ObserverPc::Finished, hit: s.y },
            hits: s.hits + if s.y { 1nat } else { 0nat },
            ..s
        },
        ExpStep::SecondSpins => s,
        ExpStep::SecondPasses => Experiment {
            second: Observer { pc: ObserverPc::Checking, ..s.second },
            ..s
        },
        ExpStep::SecondChecks => Experiment {
            second: Observer { pc: ObserverPc::Finished, hit: s.x },
            hits: s.hits + if s.x { 1nat } else { 0nat },
            ..s
        },
    }
}

/// The experiment's invariant, preserved by every operation:
/// the counter counts exactly the observers' recorded increments; an
/// observer past its spin has seen its own flag raised, and flags never go
/// back down; an increment is recorded only at the final check; and the two
/// observers cannot both finish empty-handed.
pub open spec fn exp_inv(s: Experiment) -> bool {
    &&& s.hits == (if s.first.hit { 1nat } else { 0nat }) + (if s.second.hit { 1nat } else { 0nat })
    &&& !(s.first.pc is Waiting) ==> s.x
    &&& !(s.second.pc is Waiting) ==> s.y
    &&& s.first.hit ==> s.first.pc is Finished
    &&& s.second.hit ==> s.second.pc is Finished
    &&& !(s.first.pc is Finished && !s.first.hit && s.second.pc is Finished && !s.second.hit)
}

/// The starting state satisfies the invariant.
pub proof fn lemma_exp_init_inv(s: Experiment)
    requires
        exp_init(s),
    ensures
        exp_inv(s),
{
}

/// Every enabled operation preserves the invariant. The heart of the case
/// split: an observer that misses saw the other flag still down, while a
/// finished empty-handed observer implies that very flag is already up —
/// flags never go back down, so the two cannot coexist.
pub proof fn lemma_exp_step_preserves_inv(s: Experiment, step: ExpStep)
    requires
        exp_inv(s),
        exp_enabled(s, step),
    ensures
        exp_inv(exp_apply(s, step)),
{
}

/// `steps` is a total order the memory model may choose from `s` onward.
pub open spec fn exp_run_ok(s: Experiment, steps: Seq<ExpStep>) -> bool
    decreases steps.len(),
{
    steps.len() == 0
        || (exp_enabled(s, steps[0]) && exp_run_ok(exp_apply(s, steps[0]), steps.drop_first()))
}

/// The state a total order leaves the experiment in.
pub open spec fn exp_run_result(s: Experiment, steps: Seq<ExpStep>) -> Experiment
    decreases steps.len(),
{
    if steps.len() == 0 {
        s
    } else {
        exp_run_result(exp_apply(s, steps[0]), steps.drop_first())
    }
}

/// The invariant holds after any total order that starts under it.
pub proof fn lemma_exp_run_preserves_inv(s: Experiment, steps: Seq<ExpStep>)
    requires
        exp_inv(s),
        exp_run_ok(s, steps),
    ensures
        exp_inv(exp_run_result(s, steps)),
    decreases steps.len(),
{
    if steps.len() > 0 {
        lemma_exp_step_preserves_inv(s, steps[0]);
        lemma_exp_run_preserves_inv(exp_apply(s, steps[0]), steps.drop_first());
    }
}

/// Deterministic outcome: on every run of the sequentially consistent
/// experiment in which both observers have finished, the shared counter
/// reads 1 or 2 — an outcome of 0 is unreachable under a total order of the
/// operations.
pub proof fn theorem_outcome(s0: Experiment, steps: Seq<ExpStep>)
    requires
        exp_init(s0),
        exp_run_ok(s0, steps),
        exp_run_result(s0, steps).first.pc is Finished,
        exp_run_result(s0, steps).second.pc is Finished,
    ensures
        1 <= exp_run_result(s0, steps).hits <= 2,
{
    lemma_exp_init_inv(s0);
    lemma_exp_run_preserves_inv(s0, steps);
}

} // verus!
