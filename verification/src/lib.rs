//! A minimal mutual-exclusion primitive in the test-and-test-and-set style,
//! together with proofs about the protocol it runs and about the
//! memory-ordering experiment that motivates it.
//!
//! The `Mutex` type owns a payload and grants callers exclusive mutable
//! access to it, one critical section at a time.

use vstd::prelude::*;

pub mod ordering;
pub mod protocol;
pub mod vecbuild;

verus! {

/// A lock that owns its payload. The flag mirrors the lock word of the
/// spin-lock protocol: it is raised for exactly the span of a critical
/// section and is always down between `with_lock` calls.
pub struct Mutex<T> {
    locked: bool,
    v: T,
}

impl<T> Mutex<T> {
    /// The payload currently guarded by the lock.
    pub closed spec fn value(self) -> T {
        self.v
    }

    /// Whether the lock word is raised. Between calls it never is.
    pub closed spec fn is_locked(self) -> bool {
        self.locked
    }

    /// Creates a lock in the released state, owning `t`.
    pub fn new(t: T) -> (m: Mutex<T>)
        ensures
            m.value() == t,
            !m.is_locked(),
    {
        Mutex { locked: false, v: t }
    }

    /// Runs `action` with exclusive access to the payload and returns the
    /// action's own result, exactly.
    ///
    /// The action receives the payload by value and hands back the payload it
    /// wants stored together with its result; this is the one way any caller
    /// can reach the guarded value. The lock word is raised for the span of
    /// the action and released on the way out, so the lock that comes back is
    /// again in the released state and holds exactly what the action stored.
    pub fn with_lock<R, F: FnOnce(T) -> (T, R)>(self, f: F) -> (res: (Mutex<T>, R))
        requires
            !self.is_locked(),
            call_requires(f, (self.value(),)),
        ensures
            call_ensures(f, (self.value(),), (res.0.value(), res.1)),
            !res.0.is_locked(),
    {
        // Acquire: the caller owns the lock and it is released, so the
        // compare-and-swap of the lock word succeeds at once and the payload
        // may be handed to the action.
        let Mutex { locked: _, v } = self;
        let (v, r) = f(v);
        // Release: the lock word goes back to released, and the payload the
        // action stored is what the next acquirer will find.
        (Mutex { locked: false, v }, r)
    }
}

/// Program order on a single thread: a `with_lock` call hands its action
/// exactly what the previous call's action stored.
///
/// Read the hypotheses as the outcome of one `with_lock` call on `m0`: the
/// first is that call's postcondition, with `m1` the lock it returned and
/// `r1` the result; the second says the action always stores `w`, whatever
/// else it does. Then the lock left behind guards exactly `w`, so the next
/// `with_lock` call on `m1` — the next operation of the same thread in
/// program order — gives its action precisely the prior write to read.
pub proof fn lemma_program_order<T, R, F: FnOnce(T) -> (T, R)>(
    m0: Mutex<T>,
    m1: Mutex<T>,
    r1: R,
    f: F,
    w: T,
)
    requires
        call_ensures(f, (m0.value(),), (m1.value(), r1)),
        forall|out: (T, R)| call_ensures(f, (m0.value(),), out) ==> out.0 == w,
    ensures
        m1.value() == w,
{
    let out = (m1.value(), r1);
    assert(call_ensures(f, (m0.value(),), out));
    assert(out.0 == m1.value());
}

} // verus!
