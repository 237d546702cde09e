//! Small helpers for building vectors element by element, in the way a
//! literal-sequence expression expands: start from an empty vector, append
//! each listed element in order, or fill a vector with clones of one value.
//! They are a convenience library of their own; the lock does not depend on
//! them.

use vstd::prelude::*;

verus! {

/// A fresh vector with no elements.
pub fn avec_empty<T>() -> (r: Vec<T>)
    ensures
        r@ == Seq::<T>::empty(),
{
    let r: Vec<T> = Vec::new();
    assert(r@ =~= Seq::<T>::empty());
    r
}

/// `v` with `x` appended at the end; the listed elements of a sequence
/// literal are pushed one by one through this.
pub fn avec_extended<T>(v: Vec<T>, x: T) -> (r: Vec<T>)
    ensures
        r@ == v@.push(x),
{
    let mut r = v;
    r.push(x);
    r
}

/// A vector of `n` elements, each a clone of `x` (or `x` itself, where a
/// clone is elided).
pub fn avec_repeat<T: Clone>(x: T, n: usize) -> (r: Vec<T>)
    ensures
        r@.len() == n,
        forall|i: int| 0 <= i < n ==> cloned(x, #[trigger] r@[i]),
{
    let mut r: Vec<T> = Vec::new();
    let mut k: usize = 0;
    while k < n
        invariant
            k <= n,
            r@.len() == k,
            forall|i: int| 0 <= i < k ==> cloned(x, #[trigger] r@[i]),
        decreases n - k,
    {
        r.push(x.clone());
        k = k + 1;
    }
    r
}

} // verus!
