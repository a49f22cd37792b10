//! Shared ownership.

use std::sync::Arc;

use vstd::prelude::*;

verus! {

/// `Arc::clone`: another owner of the same value.
#[verifier::external_body]
pub(crate) fn share<T>(value: &Arc<T>) -> (shared: Arc<T>)
    ensures
        shared == *value,
{
    Arc::clone(value)
}

/// A vector of `count` copies of `value`.
pub(crate) fn filled<T: Copy>(value: T, count: usize) -> (vector: Vec<T>)
    ensures
        vector@ == Seq::new(count as nat, |i: int| value),
{
    let mut vector: Vec<T> = Vec::with_capacity(count);
    let mut index: usize = 0;
    while index < count
        invariant
            index <= count,
            vector@ == Seq::new(index as nat, |i: int| value),
        decreases count - index,
    {
        vector.push(value);
        index = index + 1;
        assert(vector@ =~= Seq::new(index as nat, |i: int| value));
    }
    vector
}

} // verus!
