//! Owned values instead of dangling references, and `Option` instead of a
//! null pointer for a search that may find nothing.
use vstd::prelude::*;

verus! {

/// Returns the local value itself: the caller receives its own copy, so
/// nothing can point into the callee's finished stack frame.
pub fn bad_get() -> (v: i32)
    ensures
        v == 42,
{
    let local: i32 = 42;
    local
}

/// Looks for `target` in `arr`: `Some(target)` when it occurs, `None`
/// when it does not.
pub fn find_value(arr: &[i32], target: i32) -> (r: Option<i32>)
    ensures
        r == if arr@.contains(target) { Some(target) } else { None::<i32> },
{
    let mut i: usize = 0;
    while i < arr.len()
        invariant
            i <= arr@.len(),
            forall|j: int| 0 <= j < i ==> arr@[j] != target,
        decreases arr@.len() - i,
    {
        if arr[i] == target {
            assert(arr@.contains(target));
            return Some(arr[i]);
        }
        i = i + 1;
    }
    None
}

} // verus!
