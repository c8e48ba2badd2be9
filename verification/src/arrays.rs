//! Slices carry their length: lengths, bounds-checked indexing, `get` and
//! summing a slice, with every access checked against that length.
use vstd::prelude::*;

verus! {

/// Outcome of indexing past the end of a slice: the length and the index,
/// which is what the bounds check reports.
#[derive(Clone, Copy, Debug, PartialEq, Eq)]
pub struct IndexFault {
    pub len: usize,
    pub index: usize,
}

/// The sub-slice `arr[start..end]`. Slicing outside the slice is refused
/// by the range check, so callers must stay within it.
pub fn range_slice(arr: &[i32], start: usize, end: usize) -> (r: &[i32])
    requires
        start <= end <= arr@.len(),
    ensures
        r@ == arr@.subrange(start as int, end as int),
        r@.len() == end - start,
{
    &arr[start..end]
}

/// `arr[idx]`, or the bounds-check failure when `idx` is past the end.
pub fn index_or_fault(arr: &[i32], idx: usize) -> (r: Result<i32, IndexFault>)
    ensures
        idx < arr@.len() ==> r == Ok::<i32, IndexFault>(arr@[idx as int]),
        idx >= arr@.len() ==> r == Err::<i32, IndexFault>(IndexFault { len: arr@.len() as usize, index: idx }),
{
    if idx < arr.len() {
        Ok(arr[idx])
    } else {
        Err(IndexFault { len: arr.len(), index: idx })
    }
}

/// `arr.get(i)`: the element at `i` when `i` is in bounds, `None` otherwise.
pub fn safe_get(arr: &[i32], i: usize) -> (r: Option<i32>)
    ensures
        r == if i < arr@.len() { Some(arr@[i as int]) } else { None::<i32> },
{
    match arr.get(i) {
        Some(v) => Some(*v),
        None => None,
    }
}

/// Mathematical sum of a sequence of integers.
pub open spec fn seq_sum(s: Seq<i32>) -> int
    decreases s.len(),
{
    if s.len() == 0 {
        0
    } else {
        seq_sum(s.drop_last()) + s.last()
    }
}

/// Every running total of `s`, from the first element to the last, fits in
/// an `i32` (summing overflows otherwise).
pub open spec fn prefix_sums_fit(s: Seq<i32>) -> bool {
    forall|k: int| 0 <= k <= s.len() ==> i32::MIN <= #[trigger] seq_sum(s.take(k)) <= i32::MAX
}

/// Sum of the elements of a slice; its length comes with it.
pub fn sum(arr: &[i32]) -> (r: i32)
    requires
        prefix_sums_fit(arr@),
    ensures
        r == seq_sum(arr@),
{
    let mut acc: i32 = 0;
    let mut i: usize = 0;
    while i < arr.len()
        invariant
            i <= arr@.len(),
            prefix_sums_fit(arr@),
            acc == seq_sum(arr@.take(i as int)),
        decreases arr@.len() - i,
    {
        assert(arr@.take(i + 1).drop_last() =~= arr@.take(i as int));
        assert(arr@.take(i + 1).last() == arr@[i as int]);
        assert(i32::MIN <= seq_sum(arr@.take(i + 1)) <= i32::MAX);
        acc = acc + arr[i];
        i = i + 1;
    }
    assert(arr@.take(arr@.len() as int) =~= arr@);
    acc
}

/// The sum is the arithmetic sum of the elements: nothing for no elements,
/// the element itself for one, and appending an element adds exactly that
/// element.
pub proof fn law_sum_elements(s: Seq<i32>, x: i32)
    ensures
        seq_sum(Seq::<i32>::empty()) == 0,
        seq_sum(seq![x]) == x as int,
        seq_sum(s.push(x)) == seq_sum(s) + x as int,
{
    assert(seq![x].drop_last() =~= Seq::<i32>::empty());
    assert(s.push(x).drop_last() =~= s);
}

/// Summing a slice in two pieces gives the sum of the whole: for any split
/// point `k`, `sum(arr) == sum(arr[..k]) + sum(arr[k..])`.
pub proof fn law_sum_split(s: Seq<i32>, k: int)
    requires
        0 <= k <= s.len(),
    ensures
        seq_sum(s) == seq_sum(s.subrange(0, k)) + seq_sum(s.subrange(k, s.len() as int)),
    decreases s.len(),
{
    if k == s.len() {
        assert(s.subrange(0, k) =~= s);
        assert(s.subrange(k, s.len() as int) =~= Seq::<i32>::empty());
    } else {
        let t = s.drop_last();
        law_sum_split(t, k);
        assert(s.subrange(0, k) =~= t.subrange(0, k));
        let right = s.subrange(k, s.len() as int);
        assert(right.drop_last() =~= t.subrange(k, t.len() as int));
        assert(right.last() == s.last());
    }
}

} // verus!
