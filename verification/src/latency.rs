//! Allocation-latency benchmark arithmetic: the node batches that are
//! allocated, their checksum, the percentile summary of the batch times and
//! the lengths of the bars and progress meter that display them.
use vstd::prelude::*;

use crate::style::{DIM, GRN, RST};

verus! {

broadcast use vstd::seq_lib::group_to_multiset_ensures;

/// Number of allocations in one batch.
pub const BATCH_SIZE: usize = 1000;
/// Number of batches in one run.
pub const BATCH_COUNT: usize = 500;
/// Width, in cells, of the progress meter.
pub const PROGRESS_WIDTH: usize = 38;
/// Width, in cells, of the longest latency bar.
pub const BAR_WIDTH: u128 = 30;

/// `s` is in ascending order.
pub open spec fn sorted(s: Seq<u128>) -> bool {
    forall|i: int, j: int| 0 <= i <= j < s.len() ==> s[i] <= s[j]
}

/// Sorts the batch times in ascending order.
///
/// Trusted: calls `<[u128]>::sort_unstable`, which std documents as sorting
/// the slice in ascending order; it only reorders, so the length and the
/// multiset of values are kept.
#[verifier::external_body]
fn sort_unstable_u128(v: &mut Vec<u128>)
    ensures
        sorted(final(v)@),
        final(v)@.to_multiset() == old(v)@.to_multiset(),
        final(v)@.len() == old(v)@.len(),
{
    v.sort_unstable();
}

/// The three figures reported for a run of batches.
#[derive(Clone, Copy, Debug, PartialEq, Eq)]
pub struct LatencySummary {
    /// Median batch time.
    pub p50: u128,
    /// 95th percentile batch time.
    pub p95: u128,
    /// Slowest batch time.
    pub max: u128,
}

/// Index of the median in a sorted run of `n` times.
pub open spec fn p50_index(n: int) -> int {
    n / 2
}

/// Index of the 95th percentile in a sorted run of `n` times.
pub open spec fn p95_index(n: int) -> int {
    n * 95 / 100
}

/// The summary read off an ascending sequence of batch times.
pub open spec fn summary_of_sorted(s: Seq<u128>) -> LatencySummary {
    LatencySummary {
        p50: s[p50_index(s.len() as int)],
        p95: s[p95_index(s.len() as int)],
        max: s[s.len() - 1],
    }
}

/// Sorts the batch times in place and reads off the median, the 95th
/// percentile and the maximum.
pub fn latency_summary(times: &mut Vec<u128>) -> (r: LatencySummary)
    requires
        old(times).len() > 0,
        old(times).len() * 95 <= usize::MAX,
    ensures
        sorted(final(times)@),
        final(times)@.to_multiset() == old(times)@.to_multiset(),
        final(times)@.len() == old(times)@.len(),
        r == summary_of_sorted(final(times)@),
        r.p50 == final(times)@[(final(times)@.len() / 2) as int],
        r.p95 == final(times)@[(final(times)@.len() * 95 / 100) as int],
        r.max == final(times)@[final(times)@.len() - 1],
{
    sort_unstable_u128(times);
    let n = times.len();
    let p50 = times[n / 2];
    let p95 = times[n * 95 / 100];
    let max = times[n - 1];
    LatencySummary { p50, p95, max }
}

/// Two ascending sequences holding the same values are the same sequence.
pub proof fn lemma_sorted_permutation_unique(a: Seq<u128>, b: Seq<u128>)
    requires
        sorted(a),
        sorted(b),
        a.to_multiset() == b.to_multiset(),
    ensures
        a == b,
    decreases a.len(),
{
    assert(a.to_multiset().len() == a.len());
    assert(b.to_multiset().len() == b.len());
    if a.len() == 0 {
        assert(b.len() == 0);
        assert(a =~= b);
    } else {
        assert(a.contains(a[0]));
        assert(b.to_multiset().count(a[0]) > 0);
        assert(b.contains(a[0]));
        let j = choose|j: int| 0 <= j < b.len() && b[j] == a[0];
        assert(b[0] <= b[j]);
        assert(b.contains(b[0]));
        assert(a.to_multiset().count(b[0]) > 0);
        assert(a.contains(b[0]));
        let k = choose|k: int| 0 <= k < a.len() && a[k] == b[0];
        assert(a[0] <= a[k]);
        assert(a[0] == b[0]);
        let a1 = a.remove(0);
        let b1 = b.remove(0);
        assert(a1.to_multiset() == a.to_multiset().remove(a[0]));
        assert(b1.to_multiset() == b.to_multiset().remove(b[0]));
        assert(sorted(a1));
        assert(sorted(b1));
        lemma_sorted_permutation_unique(a1, b1);
        assert forall|i: int| 0 <= i < a.len() implies a[i] == b[i] by {
            if i > 0 {
                assert(a[i] == a1[i - 1]);
                assert(b[i] == b1[i - 1]);
            }
        }
        assert(a =~= b);
    }
}

/// The summary does not depend on the order in which the batch times were
/// recorded: two runs that measured the same times, in any order, report the
/// same median, 95th percentile and maximum.
pub proof fn law_summary_order_independent(t1: Seq<u128>, t2: Seq<u128>, s1: Seq<u128>, s2: Seq<u128>)
    requires
        t1.to_multiset() == t2.to_multiset(),
        sorted(s1),
        s1.to_multiset() == t1.to_multiset(),
        sorted(s2),
        s2.to_multiset() == t2.to_multiset(),
    ensures
        summary_of_sorted(s1) == summary_of_sorted(s2),
{
    lemma_sorted_permutation_unique(s1, s2);
}

/// Each figure is the time at a fixed rank of the sorted run, whatever the
/// values are: for `n` sorted times the median is the one with `n / 2`
/// times before it, the 95th percentile the one with `n * 95 / 100` times
/// before it, and the maximum the last.
pub proof fn law_summary_ranks(s: Seq<u128>)
    requires
        sorted(s),
        s.len() > 0,
    ensures
        summary_of_sorted(s).p50 == s[(s.len() / 2) as int],
        summary_of_sorted(s).p95 == s[(s.len() * 95 / 100) as int],
        summary_of_sorted(s).max == s[s.len() - 1],
        s.len() / 2 < s.len(),
        s.len() * 95 / 100 < s.len(),
{
    let n = s.len() as int;
    assert(n * 95 / 100 < n) by (nonlinear_arith)
        requires
            n > 0,
    ;
}

/// The reported figures are ordered: median <= 95th percentile <= maximum,
/// and every recorded time is at most the maximum.
pub proof fn law_summary_ordered(s: Seq<u128>)
    requires
        sorted(s),
        s.len() > 0,
    ensures
        summary_of_sorted(s).p50 <= summary_of_sorted(s).p95,
        summary_of_sorted(s).p95 <= summary_of_sorted(s).max,
        forall|i: int| 0 <= i < s.len() ==> s[i] <= #[trigger] summary_of_sorted(s).max,
{
    let n = s.len() as int;
    assert(p50_index(n) <= p95_index(n)) by (nonlinear_arith)
        requires
            n > 0,
    ;
    assert(p95_index(n) < n) by (nonlinear_arith)
        requires
            n > 0,
    ;
}


/// The scale against which bars are drawn: the slowest time, but never 0.
pub fn bar_scale(max: u128) -> (r: u128)
    ensures
        r == if max == 0 { 1 } else { max },
{
    if max == 0 { 1 } else { max }
}

/// Number of cells in the bar of a time `n` against `scale`.
pub open spec fn bar_cells(n: int, scale: int) -> int {
    n * BAR_WIDTH / scale
}

/// Number of cells in the bar of a time `n` against `scale`.
pub fn bar_len(n: u128, scale: u128) -> (r: u128)
    requires
        scale > 0,
        n * BAR_WIDTH <= u128::MAX,
    ensures
        r == bar_cells(n as int, scale as int),
{
    n * BAR_WIDTH / scale
}

/// `k` copies of `s`, one after another.
pub open spec fn repeat_text(s: Seq<char>, k: nat) -> Seq<char>
    decreases k,
{
    if k == 0 {
        Seq::empty()
    } else {
        repeat_text(s, (k - 1) as nat) + s
    }
}

/// The bar drawn for a time `n` against `scale`: one block per cell.
pub fn bar(n: u128, scale: u128) -> (r: String)
    requires
        scale > 0,
        n * BAR_WIDTH <= u128::MAX,
        bar_cells(n as int, scale as int) <= usize::MAX,
    ensures
        r@ == repeat_text("█"@, bar_cells(n as int, scale as int) as nat),
{
    let cells = bar_len(n, scale) as usize;
    let mut out = String::new();
    let mut k: usize = 0;
    while k < cells
        invariant
            k <= cells,
            out@ == repeat_text("█"@, k as nat),
        decreases cells - k,
    {
        out.append("█");
        k = k + 1;
    }
    out
}

/// The bar's cells are the bar width scaled by `n / scale`, rounded down:
/// `cells * scale <= n * 30 < (cells + 1) * scale`.
pub proof fn law_bar_is_floor(n: int, scale: int)
    requires
        scale > 0,
        n >= 0,
    ensures
        bar_cells(n, scale) * scale <= n * 30,
        n * 30 < (bar_cells(n, scale) + 1) * scale,
{
    let x = n * 30;
    assert((x / scale) * scale <= x && x < (x / scale + 1) * scale) by (nonlinear_arith)
        requires
            scale > 0,
            x >= 0,
    ;
}

/// A bar of `k` repetitions of a text is `k` copies of it back to back: its
/// length is `k` times the text's, and the piece at position `i` is the text.
pub proof fn law_repeat_text(s: Seq<char>, k: nat)
    ensures
        repeat_text(s, k).len() == k * s.len(),
        forall|i: int|
            0 <= i < k ==> #[trigger] repeat_text(s, k).subrange(i * s.len(), (i + 1) * s.len()) == s,
    decreases k,
{
    if k == 0 {
        assert(k * s.len() == 0) by (nonlinear_arith)
            requires
                k == 0,
        ;
    } else {
        let k1 = (k - 1) as nat;
        law_repeat_text(s, k1);
        let r = repeat_text(s, k);
        let r1 = repeat_text(s, k1);
        assert(r == r1 + s);
        assert(k1 * s.len() + s.len() == k * s.len()) by (nonlinear_arith)
            requires
                k1 + 1 == k,
        ;
        assert forall|i: int| 0 <= i < k implies #[trigger] r.subrange(i * s.len(), (i + 1) * s.len()) == s by {
            if i < k1 {
                assert((i + 1) * s.len() <= k1 * s.len()) by (nonlinear_arith)
                    requires
                        i + 1 <= k1,
                ;
                assert(0 <= i * s.len()) by (nonlinear_arith)
                    requires
                        i >= 0,
                ;
                assert(i * s.len() + s.len() == (i + 1) * s.len()) by (nonlinear_arith);
                assert(r.subrange(i * s.len(), (i + 1) * s.len()) =~= r1.subrange(i * s.len(), (i + 1) * s.len()));
            } else {
                assert(i == k1);
                assert(i * s.len() + s.len() == (i + 1) * s.len()) by (nonlinear_arith);
                assert(r.subrange(i * s.len(), (i + 1) * s.len()) =~= s);
            }
        }
    }
}

/// A bar is never wider than `BAR_WIDTH` cells for a time that does not
/// exceed the scale, the slowest time fills it exactly, and a slower time
/// never gets a shorter bar.
pub proof fn law_bar_bounds(n: int, m: int, scale: int)
    requires
        scale > 0,
        0 <= n <= m <= scale,
    ensures
        0 <= bar_cells(n, scale) <= bar_cells(m, scale) <= BAR_WIDTH,
        bar_cells(scale, scale) == BAR_WIDTH,
{
    assert(bar_cells(scale, scale) == BAR_WIDTH) by (nonlinear_arith)
        requires
            scale > 0,
    ;
    assert(0 <= n * 30 <= m * 30 <= scale * 30) by (nonlinear_arith)
        requires
            0 <= n <= m <= scale,
    ;
    assert(0 <= (n * 30) / scale <= (m * 30) / scale <= (scale * 30) / scale) by (nonlinear_arith)
        requires
            scale > 0,
            0 <= n * 30 <= m * 30 <= scale * 30,
    ;
}

/// Number of filled cells of the progress meter after `done` of `total`
/// batches.
pub open spec fn progress_cells(done: int, total: int) -> int {
    done * PROGRESS_WIDTH / total
}

/// Number of filled cells of the progress meter after `done` of `total`
/// batches.
pub fn progress_filled(done: usize, total: usize) -> (r: usize)
    requires
        total > 0,
        done * PROGRESS_WIDTH <= usize::MAX,
    ensures
        r == progress_cells(done as int, total as int),
{
    done * PROGRESS_WIDTH / total
}

/// The text of the progress meter: `filled` bright cells, then dim cells up
/// to `width`.
pub open spec fn meter_text(filled: int, width: nat) -> Seq<char>
    decreases width,
{
    if width == 0 {
        Seq::empty()
    } else {
        meter_text(filled, (width - 1) as nat) + if width - 1 < filled {
            GRN@ + "▓"@ + RST@
        } else {
            DIM@ + "░"@ + RST@
        }
    }
}

/// The progress meter after `done` of `total` batches.
pub fn progress_meter(done: usize, total: usize) -> (r: String)
    requires
        total > 0,
        done * PROGRESS_WIDTH <= usize::MAX,
    ensures
        r@ == meter_text(progress_cells(done as int, total as int), PROGRESS_WIDTH as nat),
{
    let filled = progress_filled(done, total);
    let mut out = String::new();
    let mut x: usize = 0;
    while x < PROGRESS_WIDTH
        invariant
            x <= PROGRESS_WIDTH,
            filled == progress_cells(done as int, total as int),
            out@ == meter_text(filled as int, x as nat),
        decreases PROGRESS_WIDTH - x,
    {
        if x < filled {
            out.append(GRN);
            out.append("▓");
            out.append(RST);
        } else {
            out.append(DIM);
            out.append("░");
            out.append(RST);
        }
        x = x + 1;
    }
    out
}

/// The filled cells are the width scaled by the fraction of batches done,
/// rounded down: `cells * total <= done * 38 < (cells + 1) * total`.
pub proof fn law_progress_is_floor(done: int, total: int)
    requires
        total > 0,
        done >= 0,
    ensures
        progress_cells(done, total) * total <= done * 38,
        done * 38 < (progress_cells(done, total) + 1) * total,
{
    let x = done * 38;
    assert((x / total) * total <= x && x < (x / total + 1) * total) by (nonlinear_arith)
        requires
            total > 0,
            x >= 0,
    ;
}

/// The meter is `filled` bright cells followed by dim cells up to the width
/// (for `0 <= filled <= width`).
pub proof fn law_meter_layout(filled: int, width: nat)
    requires
        0 <= filled <= width,
    ensures
        meter_text(filled, width) == repeat_text(GRN@ + "▓"@ + RST@, filled as nat) + repeat_text(
            DIM@ + "░"@ + RST@,
            (width - filled) as nat,
        ),
    decreases width,
{
    let bright = GRN@ + "▓"@ + RST@;
    let dim = DIM@ + "░"@ + RST@;
    if width == 0 {
        assert(meter_text(filled, width) =~= repeat_text(bright, 0) + repeat_text(dim, 0));
    } else if filled == width {
        law_meter_layout(filled - 1, (width - 1) as nat);
        lemma_meter_prefix_bright(filled, (width - 1) as nat);
        assert(meter_text(filled, width) == meter_text(filled, (width - 1) as nat) + bright);
        assert(repeat_text(bright, filled as nat) == repeat_text(bright, (filled - 1) as nat) + bright);
        assert(repeat_text(dim, 0) =~= Seq::<char>::empty());
        assert(meter_text(filled, width) =~= repeat_text(bright, filled as nat) + repeat_text(dim, 0));
    } else {
        law_meter_layout(filled, (width - 1) as nat);
        assert(meter_text(filled, width) == meter_text(filled, (width - 1) as nat) + dim);
        assert(repeat_text(dim, (width - filled) as nat) == repeat_text(dim, (width - 1 - filled) as nat)
            + dim);
        assert(meter_text(filled, width) =~= repeat_text(bright, filled as nat) + repeat_text(
            dim,
            (width - filled) as nat,
        ));
    }
}

proof fn lemma_meter_prefix_bright(filled: int, width: nat)
    requires
        width < filled,
    ensures
        meter_text(filled, width) == meter_text(filled - 1, width),
    decreases width,
{
    if width > 0 {
        lemma_meter_prefix_bright(filled, (width - 1) as nat);
    }
}

/// The meter never overfills, never goes backwards, and is full exactly
/// when every batch is done.
pub proof fn law_progress_bounds(d1: int, d2: int, total: int)
    requires
        total > 0,
        0 <= d1 <= d2 <= total,
    ensures
        0 <= progress_cells(d1, total) <= progress_cells(d2, total) <= PROGRESS_WIDTH,
        progress_cells(total, total) == PROGRESS_WIDTH,
{
    assert(progress_cells(total, total) == PROGRESS_WIDTH) by (nonlinear_arith)
        requires
            total > 0,
    ;
    assert(0 <= d1 * 38 <= d2 * 38 <= total * 38) by (nonlinear_arith)
        requires
            0 <= d1 <= d2 <= total,
    ;
    assert(0 <= (d1 * 38) / total <= (d2 * 38) / total <= (total * 38) / total) by (nonlinear_arith)
        requires
            total > 0,
            0 <= d1 * 38 <= d2 * 38 <= total * 38,
    ;
}

/// The spinner frame shown at tick `k` (taken modulo the frame count).
pub open spec fn spin_frame_text(k: int) -> Seq<char> {
    if k == 0 {
        "⠋"@
    } else if k == 1 {
        "⠙"@
    } else if k == 2 {
        "⠹"@
    } else if k == 3 {
        "⠸"@
    } else if k == 4 {
        "⠼"@
    } else if k == 5 {
        "⠴"@
    } else if k == 6 {
        "⠦"@
    } else if k == 7 {
        "⠧"@
    } else if k == 8 {
        "⠇"@
    } else {
        "⠏"@
    }
}

/// Number of spinner frames.
pub const SPIN_FRAME_COUNT: usize = 10;

/// The spinner frame shown at tick `i`; the frames repeat every
/// `SPIN_FRAME_COUNT` ticks.
pub fn spin_frame(i: usize) -> (r: &'static str)
    ensures
        r@ == spin_frame_text((i % SPIN_FRAME_COUNT) as int),
{
    let k = i % SPIN_FRAME_COUNT;
    if k == 0 {
        "⠋"
    } else if k == 1 {
        "⠙"
    } else if k == 2 {
        "⠹"
    } else if k == 3 {
        "⠸"
    } else if k == 4 {
        "⠼"
    } else if k == 5 {
        "⠴"
    } else if k == 6 {
        "⠦"
    } else if k == 7 {
        "⠧"
    } else if k == 8 {
        "⠇"
    } else {
        "⠏"
    }
}

/// One heap-allocated benchmark node.
#[derive(Clone, Copy, Debug, PartialEq, Eq)]
pub struct Node {
    pub a: i32,
    pub b: i32,
    pub c: i32,
    pub d: i32,
    pub e: i32,
    pub f: i32,
}

/// The node allocated at position `i` of a batch: its fields hold `i`
/// times 1 to 6.
pub open spec fn node_at(i: int) -> Node {
    Node {
        a: i as i32,
        b: (i * 2) as i32,
        c: (i * 3) as i32,
        d: (i * 4) as i32,
        e: (i * 5) as i32,
        f: (i * 6) as i32,
    }
}

/// Largest batch whose nodes' fields all fit in an `i32`.
pub open spec fn max_batch_size() -> int {
    i32::MAX / 6 + 1
}

/// Allocates the nodes of one batch, each in its own box.
pub fn make_batch(size: usize) -> (nodes: Vec<Box<Node>>)
    requires
        size <= max_batch_size(),
    ensures
        nodes@.len() == size,
        forall|k: int| 0 <= k < size ==> *#[trigger] nodes@[k] == node_at(k),
{
    let mut nodes: Vec<Box<Node>> = Vec::with_capacity(size);
    let mut i: usize = 0;
    while i < size
        invariant
            i <= size,
            size <= max_batch_size(),
            nodes@.len() == i,
            forall|k: int| 0 <= k < i ==> *#[trigger] nodes@[k] == node_at(k),
        decreases size - i,
    {
        let v = i as i32;
        nodes.push(Box::new(Node { a: v, b: v * 2, c: v * 3, d: v * 4, e: v * 5, f: v * 6 }));
        i = i + 1;
    }
    nodes
}

/// Sum of the `a` fields of a sequence of nodes.
pub open spec fn sum_a(s: Seq<Box<Node>>) -> int
    decreases s.len(),
{
    if s.len() == 0 {
        0
    } else {
        sum_a(s.drop_last()) + s.last().a
    }
}

/// Adds the `a` field of every node to the running checksum.
pub fn add_to_checksum(checksum: i64, nodes: &Vec<Box<Node>>) -> (r: i64)
    requires
        forall|k: int|
            0 <= k <= nodes@.len() ==> i64::MIN <= checksum + sum_a(#[trigger] nodes@.take(k))
                <= i64::MAX,
    ensures
        r == checksum + sum_a(nodes@),
{
    let mut acc = checksum;
    let mut i: usize = 0;
    while i < nodes.len()
        invariant
            i <= nodes@.len(),
            acc == checksum + sum_a(nodes@.take(i as int)),
            forall|k: int|
                0 <= k <= nodes@.len() ==> i64::MIN <= checksum + sum_a(#[trigger] nodes@.take(k))
                    <= i64::MAX,
        decreases nodes@.len() - i,
    {
        assert(nodes@.take(i + 1).drop_last() =~= nodes@.take(i as int));
        assert(nodes@.take(i + 1).last() == nodes@[i as int]);
        acc = acc + nodes[i].a as i64;
        i = i + 1;
    }
    assert(nodes@.take(nodes@.len() as int) =~= nodes@);
    acc
}

/// The checksum adds up the `a` fields: nothing for no nodes, and one more
/// node adds exactly its `a` field.
pub proof fn law_sum_a_elements(s: Seq<Box<Node>>, x: Box<Node>)
    ensures
        sum_a(Seq::<Box<Node>>::empty()) == 0,
        sum_a(s.push(x)) == sum_a(s) + x.a as int,
{
    assert(s.push(x).drop_last() =~= s);
}

/// The `a` fields of a batch of `n` nodes add up to `0 + 1 + ... + (n - 1)`.
pub proof fn law_batch_checksum(nodes: Seq<Box<Node>>)
    requires
        nodes.len() <= max_batch_size(),
        forall|k: int| 0 <= k < nodes.len() ==> *#[trigger] nodes[k] == node_at(k),
    ensures
        sum_a(nodes) * 2 == nodes.len() * (nodes.len() - 1),
    decreases nodes.len(),
{
    if nodes.len() > 0 {
        let n = nodes.len() as int;
        let init = nodes.drop_last();
        assert forall|k: int| 0 <= k < init.len() implies *#[trigger] init[k] == node_at(k) by {
            assert(init[k] == nodes[k]);
        }
        law_batch_checksum(init);
        assert(*nodes[n - 1] == node_at(n - 1));
        assert(nodes.last().a == n - 1);
        assert((n - 1) * (n - 2) + 2 * (n - 1) == n * (n - 1)) by (nonlinear_arith);
    }
}

} // verus!
