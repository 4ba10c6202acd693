//! Measurement types and the integer statistics of the bench harness.
//!
//! Means, standard deviations and percentile ranks are floating point and are
//! computed by the harness; the sorting, extremes, sums, rank lookup and
//! clock-round selection below are exact.

use vstd::prelude::*;
use vstd::seq_lib::{
    to_multiset_build, to_multiset_contains, to_multiset_insert, to_multiset_len, to_multiset_remove,
};

use crate::clock::div_toward_zero;

verus! {

/// A single latency measurement from one echo round trip.
#[derive(Debug, Clone)]
pub struct LatencyMeasurement {
    /// Sequence number of this measurement.
    pub seq: u32,
    /// Round-trip time in microseconds.
    pub rtt_us: i64,
    /// Estimated one-way latency in microseconds (RTT / 2).
    pub estimated_one_way_us: i64,
    /// Timestamp of this measurement (ISO 8601).
    pub timestamp: String,
}

impl LatencyMeasurement {
    /// The measurement of echo `seq`, sent at `send_time_us` and answered at
    /// `recv_time_us`: RTT is their difference, one-way latency half of it
    /// (rounded toward zero). The difference must fit in `i64`.
    pub fn from_round_trip(seq: u32, send_time_us: i64, recv_time_us: i64, timestamp: String) -> (r:
        LatencyMeasurement)
        requires
            i64::MIN <= recv_time_us - send_time_us <= i64::MAX,
        ensures
            r.seq == seq,
            r.rtt_us == recv_time_us - send_time_us,
            r.estimated_one_way_us == div_toward_zero(recv_time_us - send_time_us, 2),
            r.timestamp@ == timestamp@,
    {
        let rtt_us = recv_time_us - send_time_us;
        LatencyMeasurement { seq, rtt_us, estimated_one_way_us: rtt_us / 2, timestamp }
    }
}

/// Sum of a sequence of integers.
pub open spec fn seq_sum(s: Seq<i64>) -> int
    decreases s.len(),
{
    if s.len() == 0 {
        0
    } else {
        seq_sum(s.drop_last()) + s.last()
    }
}

/// Sum of the negative elements.
pub open spec fn negative_sum(s: Seq<i64>) -> int
    decreases s.len(),
{
    if s.len() == 0 {
        0
    } else {
        negative_sum(s.drop_last()) + if s.last() < 0 {
            s.last() as int
        } else {
            0
        }
    }
}

/// Ascending order.
pub open spec fn sorted_ascending(s: Seq<i64>) -> bool {
    forall|i: int, j: int| 0 <= i <= j < s.len() ==> s[i] <= s[j]
}

/// The elements of `v` in ascending order.
fn sort_ascending(v: &[i64]) -> (r: Vec<i64>)
    ensures
        r@.len() == v@.len(),
        sorted_ascending(r@),
        r@.to_multiset() == v@.to_multiset(),
{
    let mut r: Vec<i64> = Vec::new();
    let mut i: usize = 0;
    assert(v@.take(0) =~= Seq::<i64>::empty());
    while i < v.len()
        invariant
            0 <= i <= v@.len(),
            r@.len() == i,
            sorted_ascending(r@),
            r@.to_multiset() == v@.take(i as int).to_multiset(),
        decreases v@.len() - i,
    {
        let x = v[i];
        let mut pos: usize = 0;
        while pos < r.len() && r[pos] <= x
            invariant
                0 <= pos <= r@.len(),
                forall|j: int| 0 <= j < pos ==> r@[j] <= x,
            decreases r@.len() - pos,
        {
            pos = pos + 1;
        }
        let ghost before = r@;
        r.insert(pos, x);
        proof {
            to_multiset_insert(before, pos as int, x);
            assert(v@.take(i + 1) =~= v@.take(i as int).push(x));
            to_multiset_build(v@.take(i as int), x);
            assert forall|a: int, b: int| 0 <= a <= b < r@.len() implies r@[a] <= r@[b] by {
                if b < pos {
                } else if b == pos {
                    if a < pos {
                        assert(r@[a] == before[a]);
                    }
                } else {
                    assert(r@[b] == before[b - 1]);
                    if pos < before.len() {
                        assert(before[pos as int] > x);
                        assert(before[pos as int] <= before[b - 1]);
                    }
                    if a < pos {
                        assert(r@[a] == before[a]);
                    } else if a > pos {
                        assert(r@[a] == before[a - 1]);
                    }
                }
            }
        }
        i = i + 1;
    }
    assert(v@.take(v@.len() as int) =~= v@);
    r
}

/// Integer statistics of a batch of round-trip times.
#[derive(Debug, Clone)]
pub struct RttSummary {
    /// The round-trip times in ascending order.
    pub sorted: Vec<i64>,
    /// Number of measurements.
    pub count: u64,
    /// Smallest round-trip time.
    pub min_us: i64,
    /// Largest round-trip time.
    pub max_us: i64,
    /// Sum of all round-trip times.
    pub sum_us: i64,
}

proof fn lemma_sum_bounds(s: Seq<i64>)
    ensures
        negative_sum(s) <= 0,
        negative_sum(s) <= seq_sum(s),
    decreases s.len(),
{
    if s.len() > 0 {
        lemma_sum_bounds(s.drop_last());
    }
}

/// `r` is the summary of the batch `rtts`: its times in ascending order (the
/// same elements), their count, smallest, largest and sum.
pub open spec fn summarizes(r: RttSummary, rtts: Seq<i64>) -> bool {
    &&& r.sorted@.len() == rtts.len()
    &&& sorted_ascending(r.sorted@)
    &&& r.sorted@.to_multiset() == rtts.to_multiset()
    &&& r.count == rtts.len()
    &&& r.min_us == r.sorted@[0]
    &&& r.max_us == r.sorted@.last()
    &&& forall|i: int| 0 <= i < rtts.len() ==> r.min_us <= #[trigger] rtts[i] <= r.max_us
    &&& rtts.contains(r.min_us)
    &&& rtts.contains(r.max_us)
    &&& r.sum_us == seq_sum(rtts)
}

/// Sorts a non-empty batch of round-trip times and takes its count,
/// extremes and sum. The inputs accepted are those on which summing the
/// sorted times never overflows `i64`: the negative times must sum to at
/// least `i64::MIN` and all of them to at most `i64::MAX`.
pub fn summarize_rtts(rtts: &[i64]) -> (r: RttSummary)
    requires
        rtts@.len() > 0,
        rtts@.len() <= u64::MAX,
        negative_sum(rtts@) >= i64::MIN,
        seq_sum(rtts@) <= i64::MAX,
    ensures
        summarizes(r, rtts@),
{
    let sorted = sort_ascending(rtts);
    let n = sorted.len();
    let min_us = sorted[0];
    let max_us = sorted[n - 1];
    let mut total: i128 = 0;
    let mut neg: i128 = 0;
    let mut i: usize = 0;
    assert(rtts@.take(0) =~= Seq::<i64>::empty());
    while i < rtts.len()
        invariant
            0 <= i <= rtts@.len(),
            total == seq_sum(rtts@.take(i as int)),
            neg == negative_sum(rtts@.take(i as int)),
            i64::MIN * i <= neg <= 0,
            neg <= total <= i64::MAX * i,
            rtts@.len() <= u64::MAX,
        decreases rtts@.len() - i,
    {
        proof {
            assert(rtts@.take(i + 1).drop_last() =~= rtts@.take(i as int));
            assert(rtts@.take(i + 1).last() == rtts@[i as int]);
            assert(i64::MIN * (i + 1) == i64::MIN * i + i64::MIN) by (nonlinear_arith);
            assert(i64::MAX * (i + 1) == i64::MAX * i + i64::MAX) by (nonlinear_arith);
            assert(i64::MIN * i >= i64::MIN * u64::MAX) by (nonlinear_arith)
                requires
                    i <= u64::MAX,
            ;
            assert(i64::MAX * i <= i64::MAX * u64::MAX) by (nonlinear_arith)
                requires
                    i <= u64::MAX,
            ;
        }
        let x = rtts[i] as i128;
        total = total + x;
        if x < 0 {
            neg = neg + x;
        }
        i = i + 1;
    }
    assert(rtts@.take(rtts@.len() as int) =~= rtts@);
    proof {
        assert forall|k: int| 0 <= k < rtts@.len() implies min_us <= #[trigger] rtts@[k] <= max_us by {
            to_multiset_contains(rtts@, rtts@[k]);
            to_multiset_contains(sorted@, rtts@[k]);
            let j = choose|j: int| 0 <= j < sorted@.len() && sorted@[j] == rtts@[k];
        }
        to_multiset_contains(sorted@, min_us);
        to_multiset_contains(rtts@, min_us);
        to_multiset_contains(sorted@, max_us);
        to_multiset_contains(rtts@, max_us);
    }
    RttSummary { sorted, count: n as u64, min_us, max_us, sum_us: total as i64 }
}

/// The element of a sorted batch at 1-based nearest rank `rank`, clamped to
/// the batch: rank 0 and rank 1 give the first element, ranks past the end
/// the last.
pub open spec fn rank_index(len: nat, rank: nat) -> int {
    let r = if rank == 0 {
        0
    } else {
        rank - 1
    };
    if r < len - 1 {
        r
    } else {
        len - 1
    }
}

/// The value at nearest rank `rank` (1-based, clamped) of a sorted batch.
pub fn value_at_rank(sorted: &[i64], rank: usize) -> (r: i64)
    requires
        sorted@.len() > 0,
    ensures
        r == sorted@[rank_index(sorted@.len(), rank as nat)],
{
    if sorted.len() == 1 {
        return sorted[0];
    }
    let idx = rank.saturating_sub(1);
    let last = sorted.len() - 1;
    let at = if idx < last {
        idx
    } else {
        last
    };
    sorted[at]
}

/// Nearest-rank values of a sorted batch are ordered as their ranks are and
/// lie between its smallest and largest element (so p50 <= p95 <= p99, all
/// within min..max).
pub proof fn lemma_rank_values_ordered(sorted: Seq<i64>, r1: nat, r2: nat)
    requires
        sorted.len() > 0,
        sorted_ascending(sorted),
        r1 <= r2,
    ensures
        0 <= rank_index(sorted.len(), r1) <= rank_index(sorted.len(), r2) < sorted.len(),
        sorted[0] <= sorted[rank_index(sorted.len(), r1)],
        sorted[rank_index(sorted.len(), r1)] <= sorted[rank_index(sorted.len(), r2)],
        sorted[rank_index(sorted.len(), r2)] <= sorted.last(),
{
    let i1 = rank_index(sorted.len(), r1);
    let i2 = rank_index(sorted.len(), r2);
    assert(sorted[0] <= sorted[i1]);
    assert(sorted[i1] <= sorted[i2]);
    assert(sorted[i2] <= sorted[sorted.len() - 1]);
}

/// The nearest rank (1-based) of percentile `percent` in a batch of `n`
/// values: `ceil(percent * n / 100)`.
pub open spec fn nearest_rank_spec(percent: nat, n: nat) -> nat {
    ((percent * n + 99) / 100) as nat
}

/// The nearest rank of percentile `percent` (at most 100) among `n` values.
pub fn nearest_rank(percent: u32, n: usize) -> (r: usize)
    requires
        percent <= 100,
    ensures
        r == nearest_rank_spec(percent as nat, n as nat),
        r <= n,
{
    let p = percent as u128;
    let m = n as u128;
    assert(p * m <= 100 * m) by (nonlinear_arith)
        requires
            p <= 100,
            0 <= m,
    ;
    assert(100 * m <= 100 * 0xffff_ffff_ffff_ffffu128) by (nonlinear_arith)
        requires
            m <= 0xffff_ffff_ffff_ffffu128,
    ;
    let x = p * m + 99;
    let q = x / 100;
    assert(q <= m) by (nonlinear_arith)
        requires
            x <= 100 * m + 99,
            q == x / 100,
            0 <= m,
    ;
    q as usize
}

/// The value at percentile `percent` of a sorted batch, by the nearest-rank method.
pub fn percentile(sorted: &[i64], percent: u32) -> (r: i64)
    requires
        sorted@.len() > 0,
        percent <= 100,
    ensures
        r == sorted@[rank_index(sorted@.len(), nearest_rank_spec(percent as nat, sorted@.len()))],
{
    let rank = nearest_rank(percent, sorted.len());
    value_at_rank(sorted, rank)
}

/// Percentiles of a sorted batch are ordered as their percents are and lie
/// between its smallest and largest element (p50 <= p95 <= p99 within min..max).
pub proof fn lemma_percentiles_ordered(sorted: Seq<i64>, p: nat, q: nat)
    requires
        sorted.len() > 0,
        sorted_ascending(sorted),
        p <= q,
    ensures
        sorted[0] <= sorted[rank_index(sorted.len(), nearest_rank_spec(p, sorted.len()))],
        sorted[rank_index(sorted.len(), nearest_rank_spec(p, sorted.len()))] <= sorted[rank_index(
            sorted.len(),
            nearest_rank_spec(q, sorted.len()),
        )],
        sorted[rank_index(sorted.len(), nearest_rank_spec(q, sorted.len()))] <= sorted.last(),
{
    let n = sorted.len();
    assert(p * n + 99 <= q * n + 99) by (nonlinear_arith)
        requires
            p <= q,
    ;
    assert((p * n + 99) / 100 <= (q * n + 99) / 100) by (nonlinear_arith)
        requires
            p * n + 99 <= q * n + 99,
            0 <= p * n,
    ;
    lemma_rank_values_ordered(sorted, nearest_rank_spec(p, n), nearest_rank_spec(q, n));
}

/// Removing one element takes it off the sum.
proof fn lemma_seq_sum_remove(s: Seq<i64>, i: int)
    requires
        0 <= i < s.len(),
    ensures
        seq_sum(s) == seq_sum(s.remove(i)) + s[i],
    decreases s.len(),
{
    if i == s.len() - 1 {
        assert(s.remove(i) =~= s.drop_last());
    } else {
        lemma_seq_sum_remove(s.drop_last(), i);
        assert(s.remove(i).drop_last() =~= s.drop_last().remove(i));
        assert(s.remove(i).last() == s.last());
    }
}

/// Sequences with the same elements have the same sum.
proof fn lemma_seq_sum_permutation(a: Seq<i64>, b: Seq<i64>)
    requires
        a.to_multiset() == b.to_multiset(),
    ensures
        seq_sum(a) == seq_sum(b),
    decreases a.len(),
{
    to_multiset_len(a);
    to_multiset_len(b);
    if a.len() > 0 {
        let x = a.last();
        let k = (a.len() - 1) as int;
        assert(a.remove(k) =~= a.drop_last());
        to_multiset_remove(a, k);
        to_multiset_contains(a, x);
        assert(a.contains(x)) by {
            assert(a[k] == x);
        }
        to_multiset_contains(b, x);
        let j = choose|j: int| 0 <= j < b.len() && b[j] == x;
        to_multiset_remove(b, j);
        lemma_seq_sum_permutation(a.drop_last(), b.remove(j));
        lemma_seq_sum_remove(b, j);
    }
}

/// Two ascending sequences with the same elements are equal.
proof fn lemma_sorted_unique(a: Seq<i64>, b: Seq<i64>)
    requires
        sorted_ascending(a),
        sorted_ascending(b),
        a.to_multiset() == b.to_multiset(),
    ensures
        a == b,
    decreases a.len(),
{
    to_multiset_len(a);
    to_multiset_len(b);
    if a.len() == 0 {
        assert(a =~= b);
    } else {
        let k = (a.len() - 1) as int;
        to_multiset_contains(a, a[k]);
        to_multiset_contains(b, a[k]);
        to_multiset_contains(b, b[k]);
        to_multiset_contains(a, b[k]);
        assert(a.contains(a[k]));
        assert(b.contains(b[k]));
        let j = choose|j: int| 0 <= j < b.len() && b[j] == a[k];
        let i = choose|i: int| 0 <= i < a.len() && a[i] == b[k];
        assert(a[k] <= b[k]);
        assert(b[k] <= a[k]);
        assert(a.remove(k) =~= a.drop_last());
        assert(b.remove(k) =~= b.drop_last());
        to_multiset_remove(a, k);
        to_multiset_remove(b, k);
        lemma_sorted_unique(a.drop_last(), b.drop_last());
        assert(a =~= a.drop_last().push(a[k]));
        assert(b =~= b.drop_last().push(b[k]));
    }
}

/// The order of the round-trip times does not matter: summaries of two
/// batches with the same elements agree in every field, so the sorted batch,
/// the count, the extremes, the sum and every nearest-rank value are the same.
pub proof fn lemma_summary_order_free(a: Seq<i64>, b: Seq<i64>, ra: RttSummary, rb: RttSummary)
    requires
        a.to_multiset() == b.to_multiset(),
        summarizes(ra, a),
        summarizes(rb, b),
    ensures
        ra.sorted@ == rb.sorted@,
        ra.count == rb.count,
        ra.min_us == rb.min_us,
        ra.max_us == rb.max_us,
        ra.sum_us == rb.sum_us,
{
    to_multiset_len(a);
    to_multiset_len(b);
    lemma_sorted_unique(ra.sorted@, rb.sorted@);
    lemma_seq_sum_permutation(a, b);
}

/// Outcome of the clock-sync rounds: the offset of the round with the
/// smallest round-trip time, that time, and the mean round-trip time.
#[derive(Debug, Clone, Copy, PartialEq, Eq)]
pub struct ClockRoundsSummary {
    /// Offset of the best round.
    pub best_offset_us: i64,
    /// Smallest round-trip time.
    pub min_rtt_us: i64,
    /// Sum of round-trip times divided by their number, rounded toward zero.
    pub mean_rtt_us: i64,
}

/// Picks the round with the smallest round-trip time (the first of equals)
/// and averages the round-trip times. Every running sum of the round-trip
/// times, taken in order, must fit in `i64`.
pub fn summarize_clock_rounds(offsets: &[i64], rtts: &[i64]) -> (r: ClockRoundsSummary)
    requires
        rtts@.len() > 0,
        offsets@.len() == rtts@.len(),
        rtts@.len() <= i64::MAX,
        forall|k: int| 0 <= k <= rtts@.len() ==> i64::MIN <= #[trigger] seq_sum(rtts@.take(k)) <= i64::MAX,
    ensures
        exists|idx: int|
            0 <= idx < rtts@.len() && r.min_rtt_us == rtts@[idx] && r.best_offset_us == offsets@[idx] && (
            forall|j: int| 0 <= j < idx ==> rtts@[j] > rtts@[idx]) && (forall|j: int|
                0 <= j < rtts@.len() ==> rtts@[j] >= rtts@[idx]),
        r.mean_rtt_us == div_toward_zero(seq_sum(rtts@), rtts@.len() as int),
{
    let mut best: usize = 0;
    let mut sum: i64 = 0;
    let mut i: usize = 0;
    assert(rtts@.take(0) =~= Seq::<i64>::empty());
    while i < rtts.len()
        invariant
            0 <= i <= rtts@.len(),
            rtts@.len() > 0,
            best < rtts@.len(),
            best <= i,
            i > 0 ==> best < i,
            forall|j: int| 0 <= j < best ==> rtts@[j] > rtts@[best as int],
            forall|j: int| 0 <= j < i ==> rtts@[j] >= rtts@[best as int],
            sum == seq_sum(rtts@.take(i as int)),
            forall|k: int| 0 <= k <= rtts@.len() ==> i64::MIN <= #[trigger] seq_sum(rtts@.take(k)) <= i64::MAX,
        decreases rtts@.len() - i,
    {
        proof {
            assert(rtts@.take(i + 1).drop_last() =~= rtts@.take(i as int));
            assert(seq_sum(rtts@.take(i + 1)) == sum + rtts@[i as int]);
        }
        if rtts[i] < rtts[best] {
            best = i;
        }
        sum = sum + rtts[i];
        i = i + 1;
    }
    assert(rtts@.take(rtts@.len() as int) =~= rtts@);
    let mean = sum / (rtts.len() as i64);
    ClockRoundsSummary { best_offset_us: offsets[best], min_rtt_us: rtts[best], mean_rtt_us: mean }
}

} // verus!
