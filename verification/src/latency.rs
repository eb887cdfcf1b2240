//! How long messages take from where they are made to where they arrive.

use crate::timestamp::Timestamp;
use vstd::prelude::*;

verus! {

/// The longest time that can be told, in nanoseconds: as many seconds as 64 bits count, and all
/// but one of the nanoseconds of another.
pub const LONGEST_NANOS: u128 = 18_446_744_073_709_551_615_999_999_999;

/// Nanoseconds in a second.
pub const NANOS_PER_SECOND: u128 = 1_000_000_000;

/// After how many messages it is worth a line in the log.
pub const LOG_EVERY: u64 = 1_000;

/// Whether a list goes up.
pub open spec fn ascends(list: Seq<u128>) -> bool {
    forall|i: int, j: int| 0 <= i <= j < list.len() ==> list[i] <= list[j]
}

/// The sum of a list.
pub open spec fn sum(list: Seq<u128>) -> nat
    decreases list.len(),
{
    if list.len() == 0 {
        0
    } else {
        sum(list.drop_last()) + list.last() as nat
    }
}

/// Merges two lists that go up.
fn merge(left: &Vec<u128>, right: &Vec<u128>) -> (merged: Vec<u128>)
    requires
        ascends(left@),
        ascends(right@),
    ensures
        ascends(merged@),
        merged@.to_multiset() == left@.to_multiset().add(right@.to_multiset()),
{
    broadcast use vstd::seq_lib::group_to_multiset_ensures;

    let mut merged: Vec<u128> = Vec::new();
    let mut i: usize = 0;
    let mut j: usize = 0;
    while i < left.len() || j < right.len()
        invariant
            i <= left@.len(),
            j <= right@.len(),
            ascends(left@),
            ascends(right@),
            ascends(merged@),
            forall|a: int, b: int|
                0 <= a < merged@.len() && i <= b < left@.len() ==> merged@[a] <= left@[b],
            forall|a: int, b: int|
                0 <= a < merged@.len() && j <= b < right@.len() ==> merged@[a] <= right@[b],
            merged@.to_multiset() == left@.take(i as int).to_multiset().add(
                right@.take(j as int).to_multiset(),
            ),
        decreases left@.len() - i + right@.len() - j,
    {
        let from_left: bool = if i < left.len() {
            j >= right.len() || left[i] <= right[j]
        } else {
            false
        };
        let ghost before = merged@;
        if from_left {
            merged.push(left[i]);
            proof {
                vstd::seq_lib::to_multiset_build(before, left@[i as int]);
                vstd::seq_lib::to_multiset_build(left@.take(i as int), left@[i as int]);
                assert(left@.take(i + 1) =~= left@.take(i as int).push(left@[i as int]));
            }
            i += 1;
        } else {
            merged.push(right[j]);
            proof {
                vstd::seq_lib::to_multiset_build(before, right@[j as int]);
                vstd::seq_lib::to_multiset_build(right@.take(j as int), right@[j as int]);
                assert(right@.take(j + 1) =~= right@.take(j as int).push(right@[j as int]));
            }
            j += 1;
        }
        assert(merged@.to_multiset() =~= left@.take(i as int).to_multiset().add(
            right@.take(j as int).to_multiset(),
        ));
    }
    assert(left@.take(i as int) =~= left@);
    assert(right@.take(j as int) =~= right@);
    merged
}

/// Sorts a list.
pub fn sorted(list: &Vec<u128>) -> (result: Vec<u128>)
    ensures
        ascends(result@),
        result@.to_multiset() == list@.to_multiset(),
        result@.len() == list@.len(),
{
    let result = sorted_range(list, 0, list.len());
    assert(list@.subrange(0, list@.len() as int) =~= list@);
    proof {
        broadcast use vstd::seq_lib::group_to_multiset_ensures;

        assert(result@.len() == result@.to_multiset().len());
        assert(list@.len() == list@.to_multiset().len());
    }
    result
}

fn sorted_range(list: &Vec<u128>, start: usize, end: usize) -> (result: Vec<u128>)
    requires
        start <= end <= list@.len(),
    ensures
        ascends(result@),
        result@.to_multiset() == list@.subrange(start as int, end as int).to_multiset(),
    decreases end - start,
{
    broadcast use vstd::seq_lib::group_to_multiset_ensures;

    if end - start <= 1 {
        let mut result: Vec<u128> = Vec::new();
        if start < end {
            result.push(list[start]);
        }
        assert(result@ =~= list@.subrange(start as int, end as int));
        result
    } else {
        let middle: usize = start + (end - start) / 2;
        let left = sorted_range(list, start, middle);
        let right = sorted_range(list, middle, end);
        proof {
            let a = list@.subrange(start as int, middle as int);
            let b = list@.subrange(middle as int, end as int);
            assert(list@.subrange(start as int, end as int) =~= a + b);
            vstd::seq_lib::lemma_multiset_commutative(a, b);
        }
        merge(&left, &right)
    }
}

/// What was measured, in nanoseconds, and how many messages came.
#[derive(Debug, Clone)]
pub struct LatencyStats {
    pub latencies: Vec<u128>,
    pub total_messages: u64,
}

/// What is told of the latencies.
#[derive(Debug, Clone, Copy, PartialEq, Eq, Structural)]
pub struct LatencySummary {
    pub average: u128,
    pub min: u128,
    pub p50: u128,
    pub p90: u128,
    pub p95: u128,
    pub p99: u128,
    pub max: u128,
}

/// The value below which about `percent` of a list that goes up lie.
pub open spec fn percentile(list: Seq<u128>, percent: int) -> u128 {
    list[list.len() * percent / 100]
}

/// What is told of a list that goes up.
pub open spec fn summary_of(list: Seq<u128>) -> LatencySummary {
    LatencySummary {
        average: (sum(list) / list.len()) as u128,
        min: list[0],
        p50: percentile(list, 50),
        p90: percentile(list, 90),
        p95: percentile(list, 95),
        p99: percentile(list, 99),
        max: list.last(),
    }
}

/// The nanoseconds of a timestamp, taken as a number of 64 bits: negative ones are far off.
pub open spec fn unsigned_nanos(nanos: i32) -> int {
    if nanos >= 0 {
        nanos as int
    } else {
        0x1_0000_0000_0000_0000 + nanos
    }
}

/// The time from when a message was made to when it came, if it did not come before it was made.
pub open spec fn latency_of(created_at: Timestamp, now: u128) -> Option<u128> {
    let created = created_at.seconds * NANOS_PER_SECOND + unsigned_nanos(created_at.nanos);
    if created <= now {
        Some((now - created) as u128)
    } else {
        None
    }
}

fn at_percent(list: &Vec<u128>, percent: u64) -> (value: u128)
    requires
        0 < list@.len() <= u32::MAX,
        percent < 100,
    ensures
        value == percentile(list@, percent as int),
{
    let len: u64 = list.len() as u64;
    assert(len * percent <= 0xffff_ffff * 99) by (nonlinear_arith)
        requires
            len <= 0xffff_ffff,
            percent <= 99,
    ;
    assert(len * percent / 100 < len) by (nonlinear_arith)
        requires
            0 < len,
            percent <= 99,
    ;
    list[(len * percent / 100) as usize]
}

fn total(list: &Vec<u128>) -> (total: u128)
    requires
        sum(list@) <= LONGEST_NANOS,
    ensures
        total == sum(list@),
{
    let mut total: u128 = 0;
    let mut i: usize = 0;
    while i < list.len()
        invariant
            i <= list@.len(),
            total == sum(list@.take(i as int)),
            sum(list@) <= LONGEST_NANOS,
        decreases list@.len() - i,
    {
        proof {
            assert(list@.take(i + 1).drop_last() =~= list@.take(i as int));
            lemma_sum_take(list@, i + 1);
        }
        total = total + list[i];
        i += 1;
    }
    assert(list@.take(i as int) =~= list@);
    total
}

proof fn lemma_sum_take(list: Seq<u128>, n: int)
    requires
        0 <= n <= list.len(),
    ensures
        sum(list.take(n)) <= sum(list),
    decreases list.len() - n,
{
    if n < list.len() {
        lemma_sum_take(list, n + 1);
        assert(list.take(n + 1).drop_last() =~= list.take(n));
    } else {
        assert(list.take(n) =~= list);
    }
}

/// The sum of a list does not depend on its order.
proof fn lemma_sum_multiset(a: Seq<u128>, b: Seq<u128>)
    requires
        a.to_multiset() == b.to_multiset(),
    ensures
        sum(a) == sum(b),
    decreases a.len(),
{
    broadcast use vstd::seq_lib::group_to_multiset_ensures;

    assert(a.len() == a.to_multiset().len());
    assert(b.len() == b.to_multiset().len());
    if a.len() > 0 {
        let last = a.last();
        assert(a.to_multiset().count(last) > 0) by {
            assert(a.contains(last));
        }
        assert(b.to_multiset().count(last) > 0);
        assert(b.contains(last));
        let i = choose|i: int| 0 <= i < b.len() && b[i] == last;
        let rest = b.remove(i);
        assert(a.drop_last().push(last) =~= a);
        assert(a.to_multiset() =~= a.drop_last().to_multiset().insert(last));
        assert(rest.to_multiset() =~= b.to_multiset().remove(last));
        assert(a.drop_last().to_multiset() =~= rest.to_multiset());
        lemma_sum_multiset(a.drop_last(), rest);
        lemma_sum_remove(b, i);
    }
}

proof fn lemma_sum_remove(list: Seq<u128>, i: int)
    requires
        0 <= i < list.len(),
    ensures
        sum(list) == sum(list.remove(i)) + list[i],
    decreases list.len(),
{
    let rest = list.remove(i);
    if i == list.len() - 1 {
        assert(rest =~= list.drop_last());
    } else {
        lemma_sum_remove(list.drop_last(), i);
        assert(rest.drop_last() =~= list.drop_last().remove(i));
        assert(rest.last() == list.last());
    }
}

impl LatencyStats {
    /// Nothing measured yet.
    pub fn new() -> (stats: Self)
        ensures
            stats.latencies@ == Seq::<u128>::empty(),
            stats.total_messages == 0,
    {
        LatencyStats { latencies: Vec::new(), total_messages: 0 }
    }

    /// Takes a message: when it was made, if it says so, and what time it is, in nanoseconds since
    /// the start of 1970. Says whether the count is worth a line in the log.
    pub fn on_message(&mut self, created_at: Option<Timestamp>, now: u128) -> (log: bool)
        requires
            old(self).total_messages < u64::MAX,
            created_at matches Some(timestamp) ==> timestamp.seconds >= 0,
        ensures
            final(self).total_messages == old(self).total_messages + 1,
            final(self).latencies@ == match created_at {
                Some(timestamp) => match latency_of(timestamp, now) {
                    Some(latency) => old(self).latencies@.push(latency),
                    None => old(self).latencies@,
                },
                None => old(self).latencies@,
            },
            log == (final(self).total_messages % LOG_EVERY == 0),
    {
        self.total_messages = self.total_messages + 1;
        if let Some(timestamp) = created_at {
            assert(timestamp.seconds * NANOS_PER_SECOND <= 0x7fff_ffff_ffff_ffff * 1_000_000_000)
                by (nonlinear_arith)
                requires
                    timestamp.seconds <= 0x7fff_ffff_ffff_ffff,
                    NANOS_PER_SECOND == 1_000_000_000,
            ;
            let nanos: u128 = if timestamp.nanos >= 0 {
                timestamp.nanos as u128
            } else {
                (0x1_0000_0000_0000_0000i128 + timestamp.nanos as i128) as u128
            };
            let created: u128 = timestamp.seconds as u128 * NANOS_PER_SECOND + nanos;
            if created <= now {
                self.latencies.push(now - created);
            }
        }
        self.total_messages % LOG_EVERY == 0
    }

    /// Whether the latencies can be summed up and averaged.
    pub open spec fn summable(self) -> bool {
        &&& self.latencies@.len() <= u32::MAX
        &&& sum(self.latencies@) <= LONGEST_NANOS
    }

    /// Finds out whether the latencies can be summed up and averaged.
    pub fn is_summable(&self) -> (summable: bool)
        ensures
            summable == self.summable(),
    {
        if self.latencies.len() > 0xffff_ffff {
            return false;
        }
        let mut total: u128 = 0;
        let mut i: usize = 0;
        while i < self.latencies.len()
            invariant
                i <= self.latencies@.len(),
                total == sum(self.latencies@.take(i as int)),
                total <= LONGEST_NANOS,
            decreases self.latencies@.len() - i,
        {
            proof {
                assert(self.latencies@.take(i + 1).drop_last() =~= self.latencies@.take(i as int));
                lemma_sum_take(self.latencies@, i + 1);
            }
            if self.latencies[i] > LONGEST_NANOS - total {
                return false;
            }
            total = total + self.latencies[i];
            i += 1;
        }
        assert(self.latencies@.take(i as int) =~= self.latencies@);
        true
    }
}

/// What is told of the latencies, where there are any: that of the sorted list.
pub fn print_statistics(stats: &LatencyStats) -> (summary: Option<LatencySummary>)
    requires
        stats.summable(),
    ensures
        stats.latencies@.len() > 0 ==> exists|list: Seq<u128>| #[trigger]
            ascends(list) && list.to_multiset() == stats.latencies@.to_multiset() && summary
                == Some(summary_of(list)),
        summary is Some <==> stats.latencies@.len() > 0,
        forall|list: Seq<u128>| #[trigger]
            ascends(list) && list.to_multiset() == stats.latencies@.to_multiset()
                && stats.latencies@.len() > 0 ==> summary == Some(summary_of(list)),
{
    if stats.latencies.len() == 0 {
        return None;
    }
    let list = sorted(&stats.latencies);
    proof {
        lemma_sum_multiset(list@, stats.latencies@);
    }
    let len: usize = list.len();
    let sum_of_all: u128 = total(&list);
    let average: u128 = sum_of_all / len as u128;
    let summary = LatencySummary {
        average,
        min: list[0],
        p50: at_percent(&list, 50),
        p90: at_percent(&list, 90),
        p95: at_percent(&list, 95),
        p99: at_percent(&list, 99),
        max: list[len - 1],
    };
    proof {
        assert(summary == summary_of(list@));
        assert forall|other: Seq<u128>| #[trigger]
            ascends(other) && other.to_multiset() == stats.latencies@.to_multiset() implies other
            == list@ by {
            lemma_sorted_unique(other, list@);
        }
    }
    Some(summary)
}

/// Two lists that go up and hold the same are the same.
proof fn lemma_sorted_unique(a: Seq<u128>, b: Seq<u128>)
    requires
        ascends(a),
        ascends(b),
        a.to_multiset() == b.to_multiset(),
    ensures
        a == b,
    decreases a.len(),
{
    broadcast use vstd::seq_lib::group_to_multiset_ensures;

    assert(a.len() == a.to_multiset().len());
    assert(b.len() == b.to_multiset().len());
    if a.len() > 0 {
        assert(a.to_multiset().count(a.last()) > 0) by {
            assert(a.contains(a.last()));
        }
        assert(b.to_multiset().count(b.last()) > 0) by {
            assert(b.contains(b.last()));
        }
        assert(b.contains(a.last()));
        assert(a.contains(b.last()));
        assert(a.last() == b.last());
        assert(a.drop_last().push(a.last()) =~= a);
        assert(b.drop_last().push(b.last()) =~= b);
        assert(a.to_multiset() =~= a.drop_last().to_multiset().insert(a.last()));
        assert(b.to_multiset() =~= b.drop_last().to_multiset().insert(b.last()));
        assert(a.drop_last().to_multiset() =~= a.to_multiset().remove(a.last()));
        assert(b.drop_last().to_multiset() =~= b.to_multiset().remove(b.last()));
        lemma_sorted_unique(a.drop_last(), b.drop_last());
    } else {
        assert(a =~= b);
    }
}

/// What is told of latencies goes up: from the least over the percentiles to the greatest, and the
/// average lies between the least and the greatest.
pub proof fn law_summary_is_in_order(list: Seq<u128>)
    requires
        list.len() > 0,
        ascends(list),
        sum(list) <= LONGEST_NANOS,
    ensures
        ({
            let summary = summary_of(list);
            &&& summary.min <= summary.p50 <= summary.p90 <= summary.p95 <= summary.p99
                <= summary.max
            &&& summary.min <= summary.average <= summary.max
        }),
{
    let n = list.len() as int;
    assert(0 <= n * 50 / 100 <= n * 90 / 100 <= n * 95 / 100 <= n * 99 / 100 <= n - 1)
        by (nonlinear_arith)
        requires
            n > 0,
    ;
    lemma_sum_between(list, list[0] as nat, list.last() as nat);
    let total = sum(list) as int;
    let low = list[0] as int;
    let high = list.last() as int;
    assert(low <= total / n <= high) by (nonlinear_arith)
        requires
            n > 0,
            n * low <= total <= n * high,
    ;
}

proof fn lemma_sum_between(list: Seq<u128>, low: nat, high: nat)
    requires
        forall|i: int| 0 <= i < list.len() ==> low <= #[trigger] list[i] <= high,
    ensures
        list.len() * low <= sum(list) <= list.len() * high,
    decreases list.len(),
{
    if list.len() > 0 {
        lemma_sum_between(list.drop_last(), low, high);
        let n = list.len() as int;
        assert((n - 1) * low + low == n * low && (n - 1) * high + high == n * high)
            by (nonlinear_arith);
    }
}

} // verus!
