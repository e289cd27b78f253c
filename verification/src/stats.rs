//! Summary statistics of measured durations.

use vstd::prelude::*;
use crate::order::{
    ascending, lemma_ascending, lemma_ascending_is, lemma_count_at_least, lemma_count_permuted,
    lemma_total_permuted, sort, sum, sum_of_squares, sums_add_up, total, total_adds_up,
};
use crate::units::{Millis, Ratio, NANOS_PER_MS};

verus! {

/// Summary statistics of a list of durations.
#[derive(Clone, Copy, Debug)]
pub struct Stats {
    /// How many durations there are.
    pub count: usize,
    pub min_ms: Millis,
    pub max_ms: Millis,
    /// The mean, in milliseconds.
    pub mean_ms: Ratio,
    /// The median, in milliseconds: the middle duration, or the mean of the two in the middle.
    pub median_ms: Ratio,
    pub p95_ms: Millis,
    /// The population variance in square nanoseconds, unless it is too large to be kept exactly.
    /// The standard deviation is its square root.
    pub variance_ns2: Option<Ratio>,
}

/// The durations in nanoseconds.
pub open spec fn nanos(times: Seq<Millis>) -> Seq<u64> {
    times.map_values(|t: Millis| t.nanos)
}

/// Where the 95th percentile of `n` ordered durations stands: at 95 percent of the way, rounded
/// up, or at the last one.
pub open spec fn p95_rank(n: int) -> int {
    let k = (95 * n + 99) / 100;
    if k < n {
        k
    } else {
        n - 1
    }
}

/// The median of the ordered durations `s`, in milliseconds.
pub open spec fn is_median(r: Ratio, s: Seq<u64>) -> bool {
    let n = s.len() as int;
    if n % 2 == 0 {
        r.is(s[n / 2 - 1] + s[n / 2], 2 * NANOS_PER_MS)
    } else {
        r.is(s[n / 2] as int, NANOS_PER_MS as int)
    }
}

/// The numerator of the population variance of `t` over `t.len()` squared.
pub open spec fn variance_top(t: Seq<u64>) -> int {
    t.len() * sum_of_squares(t) - sum(t) * sum(t)
}

/// Whether `v` is the population variance of `t`. It is left out if and only if the count times
/// the sum of the squares does not fit in 128 bits.
pub open spec fn is_variance(v: Option<Ratio>, t: Seq<u64>) -> bool {
    if t.len() * sum_of_squares(t) <= u128::MAX {
        v matches Some(r) && r.is(variance_top(t), (t.len() * t.len()) as int)
    } else {
        v is None
    }
}

/// Whether `r` summarizes the durations `t`, given in nanoseconds.
pub open spec fn is_summary(r: Stats, t: Seq<u64>) -> bool {
    let s = ascending(t);
    &&& r.count == t.len()
    &&& r.min_ms.nanos == s[0]
    &&& r.max_ms.nanos == s[t.len() - 1]
    &&& r.mean_ms.is(sum(t), t.len() * NANOS_PER_MS)
    &&& is_median(r.median_ms, s)
    &&& r.p95_ms.nanos == s[p95_rank(t.len() as int)]
    &&& is_variance(r.variance_ns2, t)
}

/// The statistics that stand in a result without durations: all zero.
pub open spec fn is_blank(r: Stats) -> bool {
    &&& r.count == 0
    &&& r.min_ms.nanos == 0
    &&& r.max_ms.nanos == 0
    &&& r.mean_ms.is(0, 1)
    &&& r.median_ms.is(0, 1)
    &&& r.p95_ms.nanos == 0
    &&& r.variance_ns2 matches Some(v) && v.is(0, 1)
}

/// The statistics of no durations at all.
pub fn blank_stats() -> (r: Stats)
    ensures
        is_blank(r),
{
    Stats {
        count: 0,
        min_ms: Millis { nanos: 0 },
        max_ms: Millis { nanos: 0 },
        mean_ms: Ratio::zero(),
        median_ms: Ratio::zero(),
        p95_ms: Millis { nanos: 0 },
        variance_ns2: Some(Ratio::zero()),
    }
}

/// The squared distances from `x`, added up, are what the sums make of them.
proof fn lemma_distances(t: Seq<u64>, x: int)
    ensures
        sum_of_squares(t) - 2 * x * sum(t) + t.len() * x * x >= 0,
    decreases t.len(),
{
    if t.len() > 0 {
        let rest = t.drop_last();
        let y = t.last() as int;
        lemma_distances(rest, x);
        let q = sum_of_squares(rest);
        let s = sum(rest);
        let n = rest.len() as int;
        assert(sum_of_squares(t) == q + y * y);
        assert(sum(t) == s + y);
        assert((q + y * y) - 2 * x * (s + y) + (n + 1) * x * x == (q - 2 * x * s + n * x * x) + (y
            - x) * (y - x)) by (nonlinear_arith);
        assert((y - x) * (y - x) >= 0) by (nonlinear_arith);
        assert(t.len() == n + 1);
        assert(sum_of_squares(t) - 2 * x * sum(t) + t.len() * x * x == (q + y * y) - 2 * x * (s + y)
            + (n + 1) * x * x);
    }
}

/// The variance of a list of durations is never negative.
pub proof fn variance_is_not_negative(t: Seq<u64>)
    ensures
        variance_top(t) >= 0,
    decreases t.len(),
{
    if t.len() > 0 {
        let rest = t.drop_last();
        let y = t.last() as int;
        variance_is_not_negative(rest);
        lemma_distances(rest, y);
        let q = sum_of_squares(rest);
        let s = sum(rest);
        let n = rest.len() as int;
        assert(sum_of_squares(t) == q + y * y);
        assert(sum(t) == s + y);
        assert((n + 1) * (q + y * y) - (s + y) * (s + y) == (n * q - s * s) + (q - 2 * y * s + n * y
            * y)) by (nonlinear_arith);
        assert(t.len() == n + 1);
    }
}

proof fn lemma_sums_grow(t: Seq<u64>, i: int)
    requires
        0 <= i <= t.len(),
    ensures
        0 <= sum(t.take(i)) <= sum(t),
        0 <= sum_of_squares(t.take(i)) <= sum_of_squares(t),
        sum(t) <= t.len() * u64::MAX,
    decreases t.len(),
{
    if t.len() == 0 {
        assert(t.take(i) =~= t);
    } else {
        let rest = t.drop_last();
        let y = t.last() as int;
        assert(y * y >= 0) by (nonlinear_arith);
        assert(t.len() * u64::MAX == rest.len() * u64::MAX + u64::MAX) by (nonlinear_arith)
            requires
                t.len() == rest.len() + 1,
        ;
        if i == t.len() {
            lemma_sums_grow(rest, i - 1);
            assert(t.take(i) =~= t);
        } else {
            lemma_sums_grow(rest, i);
            assert(rest.take(i) =~= t.take(i));
        }
    }
}

/// The sum of the list, and the sum of its squares if that fits.
fn sums(list: &Vec<u64>) -> (r: (u128, Option<u128>))
    ensures
        r.0 == sum(list@),
        sum_of_squares(list@) <= u128::MAX ==> r.1 == Some(sum_of_squares(list@) as u128),
        sum_of_squares(list@) > u128::MAX ==> r.1 is None,
{
    let mut first: u128 = 0;
    let mut second: Option<u128> = Some(0);
    let mut i: usize = 0;
    while i < list.len()
        invariant
            i <= list@.len(),
            first == sum(list@.take(i as int)),
            first <= i * u64::MAX,
            second matches Some(q) ==> q == sum_of_squares(list@.take(i as int)),
            second is None ==> sum_of_squares(list@.take(i as int)) > u128::MAX,
        decreases list@.len() - i,
    {
        let x: u128 = list[i] as u128;
        proof {
            assert(list@.take(i + 1).drop_last() =~= list@.take(i as int));
            lemma_sums_grow(list@.take(i as int), 0);
            assert(x * x <= u64::MAX * u64::MAX && x * x >= 0) by (nonlinear_arith)
                requires
                    x <= u64::MAX,
            ;
            assert(i * u64::MAX + u64::MAX == (i + 1) * u64::MAX) by (nonlinear_arith);
            assert((i + 1) * u64::MAX <= u64::MAX * u64::MAX) by (nonlinear_arith)
                requires
                    i + 1 <= u64::MAX,
            ;
        }
        first = first + x;
        second = match second {
            Some(q) => q.checked_add(x * x),
            None => None,
        };
        i += 1;
    }
    assert(list@.take(i as int) =~= list@);
    (first, second)
}

/// Summarizes a list of durations, which must not be empty.
pub fn compute_stats(times: &Vec<Millis>) -> (r: Stats)
    requires
        times@.len() > 0,
    ensures
        is_summary(r, nanos(times@)),
{
    let mut list: Vec<u64> = Vec::new();
    let mut i: usize = 0;
    while i < times.len()
        invariant
            i <= times@.len(),
            list@ == nanos(times@).take(i as int),
        decreases times@.len() - i,
    {
        list.push(times[i].nanos);
        assert(nanos(times@).take(i + 1) =~= nanos(times@).take(i as int).push(
            times@[i as int].nanos,
        ));
        i += 1;
    }
    let ghost t = nanos(times@);
    assert(list@ =~= t);
    let sorted = sort(&list);
    proof {
        lemma_ascending(t);
    }
    let n: usize = sorted.len();
    let wide: u128 = n as u128;
    let (first, squares) = sums(&list);
    let median = if n % 2 == 0 {
        Ratio::of(sorted[n / 2 - 1] as u128 + sorted[n / 2] as u128, 0, 2 * NANOS_PER_MS)
    } else {
        Ratio::of(sorted[n / 2] as u128, 0, NANOS_PER_MS)
    };
    let p: usize = n - n / 20;
    let rank: usize = if p < n {
        p
    } else {
        n - 1
    };
    assert(rank == p95_rank(n as int));
    proof {
        variance_is_not_negative(t);
        lemma_sums_grow(t, 0);
        assert(0 < wide * wide <= u64::MAX * u64::MAX) by (nonlinear_arith)
            requires
                0 < wide <= u64::MAX,
        ;
        assert(sum(t) * sum(t) >= 0) by (nonlinear_arith);
        assert(wide * sum_of_squares(t) >= sum_of_squares(t)) by (nonlinear_arith)
            requires
                wide >= 1,
                sum_of_squares(t) >= 0,
        ;
    }
    let variance = match squares {
        Some(q) => match wide.checked_mul(q) {
            Some(top) => Some(Ratio::of(top, first * first, wide * wide)),
            None => None,
        },
        None => None,
    };
    Stats {
        count: n,
        min_ms: Millis { nanos: sorted[0] },
        max_ms: Millis { nanos: sorted[n - 1] },
        mean_ms: Ratio::of(first, 0, wide * NANOS_PER_MS),
        median_ms: median,
        p95_ms: Millis { nanos: sorted[rank] },
        variance_ns2: variance,
    }
}

/// The squared distances of `s` from `sum / count`, scaled by the square of the count and added
/// up.
pub open spec fn scaled_deviations(s: Seq<u64>, count: int, sum: int) -> int {
    total(s, |x: u64| (count * x - sum) * (count * x - sum))
}

proof fn lemma_scaled_deviations(s: Seq<u64>, c: int, m: int)
    ensures
        scaled_deviations(s, c, m) == c * c * sum_of_squares(s) - 2 * c * m * sum(s) + s.len() * m * m,
    decreases s.len(),
{
    if s.len() > 0 {
        let rest = s.drop_last();
        let y = s.last() as int;
        lemma_scaled_deviations(rest, c, m);
        let q = sum_of_squares(rest);
        let p = sum(rest);
        let n = rest.len() as int;
        assert(sum_of_squares(s) == q + y * y);
        assert(sum(s) == p + y);
        assert(s.len() == n + 1);
        assert((c * c * q - 2 * c * m * p + n * m * m) + (c * y - m) * (c * y - m) == c * c * (q + y
            * y) - 2 * c * m * (p + y) + (n + 1) * m * m) by (nonlinear_arith);
    } else {
        assert(c * c * 0 - 2 * c * m * 0 + 0 * m * m == 0) by (nonlinear_arith);
    }
}

/// The variance is the mean of the squared deviations from the mean: with `n` durations that add
/// up to `s`, the squares of `n * x - s` add up to `n` times the numerator over `n` squared.
pub proof fn variance_is_mean_squared_deviation(t: Seq<u64>)
    ensures
        scaled_deviations(t, t.len() as int, sum(t)) == t.len() * variance_top(t),
{
    let n = t.len() as int;
    let s = sum(t);
    let q = sum_of_squares(t);
    lemma_scaled_deviations(t, n, s);
    assert(n * n * q - 2 * n * s * s + n * s * s == n * (n * q - s * s)) by (nonlinear_arith);
}

proof fn lemma_sum_between(s: Seq<u64>, low: int, high: int)
    requires
        forall|i: int| 0 <= i < s.len() ==> low <= #[trigger] s[i] <= high,
    ensures
        s.len() * low <= sum(s) <= s.len() * high,
    decreases s.len(),
{
    if s.len() > 0 {
        let rest = s.drop_last();
        assert forall|i: int| 0 <= i < rest.len() implies low <= #[trigger] rest[i] <= high by {
            assert(rest[i] == s[i]);
        }
        lemma_sum_between(rest, low, high);
        let n = rest.len() as int;
        assert((n + 1) * low == n * low + low) by (nonlinear_arith);
        assert((n + 1) * high == n * high + high) by (nonlinear_arith);
        assert(low <= s[s.len() - 1] <= high);
        assert(s.len() == n + 1);
    } else {
        assert(0 * low == 0 && 0 * high == 0);
    }
}

/// Every summary is in order: the minimum is at most the median, which is at most the 95th
/// percentile, which is at most the maximum, and the mean lies between minimum and maximum.
pub proof fn summary_is_in_order(r: Stats, t: Seq<u64>)
    requires
        t.len() > 0,
        is_summary(r, t),
    ensures
        r.min_ms.nanos * r.median_ms.den <= r.median_ms.top() * NANOS_PER_MS,
        r.median_ms.top() * NANOS_PER_MS <= r.p95_ms.nanos * r.median_ms.den,
        r.p95_ms.nanos <= r.max_ms.nanos,
        r.min_ms.nanos * r.mean_ms.den <= r.mean_ms.top() * NANOS_PER_MS,
        r.mean_ms.top() * NANOS_PER_MS <= r.max_ms.nanos * r.mean_ms.den,
{
    let s = ascending(t);
    let n = t.len() as int;
    lemma_ascending(t);
    assert(n / 2 <= p95_rank(n) < n);
    assert(s[0] <= s[n / 2] <= s[p95_rank(n)] <= s[n - 1]);
    if n % 2 == 0 {
        assert(s[0] <= s[n / 2 - 1] <= s[n / 2]);
    }
    lemma_total_permuted(s, t, |x: u64| x as int);
    lemma_sum_between(s, s[0] as int, s[n - 1] as int);
    let low = s[0] as int;
    let high = s[n - 1] as int;
    let m = sum(t);
    assert(low * (n * 1_000_000) == (n * low) * 1_000_000) by (nonlinear_arith);
    assert(high * (n * 1_000_000) == (n * high) * 1_000_000) by (nonlinear_arith);
}

/// A summary depends on the durations alone, not on the order in which they were measured.
pub proof fn summary_ignores_order(r: Stats, s: Seq<u64>, t: Seq<u64>)
    requires
        s.to_multiset() == t.to_multiset(),
        is_summary(r, s),
    ensures
        is_summary(r, t),
{
    vstd::seq_lib::to_multiset_len(s);
    vstd::seq_lib::to_multiset_len(t);
    lemma_ascending(t);
    lemma_ascending_is(s, ascending(t));
    lemma_total_permuted(s, t, |x: u64| x as int);
    lemma_total_permuted(s, t, |x: u64| x * x);
}

/// Every duration counts, each as what it is.
pub proof fn durations_count_as_they_are(times: Seq<Millis>)
    ensures
        nanos(times).len() == times.len(),
        forall|i: int| 0 <= i < times.len() ==> #[trigger] nanos(times)[i] == times[i].nanos,
{
}

/// A summary can be read off the durations in ascending order, `u`: the first and the last of them;
/// the one in the middle, or the mean of the two with as many before them as after them; and the one
/// with 95 percent of the count before it, rounded up, or the last if there is none.
pub proof fn summary_reads_off_the_ordered_durations(r: Stats, t: Seq<u64>, u: Seq<u64>)
    requires
        t.len() > 0,
        is_summary(r, t),
        u.to_multiset() == t.to_multiset(),
        forall|i: int, j: int| 0 <= i <= j < u.len() ==> #[trigger] u[i] <= #[trigger] u[j],
    ensures
        u.len() == t.len(),
        r.count == t.len(),
        r.min_ms.nanos == u[0],
        r.max_ms.nanos == u[u.len() - 1],
        forall|i: int|
            #![trigger u[i]]
            0 <= i && 2 * i + 1 == u.len() ==> r.median_ms.top() * 1_000_000 == u[i]
                * r.median_ms.den,
        forall|i: int|
            #![trigger u[i]]
            0 <= i && 2 * i + 2 == u.len() ==> 2 * r.median_ms.top() * 1_000_000 == (u[i] + u[i + 1])
                * r.median_ms.den,
        exists|k: int|
            #![trigger u[k]]
            {
                &&& 0 <= k < u.len()
                &&& r.p95_ms.nanos == u[k]
                &&& 100 * (k - 1) < 95 * u.len()
                &&& 100 * k >= 95 * u.len() || k == u.len() - 1
            },
{
    vstd::seq_lib::to_multiset_len(t);
    vstd::seq_lib::to_multiset_len(u);
    assert forall|i: int, j: int| 0 <= i < j < u.len() implies #[trigger] u[i] <= #[trigger] u[j] by {
    }
    lemma_ascending_is(t, u);
    let n = t.len() as int;
    let k = p95_rank(n);
    assert(r.p95_ms.nanos == u[k]);
    let d = r.median_ms.den as int;
    assert forall|i: int|
        #![trigger u[i]]
        0 <= i && 2 * i + 2 == u.len() implies 2 * r.median_ms.top() * 1_000_000 == (u[i] + u[i + 1])
        * r.median_ms.den by {
        let both = u[i] + u[i + 1];
        assert(i == n / 2 - 1);
        assert(r.median_ms.top() == both);
        assert(both * d == both * 2_000_000) by (nonlinear_arith)
            requires
                d == 2_000_000,
        ;
    }
}

/// The median splits the durations in half: at least half of them are no longer, and at least half
/// are no shorter.
pub proof fn median_splits_the_durations(r: Stats, t: Seq<u64>)
    requires
        t.len() > 0,
        is_summary(r, t),
    ensures
        2 * t.filter(|x: u64| x * r.median_ms.den <= r.median_ms.top() * 1_000_000).len() >= t.len(),
        2 * t.filter(|x: u64| x * r.median_ms.den >= r.median_ms.top() * 1_000_000).len() >= t.len(),
{
    let u = ascending(t);
    let n = t.len() as int;
    let d = r.median_ms.den as int;
    let m = r.median_ms.top();
    let low = |x: u64| x * r.median_ms.den <= r.median_ms.top() * 1_000_000;
    let high = |x: u64| x * r.median_ms.den >= r.median_ms.top() * 1_000_000;
    lemma_ascending(t);
    let a = if n % 2 == 0 {
        n / 2 - 1
    } else {
        n / 2
    };
    let b = n / 2;
    assert(u[a] <= u[b]);
    assert(u[a] * d <= m * 1_000_000 <= u[b] * d) by {
        let x = u[a] as int;
        let y = u[b] as int;
        if n % 2 == 0 {
            assert(x * d <= (x + y) * 1_000_000 <= y * d) by (nonlinear_arith)
                requires
                    d == 2_000_000,
                    x <= y,
            ;
        } else {
            assert(x * d == x * 1_000_000) by (nonlinear_arith)
                requires
                    d == 1_000_000,
            ;
        }
    }
    assert forall|k: int| 0 <= k < a + 1 implies low(#[trigger] u[k]) by {
        assert(u[k] <= u[a]);
        assert(u[k] * d <= u[a] * d) by (nonlinear_arith)
            requires
                0 <= u[k] <= u[a],
                d > 0,
        ;
    }
    assert forall|k: int| b <= k < n implies high(#[trigger] u[k]) by {
        assert(u[b] <= u[k]);
        assert(u[b] * d <= u[k] * d) by (nonlinear_arith)
            requires
                0 <= u[b] <= u[k],
                d > 0,
        ;
    }
    lemma_count_at_least(u, low, 0, a + 1);
    lemma_count_at_least(u, high, b, n);
    lemma_count_permuted(u, t, low);
    lemma_count_permuted(u, t, high);
}

/// At least 95 percent of the durations are no longer than the 95th percentile.
pub proof fn most_durations_are_within_the_percentile(r: Stats, t: Seq<u64>)
    requires
        t.len() > 0,
        is_summary(r, t),
    ensures
        100 * t.filter(|x: u64| x <= r.p95_ms.nanos).len() >= 95 * t.len(),
{
    let u = ascending(t);
    let n = t.len() as int;
    let k = p95_rank(n);
    let low = |x: u64| x <= r.p95_ms.nanos;
    lemma_ascending(t);
    assert forall|i: int| 0 <= i < k + 1 implies low(#[trigger] u[i]) by {
        assert(u[i] <= u[k]);
    }
    lemma_count_at_least(u, low, 0, k + 1);
    lemma_count_permuted(u, t, low);
}

/// No duration is shorter than the minimum or longer than the maximum, and both are durations.
pub proof fn extremes_are_durations(r: Stats, t: Seq<u64>)
    requires
        t.len() > 0,
        is_summary(r, t),
    ensures
        t.contains(r.min_ms.nanos),
        t.contains(r.max_ms.nanos),
        t.contains(r.p95_ms.nanos),
        forall|i: int|
            0 <= i < t.len() ==> r.min_ms.nanos <= #[trigger] t[i] <= r.max_ms.nanos,
{
    let u = ascending(t);
    let n = t.len() as int;
    lemma_ascending(t);
    vstd::seq_lib::to_multiset_contains(u, u[0]);
    vstd::seq_lib::to_multiset_contains(t, u[0]);
    vstd::seq_lib::to_multiset_contains(u, u[n - 1]);
    vstd::seq_lib::to_multiset_contains(t, u[n - 1]);
    vstd::seq_lib::to_multiset_contains(u, u[p95_rank(n)]);
    vstd::seq_lib::to_multiset_contains(t, u[p95_rank(n)]);
    assert forall|i: int| 0 <= i < t.len() implies r.min_ms.nanos <= #[trigger] t[i]
        <= r.max_ms.nanos by {
        vstd::seq_lib::to_multiset_contains(t, t[i]);
        vstd::seq_lib::to_multiset_contains(u, t[i]);
        let k = choose|k: int| 0 <= k < u.len() && u[k] == t[i];
        assert(u[0] <= u[k] <= u[n - 1]);
    }
}

/// The mean, times the count, is all durations added up.
pub proof fn mean_times_count_is_the_sum(r: Stats, t: Seq<u64>)
    requires
        t.len() > 0,
        is_summary(r, t),
    ensures
        r.mean_ms.top() * t.len() * 1_000_000 == t.fold_left(0int, |a: int, x: u64| a + x)
            * r.mean_ms.den,
{
    sums_add_up(t);
    let s = sum(t);
    let n = t.len() as int;
    assert(s * n * 1_000_000 == s * (n * 1_000_000)) by (nonlinear_arith);
}

/// The variance is the mean of the squared deviations from the mean, taken over all durations: with
/// `n` of them that add up to `s`, the squares of `n * x - s` add up to `n` cubed times the variance.
/// It is given unless the count times the sum of the squares takes more than 128 bits.
pub proof fn variance_is_over_all_durations(r: Stats, t: Seq<u64>)
    requires
        t.len() > 0,
        is_summary(r, t),
    ensures
        ({
            let n = t.len() as int;
            let s = t.fold_left(0int, |a: int, x: u64| a + x);
            let q = t.fold_left(0int, |a: int, x: u64| a + x * x);
            &&& r.variance_ns2 is Some <==> n * q <= u128::MAX
            &&& r.variance_ns2 matches Some(v) ==> t.fold_left(
                0int,
                |a: int, x: u64| a + (n * x - s) * (n * x - s),
            ) * v.den == n * n * n * v.top()
        }),
{
    let n = t.len() as int;
    sums_add_up(t);
    variance_is_mean_squared_deviation(t);
    let s = sum(t);
    let g = |x: u64| (n * x - s) * (n * x - s);
    total_adds_up(t, g);
    assert(scaled_deviations(t, n, s) == total(t, g));
    lemma_same_fold(t, |a: int, x: u64| a + g(x), |a: int, x: u64| a + (n * x - s) * (n * x - s));
    let v = variance_top(t);
    assert((n * v) * (n * n) == n * n * n * v) by (nonlinear_arith);
}

proof fn lemma_same_fold(
    t: Seq<u64>,
    f: spec_fn(int, u64) -> int,
    g: spec_fn(int, u64) -> int,
)
    requires
        forall|a: int, x: u64| #[trigger] f(a, x) == g(a, x),
    ensures
        t.fold_left(0int, f) == t.fold_left(0int, g),
    decreases t.len(),
{
    if t.len() > 0 {
        lemma_same_fold(t.drop_last(), f, g);
    }
}

/// Statistics of no durations are zero throughout.
pub proof fn blank_is_zero(r: Stats)
    requires
        is_blank(r),
    ensures
        r.count == 0,
        r.min_ms.nanos == 0,
        r.max_ms.nanos == 0,
        r.p95_ms.nanos == 0,
        r.mean_ms.num == 0,
        r.median_ms.num == 0,
        r.variance_ns2 matches Some(v) && v.num == 0,
{
}

} // verus!
