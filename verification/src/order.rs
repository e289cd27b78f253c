//! Sorting and totals of lists of integers.

use vstd::prelude::*;
use vstd::relations::sorted_by;
use vstd::relations::total_ordering;

verus! {

/// The usual order.
pub open spec fn at_most() -> spec_fn(u64, u64) -> bool {
    |a: u64, b: u64| a <= b
}

/// The elements of `s` in ascending order, each as often as in `s`.
pub open spec fn ascending(s: Seq<u64>) -> Seq<u64> {
    s.sort_by(at_most())
}

/// The total of `g` over the elements of `s`.
pub open spec fn total(s: Seq<u64>, g: spec_fn(u64) -> int) -> int
    decreases s.len(),
{
    if s.len() == 0 {
        0
    } else {
        total(s.drop_last(), g) + g(s.last())
    }
}

/// The sum of the elements of `s`.
pub open spec fn sum(s: Seq<u64>) -> int {
    total(s, |x: u64| x as int)
}

/// The sum of the squares of the elements of `s`.
pub open spec fn sum_of_squares(s: Seq<u64>) -> int {
    total(s, |x: u64| x * x)
}

/// `ascending` keeps the elements and orders them.
pub proof fn lemma_ascending(s: Seq<u64>)
    ensures
        ascending(s).len() == s.len(),
        ascending(s).to_multiset() == s.to_multiset(),
        forall|i: int, j: int|
            0 <= i <= j < s.len() ==> #[trigger] ascending(s)[i] <= #[trigger] ascending(s)[j],
{
    let leq = at_most();
    assert(total_ordering(leq));
    s.lemma_sort_by_ensures(leq);
    vstd::seq_lib::to_multiset_len(s);
    vstd::seq_lib::to_multiset_len(ascending(s));
    assert forall|i: int, j: int| 0 <= i <= j < s.len() implies #[trigger] ascending(s)[i]
        <= #[trigger] ascending(s)[j] by {
        if i < j {
            assert(leq(ascending(s)[i], ascending(s)[j]));
        }
    }
}

/// Any ascending list of the elements of `s` is `ascending(s)`.
pub proof fn lemma_ascending_is(s: Seq<u64>, t: Seq<u64>)
    requires
        t.to_multiset() == s.to_multiset(),
        forall|i: int, j: int| 0 <= i < j < t.len() ==> #[trigger] t[i] <= #[trigger] t[j],
    ensures
        ascending(s) == t,
{
    let leq = at_most();
    assert(total_ordering(leq));
    s.lemma_sort_by_ensures(leq);
    assert(sorted_by(t, leq));
    vstd::seq_lib::lemma_sorted_unique(ascending(s), t, leq);
}

/// Taking one element out of a list takes its share out of the total.
proof fn lemma_total_remove(s: Seq<u64>, g: spec_fn(u64) -> int, i: int)
    requires
        0 <= i < s.len(),
    ensures
        total(s, g) == total(s.remove(i), g) + g(s[i]),
    decreases s.len(),
{
    if i == s.len() - 1 {
        assert(s.remove(i) =~= s.drop_last());
    } else {
        lemma_total_remove(s.drop_last(), g, i);
        assert(s.remove(i).drop_last() =~= s.drop_last().remove(i));
        assert(s.remove(i).last() == s.last());
    }
}

/// A total does not depend on the order of the list.
pub proof fn lemma_total_permuted(s: Seq<u64>, t: Seq<u64>, g: spec_fn(u64) -> int)
    requires
        s.to_multiset() == t.to_multiset(),
    ensures
        total(s, g) == total(t, g),
    decreases s.len(),
{
    vstd::seq_lib::to_multiset_len(s);
    vstd::seq_lib::to_multiset_len(t);
    if s.len() > 0 {
        let x = s.last();
        vstd::seq_lib::to_multiset_contains(s, x);
        vstd::seq_lib::to_multiset_contains(t, x);
        let i = choose|i: int| 0 <= i < t.len() && t[i] == x;
        vstd::seq_lib::to_multiset_remove(t, i);
        vstd::seq_lib::to_multiset_remove(s, s.len() - 1);
        assert(s.remove(s.len() - 1) =~= s.drop_last());
        lemma_total_permuted(s.drop_last(), t.remove(i), g);
        lemma_total_remove(t, g, i);
    }
}

/// Sorts a list in ascending order.
pub fn sort(list: &Vec<u64>) -> (r: Vec<u64>)
    ensures
        r@ == ascending(list@),
{
    let mut out: Vec<u64> = Vec::new();
    let mut i: usize = 0;
    assert(out@ =~= list@.take(0));
    while i < list.len()
        invariant
            i <= list@.len(),
            out@.len() == i,
            out@.to_multiset() == list@.take(i as int).to_multiset(),
            forall|a: int, b: int| 0 <= a < b < out@.len() ==> #[trigger] out@[a] <= #[trigger] out@[b],
        decreases list@.len() - i,
    {
        let x = list[i];
        let mut k: usize = out.len();
        while k > 0 && out[k - 1] > x
            invariant
                k <= out@.len(),
                forall|j: int| k <= j < out@.len() ==> out@[j] > x,
            decreases k,
        {
            k -= 1;
        }
        proof {
            vstd::seq_lib::to_multiset_insert(out@, k as int, x);
            assert(list@.take(i + 1) =~= list@.take(i as int).push(x));
            vstd::seq_lib::to_multiset_build(list@.take(i as int), x);
        }
        out.insert(k, x);
        i += 1;
    }
    proof {
        assert(list@.take(i as int) =~= list@);
        lemma_ascending_is(list@, out@);
    }
    out
}

/// A total is the sum of the shares of the elements, one after the other.
pub proof fn total_adds_up(s: Seq<u64>, g: spec_fn(u64) -> int)
    ensures
        total(s, g) == s.fold_left(0int, |a: int, x: u64| a + g(x)),
    decreases s.len(),
{
    if s.len() > 0 {
        total_adds_up(s.drop_last(), g);
    }
}

/// The sum and the sum of the squares of a list are just that.
pub proof fn sums_add_up(s: Seq<u64>)
    ensures
        sum(s) == s.fold_left(0int, |a: int, x: u64| a + x),
        sum_of_squares(s) == s.fold_left(0int, |a: int, x: u64| a + x * x),
    decreases s.len(),
{
    if s.len() > 0 {
        sums_add_up(s.drop_last());
    }
}

/// However a list is put in order, how many of its elements satisfy `p` is the same.
pub proof fn lemma_count_permuted(s: Seq<u64>, t: Seq<u64>, p: spec_fn(u64) -> bool)
    requires
        s.to_multiset() == t.to_multiset(),
    ensures
        s.filter(p).len() == t.filter(p).len(),
{
    let g = |x: u64|
        if p(x) {
            1int
        } else {
            0
        };
    lemma_count_is_total(s, p, g);
    lemma_count_is_total(t, p, g);
    lemma_total_permuted(s, t, g);
}

proof fn lemma_count_is_total(s: Seq<u64>, p: spec_fn(u64) -> bool, g: spec_fn(u64) -> int)
    requires
        forall|x: u64|
            #[trigger] g(x) == (if p(x) {
                1int
            } else {
                0
            }),
    ensures
        s.filter(p).len() == total(s, g),
    decreases s.len(),
{
    reveal(Seq::filter);
    if s.len() > 0 {
        lemma_count_is_total(s.drop_last(), p, g);
    }
}

/// If `p` holds of the elements from `i` up to `j`, it holds of at least that many.
pub proof fn lemma_count_at_least(s: Seq<u64>, p: spec_fn(u64) -> bool, i: int, j: int)
    requires
        0 <= i <= j <= s.len(),
        forall|k: int| i <= k < j ==> p(#[trigger] s[k]),
    ensures
        s.filter(p).len() >= j - i,
    decreases s.len(),
{
    reveal(Seq::filter);
    if s.len() > 0 {
        let rest = s.drop_last();
        let n = rest.len() as int;
        let jj = if j <= n {
            j
        } else {
            n
        };
        let ii = if i <= jj {
            i
        } else {
            jj
        };
        assert forall|k: int| ii <= k < jj implies p(#[trigger] rest[k]) by {
            assert(p(s[k]));
        }
        lemma_count_at_least(rest, p, ii, jj);
        if j > n && i <= n {
            assert(p(s[n]));
        }
    }
}

} // verus!
