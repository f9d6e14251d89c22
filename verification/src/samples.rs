//! The mathematics of a set of latency samples: ranks, quantiles and sums
//! over a multiset of values, and their relation to a listing of buckets.

use vstd::multiset::Multiset;
use vstd::prelude::*;

verus! {

broadcast use vstd::multiset::group_multiset_axioms;

/// One line of a listing: a value and how many samples stand at it.
#[derive(Clone, Copy, Debug)]
pub struct Bucket {
    pub value: u64,
    pub count: u64,
}

/// The values of a listing rise strictly from one line to the next.
pub open spec fn ascending(b: Seq<Bucket>) -> bool {
    forall|i: int, j: int| 0 <= i < j < b.len() ==> (#[trigger] b[i]).value < (#[trigger] b[j]).value
}

/// `b` lists `m`: every distinct value of `m` has exactly one line, which holds
/// its multiplicity, and the lines stand in ascending order of value.
pub open spec fn lists(b: Seq<Bucket>, m: Multiset<u64>) -> bool {
    &&& ascending(b)
    &&& forall|i: int|
        0 <= i < b.len() ==> (#[trigger] b[i]).count > 0 && b[i].count == m.count(b[i].value)
    &&& forall|v: u64| #[trigger]
        m.count(v) > 0 ==> exists|i: int| 0 <= i < b.len() && (#[trigger] b[i]).value == v
}

/// Number of samples in a listing.
pub open spec fn total_count(b: Seq<Bucket>) -> nat
    decreases b.len(),
{
    if b.len() == 0 {
        0
    } else {
        total_count(b.drop_last()) + b.last().count as nat
    }
}

/// Sum of the samples in a listing.
pub open spec fn weighted_sum(b: Seq<Bucket>) -> nat
    decreases b.len(),
{
    if b.len() == 0 {
        0
    } else {
        weighted_sum(b.drop_last()) + b.last().value as nat * b.last().count as nat
    }
}

/// The samples of `m` that are at most `x`.
pub open spec fn at_most(m: Multiset<u64>, x: u64) -> Multiset<u64> {
    m.filter(|v: u64| v <= x)
}

/// The samples of `m` that are below `x`.
pub open spec fn below(m: Multiset<u64>, x: u64) -> Multiset<u64> {
    m.filter(|v: u64| v < x)
}

/// Sum of all samples of `m`.
pub open spec fn sum_of(m: Multiset<u64>) -> nat
    decreases m.len(),
{
    if m.len() == 0 {
        0
    } else {
        let x = m.choose();
        x as nat + sum_of(m.remove(x))
    }
}

/// The rank (counted from 1) of the sample that stands at the quantile
/// `numerator / denominator` among `n` samples: the quantile's share of `n`,
/// rounded up, and at least 1. A quantile above one counts as one.
pub open spec fn rank_of(numerator: nat, denominator: nat, n: nat) -> nat {
    let capped = if numerator <= denominator {
        numerator
    } else {
        denominator
    };
    let share = (capped * n + denominator - 1) / (denominator as int);
    if share <= 0 {
        1
    } else {
        share as nat
    }
}

/// `v` is the sample of rank `rank` in `m`, taken in ascending order: `v`
/// occurs in `m`, fewer than `rank` samples are below it, and at least `rank`
/// samples are at most `v`.
pub open spec fn is_ranked(m: Multiset<u64>, rank: nat, v: u64) -> bool {
    &&& m.count(v) > 0
    &&& below(m, v).len() < rank
    &&& rank <= at_most(m, v).len()
}

/// `v` is the value of `m` at the quantile `numerator / denominator`.
pub open spec fn is_quantile(m: Multiset<u64>, numerator: nat, denominator: nat, v: u64) -> bool {
    &&& denominator > 0
    &&& m.len() > 0
    &&& is_ranked(m, rank_of(numerator, denominator, m.len()), v)
}

/// The mean of `m`, rounded down.
pub open spec fn mean_of(m: Multiset<u64>) -> nat {
    sum_of(m) / m.len()
}

/// A multiset that is contained in another is no longer than it.
pub proof fn lemma_subset_len(a: Multiset<u64>, b: Multiset<u64>)
    requires
        a.subset_of(b),
    ensures
        a.len() <= b.len(),
{
    assert(b.sub(a).len() == b.len() - a.len());
}

/// A multiset whose only value is `v`, with multiplicity `n`, has `n` elements.
proof fn lemma_single_valued_len(r: Multiset<u64>, v: u64, n: nat)
    requires
        forall|x: u64| r.count(x) == if x == v { n } else { 0 },
    ensures
        r.len() == n,
    decreases n,
{
    if n == 0 {
        assert(r =~= Multiset::empty());
    } else {
        let rest = r.remove(v);
        assert(Multiset::singleton(v).subset_of(r));
        assert(rest.len() == r.len() - 1);
        assert forall|x: u64| rest.count(x) == if x == v { (n - 1) as nat } else { 0 } by {
            assert(r.count(x) == if x == v { n } else { 0 });
        }
        lemma_single_valued_len(rest, v, (n - 1) as nat);
    }
}

/// What lies below the last line of a listing is listed by the lines before it.
proof fn lemma_lists_front(b: Seq<Bucket>, m: Multiset<u64>)
    requires
        lists(b, m),
        b.len() > 0,
    ensures
        lists(b.drop_last(), below(m, b.last().value)),
        forall|x: u64|
            m.sub(below(m, b.last().value)).count(x) == if x == b.last().value {
                b.last().count as nat
            } else {
                0
            },
        below(m, b.last().value).subset_of(m),
        m =~= below(m, b.last().value).add(m.sub(below(m, b.last().value))),
{
    let front = b.drop_last();
    let top = b.last().value;
    let low = below(m, top);
    let last = b.len() - 1;
    assert(b[last] == b.last());
    assert forall|i: int| 0 <= i < front.len() implies (#[trigger] front[i]).count > 0
        && front[i].count == low.count(front[i].value) by {
        assert(front[i] == b[i]);
        assert(b[i].value < b[last].value);
    }
    assert forall|v: u64| #[trigger] low.count(v) > 0 implies exists|i: int|
        0 <= i < front.len() && (#[trigger] front[i]).value == v by {
        assert(m.count(v) > 0);
        let i = choose|i: int| 0 <= i < b.len() && (#[trigger] b[i]).value == v;
        assert(i != last);
        assert(front[i] == b[i]);
    }
    assert forall|i: int, j: int| 0 <= i < j < front.len() implies (#[trigger] front[i]).value < (
    #[trigger] front[j]).value by {
        assert(front[i] == b[i] && front[j] == b[j]);
    }
    assert forall|x: u64|
        m.sub(low).count(x) == if x == top {
            b.last().count as nat
        } else {
            0
        } by {
        if x > top {
            if m.count(x) > 0 {
                let i = choose|i: int| 0 <= i < b.len() && (#[trigger] b[i]).value == x;
                if i < last {
                    assert(b[i].value < b[last].value);
                }
            }
        }
    }
}

/// A listing holds as many samples as the multiset it lists.
pub proof fn lemma_lists_len(b: Seq<Bucket>, m: Multiset<u64>)
    requires
        lists(b, m),
    ensures
        m.len() == total_count(b),
    decreases b.len(),
{
    if b.len() == 0 {
        assert forall|v: u64| m.count(v) == 0 by {
            if m.count(v) > 0 {
                let i = choose|i: int| 0 <= i < b.len() && (#[trigger] b[i]).value == v;
            }
        }
        assert(m =~= Multiset::empty());
    } else {
        let low = below(m, b.last().value);
        lemma_lists_front(b, m);
        lemma_lists_len(b.drop_last(), low);
        lemma_single_valued_len(m.sub(low), b.last().value, b.last().count as nat);
    }
}

/// The first `k` lines of a listing list what lies below line `k`, and the
/// first `k + 1` lines list what lies at or below it.
pub proof fn lemma_lists_prefix(b: Seq<Bucket>, m: Multiset<u64>, k: int)
    requires
        lists(b, m),
        0 <= k < b.len(),
    ensures
        below(m, b[k].value).len() == total_count(b.take(k)),
        at_most(m, b[k].value).len() == total_count(b.take(k + 1)),
{
    let x = b[k].value;
    let lo = below(m, x);
    let front = b.take(k);
    assert forall|i: int| 0 <= i < front.len() implies (#[trigger] front[i]).count > 0
        && front[i].count == lo.count(front[i].value) by {
        assert(front[i] == b[i]);
        assert(b[i].value < b[k].value);
    }
    assert forall|v: u64| #[trigger] lo.count(v) > 0 implies exists|i: int|
        0 <= i < front.len() && (#[trigger] front[i]).value == v by {
        assert(m.count(v) > 0);
        let i = choose|i: int| 0 <= i < b.len() && (#[trigger] b[i]).value == v;
        if i > k {
            assert(b[k].value < b[i].value);
        }
        assert(front[i] == b[i]);
    }
    assert forall|i: int, j: int| 0 <= i < j < front.len() implies (#[trigger] front[i]).value < (
    #[trigger] front[j]).value by {
        assert(front[i] == b[i] && front[j] == b[j]);
    }
    lemma_lists_len(front, lo);

    let hi = at_most(m, x);
    let upto = b.take(k + 1);
    assert forall|i: int| 0 <= i < upto.len() implies (#[trigger] upto[i]).count > 0
        && upto[i].count == hi.count(upto[i].value) by {
        assert(upto[i] == b[i]);
        if i < k {
            assert(b[i].value < b[k].value);
        }
    }
    assert forall|v: u64| #[trigger] hi.count(v) > 0 implies exists|i: int|
        0 <= i < upto.len() && (#[trigger] upto[i]).value == v by {
        assert(m.count(v) > 0);
        let i = choose|i: int| 0 <= i < b.len() && (#[trigger] b[i]).value == v;
        if i > k {
            assert(b[k].value < b[i].value);
        }
        assert(upto[i] == b[i]);
    }
    assert forall|i: int, j: int| 0 <= i < j < upto.len() implies (#[trigger] upto[i]).value < (
    #[trigger] upto[j]).value by {
        assert(upto[i] == b[i] && upto[j] == b[j]);
    }
    lemma_lists_len(upto, hi);
}

/// Taking one more line of a listing adds that line's count.
pub proof fn lemma_total_step(b: Seq<Bucket>, k: int)
    requires
        0 <= k < b.len(),
    ensures
        total_count(b.take(k + 1)) == total_count(b.take(k)) + b[k].count,
        weighted_sum(b.take(k + 1)) == weighted_sum(b.take(k)) + b[k].value * b[k].count,
{
    assert(b.take(k + 1).drop_last() =~= b.take(k));
    assert(b.take(k + 1).last() == b[k]);
}

/// No part of a listing holds more samples than the whole.
pub proof fn lemma_total_prefix(b: Seq<Bucket>, k: int)
    requires
        0 <= k <= b.len(),
    ensures
        total_count(b.take(k)) <= total_count(b),
    decreases b.len() - k,
{
    if k == b.len() {
        assert(b.take(k) =~= b);
    } else {
        lemma_total_step(b, k);
        lemma_total_prefix(b, k + 1);
    }
}

/// Adding one sample adds its value to the sum.
pub proof fn lemma_sum_insert(m: Multiset<u64>, x: u64)
    ensures
        sum_of(m.insert(x)) == sum_of(m) + x,
    decreases m.len(),
{
    let grown = m.insert(x);
    let y = grown.choose();
    assert(grown.len() == m.len() + 1);
    assert(grown.count(y) > 0);
    if y == x {
        assert(grown.remove(y) =~= m);
    } else {
        assert(m.count(y) > 0);
        let rest = m.remove(y);
        assert(Multiset::singleton(y).subset_of(m));
        assert(rest.len() == m.len() - 1);
        assert(grown.remove(y) =~= rest.insert(x));
        lemma_sum_insert(rest, x);
        assert(rest.insert(y) =~= m);
        lemma_sum_insert(rest, y);
    }
}

/// Adding `n` samples of value `v` adds `n * v` to the sum.
proof fn lemma_sum_add_single_valued(a: Multiset<u64>, r: Multiset<u64>, v: u64, n: nat)
    requires
        forall|x: u64| r.count(x) == if x == v { n } else { 0 },
    ensures
        sum_of(a.add(r)) == sum_of(a) + v * n,
    decreases n,
{
    if n == 0 {
        assert(r =~= Multiset::empty());
        assert(a.add(r) =~= a);
    } else {
        let rest = r.remove(v);
        assert forall|x: u64| rest.count(x) == if x == v { (n - 1) as nat } else { 0 } by {
            assert(r.count(x) == if x == v { n } else { 0 });
        }
        lemma_sum_add_single_valued(a, rest, v, (n - 1) as nat);
        assert(a.add(r) =~= a.add(rest).insert(v));
        lemma_sum_insert(a.add(rest), v);
        assert(v * n == v * (n - 1) + v) by (nonlinear_arith);
    }
}

/// A listing sums to the sum of the multiset it lists.
pub proof fn lemma_lists_sum(b: Seq<Bucket>, m: Multiset<u64>)
    requires
        lists(b, m),
    ensures
        sum_of(m) == weighted_sum(b),
    decreases b.len(),
{
    if b.len() == 0 {
        lemma_lists_len(b, m);
    } else {
        let low = below(m, b.last().value);
        lemma_lists_front(b, m);
        lemma_lists_sum(b.drop_last(), low);
        lemma_sum_add_single_valued(low, m.sub(low), b.last().value, b.last().count as nat);
    }
}

/// The sum of a listing is at most its number of samples times the largest `u64`.
pub proof fn lemma_weighted_sum_bound(b: Seq<Bucket>)
    ensures
        weighted_sum(b) <= total_count(b) * u64::MAX,
    decreases b.len(),
{
    if b.len() > 0 {
        lemma_weighted_sum_bound(b.drop_last());
        let v = b.last().value as nat;
        let c = b.last().count as nat;
        let t = total_count(b.drop_last());
        assert(v * c <= c * u64::MAX) by (nonlinear_arith)
            requires
                v <= u64::MAX,
        ;
        assert((t + c) * u64::MAX == t * u64::MAX + c * u64::MAX) by (nonlinear_arith);
    }
}

/// Law: a multiset has at most one sample of a given rank.
pub proof fn lemma_ranked_unique(m: Multiset<u64>, rank: nat, a: u64, b: u64)
    requires
        is_ranked(m, rank, a),
        is_ranked(m, rank, b),
    ensures
        a == b,
{
    lemma_ranked_ordered(m, rank, rank, a, b);
    lemma_ranked_ordered(m, rank, rank, b, a);
}

/// Law: the sample of a lower rank is no larger than the sample of a higher rank.
pub proof fn lemma_ranked_ordered(m: Multiset<u64>, low: nat, high: nat, a: u64, b: u64)
    requires
        is_ranked(m, low, a),
        is_ranked(m, high, b),
        low <= high,
    ensures
        a <= b,
{
    if b < a {
        assert(at_most(m, b).subset_of(below(m, a)));
        lemma_subset_len(at_most(m, b), below(m, a));
    }
}

/// The rank of a quantile lies between 1 and the number of samples.
pub proof fn lemma_rank_bounds(numerator: nat, denominator: nat, n: nat)
    requires
        denominator > 0,
        n > 0,
    ensures
        1 <= rank_of(numerator, denominator, n) <= n,
{
    let capped = if numerator <= denominator { numerator } else { denominator };
    let d = denominator as int;
    let share = (capped * n + d - 1) / d;
    assert(capped * n <= d * n) by (nonlinear_arith)
        requires
            capped <= d,
            n >= 0,
    ;
    assert(share <= n) by {
        vstd::arithmetic::div_mod::lemma_fundamental_div_mod(capped * n + d - 1, d);
        vstd::arithmetic::div_mod::lemma_mod_bound(capped * n + d - 1, d);
        assert(d * share <= d * n + d - 1);
        assert(share <= n) by (nonlinear_arith)
            requires
                d * share <= d * n + d - 1,
                d > 0,
        ;
    }
}

/// A larger quantile has no smaller rank.
pub proof fn lemma_rank_monotonic(n1: nat, d1: nat, n2: nat, d2: nat, n: nat)
    requires
        d1 > 0,
        d2 > 0,
        n1 * d2 <= n2 * d1,
    ensures
        rank_of(n1, d1, n) <= rank_of(n2, d2, n),
{
    let c1 = if n1 <= d1 { n1 } else { d1 };
    let c2 = if n2 <= d2 { n2 } else { d2 };
    let a1 = c1 * n + d1 - 1;
    let a2 = c2 * n + d2 - 1;
    let s1 = a1 / (d1 as int);
    let s2 = a2 / (d2 as int);
    // the capped quantiles are ordered as the given ones are
    assert(c1 * d2 <= c2 * d1) by (nonlinear_arith)
        requires
            n1 * d2 <= n2 * d1,
            c1 == if n1 <= d1 { n1 } else { d1 },
            c2 == if n2 <= d2 { n2 } else { d2 },
            d1 > 0,
            d2 > 0,
    ;
    vstd::arithmetic::div_mod::lemma_fundamental_div_mod(a1, d1 as int);
    vstd::arithmetic::div_mod::lemma_mod_bound(a1, d1 as int);
    vstd::arithmetic::div_mod::lemma_fundamental_div_mod(a2, d2 as int);
    vstd::arithmetic::div_mod::lemma_mod_bound(a2, d2 as int);
    // s1 is the least s with s * d1 >= c1 * n, and s2 * d2 >= c2 * n
    assert(s1 <= s2) by (nonlinear_arith)
        requires
            a1 == d1 * s1 + a1 % (d1 as int),
            0 <= a1 % (d1 as int) < d1,
            a2 == d2 * s2 + a2 % (d2 as int),
            0 <= a2 % (d2 as int) < d2,
            a1 == c1 * n + d1 - 1,
            a2 == c2 * n + d2 - 1,
            c1 * d2 <= c2 * d1,
            d1 > 0,
            d2 > 0,
            n >= 0,
            c1 >= 0,
            c2 >= 0,
    ;
}

/// Law: quantiles are monotonic. Of two quantiles of one multiset, the value
/// at the larger quantile is no smaller than the value at the smaller one.
pub proof fn lemma_quantiles_ordered(
    m: Multiset<u64>,
    n1: nat,
    d1: nat,
    n2: nat,
    d2: nat,
    a: u64,
    b: u64,
)
    requires
        is_quantile(m, n1, d1, a),
        is_quantile(m, n2, d2, b),
        n1 * d2 <= n2 * d1,
    ensures
        a <= b,
{
    lemma_rank_monotonic(n1, d1, n2, d2, m.len());
    lemma_ranked_ordered(m, rank_of(n1, d1, m.len()), rank_of(n2, d2, m.len()), a, b);
}

/// Law: a multiset has at most one value at a given quantile.
pub proof fn lemma_quantile_unique(m: Multiset<u64>, numerator: nat, denominator: nat, a: u64, b: u64)
    requires
        is_quantile(m, numerator, denominator, a),
        is_quantile(m, numerator, denominator, b),
    ensures
        a == b,
{
    lemma_ranked_unique(m, rank_of(numerator, denominator, m.len()), a, b);
}

} // verus!
