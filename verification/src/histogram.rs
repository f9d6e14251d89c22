//! The latency histogram: microsecond samples kept to three significant
//! digits, with quantiles and the mean read from them in exact integer
//! arithmetic.

use crate::samples::{
    is_quantile, lemma_lists_len, lemma_lists_prefix, lemma_lists_sum, lemma_rank_bounds,
    lemma_total_prefix, lemma_total_step, lemma_weighted_sum_bound, lists, mean_of, rank_of,
    total_count, weighted_sum, Bucket,
};
use hdrhistogram::Histogram;
use vstd::multiset::Multiset;
use vstd::prelude::*;

verus! {

/// The largest latency, in microseconds, that a histogram keeps: a quarter of
/// the range of `u64`. A larger sample is dropped.
pub const MAX_TRACKABLE_US: u64 = 0x3fff_ffff_ffff_ffff;

/// Why a statistic cannot be read.
#[derive(Clone, Copy, Debug, PartialEq, Eq, Structural)]
pub enum StatError {
    /// The histogram holds no sample.
    NoData,
    /// The quantile was given with a denominator of zero.
    ZeroDenominator,
}

/// A histogram of latencies in microseconds.
///
/// Its view is the multiset of the samples it holds. A sample is held at a
/// value that stands for the recorded one within a thousandth. The samples
/// are kept by an `hdrhistogram::Histogram`, into which the proofs do not
/// look: what is known of it is what `new_histogram`, `histogram_len`,
/// `histogram_record` and `histogram_buckets` state.
#[verifier::external_body]
pub struct LatencyHistogram {
    inner: Histogram<u64>,
}

/// The samples that a histogram holds, each at the value under which the
/// histogram reports it.
pub uninterp spec fn recorded_samples(h: LatencyHistogram) -> Multiset<u64>;

impl View for LatencyHistogram {
    type V = Multiset<u64>;

    open spec fn view(&self) -> Multiset<u64> {
        recorded_samples(*self)
    }
}

/// `stored` may stand for a recorded `value`: it is no smaller, and larger by
/// at most a thousandth of `value`.
pub open spec fn stands_for(stored: u64, value: u64) -> bool {
    value <= stored <= value + value / 1000
}

/// The value at which a histogram keeps a sample of `value`: the highest
/// value of the bucket in which the sample is counted.
pub uninterp spec fn stored_value(value: u64) -> u64;

/// `after` is `before` with one more sample, kept for `value` at a value that
/// stands for it.
pub open spec fn recorded_into(before: Multiset<u64>, value: u64, after: Multiset<u64>) -> bool {
    &&& after == before.insert(stored_value(value))
    &&& stands_for(stored_value(value), value)
}

/// `hdrhistogram::Histogram::<u64>::new(3)`: a histogram of three significant
/// digits that resizes itself. It starts without samples. The call cannot
/// fail: it checks only the precision, which is 3 here, and bounds that it
/// sets itself.
#[verifier::external_body]
fn new_histogram() -> (h: LatencyHistogram)
    ensures
        recorded_samples(h) == Multiset::<u64>::empty(),
{
    LatencyHistogram { inner: Histogram::<u64>::new(3).expect("a precision of 3 digits is valid") }
}

/// `Histogram::len`: the number of samples recorded.
#[verifier::external_body]
fn histogram_len(h: &LatencyHistogram) -> (n: u64)
    ensures
        n == recorded_samples(*h).len(),
{
    h.inner.len()
}

/// `Histogram::record` on a histogram that resizes itself: the sample is
/// counted in the bucket of its value, and the histogram reports it under that
/// bucket's highest value (`Histogram::highest_equivalent`), which depends on
/// the value and the precision alone and stands for the value within three
/// significant digits. Within the documented range the call does not fail:
/// the histogram grows, and at this precision its size stays below 2^16.
#[verifier::external_body]
fn histogram_record(h: &mut LatencyHistogram, value: u64)
    requires
        value <= MAX_TRACKABLE_US,
        recorded_samples(*old(h)).len() < u64::MAX,
    ensures
        recorded_samples(*final(h)) == recorded_samples(*old(h)).insert(stored_value(value)),
        recorded_into(recorded_samples(*old(h)), value, recorded_samples(*final(h))),
{
    h.inner.record(value).expect("a resizing histogram takes every value of its range")
}

/// `Histogram::iter_recorded`: one item for each bucket that holds a sample,
/// in ascending order, with the bucket's highest value and its count.
#[verifier::external_body]
fn histogram_buckets(h: &LatencyHistogram) -> (buckets: Vec<Bucket>)
    ensures
        lists(buckets@, recorded_samples(*h)),
{
    h.inner.iter_recorded().map(
        |b| Bucket { value: b.value_iterated_to(), count: b.count_at_value() },
    ).collect()
}

/// The rank of the quantile `numerator / denominator` among `n` samples, or
/// `None` where the denominator is zero.
pub fn quantile_rank(numerator: u64, denominator: u64, n: u64) -> (r: Option<u64>)
    ensures
        denominator == 0 ==> r is None,
        denominator > 0 ==> r == Some(rank_of(numerator as nat, denominator as nat, n as nat) as u64),
        denominator > 0 && n > 0 ==> 1 <= rank_of(numerator as nat, denominator as nat, n as nat) <= n,
        denominator > 0 && n == 0 ==> rank_of(numerator as nat, denominator as nat, n as nat) == 1,
{
    if denominator == 0 {
        return None;
    }
    let capped: u128 = if numerator <= denominator {
        numerator as u128
    } else {
        denominator as u128
    };
    assert(capped * (n as u128) <= 0xffff_ffff_ffff_ffff * 0xffff_ffff_ffff_ffff) by (nonlinear_arith)
        requires
            capped <= 0xffff_ffff_ffff_ffff,
            n <= 0xffff_ffff_ffff_ffff,
    ;
    let product: u128 = capped * (n as u128);
    let share: u128 = (product + (denominator as u128 - 1)) / (denominator as u128);
    proof {
        assert(product == (if numerator <= denominator { numerator as nat } else { denominator as nat }) * (n as nat));
        if n > 0 {
            lemma_rank_bounds(numerator as nat, denominator as nat, n as nat);
        } else {
            assert(product == 0) by (nonlinear_arith)
                requires
                    product == capped * (n as u128),
                    n == 0,
            ;
            vstd::arithmetic::div_mod::lemma_basic_div(denominator as int - 1, denominator as int);
        }
    }
    if share == 0 {
        Some(1)
    } else {
        Some(share as u64)
    }
}

/// The value of the line of a listing at which the running count reaches
/// `rank`, or `None` where the rank is zero or the listing holds fewer samples.
pub fn value_at_rank(buckets: &Vec<Bucket>, rank: u64) -> (r: Option<u64>)
    ensures
        match r {
            Some(v) => exists|k: int|
                0 <= k < buckets@.len() && v == (#[trigger] buckets@[k]).value && total_count(
                    buckets@.take(k),
                ) < rank <= total_count(buckets@.take(k + 1)),
            None => rank == 0 || total_count(buckets@) < rank,
        },
{
    if rank == 0 {
        return None;
    }
    let mut seen: u64 = 0;
    let mut i: usize = 0;
    while i < buckets.len()
        invariant
            0 <= i <= buckets@.len(),
            seen == total_count(buckets@.take(i as int)),
            seen < rank,
        decreases buckets@.len() - i,
    {
        let b = buckets[i];
        proof {
            lemma_total_step(buckets@, i as int);
        }
        if b.count >= rank - seen {
            return Some(b.value);
        }
        seen = seen + b.count;
        i = i + 1;
    }
    proof {
        assert(buckets@.take(i as int) =~= buckets@);
    }
    None
}

/// The sum of a listing that holds at most `u64::MAX` samples.
fn sum_of_listing(buckets: &Vec<Bucket>) -> (sum: u128)
    requires
        total_count(buckets@) <= u64::MAX,
    ensures
        sum == weighted_sum(buckets@),
        sum <= total_count(buckets@) * u64::MAX,
{
    let mut sum: u128 = 0;
    let mut i: usize = 0;
    while i < buckets.len()
        invariant
            0 <= i <= buckets@.len(),
            sum == weighted_sum(buckets@.take(i as int)),
            total_count(buckets@) <= u64::MAX,
        decreases buckets@.len() - i,
    {
        let b = buckets[i];
        proof {
            lemma_total_step(buckets@, i as int);
            lemma_total_prefix(buckets@, i as int + 1);
            lemma_weighted_sum_bound(buckets@.take(i as int + 1));
            assert(total_count(buckets@.take(i as int + 1)) * u64::MAX <= u64::MAX * u64::MAX)
                by (nonlinear_arith)
                requires
                    total_count(buckets@.take(i as int + 1)) <= u64::MAX,
            ;
            assert(b.value * b.count <= u64::MAX * u64::MAX) by (nonlinear_arith)
                requires
                    b.value <= u64::MAX,
                    b.count <= u64::MAX,
            ;
        }
        sum = sum + (b.value as u128) * (b.count as u128);
        i = i + 1;
    }
    proof {
        assert(buckets@.take(i as int) =~= buckets@);
        lemma_weighted_sum_bound(buckets@);
    }
    sum
}

impl LatencyHistogram {
    /// A histogram without samples.
    pub fn new() -> (h: LatencyHistogram)
        ensures
            h@ == Multiset::<u64>::empty(),
    {
        new_histogram()
    }

    /// The number of samples held.
    pub fn len(&self) -> (n: u64)
        ensures
            n == self@.len(),
    {
        histogram_len(self)
    }

    /// Whether the histogram holds no sample.
    pub fn is_empty(&self) -> (b: bool)
        ensures
            b <==> self@.len() == 0,
    {
        histogram_len(self) == 0
    }

    /// Records one latency. A sample above `MAX_TRACKABLE_US`, or one offered
    /// to a histogram that already holds `u64::MAX` samples, is dropped and
    /// `false` is returned; every other sample is kept, at a value that stands
    /// for it.
    pub fn record(&mut self, micros: u64) -> (kept: bool)
        ensures
            kept <==> micros <= MAX_TRACKABLE_US && old(self)@.len() < u64::MAX,
            kept ==> recorded_into(old(self)@, micros, final(self)@),
            !kept ==> final(self)@ == old(self)@,
    {
        if micros > MAX_TRACKABLE_US {
            return false;
        }
        if histogram_len(self) == u64::MAX {
            return false;
        }
        histogram_record(self, micros);
        true
    }

    /// The listing of the samples: one line for each distinct value, ascending.
    pub fn buckets(&self) -> (buckets: Vec<Bucket>)
        ensures
            lists(buckets@, self@),
    {
        histogram_buckets(self)
    }

    /// The value at the quantile `numerator / denominator`: the sample whose
    /// rank is the quantile's share of the samples, rounded up. A quantile
    /// above one counts as one. Fails with `ZeroDenominator` where the
    /// denominator is zero, and otherwise with `NoData` where the histogram
    /// holds no sample.
    pub fn quantile(&self, numerator: u64, denominator: u64) -> (r: Result<u64, StatError>)
        ensures
            match r {
                Ok(v) => is_quantile(self@, numerator as nat, denominator as nat, v),
                Err(StatError::ZeroDenominator) => denominator == 0,
                Err(StatError::NoData) => denominator > 0 && self@.len() == 0,
            },
    {
        let n = histogram_len(self);
        let rank = match quantile_rank(numerator, denominator, n) {
            None => {
                return Err(StatError::ZeroDenominator);
            },
            Some(rank) => rank,
        };
        if n == 0 {
            return Err(StatError::NoData);
        }
        let buckets = histogram_buckets(self);
        proof {
            lemma_lists_len(buckets@, self@);
            assert(1 <= rank <= total_count(buckets@));
        }
        match value_at_rank(&buckets, rank) {
            Some(v) => {
                proof {
                    let k = choose|k: int|
                        0 <= k < buckets@.len() && v == (#[trigger] buckets@[k]).value
                            && total_count(buckets@.take(k)) < rank <= total_count(
                            buckets@.take(k + 1),
                        );
                    lemma_lists_prefix(buckets@, self@, k);
                }
                Ok(v)
            },
            None => {
                // not reached: the listing holds at least `rank` samples
                Err(StatError::NoData)
            },
        }
    }

    /// The mean of the samples, rounded down. Fails with `NoData` where the
    /// histogram holds no sample.
    pub fn mean(&self) -> (r: Result<u64, StatError>)
        ensures
            match r {
                Ok(v) => self@.len() > 0 && v == mean_of(self@),
                Err(e) => e == StatError::NoData && self@.len() == 0,
            },
    {
        let n = histogram_len(self);
        if n == 0 {
            return Err(StatError::NoData);
        }
        let buckets = histogram_buckets(self);
        proof {
            lemma_lists_len(buckets@, self@);
            lemma_lists_sum(buckets@, self@);
        }
        let sum = sum_of_listing(&buckets);
        let mean: u128 = sum / (n as u128);
        proof {
            assert(sum / (n as u128) <= u64::MAX) by (nonlinear_arith)
                requires
                    sum <= n * u64::MAX,
                    n > 0,
            ;
        }
        Ok(mean as u64)
    }
}

} // verus!
