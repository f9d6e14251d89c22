//! The result of a run: the echo of its configuration, its counts, its
//! throughput and the statistics of its latencies.

use crate::driver::{consistent, Driver, Phase, RunState};
use crate::histogram::LatencyHistogram;
use crate::mode::{operation_label, operation_name};
use crate::samples::{is_quantile, lemma_quantiles_ordered, mean_of};
use vstd::multiset::Multiset;
use vstd::prelude::*;

verus! {

/// Which backend a run went against.
#[derive(Debug)]
pub struct BackendInfo {
    pub service: String,
    pub endpoint: String,
    pub region: String,
    pub bucket: String,
}

/// The statistics of the latencies of a run, in microseconds.
#[derive(Clone, Copy, Debug, PartialEq, Eq, Structural)]
pub struct LatencyStats {
    /// The median.
    pub p50: u64,
    /// The 95th percentile.
    pub p95: u64,
    /// The 99th percentile.
    pub p99: u64,
    /// The mean, rounded down.
    pub mean: u64,
}

/// The result of one run.
#[derive(Debug)]
pub struct BenchmarkResult {
    /// The name of the mode that issues the run's operation.
    pub mode: String,
    pub concurrency: usize,
    pub duration_seconds: u64,
    /// The number of attempts that succeeded.
    pub ok_ops: u64,
    /// The number of attempts that failed.
    pub err_ops: u64,
    /// Successes per second, in thousandths, rounded down; `None` for a run
    /// of no duration.
    pub qps_milli: Option<u64>,
    /// The statistics of the latencies; `None` where no latency was recorded.
    pub latency: Option<LatencyStats>,
    pub backend: BackendInfo,
}

/// Successes per second in thousandths, rounded down: undefined for a
/// duration of zero, and where the number does not fit.
pub open spec fn qps_milli_of(ok_ops: nat, duration_seconds: nat) -> Option<u64> {
    if duration_seconds == 0 || (ok_ops * 1000) / duration_seconds > u64::MAX {
        None
    } else {
        Some(((ok_ops * 1000) / duration_seconds) as u64)
    }
}

/// `stats` are the statistics of the samples `m`.
pub open spec fn summarizes(stats: LatencyStats, m: Multiset<u64>) -> bool {
    &&& is_quantile(m, 50, 100, stats.p50)
    &&& is_quantile(m, 95, 100, stats.p95)
    &&& is_quantile(m, 99, 100, stats.p99)
    &&& stats.mean == mean_of(m)
}

/// `result` reports the run in the state `s`, against `backend`.
pub open spec fn reports(result: BenchmarkResult, s: RunState, backend: BackendInfo) -> bool {
    &&& result.mode@ == operation_label(s.operation)
    &&& result.concurrency == s.concurrency
    &&& result.duration_seconds == s.duration_seconds
    &&& result.ok_ops == s.succeeded
    &&& result.err_ops == s.failed
    &&& result.qps_milli == qps_milli_of(s.succeeded, s.duration_seconds)
    &&& match result.latency {
        Some(stats) => s.samples.len() > 0 && summarizes(stats, s.samples),
        None => s.samples.len() == 0,
    }
    &&& result.backend == backend
}

/// Successes per second in thousandths, rounded down.
pub fn qps_milli(ok_ops: u64, duration_seconds: u64) -> (qps: Option<u64>)
    ensures
        qps == qps_milli_of(ok_ops as nat, duration_seconds as nat),
{
    if duration_seconds == 0 {
        return None;
    }
    let scaled: u128 = (ok_ops as u128) * 1000;
    let quotient: u128 = scaled / (duration_seconds as u128);
    if quotient > u64::MAX as u128 {
        None
    } else {
        Some(quotient as u64)
    }
}

/// The statistics of a histogram, or `None` where it holds no sample.
pub fn latency_stats(histogram: &LatencyHistogram) -> (stats: Option<LatencyStats>)
    ensures
        match stats {
            Some(s) => histogram@.len() > 0 && summarizes(s, histogram@),
            None => histogram@.len() == 0,
        },
{
    let p50 = match histogram.quantile(50, 100) {
        Ok(v) => v,
        Err(_) => {
            return None;
        },
    };
    let p95 = match histogram.quantile(95, 100) {
        Ok(v) => v,
        Err(_) => {
            return None;
        },
    };
    let p99 = match histogram.quantile(99, 100) {
        Ok(v) => v,
        Err(_) => {
            return None;
        },
    };
    let mean = match histogram.mean() {
        Ok(v) => v,
        Err(_) => {
            return None;
        },
    };
    Some(LatencyStats { p50, p95, p99, mean })
}

/// The result of a run that is done, or `None` while the run is not done.
pub fn assemble(driver: &Driver, backend: BackendInfo) -> (result: Option<BenchmarkResult>)
    requires
        driver.wf(),
    ensures
        match result {
            Some(r) => driver@.phase == Phase::Done && reports(r, driver@, backend),
            None => driver@.phase != Phase::Done,
        },
{
    if driver.phase() != Phase::Done {
        return None;
    }
    let ok_ops = driver.succeeded();
    let duration_seconds = driver.duration_seconds();
    Some(
        BenchmarkResult {
            mode: operation_name(driver.operation()).to_owned(),
            concurrency: driver.concurrency(),
            duration_seconds,
            ok_ops,
            err_ops: driver.failed(),
            qps_milli: qps_milli(ok_ops, duration_seconds),
            latency: latency_stats(driver.histogram()),
            backend,
        },
    )
}

/// Law: the percentiles of a result are in order.
pub proof fn lemma_stats_ordered(stats: LatencyStats, m: Multiset<u64>)
    requires
        summarizes(stats, m),
    ensures
        stats.p50 <= stats.p95 <= stats.p99,
{
    lemma_quantiles_ordered(m, 50, 100, 95, 100, stats.p50, stats.p95);
    lemma_quantiles_ordered(m, 95, 100, 99, 100, stats.p95, stats.p99);
}

/// Law: a result of a run that is done accounts for every attempt: its
/// successes and failures add up to the attempts launched. With no successes
/// it has no statistics.
pub proof fn lemma_result_accounts(result: BenchmarkResult, s: RunState, backend: BackendInfo)
    requires
        consistent(s),
        s.phase == Phase::Done,
        reports(result, s, backend),
    ensures
        result.ok_ops + result.err_ops == s.launched,
        result.ok_ops == 0 ==> result.latency is None,
{
}

} // verus!
