use qps_bench::driver::{Action, Driver, Outcome};
use qps_bench::histogram::LatencyHistogram;
use qps_bench::mode::Operation;
use qps_bench::report::{assemble, latency_stats, qps_milli, BackendInfo, LatencyStats};

#[test]
fn throughput_in_thousandths() {
    assert_eq!(qps_milli(800, 2), Some(400_000));
    assert_eq!(qps_milli(1, 3), Some(333));
    assert_eq!(qps_milli(2, 3), Some(666));
    assert_eq!(qps_milli(0, 60), Some(0));
    assert_eq!(qps_milli(123_456, 60), Some(2_057_600));
    assert_eq!(qps_milli(u64::MAX, 1000), Some(u64::MAX));
}

#[test]
fn throughput_of_no_duration_is_undefined() {
    assert_eq!(qps_milli(0, 0), None);
    assert_eq!(qps_milli(5, 0), None);
}

#[test]
fn throughput_that_does_not_fit_is_undefined() {
    assert_eq!(qps_milli(u64::MAX, 1), None);
    assert_eq!(qps_milli(u64::MAX, 999), None);
    assert_eq!(qps_milli(u64::MAX / 1000 + 1, 1), None);
    assert_eq!(qps_milli(u64::MAX / 1000, 1), Some(u64::MAX / 1000 * 1000));
}

#[test]
fn statistics_of_a_histogram() {
    let mut h = LatencyHistogram::new();
    for v in 1..=100u64 {
        assert!(h.record(v));
    }
    assert_eq!(latency_stats(&h), Some(LatencyStats { p50: 50, p95: 95, p99: 99, mean: 50 }));
}

#[test]
fn statistics_of_five_samples_are_in_order() {
    let mut h = LatencyHistogram::new();
    for v in [100u64, 100, 100, 200, 200] {
        assert!(h.record(v));
    }
    let stats = latency_stats(&h).unwrap();
    assert_eq!(stats, LatencyStats { p50: 100, p95: 200, p99: 200, mean: 140 });
    assert!(stats.p50 <= stats.p95 && stats.p95 <= stats.p99);
}

#[test]
fn statistics_of_an_empty_histogram_are_absent() {
    assert_eq!(latency_stats(&LatencyHistogram::new()), None);
}

#[test]
fn result_echoes_the_configuration() {
    let keys = vec!["a".to_string()];
    let mut driver = Driver::new(Operation::Delete, 3, 7, keys, "p/".to_string()).unwrap();
    let backend = |bucket: &str| BackendInfo {
        service: "s3".to_string(),
        endpoint: "http://minio:9000".to_string(),
        region: "eu-west-1".to_string(),
        bucket: bucket.to_string(),
    };
    assert!(assemble(&driver, backend("early")).is_none());
    assert!(matches!(driver.poll(0), Action::Launch(_)));
    assert!(matches!(driver.poll(1), Action::Launch(_)));
    assert!(assemble(&driver, backend("running")).is_none());
    assert!(driver.complete(Outcome::Success { latency_us: 300 }));
    assert!(driver.complete(Outcome::Failure));
    assert!(matches!(driver.poll(7_000_000), Action::Finished));
    let result = assemble(&driver, backend("done")).expect("the run is done");
    assert_eq!(result.mode, "delete");
    assert_eq!(result.concurrency, 3);
    assert_eq!(result.duration_seconds, 7);
    assert_eq!(result.ok_ops, 1);
    assert_eq!(result.err_ops, 1);
    assert_eq!(result.qps_milli, Some(142));
    assert_eq!(result.latency, Some(LatencyStats { p50: 300, p95: 300, p99: 300, mean: 300 }));
    assert_eq!(result.backend.service, "s3");
    assert_eq!(result.backend.endpoint, "http://minio:9000");
    assert_eq!(result.backend.region, "eu-west-1");
    assert_eq!(result.backend.bucket, "done");
}

#[test]
fn results_of_the_combined_mode_are_named_after_read_and_write() {
    let run = |operation| {
        let mut driver =
            Driver::new(operation, 1, 0, vec!["k".to_string()], "p/".to_string()).unwrap();
        assert!(matches!(driver.poll(0), Action::Finished));
        let backend = BackendInfo {
            service: String::new(),
            endpoint: String::new(),
            region: String::new(),
            bucket: String::new(),
        };
        assemble(&driver, backend).unwrap().mode
    };
    assert_eq!(run(Operation::Read), "read_small");
    assert_eq!(run(Operation::Write), "write_small");
    assert_eq!(run(Operation::Stat), "stat");
    assert_eq!(run(Operation::List), "list");
}
