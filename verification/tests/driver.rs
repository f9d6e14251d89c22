use qps_bench::driver::{Action, Attempt, Driver, Outcome, Phase};
use qps_bench::histogram::{StatError, MAX_TRACKABLE_US};
use qps_bench::mode::{ConfigError, Operation};
use qps_bench::report::{assemble, BackendInfo};
use std::collections::HashSet;

fn keys(n: usize) -> Vec<String> {
    (0..n).map(|i| format!("key-{i}")).collect()
}

fn backend() -> BackendInfo {
    BackendInfo {
        service: "s3".to_string(),
        endpoint: "http://localhost:9000".to_string(),
        region: "us-east-1".to_string(),
        bucket: "bench".to_string(),
    }
}

fn launch(action: Action) -> Attempt {
    match action {
        Action::Launch(attempt) => attempt,
        other => panic!("a launch was due, not {other:?}"),
    }
}

/// What a simulated run has seen.
struct Trace {
    attempts: Vec<Attempt>,
    most_in_flight: usize,
    ended_at: u64,
}

/// Runs a driver to its end on a simulated clock, against a backend that
/// answers every attempt after `latency_us`, by `succeeds`.
fn simulate(driver: &mut Driver, latency_us: u64, succeeds: impl Fn(&Attempt) -> bool) -> Trace {
    let mut now = 0u64;
    // the attempts in flight: when each ends, and how
    let mut in_flight: Vec<(u64, Outcome)> = Vec::new();
    let mut trace = Trace { attempts: Vec::new(), most_in_flight: 0, ended_at: 0 };
    loop {
        match driver.poll(now) {
            Action::Launch(attempt) => {
                let outcome = if succeeds(&attempt) {
                    Outcome::Success { latency_us }
                } else {
                    Outcome::Failure
                };
                in_flight.push((now + latency_us, outcome));
                trace.attempts.push(attempt);
                trace.most_in_flight = trace.most_in_flight.max(in_flight.len());
                assert_eq!(driver.in_flight(), in_flight.len());
                assert!(in_flight.len() <= driver.concurrency());
            },
            Action::Wait => {
                let first = (0..in_flight.len())
                    .min_by_key(|i| in_flight[*i].0)
                    .expect("a wait is due only while attempts are in flight");
                let (ends, outcome) = in_flight.remove(first);
                now = now.max(ends);
                assert!(driver.complete(outcome));
            },
            Action::Finished => break,
        }
    }
    assert!(in_flight.is_empty());
    trace.ended_at = now;
    trace
}

#[test]
fn steady_backend_gives_the_expected_throughput() {
    // four permits, two seconds, every stat answered after 10 ms
    let mut driver = Driver::new(Operation::Stat, 4, 2, keys(100), "p/".to_string()).unwrap();
    let trace = simulate(&mut driver, 10_000, |_| true);
    assert_eq!(driver.phase(), Phase::Done);
    assert!(driver.succeeded() > 0);
    assert_eq!(driver.succeeded(), 800);
    assert_eq!(driver.failed(), 0);
    assert_eq!(trace.most_in_flight, 4);
    let result = assemble(&driver, backend()).expect("the run is done");
    // 4 / 0.010 s = 400 per second
    assert_eq!(result.qps_milli, Some(400_000));
    let qps = result.ok_ops as f64 / result.duration_seconds as f64;
    assert!((qps - 400.0).abs() < 1e-9);
    let latency = result.latency.expect("latencies were recorded");
    assert_eq!(latency.p50, 10_007);
    assert_eq!(latency.p99, 10_007);
    assert_eq!(latency.mean, 10_007);
}

#[test]
fn failing_backend_gives_no_sample() {
    let mut driver = Driver::new(Operation::Write, 1, 1, Vec::new(), "p/".to_string()).unwrap();
    simulate(&mut driver, 1_000, |_| false);
    assert_eq!(driver.phase(), Phase::Done);
    assert_eq!(driver.succeeded(), 0);
    assert!(driver.failed() > 0);
    assert_eq!(driver.failed(), 1000);
    assert_eq!(driver.histogram().len(), 0);
    assert_eq!(driver.histogram().quantile(50, 100), Err(StatError::NoData));
    assert_eq!(driver.histogram().mean(), Err(StatError::NoData));
    let result = assemble(&driver, backend()).expect("the run is done");
    assert_eq!(result.ok_ops, 0);
    assert_eq!(result.err_ops, 1000);
    assert_eq!(result.latency, None);
    assert_eq!(result.qps_milli, Some(0));
}

#[test]
fn counts_add_up_when_the_run_is_done() {
    // every third attempt fails
    let mut driver = Driver::new(Operation::Read, 8, 1, keys(10), "p/".to_string()).unwrap();
    let trace = simulate(&mut driver, 2_500, |attempt| attempt.ordinal % 3 != 0);
    let expected_failures = trace.attempts.iter().filter(|a| a.ordinal % 3 == 0).count() as u64;
    assert_eq!(driver.launched(), trace.attempts.len() as u64);
    assert_eq!(driver.succeeded() + driver.failed(), driver.launched());
    assert_eq!(driver.failed(), expected_failures);
    assert_eq!(driver.in_flight(), 0);
    assert_eq!(driver.dropped(), 0);
    assert_eq!(driver.histogram().len(), driver.succeeded());
}

#[test]
fn no_more_attempts_in_flight_than_permits() {
    for concurrency in [1usize, 2, 3, 7, 64] {
        let mut driver =
            Driver::new(Operation::Stat, concurrency, 1, keys(5), "p/".to_string()).unwrap();
        let trace = simulate(&mut driver, 50_000, |_| true);
        assert_eq!(trace.most_in_flight, concurrency);
        // 20 rounds of 50 ms fit into a second
        assert_eq!(driver.launched(), 20 * concurrency as u64);
    }
}

#[test]
fn saturated_driver_waits_for_a_completion() {
    let mut driver = Driver::new(Operation::Stat, 2, 10, keys(3), "p/".to_string()).unwrap();
    assert_eq!(driver.phase(), Phase::Idle);
    launch(driver.poll(0));
    assert_eq!(driver.phase(), Phase::Running);
    launch(driver.poll(1));
    assert!(matches!(driver.poll(2), Action::Wait));
    assert!(matches!(driver.poll(3), Action::Wait));
    assert_eq!(driver.in_flight(), 2);
    assert!(driver.complete(Outcome::Failure));
    assert_eq!(driver.in_flight(), 1);
    launch(driver.poll(4));
    assert!(matches!(driver.poll(5), Action::Wait));
    assert_eq!(driver.launched(), 3);
}

#[test]
fn run_drains_before_it_is_done() {
    let mut driver = Driver::new(Operation::Stat, 3, 1, keys(3), "p/".to_string()).unwrap();
    launch(driver.poll(100));
    launch(driver.poll(200));
    // the run started at 100: its time is over at 1_000_100
    assert!(matches!(driver.poll(1_000_100), Action::Wait));
    assert_eq!(driver.phase(), Phase::Draining);
    assert!(assemble(&driver, backend()).is_none());
    assert!(driver.complete(Outcome::Success { latency_us: 5 }));
    // a permit is free, but nothing is launched any more
    assert!(matches!(driver.poll(1_000_200), Action::Wait));
    assert_eq!(driver.phase(), Phase::Draining);
    assert!(driver.complete(Outcome::Failure));
    assert!(matches!(driver.poll(1_000_300), Action::Finished));
    assert_eq!(driver.phase(), Phase::Done);
    assert!(matches!(driver.poll(0), Action::Finished));
    assert_eq!(driver.phase(), Phase::Done);
    assert_eq!((driver.launched(), driver.succeeded(), driver.failed()), (2, 1, 1));
}

#[test]
fn last_instant_before_the_deadline_still_launches() {
    let mut driver = Driver::new(Operation::Stat, 2, 1, keys(3), "p/".to_string()).unwrap();
    launch(driver.poll(0));
    launch(driver.poll(999_999));
    assert!(driver.complete(Outcome::Failure));
    assert!(matches!(driver.poll(1_000_000), Action::Wait));
    assert_eq!(driver.phase(), Phase::Draining);
}

#[test]
fn run_of_no_duration_launches_nothing() {
    let mut driver = Driver::new(Operation::Write, 4, 0, Vec::new(), "p/".to_string()).unwrap();
    assert!(matches!(driver.poll(12345), Action::Finished));
    assert_eq!(driver.phase(), Phase::Done);
    assert_eq!(driver.launched(), 0);
    let result = assemble(&driver, backend()).unwrap();
    assert_eq!(result.qps_milli, None);
    assert_eq!(result.latency, None);
}

#[test]
fn deadline_saturates_at_the_end_of_time() {
    let mut driver =
        Driver::new(Operation::List, 1, u64::MAX, Vec::new(), "p/".to_string()).unwrap();
    launch(driver.poll(u64::MAX - 1));
    assert!(driver.complete(Outcome::Failure));
    assert!(matches!(driver.poll(u64::MAX), Action::Finished));
}

#[test]
fn report_without_an_attempt_in_flight_is_refused() {
    let mut driver = Driver::new(Operation::Stat, 2, 1, keys(3), "p/".to_string()).unwrap();
    assert!(!driver.complete(Outcome::Success { latency_us: 1 }));
    assert_eq!(driver.phase(), Phase::Idle);
    launch(driver.poll(0));
    assert!(driver.complete(Outcome::Success { latency_us: 1 }));
    assert!(!driver.complete(Outcome::Success { latency_us: 1 }));
    assert!(!driver.complete(Outcome::Failure));
    assert_eq!((driver.succeeded(), driver.failed(), driver.in_flight()), (1, 0, 0));
    assert_eq!(driver.histogram().len(), 1);
}

#[test]
fn prepared_keys_are_taken_in_turn() {
    for operation in [Operation::Stat, Operation::Read, Operation::Delete] {
        let mut driver = Driver::new(operation, 1, 10, keys(3), "p/".to_string()).unwrap();
        for ordinal in 0..10u64 {
            let attempt = launch(driver.poll(ordinal));
            assert_eq!(attempt.ordinal, ordinal);
            assert_eq!(attempt.operation, operation);
            assert_eq!(attempt.key, format!("key-{}", ordinal % 3));
            assert!(driver.complete(Outcome::Failure));
        }
    }
}

#[test]
fn writes_get_fresh_keys_under_the_prefix() {
    let mut driver = Driver::new(Operation::Write, 1, 10, keys(3), "run/".to_string()).unwrap();
    let mut seen = HashSet::new();
    for ordinal in 0..600u64 {
        let attempt = launch(driver.poll(ordinal));
        assert_eq!(attempt.ordinal, ordinal);
        assert_eq!(attempt.operation, Operation::Write);
        assert!(attempt.key.starts_with(&format!("run//{:02x}/", ordinal % 256)));
        assert_eq!(attempt.key.len(), "run//00/".len() + 36);
        assert!(seen.insert(attempt.key));
        assert!(driver.complete(Outcome::Failure));
    }
}

#[test]
fn listings_aim_at_the_prefix() {
    let mut driver = Driver::new(Operation::List, 2, 10, Vec::new(), "run/".to_string()).unwrap();
    for _ in 0..2 {
        let attempt = launch(driver.poll(0));
        assert_eq!(attempt.operation, Operation::List);
        assert_eq!(attempt.key, "run/");
    }
}

#[test]
fn driver_needs_a_permit() {
    let r = Driver::new(Operation::Write, 0, 1, Vec::new(), "p".to_string());
    assert_eq!(r.err(), Some(ConfigError::ZeroConcurrency));
    let r = Driver::new(Operation::Stat, 0, 1, Vec::new(), "p".to_string());
    assert_eq!(r.err(), Some(ConfigError::ZeroConcurrency));
}

#[test]
fn driver_needs_keys_where_its_operation_works_on_them() {
    for operation in [Operation::Stat, Operation::Read, Operation::Delete] {
        let r = Driver::new(operation, 1, 1, Vec::new(), "p".to_string());
        assert_eq!(r.err(), Some(ConfigError::EmptyKeySet));
    }
    for operation in [Operation::Write, Operation::List] {
        assert!(Driver::new(operation, 1, 1, Vec::new(), "p".to_string()).is_ok());
    }
}

#[test]
fn new_driver_is_idle_and_empty() {
    let driver = Driver::new(Operation::Stat, 5, 60, keys(2), "p".to_string()).unwrap();
    assert_eq!(driver.phase(), Phase::Idle);
    assert_eq!(driver.operation(), Operation::Stat);
    assert_eq!(driver.concurrency(), 5);
    assert_eq!(driver.duration_seconds(), 60);
    assert_eq!(
        (driver.launched(), driver.in_flight(), driver.succeeded(), driver.failed(), driver.dropped()),
        (0, 0, 0, 0, 0)
    );
    assert!(driver.histogram().is_empty());
    assert_eq!(driver.into_keys(), keys(2));
}

#[test]
fn latency_beyond_the_range_counts_as_success_without_sample() {
    let mut driver = Driver::new(Operation::Stat, 2, 1, keys(1), "p".to_string()).unwrap();
    launch(driver.poll(0));
    launch(driver.poll(0));
    assert!(driver.complete(Outcome::Success { latency_us: MAX_TRACKABLE_US + 1 }));
    assert!(driver.complete(Outcome::Success { latency_us: MAX_TRACKABLE_US }));
    assert_eq!(driver.succeeded(), 2);
    assert_eq!(driver.dropped(), 1);
    assert_eq!(driver.histogram().len(), 1);
}

#[test]
fn slow_attempt_is_awaited_after_the_deadline() {
    // one attempt takes an hour; the run lasts a second
    let mut driver = Driver::new(Operation::Read, 1, 1, keys(1), "p".to_string()).unwrap();
    let trace = simulate(&mut driver, 3_600_000_000, |_| true);
    assert_eq!(driver.launched(), 1);
    assert_eq!(driver.succeeded(), 1);
    assert_eq!(trace.ended_at, 3_600_000_000);
    assert_eq!(driver.phase(), Phase::Done);
}
