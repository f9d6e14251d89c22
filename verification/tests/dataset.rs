use qps_bench::dataset::{zero_payload, Cleanup, Population};
use std::collections::HashSet;

/// Runs a population to its end against a backend that answers by `succeeds`.
fn populate(prefix: &str, count: usize, size: usize, succeeds: impl Fn(usize) -> bool) -> Vec<String> {
    let mut population = Population::new(prefix.to_string(), count, size);
    let mut writes = 0;
    while let Some(request) = population.next_write() {
        assert_eq!(request.ordinal, writes);
        assert_eq!(request.size, size);
        population.record_outcome(succeeds(request.ordinal));
        writes += 1;
    }
    assert_eq!(writes, count);
    assert!(population.is_complete());
    population.into_keys()
}

#[test]
fn population_skips_failed_writes() {
    // every tenth write of a hundred fails
    let keys = populate("bench/1-2/", 100, 1024, |i| (i + 1) % 10 != 0);
    assert_eq!(keys.len(), 90);
    let distinct: HashSet<&String> = keys.iter().collect();
    assert_eq!(distinct.len(), 90);
}

#[test]
fn population_keeps_the_keys_of_its_successes_in_order() {
    let mut population = Population::new("p".to_string(), 6, 8);
    let mut expected = Vec::new();
    for i in 0..6usize {
        let request = population.next_write().expect("six writes are due");
        assert!(request.key.starts_with(&format!("p/{:02x}/", i)));
        let succeeded = i % 2 == 0;
        if succeeded {
            expected.push(request.key.clone());
        }
        population.record_outcome(succeeded);
        assert_eq!(population.created(), expected.len());
    }
    assert!(population.next_write().is_none());
    assert_eq!(population.into_keys(), expected);
}

#[test]
fn population_of_nothing_is_complete_at_once() {
    let mut population = Population::new("p".to_string(), 0, 8);
    assert!(population.is_complete());
    assert!(population.next_write().is_none());
    assert!(population.into_keys().is_empty());
}

#[test]
fn population_with_only_failures_gives_no_key() {
    let keys = populate("p", 25, 1, |_| false);
    assert!(keys.is_empty());
}

#[test]
fn population_hands_out_one_write_at_a_time() {
    let mut population = Population::new("p".to_string(), 3, 8);
    let first = population.next_write();
    assert!(first.is_some());
    assert!(!population.is_complete());
    // the first write is not reported yet
    assert!(population.next_write().is_none());
    assert_eq!(population.record_outcome(true), None);
    // nothing is pending now: a second report changes nothing
    assert_eq!(population.record_outcome(true), None);
    assert_eq!(population.created(), 1);
    assert!(population.next_write().is_some());
}

#[test]
fn population_reports_progress_every_thousand_writes() {
    let mut population = Population::new("p".to_string(), 3000, 1);
    let mut reports = Vec::new();
    while let Some(request) = population.next_write() {
        // the 2000th write fails: no progress is reported for it
        let succeeded = request.ordinal != 1999;
        if let Some(progress) = population.record_outcome(succeeded) {
            reports.push(progress);
        }
    }
    assert_eq!(reports, vec![1000, 3000]);
    assert_eq!(population.created(), 2999);
}

#[test]
fn zero_payload_has_the_size_asked_for() {
    assert!(zero_payload(0).is_empty());
    assert_eq!(zero_payload(1), vec![0u8]);
    let payload = zero_payload(1024);
    assert_eq!(payload.len(), 1024);
    assert!(payload.iter().all(|b| *b == 0));
}

#[test]
fn cleanup_counts_the_deletions_that_succeeded() {
    let keys: Vec<String> = (0..10).map(|i| format!("k{i}")).collect();
    let mut cleanup = Cleanup::new(keys.clone());
    assert_eq!(cleanup.total(), 10);
    let mut asked = Vec::new();
    while let Some(key) = cleanup.next_delete() {
        let succeeded = asked.len() % 3 != 0;
        asked.push(key);
        cleanup.record_outcome(succeeded);
    }
    assert_eq!(asked, keys);
    // the deletions 0, 3, 6 and 9 failed
    assert_eq!(cleanup.deleted(), 6);
}

#[test]
fn cleanup_of_no_keys_deletes_nothing() {
    let mut cleanup = Cleanup::new(Vec::new());
    assert!(cleanup.next_delete().is_none());
    assert_eq!(cleanup.record_outcome(true), None);
    assert_eq!(cleanup.deleted(), 0);
    assert_eq!(cleanup.total(), 0);
}

#[test]
fn cleanup_hands_out_one_deletion_at_a_time() {
    let mut cleanup = Cleanup::new(vec!["a".to_string(), "b".to_string()]);
    assert_eq!(cleanup.next_delete(), Some("a".to_string()));
    assert_eq!(cleanup.next_delete(), None);
    assert_eq!(cleanup.record_outcome(false), None);
    assert_eq!(cleanup.record_outcome(true), None);
    assert_eq!(cleanup.deleted(), 0);
    assert_eq!(cleanup.next_delete(), Some("b".to_string()));
    assert_eq!(cleanup.record_outcome(true), None);
    assert_eq!(cleanup.deleted(), 1);
    assert_eq!(cleanup.next_delete(), None);
}

#[test]
fn cleanup_reports_progress_every_thousand_deletions() {
    let keys: Vec<String> = (0..2500).map(|i| format!("k{i}")).collect();
    let mut cleanup = Cleanup::new(keys);
    let mut reports = Vec::new();
    let mut asked = 0;
    while cleanup.next_delete().is_some() {
        // every fifth deletion fails
        let succeeded = asked % 5 != 0;
        asked += 1;
        if let Some(progress) = cleanup.record_outcome(succeeded) {
            reports.push(progress);
        }
    }
    assert_eq!(cleanup.deleted(), 2000);
    assert_eq!(reports, vec![1000, 2000]);
}
