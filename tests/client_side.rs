use admission_bench::client::{
    aggregate, is_success_status, parse_request_count, probe_passed, LatencySummary,
    RequestOutcome, RunStatistics, UsageError, MAX_REQUESTS, MIN_REQUESTS,
};

fn args(a: &[&str]) -> Vec<String> {
    a.iter().map(|s| s.to_string()).collect()
}

fn ok(t: u64) -> RequestOutcome {
    RequestOutcome::Success { latency_nanos: t }
}

fn failed(cause: &str) -> RequestOutcome {
    RequestOutcome::Failure { cause: cause.to_string() }
}

#[test]
fn zero_requests_rejected() {
    assert_eq!(parse_request_count(&args(&["client", "0"])), Err(UsageError::OutOfRange));
}

#[test]
fn hundred_and_one_requests_rejected() {
    assert_eq!(parse_request_count(&args(&["client", "101"])), Err(UsageError::OutOfRange));
}

#[test]
fn range_bounds_accepted() {
    assert_eq!(MIN_REQUESTS, 1);
    assert_eq!(MAX_REQUESTS, 100);
    assert_eq!(parse_request_count(&args(&["client", "1"])), Ok(1));
    assert_eq!(parse_request_count(&args(&["client", "100"])), Ok(100));
    assert_eq!(parse_request_count(&args(&["client", "13"])), Ok(13));
    assert_eq!(parse_request_count(&args(&["client", "+20"])), Ok(20));
    assert_eq!(parse_request_count(&args(&["client", "007"])), Ok(7));
}

#[test]
fn huge_count_rejected() {
    assert_eq!(
        parse_request_count(&args(&["client", "99999999999999999999999999"])),
        Err(UsageError::OutOfRange)
    );
}

#[test]
fn malformed_counts_rejected() {
    for bad in ["", "+", "abc", "-5", "1.5", " 3", "3 ", "1e2", "++1"] {
        assert_eq!(parse_request_count(&args(&["client", bad])), Err(UsageError::NotANumber), "{bad:?}");
    }
}

#[test]
fn wrong_argument_count_rejected() {
    assert_eq!(parse_request_count(&args(&["client"])), Err(UsageError::WrongArgumentCount));
    assert_eq!(parse_request_count(&args(&[])), Err(UsageError::WrongArgumentCount));
    assert_eq!(
        parse_request_count(&args(&["client", "5", "6"])),
        Err(UsageError::WrongArgumentCount)
    );
}

#[test]
fn status_classification() {
    assert!(is_success_status(200));
    assert!(is_success_status(204));
    assert!(is_success_status(299));
    assert!(!is_success_status(199));
    assert!(!is_success_status(300));
    assert!(!is_success_status(404));
    assert!(!is_success_status(500));
}

#[test]
fn unreachable_server_fails_probe() {
    assert!(!probe_passed(None));
    assert!(!probe_passed(Some(503)));
    assert!(probe_passed(Some(200)));
}

#[test]
fn single_request_min_max_average_equal() {
    let r = aggregate(&vec![ok(1_234_567)]);
    assert_eq!(r.total, 1);
    assert_eq!(r.succeeded, 1);
    assert_eq!(r.failed, 0);
    assert_eq!(
        r.latency,
        Some(LatencySummary { min_nanos: 1_234_567, max_nanos: 1_234_567, average_nanos: 1_234_567 })
    );
}

#[test]
fn no_outcomes_no_summary() {
    let r = aggregate(&Vec::new());
    assert_eq!(r, RunStatistics { total: 0, succeeded: 0, failed: 0, latency: None });
}

#[test]
fn all_failures_no_summary() {
    let r = aggregate(&vec![failed("connection refused"), failed("timed out")]);
    assert_eq!(r, RunStatistics { total: 2, succeeded: 0, failed: 2, latency: None });
}

#[test]
fn failures_excluded_from_latency() {
    let r = aggregate(&vec![ok(300), failed("reset"), ok(100), ok(200), failed("refused")]);
    assert_eq!(r.total, 5);
    assert_eq!(r.succeeded, 3);
    assert_eq!(r.failed, 2);
    assert_eq!(r.succeeded + r.failed, r.total);
    assert_eq!(r.latency, Some(LatencySummary { min_nanos: 100, max_nanos: 300, average_nanos: 200 }));
}

#[test]
fn average_rounds_down() {
    let r = aggregate(&vec![ok(1), ok(2)]);
    assert_eq!(r.latency, Some(LatencySummary { min_nanos: 1, max_nanos: 2, average_nanos: 1 }));
}

#[test]
fn largest_latencies_do_not_overflow() {
    let r = aggregate(&vec![ok(u64::MAX), ok(u64::MAX), ok(u64::MAX - 2)]);
    assert_eq!(
        r.latency,
        Some(LatencySummary { min_nanos: u64::MAX - 2, max_nanos: u64::MAX, average_nanos: u64::MAX - 1 })
    );
}

#[test]
fn every_dispatched_request_counted() {
    for n in 1..=100u64 {
        let outcomes: Vec<RequestOutcome> =
            (0..n).map(|i| if i % 3 == 0 { failed("refused") } else { ok(i * 10) }).collect();
        let r = aggregate(&outcomes);
        assert_eq!(r.total as u64, n);
        assert_eq!(r.succeeded + r.failed, r.total);
    }
}

#[test]
fn queued_requests_raise_average() {
    // Five admitted at once finish near 200 ms; the next fifteen waited for
    // slots and finish later.
    let mut outcomes = Vec::new();
    for wave in 0..4u64 {
        for _ in 0..5 {
            outcomes.push(ok((wave + 1) * 200_000_000));
        }
    }
    let r = aggregate(&outcomes);
    assert_eq!(r.succeeded, 20);
    let s = r.latency.unwrap();
    assert_eq!(s.min_nanos, 200_000_000);
    assert_eq!(s.max_nanos, 800_000_000);
    assert_eq!(s.average_nanos, 500_000_000);
    assert!(s.average_nanos > s.min_nanos);
}
