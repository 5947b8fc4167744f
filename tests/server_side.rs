use admission_bench::admission::{AdmissionController, SERVER_CAPACITY};
use admission_bench::server::{draw_processing_time, MAX_PROCESSING_MS, MIN_PROCESSING_MS};
use admission_bench::stats::ServerStats;

#[test]
fn fresh_stats_are_empty() {
    let stats = ServerStats::new();
    assert_eq!(stats.total_connections(), 0);
    assert_eq!(stats.total_session_time(), 0);
    assert_eq!(stats.max_session_time(), 0);
    assert_eq!(stats.min_session_time(), None);
}

#[test]
fn one_session_sets_min_and_max() {
    let mut stats = ServerStats::new();
    stats.update_session_stats(250);
    assert_eq!(stats.total_connections(), 1);
    assert_eq!(stats.total_session_time(), 250);
    assert_eq!(stats.max_session_time(), 250);
    assert_eq!(stats.min_session_time(), Some(250));
}

#[test]
fn stats_summarise_every_session() {
    let mut stats = ServerStats::new();
    let times: [u128; 6] = [300, 100, 500, 420, 100, 233];
    for t in times {
        stats.update_session_stats(t);
    }
    assert_eq!(stats.total_connections(), 6);
    assert_eq!(stats.total_session_time(), 1653);
    assert_eq!(stats.max_session_time(), 500);
    assert_eq!(stats.min_session_time(), Some(100));
    for t in times {
        assert!(stats.min_session_time().unwrap() <= t && t <= stats.max_session_time());
    }
}

#[test]
fn room_for_session_until_total_would_overflow() {
    let mut stats = ServerStats::new();
    assert!(stats.has_room_for(u128::MAX));
    stats.update_session_stats(u128::MAX - 10);
    assert!(stats.has_room_for(10));
    assert!(!stats.has_room_for(11));
}

#[test]
fn burst_never_exceeds_capacity() {
    let mut c = AdmissionController::new(SERVER_CAPACITY);
    let mut admitted = 0;
    for id in 0..50u64 {
        if c.request(id) {
            admitted += 1;
        }
        assert!(c.held() <= 5);
    }
    assert_eq!(admitted, 5);
    assert_eq!(c.held(), 5);
    assert_eq!(c.peak(), 5);
    assert_eq!(c.waiting_len(), 45);
    for expected in 5..50u64 {
        assert_eq!(c.release(), Some(expected));
        assert_eq!(c.held(), 5);
    }
    for _ in 0..5 {
        assert_eq!(c.release(), None);
    }
    assert_eq!(c.held(), 0);
    assert_eq!(c.peak(), 5);
    assert_eq!(c.capacity(), 5);
}

#[test]
fn twenty_requests_all_admitted_in_arrival_order() {
    let mut c = AdmissionController::new(5);
    let mut order = Vec::new();
    for id in 0..20u64 {
        if c.request(id) {
            order.push(id);
        }
    }
    while c.held() > 0 {
        if let Some(id) = c.release() {
            order.push(id);
        }
    }
    assert_eq!(order, (0..20u64).collect::<Vec<u64>>());
    assert_eq!(c.waiting_len(), 0);
}

#[test]
fn free_slot_is_reused() {
    let mut c = AdmissionController::new(1);
    assert!(c.request(7));
    assert!(!c.request(8));
    assert_eq!(c.release(), Some(8));
    assert_eq!(c.release(), None);
    assert!(c.request(9));
    assert_eq!(c.peak(), 1);
}

#[test]
fn processing_time_within_bounds() {
    assert_eq!(MIN_PROCESSING_MS, 100);
    assert_eq!(MAX_PROCESSING_MS, 500);
    let mut distinct = std::collections::BTreeSet::new();
    for _ in 0..200 {
        let t = draw_processing_time();
        assert!((100..=500).contains(&t));
        distinct.insert(t);
    }
    assert!(distinct.len() > 1);
}
