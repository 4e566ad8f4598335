use proving_service::error::ProxyError;
use proving_service::pool::HealthStatus;
use proving_service::pool::ProbeOutcome;
use proving_service::pool::SERVING_STATUS;
use proving_service::pool::WorkerPool;

fn addr(s: &str) -> String {
    s.to_string()
}

fn addresses(pool: &WorkerPool) -> Vec<String> {
    let mut out = Vec::new();
    for w in pool.healthy_snapshot() {
        out.push(w.address);
    }
    out
}

#[test]
fn registered_worker_starts_unknown_and_is_not_dispatched_to() {
    let mut pool = WorkerPool::new(3);
    assert_eq!(pool.register(addr("127.0.0.1:8082")).ok(), Some(1));
    let w = pool.get(&addr("127.0.0.1:8082")).expect("worker is known");
    assert_eq!(w.status, HealthStatus::Unknown);
    assert_eq!(w.in_flight, 0);
    assert_eq!(w.failures, 0);
    assert_eq!(w.generation, 0);
    assert_eq!(w.last_checked_at, None);
    assert!(pool.healthy_snapshot().is_empty());
}

#[test]
fn register_is_idempotent() {
    let mut pool = WorkerPool::new(3);
    assert_eq!(pool.register(addr("a.example:1")).ok(), Some(1));
    assert_eq!(pool.register(addr("b.example:1")).ok(), Some(2));
    assert!(pool.record_probe(&addr("a.example:1"), ProbeOutcome::Serving, 5));
    assert_eq!(pool.register(addr("a.example:1")).ok(), Some(2));
    assert_eq!(pool.register(addr("a.example:1")).ok(), Some(2));
    assert_eq!(pool.count(), 2);
    let w = pool.get(&addr("a.example:1")).expect("worker is known");
    assert_eq!(w.status, HealthStatus::Healthy);
    assert_eq!(w.generation, 0);
}

#[test]
fn malformed_address_is_rejected_at_registration() {
    let mut pool = WorkerPool::new(3);
    match pool.register(addr("not an address")) {
        Err(ProxyError::InvalidAddress(a)) => assert_eq!(a, "not an address"),
        _ => panic!("expected InvalidAddress"),
    }
    assert_eq!(pool.count(), 0);
    assert!(pool.due_for_probe(0, 0).is_empty());
}

#[test]
fn validated_registration_follows_the_verdict() {
    let mut pool = WorkerPool::new(3);
    match pool.register_validated(addr("w:1"), false) {
        Err(ProxyError::InvalidAddress(a)) => assert_eq!(a, "w:1"),
        _ => panic!("expected InvalidAddress"),
    }
    assert_eq!(pool.count(), 0);
    assert_eq!(pool.register_validated(addr("w:1"), true).ok(), Some(1));
    assert_eq!(pool.count(), 1);
}

#[test]
fn deregister_removes_worker_and_reports_count() {
    let mut pool = WorkerPool::new(3);
    pool.register(addr("a:1")).unwrap();
    pool.register(addr("b:1")).unwrap();
    pool.record_probe(&addr("a:1"), ProbeOutcome::Serving, 1);
    pool.record_probe(&addr("b:1"), ProbeOutcome::Serving, 1);
    assert_eq!(pool.deregister(&addr("a:1")), Some(1));
    assert_eq!(pool.deregister(&addr("a:1")), None);
    assert_eq!(pool.count(), 1);
    assert!(pool.get(&addr("a:1")).is_none());
    assert_eq!(addresses(&pool), vec![addr("b:1")]);
}

#[test]
fn reregistered_worker_gets_a_new_generation_and_starts_over() {
    let mut pool = WorkerPool::new(3);
    pool.register(addr("a:1")).unwrap();
    pool.record_probe(&addr("a:1"), ProbeOutcome::Serving, 1);
    pool.deregister(&addr("a:1"));
    pool.register(addr("a:1")).unwrap();
    let w = pool.get(&addr("a:1")).unwrap();
    assert_eq!(w.generation, 1);
    assert_eq!(w.status, HealthStatus::Unknown);
    assert!(pool.healthy_snapshot().is_empty());
}

#[test]
fn worker_becomes_unhealthy_at_the_threshold_and_stays_out() {
    let mut pool = WorkerPool::new(3);
    pool.register(addr("a:1")).unwrap();
    pool.register(addr("b:1")).unwrap();
    pool.record_probe(&addr("a:1"), ProbeOutcome::Serving, 1);
    pool.record_probe(&addr("b:1"), ProbeOutcome::Serving, 1);
    pool.record_probe(&addr("a:1"), ProbeOutcome::ConnectionFailed, 2);
    pool.record_probe(&addr("a:1"), ProbeOutcome::TimedOut, 3);
    let w = pool.get(&addr("a:1")).unwrap();
    assert_eq!(w.status, HealthStatus::Healthy);
    assert_eq!(w.failures, 2);
    assert_eq!(addresses(&pool), vec![addr("a:1"), addr("b:1")]);
    pool.record_probe(&addr("a:1"), ProbeOutcome::NotServing, 4);
    let w = pool.get(&addr("a:1")).unwrap();
    assert_eq!(w.status, HealthStatus::Unhealthy);
    assert_eq!(w.failures, 3);
    assert_eq!(w.last_checked_at, Some(4));
    assert_eq!(pool.count(), 2);
    assert_eq!(addresses(&pool), vec![addr("b:1")]);
    pool.record_probe(&addr("b:1"), ProbeOutcome::Serving, 5);
    pool.record_probe(&addr("a:1"), ProbeOutcome::ConnectionFailed, 6);
    pool.charge(&addr("a:1"), 0);
    pool.release(&addr("a:1"), 0);
    pool.register(addr("a:1")).unwrap();
    pool.register(addr("c:1")).unwrap();
    assert_eq!(addresses(&pool), vec![addr("b:1")]);
}

#[test]
fn unhealthy_worker_recovers_on_a_successful_probe() {
    let mut pool = WorkerPool::new(1);
    pool.register(addr("a:1")).unwrap();
    pool.record_probe(&addr("a:1"), ProbeOutcome::ConnectionFailed, 1);
    assert_eq!(pool.get(&addr("a:1")).unwrap().status, HealthStatus::Unhealthy);
    assert!(pool.healthy_snapshot().is_empty());
    pool.record_probe(&addr("a:1"), ProbeOutcome::Serving, 2);
    let w = pool.get(&addr("a:1")).unwrap();
    assert_eq!(w.status, HealthStatus::Healthy);
    assert_eq!(w.failures, 0);
    assert_eq!(w.last_checked_at, Some(2));
    assert_eq!(addresses(&pool), vec![addr("a:1")]);
}

#[test]
fn failed_probe_below_threshold_keeps_status() {
    let mut pool = WorkerPool::new(2);
    pool.register(addr("a:1")).unwrap();
    pool.record_probe(&addr("a:1"), ProbeOutcome::TimedOut, 1);
    let w = pool.get(&addr("a:1")).unwrap();
    assert_eq!(w.status, HealthStatus::Unknown);
    assert_eq!(w.failures, 1);
}

#[test]
fn probe_of_unknown_address_changes_nothing() {
    let mut pool = WorkerPool::new(2);
    pool.register(addr("a:1")).unwrap();
    assert!(!pool.record_probe(&addr("z:1"), ProbeOutcome::Serving, 1));
    assert_eq!(pool.count(), 1);
    assert_eq!(pool.get(&addr("a:1")).unwrap().status, HealthStatus::Unknown);
}

#[test]
fn load_is_charged_and_released_per_registration() {
    let mut pool = WorkerPool::new(2);
    pool.register(addr("a:1")).unwrap();
    assert!(pool.charge(&addr("a:1"), 0));
    assert!(pool.charge(&addr("a:1"), 0));
    assert_eq!(pool.get(&addr("a:1")).unwrap().in_flight, 2);
    assert!(!pool.charge(&addr("a:1"), 7));
    assert!(!pool.release(&addr("b:1"), 0));
    assert_eq!(pool.get(&addr("a:1")).unwrap().in_flight, 2);
    assert!(pool.release(&addr("a:1"), 0));
    assert!(pool.release(&addr("a:1"), 0));
    assert!(pool.release(&addr("a:1"), 0));
    assert_eq!(pool.get(&addr("a:1")).unwrap().in_flight, 0);
}

#[test]
fn snapshot_is_a_copy() {
    let mut pool = WorkerPool::new(2);
    pool.register(addr("a:1")).unwrap();
    pool.record_probe(&addr("a:1"), ProbeOutcome::Serving, 1);
    let snapshot = pool.healthy_snapshot();
    pool.deregister(&addr("a:1"));
    assert_eq!(snapshot.len(), 1);
    assert_eq!(snapshot[0].address, "a:1");
    assert!(pool.healthy_snapshot().is_empty());
}

#[test]
fn probes_are_due_for_new_workers_and_after_the_interval() {
    let mut pool = WorkerPool::new(2);
    pool.register(addr("a:1")).unwrap();
    pool.register(addr("b:1")).unwrap();
    assert_eq!(pool.due_for_probe(100, 10), vec![addr("a:1"), addr("b:1")]);
    pool.record_probe(&addr("a:1"), ProbeOutcome::Serving, 100);
    assert_eq!(pool.due_for_probe(105, 10), vec![addr("b:1")]);
    assert_eq!(pool.due_for_probe(110, 10), vec![addr("a:1"), addr("b:1")]);
    assert_eq!(pool.due_for_probe(90, 10), vec![addr("b:1")]);
}

#[test]
fn probe_outcomes_classify() {
    assert!(ProbeOutcome::Serving.is_success());
    assert!(!ProbeOutcome::NotServing.is_success());
    assert!(!ProbeOutcome::ConnectionFailed.is_success());
    assert!(!ProbeOutcome::TimedOut.is_success());
    assert!(ProbeOutcome::Serving.connection_error(addr("a:1")).is_none());
    assert!(ProbeOutcome::NotServing.connection_error(addr("a:1")).is_none());
    match ProbeOutcome::ConnectionFailed.connection_error(addr("a:1")) {
        Some(ProxyError::ConnectionFailed(a)) => assert_eq!(a, "a:1"),
        _ => panic!("expected ConnectionFailed"),
    }
    match ProbeOutcome::TimedOut.connection_error(addr("b:1")) {
        Some(ProxyError::ConnectionFailed(a)) => assert_eq!(a, "b:1"),
        _ => panic!("expected ConnectionFailed"),
    }
}

#[test]
fn probe_outcome_follows_how_far_the_probe_got() {
    assert_eq!(SERVING_STATUS, 1);
    assert_eq!(ProbeOutcome::classify(false, false, None), ProbeOutcome::ConnectionFailed);
    assert_eq!(ProbeOutcome::classify(false, true, Some(1)), ProbeOutcome::ConnectionFailed);
    assert_eq!(ProbeOutcome::classify(true, true, None), ProbeOutcome::TimedOut);
    assert_eq!(ProbeOutcome::classify(true, true, Some(1)), ProbeOutcome::TimedOut);
    assert_eq!(ProbeOutcome::classify(true, false, None), ProbeOutcome::ConnectionFailed);
    assert_eq!(ProbeOutcome::classify(true, false, Some(1)), ProbeOutcome::Serving);
    assert_eq!(ProbeOutcome::classify(true, false, Some(0)), ProbeOutcome::NotServing);
    assert_eq!(ProbeOutcome::classify(true, false, Some(2)), ProbeOutcome::NotServing);
    assert_eq!(ProbeOutcome::classify(true, false, Some(3)), ProbeOutcome::NotServing);
}

#[test]
fn serving_status_is_the_health_protocol_s() {
    let theirs = tonic_health::pb::health_check_response::ServingStatus::Serving;
    assert_eq!(SERVING_STATUS, i32::from(theirs));
}
