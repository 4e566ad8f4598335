use proving_service::admission::Admission;
use proving_service::dispatch::Next;
use proving_service::error::ProxyError;
use proving_service::policy::ProxyPolicy;
use proving_service::pool::ProbeOutcome;
use proving_service::proxy::ProxyCore;
use proving_service::proxy::Step;

fn policy() -> ProxyPolicy {
    ProxyPolicy {
        max_queue_capacity: 2,
        max_requests_per_second: 100,
        connect_timeout_ms: 100,
        total_timeout_ms: 1_000,
        health_check_interval_ms: 500,
        unhealthy_eviction_threshold: 2,
        max_dispatch_attempts: 2,
    }
}

fn with_workers(addresses: &[&str]) -> ProxyCore {
    let mut core = ProxyCore::new(policy(), 0);
    for a in addresses {
        core.register(a.to_string()).unwrap();
        core.record_probe(&a.to_string(), ProbeOutcome::Serving, 0);
    }
    core
}

#[test]
fn new_proxy_is_empty() {
    let core = ProxyCore::new(policy(), 5);
    assert_eq!(core.policy(), policy());
    assert_eq!(core.queue_len(), 0);
    assert_eq!(core.worker_count(), 0);
    assert_eq!(core.queue_drops(), 0);
    assert_eq!(core.tickets_issued(), 0);
    assert_eq!(core.registrations(), 0);
    assert!(core.healthy_snapshot().is_empty());
}

#[test]
fn requests_take_their_turn_in_ticket_order() {
    let mut core = with_workers(&["a:1"]);
    assert_eq!(core.submit(vec![1], 0), Admission::Accepted(0));
    assert_eq!(core.submit(vec![2], 1), Admission::Accepted(1));
    assert_eq!(core.submit(vec![3], 2), Admission::RejectedQueueFull);
    assert_eq!(core.queue_drops(), 1);
    assert_eq!(core.step(1, None), Step::NotYet);
    assert_eq!(core.queue_len(), 2);
    let first = match core.step(0, None) {
        Step::Forward(f) => f,
        other => panic!("expected a forward, got {:?}", other),
    };
    assert_eq!(first.entry.request_id, 0);
    assert_eq!(first.worker.address, "a:1");
    assert_eq!(core.step(0, None), Step::NotYet);
    let second = match core.step(1, None) {
        Step::Forward(f) => f,
        other => panic!("expected a forward, got {:?}", other),
    };
    assert_eq!(second.entry.payload, vec![2]);
    assert_eq!(core.healthy_snapshot()[0].in_flight, 2);
    assert_eq!(core.on_success(first).request_id, 0);
    assert_eq!(core.on_success(second).request_id, 1);
    assert_eq!(core.healthy_snapshot()[0].in_flight, 0);
    assert_eq!(core.step(7, None), Step::NotYet);
}

#[test]
fn head_request_waits_without_healthy_worker_and_is_given_up_in_the_end() {
    let mut core = ProxyCore::new(policy(), 0);
    core.register("a:1".to_string()).unwrap();
    assert_eq!(core.submit(vec![9], 0), Admission::Accepted(0));
    assert_eq!(core.step(0, None), Step::Wait(None));
    assert_eq!(core.queue_len(), 1);
    match core.step(0, None) {
        Step::Exhausted(e) => {
            assert_eq!(e.request_id, 0);
            assert_eq!(e.attempts, 2);
        },
        other => panic!("expected exhaustion, got {:?}", other),
    }
    assert_eq!(core.queue_len(), 0);
}

#[test]
fn failure_with_no_other_worker_exhausts_within_the_bound() {
    let mut core = with_workers(&["a:1"]);
    core.submit(vec![9], 0);
    let f = match core.step(0, None) {
        Step::Forward(f) => f,
        other => panic!("expected a forward, got {:?}", other),
    };
    assert_eq!(core.deregister(&"a:1".to_string()), Some(0));
    match core.on_failure(f) {
        Next::Exhausted(e) => assert_eq!(e.attempts, 2),
        Next::Backoff(p) => match core.step(0, Some(p)) {
            Step::Exhausted(e) => assert_eq!(e.attempts, 2),
            other => panic!("expected exhaustion, got {:?}", other),
        },
        Next::Forward(f) => panic!("nothing to forward to, got {:?}", f),
    }
}

#[test]
fn membership_and_probes_go_through_the_proxy() {
    let mut core = ProxyCore::new(policy(), 0);
    assert_eq!(core.register("a:1".to_string()).ok(), Some(1));
    assert_eq!(core.register("a:1".to_string()).ok(), Some(1));
    assert_eq!(
        core.register("bad address".to_string()),
        Err(ProxyError::InvalidAddress("bad address".to_string()))
    );
    assert_eq!(core.registrations(), 1);
    assert_eq!(core.due_for_probe(0), vec!["a:1".to_string()]);
    assert!(core.record_probe(&"a:1".to_string(), ProbeOutcome::Serving, 100));
    assert!(core.due_for_probe(599).is_empty());
    assert_eq!(core.due_for_probe(600), vec!["a:1".to_string()]);
    assert!(core.record_probe(&"a:1".to_string(), ProbeOutcome::TimedOut, 600));
    assert_eq!(core.healthy_snapshot().len(), 1);
    assert!(core.record_probe(&"a:1".to_string(), ProbeOutcome::TimedOut, 1_100));
    assert!(core.healthy_snapshot().is_empty());
    assert_eq!(core.deregister(&"a:1".to_string()), Some(0));
    assert_eq!(core.deregister(&"a:1".to_string()), None);
    core.close();
    assert_eq!(core.submit(vec![1], 0), Admission::Accepted(0));
}
