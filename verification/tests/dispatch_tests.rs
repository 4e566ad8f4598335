use proving_service::dispatch::address_less;
use proving_service::dispatch::select_worker;
use proving_service::dispatch::Begin;
use proving_service::dispatch::Dispatcher;
use proving_service::dispatch::Forwarded;
use proving_service::dispatch::Next;
use proving_service::error::ProxyError;
use proving_service::header::into_response_header;
use proving_service::pool::HealthStatus;
use proving_service::pool::ProbeOutcome;
use proving_service::pool::WorkerEntry;
use proving_service::pool::WorkerPool;
use proving_service::queue::Dequeued;
use proving_service::queue::QueueEntry;
use proving_service::queue::WorkQueue;
use proving_service::response::response_for_error;

fn worker(address: &str, status: HealthStatus, in_flight: u64) -> WorkerEntry {
    WorkerEntry {
        address: address.to_string(),
        status,
        last_checked_at: Some(1),
        in_flight,
        failures: 0,
        generation: 0,
    }
}

fn request(id: u64) -> QueueEntry {
    QueueEntry { request_id: id, enqueued_at: 1, attempts: 0, payload: vec![7, 7] }
}

fn healthy_pool(addresses: &[&str]) -> WorkerPool {
    let mut pool = WorkerPool::new(3);
    for a in addresses {
        pool.register(a.to_string()).unwrap();
        pool.record_probe(&a.to_string(), ProbeOutcome::Serving, 1);
    }
    pool
}

fn forwarded(b: Begin) -> Forwarded {
    match b {
        Begin::Forward(f) => f,
        other => panic!("expected a forward, got {:?}", other),
    }
}

#[test]
fn selects_least_loaded_worker() {
    let snapshot = vec![
        worker("a:1", HealthStatus::Healthy, 3),
        worker("b:1", HealthStatus::Healthy, 1),
        worker("c:1", HealthStatus::Healthy, 2),
    ];
    assert_eq!(select_worker(&snapshot, &None), Some(1));
}

#[test]
fn ties_are_broken_by_address_order() {
    let snapshot = vec![
        worker("c:1", HealthStatus::Healthy, 1),
        worker("a:10", HealthStatus::Healthy, 1),
        worker("a:1", HealthStatus::Healthy, 1),
        worker("b:1", HealthStatus::Healthy, 0),
    ];
    assert_eq!(select_worker(&snapshot, &Some("b:1".to_string())), Some(2));
    assert_eq!(select_worker(&snapshot, &None), Some(3));
}

#[test]
fn only_healthy_workers_are_selected() {
    let snapshot = vec![
        worker("a:1", HealthStatus::Unhealthy, 0),
        worker("b:1", HealthStatus::Unknown, 0),
        worker("c:1", HealthStatus::Healthy, 9),
    ];
    assert_eq!(select_worker(&snapshot, &None), Some(2));
    assert_eq!(select_worker(&snapshot, &Some("c:1".to_string())), None);
    assert_eq!(select_worker(&Vec::new(), &None), None);
}

#[test]
fn addresses_compare_in_byte_order() {
    assert!(address_less(&"a:1".to_string(), &"a:10".to_string()));
    assert!(!address_less(&"a:10".to_string(), &"a:1".to_string()));
    assert!(address_less(&"a:9".to_string(), &"b:1".to_string()));
    assert!(!address_less(&"a:1".to_string(), &"a:1".to_string()));
    assert!(address_less(&"".to_string(), &"a".to_string()));
    assert!(address_less(&"Z".to_string(), &"a".to_string()));
}

#[test]
fn failed_forward_is_retried_on_the_other_worker() {
    let mut pool = healthy_pool(&["a:1", "b:1"]);
    pool.charge(&"b:1".to_string(), 1);
    let mut queue = WorkQueue::new(4);
    queue.try_enqueue(request(42)).unwrap();
    let dispatcher = Dispatcher::new(3);
    let first = forwarded(dispatcher.begin(&mut queue, &mut pool));
    assert_eq!(first.worker.address, "a:1");
    assert_eq!(first.worker.generation, 0);
    assert_eq!(first.entry.request_id, 42);
    assert_eq!(pool.get(&"a:1".to_string()).unwrap().in_flight, 1);
    assert!(queue.is_empty());
    let second = match dispatcher.on_failure(first, &mut pool) {
        Next::Forward(f) => f,
        other => panic!("expected a retry, got {:?}", other),
    };
    assert_eq!(second.worker.address, "b:1");
    assert_eq!(second.entry.request_id, 42);
    assert_eq!(second.entry.attempts, 1);
    assert_eq!(second.entry.payload, vec![7, 7]);
    assert_eq!(pool.get(&"a:1".to_string()).unwrap().in_flight, 0);
    assert_eq!(pool.get(&"b:1".to_string()).unwrap().in_flight, 2);
    let done = dispatcher.on_success(second, &mut pool);
    assert_eq!(done.request_id, 42);
    assert_eq!(pool.get(&"b:1".to_string()).unwrap().in_flight, 1);
}

#[test]
fn deregistering_the_only_worker_ends_in_exhaustion() {
    let mut pool = healthy_pool(&["a:1"]);
    let mut queue = WorkQueue::new(4);
    queue.try_enqueue(request(7)).unwrap();
    let dispatcher = Dispatcher::new(3);
    let in_flight = forwarded(dispatcher.begin(&mut queue, &mut pool));
    assert_eq!(in_flight.worker.address, "a:1");
    assert_eq!(pool.deregister(&"a:1".to_string()), Some(0));
    let mut next = dispatcher.on_failure(in_flight, &mut pool);
    let mut steps = 1;
    let entry = loop {
        next = match next {
            Next::Exhausted(e) => break e,
            Next::Backoff(p) => dispatcher.retry(p, &mut pool),
            Next::Forward(f) => panic!("nothing to forward to, got {:?}", f),
        };
        steps += 1;
        assert!(steps <= 7);
    };
    assert_eq!(entry.request_id, 7);
    assert_eq!(entry.attempts, 3);
    assert_eq!(steps, 2);
    let failure = Next::Exhausted(entry.clone()).failure();
    assert_eq!(failure, Some(ProxyError::DispatchExhausted));
    let resp = response_for_error(failure.unwrap(), 10).expect("shown to the client");
    assert_eq!(resp.status, 400);
    assert_eq!(resp.headers[0].name, "X-Error-Message");
    assert_eq!(resp.headers[0].value, "All dispatch attempts failed");
    assert_eq!(into_response_header(&resp).unwrap().status.as_u16(), 400);
}

#[test]
fn no_healthy_worker_puts_the_request_back_at_the_head() {
    let mut pool = WorkerPool::new(3);
    pool.register("a:1".to_string()).unwrap();
    let mut queue = WorkQueue::new(2);
    queue.try_enqueue(request(1)).unwrap();
    queue.try_enqueue(request(2)).unwrap();
    let dispatcher = Dispatcher::new(3);
    assert_eq!(dispatcher.begin(&mut queue, &mut pool), Begin::Backoff);
    assert_eq!(queue.len(), 2);
    assert_eq!(dispatcher.begin(&mut queue, &mut pool), Begin::Backoff);
    match dispatcher.begin(&mut queue, &mut pool) {
        Begin::Exhausted(e) => {
            assert_eq!(e.request_id, 1);
            assert_eq!(e.attempts, 3);
        },
        other => panic!("expected exhaustion, got {:?}", other),
    }
    assert_eq!(queue.len(), 1);
    pool.record_probe(&"a:1".to_string(), ProbeOutcome::Serving, 9);
    let f = forwarded(dispatcher.begin(&mut queue, &mut pool));
    assert_eq!(f.entry.request_id, 2);
    assert_eq!(f.entry.attempts, 0);
    assert!(matches!(queue.dequeue(), Dequeued::Wait));
}

#[test]
fn empty_queue_is_idle_and_closed_queue_stops() {
    let mut pool = healthy_pool(&["a:1"]);
    let mut queue = WorkQueue::new(2);
    let dispatcher = Dispatcher::new(2);
    assert_eq!(dispatcher.max_attempts(), 2);
    assert_eq!(dispatcher.begin(&mut queue, &mut pool), Begin::Idle);
    queue.close();
    assert_eq!(dispatcher.begin(&mut queue, &mut pool), Begin::Closed);
    assert_eq!(pool.get(&"a:1".to_string()).unwrap().in_flight, 0);
}

#[test]
fn failures_are_bounded_by_the_attempt_limit() {
    let mut pool = healthy_pool(&["a:1", "b:1"]);
    let mut queue = WorkQueue::new(2);
    queue.try_enqueue(request(5)).unwrap();
    let dispatcher = Dispatcher::new(4);
    let mut tried = Vec::new();
    let mut next = Next::Forward(forwarded(dispatcher.begin(&mut queue, &mut pool)));
    let entry = loop {
        next = match next {
            Next::Forward(f) => {
                tried.push(f.worker.address.clone());
                dispatcher.on_failure(f, &mut pool)
            },
            Next::Backoff(p) => dispatcher.retry(p, &mut pool),
            Next::Exhausted(e) => break e,
        };
    };
    assert_eq!(tried, vec!["a:1", "b:1", "a:1", "b:1"]);
    assert_eq!(entry.attempts, 4);
    assert_eq!(pool.get(&"a:1".to_string()).unwrap().in_flight, 0);
    assert_eq!(pool.get(&"b:1".to_string()).unwrap().in_flight, 0);
}

#[test]
fn decisions_map_to_failures() {
    assert_eq!(Begin::Backoff.failure(), Some(ProxyError::NoHealthyWorker));
    assert_eq!(Begin::Exhausted(request(1)).failure(), Some(ProxyError::DispatchExhausted));
    assert_eq!(Begin::Idle.failure(), None);
    assert_eq!(Begin::Closed.failure(), None);
    let mut pool = healthy_pool(&["a:1"]);
    let mut queue = WorkQueue::new(1);
    queue.try_enqueue(request(1)).unwrap();
    let f = forwarded(Dispatcher::new(2).begin(&mut queue, &mut pool));
    assert_eq!(Next::Forward(f.clone()).failure(), None);
    assert_eq!(Begin::Forward(f).failure(), None);
    let mut empty = WorkerPool::new(1);
    let waiting = Dispatcher::new(5).retry(
        proving_service::dispatch::Pending { entry: request(2), avoid: None },
        &mut empty,
    );
    assert_eq!(waiting.failure(), Some(ProxyError::NoHealthyWorker));
    assert!(response_for_error(waiting.failure().unwrap(), 1).is_none());
}
