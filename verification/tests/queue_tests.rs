use proving_service::queue::Dequeued;
use proving_service::queue::QueueEntry;
use proving_service::queue::WorkQueue;

fn entry(id: u64) -> QueueEntry {
    QueueEntry { request_id: id, enqueued_at: 10 * id, attempts: 0, payload: vec![id as u8] }
}

fn take(q: &mut WorkQueue) -> QueueEntry {
    match q.dequeue() {
        Dequeued::Entry(e) => e,
        _ => panic!("expected an entry"),
    }
}

#[test]
fn queue_never_exceeds_capacity() {
    let mut q = WorkQueue::new(2);
    assert!(q.try_enqueue(entry(1)).is_ok());
    assert!(q.try_enqueue(entry(2)).is_ok());
    for id in 3..20u64 {
        assert!(q.try_enqueue(entry(id)).is_err());
        assert!(q.len() <= q.capacity());
    }
    assert_eq!(q.len(), 2);
    assert_eq!(q.capacity(), 2);
    assert!(q.is_full());
}

#[test]
fn enqueue_on_full_queue_hands_entry_back_and_changes_nothing() {
    let mut q = WorkQueue::new(2);
    assert!(q.try_enqueue(entry(1)).is_ok());
    assert!(q.try_enqueue(entry(2)).is_ok());
    match q.try_enqueue(entry(3)) {
        Err(e) => {
            assert_eq!(e.request_id, 3);
            assert_eq!(e.payload, vec![3u8]);
        },
        Ok(()) => panic!("a full queue accepted an entry"),
    }
    assert_eq!(q.len(), 2);
    let first = take(&mut q);
    assert_eq!(first.request_id, 1);
    assert_eq!(first.enqueued_at, 10);
    assert_eq!(first.payload, vec![1u8]);
    let second = take(&mut q);
    assert_eq!(second.request_id, 2);
    assert!(q.is_empty());
}

#[test]
fn dequeue_order_is_enqueue_order() {
    let mut q = WorkQueue::new(8);
    for id in [5u64, 3, 9, 1] {
        assert!(q.try_enqueue(entry(id)).is_ok());
    }
    assert_eq!(take(&mut q).request_id, 5);
    assert!(q.try_enqueue(entry(7)).is_ok());
    assert_eq!(take(&mut q).request_id, 3);
    assert_eq!(take(&mut q).request_id, 9);
    assert_eq!(take(&mut q).request_id, 1);
    assert_eq!(take(&mut q).request_id, 7);
    assert!(matches!(q.dequeue(), Dequeued::Wait));
}

#[test]
fn requeue_puts_entry_at_the_head() {
    let mut q = WorkQueue::new(3);
    assert!(q.try_enqueue(entry(1)).is_ok());
    assert!(q.try_enqueue(entry(2)).is_ok());
    let head = take(&mut q);
    assert!(q.try_enqueue(entry(3)).is_ok());
    assert!(q.requeue_front(head).is_ok());
    assert_eq!(q.len(), 3);
    assert_eq!(take(&mut q).request_id, 1);
    assert_eq!(take(&mut q).request_id, 2);
    assert_eq!(take(&mut q).request_id, 3);
}

#[test]
fn requeue_on_full_queue_hands_entry_back() {
    let mut q = WorkQueue::new(1);
    assert!(q.try_enqueue(entry(1)).is_ok());
    match q.requeue_front(entry(2)) {
        Err(e) => assert_eq!(e.request_id, 2),
        Ok(()) => panic!("a full queue took an entry back"),
    }
    assert_eq!(q.len(), 1);
    assert_eq!(take(&mut q).request_id, 1);
}

#[test]
fn empty_queue_says_wait_then_closed() {
    let mut q = WorkQueue::new(2);
    assert!(!q.is_closed());
    assert!(matches!(q.dequeue(), Dequeued::Wait));
    assert!(q.try_enqueue(entry(4)).is_ok());
    q.close();
    assert!(q.is_closed());
    assert_eq!(take(&mut q).request_id, 4);
    assert!(matches!(q.dequeue(), Dequeued::Closed));
}

#[test]
fn zero_capacity_queue_accepts_nothing() {
    let mut q = WorkQueue::new(0);
    assert!(q.is_full());
    assert!(q.is_empty());
    assert!(q.try_enqueue(entry(1)).is_err());
    assert_eq!(q.len(), 0);
}
