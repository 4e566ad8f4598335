//! The bounded FIFO holding area for admitted requests.
//!
//! The queue is modelled as the sequence of its entries, oldest first. Every
//! operation is described by a function on that sequence, and the laws at the
//! end of the module are stated over runs of those functions.

use std::collections::VecDeque;
use vstd::prelude::*;

verus! {

/// One admitted request that has not been handed to a worker yet.
#[derive(Clone, Debug, PartialEq, Eq)]
pub struct QueueEntry {
    /// Identifier issued at admission; never reused by its issuer.
    pub request_id: u64,
    /// Time of admission, in milliseconds on the caller's clock.
    pub enqueued_at: u64,
    /// Dispatch rounds already spent on this request without success.
    pub attempts: u32,
    /// The request body, opaque to the proxy.
    pub payload: Vec<u8>,
}

/// What a consumer learns when it asks the queue for work.
#[derive(Clone, Debug, PartialEq, Eq)]
pub enum Dequeued {
    /// The oldest entry, now owned by the consumer.
    Entry(QueueEntry),
    /// Nothing is queued; the consumer should wait for a producer.
    Wait,
    /// Nothing is queued and the queue has been closed for shutdown.
    Closed,
}

/// Contents after an enqueue attempt on a queue of capacity `cap`.
pub open spec fn enqueued(s: Seq<QueueEntry>, cap: nat, e: QueueEntry) -> Seq<QueueEntry> {
    if s.len() < cap {
        s.push(e)
    } else {
        s
    }
}

/// Contents after a dequeue attempt.
pub open spec fn dequeued(s: Seq<QueueEntry>) -> Seq<QueueEntry> {
    if s.len() > 0 {
        s.drop_first()
    } else {
        s
    }
}

/// Contents after putting `e` back at the head of a queue of capacity `cap`.
pub open spec fn requeued(s: Seq<QueueEntry>, cap: nat, e: QueueEntry) -> Seq<QueueEntry> {
    if s.len() < cap {
        seq![e] + s
    } else {
        s
    }
}

/// A bounded first-in, first-out queue of [`QueueEntry`].
#[derive(Clone, Debug)]
pub struct WorkQueue {
    entries: VecDeque<QueueEntry>,
    capacity: usize,
    closed: bool,
}

impl View for WorkQueue {
    type V = Seq<QueueEntry>;

    /// The queued entries, oldest first.
    closed spec fn view(&self) -> Seq<QueueEntry> {
        self.entries@
    }
}

impl WorkQueue {
    /// The queue holds no more entries than its capacity allows.
    pub closed spec fn wf(&self) -> bool {
        self.entries@.len() <= self.capacity
    }

    /// A well-formed queue is within its capacity.
    pub proof fn lemma_wf_bounds(&self)
        requires
            self.wf(),
        ensures
            self@.len() <= self.spec_capacity(),
    {
    }

    /// The fixed bound on the number of queued entries.
    pub closed spec fn spec_capacity(&self) -> usize {
        self.capacity
    }

    /// Whether the queue has been closed for shutdown.
    pub closed spec fn spec_closed(&self) -> bool {
        self.closed
    }

    /// An empty, open queue that will hold at most `capacity` entries.
    pub fn new(capacity: usize) -> (q: Self)
        ensures
            q.wf(),
            q@ == Seq::<QueueEntry>::empty(),
            q.spec_capacity() == capacity,
            !q.spec_closed(),
    {
        WorkQueue { entries: VecDeque::new(), capacity, closed: false }
    }

    /// Appends `entry` unless the queue is full; never waits. A full queue is
    /// left untouched and the entry is handed back.
    pub fn try_enqueue(&mut self, entry: QueueEntry) -> (r: Result<(), QueueEntry>)
        requires
            old(self).wf(),
        ensures
            final(self).wf(),
            final(self)@ == enqueued(old(self)@, old(self).spec_capacity() as nat, entry),
            final(self)@.len() <= final(self).spec_capacity(),
            final(self).spec_capacity() == old(self).spec_capacity(),
            final(self).spec_closed() == old(self).spec_closed(),
            old(self)@.len() < old(self).spec_capacity() ==> r == Ok::<(), QueueEntry>(()),
            old(self)@.len() >= old(self).spec_capacity() ==> r == Err::<(), QueueEntry>(entry),
    {
        if self.entries.len() < self.capacity {
            self.entries.push_back(entry);
            Ok(())
        } else {
            Err(entry)
        }
    }

    /// Hands out the oldest entry if there is one. An empty queue answers
    /// `Wait` while open and `Closed` once closed; entries queued before the
    /// close are still handed out.
    pub fn dequeue(&mut self) -> (r: Dequeued)
        requires
            old(self).wf(),
        ensures
            final(self).wf(),
            final(self)@ == dequeued(old(self)@),
            final(self).spec_capacity() == old(self).spec_capacity(),
            final(self).spec_closed() == old(self).spec_closed(),
            old(self)@.len() > 0 ==> r == Dequeued::Entry(old(self)@[0]),
            old(self)@.len() == 0 && !old(self).spec_closed() ==> r == Dequeued::Wait,
            old(self)@.len() == 0 && old(self).spec_closed() ==> r == Dequeued::Closed,
    {
        match self.entries.pop_front() {
            Some(entry) => {
                assert(self.entries@ =~= old(self).entries@.drop_first());
                Dequeued::Entry(entry)
            },
            None => {
                if self.closed {
                    Dequeued::Closed
                } else {
                    Dequeued::Wait
                }
            },
        }
    }

    /// Puts `entry` back at the head, ahead of everything still waiting. A
    /// full queue is left untouched and the entry is handed back.
    pub fn requeue_front(&mut self, entry: QueueEntry) -> (r: Result<(), QueueEntry>)
        requires
            old(self).wf(),
        ensures
            final(self).wf(),
            final(self)@ == requeued(old(self)@, old(self).spec_capacity() as nat, entry),
            final(self)@.len() <= final(self).spec_capacity(),
            final(self).spec_capacity() == old(self).spec_capacity(),
            final(self).spec_closed() == old(self).spec_closed(),
            old(self)@.len() < old(self).spec_capacity() ==> r == Ok::<(), QueueEntry>(()),
            old(self)@.len() >= old(self).spec_capacity() ==> r == Err::<(), QueueEntry>(entry),
    {
        if self.entries.len() < self.capacity {
            self.entries.push_front(entry);
            assert(self.entries@ =~= seq![entry] + old(self).entries@);
            Ok(())
        } else {
            Err(entry)
        }
    }

    /// Marks the queue as shutting down. Queued entries stay.
    pub fn close(&mut self)
        requires
            old(self).wf(),
        ensures
            final(self).wf(),
            final(self)@ == old(self)@,
            final(self).spec_capacity() == old(self).spec_capacity(),
            final(self).spec_closed(),
    {
        self.closed = true;
    }

    /// Number of queued entries.
    pub fn len(&self) -> (n: usize)
        requires
            self.wf(),
        ensures
            n == self@.len(),
            n <= self.spec_capacity(),
    {
        self.entries.len()
    }

    /// The fixed bound on the number of queued entries.
    pub fn capacity(&self) -> (n: usize)
        ensures
            n == self.spec_capacity(),
    {
        self.capacity
    }

    /// The identifier of the oldest entry, which is the next to be handed
    /// out, if anything is queued.
    pub fn head_request_id(&self) -> (r: Option<u64>)
        ensures
            r == if self@.len() > 0 {
                Some(self@[0].request_id)
            } else {
                None::<u64>
            },
    {
        if self.entries.len() > 0 {
            Some(self.entries[0].request_id)
        } else {
            None
        }
    }

    /// Whether nothing is queued.
    pub fn is_empty(&self) -> (b: bool)
        ensures
            b == (self@.len() == 0),
    {
        self.entries.len() == 0
    }

    /// Whether an enqueue attempt would be turned away.
    pub fn is_full(&self) -> (b: bool)
        ensures
            b == (self@.len() >= self.spec_capacity()),
    {
        self.entries.len() >= self.capacity
    }

    /// Whether the queue has been closed for shutdown.
    pub fn is_closed(&self) -> (b: bool)
        ensures
            b == self.spec_closed(),
    {
        self.closed
    }
}

/// One step of a producer or consumer, for reasoning about runs.
pub enum QueueOp {
    /// A producer offers an entry.
    Enqueue(QueueEntry),
    /// A consumer asks for the oldest entry.
    Dequeue,
}

/// The state of a run: what is queued, what was accepted so far and what was
/// handed out so far, each in order of occurrence.
pub struct QueueRun {
    pub queue: Seq<QueueEntry>,
    pub accepted: Seq<QueueEntry>,
    pub served: Seq<QueueEntry>,
}

/// The effect of one step on a run.
pub open spec fn queue_step(r: QueueRun, cap: nat, op: QueueOp) -> QueueRun {
    match op {
        QueueOp::Enqueue(e) => QueueRun {
            queue: enqueued(r.queue, cap, e),
            accepted: if r.queue.len() < cap {
                r.accepted.push(e)
            } else {
                r.accepted
            },
            served: r.served,
        },
        QueueOp::Dequeue => QueueRun {
            queue: dequeued(r.queue),
            accepted: r.accepted,
            served: if r.queue.len() > 0 {
                r.served.push(r.queue[0])
            } else {
                r.served
            },
        },
    }
}

/// The run that results from performing `ops` in order, starting from `r`.
pub open spec fn queue_run(r: QueueRun, cap: nat, ops: Seq<QueueOp>) -> QueueRun
    decreases ops.len(),
{
    if ops.len() == 0 {
        r
    } else {
        queue_step(queue_run(r, cap, ops.drop_last()), cap, ops.last())
    }
}

/// The run that starts from the contents `s` with nothing accepted or served.
pub open spec fn fresh_run(s: Seq<QueueEntry>) -> QueueRun {
    QueueRun { queue: s, accepted: Seq::empty(), served: Seq::empty() }
}

/// However producers and consumers interleave, a queue that starts within its
/// capacity stays within it.
pub proof fn lemma_capacity_never_exceeded(s: Seq<QueueEntry>, cap: nat, ops: Seq<QueueOp>)
    requires
        s.len() <= cap,
    ensures
        queue_run(fresh_run(s), cap, ops).queue.len() <= cap,
    decreases ops.len(),
{
    if ops.len() > 0 {
        lemma_capacity_never_exceeded(s, cap, ops.drop_last());
    }
}

/// An enqueue attempt on a full queue changes nothing: the queued entries,
/// their order and the accepted history all stay as they were.
pub proof fn lemma_enqueue_on_full_is_noop(r: QueueRun, cap: nat, e: QueueEntry)
    requires
        r.queue.len() >= cap,
    ensures
        queue_step(r, cap, QueueOp::Enqueue(e)) == r,
{
}

/// First in, first out: in a run without re-queueing, the entries handed out
/// followed by the entries still queued are exactly the initial entries
/// followed by the accepted ones, in the order in which they were accepted.
pub proof fn lemma_fifo_order(s: Seq<QueueEntry>, cap: nat, ops: Seq<QueueOp>)
    ensures
        ({
            let r = queue_run(fresh_run(s), cap, ops);
            r.served + r.queue == s + r.accepted
        }),
    decreases ops.len(),
{
    let r = queue_run(fresh_run(s), cap, ops);
    if ops.len() == 0 {
        assert(r.served + r.queue =~= s + r.accepted);
    } else {
        let p = queue_run(fresh_run(s), cap, ops.drop_last());
        lemma_fifo_order(s, cap, ops.drop_last());
        assert(p.served + p.queue == s + p.accepted);
        match ops.last() {
            QueueOp::Enqueue(e) => {
                if p.queue.len() < cap {
                    assert(r.served + r.queue =~= (p.served + p.queue).push(e));
                    assert(s + r.accepted =~= (s + p.accepted).push(e));
                }
            },
            QueueOp::Dequeue => {
                if p.queue.len() > 0 {
                    assert(r.served + r.queue =~= p.served + p.queue);
                }
            },
        }
    }
}

/// Starting from an empty queue, what consumers have received is always a
/// prefix of what producers had accepted, in the same order.
pub proof fn lemma_served_is_prefix_of_accepted(cap: nat, ops: Seq<QueueOp>)
    ensures
        ({
            let r = queue_run(fresh_run(Seq::empty()), cap, ops);
            &&& r.served.len() <= r.accepted.len()
            &&& r.served == r.accepted.take(r.served.len() as int)
        }),
{
    let r = queue_run(fresh_run(Seq::empty()), cap, ops);
    lemma_fifo_order(Seq::empty(), cap, ops);
    assert(Seq::<QueueEntry>::empty() + r.accepted =~= r.accepted);
    assert((r.served + r.queue).len() == r.served.len() + r.queue.len());
    assert(r.served =~= (r.served + r.queue).take(r.served.len() as int));
}

} // verus!
