//! The admission gate: the one place where requests are turned away.
//!
//! Every arriving request is first counted against the rate limit of the
//! current one-second window, and only then offered to the work queue. The
//! gate also keeps the count of requests dropped because the queue was full.

use crate::error::ProxyError;
use crate::queue::enqueued;
use crate::queue::QueueEntry;
use crate::queue::WorkQueue;
use vstd::prelude::*;

verus! {

/// Length of a rate-limit window, in milliseconds.
pub const WINDOW_MS: u64 = 1000;

/// The answer to one arriving request.
#[derive(Clone, Copy, Debug, PartialEq, Eq, Structural)]
pub enum Admission {
    /// The request is queued; the ticket identifies it from now on.
    Accepted(u64),
    /// The queue was at capacity.
    RejectedQueueFull,
    /// The rate limit of the current window was used up.
    RejectedRateLimited,
}

/// Whether time `now` falls into the window that started at `started_at`.
pub open spec fn in_window(started_at: u64, now: u64) -> bool {
    started_at <= now && now - started_at < WINDOW_MS
}

/// The start of the window that an arrival at `now` is counted in.
pub open spec fn window_at(started_at: u64, now: u64) -> u64 {
    if in_window(started_at, now) {
        started_at
    } else {
        now
    }
}

/// A counter after one more event; it stops at the largest value.
pub open spec fn count_up(n: u64) -> u64 {
    if n < u64::MAX {
        (n + 1) as u64
    } else {
        n
    }
}

/// The number of arrivals in the current window, the one at `now` included.
pub open spec fn observed_at(started_at: u64, observed: u64, now: u64) -> u64 {
    if in_window(started_at, now) {
        count_up(observed)
    } else {
        1
    }
}

/// The entry that is created for an accepted request.
pub open spec fn admitted_entry(ticket: u64, now: u64, payload: Vec<u8>) -> QueueEntry {
    QueueEntry { request_id: ticket, enqueued_at: now, attempts: 0, payload }
}

/// The answer to an arrival that is the `observed`-th of its window, given
/// the limit, the state of the queue and the next free ticket.
pub open spec fn decision(observed: u64, limit: u64, queue_len: nat, capacity: nat, ticket: u64) -> Admission {
    if observed > limit {
        Admission::RejectedRateLimited
    } else if queue_len >= capacity {
        Admission::RejectedQueueFull
    } else {
        Admission::Accepted(ticket)
    }
}

impl Admission {
    /// Whether the request was taken into the queue.
    pub fn is_accepted(&self) -> (b: bool)
        ensures
            b == (*self is Accepted),
    {
        match self {
            Admission::Accepted(_) => true,
            _ => false,
        }
    }

    /// The ticket of an accepted request.
    pub fn ticket(&self) -> (t: Option<u64>)
        ensures
            t == match *self {
                Admission::Accepted(ticket) => Some(ticket),
                _ => None::<u64>,
            },
    {
        match self {
            Admission::Accepted(ticket) => Some(*ticket),
            _ => None,
        }
    }

    /// How many times the queue-drop counter is to be raised for this
    /// answer: once for a full queue, never otherwise.
    pub fn queue_drop_increments(&self) -> (n: u64)
        ensures
            n == if *self is RejectedQueueFull {
                1u64
            } else {
                0u64
            },
    {
        match self {
            Admission::RejectedQueueFull => 1,
            _ => 0,
        }
    }

    /// The failure a rejection stands for; none for an accepted request.
    pub fn rejection(&self) -> (e: Option<ProxyError>)
        ensures
            e == match *self {
                Admission::Accepted(_) => None::<ProxyError>,
                Admission::RejectedQueueFull => Some(ProxyError::RejectedQueueFull),
                Admission::RejectedRateLimited => Some(ProxyError::RejectedRateLimited),
            },
            e is Some ==> e->0.spec_is_admission_failure(),
    {
        match self {
            Admission::Accepted(_) => None,
            Admission::RejectedQueueFull => Some(ProxyError::RejectedQueueFull),
            Admission::RejectedRateLimited => Some(ProxyError::RejectedRateLimited),
        }
    }
}

/// Accepts or rejects arriving requests.
#[derive(Clone, Copy, Debug)]
pub struct AdmissionGate {
    limit: u64,
    window_started_at: u64,
    observed: u64,
    next_ticket: u64,
    queue_drops: u64,
}

impl AdmissionGate {
    /// Largest number of arrivals admitted within one window.
    pub closed spec fn spec_limit(&self) -> u64 {
        self.limit
    }

    /// Start of the current window.
    pub closed spec fn spec_window_started_at(&self) -> u64 {
        self.window_started_at
    }

    /// Arrivals counted in the current window.
    pub closed spec fn spec_observed(&self) -> u64 {
        self.observed
    }

    /// The ticket that the next accepted request receives. Every ticket
    /// issued so far is smaller.
    pub closed spec fn spec_next_ticket(&self) -> u64 {
        self.next_ticket
    }

    /// Requests dropped so far because the queue was full.
    pub closed spec fn spec_queue_drops(&self) -> u64 {
        self.queue_drops
    }

    /// A gate that admits at most `max_requests_per_second` arrivals per
    /// window, with its first window starting at `now`.
    pub fn new(max_requests_per_second: u64, now: u64) -> (g: Self)
        ensures
            g.spec_limit() == max_requests_per_second,
            g.spec_window_started_at() == now,
            g.spec_observed() == 0,
            g.spec_next_ticket() == 0,
            g.spec_queue_drops() == 0,
    {
        AdmissionGate {
            limit: max_requests_per_second,
            window_started_at: now,
            observed: 0,
            next_ticket: 0,
            queue_drops: 0,
        }
    }

    /// Decides on a request that arrives at time `now`.
    ///
    /// The arrival is counted in its window first. Over the limit it is
    /// rejected as rate limited, and neither the queue nor the drop counter
    /// is touched. Otherwise it is offered to the queue: a full queue rejects
    /// it and raises the drop counter by one; else a new entry with a fresh
    /// ticket is appended and the ticket returned.
    pub fn admit_request(&mut self, queue: &mut WorkQueue, payload: Vec<u8>, now: u64) -> (r: Admission)
        requires
            old(queue).wf(),
            old(self).spec_next_ticket() < u64::MAX,
        ensures
            final(queue).wf(),
            final(queue).spec_capacity() == old(queue).spec_capacity(),
            final(queue).spec_closed() == old(queue).spec_closed(),
            final(self).spec_limit() == old(self).spec_limit(),
            final(self).spec_window_started_at() == window_at(
                old(self).spec_window_started_at(),
                now,
            ),
            final(self).spec_observed() == observed_at(
                old(self).spec_window_started_at(),
                old(self).spec_observed(),
                now,
            ),
            r == decision(
                final(self).spec_observed(),
                old(self).spec_limit(),
                old(queue)@.len(),
                old(queue).spec_capacity() as nat,
                old(self).spec_next_ticket(),
            ),
            final(queue)@ == if r is Accepted {
                old(queue)@.push(admitted_entry(old(self).spec_next_ticket(), now, payload))
            } else {
                old(queue)@
            },
            final(self).spec_next_ticket() == if r is Accepted {
                (old(self).spec_next_ticket() + 1) as u64
            } else {
                old(self).spec_next_ticket()
            },
            final(self).spec_queue_drops() == if r is RejectedQueueFull {
                count_up(old(self).spec_queue_drops())
            } else {
                old(self).spec_queue_drops()
            },
    {
        if self.window_started_at <= now && now - self.window_started_at < WINDOW_MS {
            if self.observed < u64::MAX {
                self.observed = self.observed + 1;
            }
        } else {
            self.window_started_at = now;
            self.observed = 1;
        }
        if self.observed > self.limit {
            return Admission::RejectedRateLimited;
        }
        if queue.is_full() {
            if self.queue_drops < u64::MAX {
                self.queue_drops = self.queue_drops + 1;
            }
            return Admission::RejectedQueueFull;
        }
        let ticket = self.next_ticket;
        let entry = QueueEntry { request_id: ticket, enqueued_at: now, attempts: 0, payload };
        let _ = queue.try_enqueue(entry);
        self.next_ticket = ticket + 1;
        Admission::Accepted(ticket)
    }

    /// Largest number of arrivals admitted within one window.
    pub fn limit(&self) -> (n: u64)
        ensures
            n == self.spec_limit(),
    {
        self.limit
    }

    /// Requests dropped so far because the queue was full.
    pub fn queue_drops(&self) -> (n: u64)
        ensures
            n == self.spec_queue_drops(),
    {
        self.queue_drops
    }

    /// Number of tickets issued so far, which is also the next ticket.
    pub fn tickets_issued(&self) -> (n: u64)
        ensures
            n == self.spec_next_ticket(),
    {
        self.next_ticket
    }

    /// Arrivals that the current window still admits at time `now`.
    pub fn remaining(&self, now: u64) -> (n: u64)
        ensures
            n == if in_window(self.spec_window_started_at(), now) {
                if self.spec_observed() < self.spec_limit() {
                    (self.spec_limit() - self.spec_observed()) as u64
                } else {
                    0u64
                }
            } else {
                self.spec_limit()
            },
    {
        if self.window_started_at <= now && now - self.window_started_at < WINDOW_MS {
            if self.observed < self.limit {
                self.limit - self.observed
            } else {
                0
            }
        } else {
            self.limit
        }
    }
}

/// Once the limit is reached within a window, every further arrival in that
/// window is rejected as rate limited, whatever the state of the queue.
pub proof fn lemma_limit_reached_rejects(
    started_at: u64,
    observed: u64,
    now: u64,
    limit: u64,
    queue_len: nat,
    capacity: nat,
    ticket: u64,
)
    requires
        in_window(started_at, now),
        observed >= limit,
        limit < u64::MAX,
    ensures
        decision(observed_at(started_at, observed, now), limit, queue_len, capacity, ticket)
            == Admission::RejectedRateLimited,
{
}

/// Below the limit, or in a new window, the rate limit turns nothing away:
/// the answer depends on the queue alone.
pub proof fn lemma_under_limit_reaches_queue(
    started_at: u64,
    observed: u64,
    now: u64,
    limit: u64,
    queue_len: nat,
    capacity: nat,
    ticket: u64,
)
    requires
        limit >= 1,
        !in_window(started_at, now) || observed < limit,
    ensures
        decision(observed_at(started_at, observed, now), limit, queue_len, capacity, ticket) == if queue_len
            >= capacity {
            Admission::RejectedQueueFull
        } else {
            Admission::Accepted(ticket)
        },
{
}

/// The rate limit is checked first: a rate-limited arrival is never
/// reported as a full queue, and it leaves the queue as it was.
pub proof fn lemma_rate_limit_before_queue(
    observed: u64,
    limit: u64,
    queue: Seq<QueueEntry>,
    capacity: nat,
    ticket: u64,
)
    requires
        observed > limit,
    ensures
        decision(observed, limit, queue.len(), capacity, ticket) == Admission::RejectedRateLimited,
{
}

/// An accepted request extends the queue exactly as an enqueue would, so
/// admission can never push the queue past its capacity.
pub proof fn lemma_accept_is_enqueue(
    observed: u64,
    limit: u64,
    queue: Seq<QueueEntry>,
    capacity: nat,
    ticket: u64,
    e: QueueEntry,
)
    requires
        decision(observed, limit, queue.len(), capacity, ticket) is Accepted,
    ensures
        queue.push(e) == enqueued(queue, capacity, e),
        queue.push(e).len() <= capacity,
{
}

} // verus!
