//! The proxy as one value: the admission gate, the work queue, the worker
//! pool and the dispatch rule, owned together and changed together.
//!
//! Every request that is queued carries a ticket that no other queued
//! request carries, and that was issued before the next ticket to be issued.

use crate::admission::admitted_entry;
use crate::admission::decision;
use crate::admission::observed_at;
use crate::admission::window_at;
use crate::admission::Admission;
use crate::admission::AdmissionGate;
use crate::dispatch::after_failure;
use crate::dispatch::first_round;
use crate::dispatch::placed;
use crate::dispatch::pool_after;
use crate::dispatch::queue_after_first_round;
use crate::dispatch::Begin;
use crate::dispatch::Dispatcher;
use crate::dispatch::Forwarded;
use crate::dispatch::Next;
use crate::dispatch::Pending;
use crate::error::ProxyError;
use crate::address::usable_address;
use crate::policy::ProxyPolicy;
use crate::pool::charged;
use crate::pool::deregistered;
use crate::pool::healthy;
use crate::pool::is_due;
use crate::pool::address_of;
use crate::pool::knows;
use crate::pool::probed;
use crate::pool::registered;
use crate::pool::released;
use crate::pool::ProbeOutcome;
use crate::pool::WorkerEntry;
use crate::pool::WorkerPool;
use crate::queue::QueueEntry;
use crate::queue::WorkQueue;
use vstd::prelude::*;

verus! {

/// What a waiting request does next.
#[derive(Clone, Debug, PartialEq, Eq)]
pub enum Step {
    /// Other requests are ahead in the queue; look again later.
    NotYet,
    /// No worker is eligible; wait briefly, then ask again with what is
    /// handed back here, if anything is.
    Wait(Option<Pending>),
    /// Forward the request to the named worker.
    Forward(Forwarded),
    /// The request has used up its rounds.
    Exhausted(QueueEntry),
}

impl Step {
    /// The failure that the step stands for, if any: waiting for a worker
    /// is passing, exhaustion is final.
    pub fn failure(&self) -> (e: Option<ProxyError>)
        ensures
            e == match *self {
                Step::Wait(_) => Some(ProxyError::NoHealthyWorker),
                Step::Exhausted(_) => Some(ProxyError::DispatchExhausted),
                _ => None::<ProxyError>,
            },
    {
        match self {
            Step::Wait(_) => Some(ProxyError::NoHealthyWorker),
            Step::Exhausted(_) => Some(ProxyError::DispatchExhausted),
            _ => None,
        }
    }
}

/// Whether every queued request has a ticket of its own, issued before
/// `next_ticket`.
pub open spec fn tickets_distinct(queue: Seq<QueueEntry>, next_ticket: u64) -> bool {
    &&& forall|i: int| 0 <= i < queue.len() ==> (#[trigger] queue[i]).request_id < next_ticket
    &&& forall|i: int, j: int|
        0 <= i < j < queue.len() ==> (#[trigger] queue[i]).request_id != (
        #[trigger] queue[j]).request_id
}

/// The step for the request with the given ticket, given the queue and the
/// pool. A request that was handed back to wait is placed again; any other
/// request has to be at the head of the queue to get its turn.
pub open spec fn stepped(
    ticket: u64,
    waiting: Option<Pending>,
    queue: Seq<QueueEntry>,
    pool: Seq<WorkerEntry>,
    max_attempts: u32,
) -> Step {
    match waiting {
        Some(p) => match placed(p.entry, p.avoid, pool, max_attempts) {
            Next::Forward(f) => Step::Forward(f),
            Next::Backoff(q) => Step::Wait(Some(q)),
            Next::Exhausted(e) => Step::Exhausted(e),
        },
        None => {
            if queue.len() == 0 || queue[0].request_id != ticket {
                Step::NotYet
            } else {
                match placed(queue[0], None, pool, max_attempts) {
                    Next::Forward(f) => Step::Forward(f),
                    Next::Backoff(_) => Step::Wait(None),
                    Next::Exhausted(e) => Step::Exhausted(e),
                }
            }
        },
    }
}

/// The proxy's state.
#[derive(Clone, Debug)]
pub struct ProxyCore {
    policy: ProxyPolicy,
    gate: AdmissionGate,
    queue: WorkQueue,
    pool: WorkerPool,
    dispatcher: Dispatcher,
}

impl ProxyCore {
    /// The policy that the proxy follows.
    pub closed spec fn spec_policy(&self) -> ProxyPolicy {
        self.policy
    }

    /// The admission state.
    pub closed spec fn spec_gate(&self) -> AdmissionGate {
        self.gate
    }

    /// The work queue.
    pub closed spec fn spec_queue(&self) -> WorkQueue {
        self.queue
    }

    /// The worker pool.
    pub closed spec fn spec_pool(&self) -> WorkerPool {
        self.pool
    }

    /// The dispatch rule.
    pub closed spec fn spec_dispatcher(&self) -> Dispatcher {
        self.dispatcher
    }

    /// The parts fit the policy and each other, and tickets are distinct.
    pub open spec fn wf(&self) -> bool {
        &&& self.spec_queue().wf()
        &&& self.spec_pool().wf()
        &&& self.spec_queue().spec_capacity() == self.spec_policy().max_queue_capacity
        &&& self.spec_gate().spec_limit() == self.spec_policy().max_requests_per_second
        &&& self.spec_pool().spec_threshold() == self.spec_policy().unhealthy_eviction_threshold
        &&& self.spec_dispatcher().spec_max_attempts() == self.spec_policy().max_dispatch_attempts
        &&& tickets_distinct(self.spec_queue()@, self.spec_gate().spec_next_ticket())
    }

    /// A proxy that follows `policy`, with nothing queued and no workers;
    /// its first rate-limit window starts at `now`.
    pub fn new(policy: ProxyPolicy, now: u64) -> (p: Self)
        ensures
            p.wf(),
            p.spec_policy() == policy,
            p.spec_queue()@ == Seq::<QueueEntry>::empty(),
            p.spec_pool()@ == Seq::<WorkerEntry>::empty(),
            p.spec_pool().spec_next_generation() == 0,
            !p.spec_queue().spec_closed(),
            p.spec_gate().spec_next_ticket() == 0,
            p.spec_gate().spec_queue_drops() == 0,
            p.spec_gate().spec_observed() == 0,
            p.spec_gate().spec_window_started_at() == now,
    {
        ProxyCore {
            policy,
            gate: AdmissionGate::new(policy.max_requests_per_second, now),
            queue: WorkQueue::new(policy.max_queue_capacity),
            pool: WorkerPool::new(policy.unhealthy_eviction_threshold),
            dispatcher: Dispatcher::new(policy.max_dispatch_attempts),
        }
    }

    /// The policy that the proxy follows.
    pub fn policy(&self) -> (p: ProxyPolicy)
        ensures
            p == self.spec_policy(),
    {
        self.policy
    }

    /// Number of queued requests.
    pub fn queue_len(&self) -> (n: usize)
        requires
            self.wf(),
        ensures
            n == self.spec_queue()@.len(),
            n <= self.spec_policy().max_queue_capacity,
    {
        self.queue.len()
    }

    /// Number of known workers.
    pub fn worker_count(&self) -> (n: usize)
        ensures
            n == self.spec_pool()@.len(),
    {
        self.pool.count()
    }

    /// Requests dropped so far because the queue was full.
    pub fn queue_drops(&self) -> (n: u64)
        ensures
            n == self.spec_gate().spec_queue_drops(),
    {
        self.gate.queue_drops()
    }

    /// Number of tickets issued so far.
    pub fn tickets_issued(&self) -> (n: u64)
        ensures
            n == self.spec_gate().spec_next_ticket(),
    {
        self.gate.tickets_issued()
    }

    /// Number of worker registrations made so far.
    pub fn registrations(&self) -> (n: u64)
        ensures
            n == self.spec_pool().spec_next_generation(),
    {
        self.pool.next_generation()
    }

    /// Decides on a request that arrives at time `now`: rate limit first,
    /// then the queue. An accepted request is queued under a fresh ticket.
    pub fn submit(&mut self, payload: Vec<u8>, now: u64) -> (r: Admission)
        requires
            old(self).wf(),
            old(self).spec_gate().spec_next_ticket() < u64::MAX,
        ensures
            final(self).wf(),
            final(self).spec_policy() == old(self).spec_policy(),
            final(self).spec_pool() == old(self).spec_pool(),
            final(self).spec_queue().spec_closed() == old(self).spec_queue().spec_closed(),
            final(self).spec_gate().spec_window_started_at() == window_at(
                old(self).spec_gate().spec_window_started_at(),
                now,
            ),
            final(self).spec_gate().spec_observed() == observed_at(
                old(self).spec_gate().spec_window_started_at(),
                old(self).spec_gate().spec_observed(),
                now,
            ),
            r == decision(
                observed_at(
                    old(self).spec_gate().spec_window_started_at(),
                    old(self).spec_gate().spec_observed(),
                    now,
                ),
                old(self).spec_policy().max_requests_per_second,
                old(self).spec_queue()@.len(),
                old(self).spec_policy().max_queue_capacity as nat,
                old(self).spec_gate().spec_next_ticket(),
            ),
            final(self).spec_queue()@ == if r is Accepted {
                old(self).spec_queue()@.push(
                    admitted_entry(old(self).spec_gate().spec_next_ticket(), now, payload),
                )
            } else {
                old(self).spec_queue()@
            },
            final(self).spec_gate().spec_next_ticket() == if r is Accepted {
                (old(self).spec_gate().spec_next_ticket() + 1) as u64
            } else {
                old(self).spec_gate().spec_next_ticket()
            },
            final(self).spec_gate().spec_queue_drops() == if r is RejectedQueueFull {
                crate::admission::count_up(old(self).spec_gate().spec_queue_drops())
            } else {
                old(self).spec_gate().spec_queue_drops()
            },
    {
        self.gate.admit_request(&mut self.queue, payload, now)
    }

    /// Decides what the request with the given ticket does next. A request
    /// that was handed back by an earlier step is passed in as `waiting`.
    ///
    /// A request gets its turn only at the head of the queue. With a worker
    /// found it leaves the queue and is charged to the worker; with none it
    /// stays at the head, or leaves as exhausted once its rounds are spent.
    pub fn step(&mut self, ticket: u64, waiting: Option<Pending>) -> (r: Step)
        requires
            old(self).wf(),
        ensures
            final(self).wf(),
            final(self).spec_policy() == old(self).spec_policy(),
            final(self).spec_gate() == old(self).spec_gate(),
            final(self).spec_queue().spec_closed() == old(self).spec_queue().spec_closed(),
            final(self).spec_pool().spec_next_generation() == old(
                self,
            ).spec_pool().spec_next_generation(),
            r == stepped(
                ticket,
                waiting,
                old(self).spec_queue()@,
                old(self).spec_pool()@,
                old(self).spec_policy().max_dispatch_attempts,
            ),
            final(self).spec_pool()@ == match r {
                Step::Forward(f) => charged(
                    old(self).spec_pool()@,
                    f.worker.address@,
                    f.worker.generation,
                ),
                _ => old(self).spec_pool()@,
            },
            final(self).spec_queue()@ == if waiting is None && !(r is NotYet) {
                queue_after_first_round(
                    old(self).spec_queue()@,
                    old(self).spec_pool()@,
                    old(self).spec_policy().max_dispatch_attempts,
                )
            } else {
                old(self).spec_queue()@
            },
    {
        match waiting {
            Some(pending) => {
                match self.dispatcher.retry(pending, &mut self.pool) {
                    Next::Forward(f) => Step::Forward(f),
                    Next::Backoff(p) => Step::Wait(Some(p)),
                    Next::Exhausted(e) => Step::Exhausted(e),
                }
            },
            None => {
                match self.queue.head_request_id() {
                    Some(head) => {
                        if head != ticket {
                            return Step::NotYet;
                        }
                    },
                    None => {
                        return Step::NotYet;
                    },
                }
                let ghost before = self.queue@;
                let r = match self.dispatcher.begin(&mut self.queue, &mut self.pool) {
                    Begin::Forward(f) => Step::Forward(f),
                    Begin::Backoff => Step::Wait(None),
                    Begin::Exhausted(e) => Step::Exhausted(e),
                    Begin::Idle => Step::NotYet,
                    Begin::Closed => Step::NotYet,
                };
                proof {
                    let after = self.queue@;
                    assert forall|i: int| 0 <= i < after.len() implies (#[trigger] after[i]).request_id
                        < self.gate.spec_next_ticket() by {
                        if after.len() == before.len() {
                            assert(after[i].request_id == before[i].request_id);
                        } else {
                            assert(after[i] == before[i + 1]);
                        }
                    }
                    assert forall|i: int, j: int| 0 <= i < j < after.len() implies (
                    #[trigger] after[i]).request_id != (#[trigger] after[j]).request_id by {
                        if after.len() == before.len() {
                            assert(after[i].request_id == before[i].request_id);
                            assert(after[j].request_id == before[j].request_id);
                        } else {
                            assert(after[i] == before[i + 1]);
                            assert(after[j] == before[j + 1]);
                        }
                    }
                }
                r
            },
        }
    }

    /// Reacts to a transport-level failure of a forwarded request.
    pub fn on_failure(&mut self, f: Forwarded) -> (r: Next)
        requires
            old(self).wf(),
        ensures
            final(self).wf(),
            final(self).spec_policy() == old(self).spec_policy(),
            final(self).spec_gate() == old(self).spec_gate(),
            final(self).spec_queue() == old(self).spec_queue(),
            final(self).spec_pool().spec_next_generation() == old(
                self,
            ).spec_pool().spec_next_generation(),
            r == after_failure(
                f,
                released(old(self).spec_pool()@, f.worker.address@, f.worker.generation),
                old(self).spec_policy().max_dispatch_attempts,
            ),
            final(self).spec_pool()@ == pool_after(
                r,
                released(old(self).spec_pool()@, f.worker.address@, f.worker.generation),
            ),
    {
        self.dispatcher.on_failure(f, &mut self.pool)
    }

    /// Closes a forwarded request that the worker answered.
    pub fn on_success(&mut self, f: Forwarded) -> (entry: QueueEntry)
        requires
            old(self).wf(),
        ensures
            final(self).wf(),
            final(self).spec_policy() == old(self).spec_policy(),
            final(self).spec_gate() == old(self).spec_gate(),
            final(self).spec_queue() == old(self).spec_queue(),
            final(self).spec_pool().spec_next_generation() == old(
                self,
            ).spec_pool().spec_next_generation(),
            entry == f.entry,
            final(self).spec_pool()@ == released(
                old(self).spec_pool()@,
                f.worker.address@,
                f.worker.generation,
            ),
    {
        self.dispatcher.on_success(f, &mut self.pool)
    }

    /// Adds a worker in `Unknown` status; a malformed address is rejected.
    pub fn register(&mut self, address: String) -> (r: Result<usize, ProxyError>)
        requires
            old(self).wf(),
            old(self).spec_pool().spec_next_generation() < u64::MAX,
        ensures
            final(self).wf(),
            final(self).spec_policy() == old(self).spec_policy(),
            final(self).spec_gate() == old(self).spec_gate(),
            final(self).spec_queue() == old(self).spec_queue(),
            !usable_address(address@) ==> {
                &&& final(self).spec_pool()@ == old(self).spec_pool()@
                &&& final(self).spec_pool().spec_next_generation() == old(
                    self,
                ).spec_pool().spec_next_generation()
                &&& r == Err::<usize, ProxyError>(ProxyError::InvalidAddress(address))
            },
            usable_address(address@) ==> {
                &&& final(self).spec_pool()@ == registered(
                    old(self).spec_pool()@,
                    address,
                    old(self).spec_pool().spec_next_generation(),
                )
                &&& final(self).spec_pool().spec_next_generation() == if knows(
                    old(self).spec_pool()@,
                    address@,
                ) {
                    old(self).spec_pool().spec_next_generation()
                } else {
                    (old(self).spec_pool().spec_next_generation() + 1) as u64
                }
                &&& r == Ok::<usize, ProxyError>(final(self).spec_pool()@.len() as usize)
            },
    {
        self.pool.register(address)
    }

    /// Removes a worker, whatever it is doing.
    pub fn deregister(&mut self, address: &String) -> (r: Option<usize>)
        requires
            old(self).wf(),
        ensures
            final(self).wf(),
            final(self).spec_policy() == old(self).spec_policy(),
            final(self).spec_gate() == old(self).spec_gate(),
            final(self).spec_queue() == old(self).spec_queue(),
            final(self).spec_pool().spec_next_generation() == old(
                self,
            ).spec_pool().spec_next_generation(),
            final(self).spec_pool()@ == deregistered(old(self).spec_pool()@, address@),
            r == if knows(old(self).spec_pool()@, address@) {
                Some((old(self).spec_pool()@.len() - 1) as usize)
            } else {
                None::<usize>
            },
    {
        self.pool.deregister(address)
    }

    /// Records the outcome of a probe of a worker at time `now`.
    pub fn record_probe(&mut self, address: &String, outcome: ProbeOutcome, now: u64) -> (known:
        bool)
        requires
            old(self).wf(),
        ensures
            final(self).wf(),
            final(self).spec_policy() == old(self).spec_policy(),
            final(self).spec_gate() == old(self).spec_gate(),
            final(self).spec_queue() == old(self).spec_queue(),
            final(self).spec_pool().spec_next_generation() == old(
                self,
            ).spec_pool().spec_next_generation(),
            final(self).spec_pool()@ == probed(
                old(self).spec_pool()@,
                address@,
                outcome.spec_is_success(),
                now,
                old(self).spec_policy().unhealthy_eviction_threshold,
            ),
            known == knows(old(self).spec_pool()@, address@),
    {
        self.pool.record_probe(address, outcome, now)
    }

    /// The addresses of the workers to probe at time `now`, by the policy's
    /// health-check interval.
    pub fn due_for_probe(&self, now: u64) -> (due: Vec<String>)
        ensures
            due.deep_view() == self.spec_pool()@.filter(
                is_due(now, self.spec_policy().health_check_interval_ms),
            ).map_values(address_of()),
    {
        self.pool.due_for_probe(now, self.policy.health_check_interval_ms)
    }

    /// A point-in-time copy of the healthy workers.
    pub fn healthy_snapshot(&self) -> (snapshot: Vec<WorkerEntry>)
        ensures
            snapshot@ == healthy(self.spec_pool()@),
    {
        self.pool.healthy_snapshot()
    }

    /// Marks the queue as shutting down.
    pub fn close(&mut self)
        requires
            old(self).wf(),
        ensures
            final(self).wf(),
            final(self).spec_policy() == old(self).spec_policy(),
            final(self).spec_gate() == old(self).spec_gate(),
            final(self).spec_pool() == old(self).spec_pool(),
            final(self).spec_queue()@ == old(self).spec_queue()@,
            final(self).spec_queue().spec_closed(),
    {
        self.queue.close();
    }
}

} // verus!
