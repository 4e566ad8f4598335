//! Matching queued requests to healthy workers, with bounded retry.
//!
//! The dispatcher never performs I/O. It decides what happens next to one
//! request: forward it to a worker, wait and try again, or give up. The
//! caller forwards, waits and reports back. Each failed forwarding attempt
//! and each round in which no worker was eligible counts against the same
//! per-request bound, so no request is retried forever.

use crate::error::ProxyError;
use crate::pool::charged;
use crate::pool::healthy;
use crate::pool::released;
use crate::pool::HealthStatus;
use crate::pool::WorkerEntry;
use crate::pool::WorkerPool;
use crate::queue::Dequeued;
use crate::queue::QueueEntry;
use crate::queue::WorkQueue;
use vstd::prelude::*;
use vstd::utf8::encode_utf8;

verus! {

/// The registration a request is forwarded to.
#[derive(Clone, Debug, PartialEq, Eq)]
pub struct Assignment {
    /// The worker's address.
    pub address: String,
    /// The generation of the registration that was charged.
    pub generation: u64,
}

/// A request that is being forwarded to a worker.
#[derive(Clone, Debug, PartialEq, Eq)]
pub struct Forwarded {
    /// The request.
    pub entry: QueueEntry,
    /// The worker it was sent to, whose load count includes it.
    pub worker: Assignment,
}

/// A request that waits for another round because no worker was eligible.
#[derive(Clone, Debug, PartialEq, Eq)]
pub struct Pending {
    /// The request.
    pub entry: QueueEntry,
    /// The worker that failed this request last, not to be chosen next.
    pub avoid: Option<String>,
}

/// What happens next to a request.
#[derive(Clone, Debug, PartialEq, Eq)]
pub enum Next {
    /// Forward the request to the named worker.
    Forward(Forwarded),
    /// No worker is eligible: wait briefly, then try again.
    Backoff(Pending),
    /// The bound on rounds is used up: answer the client with a failure.
    Exhausted(QueueEntry),
}

/// What a dispatch loop does at the start of a round.
#[derive(Clone, Debug, PartialEq, Eq)]
pub enum Begin {
    /// Nothing is queued; wait for the queue.
    Idle,
    /// Nothing is queued and the queue is closed; stop.
    Closed,
    /// The oldest request was taken; forward it to the named worker.
    Forward(Forwarded),
    /// No worker is eligible; the oldest request is back at the head of the
    /// queue. Wait briefly, then start another round.
    Backoff,
    /// The oldest request was taken and has used up its rounds.
    Exhausted(QueueEntry),
}

/// Lexicographic order on byte strings.
pub open spec fn lex_less(x: Seq<u8>, y: Seq<u8>) -> bool
    decreases x.len(),
{
    if y.len() == 0 {
        false
    } else if x.len() == 0 {
        true
    } else if x[0] != y[0] {
        x[0] < y[0]
    } else {
        lex_less(x.drop_first(), y.drop_first())
    }
}

/// Whether `a` is preferred to `b`: fewer requests in flight, and among
/// equals the address that comes first in byte order.
pub open spec fn lighter(a: WorkerEntry, b: WorkerEntry) -> bool {
    a.in_flight < b.in_flight || (a.in_flight == b.in_flight && lex_less(
        encode_utf8(a.address@),
        encode_utf8(b.address@),
    ))
}

/// Whether a worker may be chosen: it is healthy and not the one to avoid.
pub open spec fn candidate(w: WorkerEntry, avoid: Option<String>) -> bool {
    w.status == HealthStatus::Healthy && (avoid matches Some(a) ==> w.address@ != a@)
}

/// Whether position `i` holds the worker to choose from `s`: a candidate
/// that no other candidate is preferred to, and the first such.
pub open spec fn is_choice(s: Seq<WorkerEntry>, avoid: Option<String>, i: int) -> bool {
    &&& 0 <= i < s.len()
    &&& candidate(s[i], avoid)
    &&& forall|j: int| 0 <= j < i && candidate(#[trigger] s[j], avoid) ==> lighter(s[i], s[j])
    &&& forall|j: int| i < j < s.len() && candidate(#[trigger] s[j], avoid) ==> !lighter(s[j], s[i])
}

/// The position of the worker to choose from `s`, if there is a candidate.
pub open spec fn choice(s: Seq<WorkerEntry>, avoid: Option<String>) -> Option<int> {
    if exists|i: int| is_choice(s, avoid, i) {
        Some(choose|i: int| is_choice(s, avoid, i))
    } else {
        None
    }
}

/// The attempt count after one more round without success.
pub open spec fn one_more_attempt(attempts: u32) -> u32 {
    if attempts < u32::MAX {
        (attempts + 1) as u32
    } else {
        attempts
    }
}

/// The entry `e` with its attempt count set to `attempts`.
pub open spec fn with_attempts(e: QueueEntry, attempts: u32) -> QueueEntry {
    QueueEntry {
        request_id: e.request_id,
        enqueued_at: e.enqueued_at,
        attempts,
        payload: e.payload,
    }
}

/// The decision for a request that needs a worker, given the pool.
///
/// With a candidate among the healthy workers the request is forwarded to
/// the chosen one. Without, the round counts as spent: the request waits,
/// or is given up once `max_attempts` rounds are spent.
pub open spec fn placed(
    entry: QueueEntry,
    avoid: Option<String>,
    pool: Seq<WorkerEntry>,
    max_attempts: u32,
) -> Next {
    match choice(healthy(pool), avoid) {
        Some(i) => Next::Forward(
            Forwarded {
                entry,
                worker: Assignment {
                    address: healthy(pool)[i].address,
                    generation: healthy(pool)[i].generation,
                },
            },
        ),
        None => {
            let spent = with_attempts(entry, one_more_attempt(entry.attempts));
            if spent.attempts >= max_attempts {
                Next::Exhausted(spent)
            } else {
                Next::Backoff(Pending { entry: spent, avoid })
            }
        },
    }
}

/// The pool after the decision `next` was taken: a forwarded request is
/// charged to its worker, any other decision leaves the pool alone.
pub open spec fn pool_after(next: Next, pool: Seq<WorkerEntry>) -> Seq<WorkerEntry> {
    match next {
        Next::Forward(f) => charged(pool, f.worker.address@, f.worker.generation),
        _ => pool,
    }
}

/// The decision after the forwarding of `f` failed at the transport level.
/// The pool given is the one after the failed worker has been released.
pub open spec fn after_failure(f: Forwarded, pool: Seq<WorkerEntry>, max_attempts: u32) -> Next {
    let spent = with_attempts(f.entry, one_more_attempt(f.entry.attempts));
    if spent.attempts >= max_attempts {
        Next::Exhausted(spent)
    } else {
        placed(spent, Some(f.worker.address), pool, max_attempts)
    }
}

/// The decision at the start of a round, given the queue and the pool.
pub open spec fn first_round(queue: Seq<QueueEntry>, closed: bool, pool: Seq<WorkerEntry>, max_attempts: u32) -> Begin {
    if queue.len() == 0 {
        if closed {
            Begin::Closed
        } else {
            Begin::Idle
        }
    } else {
        match placed(queue[0], None, pool, max_attempts) {
            Next::Forward(f) => Begin::Forward(f),
            Next::Backoff(_) => Begin::Backoff,
            Next::Exhausted(e) => Begin::Exhausted(e),
        }
    }
}

/// The queue after the start of a round: a request that waits stays at the
/// head with one more attempt counted; a request that is forwarded or given
/// up has left the queue.
pub open spec fn queue_after_first_round(
    queue: Seq<QueueEntry>,
    pool: Seq<WorkerEntry>,
    max_attempts: u32,
) -> Seq<QueueEntry> {
    if queue.len() == 0 {
        queue
    } else {
        match placed(queue[0], None, pool, max_attempts) {
            Next::Backoff(p) => seq![p.entry] + queue.drop_first(),
            _ => queue.drop_first(),
        }
    }
}

/// Byte order is irreflexive.
pub proof fn lemma_lex_irreflexive(x: Seq<u8>)
    ensures
        !lex_less(x, x),
    decreases x.len(),
{
    if x.len() > 0 {
        lemma_lex_irreflexive(x.drop_first());
    }
}

/// Byte order is transitive.
pub proof fn lemma_lex_transitive(x: Seq<u8>, y: Seq<u8>, z: Seq<u8>)
    requires
        lex_less(x, y),
        lex_less(y, z),
    ensures
        lex_less(x, z),
    decreases x.len(),
{
    if x.len() > 0 && y.len() > 0 && z.len() > 0 && x[0] == y[0] && y[0] == z[0] {
        lemma_lex_transitive(x.drop_first(), y.drop_first(), z.drop_first());
    }
}

/// Any two byte strings are ordered or equal.
pub proof fn lemma_lex_total(x: Seq<u8>, y: Seq<u8>)
    ensures
        lex_less(x, y) || lex_less(y, x) || x == y,
    decreases x.len(),
{
    if x.len() > 0 && y.len() > 0 && x[0] == y[0] {
        lemma_lex_total(x.drop_first(), y.drop_first());
        if x.drop_first() == y.drop_first() {
            assert(x =~= seq![x[0]] + x.drop_first());
            assert(y =~= seq![y[0]] + y.drop_first());
        }
    } else if x.len() == 0 && y.len() == 0 {
        assert(x =~= y);
    }
}

/// Preference is transitive.
pub proof fn lemma_lighter_transitive(a: WorkerEntry, b: WorkerEntry, c: WorkerEntry)
    requires
        lighter(a, b),
        lighter(b, c),
    ensures
        lighter(a, c),
{
    if a.in_flight == b.in_flight && b.in_flight == c.in_flight {
        lemma_lex_transitive(
            encode_utf8(a.address@),
            encode_utf8(b.address@),
            encode_utf8(c.address@),
        );
    }
}

/// A worker preferred to `b` is preferred to everything that `b` is at
/// least as good as.
pub proof fn lemma_lighter_than_no_better(a: WorkerEntry, b: WorkerEntry, c: WorkerEntry)
    requires
        lighter(a, b),
        !lighter(c, b),
    ensures
        lighter(a, c),
{
    if a.in_flight == b.in_flight && b.in_flight == c.in_flight {
        let x = encode_utf8(a.address@);
        let y = encode_utf8(b.address@);
        let z = encode_utf8(c.address@);
        lemma_lex_total(z, y);
        if lex_less(y, z) {
            lemma_lex_transitive(x, y, z);
        }
    }
}

/// At most one position is the choice, so `choice` names it.
pub proof fn lemma_choice_unique(s: Seq<WorkerEntry>, avoid: Option<String>, i: int, k: int)
    requires
        is_choice(s, avoid, i),
        is_choice(s, avoid, k),
    ensures
        i == k,
{
}

/// The choice is healthy, is not the worker to avoid, and no candidate has
/// fewer requests in flight.
pub proof fn lemma_choice_is_least_loaded(s: Seq<WorkerEntry>, avoid: Option<String>)
    requires
        choice(s, avoid) is Some,
    ensures
        ({
            let i = choice(s, avoid)->0;
            &&& 0 <= i < s.len()
            &&& s[i].status == HealthStatus::Healthy
            &&& avoid matches Some(a) ==> s[i].address@ != a@
            &&& forall|j: int|
                0 <= j < s.len() && candidate(#[trigger] s[j], avoid) ==> s[i].in_flight
                    <= s[j].in_flight
        }),
{
}

/// There is a choice exactly when there is a candidate.
pub proof fn lemma_choice_exists(s: Seq<WorkerEntry>, avoid: Option<String>)
    ensures
        choice(s, avoid) is Some <==> exists|j: int|
            0 <= j < s.len() && candidate(#[trigger] s[j], avoid),
    decreases s.len(),
{
    if exists|j: int| 0 <= j < s.len() && candidate(#[trigger] s[j], avoid) {
        let i = lemma_choice_of_prefix(s, avoid, s.len() as int);
        assert(s.take(s.len() as int) =~= s);
    }
}

/// Every prefix with a candidate has a choice.
proof fn lemma_choice_of_prefix(s: Seq<WorkerEntry>, avoid: Option<String>, n: int) -> (i: int)
    requires
        0 <= n <= s.len(),
        exists|j: int| 0 <= j < n && candidate(#[trigger] s[j], avoid),
    ensures
        is_choice(s.take(n), avoid, i),
    decreases n,
{
    let last = n - 1;
    let t = s.take(n);
    if exists|j: int| 0 <= j < last && candidate(#[trigger] s[j], avoid) {
        let b = lemma_choice_of_prefix(s, avoid, last);
        let p = s.take(last);
        assert(forall|j: int| 0 <= j < last ==> p[j] == t[j]);
        if candidate(s[last], avoid) && lighter(s[last], s[b]) {
            assert forall|j: int| 0 <= j < last && candidate(#[trigger] t[j], avoid) implies lighter(
                t[last],
                t[j],
            ) by {
                assert(candidate(p[j], avoid));
                if j < b {
                    lemma_lighter_transitive(s[last], s[b], s[j]);
                } else if j > b {
                    lemma_lighter_than_no_better(s[last], s[b], s[j]);
                }
            }
            last
        } else {
            assert forall|j: int| 0 <= j < b && candidate(#[trigger] t[j], avoid) implies lighter(
                t[b],
                t[j],
            ) by {
                assert(candidate(p[j], avoid));
            }
            assert forall|j: int| b < j < n && candidate(#[trigger] t[j], avoid) implies !lighter(
                t[j],
                t[b],
            ) by {
                if j < last {
                    assert(candidate(p[j], avoid));
                }
            }
            b
        }
    } else {
        let j = choose|j: int| 0 <= j < n && candidate(#[trigger] s[j], avoid);
        assert(j == last);
        last
    }
}

/// Compares two addresses in byte order.
pub fn address_less(a: &String, b: &String) -> (less: bool)
    ensures
        less == lex_less(encode_utf8(a@), encode_utf8(b@)),
{
    let x = a.as_str().as_bytes();
    let y = b.as_str().as_bytes();
    let mut i: usize = 0;
    assert(x@.skip(0) =~= x@ && y@.skip(0) =~= y@);
    while i < x.len() && i < y.len()
        invariant
            x@ == encode_utf8(a@),
            y@ == encode_utf8(b@),
            i <= x@.len(),
            i <= y@.len(),
            lex_less(x@, y@) == lex_less(x@.skip(i as int), y@.skip(i as int)),
        decreases x@.len() - i,
    {
        assert(x@.skip(i as int).drop_first() =~= x@.skip(i + 1));
        assert(y@.skip(i as int).drop_first() =~= y@.skip(i + 1));
        assert(x@.skip(i as int)[0] == x@[i as int]);
        assert(y@.skip(i as int)[0] == y@[i as int]);
        if x[i] != y[i] {
            return x[i] < y[i];
        }
        i += 1;
    }
    i < y.len()
}

/// Decides whether `a` is preferred to `b`.
pub fn is_lighter(a: &WorkerEntry, b: &WorkerEntry) -> (r: bool)
    ensures
        r == lighter(*a, *b),
{
    a.in_flight < b.in_flight || (a.in_flight == b.in_flight && address_less(
        &a.address,
        &b.address,
    ))
}

/// Decides whether a worker may be chosen.
pub fn is_candidate(w: &WorkerEntry, avoid: &Option<String>) -> (r: bool)
    ensures
        r == candidate(*w, *avoid),
{
    if !w.is_healthy() {
        return false;
    }
    match avoid {
        Some(a) => !(w.address == *a),
        None => true,
    }
}

/// Chooses a worker from a snapshot: the healthy worker, other than the one
/// to avoid, with the fewest requests in flight; among equals the one whose
/// address is first in byte order. Answers `None` exactly when the snapshot
/// holds no candidate.
pub fn select_worker(snapshot: &Vec<WorkerEntry>, avoid: &Option<String>) -> (r: Option<usize>)
    ensures
        match r {
            Some(i) => choice(snapshot@, *avoid) == Some(i as int),
            None => choice(snapshot@, *avoid) is None,
        },
        r is None <==> forall|j: int|
            0 <= j < snapshot@.len() ==> !candidate(#[trigger] snapshot@[j], *avoid),
{
    let n = snapshot.len();
    let mut best: Option<usize> = None;
    let mut i: usize = 0;
    while i < n
        invariant
            n == snapshot@.len(),
            i <= n,
            match best {
                Some(b) => is_choice(snapshot@.take(i as int), *avoid, b as int),
                None => forall|j: int| 0 <= j < i ==> !candidate(#[trigger] snapshot@[j], *avoid),
            },
        decreases n - i,
    {
        let ghost p = snapshot@.take(i as int);
        let ghost t = snapshot@.take(i + 1);
        assert(forall|j: int| 0 <= j < i ==> p[j] == t[j]);
        if is_candidate(&snapshot[i], avoid) {
            match best {
                Some(b) => {
                    if is_lighter(&snapshot[i], &snapshot[b]) {
                        proof {
                            assert forall|j: int|
                                0 <= j < i && candidate(#[trigger] t[j], *avoid) implies lighter(
                                t[i as int],
                                t[j],
                            ) by {
                                assert(candidate(p[j], *avoid));
                                if j < b {
                                    lemma_lighter_transitive(t[i as int], t[b as int], t[j]);
                                } else if j > b {
                                    lemma_lighter_than_no_better(t[i as int], t[b as int], t[j]);
                                }
                            }
                        }
                        best = Some(i);
                    } else {
                        proof {
                            assert forall|j: int|
                                0 <= j < b && candidate(#[trigger] t[j], *avoid) implies lighter(
                                t[b as int],
                                t[j],
                            ) by {
                                assert(candidate(p[j], *avoid));
                            }
                            assert forall|j: int|
                                b < j < i + 1 && candidate(
                                    #[trigger] t[j],
                                    *avoid,
                                ) implies !lighter(t[j], t[b as int]) by {
                                if j < i {
                                    assert(candidate(p[j], *avoid));
                                }
                            }
                        }
                    }
                },
                None => {
                    assert(is_choice(t, *avoid, i as int));
                    best = Some(i);
                },
            }
        } else {
            proof {
                match best {
                    Some(b) => {
                        assert forall|j: int|
                            0 <= j < b && candidate(#[trigger] t[j], *avoid) implies lighter(
                            t[b as int],
                            t[j],
                        ) by {
                            assert(candidate(p[j], *avoid));
                        }
                        assert forall|j: int|
                            b < j < i + 1 && candidate(#[trigger] t[j], *avoid) implies !lighter(
                            t[j],
                            t[b as int],
                        ) by {
                            if j < i {
                                assert(candidate(p[j], *avoid));
                            }
                        }
                    },
                    None => {},
                }
            }
        }
        i += 1;
    }
    proof {
        assert(snapshot@.take(n as int) =~= snapshot@);
        match best {
            Some(b) => {
                let c = choose|k: int| is_choice(snapshot@, *avoid, k);
                lemma_choice_unique(snapshot@, *avoid, b as int, c);
            },
            None => {
                assert forall|k: int| !is_choice(snapshot@, *avoid, k) by {
                    if 0 <= k < snapshot@.len() {
                        assert(!candidate(snapshot@[k], *avoid));
                    }
                }
            },
        }
    }
    best
}

/// The failure that a decision stands for: waiting means that no worker is
/// healthy, which is passing; exhaustion is final and is what the client is
/// told. A forward is no failure.
pub open spec fn failure_of(n: Next) -> Option<ProxyError> {
    match n {
        Next::Forward(_) => None,
        Next::Backoff(_) => Some(ProxyError::NoHealthyWorker),
        Next::Exhausted(_) => Some(ProxyError::DispatchExhausted),
    }
}

impl Next {
    /// The failure that the decision stands for, if any.
    pub fn failure(&self) -> (e: Option<ProxyError>)
        ensures
            e == failure_of(*self),
            e is Some && *self is Backoff ==> e->0.spec_is_internal(),
            e is Some && *self is Exhausted ==> !e->0.spec_is_internal(),
    {
        match self {
            Next::Forward(_) => None,
            Next::Backoff(_) => Some(ProxyError::NoHealthyWorker),
            Next::Exhausted(_) => Some(ProxyError::DispatchExhausted),
        }
    }
}

impl Begin {
    /// The failure that the start of a round stands for, if any.
    pub fn failure(&self) -> (e: Option<ProxyError>)
        ensures
            e == match *self {
                Begin::Backoff => Some(ProxyError::NoHealthyWorker),
                Begin::Exhausted(_) => Some(ProxyError::DispatchExhausted),
                _ => None::<ProxyError>,
            },
    {
        match self {
            Begin::Backoff => Some(ProxyError::NoHealthyWorker),
            Begin::Exhausted(_) => Some(ProxyError::DispatchExhausted),
            _ => None,
        }
    }
}

/// The decision maker of one dispatch loop.
#[derive(Clone, Copy, Debug)]
pub struct Dispatcher {
    max_attempts: u32,
}

impl Dispatcher {
    /// Rounds that may be spent on one request before it is given up.
    pub closed spec fn spec_max_attempts(&self) -> u32 {
        self.max_attempts
    }

    /// A dispatcher that gives a request up once `max_attempts` rounds are
    /// spent on it.
    pub fn new(max_attempts: u32) -> (d: Self)
        ensures
            d.spec_max_attempts() == max_attempts,
    {
        Dispatcher { max_attempts }
    }

    /// Rounds that may be spent on one request before it is given up.
    pub fn max_attempts(&self) -> (n: u32)
        ensures
            n == self.spec_max_attempts(),
    {
        self.max_attempts
    }

    /// Finds a worker for a request from a fresh snapshot of the pool, and
    /// charges the request to the worker chosen.
    fn place(&self, entry: QueueEntry, avoid: Option<String>, pool: &mut WorkerPool) -> (r: Next)
        requires
            old(pool).wf(),
        ensures
            final(pool).wf(),
            r == placed(entry, avoid, old(pool)@, self.spec_max_attempts()),
            final(pool)@ == pool_after(r, old(pool)@),
            final(pool).spec_next_generation() == old(pool).spec_next_generation(),
            final(pool).spec_threshold() == old(pool).spec_threshold(),
    {
        let snapshot = pool.healthy_snapshot();
        match select_worker(&snapshot, &avoid) {
            Some(i) => {
                let address = snapshot[i].address.clone();
                let generation = snapshot[i].generation;
                pool.charge(&address, generation);
                Next::Forward(Forwarded { entry, worker: Assignment { address, generation } })
            },
            None => {
                let mut entry = entry;
                entry.attempts = if entry.attempts < u32::MAX {
                    entry.attempts + 1
                } else {
                    entry.attempts
                };
                if entry.attempts >= self.max_attempts {
                    Next::Exhausted(entry)
                } else {
                    Next::Backoff(Pending { entry, avoid })
                }
            },
        }
    }

    /// Starts a round: takes the oldest request and finds it a worker.
    ///
    /// With no worker eligible the request goes back to the head of the
    /// queue, ahead of everything that arrived after it, with the round
    /// counted; once its rounds are used up it is handed out as exhausted
    /// instead.
    pub fn begin(&self, queue: &mut WorkQueue, pool: &mut WorkerPool) -> (r: Begin)
        requires
            old(queue).wf(),
            old(pool).wf(),
        ensures
            final(queue).wf(),
            final(pool).wf(),
            r == first_round(
                old(queue)@,
                old(queue).spec_closed(),
                old(pool)@,
                self.spec_max_attempts(),
            ),
            final(queue)@ == queue_after_first_round(
                old(queue)@,
                old(pool)@,
                self.spec_max_attempts(),
            ),
            final(pool)@ == match r {
                Begin::Forward(f) => charged(old(pool)@, f.worker.address@, f.worker.generation),
                _ => old(pool)@,
            },
            final(queue).spec_capacity() == old(queue).spec_capacity(),
            final(queue).spec_closed() == old(queue).spec_closed(),
            final(pool).spec_next_generation() == old(pool).spec_next_generation(),
            final(pool).spec_threshold() == old(pool).spec_threshold(),
    {
        proof {
            old(queue).lemma_wf_bounds();
        }
        match queue.dequeue() {
            Dequeued::Wait => Begin::Idle,
            Dequeued::Closed => Begin::Closed,
            Dequeued::Entry(entry) => {
                match self.place(entry, None, pool) {
                    Next::Forward(f) => Begin::Forward(f),
                    Next::Backoff(p) => {
                        let _ = queue.requeue_front(p.entry);
                        Begin::Backoff
                    },
                    Next::Exhausted(e) => Begin::Exhausted(e),
                }
            },
        }
    }

    /// Reacts to a transport-level failure of a forwarded request: the
    /// worker is released, the attempt is counted, and the request is given
    /// up or placed with a different worker.
    pub fn on_failure(&self, f: Forwarded, pool: &mut WorkerPool) -> (r: Next)
        requires
            old(pool).wf(),
        ensures
            final(pool).wf(),
            r == after_failure(
                f,
                released(old(pool)@, f.worker.address@, f.worker.generation),
                self.spec_max_attempts(),
            ),
            final(pool)@ == pool_after(
                r,
                released(old(pool)@, f.worker.address@, f.worker.generation),
            ),
            final(pool).spec_next_generation() == old(pool).spec_next_generation(),
            final(pool).spec_threshold() == old(pool).spec_threshold(),
    {
        let Forwarded { entry, worker } = f;
        pool.release(&worker.address, worker.generation);
        let mut entry = entry;
        entry.attempts = if entry.attempts < u32::MAX {
            entry.attempts + 1
        } else {
            entry.attempts
        };
        if entry.attempts >= self.max_attempts {
            Next::Exhausted(entry)
        } else {
            self.place(entry, Some(worker.address), pool)
        }
    }

    /// Tries again to place a request that has waited.
    pub fn retry(&self, p: Pending, pool: &mut WorkerPool) -> (r: Next)
        requires
            old(pool).wf(),
        ensures
            final(pool).wf(),
            r == placed(p.entry, p.avoid, old(pool)@, self.spec_max_attempts()),
            final(pool)@ == pool_after(r, old(pool)@),
            final(pool).spec_next_generation() == old(pool).spec_next_generation(),
            final(pool).spec_threshold() == old(pool).spec_threshold(),
    {
        let Pending { entry, avoid } = p;
        self.place(entry, avoid, pool)
    }

    /// Closes a forwarded request that the worker answered: the worker is
    /// released and the request handed back for disposal.
    pub fn on_success(&self, f: Forwarded, pool: &mut WorkerPool) -> (entry: QueueEntry)
        requires
            old(pool).wf(),
        ensures
            final(pool).wf(),
            entry == f.entry,
            final(pool)@ == released(old(pool)@, f.worker.address@, f.worker.generation),
            final(pool).spec_next_generation() == old(pool).spec_next_generation(),
            final(pool).spec_threshold() == old(pool).spec_threshold(),
    {
        let Forwarded { entry, worker } = f;
        pool.release(&worker.address, worker.generation);
        entry
    }
}

/// Rounds that a request with `attempts` spent may still use.
pub open spec fn rounds_left(attempts: u32, max_attempts: u32) -> nat {
    if attempts < max_attempts {
        (max_attempts - attempts) as nat
    } else {
        0
    }
}

/// An upper bound on the decisions still to come for a request, short of
/// success.
pub open spec fn budget(n: Next, max_attempts: u32) -> nat {
    match n {
        Next::Forward(f) => 2 * rounds_left(f.entry.attempts, max_attempts),
        Next::Backoff(p) => 2 * rounds_left(p.entry.attempts, max_attempts) + 1,
        Next::Exhausted(_) => 0,
    }
}

/// The request a decision is about.
pub open spec fn request_of(n: Next) -> QueueEntry {
    match n {
        Next::Forward(f) => f.entry,
        Next::Backoff(p) => p.entry,
        Next::Exhausted(e) => e,
    }
}

/// The decision that follows `n` when the request does not succeed: a
/// forwarded request fails, a waiting request is tried again. `pool` is the
/// pool as it is then.
pub open spec fn unsuccessful_step(n: Next, pool: Seq<WorkerEntry>, max_attempts: u32) -> Next {
    match n {
        Next::Forward(f) => after_failure(f, pool, max_attempts),
        Next::Backoff(p) => placed(p.entry, p.avoid, pool, max_attempts),
        Next::Exhausted(e) => Next::Exhausted(e),
    }
}

/// The decision reached from `n` after one unsuccessful step for each pool
/// in `pools`, in order.
pub open spec fn unsuccessful_run(n: Next, pools: Seq<Seq<WorkerEntry>>, max_attempts: u32) -> Next
    decreases pools.len(),
{
    if pools.len() == 0 {
        n
    } else {
        unsuccessful_step(
            unsuccessful_run(n, pools.drop_last(), max_attempts),
            pools.last(),
            max_attempts,
        )
    }
}

/// Every unsuccessful step either gives the request up or lowers its
/// budget, whatever the pool looks like; the request itself is never
/// altered beyond its attempt count.
pub proof fn lemma_step_spends_budget(n: Next, pool: Seq<WorkerEntry>, max_attempts: u32)
    requires
        !(n is Exhausted),
    ensures
        ({
            let m = unsuccessful_step(n, pool, max_attempts);
            &&& m is Exhausted || budget(m, max_attempts) < budget(n, max_attempts)
            &&& request_of(m).request_id == request_of(n).request_id
            &&& request_of(m).enqueued_at == request_of(n).enqueued_at
            &&& request_of(m).payload == request_of(n).payload
            &&& request_of(m).attempts >= request_of(n).attempts
        }),
{
}

/// A request is never retried without end: however membership and health
/// change in between, after more unsuccessful steps than its budget the
/// request has been given up.
pub proof fn lemma_dispatch_is_bounded(n: Next, pools: Seq<Seq<WorkerEntry>>, max_attempts: u32)
    ensures
        ({
            let m = unsuccessful_run(n, pools, max_attempts);
            &&& m is Exhausted || budget(m, max_attempts) + pools.len() <= budget(n, max_attempts)
            &&& pools.len() > budget(n, max_attempts) ==> m is Exhausted
            &&& request_of(m).request_id == request_of(n).request_id
            &&& request_of(m).payload == request_of(n).payload
        }),
    decreases pools.len(),
{
    if pools.len() > 0 {
        let before = unsuccessful_run(n, pools.drop_last(), max_attempts);
        lemma_dispatch_is_bounded(n, pools.drop_last(), max_attempts);
        if !(before is Exhausted) {
            lemma_step_spends_budget(before, pools.last(), max_attempts);
        }
    }
}

/// A forwarded request is always sent to a worker that the pool holds as
/// healthy at the time of the decision.
pub proof fn lemma_forward_targets_healthy(
    entry: QueueEntry,
    avoid: Option<String>,
    pool: Seq<WorkerEntry>,
    max_attempts: u32,
)
    requires
        placed(entry, avoid, pool, max_attempts) is Forward,
    ensures
        ({
            let f = placed(entry, avoid, pool, max_attempts)->Forward_0;
            &&& crate::pool::eligible(pool, f.worker.address@)
            &&& avoid matches Some(a) ==> f.worker.address@ != a@
            &&& f.entry == entry
        }),
{
    let h = healthy(pool);
    let i = choice(h, avoid)->0;
    assert(h[i].address@ == h[i].address@);
    crate::pool::lemma_snapshot_members(pool, h[i].address@);
}

} // verus!
