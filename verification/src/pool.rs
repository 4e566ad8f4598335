//! Worker membership and health.
//!
//! The pool is modelled as the sequence of its workers in order of
//! registration. Each operation is described by a function on that sequence;
//! the laws at the end of the module are stated over those functions.
//!
//! Eviction policy: a worker that reaches the failure threshold becomes
//! `Unhealthy` and is retained, so that later probes can bring it back. It
//! leaves the pool only through `deregister`.

use crate::address::address_is_usable;
use crate::address::usable_address;
use crate::error::ProxyError;
use vstd::prelude::*;

verus! {

/// What the pool currently believes about a worker.
#[derive(Clone, Copy, Debug, PartialEq, Eq, Structural)]
pub enum HealthStatus {
    /// The latest probe succeeded; the worker may be given work.
    Healthy,
    /// The failure threshold was reached; the worker is given no work.
    Unhealthy,
    /// No probe has succeeded since registration.
    Unknown,
}

/// How one liveness probe of a worker ended.
#[derive(Clone, Copy, Debug, PartialEq, Eq, Structural)]
pub enum ProbeOutcome {
    /// The worker answered that it is serving.
    Serving,
    /// The worker answered that it is not serving.
    NotServing,
    /// No connection could be established.
    ConnectionFailed,
    /// The connection or the answer took longer than allowed.
    TimedOut,
}

/// A known backend worker.
#[derive(Clone, Debug, PartialEq, Eq)]
pub struct WorkerEntry {
    /// Network address, the worker's identity within the pool.
    pub address: String,
    /// Current health.
    pub status: HealthStatus,
    /// Time of the latest probe, if any, in milliseconds on the caller's clock.
    pub last_checked_at: Option<u64>,
    /// Requests currently forwarded to the worker and not yet answered.
    pub in_flight: u64,
    /// Probes failed in a row since the latest success.
    pub failures: u32,
    /// Distinguishes this registration from earlier ones of the same address.
    pub generation: u64,
}

/// A worker as it is right after registration.
pub open spec fn fresh_worker(address: String, generation: u64) -> WorkerEntry {
    WorkerEntry {
        address,
        status: HealthStatus::Unknown,
        last_checked_at: None,
        in_flight: 0,
        failures: 0,
        generation,
    }
}

/// Whether some worker in `s` has the address `a`.
pub open spec fn knows(s: Seq<WorkerEntry>, a: Seq<char>) -> bool {
    exists|i: int| 0 <= i < s.len() && #[trigger] s[i].address@ == a
}

/// Whether no two workers in `s` share an address.
pub open spec fn distinct_addresses(s: Seq<WorkerEntry>) -> bool {
    forall|i: int, j: int| 0 <= i < j < s.len() ==> #[trigger] s[i].address@ != #[trigger] s[j].address@
}

/// Whether some worker in `s` has the address `a` and is healthy.
pub open spec fn eligible(s: Seq<WorkerEntry>, a: Seq<char>) -> bool {
    exists|i: int|
        0 <= i < s.len() && #[trigger] s[i].address@ == a && s[i].status == HealthStatus::Healthy
}

/// The pool after registering `address`: a known address changes nothing, a
/// new one is appended with the given generation.
pub open spec fn registered(s: Seq<WorkerEntry>, address: String, generation: u64) -> Seq<
    WorkerEntry,
> {
    if knows(s, address@) {
        s
    } else {
        s.push(fresh_worker(address, generation))
    }
}

/// The test for a worker whose address is not `a`.
pub open spec fn not_at(a: Seq<char>) -> spec_fn(WorkerEntry) -> bool {
    |w: WorkerEntry| w.address@ != a
}

/// The test for a healthy worker.
pub open spec fn is_healthy_worker() -> spec_fn(WorkerEntry) -> bool {
    |w: WorkerEntry| w.status == HealthStatus::Healthy
}

/// The test for a worker that should be probed at time `now`.
pub open spec fn is_due(now: u64, interval: u64) -> spec_fn(WorkerEntry) -> bool {
    |w: WorkerEntry| probe_due(w, now, interval)
}

/// The map from a worker to its address.
pub open spec fn address_of() -> spec_fn(WorkerEntry) -> Seq<char> {
    |w: WorkerEntry| w.address@
}

/// The pool after removing the address `a`.
pub open spec fn deregistered(s: Seq<WorkerEntry>, a: Seq<char>) -> Seq<WorkerEntry> {
    s.filter(not_at(a))
}

/// The failure count after one more failed probe.
pub open spec fn one_more_failure(failures: u32) -> u32 {
    if failures < u32::MAX {
        (failures + 1) as u32
    } else {
        failures
    }
}

/// A worker after a probe at time `now`. Success clears the failure count and
/// makes the worker healthy. Failure counts up, and makes the worker unhealthy
/// once the count reaches `threshold`.
pub open spec fn after_probe(w: WorkerEntry, success: bool, now: u64, threshold: u32) -> WorkerEntry {
    if success {
        WorkerEntry {
            address: w.address,
            status: HealthStatus::Healthy,
            last_checked_at: Some(now),
            in_flight: w.in_flight,
            failures: 0,
            generation: w.generation,
        }
    } else {
        WorkerEntry {
            address: w.address,
            status: if one_more_failure(w.failures) >= threshold {
                HealthStatus::Unhealthy
            } else {
                w.status
            },
            last_checked_at: Some(now),
            in_flight: w.in_flight,
            failures: one_more_failure(w.failures),
            generation: w.generation,
        }
    }
}

/// The pool after a probe of the address `a`.
pub open spec fn probed(s: Seq<WorkerEntry>, a: Seq<char>, success: bool, now: u64, threshold: u32) -> Seq<
    WorkerEntry,
> {
    s.map_values(
        |w: WorkerEntry|
            if w.address@ == a {
                after_probe(w, success, now, threshold)
            } else {
                w
            },
    )
}

/// A worker with its load changed to `in_flight`.
pub open spec fn with_load(w: WorkerEntry, in_flight: u64) -> WorkerEntry {
    WorkerEntry {
        address: w.address,
        status: w.status,
        last_checked_at: w.last_checked_at,
        in_flight,
        failures: w.failures,
        generation: w.generation,
    }
}

/// The load after one more request is forwarded.
pub open spec fn load_up(in_flight: u64) -> u64 {
    if in_flight < u64::MAX {
        (in_flight + 1) as u64
    } else {
        in_flight
    }
}

/// The load after one forwarded request ends.
pub open spec fn load_down(in_flight: u64) -> u64 {
    if in_flight > 0 {
        (in_flight - 1) as u64
    } else {
        in_flight
    }
}

/// The pool after charging one request to the registration `(a, generation)`.
pub open spec fn charged(s: Seq<WorkerEntry>, a: Seq<char>, generation: u64) -> Seq<WorkerEntry> {
    s.map_values(
        |w: WorkerEntry|
            if w.address@ == a && w.generation == generation {
                with_load(w, load_up(w.in_flight))
            } else {
                w
            },
    )
}

/// The pool after taking one request off the registration `(a, generation)`.
pub open spec fn released(s: Seq<WorkerEntry>, a: Seq<char>, generation: u64) -> Seq<WorkerEntry> {
    s.map_values(
        |w: WorkerEntry|
            if w.address@ == a && w.generation == generation {
                with_load(w, load_down(w.in_flight))
            } else {
                w
            },
    )
}

/// The healthy workers of `s`, in pool order.
pub open spec fn healthy(s: Seq<WorkerEntry>) -> Seq<WorkerEntry> {
    s.filter(is_healthy_worker())
}

/// Whether a worker should be probed at time `now`, given the probe interval.
pub open spec fn probe_due(w: WorkerEntry, now: u64, interval: u64) -> bool {
    match w.last_checked_at {
        None => true,
        Some(t) => now >= t && now - t >= interval,
    }
}

/// The status number by which a worker answers that it is serving.
pub const SERVING_STATUS: i32 = 1;

/// How a probe ended, given how far it got: whether the connection was
/// established, whether the time ran out after that, and the status number
/// that the worker answered with, if it answered. A call that failed
/// without an answer counts as a failed connection.
pub open spec fn probe_outcome(connected: bool, timed_out: bool, status: Option<i32>) -> ProbeOutcome {
    if !connected {
        ProbeOutcome::ConnectionFailed
    } else if timed_out {
        ProbeOutcome::TimedOut
    } else {
        match status {
            None => ProbeOutcome::ConnectionFailed,
            Some(s) => if s == SERVING_STATUS {
                ProbeOutcome::Serving
            } else {
                ProbeOutcome::NotServing
            },
        }
    }
}

impl ProbeOutcome {
    /// Decides how a probe ended from how far it got.
    pub fn classify(connected: bool, timed_out: bool, status: Option<i32>) -> (outcome: ProbeOutcome)
        ensures
            outcome == probe_outcome(connected, timed_out, status),
    {
        if !connected {
            return ProbeOutcome::ConnectionFailed;
        }
        if timed_out {
            return ProbeOutcome::TimedOut;
        }
        match status {
            None => ProbeOutcome::ConnectionFailed,
            Some(s) => {
                if s == SERVING_STATUS {
                    ProbeOutcome::Serving
                } else {
                    ProbeOutcome::NotServing
                }
            },
        }
    }

    /// Only a serving answer counts as success.
    pub open spec fn spec_is_success(&self) -> bool {
        *self == ProbeOutcome::Serving
    }

    /// Whether the probe counts as a success.
    pub fn is_success(&self) -> (b: bool)
        ensures
            b == self.spec_is_success(),
    {
        match self {
            ProbeOutcome::Serving => true,
            _ => false,
        }
    }

    /// The internal failure a probe of `address` stands for, if any: a probe
    /// that could not connect in time is a connection failure.
    pub fn connection_error(&self, address: String) -> (e: Option<ProxyError>)
        ensures
            (*self == ProbeOutcome::ConnectionFailed || *self == ProbeOutcome::TimedOut) ==> e
                == Some(ProxyError::ConnectionFailed(address)),
            (*self == ProbeOutcome::Serving || *self == ProbeOutcome::NotServing) ==> e
                == None::<ProxyError>,
    {
        match self {
            ProbeOutcome::ConnectionFailed => Some(ProxyError::ConnectionFailed(address)),
            ProbeOutcome::TimedOut => Some(ProxyError::ConnectionFailed(address)),
            _ => None,
        }
    }
}

impl WorkerEntry {
    /// A copy of the entry.
    pub fn duplicate(&self) -> (c: WorkerEntry)
        ensures
            c == *self,
    {
        WorkerEntry {
            address: self.address.clone(),
            status: self.status,
            last_checked_at: self.last_checked_at,
            in_flight: self.in_flight,
            failures: self.failures,
            generation: self.generation,
        }
    }

    /// Whether the worker may be given work.
    pub fn is_healthy(&self) -> (b: bool)
        ensures
            b == (self.status == HealthStatus::Healthy),
    {
        match self.status {
            HealthStatus::Healthy => true,
            _ => false,
        }
    }

    /// Whether the worker should be probed at time `now`.
    pub fn is_probe_due(&self, now: u64, interval: u64) -> (b: bool)
        ensures
            b == probe_due(*self, now, interval),
    {
        match self.last_checked_at {
            None => true,
            Some(t) => now >= t && now - t >= interval,
        }
    }
}

/// The authoritative record of workers and their health.
#[derive(Clone, Debug)]
pub struct WorkerPool {
    workers: Vec<WorkerEntry>,
    next_generation: u64,
    eviction_threshold: u32,
}

impl View for WorkerPool {
    type V = Seq<WorkerEntry>;

    /// The workers in order of registration.
    closed spec fn view(&self) -> Seq<WorkerEntry> {
        self.workers@
    }
}

impl WorkerPool {
    /// Generation that the next new registration receives.
    pub closed spec fn spec_next_generation(&self) -> u64 {
        self.next_generation
    }

    /// Consecutive failed probes after which a worker becomes unhealthy.
    pub closed spec fn spec_threshold(&self) -> u32 {
        self.eviction_threshold
    }

    /// No address occurs twice, and every generation in use was issued
    /// before the next one to be issued.
    pub open spec fn wf(&self) -> bool {
        &&& distinct_addresses(self@)
        &&& forall|i: int|
            0 <= i < self@.len() ==> (#[trigger] self@[i]).generation < self.spec_next_generation()
    }

    /// An empty pool with the given eviction threshold.
    pub fn new(eviction_threshold: u32) -> (p: Self)
        ensures
            p.wf(),
            p@ == Seq::<WorkerEntry>::empty(),
            p.spec_threshold() == eviction_threshold,
            p.spec_next_generation() == 0,
    {
        WorkerPool { workers: Vec::new(), next_generation: 0, eviction_threshold }
    }

    /// Generation that the next new registration receives; also the number
    /// of registrations made so far.
    pub fn next_generation(&self) -> (g: u64)
        ensures
            g == self.spec_next_generation(),
    {
        self.next_generation
    }

    /// Consecutive failed probes after which a worker becomes unhealthy.
    pub fn eviction_threshold(&self) -> (t: u32)
        ensures
            t == self.spec_threshold(),
    {
        self.eviction_threshold
    }

    /// Number of known workers, whatever their health.
    pub fn count(&self) -> (n: usize)
        ensures
            n == self@.len(),
    {
        self.workers.len()
    }

    /// Position of the worker with the given address, if it is known.
    pub fn find(&self, address: &String) -> (r: Option<usize>)
        ensures
            match r {
                Some(i) => i < self@.len() && self@[i as int].address@ == address@ && forall|j: int|
                    0 <= j < i ==> (#[trigger] self@[j]).address@ != address@,
                None => !knows(self@, address@),
            },
    {
        let n = self.workers.len();
        let mut i: usize = 0;
        while i < n
            invariant
                n == self.workers@.len(),
                i <= n,
                forall|j: int| 0 <= j < i ==> (#[trigger] self.workers@[j]).address@ != address@,
            decreases n - i,
        {
            if self.workers[i].address == *address {
                return Some(i);
            }
            i += 1;
        }
        None
    }

    /// A copy of the worker with the given address, if it is known.
    pub fn get(&self, address: &String) -> (r: Option<WorkerEntry>)
        requires
            self.wf(),
        ensures
            r is Some <==> knows(self@, address@),
            r is Some ==> self@.contains(r->0) && r->0.address@ == address@,
    {
        match self.find(address) {
            Some(i) => {
                let c = self.workers[i].duplicate();
                assert(self@[i as int] == c);
                Some(c)
            },
            None => None,
        }
    }

    /// Adds a worker in `Unknown` status, given the verdict on its address.
    /// A rejected address leaves the pool untouched. An address already known
    /// is not added again. On success the answer is the number of workers.
    pub fn register_validated(&mut self, address: String, usable: bool) -> (r: Result<
        usize,
        ProxyError,
    >)
        requires
            old(self).wf(),
            old(self).spec_next_generation() < u64::MAX,
        ensures
            final(self).wf(),
            final(self).spec_threshold() == old(self).spec_threshold(),
            !usable ==> {
                &&& final(self)@ == old(self)@
                &&& final(self).spec_next_generation() == old(self).spec_next_generation()
                &&& r == Err::<usize, ProxyError>(ProxyError::InvalidAddress(address))
            },
            usable ==> {
                &&& final(self)@ == registered(
                    old(self)@,
                    address,
                    old(self).spec_next_generation(),
                )
                &&& final(self).spec_next_generation() == if knows(old(self)@, address@) {
                    old(self).spec_next_generation()
                } else {
                    (old(self).spec_next_generation() + 1) as u64
                }
                &&& r == Ok::<usize, ProxyError>(final(self)@.len() as usize)
            },
    {
        if !usable {
            return Err(ProxyError::InvalidAddress(address));
        }
        match self.find(&address) {
            Some(_) => {},
            None => {
                let generation = self.next_generation;
                self.workers.push(
                    WorkerEntry {
                        address,
                        status: HealthStatus::Unknown,
                        last_checked_at: None,
                        in_flight: 0,
                        failures: 0,
                        generation,
                    },
                );
                self.next_generation = generation + 1;
            },
        }
        Ok(self.workers.len())
    }

    /// Adds a worker in `Unknown` status. A malformed address is rejected
    /// here, before the worker could enter the health-check rounds.
    pub fn register(&mut self, address: String) -> (r: Result<usize, ProxyError>)
        requires
            old(self).wf(),
            old(self).spec_next_generation() < u64::MAX,
        ensures
            final(self).wf(),
            final(self).spec_threshold() == old(self).spec_threshold(),
            !usable_address(address@) ==> {
                &&& final(self)@ == old(self)@
                &&& final(self).spec_next_generation() == old(self).spec_next_generation()
                &&& r == Err::<usize, ProxyError>(ProxyError::InvalidAddress(address))
            },
            usable_address(address@) ==> {
                &&& final(self)@ == registered(
                    old(self)@,
                    address,
                    old(self).spec_next_generation(),
                )
                &&& final(self).spec_next_generation() == if knows(old(self)@, address@) {
                    old(self).spec_next_generation()
                } else {
                    (old(self).spec_next_generation() + 1) as u64
                }
                &&& r == Ok::<usize, ProxyError>(final(self)@.len() as usize)
            },
    {
        let usable = address_is_usable(&address);
        self.register_validated(address, usable)
    }

    /// Removes the worker with the given address, whatever it is doing. The
    /// answer is the number of workers left, or `None` if the address was
    /// not known.
    pub fn deregister(&mut self, address: &String) -> (r: Option<usize>)
        requires
            old(self).wf(),
        ensures
            final(self).wf(),
            final(self)@ == deregistered(old(self)@, address@),
            final(self).spec_next_generation() == old(self).spec_next_generation(),
            final(self).spec_threshold() == old(self).spec_threshold(),
            !knows(final(self)@, address@),
            r == if knows(old(self)@, address@) {
                Some((old(self)@.len() - 1) as usize)
            } else {
                None::<usize>
            },
    {
        let ghost pred = not_at(address@);
        match self.find(address) {
            Some(i) => {
                proof {
                    lemma_filter_drops_the_one(self.workers@, pred, i as int);
                }
                self.workers.remove(i);
                Some(self.workers.len())
            },
            None => {
                proof {
                    lemma_filter_keeps_all(self.workers@, pred);
                }
                None
            },
        }
    }

    /// Records the outcome of a probe of the given worker at time `now`.
    /// The answer says whether the address was known.
    pub fn record_probe(&mut self, address: &String, outcome: ProbeOutcome, now: u64) -> (known:
        bool)
        requires
            old(self).wf(),
        ensures
            final(self).wf(),
            final(self)@ == probed(
                old(self)@,
                address@,
                outcome.spec_is_success(),
                now,
                old(self).spec_threshold(),
            ),
            final(self).spec_next_generation() == old(self).spec_next_generation(),
            final(self).spec_threshold() == old(self).spec_threshold(),
            known == knows(old(self)@, address@),
    {
        let threshold = self.eviction_threshold;
        match self.find(address) {
            Some(i) => {
                let w = &self.workers[i];
                let updated = if outcome.is_success() {
                    WorkerEntry {
                        address: w.address.clone(),
                        status: HealthStatus::Healthy,
                        last_checked_at: Some(now),
                        in_flight: w.in_flight,
                        failures: 0,
                        generation: w.generation,
                    }
                } else {
                    let failures = if w.failures < u32::MAX {
                        w.failures + 1
                    } else {
                        w.failures
                    };
                    WorkerEntry {
                        address: w.address.clone(),
                        status: if failures >= threshold {
                            HealthStatus::Unhealthy
                        } else {
                            w.status
                        },
                        last_checked_at: Some(now),
                        in_flight: w.in_flight,
                        failures,
                        generation: w.generation,
                    }
                };
                self.workers.set(i, updated);
                assert(self.workers@ =~= probed(
                    old(self)@,
                    address@,
                    outcome.spec_is_success(),
                    now,
                    threshold,
                ));
                true
            },
            None => {
                assert(self.workers@ =~= probed(
                    old(self)@,
                    address@,
                    outcome.spec_is_success(),
                    now,
                    threshold,
                ));
                false
            },
        }
    }

    /// Counts one more forwarded request against the given registration.
    /// A registration that is gone, or was replaced, is left alone; the
    /// answer says whether the count was applied.
    pub fn charge(&mut self, address: &String, generation: u64) -> (applied: bool)
        requires
            old(self).wf(),
        ensures
            final(self).wf(),
            final(self)@ == charged(old(self)@, address@, generation),
            final(self).spec_next_generation() == old(self).spec_next_generation(),
            final(self).spec_threshold() == old(self).spec_threshold(),
            applied == exists|i: int|
                0 <= i < old(self)@.len() && #[trigger] old(self)@[i].address@ == address@ && old(
                    self,
                )@[i].generation == generation,
    {
        match self.find(address) {
            Some(i) => {
                let w = &self.workers[i];
                if w.generation == generation {
                    let updated = WorkerEntry {
                        address: w.address.clone(),
                        status: w.status,
                        last_checked_at: w.last_checked_at,
                        in_flight: if w.in_flight < u64::MAX {
                            w.in_flight + 1
                        } else {
                            w.in_flight
                        },
                        failures: w.failures,
                        generation: w.generation,
                    };
                    self.workers.set(i, updated);
                    assert(self.workers@ =~= charged(old(self)@, address@, generation));
                    true
                } else {
                    assert(self.workers@ =~= charged(old(self)@, address@, generation));
                    false
                }
            },
            None => {
                assert(self.workers@ =~= charged(old(self)@, address@, generation));
                false
            },
        }
    }

    /// Takes one forwarded request off the given registration. A
    /// registration that is gone, or was replaced, is left alone; the answer
    /// says whether the count was applied.
    pub fn release(&mut self, address: &String, generation: u64) -> (applied: bool)
        requires
            old(self).wf(),
        ensures
            final(self).wf(),
            final(self)@ == released(old(self)@, address@, generation),
            final(self).spec_next_generation() == old(self).spec_next_generation(),
            final(self).spec_threshold() == old(self).spec_threshold(),
            applied == exists|i: int|
                0 <= i < old(self)@.len() && #[trigger] old(self)@[i].address@ == address@ && old(
                    self,
                )@[i].generation == generation,
    {
        match self.find(address) {
            Some(i) => {
                let w = &self.workers[i];
                if w.generation == generation {
                    let updated = WorkerEntry {
                        address: w.address.clone(),
                        status: w.status,
                        last_checked_at: w.last_checked_at,
                        in_flight: if w.in_flight > 0 {
                            w.in_flight - 1
                        } else {
                            w.in_flight
                        },
                        failures: w.failures,
                        generation: w.generation,
                    };
                    self.workers.set(i, updated);
                    assert(self.workers@ =~= released(old(self)@, address@, generation));
                    true
                } else {
                    assert(self.workers@ =~= released(old(self)@, address@, generation));
                    false
                }
            },
            None => {
                assert(self.workers@ =~= released(old(self)@, address@, generation));
                false
            },
        }
    }

    /// A point-in-time copy of the healthy workers, in pool order. Later
    /// changes to the pool do not show in it.
    pub fn healthy_snapshot(&self) -> (snapshot: Vec<WorkerEntry>)
        ensures
            snapshot@ == healthy(self@),
    {
        let ghost pred = is_healthy_worker();
        let mut snapshot: Vec<WorkerEntry> = Vec::new();
        let n = self.workers.len();
        let mut i: usize = 0;
        proof {
            assert(self.workers@.take(0) =~= Seq::<WorkerEntry>::empty());
            lemma_filter_keeps_all(Seq::<WorkerEntry>::empty(), pred);
        }
        while i < n
            invariant
                n == self.workers@.len(),
                i <= n,
                pred == is_healthy_worker(),
                snapshot@ == self.workers@.take(i as int).filter(pred),
            decreases n - i,
        {
            proof {
                assert(self.workers@.take(i + 1) =~= self.workers@.take(i as int).push(
                    self.workers@[i as int],
                ));
                self.workers@.take(i as int).lemma_filter_push(self.workers@[i as int], pred);
            }
            if self.workers[i].is_healthy() {
                let c = self.workers[i].duplicate();
                snapshot.push(c);
            }
            i += 1;
        }
        proof {
            assert(self.workers@.take(n as int) =~= self.workers@);
        }
        snapshot
    }

    /// The addresses of the workers that should be probed at time `now`, in
    /// pool order: those never probed and those last probed at least
    /// `interval` earlier.
    pub fn due_for_probe(&self, now: u64, interval: u64) -> (due: Vec<String>)
        ensures
            due.deep_view() == self@.filter(is_due(now, interval)).map_values(address_of()),
    {
        let ghost pred = is_due(now, interval);
        let ghost name = address_of();
        let mut due: Vec<String> = Vec::new();
        let n = self.workers.len();
        let mut i: usize = 0;
        proof {
            assert(self.workers@.take(0) =~= Seq::<WorkerEntry>::empty());
            lemma_filter_keeps_all(Seq::<WorkerEntry>::empty(), pred);
            assert(due.deep_view() =~= Seq::<WorkerEntry>::empty().filter(pred).map_values(name));
        }
        while i < n
            invariant
                n == self.workers@.len(),
                i <= n,
                pred == is_due(now, interval),
                name == address_of(),
                due.deep_view() == self.workers@.take(i as int).filter(pred).map_values(name),
            decreases n - i,
        {
            let ghost before = due.deep_view();
            proof {
                assert(self.workers@.take(i + 1) =~= self.workers@.take(i as int).push(
                    self.workers@[i as int],
                ));
                self.workers@.take(i as int).lemma_filter_push(self.workers@[i as int], pred);
            }
            if self.workers[i].is_probe_due(now, interval) {
                let a = self.workers[i].address.clone();
                due.push(a);
                assert(due.deep_view() =~= before.push(self.workers@[i as int].address@));
                assert(due.deep_view() =~= self.workers@.take(i + 1).filter(pred).map_values(name));
            }
            i += 1;
        }
        proof {
            assert(self.workers@.take(n as int) =~= self.workers@);
        }
        due
    }
}

/// A filter that every element passes changes nothing.
pub proof fn lemma_filter_keeps_all<A>(s: Seq<A>, pred: spec_fn(A) -> bool)
    requires
        forall|i: int| 0 <= i < s.len() ==> pred(#[trigger] s[i]),
    ensures
        s.filter(pred) == s,
    decreases s.len(),
{
    reveal(Seq::filter);
    if s.len() > 0 {
        lemma_filter_keeps_all(s.drop_last(), pred);
        assert(s.drop_last().push(s.last()) =~= s);
    }
}

/// A filter that exactly one position fails removes that position.
pub proof fn lemma_filter_drops_the_one<A>(s: Seq<A>, pred: spec_fn(A) -> bool, k: int)
    requires
        0 <= k < s.len(),
        !pred(s[k]),
        forall|i: int| 0 <= i < s.len() && i != k ==> pred(#[trigger] s[i]),
    ensures
        s.filter(pred) == s.remove(k),
    decreases s.len(),
{
    reveal(Seq::filter);
    if k == s.len() - 1 {
        lemma_filter_keeps_all(s.drop_last(), pred);
        assert(s.remove(k) =~= s.drop_last());
    } else {
        lemma_filter_drops_the_one(s.drop_last(), pred, k);
        assert(s.remove(k) =~= s.drop_last().remove(k).push(s.last()));
    }
}

/// One change to the pool, for reasoning about histories.
pub enum PoolOp {
    /// Registration of an address, with the generation it would receive.
    Register(String, u64),
    /// Removal of an address.
    Deregister(Seq<char>),
    /// A probe of an address at a time, with its success.
    Probe(Seq<char>, bool, u64),
    /// One more request forwarded to a registration.
    Charge(Seq<char>, u64),
    /// One forwarded request to a registration ended.
    Release(Seq<char>, u64),
}

/// Whether `op` is a successful probe of the address `a`.
pub open spec fn revives(op: PoolOp, a: Seq<char>) -> bool {
    op matches PoolOp::Probe(b, success, _) && b == a && success
}

/// The pool after one change.
pub open spec fn pool_step(s: Seq<WorkerEntry>, threshold: u32, op: PoolOp) -> Seq<WorkerEntry> {
    match op {
        PoolOp::Register(address, generation) => registered(s, address, generation),
        PoolOp::Deregister(a) => deregistered(s, a),
        PoolOp::Probe(a, success, now) => probed(s, a, success, now, threshold),
        PoolOp::Charge(a, generation) => charged(s, a, generation),
        PoolOp::Release(a, generation) => released(s, a, generation),
    }
}

/// The pool after the changes `ops`, in order.
pub open spec fn pool_run(s: Seq<WorkerEntry>, threshold: u32, ops: Seq<PoolOp>) -> Seq<WorkerEntry>
    decreases ops.len(),
{
    if ops.len() == 0 {
        s
    } else {
        pool_step(pool_run(s, threshold, ops.drop_last()), threshold, ops.last())
    }
}

/// The healthy snapshot holds exactly the healthy workers: an address occurs
/// in it if and only if the pool has a healthy worker of that address.
pub proof fn lemma_snapshot_members(s: Seq<WorkerEntry>, a: Seq<char>)
    ensures
        eligible(s, a) <==> knows(healthy(s), a),
        forall|i: int|
            0 <= i < healthy(s).len() ==> (#[trigger] healthy(s)[i]).status
                == HealthStatus::Healthy,
{
    let pred = is_healthy_worker();
    let h = healthy(s);
    assert forall|i: int| 0 <= i < h.len() implies (#[trigger] h[i]).status
        == HealthStatus::Healthy by {
        s.lemma_filter_pred(pred, i);
    }
    if eligible(s, a) {
        let i = choose|i: int|
            0 <= i < s.len() && #[trigger] s[i].address@ == a && s[i].status
                == HealthStatus::Healthy;
        s.lemma_filter_contains(pred, i);
        let j = choose|j: int| 0 <= j < h.len() && h[j] == s[i];
        assert(h[j].address@ == a);
    }
    if knows(h, a) {
        let j = choose|j: int| 0 <= j < h.len() && #[trigger] h[j].address@ == a;
        s.lemma_filter_pred(pred, j);
        assert(h.contains(h[j]));
        s.lemma_filter_contains_rev(pred, h[j]);
        let i = choose|i: int| 0 <= i < s.len() && s[i] == h[j];
        assert(s[i].address@ == a);
    }
}

/// No single change other than a successful probe of `a` makes `a` eligible.
pub proof fn lemma_step_keeps_out(s: Seq<WorkerEntry>, threshold: u32, op: PoolOp, a: Seq<char>)
    requires
        !eligible(s, a),
        !revives(op, a),
    ensures
        !eligible(pool_step(s, threshold, op), a),
{
    let t = pool_step(s, threshold, op);
    if eligible(t, a) {
        let i = choose|i: int|
            0 <= i < t.len() && #[trigger] t[i].address@ == a && t[i].status
                == HealthStatus::Healthy;
        match op {
            PoolOp::Register(address, generation) => {
                if i < s.len() {
                    assert(s[i].address@ == a);
                }
            },
            PoolOp::Deregister(b) => {
                let pred = not_at(b);
                assert(t.contains(t[i]));
                s.lemma_filter_contains_rev(pred, t[i]);
                let k = choose|k: int| 0 <= k < s.len() && s[k] == t[i];
                assert(s[k].address@ == a);
            },
            PoolOp::Probe(b, success, now) => {
                assert(s[i].address@ == a);
            },
            PoolOp::Charge(b, generation) => {
                assert(s[i].address@ == a);
            },
            PoolOp::Release(b, generation) => {
                assert(s[i].address@ == a);
            },
        }
    }
}

/// A worker that is not healthy, whether unhealthy, unknown or absent, stays
/// out of every healthy snapshot until a probe of it succeeds, whatever else
/// happens to the pool in between.
pub proof fn lemma_unhealthy_stays_out(
    s: Seq<WorkerEntry>,
    threshold: u32,
    ops: Seq<PoolOp>,
    a: Seq<char>,
)
    requires
        !eligible(s, a),
        forall|k: int| 0 <= k < ops.len() ==> !revives(#[trigger] ops[k], a),
    ensures
        !eligible(pool_run(s, threshold, ops), a),
        !knows(healthy(pool_run(s, threshold, ops)), a),
    decreases ops.len(),
{
    if ops.len() > 0 {
        let before = ops.drop_last();
        assert forall|k: int| 0 <= k < before.len() implies !revives(#[trigger] before[k], a) by {
            assert(before[k] == ops[k]);
        }
        lemma_unhealthy_stays_out(s, threshold, before, a);
        lemma_step_keeps_out(pool_run(s, threshold, before), threshold, ops.last(), a);
    }
    lemma_snapshot_members(pool_run(s, threshold, ops), a);
}

/// The failed probe that brings the failure count to the threshold makes the
/// worker unhealthy, and with that ineligible.
pub proof fn lemma_eviction(s: Seq<WorkerEntry>, a: Seq<char>, now: u64, threshold: u32)
    requires
        forall|i: int|
            0 <= i < s.len() && #[trigger] s[i].address@ == a ==> one_more_failure(s[i].failures)
                >= threshold,
    ensures
        !eligible(probed(s, a, false, now, threshold), a),
        forall|i: int|
            0 <= i < s.len() && #[trigger] s[i].address@ == a ==> probed(
                s,
                a,
                false,
                now,
                threshold,
            )[i].status == HealthStatus::Unhealthy,
{
    let t = probed(s, a, false, now, threshold);
    if eligible(t, a) {
        let i = choose|i: int|
            0 <= i < t.len() && #[trigger] t[i].address@ == a && t[i].status
                == HealthStatus::Healthy;
        assert(s[i].address@ == a);
    }
}

/// A successful probe of a known worker makes it eligible again, with its
/// failure count cleared.
pub proof fn lemma_recovery(s: Seq<WorkerEntry>, a: Seq<char>, now: u64, threshold: u32)
    requires
        knows(s, a),
    ensures
        eligible(probed(s, a, true, now, threshold), a),
        knows(healthy(probed(s, a, true, now, threshold)), a),
        forall|i: int|
            0 <= i < s.len() && #[trigger] s[i].address@ == a ==> probed(
                s,
                a,
                true,
                now,
                threshold,
            )[i].failures == 0,
{
    let t = probed(s, a, true, now, threshold);
    let i = choose|i: int| 0 <= i < s.len() && #[trigger] s[i].address@ == a;
    assert(t[i].address@ == a && t[i].status == HealthStatus::Healthy);
    lemma_snapshot_members(t, a);
}

/// Once an address is deregistered, neither the pool nor any healthy
/// snapshot of it holds that address.
pub proof fn lemma_deregistered_is_gone(s: Seq<WorkerEntry>, a: Seq<char>)
    ensures
        !knows(deregistered(s, a), a),
        !knows(healthy(deregistered(s, a)), a),
{
    let pred = not_at(a);
    let t = deregistered(s, a);
    if knows(t, a) {
        let i = choose|i: int| 0 <= i < t.len() && #[trigger] t[i].address@ == a;
        s.lemma_filter_pred(pred, i);
    }
    lemma_snapshot_members(t, a);
}

/// Registering an address that is already known changes nothing, so
/// registering twice is the same as registering once.
pub proof fn lemma_register_idempotent(
    s: Seq<WorkerEntry>,
    first: String,
    again: String,
    g1: u64,
    g2: u64,
)
    requires
        first@ == again@,
    ensures
        registered(registered(s, first, g1), again, g2) == registered(s, first, g1),
        knows(registered(s, first, g1), first@),
        registered(s, first, g1).len() == if knows(s, first@) {
            s.len()
        } else {
            s.len() + 1
        },
{
    let t = registered(s, first, g1);
    if !knows(s, first@) {
        assert(t[s.len() as int].address@ == first@);
    }
}

/// Registration never creates a second entry for an address.
pub proof fn lemma_register_keeps_distinct(s: Seq<WorkerEntry>, address: String, generation: u64)
    requires
        distinct_addresses(s),
    ensures
        distinct_addresses(registered(s, address, generation)),
{
}

/// In a pool without duplicates the worker count is the number of distinct
/// addresses.
pub proof fn lemma_count_is_distinct_addresses(s: Seq<WorkerEntry>)
    requires
        distinct_addresses(s),
    ensures
        s.map_values(address_of()).to_set().len() == s.len(),
{
    let names = s.map_values(address_of());
    assert forall|i: int, j: int| 0 <= i < names.len() && 0 <= j < names.len() && i != j implies names[i]
        != names[j] by {
        if i < j {
            assert(s[i].address@ != s[j].address@);
        } else {
            assert(s[j].address@ != s[i].address@);
        }
    }
    names.unique_seq_to_set();
}

} // verus!
