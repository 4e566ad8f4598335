//! Immutable configuration of the proxy.

use vstd::prelude::*;

verus! {

/// Limits and timing parameters fixed for the lifetime of a proxy instance.
#[derive(Clone, Copy, Debug, PartialEq, Eq, Structural)]
pub struct ProxyPolicy {
    /// Largest number of entries the work queue may hold.
    pub max_queue_capacity: usize,
    /// Largest number of requests admitted within one measurement window.
    pub max_requests_per_second: u64,
    /// Bound on establishing a connection to a worker, in milliseconds.
    pub connect_timeout_ms: u64,
    /// Bound on a whole worker round trip, in milliseconds.
    pub total_timeout_ms: u64,
    /// Pause between two rounds of health probes, in milliseconds.
    pub health_check_interval_ms: u64,
    /// Consecutive failed probes after which a worker becomes unhealthy.
    pub unhealthy_eviction_threshold: u32,
    /// Largest number of forwarding attempts made for one request.
    pub max_dispatch_attempts: u32,
}

impl ProxyPolicy {
    /// A policy is usable when every limit admits at least one unit of work.
    pub open spec fn valid(&self) -> bool {
        &&& self.max_queue_capacity >= 1
        &&& self.max_requests_per_second >= 1
        &&& self.unhealthy_eviction_threshold >= 1
        &&& self.max_dispatch_attempts >= 1
    }

    /// Decides whether the policy is usable.
    pub fn is_valid(&self) -> (ok: bool)
        ensures
            ok == self.valid(),
    {
        self.max_queue_capacity >= 1 && self.max_requests_per_second >= 1
            && self.unhealthy_eviction_threshold >= 1 && self.max_dispatch_attempts >= 1
    }
}

} // verus!
