//! The failures the proxy distinguishes.

use vstd::prelude::*;

verus! {

/// Every way in which the proxy turns work away or gives up on it.
#[derive(Clone, Debug, PartialEq, Eq)]
pub enum ProxyError {
    /// The work queue was at capacity when the request arrived.
    RejectedQueueFull,
    /// The request rate of the current window was already used up.
    RejectedRateLimited,
    /// The worker address, given here, is not a usable network address.
    InvalidAddress(String),
    /// The worker at the address given here could not be reached in time.
    ConnectionFailed(String),
    /// Every permitted forwarding attempt for a request has failed.
    DispatchExhausted,
    /// Work is queued but no worker is currently eligible; transient.
    NoHealthyWorker,
}

impl ProxyError {
    /// Whether the failure is resolved at the admission gate, before the
    /// request can reach a dispatcher.
    pub open spec fn spec_is_admission_failure(&self) -> bool {
        *self is RejectedQueueFull || *self is RejectedRateLimited
    }

    /// Whether the failure is resolved at the admission gate.
    pub fn is_admission_failure(&self) -> (b: bool)
        ensures
            b == self.spec_is_admission_failure(),
    {
        match self {
            ProxyError::RejectedQueueFull => true,
            ProxyError::RejectedRateLimited => true,
            _ => false,
        }
    }

    /// Whether the failure is handled inside the proxy and never shown to a
    /// client as such.
    pub open spec fn spec_is_internal(&self) -> bool {
        *self is NoHealthyWorker || *self is ConnectionFailed
    }

    /// Whether the failure is handled inside the proxy.
    pub fn is_internal(&self) -> (b: bool)
        ensures
            b == self.spec_is_internal(),
    {
        match self {
            ProxyError::NoHealthyWorker => true,
            ProxyError::ConnectionFailed(_) => true,
            _ => false,
        }
    }
}

} // verus!
