//! Admission control, bounded queueing, worker-pool bookkeeping and dispatch
//! decisions for a proving-service proxy, together with the block and
//! transaction-kernel data the workers operate on.

pub mod address;
pub mod admission;
pub mod block;
pub mod crypto;
pub mod dispatch;
pub mod error;
pub mod header;
pub mod kernel;
pub mod merkle;
pub mod note_tree;
pub mod policy;
pub mod pool;
pub mod proxy;
pub mod queue;
pub mod response;
pub mod unique;
pub mod wire;
