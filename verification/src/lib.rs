//! A verified core for a chain checkpoint bridge.
//!
//! The library watches a source chain, decides once per tick which block is
//! eligible for the next checkpoint on a destination chain, and reconciles
//! asynchronous confirmation events back to the pending submission records.
//! Durable submission state is the single source of truth for what has
//! already been checkpointed; the contracts here keep both components honest
//! about it.

pub mod types;
pub mod errors;
pub mod fuel;
pub mod l1;
pub mod storage;
pub mod metrics;
pub mod channel;
pub mod block_watcher;
pub mod commit_listener;
pub mod test_doubles;
