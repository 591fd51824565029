//! Coordinator side of a leaderless transaction protocol of the Accord family.
//!
//! A transaction starts at any node. The coordinator on that node mints a
//! timestamp for it, collects the proposals of the replicas, decides between
//! the fast path and the slow path, and then drives execution.

pub mod coordinator;
pub mod deps;
pub mod errors;
pub mod executor;
pub mod keys;
pub mod laws;
pub mod protocol;
pub mod record;
pub mod timestamp;
pub mod topology;
pub mod transaction;
