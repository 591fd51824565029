//! The executor: the embedding system's function from reads to writes.

use crate::protocol::{ComputeData, ReadData};
use crate::timestamp::Timestamp;
use crate::transaction::Transaction;
use vstd::prelude::*;

verus! {

/// Computes what a transaction writes from what it read.
///
/// An executor is expected to be deterministic and free of side effects:
/// the same reads, timestamp and transaction give the same result on every
/// node. A failure is reported with a diagnostic.
pub trait Executor<K> {
    fn compute(&self, data: &ReadData, timestamp: &Timestamp, tx: &Transaction<K>) -> (r: Result<
        ComputeData,
        String,
    >);
}

/// Whether `out` is a result that `executor` may give on these arguments,
/// as far as its own contract tells.
pub open spec fn computes<K, E: Executor<K>>(
    executor: E,
    data: ReadData,
    timestamp: Timestamp,
    tx: Transaction<K>,
    out: Result<ComputeData, String>,
) -> bool {
    call_ensures(E::compute, (&executor, &data, &timestamp, &tx), out)
}

} // verus!
