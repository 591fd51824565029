//! The messages that coordinator and replicas exchange. Every message names
//! its transaction; only `PreAccept` carries the transaction itself.

use crate::deps::ascending;
use crate::timestamp::Timestamp;
use crate::transaction::{Transaction, TransactionId};
use std::sync::Arc;
use vstd::prelude::*;

verus! {

/// Bytes read by a shard on behalf of a transaction.
pub type ReadData = Vec<u8>;

/// Bytes that the executor computed from the reads.
pub type ComputeData = Vec<u8>;

/// Announces a new transaction to the replicas.
#[derive(Debug, Clone)]
pub struct PreAccept<K> {
    pub tx: Arc<Transaction<K>>,
}

/// A replica's proposal: a timestamp and the dependencies it knows of.
#[derive(Debug, Clone, PartialEq, Eq)]
pub struct PreAcceptOk {
    pub tx_id: TransactionId,
    pub proposed: Timestamp,
    pub deps: Vec<TransactionId>,
}

/// Asks the replicas to accept a timestamp later than the original one.
#[derive(Debug, Clone, PartialEq, Eq)]
pub struct Accept {
    pub tx_id: TransactionId,
    pub timestamp: Timestamp,
    pub deps: Vec<TransactionId>,
}

/// A replica's acknowledgement of an `Accept`.
#[derive(Debug, Clone, PartialEq, Eq)]
pub struct AcceptOk {
    pub tx_id: TransactionId,
    pub deps: Vec<TransactionId>,
}

/// Tells the replicas the decided timestamp and dependencies.
#[derive(Debug, Clone, PartialEq, Eq)]
pub struct Commit {
    pub tx_id: TransactionId,
    pub timestamp: Timestamp,
    pub deps: Vec<TransactionId>,
}

/// Local request to start executing a committed transaction.
#[derive(Debug, Clone, PartialEq, Eq)]
pub struct StartExecuteInternal {
    pub tx_id: TransactionId,
}

/// Asks the shards that own the keys for their reads.
#[derive(Debug, Clone, PartialEq, Eq)]
pub struct Read {
    pub tx_id: TransactionId,
    pub timestamp: Timestamp,
    pub deps: Vec<TransactionId>,
}

/// A shard's reads.
#[derive(Debug, Clone, PartialEq, Eq)]
pub struct ReadOk {
    pub tx_id: TransactionId,
    pub data: ReadData,
}

/// Tells the replicas what to write.
#[derive(Debug, Clone, PartialEq, Eq)]
pub struct Apply {
    pub tx_id: TransactionId,
    pub timestamp: Timestamp,
    pub deps: Vec<TransactionId>,
    pub data: ComputeData,
}

/// Whether `listed` is the set `deps` written out in ascending order.
pub open spec fn lists(listed: Seq<TransactionId>, deps: Set<TransactionId>) -> bool {
    ascending(listed) && listed.to_set() == deps
}

impl Accept {
    /// Whether the message names this transaction, timestamp and set of
    /// dependencies.
    pub open spec fn carries(
        self,
        tx_id: TransactionId,
        timestamp: Timestamp,
        deps: Set<TransactionId>,
    ) -> bool {
        self.tx_id == tx_id && self.timestamp == timestamp && lists(self.deps@, deps)
    }
}

impl Commit {
    /// Whether the message names this transaction, timestamp and set of
    /// dependencies.
    pub open spec fn carries(
        self,
        tx_id: TransactionId,
        timestamp: Timestamp,
        deps: Set<TransactionId>,
    ) -> bool {
        self.tx_id == tx_id && self.timestamp == timestamp && lists(self.deps@, deps)
    }
}

impl Read {
    /// Whether the message names this transaction, timestamp and set of
    /// dependencies.
    pub open spec fn carries(
        self,
        tx_id: TransactionId,
        timestamp: Timestamp,
        deps: Set<TransactionId>,
    ) -> bool {
        self.tx_id == tx_id && self.timestamp == timestamp && lists(self.deps@, deps)
    }
}

impl Apply {
    /// Whether the message names this transaction, timestamp, set of
    /// dependencies and data.
    pub open spec fn carries(
        self,
        tx_id: TransactionId,
        timestamp: Timestamp,
        deps: Set<TransactionId>,
        data: Seq<u8>,
    ) -> bool {
        &&& self.tx_id == tx_id
        &&& self.timestamp == timestamp
        &&& lists(self.deps@, deps)
        &&& self.data@ == data
    }
}

} // verus!
