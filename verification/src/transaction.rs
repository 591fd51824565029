//! Transactions and their identifiers.

use crate::keys::KeySet;
use crate::timestamp::Timestamp;
use vstd::prelude::*;

verus! {

/// Identifier of a transaction: the timestamp minted when it began.
#[derive(Clone, Copy, Debug, PartialEq, Eq, Structural, PartialOrd, Ord, Hash)]
pub struct TransactionId(pub Timestamp);

impl TransactionId {
    /// The strict order on identifiers, that of their timestamps.
    pub open spec fn before(self, other: TransactionId) -> bool {
        self.0.before(other.0)
    }

    /// Whether `self` is ordered strictly before `other`.
    pub fn is_before(&self, other: &TransactionId) -> (b: bool)
        ensures
            b == self.before(*other),
    {
        self.0.is_before(&other.0)
    }
}

#[derive(Clone, Copy, Debug, PartialEq, Eq, Structural, Hash)]
pub enum TransactionKind {
    Read,
    Write,
}

/// An immutable description of a transaction. Only the executor interprets
/// the command bytes.
#[derive(Debug, Clone, PartialEq, Eq)]
pub struct Transaction<K> {
    pub id: TransactionId,
    pub kind: TransactionKind,
    pub keys: KeySet<K>,
    pub command: Vec<u8>,
}

impl<K> Transaction<K> {
    pub fn new(id: TransactionId, kind: TransactionKind, keys: KeySet<K>, command: Vec<u8>) -> (tx:
        Transaction<K>)
        ensures
            tx == (Transaction { id, kind, keys, command }),
    {
        Transaction { id, kind, keys, command }
    }

    pub fn get_id(&self) -> (id: &TransactionId)
        ensures
            *id == self.id,
    {
        &self.id
    }
}

} // verus!
