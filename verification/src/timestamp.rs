//! Node-tagged logical timestamps and the source that mints them.

use std::cmp::Ordering;
use vstd::prelude::*;
use vstd::std_specs::cmp::PartialOrdSpecImpl;

verus! {

/// Identifier of a node in the cluster.
pub type NodeId = u64;

/// A logical timestamp: a logical time tagged with the node that minted it.
///
/// Timestamps are totally ordered, first by logical time and then by node.
#[derive(Clone, Copy, Debug, PartialEq, Eq, Structural, Ord, Hash)]
pub struct Timestamp {
    pub time: u64,
    pub node: NodeId,
}

impl Timestamp {
    /// The strict order on timestamps: lexicographic on `(time, node)`.
    pub open spec fn before(self, other: Timestamp) -> bool {
        self.time < other.time || (self.time == other.time && self.node < other.node)
    }

    /// The reflexive order on timestamps.
    pub open spec fn at_or_before(self, other: Timestamp) -> bool {
        self.before(other) || self == other
    }

    /// The later of two timestamps.
    pub open spec fn later_of(self, other: Timestamp) -> Timestamp {
        if self.before(other) {
            other
        } else {
            self
        }
    }

    pub fn new(time: u64, node: NodeId) -> (ts: Timestamp)
        ensures
            ts == (Timestamp { time, node }),
    {
        Timestamp { time, node }
    }

    /// Whether `self` is strictly earlier than `other`.
    pub fn is_before(&self, other: &Timestamp) -> (b: bool)
        ensures
            b == self.before(*other),
    {
        *self < *other
    }
}

impl PartialOrd for Timestamp {
    fn partial_cmp(&self, other: &Timestamp) -> (r: Option<Ordering>) {
        if self.time < other.time {
            Some(Ordering::Less)
        } else if self.time > other.time {
            Some(Ordering::Greater)
        } else if self.node < other.node {
            Some(Ordering::Less)
        } else if self.node > other.node {
            Some(Ordering::Greater)
        } else {
            Some(Ordering::Equal)
        }
    }
}

impl PartialOrdSpecImpl for Timestamp {
    open spec fn obeys_partial_cmp_spec() -> bool {
        true
    }

    /// `<` on timestamps is `before`.
    open spec fn partial_cmp_spec(&self, other: &Timestamp) -> Option<Ordering> {
        if self.before(*other) {
            Some(Ordering::Less)
        } else if other.before(*self) {
            Some(Ordering::Greater)
        } else {
            Some(Ordering::Equal)
        }
    }
}

/// Source of timestamps for one node.
///
/// Every timestamp it mints carries the node's id and is strictly later than
/// every timestamp it minted before, whatever clock readings it is fed.
#[derive(Debug)]
pub struct TimestampProvider {
    node: NodeId,
    next: u64,
}

impl TimestampProvider {
    /// The node whose id the minted timestamps carry.
    pub closed spec fn node(self) -> NodeId {
        self.node
    }

    /// The logical time of the next timestamp to be minted.
    pub closed spec fn next_time(self) -> u64 {
        self.next
    }

    /// The timestamp that the next call of `unique_now` returns.
    pub open spec fn upcoming(self) -> Timestamp {
        Timestamp { time: self.next_time(), node: self.node() }
    }

    /// Whether another timestamp can be minted.
    pub open spec fn can_mint(self) -> bool {
        self.next_time() < u64::MAX
    }

    pub fn new(node: NodeId) -> (p: TimestampProvider)
        ensures
            p.node() == node,
            p.next_time() == 0,
    {
        TimestampProvider { node, next: 0 }
    }

    pub fn node_id(&self) -> (n: NodeId)
        ensures
            n == self.node(),
    {
        self.node
    }

    /// Whether the logical clock still has room for another timestamp.
    pub fn has_room(&self) -> (b: bool)
        ensures
            b == self.can_mint(),
    {
        self.next < u64::MAX
    }

    /// Feeds a reading of some outside clock. Later timestamps have a logical
    /// time of at least `reading`; a reading in the past changes nothing.
    pub fn advance_to(&mut self, reading: u64)
        ensures
            final(self).node() == old(self).node(),
            final(self).next_time() == if reading > old(self).next_time() {
                reading
            } else {
                old(self).next_time()
            },
    {
        if reading > self.next {
            self.next = reading;
        }
    }

    /// Mints a timestamp strictly later than all earlier ones of this provider.
    pub fn unique_now(&mut self) -> (ts: Timestamp)
        requires
            old(self).can_mint(),
        ensures
            ts == old(self).upcoming(),
            final(self).node() == old(self).node(),
            final(self).next_time() == old(self).next_time() + 1,
    {
        let ts = Timestamp { time: self.next, node: self.node };
        self.next = self.next + 1;
        ts
    }
}

} // verus!
