//! The coordinator's record of one transaction: what the replicas have
//! answered so far, and the phase the transaction is in.

use crate::deps::DepSet;
use crate::errors::{AccordError, Attempt, PhaseKind};
use crate::protocol::{lists, Accept, Apply, Commit, ComputeData, Read};
use crate::timestamp::{NodeId, Timestamp};
use crate::topology::{QuorumCheck, Topology};
use crate::transaction::{Transaction, TransactionId};
use std::collections::HashSet;
use std::sync::Arc;
use vstd::prelude::*;

verus! {

broadcast use vstd::std_specs::hash::group_hash_axioms;

/// The phase of a coordinated transaction.
#[derive(Debug)]
pub enum Phase {
    /// Awaiting the proposals of the replicas.
    PreAccepting { responded: HashSet<NodeId> },
    /// Awaiting acknowledgements of a later timestamp.
    Accepting { responded: HashSet<NodeId> },
    /// Decided; in the execution protocol.
    Executing,
}

/// A phase as a mathematical value.
pub enum PhaseView {
    PreAccepting { responded: Set<NodeId> },
    Accepting { responded: Set<NodeId> },
    Executing,
}

impl PhaseView {
    pub open spec fn kind(self) -> PhaseKind {
        match self {
            PhaseView::PreAccepting { .. } => PhaseKind::PreAccepting,
            PhaseView::Accepting { .. } => PhaseKind::Accepting,
            PhaseView::Executing => PhaseKind::Executing,
        }
    }

    /// The nodes that have answered in this phase.
    pub open spec fn responded(self) -> Set<NodeId> {
        match self {
            PhaseView::PreAccepting { responded } => responded,
            PhaseView::Accepting { responded } => responded,
            PhaseView::Executing => Set::empty(),
        }
    }

    /// The place of the phase in the order `PreAccepting`, `Accepting`,
    /// `Executing`.
    pub open spec fn rank(self) -> nat {
        match self {
            PhaseView::PreAccepting { .. } => 0,
            PhaseView::Accepting { .. } => 1,
            PhaseView::Executing => 2,
        }
    }
}

impl View for Phase {
    type V = PhaseView;

    open spec fn view(&self) -> PhaseView {
        match self {
            Phase::PreAccepting { responded } => PhaseView::PreAccepting { responded: responded@ },
            Phase::Accepting { responded } => PhaseView::Accepting { responded: responded@ },
            Phase::Executing => PhaseView::Executing,
        }
    }
}

impl Phase {
    pub fn kind(&self) -> (k: PhaseKind)
        ensures
            k == self@.kind(),
    {
        match self {
            Phase::PreAccepting { .. } => PhaseKind::PreAccepting,
            Phase::Accepting { .. } => PhaseKind::Accepting,
            Phase::Executing => PhaseKind::Executing,
        }
    }
}

/// What the coordinator does after a proposal or an acknowledgement.
#[derive(Clone, Copy, Debug, PartialEq, Eq, Structural)]
pub enum Decision {
    /// Nothing yet: more answers are needed.
    Wait,
    /// Ask the replicas to accept the later timestamp.
    Accept,
    /// Commit.
    Commit,
}

/// A record as a mathematical value.
pub struct RecordView<K> {
    pub tx: Transaction<K>,
    /// The latest timestamp proposed so far.
    pub proposed: Timestamp,
    /// All dependencies reported so far.
    pub deps: Set<TransactionId>,
    pub phase: PhaseView,
}

impl<K> RecordView<K> {
    /// The record of a transaction that has just begun.
    pub open spec fn initial(tx: Transaction<K>) -> Self {
        RecordView {
            tx,
            proposed: tx.id.0,
            deps: Set::empty(),
            phase: PhaseView::PreAccepting { responded: Set::empty() },
        }
    }

    /// What holds of every record: the proposed timestamp is not earlier
    /// than the transaction's own.
    pub open spec fn inv(self) -> bool {
        self.tx.id.0.at_or_before(self.proposed)
    }

    /// Whether every proposal so far kept the original timestamp.
    pub open spec fn proposed_is_original(self) -> bool {
        self.proposed == self.tx.id.0
    }

    /// The record with the dependencies `deps` added.
    pub open spec fn with_deps(self, deps: Set<TransactionId>) -> Self {
        RecordView { deps: self.deps.union(deps), ..self }
    }

    /// The record after it took in a proposal, before any decision.
    /// A record that is not pre-accepting is unchanged.
    pub open spec fn with_proposal(
        self,
        from: NodeId,
        proposed: Timestamp,
        deps: Set<TransactionId>,
    ) -> Self {
        match self.phase {
            PhaseView::PreAccepting { responded } => RecordView {
                tx: self.tx,
                proposed: self.proposed.later_of(proposed),
                deps: self.deps.union(deps),
                phase: PhaseView::PreAccepting { responded: responded.insert(from) },
            },
            _ => self,
        }
    }

    /// The record after it took in an acknowledgement of `Accept`.
    /// A record that is not accepting is unchanged.
    pub open spec fn with_accept_ok(self, from: NodeId, deps: Set<TransactionId>) -> Self {
        match self.phase {
            PhaseView::Accepting { responded } => RecordView {
                tx: self.tx,
                proposed: self.proposed,
                deps: self.deps.union(deps),
                phase: PhaseView::Accepting { responded: responded.insert(from) },
            },
            _ => self,
        }
    }

    /// The record moved from pre-accepting to accepting, with nobody having
    /// answered yet. A record in another phase is unchanged.
    pub open spec fn moved_to_accepting(self) -> Self {
        match self.phase {
            PhaseView::PreAccepting { .. } => RecordView {
                phase: PhaseView::Accepting { responded: Set::empty() },
                ..self
            },
            _ => self,
        }
    }

    /// The record moved to executing. A record that is executing already is
    /// unchanged.
    pub open spec fn moved_to_executing(self) -> Self {
        RecordView { phase: PhaseView::Executing, ..self }
    }

    /// The decision after a proposal was taken in, given the quorums that
    /// the responders reach: commit on the fast path while the timestamp is
    /// the original one, wait for the fast path as long as it is, and go to
    /// the slow path once a later timestamp has a simple majority.
    pub open spec fn proposal_decision(self, check: QuorumCheck) -> Decision {
        if self.proposed_is_original() {
            if check.have_fast_path {
                Decision::Commit
            } else {
                Decision::Wait
            }
        } else if check.have_slow_path {
            Decision::Accept
        } else {
            Decision::Wait
        }
    }

    /// The decision after an acknowledgement was taken in.
    pub open spec fn accept_decision(self, check: QuorumCheck) -> Decision {
        if check.have_slow_path {
            Decision::Commit
        } else {
            Decision::Wait
        }
    }

    /// The record after the transition that `decision` asks for.
    pub open spec fn after_decision(self, decision: Decision) -> Self {
        match decision {
            Decision::Wait => self,
            Decision::Accept => self.moved_to_accepting(),
            Decision::Commit => self.moved_to_executing(),
        }
    }

    /// The decision that a proposal leads to on a pre-accepting record,
    /// with the quorums as `topology` sees them.
    pub open spec fn decision_on_proposal(
        self,
        topology: Topology,
        from: NodeId,
        proposed: Timestamp,
        deps: Set<TransactionId>,
    ) -> Decision {
        let taken = self.with_proposal(from, proposed, deps);
        taken.proposal_decision(topology.quorum(taken.phase.responded()))
    }

    /// The record after the coordinator handled a proposal: taken in, and
    /// moved on if that allowed a decision. A record that is not
    /// pre-accepting is unchanged.
    pub open spec fn after_proposal(
        self,
        topology: Topology,
        from: NodeId,
        proposed: Timestamp,
        deps: Set<TransactionId>,
    ) -> Self {
        if self.phase is PreAccepting {
            self.with_proposal(from, proposed, deps).after_decision(
                self.decision_on_proposal(topology, from, proposed, deps),
            )
        } else {
            self
        }
    }

    /// The decision that an acknowledgement leads to on an accepting record.
    pub open spec fn decision_on_accept_ok(
        self,
        topology: Topology,
        from: NodeId,
        deps: Set<TransactionId>,
    ) -> Decision {
        let taken = self.with_accept_ok(from, deps);
        taken.accept_decision(topology.quorum(taken.phase.responded()))
    }

    /// The record after the coordinator handled `event`.
    pub open spec fn step(self, topology: Topology, event: Event) -> Self {
        match event {
            Event::Proposal { from, proposed, deps } => self.after_proposal(
                topology,
                from,
                proposed,
                deps,
            ),
            Event::Acknowledgement { from, deps } => self.with_accept_ok(from, deps),
            Event::StartExecute => self,
            Event::Reads => self,
        }
    }

    /// The record after the coordinator handled `events` one after another.
    pub open spec fn run(self, topology: Topology, events: Seq<Event>) -> Self
        decreases events.len(),
    {
        if events.len() == 0 {
            self
        } else {
            self.run(topology, events.drop_last()).step(topology, events.last())
        }
    }
}

/// What can reach the record of a transaction, as plain values.
pub enum Event {
    /// A replica's pre-accept proposal.
    Proposal { from: NodeId, proposed: Timestamp, deps: Set<TransactionId> },
    /// A replica's acknowledgement of an accept.
    Acknowledgement { from: NodeId, deps: Set<TransactionId> },
    /// The request to start execution.
    StartExecute,
    /// The reads of a shard.
    Reads,
}

/// The aggregation state of one transaction.
#[derive(Debug)]
pub struct CoordinatedTransaction<K> {
    inner: Arc<Transaction<K>>,
    /// Max timestamp received so far.
    proposed: Timestamp,
    phase: Phase,
    deps: DepSet,
}

impl<K> View for CoordinatedTransaction<K> {
    type V = RecordView<K>;

    closed spec fn view(&self) -> RecordView<K> {
        RecordView {
            tx: *self.inner,
            proposed: self.proposed,
            deps: self.deps@,
            phase: self.phase@,
        }
    }
}

impl<K> CoordinatedTransaction<K> {
    /// The dependencies in ascending order.
    pub closed spec fn ordered_deps(self) -> Seq<TransactionId> {
        self.deps.ordered()
    }

    /// Well-formedness: the dependencies are kept in ascending order and
    /// the record's invariant holds.
    pub open spec fn wf(self) -> bool {
        &&& lists(self.ordered_deps(), self@.deps)
        &&& self@.inv()
    }

    pub fn new(tx: Arc<Transaction<K>>) -> (rec: Self)
        ensures
            rec.wf(),
            rec@ == RecordView::initial(*tx),
    {
        let proposed = tx.id.0;
        let deps = DepSet::new();
        CoordinatedTransaction {
            inner: tx,
            proposed,
            phase: Phase::PreAccepting { responded: HashSet::new() },
            deps,
        }
    }

    pub fn proposed_is_original(&self) -> (b: bool)
        ensures
            b == self@.proposed_is_original(),
    {
        self.proposed == self.inner.id.0
    }

    /// The transaction that the record is about.
    pub fn inner(&self) -> (tx: &Transaction<K>)
        ensures
            *tx == self@.tx,
    {
        &*self.inner
    }

    /// The latest timestamp proposed so far.
    pub fn proposed(&self) -> (ts: Timestamp)
        ensures
            ts == self@.proposed,
    {
        self.proposed
    }

    /// The name of the phase that the record is in.
    pub fn phase(&self) -> (k: PhaseKind)
        ensures
            k == self@.phase.kind(),
    {
        self.phase.kind()
    }

    /// The dependencies reported so far, in ascending order.
    pub fn deps(&self) -> (deps: Vec<TransactionId>)
        requires
            self.wf(),
        ensures
            lists(deps@, self@.deps),
            deps@ == self.ordered_deps(),
    {
        self.deps.to_vec()
    }

    /// Whether `node` has answered in the current phase.
    pub fn has_responded(&self, node: NodeId) -> (b: bool)
        ensures
            b == self@.phase.responded().contains(node),
    {
        match &self.phase {
            Phase::PreAccepting { responded } => responded.contains(&node),
            Phase::Accepting { responded } => responded.contains(&node),
            Phase::Executing => false,
        }
    }

    /// Adds `deps` to the dependencies.
    pub fn merge_deps(&mut self, deps: Vec<TransactionId>)
        requires
            old(self).wf(),
        ensures
            final(self).wf(),
            final(self)@ == old(self)@.with_deps(deps@.to_set()),
    {
        self.deps.merge(&deps);
    }

    /// Takes in a node's pre-accept proposal and returns the nodes that have
    /// answered so far. Refused, with the record unchanged, unless the
    /// record is pre-accepting.
    pub fn preaccept_msg_received(
        &mut self,
        from: NodeId,
        proposed: Timestamp,
        deps: Vec<TransactionId>,
    ) -> (r: Result<&HashSet<NodeId>, AccordError>)
        requires
            old(self).wf(),
        ensures
            final(self).wf(),
            final(self)@ == old(self)@.with_proposal(from, proposed, deps@.to_set()),
            match r {
                Ok(responded) => {
                    &&& old(self)@.phase is PreAccepting
                    &&& responded@ == final(self)@.phase.responded()
                },
                Err(e) => {
                    &&& !(old(self)@.phase is PreAccepting)
                    &&& e == (AccordError::InvalidPhase {
                        phase: old(self)@.phase.kind(),
                        attempted: Attempt::PreAcceptOk,
                    })
                    &&& *final(self) == *old(self)
                },
            },
    {
        if let Phase::PreAccepting { .. } = self.phase {
            self.merge_deps(deps);
        }
        match &mut self.phase {
            Phase::PreAccepting { responded } => {
                responded.insert(from);
                if self.proposed.is_before(&proposed) {
                    self.proposed = proposed;
                }
                Ok(responded)
            },
            other => Err(
                AccordError::InvalidPhase { phase: other.kind(), attempted: Attempt::PreAcceptOk },
            ),
        }
    }

    /// Takes in a node's acknowledgement of `Accept` and returns the nodes
    /// that have answered so far. Refused, with the record unchanged, unless
    /// the record is accepting.
    pub fn accept_msg_received(&mut self, from: NodeId, deps: Vec<TransactionId>) -> (r: Result<
        &HashSet<NodeId>,
        AccordError,
    >)
        requires
            old(self).wf(),
        ensures
            final(self).wf(),
            final(self)@ == old(self)@.with_accept_ok(from, deps@.to_set()),
            match r {
                Ok(responded) => {
                    &&& old(self)@.phase is Accepting
                    &&& responded@ == final(self)@.phase.responded()
                },
                Err(e) => {
                    &&& !(old(self)@.phase is Accepting)
                    &&& e == (AccordError::InvalidPhase {
                        phase: old(self)@.phase.kind(),
                        attempted: Attempt::AcceptOk,
                    })
                    &&& *final(self) == *old(self)
                },
            },
    {
        if let Phase::Accepting { .. } = self.phase {
            self.merge_deps(deps);
        }
        match &mut self.phase {
            Phase::Accepting { responded } => {
                responded.insert(from);
                Ok(responded)
            },
            other => Err(
                AccordError::InvalidPhase { phase: other.kind(), attempted: Attempt::AcceptOk },
            ),
        }
    }

    /// Moves a pre-accepting record to accepting, with nobody having
    /// answered yet. Refused, with the record unchanged, in any other phase.
    pub fn move_to_accepting(&mut self) -> (r: Result<(), AccordError>)
        requires
            old(self).wf(),
        ensures
            final(self).wf(),
            final(self)@ == old(self)@.moved_to_accepting(),
            match r {
                Ok(_) => old(self)@.phase is PreAccepting,
                Err(e) => {
                    &&& !(old(self)@.phase is PreAccepting)
                    &&& e == (AccordError::InvalidPhase {
                        phase: old(self)@.phase.kind(),
                        attempted: Attempt::MoveToAccepting,
                    })
                    &&& *final(self) == *old(self)
                },
            },
    {
        match &self.phase {
            Phase::PreAccepting { .. } => {
                self.phase = Phase::Accepting { responded: HashSet::new() };
                Ok(())
            },
            other => Err(
                AccordError::InvalidPhase {
                    phase: other.kind(),
                    attempted: Attempt::MoveToAccepting,
                },
            ),
        }
    }

    /// Moves a pre-accepting or accepting record to executing. Refused, with
    /// the record unchanged, if it is executing already.
    pub fn move_to_executing(&mut self) -> (r: Result<(), AccordError>)
        requires
            old(self).wf(),
        ensures
            final(self).wf(),
            final(self)@ == old(self)@.moved_to_executing(),
            match r {
                Ok(_) => !(old(self)@.phase is Executing),
                Err(e) => {
                    &&& old(self)@.phase is Executing
                    &&& e == (AccordError::InvalidPhase {
                        phase: PhaseKind::Executing,
                        attempted: Attempt::MoveToExecuting,
                    })
                    &&& *final(self) == *old(self)
                },
            },
    {
        match &self.phase {
            Phase::PreAccepting { .. } | Phase::Accepting { .. } => {
                self.phase = Phase::Executing;
                Ok(())
            },
            other => Err(
                AccordError::InvalidPhase {
                    phase: other.kind(),
                    attempted: Attempt::MoveToExecuting,
                },
            ),
        }
    }

    /// The `Accept` message for the record as it stands.
    pub fn accept_msg(&self) -> (msg: Accept)
        requires
            self.wf(),
        ensures
            msg.carries(self@.tx.id, self@.proposed, self@.deps),
            msg.deps@ == self.ordered_deps(),
    {
        Accept { tx_id: self.inner.id, timestamp: self.proposed, deps: self.deps.to_vec() }
    }

    /// The `Commit` message for the record as it stands.
    pub fn commit_msg(&self) -> (msg: Commit)
        requires
            self.wf(),
        ensures
            msg.carries(self@.tx.id, self@.proposed, self@.deps),
            msg.deps@ == self.ordered_deps(),
    {
        Commit { tx_id: self.inner.id, timestamp: self.proposed, deps: self.deps.to_vec() }
    }

    /// The `Read` message for the record as it stands.
    pub fn read_msg(&self) -> (msg: Read)
        requires
            self.wf(),
        ensures
            msg.carries(self@.tx.id, self@.proposed, self@.deps),
            msg.deps@ == self.ordered_deps(),
    {
        Read { tx_id: self.inner.id, timestamp: self.proposed, deps: self.deps.to_vec() }
    }

    /// What the coordinator answers once the executor has run on the reads:
    /// an `Apply` with the computed data, or the executor's failure.
    pub fn apply_computed(&self, computed: Result<ComputeData, String>) -> (r: Result<
        Option<Apply>,
        AccordError,
    >)
        requires
            self.wf(),
        ensures
            match computed {
                Ok(data) => r matches Ok(Some(msg)) && msg.carries(
                    self@.tx.id,
                    self@.proposed,
                    self@.deps,
                    data@,
                ) && msg.deps@ == self.ordered_deps() && msg.data == data,
                Err(detail) => r == Err::<Option<Apply>, AccordError>(
                    AccordError::ExecutorError(detail),
                ),
            },
    {
        match computed {
            Ok(data) => Ok(
                Some(
                    Apply {
                        tx_id: self.inner.id,
                        timestamp: self.proposed,
                        deps: self.deps.to_vec(),
                        data,
                    },
                ),
            ),
            Err(detail) => Err(AccordError::ExecutorError(detail)),
        }
    }
}

} // verus!
