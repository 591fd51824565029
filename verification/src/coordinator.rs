//! The coordinator: one record per transaction that it began, and the
//! handlers for what the replicas answer.

use crate::errors::{AccordError, Attempt};
use crate::executor::{computes, Executor};
use crate::keys::KeySet;
use crate::protocol::{
    Accept, AcceptOk, Apply, Commit, ComputeData, PreAccept, PreAcceptOk, Read, ReadOk,
    StartExecuteInternal,
};
use crate::record::{CoordinatedTransaction, Decision, Event, RecordView};
use crate::timestamp::{NodeId, Timestamp, TimestampProvider};
use crate::topology::{Topology, TopologyManagerRef};
use crate::transaction::{Transaction, TransactionId, TransactionKind};
use std::collections::hash_map::Entry;
use std::collections::HashMap;
use std::sync::Arc;
use vstd::prelude::*;

verus! {

broadcast use vstd::std_specs::hash::group_hash_axioms;

/// What the coordinator sends once the proposals allow a decision.
#[derive(Debug, Clone, PartialEq, Eq)]
pub enum AcceptOrCommit {
    Accept(Accept),
    Commit(Commit),
}

/// Whether `out` is what the coordinator sends for `decision` on the record
/// `rec`: nothing while it waits, else the message with the record's
/// timestamp and dependencies.
pub open spec fn announces<K>(
    out: Option<AcceptOrCommit>,
    decision: Decision,
    rec: RecordView<K>,
) -> bool {
    match decision {
        Decision::Wait => out is None,
        Decision::Accept => out matches Some(AcceptOrCommit::Accept(msg)) && msg.carries(
            rec.tx.id,
            rec.proposed,
            rec.deps,
        ),
        Decision::Commit => out matches Some(AcceptOrCommit::Commit(msg)) && msg.carries(
            rec.tx.id,
            rec.proposed,
            rec.deps,
        ),
    }
}

/// Whether `out` is what the coordinator sends after an acknowledgement.
pub open spec fn confirms<K>(out: Option<Commit>, decision: Decision, rec: RecordView<K>) -> bool {
    match decision {
        Decision::Commit => out matches Some(msg) && msg.carries(
            rec.tx.id,
            rec.proposed,
            rec.deps,
        ),
        _ => out is None,
    }
}

/// Whether `r` is the coordinator's answer once the executor has given
/// `computed` for the record `rec`: an `Apply` with the computed data and
/// the record's timestamp and dependencies, or the executor's failure.
pub open spec fn applies<K>(
    r: Result<Option<Apply>, AccordError>,
    rec: RecordView<K>,
    computed: Result<ComputeData, String>,
) -> bool {
    match computed {
        Ok(data) => r matches Ok(Some(apply)) && apply.carries(
            rec.tx.id,
            rec.proposed,
            rec.deps,
            data@,
        ),
        Err(detail) => r matches Err(AccordError::ExecutorError(d)) && d@ == detail@,
    }
}

/// A coordinator as a mathematical value.
pub struct CoordinatorView<K> {
    /// The node that the coordinator runs on.
    pub node: NodeId,
    /// The logical time of the next transaction to begin.
    pub next_time: u64,
    pub topology: Topology,
    /// The record of every transaction begun and not forgotten.
    pub records: Map<TransactionId, RecordView<K>>,
}

impl<K> CoordinatorView<K> {
    /// What holds of every coordinator: each record is filed under its
    /// transaction's id, obeys the record invariant, and was minted by this
    /// node before the logical time that comes next.
    pub open spec fn inv(self) -> bool {
        &&& self.topology.wf()
        &&& forall|id: TransactionId| #[trigger]
            self.records.contains_key(id) ==> {
                &&& self.records[id].tx.id == id
                &&& self.records[id].inv()
                &&& id.0.node == self.node
                &&& id.0.time < self.next_time
            }
    }

    /// Whether the logical clock has room for another transaction.
    pub open spec fn can_begin(self) -> bool {
        self.next_time < u64::MAX
    }

    /// The id that the next transaction gets.
    pub open spec fn upcoming(self) -> TransactionId {
        TransactionId(Timestamp { time: self.next_time, node: self.node })
    }

    /// The coordinator with `rec` filed under its transaction's id.
    pub open spec fn with_record(self, rec: RecordView<K>) -> Self {
        CoordinatorView { records: self.records.insert(rec.tx.id, rec), ..self }
    }

    /// The coordinator after it began `tx`.
    pub open spec fn begun(self, tx: Transaction<K>) -> Self {
        CoordinatorView {
            next_time: (self.next_time + 1) as u64,
            records: self.records.insert(tx.id, RecordView::initial(tx)),
            ..self
        }
    }

    /// The coordinator after a reading of an outside clock.
    pub open spec fn advanced_to(self, reading: u64) -> Self {
        CoordinatorView {
            next_time: if reading > self.next_time {
                reading
            } else {
                self.next_time
            },
            ..self
        }
    }

    /// What a proposal leads to: the record as it is afterwards, with the
    /// decision taken, or the error.
    pub open spec fn proposal_step(self, from: NodeId, msg: PreAcceptOk) -> Result<
        (RecordView<K>, Decision),
        AccordError,
    > {
        if !self.records.contains_key(msg.tx_id) {
            Err(AccordError::MissingTx(msg.tx_id))
        } else {
            let rec = self.records[msg.tx_id];
            if !(rec.phase is PreAccepting) {
                Err(
                    AccordError::InvalidPhase {
                        phase: rec.phase.kind(),
                        attempted: Attempt::PreAcceptOk,
                    },
                )
            } else {
                Ok(
                    (
                        rec.after_proposal(
                            self.topology,
                            from,
                            msg.proposed,
                            msg.deps@.to_set(),
                        ),
                        rec.decision_on_proposal(
                            self.topology,
                            from,
                            msg.proposed,
                            msg.deps@.to_set(),
                        ),
                    ),
                )
            }
        }
    }

    /// What an acknowledgement of `Accept` leads to: the record as it is
    /// afterwards, with the decision taken, or the error.
    pub open spec fn accept_ok_step(self, from: NodeId, msg: AcceptOk) -> Result<
        (RecordView<K>, Decision),
        AccordError,
    > {
        if !self.records.contains_key(msg.tx_id) {
            Err(AccordError::MissingTx(msg.tx_id))
        } else {
            let rec = self.records[msg.tx_id];
            if !(rec.phase is Accepting) {
                Err(
                    AccordError::InvalidPhase {
                        phase: rec.phase.kind(),
                        attempted: Attempt::AcceptOk,
                    },
                )
            } else {
                Ok(
                    (
                        rec.with_accept_ok(from, msg.deps@.to_set()),
                        rec.decision_on_accept_ok(self.topology, from, msg.deps@.to_set()),
                    ),
                )
            }
        }
    }

    /// The coordinator after `event` reached the record of `id`. Without
    /// such a record nothing changes.
    pub open spec fn handled(self, id: TransactionId, event: Event) -> Self {
        if self.records.contains_key(id) {
            CoordinatorView {
                records: self.records.insert(id, self.records[id].step(self.topology, event)),
                ..self
            }
        } else {
            self
        }
    }

    /// The coordinator after `call`.
    pub open spec fn after(self, call: Call<K>) -> Self {
        match call {
            Call::Begin { kind, keys, command } => if self.can_begin() {
                self.begun(Transaction { id: self.upcoming(), kind, keys, command })
            } else {
                self
            },
            Call::ObserveTime { reading } => self.advanced_to(reading),
            Call::Proposal { from, msg } => self.handled(
                msg.tx_id,
                Event::Proposal { from, proposed: msg.proposed, deps: msg.deps@.to_set() },
            ),
            Call::Acknowledgement { from, msg } => self.handled(
                msg.tx_id,
                Event::Acknowledgement { from, deps: msg.deps@.to_set() },
            ),
            Call::StartExecute { msg } => self.handled(msg.tx_id, Event::StartExecute),
            Call::Reads { msg } => self.handled(msg.tx_id, Event::Reads),
        }
    }

    /// The coordinator after `calls`, one after another.
    pub open spec fn run(self, calls: Seq<Call<K>>) -> Self
        decreases calls.len(),
    {
        if calls.len() == 0 {
            self
        } else {
            self.run(calls.drop_last()).after(calls.last())
        }
    }
}

/// A call of one of the coordinator's entry points, with its arguments.
pub enum Call<K> {
    /// `new_read_tx` or `new_write_tx`, on a coordinator that can begin.
    Begin { kind: TransactionKind, keys: KeySet<K>, command: Vec<u8> },
    /// `observe_time`.
    ObserveTime { reading: u64 },
    /// `store_proposal`.
    Proposal { from: NodeId, msg: PreAcceptOk },
    /// `store_accept_ok`.
    Acknowledgement { from: NodeId, msg: AcceptOk },
    /// `start_execute`.
    StartExecute { msg: StartExecuteInternal },
    /// `store_read_ok`.
    Reads { msg: ReadOk },
}

/// The key under which the record of `id` is filed: the logical time in the
/// upper half, the node in the lower half.
spec fn key_of(id: TransactionId) -> u128 {
    (id.0.time * 0x1_0000_0000_0000_0000 + id.0.node) as u128
}

proof fn lemma_key_of_injective(a: TransactionId, b: TransactionId)
    requires
        key_of(a) == key_of(b),
    ensures
        a == b,
{
}

fn key(id: &TransactionId) -> (k: u128)
    ensures
        k == key_of(*id),
{
    (id.0.time as u128) * 0x1_0000_0000_0000_0000 + (id.0.node as u128)
}

/// Another handle on the value that `handle` points to. Calls `Arc::clone`
/// of the standard library, which makes a second pointer to the same
/// allocation: the value behind the result is the value behind `handle`.
#[verifier::external_body]
fn share<T>(handle: &Arc<T>) -> (other: Arc<T>)
    ensures
        other == *handle,
{
    Arc::clone(handle)
}

/// State specific for coordinating transactions.
#[derive(Debug)]
pub struct CoordinatorState<K> {
    tm: TopologyManagerRef,
    /// All transactions initiated by this coordinator.
    transactions: HashMap<u128, CoordinatedTransaction<K>>,
    ts_provider: TimestampProvider,
}

impl<K> View for CoordinatorState<K> {
    type V = CoordinatorView<K>;

    closed spec fn view(&self) -> CoordinatorView<K> {
        CoordinatorView {
            node: self.ts_provider.node(),
            next_time: self.ts_provider.next_time(),
            topology: self.tm.current(),
            records: Map::new(
                |id: TransactionId| self.transactions@.contains_key(key_of(id)),
                |id: TransactionId| self.transactions@[key_of(id)]@,
            ),
        }
    }
}

impl<K> CoordinatorState<K> {
    /// The representation invariant.
    pub closed spec fn wf(self) -> bool {
        &&& self.tm.current().wf()
        &&& forall|k: u128| #[trigger]
            self.transactions@.contains_key(k) ==> {
                &&& self.transactions@[k].wf()
                &&& key_of(self.transactions@[k]@.tx.id) == k
                &&& self.transactions@[k]@.tx.id.0.node == self.ts_provider.node()
                &&& self.transactions@[k]@.tx.id.0.time < self.ts_provider.next_time()
            }
    }

    /// What `wf` means to a user: the coordinator's invariant holds.
    pub proof fn lemma_inv(self)
        requires
            self.wf(),
        ensures
            self@.inv(),
    {
        assert forall|id: TransactionId| #[trigger] self@.records.contains_key(id) implies {
            &&& self@.records[id].tx.id == id
            &&& self@.records[id].inv()
            &&& id.0.node == self@.node
            &&& id.0.time < self@.next_time
        } by {
            let k = key_of(id);
            assert(self.transactions@.contains_key(k));
            lemma_key_of_injective(self.transactions@[k]@.tx.id, id);
        }
    }

    pub fn new(tm: TopologyManagerRef, node: NodeId) -> (c: Self)
        requires
            tm.current().wf(),
        ensures
            c.wf(),
            c@ == (CoordinatorView {
                node,
                next_time: 0,
                topology: tm.current(),
                records: Map::<TransactionId, RecordView<K>>::empty(),
            }),
    {
        let ts_provider = TimestampProvider::new(node);
        let c = CoordinatorState { tm, ts_provider, transactions: HashMap::new() };
        assert(c@.records =~= Map::<TransactionId, RecordView<K>>::empty());
        c
    }

    /// Whether the logical clock has room for another transaction.
    pub fn can_begin(&self) -> (b: bool)
        ensures
            b == self@.can_begin(),
    {
        self.ts_provider.has_room()
    }

    /// Feeds a reading of an outside clock: transactions that begin later
    /// get a logical time of at least `reading`.
    pub fn observe_time(&mut self, reading: u64)
        requires
            old(self).wf(),
        ensures
            final(self).wf(),
            final(self)@ == old(self)@.after(Call::ObserveTime { reading }),
    {
        self.ts_provider.advance_to(reading);
        assert(self@.records =~= old(self)@.records);
    }

    /// The record of `id`, if the coordinator began that transaction.
    pub fn get(&self, id: &TransactionId) -> (r: Option<&CoordinatedTransaction<K>>)
        requires
            self.wf(),
        ensures
            match r {
                Some(rec) => self@.records.contains_key(*id) && rec@ == self@.records[*id]
                    && rec.wf(),
                None => !self@.records.contains_key(*id),
            },
    {
        let k = key(id);
        self.transactions.get(&k)
    }

    /// Create a new read transaction.
    pub fn new_read_tx(&mut self, keys: KeySet<K>, command: Vec<u8>) -> (msg: PreAccept<K>)
        requires
            old(self).wf(),
            old(self)@.can_begin(),
        ensures
            final(self).wf(),
            *msg.tx == (Transaction {
                id: old(self)@.upcoming(),
                kind: TransactionKind::Read,
                keys,
                command,
            }),
            !old(self)@.records.contains_key(msg.tx.id),
            final(self)@ == old(self)@.after(
                Call::Begin { kind: TransactionKind::Read, keys, command },
            ),
    {
        self.new_tx(keys, command, TransactionKind::Read)
    }

    /// Create a new write transaction.
    pub fn new_write_tx(&mut self, keys: KeySet<K>, command: Vec<u8>) -> (msg: PreAccept<K>)
        requires
            old(self).wf(),
            old(self)@.can_begin(),
        ensures
            final(self).wf(),
            *msg.tx == (Transaction {
                id: old(self)@.upcoming(),
                kind: TransactionKind::Write,
                keys,
                command,
            }),
            !old(self)@.records.contains_key(msg.tx.id),
            final(self)@ == old(self)@.after(
                Call::Begin { kind: TransactionKind::Write, keys, command },
            ),
    {
        self.new_tx(keys, command, TransactionKind::Write)
    }

    /// Begins a transaction: mints its id, files a fresh record for it and
    /// returns the message that announces it.
    pub fn new_tx(&mut self, keys: KeySet<K>, command: Vec<u8>, kind: TransactionKind) -> (msg:
        PreAccept<K>)
        requires
            old(self).wf(),
            old(self)@.can_begin(),
        ensures
            final(self).wf(),
            *msg.tx == (Transaction { id: old(self)@.upcoming(), kind, keys, command }),
            !old(self)@.records.contains_key(msg.tx.id),
            final(self)@ == old(self)@.after(Call::Begin { kind, keys, command }),
    {
        let ghost before = *self;
        let ts = self.ts_provider.unique_now();
        let id = TransactionId(ts);
        let tx = Arc::new(Transaction::new(id, kind, keys, command));
        let rec = CoordinatedTransaction::new(share(&tx));
        let k = key(&id);
        proof {
            if before.transactions@.contains_key(k) {
                lemma_key_of_injective(before.transactions@[k]@.tx.id, id);
            }
        }
        self.transactions.insert(k, rec);
        proof {
            assert forall|i: TransactionId|
                self@.records.contains_key(i) == before@.begun(*tx).records.contains_key(i) by {
                if key_of(i) == k {
                    lemma_key_of_injective(i, id);
                }
            }
            assert forall|i: TransactionId| self@.records.contains_key(i) implies self@.records[i]
                == before@.begun(*tx).records[i] by {
                if key_of(i) == k {
                    lemma_key_of_injective(i, id);
                }
            }
            assert(self@.records =~= before@.begun(*tx).records);
        }
        PreAccept { tx }
    }

    /// Refiling a record under its own key changes that record and nothing
    /// else.
    proof fn lemma_refiled(self, after: Self, rec: CoordinatedTransaction<K>)
        requires
            self.wf(),
            rec.wf(),
            after.tm == self.tm,
            after.ts_provider == self.ts_provider,
            after.transactions@ == self.transactions@.insert(key_of(rec@.tx.id), rec),
            rec@.tx.id.0.node == self.ts_provider.node(),
            rec@.tx.id.0.time < self.ts_provider.next_time(),
        ensures
            after.wf(),
            after@ == self@.with_record(rec@),
    {
        assert forall|id: TransactionId|
            after@.records.contains_key(id) == self@.with_record(rec@).records.contains_key(
                id,
            ) by {
            if key_of(id) == key_of(rec@.tx.id) {
                lemma_key_of_injective(id, rec@.tx.id);
            }
        }
        assert forall|id: TransactionId| after@.records.contains_key(id) implies after@.records[id]
            == self@.with_record(rec@).records[id] by {
            if key_of(id) == key_of(rec@.tx.id) {
                lemma_key_of_injective(id, rec@.tx.id);
            }
        }
        assert(after@.records =~= self@.with_record(rec@).records);
    }

    /// Store a proposal from some replica.
    ///
    /// Once the proposals allow a decision, the message to send is returned:
    /// a commit on the fast path, an accept on the slow path.
    pub fn store_proposal(&mut self, from: NodeId, msg: PreAcceptOk) -> (r: Result<
        Option<AcceptOrCommit>,
        AccordError,
    >)
        requires
            old(self).wf(),
        ensures
            final(self).wf(),
            final(self)@ == old(self)@.after(Call::Proposal { from, msg }),
            match old(self)@.proposal_step(from, msg) {
                Err(e) => r == Err::<Option<AcceptOrCommit>, AccordError>(e),
                Ok((rec, decision)) => r matches Ok(out) && announces(out, decision, rec),
            },
    {
        let k = key(&msg.tx_id);
        let topology = self.tm.get_current();
        let ghost before = *self;
        proof {
            if before.transactions@.contains_key(k) {
                lemma_key_of_injective(before.transactions@[k]@.tx.id, msg.tx_id);
            }
        }
        let r = match self.transactions.entry(k) {
            Entry::Vacant(_) => Err(AccordError::MissingTx(msg.tx_id)),
            Entry::Occupied(entry) => {
                let tx = entry.into_mut();
                match tx.preaccept_msg_received(from, msg.proposed, msg.deps) {
                    Err(e) => Err(e),
                    Ok(received) => {
                        let check = topology.check_quorum(received);
                        // Good to commit with original timestamp.
                        if tx.proposed_is_original() && check.have_fast_path {
                            tx.move_to_executing()?;
                            Ok(Some(AcceptOrCommit::Commit(tx.commit_msg())))
                        } else if tx.proposed_is_original() {
                            // Wait for some more messages before accepting. We might
                            // still get fast path.
                            Ok(None)
                        } else if check.have_slow_path {
                            // Accept highest timestamp we have so far if we have quorum.
                            tx.move_to_accepting()?;
                            Ok(Some(AcceptOrCommit::Accept(tx.accept_msg())))
                        } else {
                            // No quorum yet.
                            Ok(None)
                        }
                    },
                }
            },
        };
        proof {
            if before.transactions@.contains_key(k) {
                before.lemma_refiled(*self, self.transactions@[k]);
                if r is Err {
                    assert(self.transactions@ =~= before.transactions@);
                    assert(self@.records =~= before@.records);
                }
            } else {
                assert(self.transactions@ =~= before.transactions@);
            }
        }
        r
    }

    /// Store an acknowledgement of accept for a node. Returns a commit message
    /// once a simple quorum has been reached.
    pub fn store_accept_ok(&mut self, from: NodeId, msg: AcceptOk) -> (r: Result<
        Option<Commit>,
        AccordError,
    >)
        requires
            old(self).wf(),
        ensures
            final(self).wf(),
            final(self)@ == old(self)@.after(Call::Acknowledgement { from, msg }),
            match old(self)@.accept_ok_step(from, msg) {
                Err(e) => r == Err::<Option<Commit>, AccordError>(e),
                Ok((rec, decision)) => r matches Ok(out) && confirms(out, decision, rec),
            },
    {
        let k = key(&msg.tx_id);
        let topology = self.tm.get_current();
        let ghost before = *self;
        proof {
            if before.transactions@.contains_key(k) {
                lemma_key_of_injective(before.transactions@[k]@.tx.id, msg.tx_id);
            }
        }
        let r = match self.transactions.entry(k) {
            Entry::Vacant(_) => Err(AccordError::MissingTx(msg.tx_id)),
            Entry::Occupied(entry) => {
                let tx = entry.into_mut();
                match tx.accept_msg_received(from, msg.deps) {
                    Err(e) => Err(e),
                    Ok(received) => {
                        let check = topology.check_quorum(received);
                        if check.have_slow_path {
                            // Only need a simple quorum to commit.
                            Ok(Some(tx.commit_msg()))
                        } else {
                            // Need more messages.
                            Ok(None)
                        }
                    },
                }
            },
        };
        proof {
            if before.transactions@.contains_key(k) {
                before.lemma_refiled(*self, self.transactions@[k]);
                if r is Err {
                    assert(self.transactions@ =~= before.transactions@);
                    assert(self@.records =~= before@.records);
                }
            } else {
                assert(self.transactions@ =~= before.transactions@);
            }
        }
        r
    }

    /// Starts the execution of a transaction whose commit has gone out:
    /// returns the read request for the shards. The record is not changed.
    pub fn start_execute(&mut self, msg: StartExecuteInternal) -> (r: Result<Read, AccordError>)
        requires
            old(self).wf(),
        ensures
            *final(self) == *old(self),
            match r {
                Ok(read) => {
                    &&& old(self)@.records.contains_key(msg.tx_id)
                    &&& read.carries(
                        msg.tx_id,
                        old(self)@.records[msg.tx_id].proposed,
                        old(self)@.records[msg.tx_id].deps,
                    )
                },
                Err(e) => {
                    &&& !old(self)@.records.contains_key(msg.tx_id)
                    &&& e == AccordError::MissingTx(msg.tx_id)
                },
            },
    {
        let k = key(&msg.tx_id);
        proof {
            if self.transactions@.contains_key(k) {
                lemma_key_of_injective(self.transactions@[k]@.tx.id, msg.tx_id);
            }
        }
        match self.transactions.get(&k) {
            None => Err(AccordError::MissingTx(msg.tx_id)),
            Some(tx) => Ok(tx.read_msg()),
        }
    }

    /// Takes in the reads of a shard, runs the executor on them and returns
    /// the `Apply` message with what it computed. The record is not changed.
    pub fn store_read_ok<E>(&mut self, executor: &E, msg: ReadOk) -> (r: Result<
        Option<Apply>,
        AccordError,
    >) where E: Executor<K>
        requires
            old(self).wf(),
        ensures
            *final(self) == *old(self),
            if !old(self)@.records.contains_key(msg.tx_id) {
                r == Err::<Option<Apply>, AccordError>(AccordError::MissingTx(msg.tx_id))
            } else {
                let rec = old(self)@.records[msg.tx_id];
                exists|computed: Result<ComputeData, String>|
                    {
                        &&& #[trigger] computes(*executor, msg.data, rec.proposed, rec.tx, computed)
                        &&& applies(r, rec, computed)
                    }
            },
    {
        let k = key(&msg.tx_id);
        proof {
            if self.transactions@.contains_key(k) {
                lemma_key_of_injective(self.transactions@[k]@.tx.id, msg.tx_id);
            }
        }
        match self.transactions.get(&k) {
            None => Err(AccordError::MissingTx(msg.tx_id)),
            Some(tx) => {
                let proposed = tx.proposed();
                let computed = executor.compute(&msg.data, &proposed, tx.inner());
                let ghost given = computed;
                let r = tx.apply_computed(computed);
                assert(computes(*executor, msg.data, tx@.proposed, tx@.tx, given));
                assert(applies(r, tx@, given));
                r
            },
        }
    }
}

} // verus!
