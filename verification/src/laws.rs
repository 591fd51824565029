//! What holds of the coordinator whatever the replicas answer, stated over
//! the values that the contracts of the handlers speak of.

use crate::coordinator::{Call, CoordinatorView};
use crate::deps::lemma_ascending_unique;
use crate::errors::{AccordError, Attempt};
use crate::protocol::{lists, AcceptOk, PreAcceptOk};
use crate::record::{Decision, Event, PhaseView, RecordView};
use crate::timestamp::{NodeId, Timestamp};
use crate::topology::Topology;
use crate::transaction::TransactionId;
use vstd::prelude::*;

verus! {

/// Whether the record `later` has grown out of `earlier`: the same
/// transaction, a proposed timestamp that is not earlier, no dependency
/// lost, and a phase that is not further back.
pub open spec fn grown_from<K>(later: RecordView<K>, earlier: RecordView<K>) -> bool {
    &&& later.tx == earlier.tx
    &&& earlier.proposed.at_or_before(later.proposed)
    &&& earlier.deps.subset_of(later.deps)
    &&& earlier.phase.rank() <= later.phase.rank()
}

/// Handling one event keeps the record's invariant and lets the record
/// only grow.
pub proof fn lemma_step_grows<K>(rec: RecordView<K>, topology: Topology, event: Event)
    requires
        rec.inv(),
    ensures
        rec.step(topology, event).inv(),
        grown_from(rec.step(topology, event), rec),
{
}

/// Handling any events, one after another, keeps the record's invariant,
/// and the record after all of them has grown out of the record after the
/// first `n`.
pub proof fn lemma_run_grows<K>(rec: RecordView<K>, topology: Topology, events: Seq<Event>, n: int)
    requires
        rec.inv(),
        0 <= n <= events.len(),
    ensures
        rec.run(topology, events).inv(),
        rec.run(topology, events.take(n)).inv(),
        grown_from(rec.run(topology, events), rec.run(topology, events.take(n))),
    decreases events.len(),
{
    if n == events.len() {
        assert(events.take(n) =~= events);
        if events.len() > 0 {
            lemma_run_grows(rec, topology, events.drop_last(), 0);
            lemma_step_grows(rec.run(topology, events.drop_last()), topology, events.last());
        }
    } else {
        let front = events.drop_last();
        assert(front.take(n) =~= events.take(n));
        lemma_run_grows(rec, topology, front, n);
        lemma_step_grows(rec.run(topology, front), topology, events.last());
    }
}

/// Over any sequence of proposals, and of any other events, for one
/// transaction, the proposed timestamp never moves back and is never
/// earlier than the transaction's own timestamp.
pub proof fn lemma_proposed_never_regresses<K>(
    rec: RecordView<K>,
    topology: Topology,
    events: Seq<Event>,
    n: int,
)
    requires
        rec.inv(),
        0 <= n <= events.len(),
    ensures
        rec.tx.id.0.at_or_before(rec.run(topology, events.take(n)).proposed),
        rec.run(topology, events.take(n)).proposed.at_or_before(rec.run(topology, events).proposed),
{
    lemma_run_grows(rec, topology, events, n);
    assert(events.take(n).take(0) =~= Seq::<Event>::empty());
    lemma_run_grows(rec, topology, events.take(n), 0);
}

/// Over any sequence of events for one transaction, the set of
/// dependencies only grows.
pub proof fn lemma_deps_only_grow<K>(
    rec: RecordView<K>,
    topology: Topology,
    events: Seq<Event>,
    n: int,
)
    requires
        rec.inv(),
        0 <= n <= events.len(),
    ensures
        rec.run(topology, events.take(n)).deps.subset_of(rec.run(topology, events).deps),
{
    lemma_run_grows(rec, topology, events, n);
}

/// Over any sequence of events for one transaction, the phase moves only
/// forward in the order pre-accepting, accepting, executing: the phases
/// seen are a prefix of that order, with accepting left out on the fast
/// path.
pub proof fn lemma_phase_only_advances<K>(
    rec: RecordView<K>,
    topology: Topology,
    events: Seq<Event>,
    n: int,
)
    requires
        rec.inv(),
        0 <= n <= events.len(),
    ensures
        rec.run(topology, events.take(n)).phase.rank() <= rec.run(topology, events).phase.rank(),
{
    lemma_run_grows(rec, topology, events, n);
}

/// The grounds of a decision on a proposal. A commit keeps the
/// transaction's own timestamp and has a fast-path quorum behind it; an
/// accept carries a strictly later timestamp and has a simple majority
/// behind it.
pub proof fn lemma_decision_grounds<K>(
    rec: RecordView<K>,
    topology: Topology,
    from: NodeId,
    proposed: Timestamp,
    deps: Set<TransactionId>,
)
    requires
        rec.inv(),
        rec.phase is PreAccepting,
        topology.wf(),
    ensures
        ({
            let taken = rec.with_proposal(from, proposed, deps);
            let check = topology.quorum(taken.phase.responded());
            let decided = rec.after_proposal(topology, from, proposed, deps);
            match rec.decision_on_proposal(topology, from, proposed, deps) {
                Decision::Commit => {
                    &&& decided.proposed == rec.tx.id.0
                    &&& check.have_fast_path
                    &&& check.have_slow_path
                    &&& decided.phase is Executing
                },
                Decision::Accept => {
                    &&& rec.tx.id.0.before(decided.proposed)
                    &&& check.have_slow_path
                    &&& decided.phase == PhaseView::Accepting { responded: Set::<NodeId>::empty() }
                },
                Decision::Wait => decided == taken,
            }
        }),
{
    let taken = rec.with_proposal(from, proposed, deps);
    topology.lemma_fast_implies_slow(taken.phase.responded());
}

/// Handling the same proposal from the same node a second time changes
/// nothing. It also leads to the same decision, unless the first time
/// moved the record on: then the record is no longer pre-accepting.
pub proof fn lemma_proposal_twice<K>(
    rec: RecordView<K>,
    topology: Topology,
    from: NodeId,
    proposed: Timestamp,
    deps: Set<TransactionId>,
)
    requires
        rec.phase is PreAccepting,
    ensures
        ({
            let once = rec.after_proposal(topology, from, proposed, deps);
            let decision = rec.decision_on_proposal(topology, from, proposed, deps);
            &&& once.after_proposal(topology, from, proposed, deps) == once
            &&& decision == Decision::Wait ==> once.phase is PreAccepting
                && once.decision_on_proposal(topology, from, proposed, deps) == Decision::Wait
            &&& decision != Decision::Wait ==> !(once.phase is PreAccepting)
        }),
{
    let taken = rec.with_proposal(from, proposed, deps);
    let again = taken.with_proposal(from, proposed, deps);
    assert(again.deps =~= taken.deps);
    assert(again.phase.responded() =~= taken.phase.responded());
    assert(again == taken);
}

/// Handling the same acknowledgement from the same node a second time
/// changes nothing and leads to the same decision.
pub proof fn lemma_accept_ok_twice<K>(
    rec: RecordView<K>,
    topology: Topology,
    from: NodeId,
    deps: Set<TransactionId>,
)
    ensures
        ({
            let once = rec.with_accept_ok(from, deps);
            &&& once.with_accept_ok(from, deps) == once
            &&& once.decision_on_accept_ok(topology, from, deps) == rec.decision_on_accept_ok(
                topology,
                from,
                deps,
            )
        }),
{
    let once = rec.with_accept_ok(from, deps);
    let again = once.with_accept_ok(from, deps);
    assert(again.deps =~= once.deps);
    assert(again.phase.responded() =~= once.phase.responded());
    assert(again == once);
}

/// A message that lists a set of dependencies is determined by that set:
/// two ascending lists of the same set are the same list.
pub proof fn lemma_listing_unique(
    a: Seq<TransactionId>,
    b: Seq<TransactionId>,
    deps: Set<TransactionId>,
)
    requires
        lists(a, deps),
        lists(b, deps),
    ensures
        a == b,
{
    lemma_ascending_unique(a, b);
}

/// Every call keeps the coordinator's invariant, never turns the logical
/// clock back, and lets each record that is there only grow.
pub proof fn lemma_call_grows<K>(c: CoordinatorView<K>, call: Call<K>)
    requires
        c.inv(),
    ensures
        c.after(call).inv(),
        c.after(call).node == c.node,
        c.after(call).topology == c.topology,
        c.after(call).next_time >= c.next_time,
        forall|id: TransactionId| #[trigger]
            c.records.contains_key(id) ==> c.after(call).records.contains_key(id) && grown_from(
                c.after(call).records[id],
                c.records[id],
            ),
{
    match call {
        Call::Begin { .. } => {},
        Call::ObserveTime { .. } => {},
        Call::Proposal { from, msg } => {
            if c.records.contains_key(msg.tx_id) {
                lemma_step_grows(
                    c.records[msg.tx_id],
                    c.topology,
                    Event::Proposal { from, proposed: msg.proposed, deps: msg.deps@.to_set() },
                );
            }
        },
        Call::Acknowledgement { from, msg } => {
            if c.records.contains_key(msg.tx_id) {
                lemma_step_grows(
                    c.records[msg.tx_id],
                    c.topology,
                    Event::Acknowledgement { from, deps: msg.deps@.to_set() },
                );
            }
        },
        Call::StartExecute { .. } => {},
        Call::Reads { .. } => {},
    }
}

/// Any calls, one after another, keep the coordinator's invariant and
/// never turn the logical clock back.
pub proof fn lemma_calls_keep_inv<K>(c: CoordinatorView<K>, calls: Seq<Call<K>>)
    requires
        c.inv(),
    ensures
        c.run(calls).inv(),
        c.run(calls).node == c.node,
        c.run(calls).topology == c.topology,
        c.run(calls).next_time >= c.next_time,
    decreases calls.len(),
{
    if calls.len() > 0 {
        lemma_calls_keep_inv(c, calls.drop_last());
        lemma_call_grows(c.run(calls.drop_last()), calls.last());
    }
}

/// Across all calls of the coordinator, a record stays on file and only
/// grows: its proposed timestamp never moves back, it loses no dependency,
/// and its phase never goes back.
pub proof fn lemma_records_only_grow<K>(
    c: CoordinatorView<K>,
    calls: Seq<Call<K>>,
    id: TransactionId,
)
    requires
        c.inv(),
        c.records.contains_key(id),
    ensures
        c.run(calls).records.contains_key(id),
        grown_from(c.run(calls).records[id], c.records[id]),
        c.run(calls).records[id].tx.id.0.at_or_before(c.run(calls).records[id].proposed),
    decreases calls.len(),
{
    if calls.len() > 0 {
        lemma_records_only_grow(c, calls.drop_last(), id);
        lemma_calls_keep_inv(c, calls.drop_last());
        lemma_call_grows(c.run(calls.drop_last()), calls.last());
    }
}

/// Two transactions that the coordinator begins get strictly ordered ids,
/// whatever it is called with in between: the id of the one begun first is
/// before the id that any later one gets.
pub proof fn lemma_begin_twice<K>(c: CoordinatorView<K>, first: Call<K>, between: Seq<Call<K>>)
    requires
        c.inv(),
        c.can_begin(),
        first is Begin,
    ensures
        c.after(first).records.contains_key(c.upcoming()),
        c.upcoming().before(c.after(first).run(between).upcoming()),
{
    lemma_call_grows(c, first);
    lemma_calls_keep_inv(c.after(first), between);
}

/// Records come on file by beginning a transaction and in no other way,
/// and no call takes one off.
pub proof fn lemma_records_on_file<K>(c: CoordinatorView<K>, call: Call<K>)
    ensures
        c.after(call).records.dom() == if call is Begin && c.can_begin() {
            c.records.dom().insert(c.upcoming())
        } else {
            c.records.dom()
        },
{
    if call is Begin && c.can_begin() {
        assert(c.after(call).records.dom() =~= c.records.dom().insert(c.upcoming()));
    } else {
        assert(c.after(call).records.dom() =~= c.records.dom());
    }
}

/// A transaction that begins gets an id that no record is filed under.
pub proof fn lemma_begin_is_fresh<K>(c: CoordinatorView<K>)
    requires
        c.inv(),
    ensures
        !c.records.contains_key(c.upcoming()),
{
}

/// The same proposal from the same node, stored a second time, leaves the
/// coordinator as it is. Its outcome is that of the first time where that
/// was an error or a wait; if the first time led to a decision, the
/// second is refused because the record has moved on.
pub proof fn lemma_store_proposal_twice<K>(c: CoordinatorView<K>, from: NodeId, msg: PreAcceptOk)
    ensures
        ({
            let once = c.after(Call::Proposal { from, msg });
            &&& once.after(Call::Proposal { from, msg }) == once
            &&& match c.proposal_step(from, msg) {
                Err(e) => once.proposal_step(from, msg) == Err::<(RecordView<K>, Decision), _>(e),
                Ok((rec, Decision::Wait)) => once.proposal_step(from, msg) == Ok::<
                    _,
                    AccordError,
                >((rec, Decision::Wait)),
                Ok((rec, _)) => once.proposal_step(from, msg) == Err::<
                    (RecordView<K>, Decision),
                    _,
                >(
                    AccordError::InvalidPhase {
                        phase: rec.phase.kind(),
                        attempted: Attempt::PreAcceptOk,
                    },
                ),
            }
        }),
{
    let once = c.after(Call::Proposal { from, msg });
    if c.records.contains_key(msg.tx_id) {
        let rec = c.records[msg.tx_id];
        if rec.phase is PreAccepting {
            lemma_proposal_twice(rec, c.topology, from, msg.proposed, msg.deps@.to_set());
        }
        assert(once.after(Call::Proposal { from, msg }).records =~= once.records);
    }
}

/// The same acknowledgement from the same node, stored a second time,
/// leaves the coordinator as it is and has the same outcome.
pub proof fn lemma_store_accept_ok_twice<K>(c: CoordinatorView<K>, from: NodeId, msg: AcceptOk)
    ensures
        ({
            let once = c.after(Call::Acknowledgement { from, msg });
            &&& once.after(Call::Acknowledgement { from, msg }) == once
            &&& once.accept_ok_step(from, msg) == c.accept_ok_step(from, msg)
        }),
{
    let once = c.after(Call::Acknowledgement { from, msg });
    if c.records.contains_key(msg.tx_id) {
        let rec = c.records[msg.tx_id];
        lemma_accept_ok_twice(rec, c.topology, from, msg.deps@.to_set());
        assert(once.after(Call::Acknowledgement { from, msg }).records =~= once.records);
    }
}

/// Starting execution and storing reads leave the coordinator as it is.
pub proof fn lemma_execution_changes_nothing<K>(c: CoordinatorView<K>, call: Call<K>)
    requires
        call is StartExecute || call is Reads,
    ensures
        c.after(call) == c,
{
    assert(c.after(call).records =~= c.records);
}

} // verus!
