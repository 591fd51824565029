use accord::coordinator::{AcceptOrCommit, CoordinatorState};
use accord::errors::{AccordError, Attempt, PhaseKind};
use accord::keys::KeySet;
use accord::protocol::{AcceptOk, PreAcceptOk, ReadOk, StartExecuteInternal};
use accord::executor::Executor;
use accord::timestamp::{NodeId, Timestamp};
use accord::topology::{Topology, TopologyManager};
use accord::transaction::{Transaction, TransactionId};
use std::sync::Arc;

fn ts(time: u64, node: NodeId) -> Timestamp {
    Timestamp::new(time, node)
}

fn t(n: u64) -> TransactionId {
    TransactionId(ts(n, 9))
}

fn coordinator(replicas: Vec<NodeId>, fast: usize, node: NodeId) -> CoordinatorState<u32> {
    let topology = Topology::new(replicas, fast).unwrap();
    CoordinatorState::new(Arc::new(TopologyManager::new(topology)), node)
}

fn begin(c: &mut CoordinatorState<u32>) -> TransactionId {
    assert!(c.can_begin());
    c.new_read_tx(KeySet::single(1), vec![]).tx.id
}

fn rank(phase: PhaseKind) -> u8 {
    match phase {
        PhaseKind::PreAccepting => 0,
        PhaseKind::Accepting => 1,
        PhaseKind::Executing => 2,
    }
}

struct Identity;

impl Executor<u32> for Identity {
    fn compute(
        &self,
        data: &Vec<u8>,
        _timestamp: &Timestamp,
        _tx: &Transaction<u32>,
    ) -> Result<Vec<u8>, String> {
        Ok(data.clone())
    }
}

/// What can be seen of a record from outside.
fn snapshot(
    c: &CoordinatorState<u32>,
    id: TransactionId,
) -> (Timestamp, Vec<TransactionId>, PhaseKind, Vec<bool>) {
    let rec = c.get(&id).unwrap();
    let responded = (0..8).map(|n| rec.has_responded(n)).collect();
    (rec.proposed(), rec.deps(), rec.phase(), responded)
}

#[test]
fn record_only_grows_over_a_run() {
    // Five replicas, so that many proposals arrive before a decision.
    let mut c = coordinator(vec![1, 2, 3, 4, 5], 5, 1);
    c.observe_time(100);
    let id = begin(&mut c);
    assert_eq!(id, TransactionId(ts(100, 1)));
    let proposals = [
        (1, ts(100, 1), vec![t(3)]),
        (2, ts(90, 2), vec![t(1)]),
        (2, ts(90, 2), vec![t(1)]),
        (3, ts(105, 3), vec![t(3), t(7)]),
        (4, ts(103, 4), vec![]),
        (5, ts(120, 5), vec![t(2)]),
    ];
    let mut last = snapshot(&c, id);
    for (from, proposed, deps) in proposals {
        let _ = c.store_proposal(from, PreAcceptOk { tx_id: id, proposed, deps });
        let now = snapshot(&c, id);
        assert!(now.0 >= last.0);
        assert!(now.0 >= id.0);
        assert!(last.1.iter().all(|d| now.1.contains(d)));
        assert!(rank(now.2) >= rank(last.2));
        last = now;
    }
    // The third replica pushed the timestamp and made a majority.
    assert_eq!(last.2, PhaseKind::Accepting);
    assert_eq!(last.0, ts(105, 3));
    assert_eq!(last.1, vec![t(1), t(3), t(7)]);

    for (from, deps) in [(1, vec![t(8)]), (2, vec![]), (3, vec![t(1)]), (3, vec![t(1)])] {
        let _ = c.store_accept_ok(from, AcceptOk { tx_id: id, deps });
        let _ = c.start_execute(StartExecuteInternal { tx_id: id });
        let _ = c.store_read_ok(&Identity, ReadOk { tx_id: id, data: vec![1] });
        let now = snapshot(&c, id);
        assert_eq!(now.0, last.0);
        assert!(last.1.iter().all(|d| now.1.contains(d)));
        assert!(rank(now.2) >= rank(last.2));
        last = now;
    }
    assert_eq!(last.1, vec![t(1), t(3), t(7), t(8)]);
}

#[test]
fn same_proposal_twice_while_waiting() {
    let mut c = coordinator(vec![1, 2, 3], 3, 1);
    let id = begin(&mut c);
    let msg = PreAcceptOk { tx_id: id, proposed: id.0, deps: vec![t(5), t(4)] };
    let first = c.store_proposal(2, msg.clone());
    let after_first = snapshot(&c, id);
    let second = c.store_proposal(2, msg);
    assert_eq!(first, Ok(None));
    assert_eq!(second, first);
    assert_eq!(snapshot(&c, id), after_first);
}

#[test]
fn same_proposal_twice_after_the_decision() {
    let mut c = coordinator(vec![1, 2, 3], 2, 1);
    let id = begin(&mut c);
    c.store_proposal(1, PreAcceptOk { tx_id: id, proposed: id.0, deps: vec![] }).unwrap();
    let msg = PreAcceptOk { tx_id: id, proposed: id.0, deps: vec![t(2)] };
    let first = c.store_proposal(2, msg.clone()).unwrap();
    assert!(matches!(first, Some(AcceptOrCommit::Commit(_))));
    let after_first = snapshot(&c, id);
    let second = c.store_proposal(2, msg);
    assert_eq!(
        second,
        Err(AccordError::InvalidPhase {
            phase: PhaseKind::Executing,
            attempted: Attempt::PreAcceptOk
        })
    );
    assert_eq!(snapshot(&c, id), after_first);
}

#[test]
fn same_accept_ok_twice() {
    let mut c = coordinator(vec![1, 2, 3], 3, 1);
    let id = begin(&mut c);
    c.store_proposal(1, PreAcceptOk { tx_id: id, proposed: ts(5, 2), deps: vec![] }).unwrap();
    c.store_proposal(2, PreAcceptOk { tx_id: id, proposed: ts(6, 2), deps: vec![] }).unwrap();
    assert_eq!(c.get(&id).unwrap().phase(), PhaseKind::Accepting);

    // Below the quorum: both times nothing to send.
    let msg = AcceptOk { tx_id: id, deps: vec![t(3)] };
    let first = c.store_accept_ok(1, msg.clone());
    let after_first = snapshot(&c, id);
    assert_eq!(first, Ok(None));
    assert_eq!(c.store_accept_ok(1, msg), first);
    assert_eq!(snapshot(&c, id), after_first);

    // At the quorum: both times the same commit.
    let msg = AcceptOk { tx_id: id, deps: vec![t(1)] };
    let first = c.store_accept_ok(3, msg.clone());
    let after_first = snapshot(&c, id);
    let commit = first.clone().unwrap().unwrap();
    assert_eq!(commit.timestamp, ts(6, 2));
    assert_eq!(commit.deps, vec![t(1), t(3)]);
    assert_eq!(c.store_accept_ok(3, msg), first);
    assert_eq!(snapshot(&c, id), after_first);
}

#[test]
fn begin_twice_gives_ordered_ids() {
    let mut c = coordinator(vec![1, 2, 3], 3, 2);
    let a = begin(&mut c);
    let b = begin(&mut c);
    assert_eq!(a, TransactionId(ts(0, 2)));
    assert_eq!(b, TransactionId(ts(1, 2)));
    assert!(a.is_before(&b));

    // Whatever happens in between, a clock that goes back included.
    c.observe_time(50);
    let d = begin(&mut c);
    c.observe_time(10);
    let _ = c.store_proposal(1, PreAcceptOk { tx_id: a, proposed: ts(900, 3), deps: vec![] });
    let _ = c.store_proposal(3, PreAcceptOk { tx_id: a, proposed: ts(900, 3), deps: vec![] });
    let e = begin(&mut c);
    assert_eq!(d, TransactionId(ts(50, 2)));
    assert_eq!(e, TransactionId(ts(51, 2)));
    assert!(b.is_before(&d) && d.is_before(&e));
    // All four records are on file, each under its own id.
    for id in [a, b, d, e] {
        assert_eq!(c.get(&id).unwrap().inner().id, id);
    }
}

#[test]
fn records_do_not_disturb_each_other() {
    let mut c = coordinator(vec![1, 2, 3], 3, 1);
    let a = begin(&mut c);
    let b = begin(&mut c);
    c.store_proposal(1, PreAcceptOk { tx_id: a, proposed: ts(7, 3), deps: vec![t(1)] }).unwrap();
    c.store_proposal(2, PreAcceptOk { tx_id: a, proposed: ts(7, 3), deps: vec![t(2)] }).unwrap();
    assert_eq!(c.get(&a).unwrap().phase(), PhaseKind::Accepting);
    let other = c.get(&b).unwrap();
    assert_eq!(other.phase(), PhaseKind::PreAccepting);
    assert_eq!(other.proposed(), b.0);
    assert!(other.deps().is_empty());
    assert!(!other.has_responded(1));
}

#[test]
fn ids_from_other_nodes_are_unknown() {
    let mut c = coordinator(vec![1, 2, 3], 3, 1);
    let id = begin(&mut c);
    // Same logical time, other node.
    let foreign = TransactionId(ts(id.0.time, 2));
    assert!(c.get(&foreign).is_none());
    assert_eq!(
        c.store_accept_ok(1, AcceptOk { tx_id: foreign, deps: vec![] }),
        Err(AccordError::MissingTx(foreign))
    );
    assert!(c.get(&id).is_some());
}

#[test]
fn clock_runs_out() {
    let mut c = coordinator(vec![1], 1, 1);
    c.observe_time(u64::MAX - 1);
    assert!(c.can_begin());
    let id = begin(&mut c);
    assert_eq!(id, TransactionId(ts(u64::MAX - 1, 1)));
    assert!(!c.can_begin());
    assert!(c.get(&id).is_some());
}
