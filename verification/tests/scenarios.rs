use accord::coordinator::{AcceptOrCommit, CoordinatorState};
use accord::errors::{AccordError, Attempt, PhaseKind};
use accord::executor::Executor;
use accord::keys::KeySet;
use accord::protocol::{AcceptOk, PreAcceptOk, ReadOk, StartExecuteInternal};
use accord::timestamp::{NodeId, Timestamp};
use accord::topology::{Topology, TopologyManager};
use accord::transaction::{Transaction, TransactionId, TransactionKind};
use std::sync::Arc;

const A: NodeId = 1;
const B: NodeId = 2;
const C: NodeId = 3;

fn ts(time: u64, node: NodeId) -> Timestamp {
    Timestamp { time, node }
}

fn t(n: u64) -> TransactionId {
    TransactionId(ts(n, C))
}

/// Three replicas; the fast path needs all three, the slow path two.
fn coordinator_at_a() -> CoordinatorState<String> {
    let topology = Topology::new(vec![A, B, C], 3).unwrap();
    let mut c = CoordinatorState::new(Arc::new(TopologyManager::new(topology)), A);
    c.observe_time(10);
    c
}

fn begin(c: &mut CoordinatorState<String>) -> TransactionId {
    assert!(c.can_begin());
    let pre = c.new_write_tx(KeySet::single("k1".to_string()), b"x".to_vec());
    pre.tx.id
}

fn proposal(id: TransactionId, proposed: Timestamp, deps: Vec<TransactionId>) -> PreAcceptOk {
    PreAcceptOk { tx_id: id, proposed, deps }
}

struct Upper;

impl Executor<String> for Upper {
    fn compute(
        &self,
        data: &Vec<u8>,
        _timestamp: &Timestamp,
        tx: &Transaction<String>,
    ) -> Result<Vec<u8>, String> {
        let mut out = tx.command.clone();
        out.extend(data.iter().map(|b| b.to_ascii_uppercase()));
        Ok(out)
    }
}

struct Failing;

impl Executor<String> for Failing {
    fn compute(
        &self,
        _data: &Vec<u8>,
        _timestamp: &Timestamp,
        _tx: &Transaction<String>,
    ) -> Result<Vec<u8>, String> {
        Err("disk on fire".to_string())
    }
}

#[test]
fn begin_mints_the_observed_time() {
    let mut c = coordinator_at_a();
    let pre = c.new_write_tx(KeySet::single("k1".to_string()), b"x".to_vec());
    assert_eq!(pre.tx.id, TransactionId(ts(10, A)));
    assert_eq!(pre.tx.kind, TransactionKind::Write);
    assert_eq!(pre.tx.command, b"x".to_vec());
    assert_eq!(pre.tx.keys.first(), "k1");
    let rec = c.get(&pre.tx.id).unwrap();
    assert_eq!(rec.phase(), PhaseKind::PreAccepting);
    assert_eq!(rec.proposed(), ts(10, A));
    assert!(rec.deps().is_empty());
}

#[test]
fn announced_transaction_is_the_one_on_file() {
    let mut c = coordinator_at_a();
    let pre = c.new_read_tx(
        KeySet::from_vec(vec!["k1".to_string(), "k2".to_string()]).unwrap(),
        b"select".to_vec(),
    );
    let rec = c.get(&pre.tx.id).unwrap();
    assert_eq!(*rec.inner(), *pre.tx);
    assert_eq!(rec.inner().kind, TransactionKind::Read);
    assert_eq!(rec.inner().keys.first(), "k1");
    assert_eq!(rec.inner().keys.others(), &vec!["k2".to_string()]);
    // The message and the record share one transaction.
    assert_eq!(Arc::strong_count(&pre.tx), 2);
}

#[test]
fn fast_path_commit() {
    let mut c = coordinator_at_a();
    let id = begin(&mut c);
    assert_eq!(id, TransactionId(ts(10, A)));
    assert_eq!(c.store_proposal(A, proposal(id, ts(10, A), vec![])), Ok(None));
    assert_eq!(c.store_proposal(B, proposal(id, ts(10, A), vec![])), Ok(None));
    let out = c.store_proposal(C, proposal(id, ts(10, A), vec![])).unwrap();
    match out {
        Some(AcceptOrCommit::Commit(commit)) => {
            assert_eq!(commit.tx_id, id);
            assert_eq!(commit.timestamp, ts(10, A));
            assert!(commit.deps.is_empty());
        }
        other => panic!("expected a commit, got {:?}", other),
    }
    assert_eq!(c.get(&id).unwrap().phase(), PhaseKind::Executing);
}

#[test]
fn slow_path_after_timestamp_push() {
    let mut c = coordinator_at_a();
    let id = begin(&mut c);
    assert_eq!(c.store_proposal(A, proposal(id, ts(10, A), vec![])), Ok(None));
    let out = c.store_proposal(B, proposal(id, ts(15, B), vec![t(7)])).unwrap();
    match out {
        Some(AcceptOrCommit::Accept(accept)) => {
            assert_eq!(accept.tx_id, id);
            assert_eq!(accept.timestamp, ts(15, B));
            assert_eq!(accept.deps, vec![t(7)]);
        }
        other => panic!("expected an accept, got {:?}", other),
    }
    assert_eq!(c.get(&id).unwrap().phase(), PhaseKind::Accepting);

    assert_eq!(c.store_accept_ok(A, AcceptOk { tx_id: id, deps: vec![] }), Ok(None));
    let commit = c
        .store_accept_ok(B, AcceptOk { tx_id: id, deps: vec![t(7), t(9)] })
        .unwrap()
        .unwrap();
    assert_eq!(commit.tx_id, id);
    assert_eq!(commit.timestamp, ts(15, B));
    assert_eq!(commit.deps, vec![t(7), t(9)]);
    // Commit goes out without a change of phase.
    assert_eq!(c.get(&id).unwrap().phase(), PhaseKind::Accepting);
}

#[test]
fn wait_before_decision() {
    let mut c = coordinator_at_a();
    let id = begin(&mut c);
    assert_eq!(c.store_proposal(A, proposal(id, ts(10, A), vec![])), Ok(None));
    let rec = c.get(&id).unwrap();
    assert_eq!(rec.phase(), PhaseKind::PreAccepting);
    assert!(rec.has_responded(A));
    assert!(!rec.has_responded(B));
}

#[test]
fn dep_union() {
    let mut c = coordinator_at_a();
    let id = begin(&mut c);
    // A later timestamp from a single node keeps the record pre-accepting
    // until a majority has answered; the deps are merged at each step.
    c.store_proposal(A, proposal(id, ts(10, A), vec![t(1)])).unwrap();
    assert_eq!(c.get(&id).unwrap().deps(), vec![t(1)]);
    c.store_proposal(B, proposal(id, ts(10, A), vec![t(2)])).unwrap();
    assert_eq!(c.get(&id).unwrap().deps(), vec![t(1), t(2)]);
    c.store_proposal(C, proposal(id, ts(10, A), vec![t(1), t(3)])).unwrap();
    assert_eq!(c.get(&id).unwrap().deps(), vec![t(1), t(2), t(3)]);
}

#[test]
fn missing_tx() {
    let mut c = coordinator_at_a();
    let unknown = TransactionId(ts(99, A));
    assert_eq!(
        c.store_proposal(B, proposal(unknown, ts(99, A), vec![])),
        Err(AccordError::MissingTx(unknown))
    );
    assert_eq!(
        c.store_accept_ok(B, AcceptOk { tx_id: unknown, deps: vec![] }),
        Err(AccordError::MissingTx(unknown))
    );
    assert_eq!(
        c.start_execute(StartExecuteInternal { tx_id: unknown }),
        Err(AccordError::MissingTx(unknown))
    );
    assert_eq!(
        c.store_read_ok(&Upper, ReadOk { tx_id: unknown, data: vec![] }),
        Err(AccordError::MissingTx(unknown))
    );
}

#[test]
fn executor_error_surfaced() {
    let mut c = coordinator_at_a();
    let id = begin(&mut c);
    for node in [A, B, C] {
        c.store_proposal(node, proposal(id, ts(10, A), vec![])).unwrap();
    }
    let read = c.start_execute(StartExecuteInternal { tx_id: id }).unwrap();
    assert_eq!(read.tx_id, id);
    assert_eq!(read.timestamp, ts(10, A));
    let r = c.store_read_ok(&Failing, ReadOk { tx_id: id, data: b"abc".to_vec() });
    assert_eq!(r, Err(AccordError::ExecutorError("disk on fire".to_string())));
    assert_eq!(c.get(&id).unwrap().phase(), PhaseKind::Executing);
}

#[test]
fn read_ok_gives_apply() {
    let mut c = coordinator_at_a();
    let id = begin(&mut c);
    for node in [A, B, C] {
        c.store_proposal(node, proposal(id, ts(10, A), vec![t(4)])).unwrap();
    }
    let apply = c
        .store_read_ok(&Upper, ReadOk { tx_id: id, data: b"abc".to_vec() })
        .unwrap()
        .unwrap();
    assert_eq!(apply.tx_id, id);
    assert_eq!(apply.timestamp, ts(10, A));
    assert_eq!(apply.deps, vec![t(4)]);
    assert_eq!(apply.data, b"xABC".to_vec());
}

#[test]
fn late_proposal_is_refused() {
    let mut c = coordinator_at_a();
    let id = begin(&mut c);
    for node in [A, B, C] {
        c.store_proposal(node, proposal(id, ts(10, A), vec![])).unwrap();
    }
    assert_eq!(
        c.store_proposal(C, proposal(id, ts(10, A), vec![t(5)])),
        Err(AccordError::InvalidPhase {
            phase: PhaseKind::Executing,
            attempted: Attempt::PreAcceptOk
        })
    );
    assert!(c.get(&id).unwrap().deps().is_empty());
}
