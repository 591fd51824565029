use accord::deps::DepSet;
use accord::timestamp::Timestamp;
use accord::transaction::TransactionId;

fn t(time: u64, node: u64) -> TransactionId {
    TransactionId(Timestamp::new(time, node))
}

#[test]
fn new_dep_set_is_empty() {
    let d = DepSet::new();
    assert_eq!(d.len(), 0);
    assert!(d.to_vec().is_empty());
    assert!(!d.contains(&t(1, 1)));
}

#[test]
fn insert_keeps_ascending_order_and_drops_repeats() {
    let mut d = DepSet::new();
    assert!(d.insert(t(5, 1)));
    assert!(d.insert(t(2, 9)));
    assert!(d.insert(t(5, 0)));
    assert!(!d.insert(t(2, 9)));
    assert!(d.insert(t(9, 3)));
    assert!(!d.insert(t(5, 1)));
    assert_eq!(d.len(), 4);
    assert_eq!(d.to_vec(), vec![t(2, 9), t(5, 0), t(5, 1), t(9, 3)]);
    assert!(d.contains(&t(5, 0)));
    assert!(d.contains(&t(9, 3)));
    assert!(!d.contains(&t(5, 2)));
    assert!(!d.contains(&t(1, 0)));
    assert!(!d.contains(&t(10, 0)));
}

#[test]
fn merge_is_set_union() {
    let mut d = DepSet::new();
    d.merge(&vec![t(3, 1), t(1, 1), t(3, 1)]);
    assert_eq!(d.to_vec(), vec![t(1, 1), t(3, 1)]);
    d.merge(&vec![]);
    assert_eq!(d.to_vec(), vec![t(1, 1), t(3, 1)]);
    d.merge(&vec![t(2, 1), t(1, 1), t(4, 1)]);
    assert_eq!(d.to_vec(), vec![t(1, 1), t(2, 1), t(3, 1), t(4, 1)]);
}

#[test]
fn merge_twice_is_merge_once() {
    let mut once = DepSet::new();
    once.merge(&vec![t(7, 2), t(4, 2)]);
    let mut twice = DepSet::new();
    twice.merge(&vec![t(7, 2), t(4, 2)]);
    twice.merge(&vec![t(7, 2), t(4, 2)]);
    assert_eq!(once.to_vec(), twice.to_vec());
}

#[test]
fn extreme_ids_are_kept_apart() {
    let mut d = DepSet::new();
    d.merge(&vec![t(u64::MAX, u64::MAX), t(0, 0), t(u64::MAX, 0), t(0, u64::MAX)]);
    assert_eq!(
        d.to_vec(),
        vec![t(0, 0), t(0, u64::MAX), t(u64::MAX, 0), t(u64::MAX, u64::MAX)]
    );
}
