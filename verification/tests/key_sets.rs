use accord::keys::KeySet;

#[test]
fn single_key() {
    let s = KeySet::single("a".to_string());
    assert_eq!(s.first(), "a");
    assert!(s.others().is_empty());
}

#[test]
fn key_set_from_keys() {
    let s = KeySet::from_vec(vec![3u32, 1, 2]).unwrap();
    assert_eq!(*s.first(), 3);
    assert_eq!(s.others(), &vec![1, 2]);
}

#[test]
fn empty_key_set_is_refused() {
    assert!(KeySet::<u32>::from_vec(vec![]).is_none());
}
