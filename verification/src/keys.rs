//! Sets of keys that a transaction touches.

use vstd::prelude::*;

verus! {

/// A non-empty collection of keys. The keys are opaque to the coordinator.
#[derive(Debug, Clone, PartialEq, Eq)]
pub struct KeySet<K> {
    first: K,
    rest: Vec<K>,
}

impl<K> KeySet<K> {
    /// The keys in the order in which they were given.
    pub closed spec fn view(self) -> Seq<K> {
        seq![self.first] + self.rest@
    }

    /// The keys as a set.
    pub open spec fn keys(self) -> Set<K> {
        self@.to_set()
    }

    /// A key set is never empty.
    pub proof fn lemma_nonempty(self)
        ensures
            self@.len() > 0,
            self.keys().contains(self@[0]),
    {
    }

    /// The set that holds `key` alone.
    pub fn single(key: K) -> (s: KeySet<K>)
        ensures
            s@ == seq![key],
    {
        KeySet { first: key, rest: Vec::new() }
    }

    /// The set of the given keys, or `None` if there are none.
    pub fn from_vec(keys: Vec<K>) -> (r: Option<KeySet<K>>)
        ensures
            r is Some <==> keys@.len() > 0,
            r matches Some(s) ==> s@ == keys@,
    {
        let mut rest = keys;
        if rest.len() == 0 {
            None
        } else {
            let first = rest.remove(0);
            let s = KeySet { first, rest };
            assert(s@ =~= keys@);
            Some(s)
        }
    }

    /// The first key.
    pub fn first(&self) -> (k: &K)
        ensures
            *k == self@[0],
    {
        &self.first
    }

    /// The keys after the first.
    pub fn others(&self) -> (ks: &Vec<K>)
        ensures
            ks@ == self@.subrange(1, self@.len() as int),
    {
        assert(self.rest@ =~= self@.subrange(1, self@.len() as int));
        &self.rest
    }
}

} // verus!
