//! Dependency sets: the transactions that must be ordered before another.

use crate::transaction::TransactionId;
use vstd::prelude::*;

verus! {

/// Whether the identifiers of `s` stand in strictly ascending order.
pub open spec fn ascending(s: Seq<TransactionId>) -> bool {
    forall|i: int, j: int| 0 <= i < j < s.len() ==> (#[trigger] s[i]).before(#[trigger] s[j])
}

/// An ascending sequence is determined by the set of its elements.
pub proof fn lemma_ascending_unique(a: Seq<TransactionId>, b: Seq<TransactionId>)
    requires
        ascending(a),
        ascending(b),
        a.to_set() == b.to_set(),
    ensures
        a == b,
    decreases a.len(),
{
    if a.len() == 0 {
        if b.len() > 0 {
            assert(b.to_set().contains(b[0]));
            assert(a.contains(b[0]));
        }
    } else if b.len() == 0 {
        assert(a.to_set().contains(a[0]));
        assert(b.contains(a[0]));
    } else {
        let x = a.last();
        let y = b.last();
        assert(a.to_set().contains(x));
        assert(b.contains(x));
        assert(b.to_set().contains(y));
        assert(a.contains(y));
        assert(x == y);
        let a0 = a.drop_last();
        let b0 = b.drop_last();
        assert forall|e: TransactionId| a0.to_set().contains(e) <==> b0.to_set().contains(e) by {
            if a0.contains(e) {
                let i = choose|i: int| 0 <= i < a0.len() && a0[i] == e;
                assert(a[i] == e);
                assert(a[i].before(a[a.len() - 1]));
                assert(a.to_set().contains(e));
                assert(b.contains(e));
                let j = choose|j: int| 0 <= j < b.len() && b[j] == e;
                assert(b0[j] == e);
            }
            if b0.contains(e) {
                let i = choose|i: int| 0 <= i < b0.len() && b0[i] == e;
                assert(b[i] == e);
                assert(b[i].before(b[b.len() - 1]));
                assert(b.to_set().contains(e));
                assert(a.contains(e));
                let j = choose|j: int| 0 <= j < a.len() && a[j] == e;
                assert(a0[j] == e);
            }
        }
        assert(a0.to_set() =~= b0.to_set());
        lemma_ascending_unique(a0, b0);
        assert(a =~= a0.push(x));
        assert(b =~= b0.push(y));
    }
}

/// A finite set of transaction identifiers, kept in ascending order.
#[derive(Debug)]
pub struct DepSet {
    ids: Vec<TransactionId>,
}

impl DepSet {
    /// The identifiers in ascending order.
    pub closed spec fn ordered(self) -> Seq<TransactionId> {
        self.ids@
    }

    /// The set of identifiers.
    pub open spec fn view(self) -> Set<TransactionId> {
        self.ordered().to_set()
    }

    /// Well-formedness: the identifiers stand in ascending order, so none
    /// stands twice.
    pub open spec fn wf(self) -> bool {
        ascending(self.ordered())
    }

    /// A dependency set is finite.
    pub proof fn lemma_finite(self)
        ensures
            self@.finite(),
    {
        vstd::seq_lib::seq_to_set_is_finite(self.ids@);
    }

    pub fn new() -> (s: DepSet)
        ensures
            s.wf(),
            s@ == Set::<TransactionId>::empty(),
            s.ordered().len() == 0,
    {
        let s = DepSet { ids: Vec::new() };
        assert(s@ =~= Set::<TransactionId>::empty());
        s
    }

    pub fn len(&self) -> (n: usize)
        ensures
            n == self.ordered().len(),
    {
        self.ids.len()
    }

    /// The position at which `id` stands, or would have to be inserted.
    fn position(&self, id: &TransactionId) -> (p: usize)
        requires
            self.wf(),
        ensures
            p <= self.ids@.len(),
            forall|i: int| 0 <= i < p ==> (#[trigger] self.ids@[i]).before(*id),
            forall|i: int| p <= i < self.ids@.len() ==> !(#[trigger] self.ids@[i]).before(*id),
    {
        let mut lo: usize = 0;
        let mut hi: usize = self.ids.len();
        while lo < hi
            invariant
                lo <= hi <= self.ids@.len(),
                self.wf(),
                forall|i: int| 0 <= i < lo ==> (#[trigger] self.ids@[i]).before(*id),
                forall|i: int| hi <= i < self.ids@.len() ==> !(#[trigger] self.ids@[i]).before(*id),
            decreases hi - lo,
        {
            let mid = lo + (hi - lo) / 2;
            if self.ids[mid].is_before(id) {
                assert forall|i: int| 0 <= i < mid + 1 implies (#[trigger] self.ids@[i]).before(
                    *id,
                ) by {
                    if i < mid {
                        assert(self.ids@[i].before(self.ids@[mid as int]));
                    }
                }
                lo = mid + 1;
            } else {
                assert forall|i: int| mid <= i < self.ids@.len() implies !(#[trigger] self.ids@[
                    i
                ]).before(*id) by {
                    if mid < i {
                        assert(self.ids@[mid as int].before(self.ids@[i]));
                    }
                }
                hi = mid;
            }
        }
        lo
    }

    pub fn contains(&self, id: &TransactionId) -> (b: bool)
        requires
            self.wf(),
        ensures
            b == self@.contains(*id),
    {
        let p = self.position(id);
        if p < self.ids.len() && self.ids[p] == *id {
            assert(self.ids@.contains(*id));
            true
        } else {
            assert forall|i: int| 0 <= i < self.ids@.len() implies self.ids@[i] != *id by {
                if i < p {
                    assert(self.ids@[i].before(*id));
                } else if i > p {
                    assert(self.ids@[p as int].before(self.ids@[i]));
                    assert(!self.ids@[p as int].before(*id));
                }
            }
            false
        }
    }

    /// Adds `id`; returns whether it was new.
    pub fn insert(&mut self, id: TransactionId) -> (added: bool)
        requires
            old(self).wf(),
        ensures
            final(self).wf(),
            final(self)@ == old(self)@.insert(id),
            added == !old(self)@.contains(id),
    {
        let p = self.position(&id);
        if p < self.ids.len() && self.ids[p] == id {
            assert(self.ids@.contains(id));
            assert(self@ =~= self@.insert(id));
            false
        } else {
            let ghost before = self.ids@;
            assert forall|i: int| 0 <= i < before.len() implies before[i] != id by {
                if i < p {
                    assert(before[i].before(id));
                } else if i > p {
                    assert(before[p as int].before(before[i]));
                    assert(!before[p as int].before(id));
                }
            }
            self.ids.insert(p, id);
            proof {
                let after = self.ids@;
                before.insert_ensures(p as int, id);
                assert forall|i: int, j: int| 0 <= i < j < after.len() implies (#[trigger] after[
                    i
                ]).before(#[trigger] after[j]) by {
                    let bi = if i < p { i } else { i - 1 };
                    let bj = if j < p { j } else { j - 1 };
                    if i != p && j != p {
                        assert(after[i] == before[bi]);
                        assert(after[j] == before[bj]);
                        assert(before[bi].before(before[bj]));
                    } else if i == p {
                        assert(after[j] == before[bj]);
                        assert(!before[bj].before(id));
                        assert(before[bj] != id);
                    } else {
                        assert(after[i] == before[bi]);
                        assert(before[bi].before(id));
                    }
                }
                assert forall|e: TransactionId|
                    after.to_set().contains(e) <==> before.to_set().insert(id).contains(e) by {
                    if after.contains(e) {
                        let i = choose|i: int| 0 <= i < after.len() && after[i] == e;
                        if i < p {
                            assert(before[i] == e);
                        } else if i > p {
                            assert(before[i - 1] == e);
                        }
                    }
                    if before.contains(e) {
                        let i = choose|i: int| 0 <= i < before.len() && before[i] == e;
                        if i < p {
                            assert(after[i] == e);
                        } else {
                            assert(after[i + 1] == e);
                        }
                    }
                    if e == id {
                        assert(after[p as int] == e);
                    }
                }
                assert(after.to_set() =~= before.to_set().insert(id));
            }
            true
        }
    }

    /// Adds every identifier of `ids`.
    pub fn merge(&mut self, ids: &Vec<TransactionId>)
        requires
            old(self).wf(),
        ensures
            final(self).wf(),
            final(self)@ == old(self)@.union(ids@.to_set()),
    {
        let mut i: usize = 0;
        while i < ids.len()
            invariant
                i <= ids@.len(),
                self.wf(),
                self@ == old(self)@.union(ids@.subrange(0, i as int).to_set()),
            decreases ids@.len() - i,
        {
            let id = ids[i];
            self.insert(id);
            proof {
                let done = ids@.subrange(0, i as int);
                let more = ids@.subrange(0, i + 1);
                assert(more =~= done.push(id));
                done.lemma_push_to_set_commute(id);
                assert(self@ =~= old(self)@.union(more.to_set()));
            }
            i = i + 1;
        }
        assert(ids@.subrange(0, ids@.len() as int) =~= ids@);
    }

    /// The identifiers in ascending order.
    pub fn to_vec(&self) -> (v: Vec<TransactionId>)
        ensures
            v@ == self.ordered(),
    {
        let mut v: Vec<TransactionId> = Vec::new();
        let mut i: usize = 0;
        while i < self.ids.len()
            invariant
                i <= self.ids@.len(),
                v@ == self.ids@.subrange(0, i as int),
            decreases self.ids@.len() - i,
        {
            v.push(self.ids[i]);
            assert(v@ =~= self.ids@.subrange(0, i + 1));
            i = i + 1;
        }
        assert(v@ =~= self.ids@);
        v
    }
}

} // verus!
