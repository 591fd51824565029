//! The replica set and its quorums.

use crate::timestamp::NodeId;
use std::collections::HashSet;
use std::sync::Arc;
use vstd::prelude::*;

verus! {

broadcast use vstd::std_specs::hash::group_hash_axioms;

/// What a set of responders amounts to.
#[derive(Clone, Copy, Debug, PartialEq, Eq, Structural)]
pub struct QuorumCheck {
    /// The responders form a fast-path quorum.
    pub have_fast_path: bool,
    /// The responders form a simple majority.
    pub have_slow_path: bool,
}

/// A snapshot of the replica set, with the size of its fast-path quorum.
#[derive(Debug)]
pub struct Topology {
    replicas: Vec<NodeId>,
    fast_quorum: usize,
}

impl Topology {
    /// The replicas.
    pub closed spec fn replicas(self) -> Set<NodeId> {
        self.replicas@.to_set()
    }

    /// The number of replicas that make a fast-path quorum.
    pub closed spec fn fast_quorum(self) -> nat {
        self.fast_quorum as nat
    }

    /// The number of replicas that make a simple majority.
    pub open spec fn slow_quorum(self) -> nat {
        self.replicas().len() / 2 + 1
    }

    /// The representation invariant.
    pub closed spec fn wf(self) -> bool {
        &&& self.replicas@.no_duplicates()
        &&& self.replicas@.len() / 2 + 1 <= self.fast_quorum <= self.replicas@.len()
    }

    /// The number of replicas among `responded`.
    pub open spec fn responders(self, responded: Set<NodeId>) -> nat {
        self.replicas().intersect(responded).len()
    }

    /// The quorums that `responded` reaches.
    pub open spec fn quorum(self, responded: Set<NodeId>) -> QuorumCheck {
        QuorumCheck {
            have_fast_path: self.responders(responded) >= self.fast_quorum(),
            have_slow_path: self.responders(responded) >= self.slow_quorum(),
        }
    }

    /// What `wf` means to a user: the replica set is finite and the fast-path
    /// quorum is at least a simple majority and at most all replicas.
    pub proof fn lemma_quorum_sizes(self)
        requires
            self.wf(),
        ensures
            self.replicas().finite(),
            self.slow_quorum() <= self.fast_quorum() <= self.replicas().len(),
    {
        vstd::seq_lib::seq_to_set_is_finite(self.replicas@);
        self.replicas@.unique_seq_to_set();
    }

    /// A fast-path quorum is also a simple majority.
    pub proof fn lemma_fast_implies_slow(self, responded: Set<NodeId>)
        requires
            self.wf(),
        ensures
            self.quorum(responded).have_fast_path ==> self.quorum(responded).have_slow_path,
    {
        self.lemma_quorum_sizes();
    }

    /// The topology of the given replicas, or `None` where a replica is named
    /// twice or `fast_quorum` is less than a simple majority or more than all.
    pub fn new(replicas: Vec<NodeId>, fast_quorum: usize) -> (r: Option<Topology>)
        ensures
            r is Some <==> replicas@.no_duplicates() && replicas@.len() / 2 + 1 <= fast_quorum
                <= replicas@.len(),
            r matches Some(t) ==> {
                &&& t.wf()
                &&& t.replicas() == replicas@.to_set()
                &&& t.fast_quorum() == fast_quorum
            },
    {
        let n = replicas.len();
        if fast_quorum > n || fast_quorum < n / 2 + 1 {
            return None;
        }
        let mut seen: HashSet<NodeId> = HashSet::new();
        let mut i: usize = 0;
        while i < n
            invariant
                i <= n,
                n == replicas@.len(),
                seen@ == replicas@.subrange(0, i as int).to_set(),
                replicas@.subrange(0, i as int).no_duplicates(),
            decreases n - i,
        {
            let r = replicas[i];
            let ghost done = replicas@.subrange(0, i as int);
            let fresh = seen.insert(r);
            if !fresh {
                proof {
                    let j = choose|j: int| 0 <= j < done.len() && done[j] == r;
                    assert(replicas@[j] == replicas@[i as int]);
                }
                return None;
            }
            proof {
                let more = replicas@.subrange(0, i + 1);
                assert(more =~= done.push(r));
                done.lemma_push_to_set_commute(r);
                assert forall|a: int, b: int| 0 <= a < b < more.len() implies more[a]
                    != more[b] by {
                    if b == i {
                        assert(done[a] == more[a]);
                        assert(done.contains(more[a]));
                    } else {
                        assert(done[a] != done[b]);
                    }
                }
            }
            i = i + 1;
        }
        assert(replicas@.subrange(0, n as int) =~= replicas@);
        Some(Topology { replicas, fast_quorum })
    }

    /// Says which quorums the nodes in `responded` reach.
    pub fn check_quorum(&self, responded: &HashSet<NodeId>) -> (check: QuorumCheck)
        requires
            self.wf(),
        ensures
            check == self.quorum(responded@),
            check.have_fast_path ==> check.have_slow_path,
    {
        let n = self.replicas.len();
        let mut count: usize = 0;
        let mut i: usize = 0;
        assert(self.replicas@.subrange(0, 0).to_set().intersect(responded@) =~= Set::<
            NodeId,
        >::empty());
        while i < n
            invariant
                i <= n,
                n == self.replicas@.len(),
                self.replicas@.no_duplicates(),
                count <= i,
                count == self.replicas@.subrange(0, i as int).to_set().intersect(responded@).len(),
            decreases n - i,
        {
            let r = self.replicas[i];
            proof {
                let done = self.replicas@.subrange(0, i as int);
                let more = self.replicas@.subrange(0, i + 1);
                assert(more =~= done.push(r));
                done.lemma_push_to_set_commute(r);
                vstd::seq_lib::seq_to_set_is_finite(done);
                assert(!done.contains(r)) by {
                    if done.contains(r) {
                        let j = choose|j: int| 0 <= j < done.len() && done[j] == r;
                        assert(self.replicas@[j] == self.replicas@[i as int]);
                    }
                }
                let hits = done.to_set().intersect(responded@);
                vstd::set_lib::lemma_len_intersect(done.to_set(), responded@);
                assert(hits.finite());
                if responded@.contains(r) {
                    assert(more.to_set().intersect(responded@) =~= hits.insert(r));
                } else {
                    assert(more.to_set().intersect(responded@) =~= hits);
                }
            }
            if responded.contains(&r) {
                count = count + 1;
            }
            i = i + 1;
        }
        proof {
            assert(self.replicas@.subrange(0, n as int) =~= self.replicas@);
            self.replicas@.unique_seq_to_set();
        }
        QuorumCheck {
            have_fast_path: count >= self.fast_quorum,
            have_slow_path: count >= n / 2 + 1,
        }
    }
}

/// Holds the topology that the coordinator consults.
#[derive(Debug)]
pub struct TopologyManager {
    current: Topology,
}

/// A shared handle on a topology manager.
pub type TopologyManagerRef = Arc<TopologyManager>;

impl TopologyManager {
    /// The topology in force.
    pub closed spec fn current(self) -> Topology {
        self.current
    }

    pub fn new(topology: Topology) -> (tm: TopologyManager)
        ensures
            tm.current() == topology,
    {
        TopologyManager { current: topology }
    }

    pub fn get_current(&self) -> (t: &Topology)
        ensures
            *t == self.current(),
    {
        &self.current
    }
}

} // verus!
