//! Per-connection translation between client-local object identities and
//! the shared networked namespace.
//!
//! The table is populated as objects are replicated in and is a bijection:
//! no local id maps twice and no shared id is the image of two locals, so
//! requests can be rewritten in either direction without ambiguity.

use vstd::prelude::*;

verus! {

/// The forward map of a pairing sequence: each pair sends its local id
/// (first component) to its shared id (second component).
pub open spec fn pairs_to_map(s: Seq<(u64, u64)>) -> Map<u64, u64>
    decreases s.len(),
{
    if s.len() == 0 {
        Map::empty()
    } else {
        pairs_to_map(s.drop_last()).insert(s.last().0, s.last().1)
    }
}

/// A key is in the map exactly when some pair carries it.
proof fn lemma_pairs_to_map_dom(s: Seq<(u64, u64)>, k: u64)
    ensures
        pairs_to_map(s).dom().contains(k) <==> exists|i: int|
            0 <= i < s.len() && (#[trigger] s[i]).0 == k,
    decreases s.len(),
{
    if s.len() > 0 {
        lemma_pairs_to_map_dom(s.drop_last(), k);
        if pairs_to_map(s).dom().contains(k) {
            if s.last().0 != k {
                let i = choose|i: int| 0 <= i < s.drop_last().len() && (#[trigger] s.drop_last()[
                    i]).0 == k;
                assert(s[i].0 == k);
            }
        }
        if exists|i: int| 0 <= i < s.len() && (#[trigger] s[i]).0 == k {
            let i = choose|i: int| 0 <= i < s.len() && (#[trigger] s[i]).0 == k;
            if i < s.len() - 1 {
                assert(s.drop_last()[i].0 == k);
            }
        }
    }
}

/// When no local id repeats, each pair's local id looks up its shared id.
proof fn lemma_pairs_to_map_at(s: Seq<(u64, u64)>, i: int)
    requires
        0 <= i < s.len(),
        forall|m: int, n: int|
            0 <= m < n < s.len() ==> (#[trigger] s[m]).0 != (#[trigger] s[n]).0,
    ensures
        pairs_to_map(s).dom().contains(s[i].0),
        pairs_to_map(s)[s[i].0] == s[i].1,
    decreases s.len(),
{
    if i == s.len() - 1 {
    } else {
        assert(s.drop_last()[i] == s[i]);
        lemma_pairs_to_map_at(s.drop_last(), i);
        assert(s[i].0 != s.last().0);
    }
}

/// Per-connection translation table between client-local object ids and
/// shared networked ids.
pub struct IdentityMap {
    pairs: Vec<(u64, u64)>,
}

impl View for IdentityMap {
    type V = Map<u64, u64>;

    closed spec fn view(&self) -> Map<u64, u64> {
        pairs_to_map(self.pairs@)
    }
}

impl IdentityMap {
    /// No local id is paired twice, and no shared id is hit twice: the
    /// table is a bijection between the two namespaces.
    pub closed spec fn wf(self) -> bool {
        forall|i: int, j: int|
            0 <= i < j < self.pairs@.len() ==> (#[trigger] self.pairs@[i]).0 != (
            #[trigger] self.pairs@[j]).0 && self.pairs@[i].1 != self.pairs@[j].1
    }

    pub fn new() -> (r: IdentityMap)
        ensures
            r@ == Map::<u64, u64>::empty(),
            r.wf(),
    {
        IdentityMap { pairs: Vec::new() }
    }

    /// Records a newly replicated object: its local id on this connection
    /// and its shared id. Both must be fresh.
    pub fn insert(&mut self, local: u64, shared: u64)
        requires
            old(self).wf(),
            !old(self)@.dom().contains(local),
            forall|k: u64| old(self)@.dom().contains(k) ==> old(self)@[k] != shared,
        ensures
            final(self)@ == old(self)@.insert(local, shared),
            final(self).wf(),
    {
        proof {
            assert forall|i: int| 0 <= i < self.pairs@.len() implies (#[trigger] self.pairs@[i]).0
                != local && self.pairs@[i].1 != shared by {
                lemma_pairs_to_map_at(self.pairs@, i);
                lemma_pairs_to_map_dom(self.pairs@, self.pairs@[i].0);
            }
        }
        self.pairs.push((local, shared));
        proof {
            assert(self.pairs@.drop_last() =~= old(self).pairs@);
        }
    }

    /// Translates a client-local id into the shared namespace.
    pub fn to_shared(&self, local: u64) -> (r: Option<u64>)
        requires
            self.wf(),
        ensures
            r == if self@.dom().contains(local) {
                Some(self@[local])
            } else {
                None::<u64>
            },
    {
        let n = self.pairs.len();
        let mut idx: usize = 0;
        while idx < n
            invariant
                n == self.pairs@.len(),
                0 <= idx <= n,
                self.wf(),
                forall|j: int| 0 <= j < idx ==> (#[trigger] self.pairs@[j]).0 != local,
            decreases n - idx,
        {
            let (l, s) = self.pairs[idx];
            if l == local {
                proof {
                    lemma_pairs_to_map_at(self.pairs@, idx as int);
                }
                return Some(s);
            }
            idx += 1;
        }
        proof {
            lemma_pairs_to_map_dom(self.pairs@, local);
        }
        None
    }

    /// Translates a shared id back into this connection's local namespace.
    pub fn to_local(&self, shared: u64) -> (r: Option<u64>)
        requires
            self.wf(),
        ensures
            r matches Some(l) ==> self@.dom().contains(l) && self@[l] == shared,
            r is None ==> forall|k: u64| self@.dom().contains(k) ==> self@[k] != shared,
    {
        let n = self.pairs.len();
        let mut idx: usize = 0;
        while idx < n
            invariant
                n == self.pairs@.len(),
                0 <= idx <= n,
                self.wf(),
                forall|j: int| 0 <= j < idx ==> (#[trigger] self.pairs@[j]).1 != shared,
            decreases n - idx,
        {
            let (l, s) = self.pairs[idx];
            if s == shared {
                proof {
                    lemma_pairs_to_map_at(self.pairs@, idx as int);
                }
                return Some(l);
            }
            idx += 1;
        }
        proof {
            assert forall|k: u64| self@.dom().contains(k) implies self@[k] != shared by {
                lemma_pairs_to_map_dom(self.pairs@, k);
                let i = choose|i: int| 0 <= i < self.pairs@.len() && (#[trigger] self.pairs@[i]).0
                    == k;
                lemma_pairs_to_map_at(self.pairs@, i);
            }
        }
        None
    }
}

} // verus!
