//! A sparse component store: an association table from entity id to a
//! component value, kept as a vector of pairs sorted by strictly
//! increasing id. Its mathematical contents are a `Map<u32, V>`.

use vstd::prelude::*;

verus! {

/// Whether the keys of a pair sequence are strictly increasing.
pub open spec fn keys_sorted<V>(s: Seq<(u32, V)>) -> bool {
    forall|i: int, j: int| #![trigger s[i], s[j]]
        0 <= i < j < s.len() ==> s[i].0 < s[j].0
}

/// Whether some pair of `s` carries the key `k`.
pub open spec fn has_key<V>(s: Seq<(u32, V)>, k: u32) -> bool {
    exists|i: int| 0 <= i < s.len() && (#[trigger] s[i]).0 == k
}

/// The index of the pair carrying key `k`, where one exists.
pub open spec fn key_index<V>(s: Seq<(u32, V)>, k: u32) -> int {
    choose|i: int| 0 <= i < s.len() && (#[trigger] s[i]).0 == k
}

/// The association expressed by a pair sequence, as a map.
pub open spec fn assoc_of<V>(s: Seq<(u32, V)>) -> Map<u32, V> {
    Map::new(|k: u32| has_key(s, k), |k: u32| s[key_index(s, k)].1)
}

/// In a sorted pair sequence, the pair at index `i` is the one that
/// `assoc_of` associates with its key.
pub proof fn lemma_key_index<V>(s: Seq<(u32, V)>, i: int)
    requires
        keys_sorted(s),
        0 <= i < s.len(),
    ensures
        key_index(s, s[i].0) == i,
        assoc_of(s).contains_key(s[i].0),
        assoc_of(s)[s[i].0] == s[i].1,
{
    let k = s[i].0;
    assert(has_key(s, k));
    let j = key_index(s, k);
    if j < i {
        assert(s[j].0 < s[i].0);
    } else if i < j {
        assert(s[i].0 < s[j].0);
    }
}

/// A sparse store of one component kind, keyed by entity id.
pub struct ComponentTable<V> {
    pairs: Vec<(u32, V)>,
}

impl<V> ComponentTable<V> {
    /// The raw pair sequence, sorted by id when the table is well formed.
    pub closed spec fn pairs_seq(&self) -> Seq<(u32, V)> {
        self.pairs@
    }

    /// The table keeps its pairs sorted by strictly increasing id.
    pub open spec fn wf(&self) -> bool {
        keys_sorted(self.pairs_seq())
    }

    /// What the table holds, as a map from id to component.
    pub open spec fn contents(&self) -> Map<u32, V> {
        assoc_of(self.pairs_seq())
    }

    /// An empty table.
    pub fn new() -> (r: Self)
        ensures
            r.wf(),
            r.contents() =~= Map::<u32, V>::empty(),
            r.pairs_seq() =~= Seq::<(u32, V)>::empty(),
    {
        ComponentTable { pairs: Vec::new() }
    }

    /// How many entities carry this component.
    pub fn len(&self) -> (r: usize)
        ensures
            r == self.pairs_seq().len(),
    {
        self.pairs.len()
    }

    /// The id of the `i`-th pair, in ascending id order.
    pub fn key_at(&self, i: usize) -> (r: u32)
        requires
            i < self.pairs_seq().len(),
        ensures
            r == self.pairs_seq()[i as int].0,
    {
        self.pairs[i].0
    }

    /// The component of the `i`-th pair, in ascending id order.
    pub fn value_at(&self, i: usize) -> (r: &V)
        requires
            i < self.pairs_seq().len(),
        ensures
            *r == self.pairs_seq()[i as int].1,
    {
        &self.pairs[i].1
    }

    /// The component attached to `k`, where there is one.
    pub fn get(&self, k: u32) -> (r: Option<&V>)
        requires
            self.wf(),
        ensures
            match r {
                Some(v) => self.contents().contains_key(k) && *v == self.contents()[k],
                None => !self.contents().contains_key(k),
            },
    {
        let n = self.pairs.len();
        let mut i: usize = 0;
        while i < n
            invariant
                n == self.pairs_seq().len(),
                self.wf(),
                i <= n,
                forall|j: int| 0 <= j < i ==> (#[trigger] self.pairs_seq()[j]).0 != k,
            decreases n - i,
        {
            if self.pairs[i].0 == k {
                proof {
                    lemma_key_index(self.pairs_seq(), i as int);
                }
                return Some(&self.pairs[i].1);
            }
            i = i + 1;
        }
        None
    }

    /// Whether `k` carries this component.
    pub fn contains_key(&self, k: u32) -> (r: bool)
        requires
            self.wf(),
        ensures
            r == self.contents().contains_key(k),
    {
        self.get(k).is_some()
    }

    /// Attach component `v` to `k`, replacing any component `k` already
    /// carried.
    pub fn insert(&mut self, k: u32, v: V)
        requires
            old(self).wf(),
        ensures
            final(self).wf(),
            final(self).contents() =~= old(self).contents().insert(k, v),
    {
        let ghost os = self.pairs_seq();
        let n = self.pairs.len();
        let mut i: usize = 0;
        while i < n && self.pairs[i].0 < k
            invariant
                n == self.pairs_seq().len(),
                self.pairs_seq() == os,
                keys_sorted(os),
                i <= n,
                forall|j: int| 0 <= j < i ==> (#[trigger] os[j]).0 < k,
            decreases n - i,
        {
            i = i + 1;
        }
        if i < n && self.pairs[i].0 == k {
            self.pairs.set(i, (k, v));
            proof {
                let ns = self.pairs_seq();
                assert(ns =~= os.update(i as int, (k, v)));
                lemma_insert_shape(os, ns, i as int, k, v);
            }
        } else {
            self.pairs.insert(i, (k, v));
            proof {
                let ns = self.pairs_seq();
                assert(ns =~= os.take(i as int) + seq![(k, v)] + os.skip(i as int));
                lemma_insert_fresh_shape(os, ns, i as int, k, v);
            }
        }
    }

    /// Detach the component of `k`, returning it where `k` carried one.
    pub fn remove(&mut self, k: u32) -> (r: Option<V>)
        requires
            old(self).wf(),
        ensures
            final(self).wf(),
            final(self).contents() =~= old(self).contents().remove(k),
            r is Some <==> old(self).contents().contains_key(k),
            r is Some ==> r->0 == old(self).contents()[k],
    {
        let ghost os = self.pairs_seq();
        let n = self.pairs.len();
        let mut i: usize = 0;
        while i < n
            invariant
                n == self.pairs_seq().len(),
                self.pairs_seq() == os,
                os == old(self).pairs_seq(),
                keys_sorted(os),
                i <= n,
                forall|j: int| 0 <= j < i ==> (#[trigger] os[j]).0 != k,
            decreases n - i,
        {
            if self.pairs[i].0 == k {
                let pair = self.pairs.remove(i);
                proof {
                    lemma_key_index(os, i as int);
                    let ns = self.pairs_seq();
                    assert(ns =~= os.take(i as int) + os.skip(i as int + 1));
                    lemma_remove_shape(os, ns, i as int, k);
                }
                return Some(pair.1);
            }
            i = i + 1;
        }
        proof {
            assert(!has_key(os, k));
            assert(self.contents() =~= old(self).contents().remove(k));
        }
        None
    }
}

/// Replacing the pair at a key's index rebinds exactly that key.
proof fn lemma_insert_shape<V>(os: Seq<(u32, V)>, ns: Seq<(u32, V)>, i: int, k: u32, v: V)
    requires
        keys_sorted(os),
        0 <= i < os.len(),
        os[i].0 == k,
        ns == os.update(i, (k, v)),
    ensures
        keys_sorted(ns),
        assoc_of(ns) =~= assoc_of(os).insert(k, v),
{
    assert forall|k2: u32| has_key(ns, k2) implies has_key(os, k2) by {
        let j = choose|j: int| 0 <= j < ns.len() && (#[trigger] ns[j]).0 == k2;
        assert(os[j].0 == k2);
    }
    assert forall|k2: u32| has_key(os, k2) implies has_key(ns, k2) by {
        let j = choose|j: int| 0 <= j < os.len() && (#[trigger] os[j]).0 == k2;
        assert(ns[j].0 == k2);
    }
    assert forall|k2: u32| has_key(ns, k2) implies assoc_of(ns)[k2] == assoc_of(os).insert(
        k,
        v,
    )[k2] by {
        let j = choose|j: int| 0 <= j < ns.len() && (#[trigger] ns[j]).0 == k2;
        lemma_key_index(ns, j);
        lemma_key_index(os, j);
    }
}

/// Splicing a pair with a fresh key into its sorted slot binds exactly
/// that key and keeps every other binding.
proof fn lemma_insert_fresh_shape<V>(os: Seq<(u32, V)>, ns: Seq<(u32, V)>, i: int, k: u32, v: V)
    requires
        keys_sorted(os),
        0 <= i <= os.len(),
        forall|j: int| 0 <= j < i ==> (#[trigger] os[j]).0 < k,
        forall|j: int| i <= j < os.len() ==> (#[trigger] os[j]).0 > k,
        ns == os.take(i) + seq![(k, v)] + os.skip(i),
    ensures
        keys_sorted(ns),
        assoc_of(ns) =~= assoc_of(os).insert(k, v),
{
    assert(ns.len() == os.len() + 1);
    assert(forall|j: int| 0 <= j < i ==> ns[j] == os[j]);
    assert(ns[i] == (k, v));
    assert(forall|j: int| i < j < ns.len() ==> ns[j] == os[j - 1]);
    assert forall|a: int, b: int| #![trigger ns[a], ns[b]] 0 <= a < b < ns.len() implies ns[a].0
        < ns[b].0 by {
        if a < i && b > i {
            assert(os[a].0 < k);
            assert(os[b - 1].0 > k);
        }
    }
    assert forall|k2: u32| has_key(ns, k2) implies k2 == k || has_key(os, k2) by {
        let j = choose|j: int| 0 <= j < ns.len() && (#[trigger] ns[j]).0 == k2;
        if j < i {
            assert(os[j].0 == k2);
        } else if j > i {
            assert(os[j - 1].0 == k2);
        }
    }
    assert forall|k2: u32| has_key(os, k2) implies has_key(ns, k2) by {
        let j = choose|j: int| 0 <= j < os.len() && (#[trigger] os[j]).0 == k2;
        if j < i {
            assert(ns[j].0 == k2);
        } else {
            assert(ns[j + 1].0 == k2);
        }
    }
    assert(has_key(ns, k));
    assert forall|k2: u32| has_key(ns, k2) implies assoc_of(ns)[k2] == assoc_of(os).insert(
        k,
        v,
    )[k2] by {
        let j = choose|j: int| 0 <= j < ns.len() && (#[trigger] ns[j]).0 == k2;
        lemma_key_index(ns, j);
        if k2 != k {
            if j < i {
                lemma_key_index(os, j);
            } else {
                assert(os[j - 1].0 == k2);
                lemma_key_index(os, j - 1);
            }
        }
    }
}

/// Cutting out the pair at a key's index unbinds exactly that key.
proof fn lemma_remove_shape<V>(os: Seq<(u32, V)>, ns: Seq<(u32, V)>, i: int, k: u32)
    requires
        keys_sorted(os),
        0 <= i < os.len(),
        os[i].0 == k,
        ns == os.take(i) + os.skip(i + 1),
    ensures
        keys_sorted(ns),
        assoc_of(ns) =~= assoc_of(os).remove(k),
{
    assert(ns.len() == os.len() - 1);
    assert(forall|j: int| 0 <= j < i ==> ns[j] == os[j]);
    assert(forall|j: int| i <= j < ns.len() ==> ns[j] == os[j + 1]);
    assert forall|a: int, b: int| #![trigger ns[a], ns[b]] 0 <= a < b < ns.len() implies ns[a].0
        < ns[b].0 by {
        if a < i && b >= i {
            assert(os[a].0 < os[b + 1].0);
        }
    }
    assert forall|k2: u32| has_key(ns, k2) implies k2 != k && has_key(os, k2) by {
        let j = choose|j: int| 0 <= j < ns.len() && (#[trigger] ns[j]).0 == k2;
        if j < i {
            assert(os[j].0 == k2);
            if k2 == k {
                assert(os[j].0 < os[i].0);
            }
        } else {
            assert(os[j + 1].0 == k2);
            if k2 == k {
                assert(os[i].0 < os[j + 1].0);
            }
        }
    }
    assert forall|k2: u32| has_key(os, k2) && k2 != k implies has_key(ns, k2) by {
        let j = choose|j: int| 0 <= j < os.len() && (#[trigger] os[j]).0 == k2;
        lemma_key_index(os, j);
        lemma_key_index(os, i);
        if j < i {
            assert(ns[j].0 == k2);
        } else {
            assert(j != i);
            assert(ns[j - 1].0 == k2);
        }
    }
    assert forall|k2: u32| has_key(ns, k2) implies assoc_of(ns)[k2] == assoc_of(os).remove(
        k,
    )[k2] by {
        let j = choose|j: int| 0 <= j < ns.len() && (#[trigger] ns[j]).0 == k2;
        lemma_key_index(ns, j);
        if j < i {
            lemma_key_index(os, j);
        } else {
            assert(os[j + 1].0 == k2);
            lemma_key_index(os, j + 1);
        }
    }
}

} // verus!
