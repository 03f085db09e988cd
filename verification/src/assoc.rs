//! Association lists: a sequence of `(key, value)` pairs with distinct keys,
//! read as a finite map. The library keeps small keyed tables this way.
use vstd::prelude::*;
use crate::text::str_eq;
use std::collections::HashMap;

verus! {

/// No key occurs twice.
pub open spec fn keys_distinct<K, V>(s: Seq<(K, V)>) -> bool {
    forall|i: int, j: int| 0 <= i < j < s.len() ==> #[trigger] s[i].0 != #[trigger] s[j].0
}

/// Whether some pair has key `k`.
pub open spec fn has_key<K, V>(s: Seq<(K, V)>, k: K) -> bool {
    exists|i: int| 0 <= i < s.len() && #[trigger] s[i].0 == k
}

/// The map of an association list; a later pair wins over an earlier one.
pub open spec fn assoc_map<K, V>(s: Seq<(K, V)>) -> Map<K, V>
    decreases s.len(),
{
    if s.len() == 0 {
        Map::empty()
    } else {
        assoc_map(s.drop_last()).insert(s.last().0, s.last().1)
    }
}

/// The domain of the map is the set of keys.
pub proof fn lemma_assoc_dom<K, V>(s: Seq<(K, V)>, k: K)
    ensures
        assoc_map(s).dom().contains(k) <==> has_key(s, k),
    decreases s.len(),
{
    if s.len() > 0 {
        let t = s.drop_last();
        lemma_assoc_dom(t, k);
        if has_key(t, k) {
            let i = choose|i: int| 0 <= i < t.len() && #[trigger] t[i].0 == k;
            assert(s[i].0 == k);
        }
        if has_key(s, k) && s.last().0 != k {
            let i = choose|i: int| 0 <= i < s.len() && #[trigger] s[i].0 == k;
            assert(i < t.len());
            assert(t[i].0 == k);
        }
    }
}

/// With distinct keys, the value of a key is that of its pair.
pub proof fn lemma_assoc_at<K, V>(s: Seq<(K, V)>, i: int)
    requires
        keys_distinct(s),
        0 <= i < s.len(),
    ensures
        assoc_map(s).dom().contains(s[i].0),
        assoc_map(s)[s[i].0] == s[i].1,
    decreases s.len(),
{
    let t = s.drop_last();
    if i < s.len() - 1 {
        assert(keys_distinct(t)) by {
            assert forall|a: int, b: int| 0 <= a < b < t.len() implies #[trigger] t[a].0 != #[trigger] t[b].0 by {
                assert(t[a] == s[a] && t[b] == s[b]);
            }
        }
        assert(t[i] == s[i]);
        lemma_assoc_at(t, i);
        assert(s[i].0 != s[s.len() - 1].0);
    }
}

/// Without pair for `k`, the key is absent from the map.
pub proof fn lemma_assoc_absent<K, V>(s: Seq<(K, V)>, k: K)
    requires
        forall|i: int| 0 <= i < s.len() ==> #[trigger] s[i].0 != k,
    ensures
        !assoc_map(s).dom().contains(k),
{
    lemma_assoc_dom(s, k);
}

/// Replacing the value of pair `i` updates the map at its key.
pub proof fn lemma_assoc_update<K, V>(s: Seq<(K, V)>, i: int, v: V)
    requires
        keys_distinct(s),
        0 <= i < s.len(),
    ensures
        keys_distinct(s.update(i, (s[i].0, v))),
        assoc_map(s.update(i, (s[i].0, v))) == assoc_map(s).insert(s[i].0, v),
{
    let u = s.update(i, (s[i].0, v));
    assert(keys_distinct(u)) by {
        assert forall|a: int, b: int| 0 <= a < b < u.len() implies #[trigger] u[a].0 != #[trigger] u[b].0 by {
            assert(u[a].0 == s[a].0 && u[b].0 == s[b].0);
        }
    }
    let m1 = assoc_map(u);
    let m2 = assoc_map(s).insert(s[i].0, v);
    assert forall|k: K| m1.dom().contains(k) <==> m2.dom().contains(k) by {
        lemma_assoc_dom(u, k);
        lemma_assoc_dom(s, k);
        if has_key(s, k) {
            let j = choose|j: int| 0 <= j < s.len() && #[trigger] s[j].0 == k;
            assert(u[j].0 == k);
        }
        if has_key(u, k) {
            let j = choose|j: int| 0 <= j < u.len() && #[trigger] u[j].0 == k;
            assert(s[j].0 == k);
        }
    }
    assert forall|k: K| m1.dom().contains(k) implies m1[k] == m2[k] by {
        lemma_assoc_dom(u, k);
        let j = choose|j: int| 0 <= j < u.len() && #[trigger] u[j].0 == k;
        lemma_assoc_at(u, j);
        assert(s[j].0 == k);
        if j != i {
            lemma_assoc_at(s, j);
        }
    }
    assert(m1 =~= m2);
}

/// Dropping the pair at `i` removes its key.
pub proof fn lemma_assoc_remove<K, V>(s: Seq<(K, V)>, i: int)
    requires
        keys_distinct(s),
        0 <= i < s.len(),
    ensures
        keys_distinct(s.remove(i)),
        assoc_map(s.remove(i)) == assoc_map(s).remove(s[i].0),
{
    let u = s.remove(i);
    let key = s[i].0;
    assert forall|j: int| 0 <= j < u.len() implies #[trigger] u[j] == s[if j < i { j } else { j + 1 }] by {}
    assert(keys_distinct(u)) by {
        assert forall|a: int, b: int| 0 <= a < b < u.len() implies #[trigger] u[a].0 != #[trigger] u[b].0 by {
            let a1 = if a < i { a } else { a + 1 };
            let b1 = if b < i { b } else { b + 1 };
            assert(u[a] == s[a1]);
            assert(u[b] == s[b1]);
        }
    }
    let m1 = assoc_map(u);
    let m2 = assoc_map(s).remove(key);
    assert forall|k: K| m1.dom().contains(k) <==> m2.dom().contains(k) by {
        lemma_assoc_dom(u, k);
        lemma_assoc_dom(s, k);
        if has_key(s, k) && k != key {
            let j = choose|j: int| 0 <= j < s.len() && #[trigger] s[j].0 == k;
            assert(j != i);
            let j1 = if j < i { j } else { j - 1 };
            assert(u[j1] == s[j]);
        }
        if has_key(u, k) {
            let j = choose|j: int| 0 <= j < u.len() && #[trigger] u[j].0 == k;
            let j1 = if j < i { j } else { j + 1 };
            assert(u[j] == s[j1]);
            assert(s[j1].0 != key);
        }
    }
    assert forall|k: K| m1.dom().contains(k) implies m1[k] == m2[k] by {
        lemma_assoc_dom(u, k);
        let j = choose|j: int| 0 <= j < u.len() && #[trigger] u[j].0 == k;
        lemma_assoc_at(u, j);
        let j1 = if j < i { j } else { j + 1 };
        assert(u[j] == s[j1]);
        lemma_assoc_at(s, j1);
    }
    assert(m1 =~= m2);
}

/// Appending a pair for a new key inserts it.
pub proof fn lemma_assoc_push<K, V>(s: Seq<(K, V)>, k: K, v: V)
    requires
        keys_distinct(s),
        forall|i: int| 0 <= i < s.len() ==> #[trigger] s[i].0 != k,
    ensures
        keys_distinct(s.push((k, v))),
        assoc_map(s.push((k, v))) == assoc_map(s).insert(k, v),
{
    let u = s.push((k, v));
    assert(u.drop_last() == s);
    assert(keys_distinct(u)) by {
        assert forall|a: int, b: int| 0 <= a < b < u.len() implies #[trigger] u[a].0 != #[trigger] u[b].0 by {
            if b < s.len() {
                assert(u[a] == s[a] && u[b] == s[b]);
            } else {
                assert(u[a] == s[a]);
            }
        }
    }
}

} // verus!

verus! {

/// A map from block indexes to values, held in a `HashMap`.
#[derive(Debug)]
pub struct IndexMap<V: View> {
    m: HashMap<usize, V>,
}

impl<V: View> IndexMap<V> {
    /// The map, values by view.
    pub closed spec fn map(self) -> Map<usize, V::V> {
        self.m@.map_values(|v: V| v@)
    }

    /// An empty map.
    pub fn new() -> (r: IndexMap<V>)
        ensures
            r.map() == Map::<usize, V::V>::empty(),
    {
        let r = IndexMap { m: HashMap::new() };
        proof {
            assert(r.map() =~= Map::<usize, V::V>::empty());
        }
        r
    }

    /// The value at `k`, if any.
    pub fn get(&self, k: usize) -> (r: Option<&V>)
        ensures
            match r {
                Some(v) => self.map().dom().contains(k) && self.map()[k] == v@,
                None => !self.map().dom().contains(k),
            },
    {
        broadcast use vstd::std_specs::hash::group_hash_axioms;
        self.m.get(&k)
    }

    /// The keys, each once, in no particular order.
    pub fn key_list(&self) -> (r: Vec<usize>)
        ensures
            r@.no_duplicates(),
            forall|k: usize| r@.contains(k) <==> self.map().dom().contains(k),
    {
        broadcast use vstd::std_specs::hash::group_hash_axioms;
        let mut out: Vec<usize> = Vec::new();
        let keys = self.m.keys();
        let ghost ks = vstd::std_specs::iter::IteratorSpec::remaining(&keys);
        proof {
            assert(ks.unref().to_set() == self.m@.dom());
            assert(ks.no_duplicates());
        }
        for k in it: keys
            invariant
                it.seq() == ks,
                out@ == ks.take(it.index()).unref(),
        {
            out.push(*k);
            assert(ks.take(it.index() + 1).unref() =~= ks.take(it.index()).unref().push(*k));
        }
        proof {
            assert(ks.take(ks.len() as int) == ks);
            assert(out@ == ks.unref());
            assert forall|a: int, b: int| 0 <= a < out@.len() && 0 <= b < out@.len() && a != b implies out@[a] != out@[b] by {
                assert(out@[a] == *ks[a] && out@[b] == *ks[b]);
            }
            assert forall|k: usize| out@.contains(k) <==> self.map().dom().contains(k) by {
                if out@.contains(k) {
                    let j = choose|j: int| 0 <= j < out@.len() && out@[j] == k;
                    assert(ks.unref().to_set().contains(k)) by {
                        assert(ks.unref()[j] == k);
                    }
                }
                if self.m@.dom().contains(k) {
                    assert(ks.unref().to_set().contains(k));
                    assert(ks.unref().contains(k));
                }
            }
        }
        out
    }

    /// Takes the value at `k` out of the map.
    pub fn remove(&mut self, k: usize) -> (r: Option<V>)
        ensures
            final(self).map() == old(self).map().remove(k),
            match r {
                Some(v) => old(self).map().dom().contains(k) && old(self).map()[k] == v@,
                None => !old(self).map().dom().contains(k),
            },
    {
        broadcast use vstd::std_specs::hash::group_hash_axioms;
        let r = self.m.remove(&k);
        proof {
            assert(self.map() =~= old(self).map().remove(k));
        }
        r
    }

    /// Sets the value at `k`.
    pub fn insert(&mut self, k: usize, v: V)
        ensures
            final(self).map() == old(self).map().insert(k, v@),
    {
        broadcast use vstd::std_specs::hash::group_hash_axioms;
        let ghost vv = v@;
        let _ = self.m.insert(k, v);
        proof {
            assert(self.map() =~= old(self).map().insert(k, vv));
        }
    }
}

} // verus!

verus! {

/// A small map from names to values, kept as a list with distinct keys.
#[derive(Debug, Default)]
pub struct StrMap<V: View> {
    entries: Vec<(String, V)>,
}

/// The pairs of a name map, keys and values taken by their views.
pub open spec fn str_pairs<V: View>(s: Seq<(String, V)>) -> Seq<(Seq<char>, V::V)> {
    s.map_values(|e: (String, V)| (e.0@, e.1@))
}

impl<V: View> StrMap<V> {
    #[verifier::type_invariant]
    spec fn distinct_keys(self) -> bool {
        keys_distinct(str_pairs(self.entries@))
    }

    /// The table as a map.
    pub closed spec fn map(self) -> Map<Seq<char>, V::V> {
        assoc_map(str_pairs(self.entries@))
    }

    /// An empty table.
    pub fn new() -> (r: StrMap<V>)
        ensures
            r.map() == Map::<Seq<char>, V::V>::empty(),
    {
        let r = StrMap { entries: Vec::new() };
        proof {
            assert(str_pairs(r.entries@).len() == 0);
        }
        r
    }

    fn position(&self, key: &str) -> (r: Option<usize>)
        ensures
            match r {
                Some(i) => i < self.entries@.len() && self.entries@[i as int].0@ == key@,
                None => forall|i: int|
                    0 <= i < self.entries@.len() ==> #[trigger] self.entries@[i].0@ != key@,
            },
    {
        let mut i: usize = 0;
        while i < self.entries.len()
            invariant
                i <= self.entries@.len(),
                forall|k: int| 0 <= k < i ==> #[trigger] self.entries@[k].0@ != key@,
            decreases self.entries@.len() - i,
        {
            if str_eq(self.entries[i].0.as_str(), key) {
                return Some(i);
            }
            i = i + 1;
        }
        None
    }

    /// The value bound to `key`, if any.
    pub fn get(&self, key: &str) -> (r: Option<&V>)
        ensures
            match r {
                Some(v) => self.map().dom().contains(key@) && self.map()[key@] == v@,
                None => !self.map().dom().contains(key@),
            },
    {
        proof {
            use_type_invariant(self);
        }
        let ghost ps = str_pairs(self.entries@);
        match self.position(key) {
            Some(i) => {
                proof {
                    lemma_assoc_at(ps, i as int);
                }
                Some(&self.entries[i].1)
            },
            None => {
                proof {
                    assert forall|k: int| 0 <= k < ps.len() implies #[trigger] ps[k].0 != key@ by {
                        assert(ps[k].0 == self.entries@[k].0@);
                    }
                    lemma_assoc_absent(ps, key@);
                }
                None
            },
        }
    }

    /// Binds `key` to `value`, replacing an earlier binding of the key.
    pub fn insert(&mut self, key: String, value: V)
        ensures
            final(self).map() == old(self).map().insert(key@, value@),
    {
        proof {
            use_type_invariant(&*self);
        }
        let ghost ps = str_pairs(self.entries@);
        let ghost vv = value@;
        let pos = self.position(key.as_str());
        let mut es: Vec<(String, V)> = Vec::new();
        std::mem::swap(&mut es, &mut self.entries);
        match pos {
            Some(i) => {
                proof {
                    lemma_assoc_update(ps, i as int, vv);
                }
                es.set(i, (key, value));
                proof {
                    assert(str_pairs(es@) =~= ps.update(i as int, (ps[i as int].0, vv)));
                }
            },
            None => {
                proof {
                    assert forall|k: int| 0 <= k < ps.len() implies #[trigger] ps[k].0 != key@ by {
                        assert(ps[k].0 == es@[k].0@);
                    }
                    lemma_assoc_push(ps, key@, vv);
                }
                let ghost kv = key@;
                es.push((key, value));
                proof {
                    assert(str_pairs(es@) =~= ps.push((kv, vv)));
                }
            },
        }
        self.entries = es;
    }
}

impl StrMap<bool> {
    /// Whether some key is bound to `true`.
    pub fn any_true(&self) -> (r: bool)
        ensures
            r <==> exists|k: Seq<char>| self.map().dom().contains(k) && #[trigger] self.map()[k],
    {
        proof {
            use_type_invariant(self);
        }
        let ghost ps = str_pairs(self.entries@);
        let mut i: usize = 0;
        while i < self.entries.len()
            invariant
                i <= self.entries@.len(),
                ps == str_pairs(self.entries@),
                keys_distinct(ps),
                forall|k: int| 0 <= k < i ==> !(#[trigger] self.entries@[k]).1,
            decreases self.entries@.len() - i,
        {
            if self.entries[i].1 {
                proof {
                    lemma_assoc_at(ps, i as int);
                    assert(self.map()[ps[i as int].0]);
                }
                return true;
            }
            i = i + 1;
        }
        proof {
            assert forall|k: Seq<char>| self.map().dom().contains(k) implies !#[trigger] self.map()[k] by {
                lemma_assoc_dom(ps, k);
                let j = choose|j: int| 0 <= j < ps.len() && #[trigger] ps[j].0 == k;
                lemma_assoc_at(ps, j);
                assert(!self.entries@[j].1);
            }
        }
        false
    }
}

} // verus!
