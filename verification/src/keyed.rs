//! A table keyed by text, kept in key order.
//!
//! Content is addressed by string ids ("werewolf", "wound-draught"), and
//! generation reads these tables in key order so that what it draws does not
//! depend on iteration accidents. The table keeps its entries sorted by key,
//! each key at most once.
use vstd::prelude::*;

use crate::text::{lemma_text_lt_irreflexive, lemma_text_lt_total, lemma_text_lt_trans, text_eq, text_less, text_lt};

verus! {

#[derive(Debug)]
pub struct KeyedMap<V> {
    entries: Vec<(String, V)>,
}

/// Keys in strictly increasing order, each at most once.
pub open spec fn keys_well_ordered(keys: Seq<Seq<char>>) -> bool {
    &&& forall|i: int, j: int| 0 <= i < j < keys.len() ==> keys[i] != keys[j]
    &&& forall|i: int| 0 <= i < keys.len() - 1 ==> text_lt(#[trigger] keys[i], keys[i + 1])
}

proof fn lemma_insert_unique(keys: Seq<Seq<char>>, key: Seq<char>, p: int)
    requires
        keys_well_ordered(keys),
        0 <= p <= keys.len(),
        forall|m: int| 0 <= m < keys.len() ==> keys[m] != key,
    ensures
        forall|i: int, j: int|
            0 <= i < j < keys.len() + 1 ==> keys.insert(p, key)[i] != keys.insert(p, key)[j],
{
    let new_keys = keys.insert(p, key);
    assert forall|i: int, j: int| 0 <= i < j < new_keys.len() implies new_keys[i] != new_keys[j] by {
        if j < p {
        } else if j == p {
        } else if i < p {
            assert(new_keys[j] == keys[j - 1]);
        } else if i == p {
            assert(new_keys[j] == keys[j - 1]);
        } else {
            assert(new_keys[i] == keys[i - 1]);
            assert(new_keys[j] == keys[j - 1]);
        }
    }
}

#[verifier::spinoff_prover]
#[verifier::rlimit(30)]
proof fn lemma_insert_sorted(keys: Seq<Seq<char>>, key: Seq<char>, p: int)
    requires
        keys_well_ordered(keys),
        0 <= p <= keys.len(),
        forall|m: int| 0 <= m < keys.len() ==> keys[m] != key,
        forall|m: int| 0 <= m < p ==> !text_lt(key, #[trigger] keys[m]),
        p < keys.len() ==> text_lt(key, keys[p]),
    ensures
        keys_well_ordered(keys.insert(p, key)),
{
    let new_keys = keys.insert(p, key);
    lemma_insert_unique(keys, key, p);
    if p > 0 {
        lemma_text_lt_total(key, keys[p - 1]);
    }
    assert forall|i: int| 0 <= i < new_keys.len() - 1 implies text_lt(#[trigger] new_keys[i], new_keys[i + 1]) by {
        if i < p - 1 {
            assert(new_keys[i + 1] == keys[i + 1]);
        } else if i == p - 1 {
        } else if i == p {
            assert(new_keys[i + 1] == keys[p]);
        } else {
            assert(new_keys[i] == keys[i - 1]);
            assert(new_keys[i + 1] == keys[i]);
        }
    }
}

proof fn lemma_remove_sorted(keys: Seq<Seq<char>>, i: int)
    requires
        keys_well_ordered(keys),
        0 <= i < keys.len(),
    ensures
        keys_well_ordered(keys.remove(i)),
{
    let new_keys = keys.remove(i);
    assert forall|a: int, b: int| 0 <= a < b < new_keys.len() implies new_keys[a] != new_keys[b] by {
        let oa = if a < i { a } else { a + 1 };
        let ob = if b < i { b } else { b + 1 };
        assert(new_keys[a] == keys[oa]);
        assert(new_keys[b] == keys[ob]);
    }
    assert forall|a: int| 0 <= a < new_keys.len() - 1 implies text_lt(#[trigger] new_keys[a], new_keys[a + 1]) by {
        if a + 1 < i {
            assert(new_keys[a] == keys[a]);
            assert(new_keys[a + 1] == keys[a + 1]);
        } else if a + 1 == i {
            assert(new_keys[a] == keys[a]);
            assert(new_keys[a + 1] == keys[a + 2]);
            assert(text_lt(keys[a], keys[a + 1]));
            assert(text_lt(keys[a + 1], keys[a + 2]));
            lemma_text_lt_trans(keys[a], keys[a + 1], keys[a + 2]);
        } else {
            assert(new_keys[a] == keys[a + 1]);
            assert(new_keys[a + 1] == keys[a + 2]);
        }
    }
}

/// Keys in order rise strictly: each is below every later one, so none
/// comes twice.
pub proof fn lemma_keys_ascending(keys: Seq<Seq<char>>)
    requires
        keys_well_ordered(keys),
    ensures
        forall|i: int, j: int| 0 <= i < j < keys.len() ==> text_lt(#[trigger] keys[i], #[trigger] keys[j]),
    decreases keys.len(),
{
    if keys.len() > 0 {
        let init = keys.drop_last();
        assert forall|i: int| 0 <= i < init.len() - 1 implies text_lt(#[trigger] init[i], init[i + 1]) by {
            assert(init[i] == keys[i]);
            assert(init[i + 1] == keys[i + 1]);
        }
        lemma_keys_ascending(init);
        assert forall|i: int, j: int| 0 <= i < j < keys.len() implies text_lt(#[trigger] keys[i], #[trigger] keys[j]) by {
            if j < keys.len() - 1 {
                assert(init[i] == keys[i]);
                assert(init[j] == keys[j]);
            } else if i < j - 1 {
                assert(init[i] == keys[i]);
                assert(init[j - 1] == keys[j - 1]);
                assert(text_lt(keys[j - 1], keys[j]));
                lemma_text_lt_trans(keys[i], keys[j - 1], keys[j]);
            }
        }
    }
}

impl<V: Clone> Clone for KeyedMap<V> {
    /// A copy with the same keys in the same order; each value is cloned.
    fn clone(&self) -> (r: Self)
        ensures
            r.keys() == self.keys(),
    {
        proof {
            use_type_invariant(self);
        }
        let mut entries: Vec<(String, V)> = Vec::new();
        let mut k: usize = 0;
        while k < self.entries.len()
            invariant
                k <= self.entries@.len(),
                entries.len() == k,
                forall|m: int| 0 <= m < k ==> (#[trigger] entries@[m]).0@ == self.entries@[m].0@,
            decreases self.entries@.len() - k,
        {
            let key = self.entries[k].0.clone();
            let value = self.entries[k].1.clone();
            entries.push((key, value));
            k = k + 1;
        }
        proof {
            assert(entries@.map_values(|e: (String, V)| e.0@) =~= self.keys());
        }
        KeyedMap { entries }
    }
}

impl<V> KeyedMap<V> {
    /// The entries, in key order.
    pub closed spec fn entries(&self) -> Seq<(String, V)> {
        self.entries@
    }

    /// The keys, in order, as text.
    pub open spec fn keys(&self) -> Seq<Seq<char>> {
        self.entries().map_values(|e: (String, V)| e.0@)
    }

    /// The values, in key order.
    pub open spec fn values(&self) -> Seq<V> {
        self.entries().map_values(|e: (String, V)| e.1)
    }

    pub open spec fn len_spec(&self) -> nat {
        self.entries().len()
    }

    pub open spec fn contains(&self, key: Seq<char>) -> bool {
        exists|i: int| 0 <= i < self.len_spec() && self.keys()[i] == key
    }

    /// Where `key` is first stored in the table.
    #[verifier::opaque]
    pub closed spec fn position(&self, key: Seq<char>) -> int {
        choose|i: int|
            0 <= i < self.len_spec() && self.keys()[i] == key && forall|m: int|
                0 <= m < i ==> self.keys()[m] != key
    }

    /// The value stored under `key`, if any.
    pub open spec fn lookup(&self, key: Seq<char>) -> Option<V> {
        if self.contains(key) {
            Some(self.values()[self.position(key)])
        } else {
            None
        }
    }

    /// What every table keeps: its keys in strictly increasing order, each
    /// at most once.
    #[verifier::type_invariant]
    pub open spec fn well_ordered(&self) -> bool {
        keys_well_ordered(self.keys())
    }

    /// A stored key's position holds it, and nothing before it does.
    pub proof fn lemma_position_found(&self, key: Seq<char>)
        requires
            self.contains(key),
        ensures
            0 <= self.position(key) < self.len_spec(),
            self.keys()[self.position(key)] == key,
            forall|m: int| 0 <= m < self.position(key) ==> self.keys()[m] != key,
    {
        reveal(KeyedMap::position);
        let i = choose|i: int| 0 <= i < self.len_spec() && self.keys()[i] == key;
        // The first occurrence exists: walk down from any occurrence.
        assert(exists|f: int|
            0 <= f < self.len_spec() && self.keys()[f] == key && forall|m: int|
                0 <= m < f ==> self.keys()[m] != key) by {
            self.lemma_first_occurrence(key, i);
        }
    }

    proof fn lemma_first_occurrence(&self, key: Seq<char>, i: int)
        requires
            0 <= i < self.len_spec(),
            self.keys()[i] == key,
        ensures
            exists|f: int|
                0 <= f < self.len_spec() && self.keys()[f] == key && forall|m: int|
                    0 <= m < f ==> self.keys()[m] != key,
        decreases i,
    {
        if exists|m: int| 0 <= m < i && self.keys()[m] == key {
            let m = choose|m: int| 0 <= m < i && self.keys()[m] == key;
            self.lemma_first_occurrence(key, m);
        } else {
            assert(forall|m: int| 0 <= m < i ==> self.keys()[m] != key);
        }
    }

    /// The first index at which `key` is stored is its position.
    pub proof fn lemma_position(&self, key: Seq<char>, i: int)
        requires
            0 <= i < self.len_spec(),
            self.keys()[i] == key,
            forall|m: int| 0 <= m < i ==> self.keys()[m] != key,
        ensures
            self.contains(key),
            self.position(key) == i,
            self.lookup(key) == Some(self.values()[i]),
    {
        reveal(KeyedMap::position);
        assert(self.keys()[i] == key && forall|m: int| 0 <= m < i ==> self.keys()[m] != key);
        let p = self.position(key);
        assert(self.keys()[p] == key);
        if p < i {
            assert(self.keys()[p] != key);
        } else if p > i {
            assert(self.keys()[i] != key);
        }
    }

    pub fn new() -> (m: Self)
        ensures
            m.len_spec() == 0,
    {
        KeyedMap { entries: Vec::new() }
    }

    pub fn len(&self) -> (n: usize)
        ensures
            n == self.len_spec(),
    {
        self.entries.len()
    }

    pub fn is_empty(&self) -> (r: bool)
        ensures
            r == (self.len_spec() == 0),
    {
        self.entries.len() == 0
    }

    /// The key and value at index `i` of the key order.
    pub fn entry(&self, i: usize) -> (r: (&String, &V))
        requires
            i < self.len_spec(),
        ensures
            r.0@ == self.keys()[i as int],
            *r.1 == self.values()[i as int],
    {
        let e = &self.entries[i];
        (&e.0, &e.1)
    }

    /// The index of `key`, if it is stored.
    pub fn find(&self, key: &str) -> (r: Option<usize>)
        ensures
            r.is_none() <==> !self.contains(key@),
            r matches Some(i) ==> i < self.len_spec() && self.keys()[i as int] == key@ && self.position(key@) == i,
    {
        let mut i: usize = 0;
        while i < self.entries.len()
            invariant
                i <= self.len_spec(),
                self.entries@ == self.entries(),
                forall|m: int| 0 <= m < i ==> self.keys()[m] != key@,
            decreases self.len_spec() - i,
        {
            if text_eq(self.entries[i].0.as_str(), key) {
                proof {
                    self.lemma_position(key@, i as int);
                }
                return Some(i);
            }
            i = i + 1;
        }
        None
    }

    pub fn contains_key(&self, key: &str) -> (r: bool)
        ensures
            r == self.contains(key@),
    {
        self.find(key).is_some()
    }

    /// The value stored under `key`.
    pub fn get(&self, key: &str) -> (r: Option<&V>)
        ensures
            r.is_some() == self.contains(key@),
            r matches Some(v) ==> self.lookup(key@) == Some(*v),
    {
        match self.find(key) {
            Some(i) => {
                Some(&self.entries[i].1)
            },
            None => None,
        }
    }

    /// Replacing a value in place changes the lookup of its key only.
    proof fn lemma_replaced(old_map: &Self, new_map: &Self, i: int, key: Seq<char>, value: V)
        requires
            keys_well_ordered(old_map.keys()),
            0 <= i < old_map.len_spec(),
            old_map.keys()[i] == key,
            new_map.keys() == old_map.keys(),
            new_map.values() == old_map.values().update(i, value),
        ensures
            new_map.lookup(key) == Some(value),
            forall|k: Seq<char>| k != key ==> #[trigger] new_map.lookup(k) == old_map.lookup(k),
    {
        new_map.lemma_position(key, i);
        assert forall|k: Seq<char>| k != key implies #[trigger] new_map.lookup(k) == old_map.lookup(k) by {
            if old_map.contains(k) {
                old_map.lemma_position_found(k);
                let q = old_map.position(k);
                new_map.lemma_position(k, q);
            } else if new_map.contains(k) {
                new_map.lemma_position_found(k);
                let q = new_map.position(k);
                assert(old_map.keys()[q] == k);
            }
        }
    }

    /// Inserting a fresh key changes the lookup of that key only.
    proof fn lemma_inserted(old_map: &Self, new_map: &Self, p: int, key: Seq<char>, value: V)
        requires
            keys_well_ordered(old_map.keys()),
            0 <= p <= old_map.len_spec(),
            !old_map.contains(key),
            new_map.keys() == old_map.keys().insert(p, key),
            new_map.values() == old_map.values().insert(p, value),
        ensures
            new_map.lookup(key) == Some(value),
            forall|k: Seq<char>| k != key ==> #[trigger] new_map.lookup(k) == old_map.lookup(k),
    {
        assert(new_map.len_spec() == new_map.keys().len());
        assert(old_map.len_spec() == old_map.keys().len());
        assert forall|m: int| 0 <= m < p implies new_map.keys()[m] != key by {
            assert(new_map.keys()[m] == old_map.keys()[m]);
        }
        new_map.lemma_position(key, p);
        assert forall|k: Seq<char>| k != key implies #[trigger] new_map.lookup(k) == old_map.lookup(k) by {
            if old_map.contains(k) {
                old_map.lemma_position_found(k);
                let q = old_map.position(k);
                let nq = if q < p {
                    q
                } else {
                    q + 1
                };
                assert(new_map.keys()[nq] == k);
                assert forall|m: int| 0 <= m < nq implies new_map.keys()[m] != k by {
                    if m < p {
                        assert(new_map.keys()[m] == old_map.keys()[m]);
                    } else if m > p {
                        assert(new_map.keys()[m] == old_map.keys()[m - 1]);
                    }
                }
                new_map.lemma_position(k, nq);
            } else if new_map.contains(k) {
                new_map.lemma_position_found(k);
                let q = new_map.position(k);
                if q < p {
                    assert(old_map.keys()[q] == k);
                } else if q > p {
                    assert(old_map.keys()[q - 1] == k);
                }
            }
        }
    }

    /// Where a key absent from the table belongs in key order.
    #[verifier::rlimit(40)]
    fn insertion_point(&self, key: &str) -> (p: usize)
        requires
            !self.contains(key@),
        ensures
            p <= self.len_spec(),
            keys_well_ordered(self.keys().insert(p as int, key@)),
    {
        proof {
            use_type_invariant(self);
        }
        let ghost keys = self.keys();
        let mut p: usize = 0;
        while p < self.entries.len() && !text_less(key, self.entries[p].0.as_str())
            invariant
                p <= self.len_spec(),
                self.entries@ == self.entries(),
                self.keys() == keys,
                forall|m: int| 0 <= m < p ==> !text_lt(key@, #[trigger] keys[m]),
            decreases self.len_spec() - p,
        {
            p = p + 1;
        }
        proof {
            assert forall|m: int| 0 <= m < keys.len() implies keys[m] != key@ by {
                if keys[m] == key@ {
                    assert(self.keys()[m] == key@);
                }
            }
            if p < keys.len() {
                assert(text_lt(key@, keys[p as int]));
            }
            lemma_insert_unique(keys, key@, p as int);
            lemma_insert_sorted(keys, key@, p as int);
        }
        p
    }

    /// Store `value` under `key`, in key order. Returns the value that was
    /// replaced, if the key was already present.
    #[verifier::rlimit(40)]
    pub fn insert(&mut self, key: String, value: V) -> (r: Option<V>)
        ensures
            r.is_some() == old(self).contains(key@),
            r matches Some(v) ==> old(self).lookup(key@) == Some(v),
            final(self).contains(key@),
            final(self).lookup(key@) == Some(value),
            forall|k: Seq<char>| k != key@ ==> #[trigger] final(self).lookup(k) == old(self).lookup(k),
            old(self).contains(key@) ==> final(self).keys() == old(self).keys(),
            !old(self).contains(key@) ==> final(self).len_spec() == old(self).len_spec() + 1,
    {
        proof {
            use_type_invariant(&*self);
        }
        let ghost old_self = *self;
        match self.find(key.as_str()) {
            Some(i) => {
                let mut entries: Vec<(String, V)> = Vec::new();
                std::mem::swap(&mut entries, &mut self.entries);
                let (k, v) = entries.remove(i);
                entries.insert(i, (k, value));
                proof {
                    assert(entries@.map_values(|e: (String, V)| e.0@) =~= old_self.keys());
                }
                self.entries = entries;
                proof {
                    assert(self.values() =~= old_self.values().update(i as int, value));
                    Self::lemma_replaced(&old_self, self, i as int, key@, value);
                }
                Some(v)
            },
            None => {
                let p = self.insertion_point(key.as_str());
                let ghost key_view = key@;
                let mut entries: Vec<(String, V)> = Vec::new();
                std::mem::swap(&mut entries, &mut self.entries);
                entries.insert(p, (key, value));
                proof {
                    assert(entries@.map_values(|e: (String, V)| e.0@) =~= old_self.keys().insert(p as int, key_view));
                }
                self.entries = entries;
                proof {
                    assert(self.keys() =~= old_self.keys().insert(p as int, key_view));
                    assert(self.values() =~= old_self.values().insert(p as int, value));
                    Self::lemma_inserted(&old_self, self, p as int, key_view, value);
                }
                None
            },
        }
    }

    /// Removing a stored key drops that key only.
    proof fn lemma_removed(old_map: &Self, new_map: &Self, i: int, key: Seq<char>)
        requires
            keys_well_ordered(old_map.keys()),
            0 <= i < old_map.len_spec(),
            old_map.keys()[i] == key,
            new_map.keys() == old_map.keys().remove(i),
            new_map.values() == old_map.values().remove(i),
        ensures
            !new_map.contains(key),
            forall|k: Seq<char>| k != key ==> #[trigger] new_map.lookup(k) == old_map.lookup(k),
    {
        assert(new_map.len_spec() == new_map.keys().len());
        assert(old_map.len_spec() == old_map.keys().len());
        if new_map.contains(key) {
            let q = choose|q: int| 0 <= q < new_map.len_spec() && new_map.keys()[q] == key;
            if q < i {
                assert(old_map.keys()[q] == key);
            } else {
                assert(old_map.keys()[q + 1] == key);
            }
        }
        assert forall|k: Seq<char>| k != key implies #[trigger] new_map.lookup(k) == old_map.lookup(k) by {
            if old_map.contains(k) {
                old_map.lemma_position_found(k);
                let q = old_map.position(k);
                assert(q != i);
                let nq = if q < i {
                    q
                } else {
                    q - 1
                };
                assert(new_map.keys()[nq] == k);
                assert(new_map.values()[nq] == old_map.values()[q]);
                assert forall|m: int| 0 <= m < nq implies new_map.keys()[m] != k by {
                    if m < i {
                        assert(new_map.keys()[m] == old_map.keys()[m]);
                    } else {
                        assert(new_map.keys()[m] == old_map.keys()[m + 1]);
                    }
                }
                new_map.lemma_position(k, nq);
            } else if new_map.contains(k) {
                new_map.lemma_position_found(k);
                let q = new_map.position(k);
                if q < i {
                    assert(old_map.keys()[q] == k);
                } else {
                    assert(old_map.keys()[q + 1] == k);
                }
            }
        }
    }

    /// Remove `key`, returning the value it held.
    #[verifier::rlimit(40)]
    pub fn remove(&mut self, key: &str) -> (r: Option<V>)
        ensures
            r.is_some() == old(self).contains(key@),
            r matches Some(v) ==> old(self).lookup(key@) == Some(v),
            !final(self).contains(key@),
            forall|k: Seq<char>| k != key@ ==> #[trigger] final(self).lookup(k) == old(self).lookup(k),
    {
        proof {
            use_type_invariant(&*self);
        }
        let ghost old_self = *self;
        match self.find(key) {
            Some(i) => {
                let mut entries: Vec<(String, V)> = Vec::new();
                std::mem::swap(&mut entries, &mut self.entries);
                let (_, v) = entries.remove(i);
                proof {
                    assert(entries@.map_values(|e: (String, V)| e.0@) =~= old_self.keys().remove(i as int));
                    lemma_remove_sorted(old_self.keys(), i as int);
                }
                self.entries = entries;
                proof {
                    assert(self.keys() =~= old_self.keys().remove(i as int));
                    assert(self.values() =~= old_self.values().remove(i as int));
                    old_self.lemma_position_found(key@);
                    Self::lemma_removed(&old_self, self, i as int, key@);
                }
                Some(v)
            },
            None => None,
        }
    }
}

} // verus!
