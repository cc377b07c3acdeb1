//! A map kept as a vector of entries in strictly ascending key order.
//!
//! It stands where a `BTreeMap` would: with keys such as strings or locales,
//! whose order the verifier does not know, nothing can be proved of the
//! standard map, not even its length after one insertion. Here the order is
//! the map's own invariant.

use vstd::prelude::*;
use crate::text::{lemma_seq_lt_irreflexive, lemma_seq_lt_total, lemma_seq_lt_transitive, seq_lt, str_lt};

verus! {

/// A key of a [`SortedMap`]: it has a mathematical model by which keys are
/// told apart, and a strict total order on those models.
pub trait Key: Sized {
    /// What a key stands for.
    type Model;

    /// The model of this key.
    spec fn model(&self) -> Self::Model;

    /// Whether `a` comes strictly before `b`.
    spec fn before(a: Self::Model, b: Self::Model) -> bool;

    /// Whether this key comes strictly before `other`.
    fn precedes(&self, other: &Self) -> (r: bool)
        ensures
            r == Self::before(self.model(), other.model()),
    ;

    /// Another key with the same model.
    fn duplicate(&self) -> (r: Self)
        ensures
            r.model() == self.model(),
    ;

    /// `before` is a strict total order.
    proof fn lemma_strict_total_order(a: Self::Model, b: Self::Model, c: Self::Model)
        ensures
            !Self::before(a, a),
            Self::before(a, b) && Self::before(b, c) ==> Self::before(a, c),
            a == b || Self::before(a, b) || Self::before(b, a),
    ;
}

impl Key for String {
    type Model = Seq<char>;

    open spec fn model(&self) -> Seq<char> {
        self@
    }

    open spec fn before(a: Seq<char>, b: Seq<char>) -> bool {
        seq_lt(a, b)
    }

    fn precedes(&self, other: &Self) -> (r: bool) {
        str_lt(self.as_str(), other.as_str())
    }

    fn duplicate(&self) -> (r: Self) {
        self.clone()
    }

    proof fn lemma_strict_total_order(a: Seq<char>, b: Seq<char>, c: Seq<char>) {
        lemma_seq_lt_irreflexive(a);
        lemma_seq_lt_total(a, b);
        if seq_lt(a, b) && seq_lt(b, c) {
            lemma_seq_lt_transitive(a, b, c);
        }
    }
}

/// Whether `keys` stand in strictly ascending order.
pub open spec fn ascending<K: Key>(keys: Seq<K::Model>) -> bool {
    forall|i: int, j: int| 0 <= i < j < keys.len() ==> K::before(#[trigger] keys[i], #[trigger] keys[j])
}

/// The models of a sequence of keys.
pub open spec fn models<K: Key>(keys: Seq<K>) -> Seq<K::Model> {
    keys.map_values(|k: K| k.model())
}

/// The map that sends `keys[i]` to `values[i]`.
pub open spec fn zip_map<M, T>(keys: Seq<M>, values: Seq<T>) -> Map<M, T> {
    Map::new(|k: M| keys.contains(k), |k: M| values[keys.index_of(k)])
}

/// In an ascending sequence every key stands at one place only.
pub proof fn lemma_ascending_distinct<K: Key>(keys: Seq<K::Model>, i: int, j: int)
    requires
        ascending::<K>(keys),
        0 <= i < keys.len(),
        0 <= j < keys.len(),
        keys[i] == keys[j],
    ensures
        i == j,
{
    K::lemma_strict_total_order(keys[i], keys[i], keys[i]);
}

/// What `zip_map` holds at each place of an ascending key sequence.
pub proof fn lemma_zip_map_at<K: Key, T>(keys: Seq<K::Model>, values: Seq<T>, i: int)
    requires
        ascending::<K>(keys),
        keys.len() == values.len(),
        0 <= i < keys.len(),
    ensures
        zip_map(keys, values).contains_key(keys[i]),
        zip_map(keys, values)[keys[i]] == values[i],
{
    assert(keys.contains(keys[i]));
    lemma_ascending_distinct::<K>(keys, i, keys.index_of(keys[i]));
}

/// A map from keys to values, held in ascending key order without
/// duplicate keys.
#[derive(Debug, PartialEq, Eq)]
pub struct SortedMap<K: Key, T> {
    entries: Vec<(K, T)>,
}

impl<K: Key, T> View for SortedMap<K, T> {
    type V = Map<K::Model, T>;

    /// The entries as a mathematical map.
    closed spec fn view(&self) -> Map<K::Model, T> {
        zip_map(self.keys(), self.values())
    }
}

impl<K: Key, T: Clone> Clone for SortedMap<K, T> {
    /// A map with the same keys, in the same order, and a clone of each value.
    fn clone(&self) -> (r: Self)
        ensures
            r.keys() == self.keys(),
            r.values().len() == self.values().len(),
            forall|i: int|
                0 <= i < self.values().len() ==> cloned::<T>(
                    #[trigger] self.values()[i],
                    r.values()[i],
                ),
    {
        proof {
            use_type_invariant(self);
        }
        let mut entries: Vec<(K, T)> = Vec::new();
        let n = self.entries.len();
        let mut i: usize = 0;
        while i < n
            invariant
                n == self.entries@.len(),
                i <= n,
                entries@.len() == i,
                forall|j: int|
                    0 <= j < i ==> (#[trigger] entries@[j]).0.model() == self.entries@[j].0.model(),
                forall|j: int|
                    0 <= j < i ==> cloned::<T>(self.entries@[j].1, (#[trigger] entries@[j]).1),
            decreases n - i,
        {
            let entry = &self.entries[i];
            entries.push((entry.0.duplicate(), entry.1.clone()));
            i += 1;
        }
        proof {
            assert(Self::keys_of(entries@) =~= self.keys());
            assert forall|j: int| 0 <= j < self.values().len() implies cloned::<T>(
                #[trigger] self.values()[j],
                Self::values_of(entries@)[j],
            ) by {
                assert(cloned::<T>(self.entries@[j].1, entries@[j].1));
            }
        }
        SortedMap { entries }
    }
}

impl<K: Key, T> SortedMap<K, T> {
    #[verifier::type_invariant]
    spec fn sorted(&self) -> bool {
        ascending::<K>(self.keys())
    }

    spec fn keys_of(entries: Seq<(K, T)>) -> Seq<K::Model> {
        models::<K>(Self::held_of(entries))
    }

    spec fn held_of(entries: Seq<(K, T)>) -> Seq<K> {
        entries.map_values(|e: (K, T)| e.0)
    }

    spec fn values_of(entries: Seq<(K, T)>) -> Seq<T> {
        entries.map_values(|e: (K, T)| e.1)
    }

    /// The key objects, in the order in which the map holds its entries.
    pub closed spec fn held_keys(&self) -> Seq<K> {
        Self::held_of(self.entries@)
    }

    /// The keys, in the order in which the map holds its entries.
    pub open spec fn keys(&self) -> Seq<K::Model> {
        models::<K>(self.held_keys())
    }

    /// The values, each at the place of its key in [`Self::keys`].
    pub closed spec fn values(&self) -> Seq<T> {
        Self::values_of(self.entries@)
    }

    /// What ties the three models together: the keys ascend, values and keys
    /// go pairwise, and the view maps each key to its value.
    pub open spec fn consistent(&self) -> bool {
        &&& ascending::<K>(self.keys())
        &&& self.keys().len() == self.values().len()
        &&& self@ == zip_map(self.keys(), self.values())
    }

    /// An empty map.
    pub fn new() -> (m: Self)
        ensures
            m.consistent(),
            m.keys() == Seq::<K::Model>::empty(),
            m@ == Map::<K::Model, T>::empty(),
    {
        let m = SortedMap { entries: Vec::new() };
        assert(m.keys() =~= Seq::<K::Model>::empty());
        assert(m@ =~= Map::<K::Model, T>::empty());
        m
    }

    /// The number of entries.
    pub fn len(&self) -> (n: usize)
        ensures
            self.consistent(),
            n == self.keys().len(),
    {
        proof {
            use_type_invariant(self);
        }
        self.entries.len()
    }

    /// The entry at place `i` of the ascending order.
    pub fn entry(&self, i: usize) -> (e: (&K, &T))
        requires
            i < self.keys().len(),
        ensures
            self.consistent(),
            *e.0 == self.held_keys()[i as int],
            e.0.model() == self.keys()[i as int],
            *e.1 == self.values()[i as int],
            self@.contains_key(e.0.model()),
            self@[e.0.model()] == *e.1,
    {
        proof {
            use_type_invariant(self);
            lemma_zip_map_at::<K, T>(self.keys(), self.values(), i as int);
        }
        let e = &self.entries[i];
        (&e.0, &e.1)
    }

    /// The place of `key`: `Ok` with its index where the map holds it, `Err`
    /// with the index at which it would be inserted where not.
    fn position(&self, key: &K) -> (r: Result<usize, usize>)
        ensures
            match r {
                Ok(i) => i < self.keys().len() && self.keys()[i as int] == key.model(),
                Err(i) => {
                    &&& i <= self.keys().len()
                    &&& !self.keys().contains(key.model())
                    &&& forall|j: int| 0 <= j < i ==> K::before(#[trigger] self.keys()[j], key.model())
                    &&& forall|j: int|
                        i <= j < self.keys().len() ==> K::before(key.model(), #[trigger] self.keys()[j])
                },
            },
    {
        proof {
            use_type_invariant(self);
        }
        let n = self.entries.len();
        let mut i: usize = 0;
        while i < n && self.entries[i].0.precedes(key)
            invariant
                n == self.entries@.len(),
                n == self.keys().len(),
                i <= n,
                ascending::<K>(self.keys()),
                forall|j: int| 0 <= j < i ==> K::before(#[trigger] self.keys()[j], key.model()),
            decreases n - i,
        {
            i += 1;
        }
        let ghost k = key.model();
        if i < n && !key.precedes(&self.entries[i].0) {
            proof {
                K::lemma_strict_total_order(self.keys()[i as int], k, k);
            }
            Ok(i)
        } else {
            proof {
                assert forall|j: int| i <= j < self.keys().len() implies K::before(
                    k,
                    #[trigger] self.keys()[j],
                ) by {
                    if j > i {
                        K::lemma_strict_total_order(k, self.keys()[i as int], self.keys()[j]);
                    }
                }
                if self.keys().contains(k) {
                    let j = self.keys().index_of(k);
                    K::lemma_strict_total_order(k, k, k);
                }
            }
            Err(i)
        }
    }

    /// The value held for `key`, if any.
    pub fn get(&self, key: &K) -> (r: Option<&T>)
        ensures
            self.consistent(),
            match r {
                Some(v) => self@.contains_key(key.model()) && self@[key.model()] == *v,
                None => !self@.contains_key(key.model()),
            },
    {
        proof {
            use_type_invariant(self);
        }
        match self.position(key) {
            Ok(i) => {
                proof {
                    lemma_zip_map_at::<K, T>(self.keys(), self.values(), i as int);
                }
                Some(&self.entries[i].1)
            },
            Err(_) => None,
        }
    }

    /// Sets the value of `key` and hands back the value it had before, if
    /// any. A key that the map already holds stays as it is.
    pub fn insert(&mut self, key: K, value: T) -> (previous: Option<T>)
        ensures
            final(self).consistent(),
            final(self)@ == old(self)@.insert(key.model(), value),
            previous == if old(self)@.contains_key(key.model()) {
                Some(old(self)@[key.model()])
            } else {
                None::<T>
            },
            old(self)@.contains_key(key.model()) ==> final(self).keys() == old(self).keys(),
            !old(self)@.contains_key(key.model()) ==> final(self).keys().len() == old(
                self,
            ).keys().len() + 1,
    {
        proof {
            use_type_invariant(&*self);
        }
        let ghost k = key.model();
        let ghost keys0 = self.keys();
        let ghost values0 = self.values();
        let place = self.position(&key);
        let mut entries: Vec<(K, T)> = Vec::new();
        std::mem::swap(&mut self.entries, &mut entries);
        match place {
            Ok(i) => {
                proof {
                    lemma_zip_map_at::<K, T>(keys0, values0, i as int);
                }
                let (held, before) = entries.remove(i);
                entries.insert(i, (held, value));
                proof {
                    assert(Self::keys_of(entries@) =~= keys0);
                }
                self.entries = entries;
                proof {
                    assert(self.keys() =~= keys0);
                    assert(self.values() =~= values0.update(i as int, value));
                    assert(self@ =~= zip_map(keys0, values0).insert(k, value)) by {
                        assert forall|x: K::Model| keys0.contains(x) implies #[trigger] zip_map(
                            keys0,
                            values0.update(i as int, value),
                        )[x] == zip_map(keys0, values0).insert(k, value)[x] by {
                            let j = keys0.index_of(x);
                            if x == k {
                                lemma_ascending_distinct::<K>(keys0, i as int, j);
                            }
                        }
                    }
                }
                Some(before)
            },
            Err(i) => {
                entries.insert(i, (key, value));
                let ghost keys1 = Self::keys_of(entries@);
                let ghost values1 = Self::values_of(entries@);
                proof {
                    assert(keys1 =~= keys0.insert(i as int, k));
                    assert(values1 =~= values0.insert(i as int, value));
                    assert(ascending::<K>(keys1)) by {
                        assert forall|a: int, b: int| 0 <= a < b < keys1.len() implies K::before(
                            #[trigger] keys1[a],
                            #[trigger] keys1[b],
                        ) by {
                            if a < i && b > i {
                                assert(keys1[a] == keys0[a] && keys1[b] == keys0[b - 1]);
                            } else if a == i {
                                assert(keys1[b] == keys0[b - 1]);
                            } else if b == i {
                                assert(keys1[a] == keys0[a]);
                            } else if b < i {
                                assert(keys1[a] == keys0[a] && keys1[b] == keys0[b]);
                            } else {
                                assert(keys1[a] == keys0[a - 1] && keys1[b] == keys0[b - 1]);
                            }
                        }
                    }
                }
                self.entries = entries;
                proof {
                    assert(self@ =~= zip_map(keys0, values0).insert(k, value)) by {
                        assert forall|x: K::Model| keys1.contains(x) <==> (x == k || keys0.contains(
                            x,
                        )) by {
                            if keys1.contains(x) {
                                let j = keys1.index_of(x);
                                if j < i {
                                    assert(keys0[j] == x);
                                } else if j > i {
                                    assert(keys0[j - 1] == x);
                                }
                            }
                            if keys0.contains(x) {
                                let j = keys0.index_of(x);
                                if j < i {
                                    assert(keys1[j] == x);
                                } else {
                                    assert(keys1[j + 1] == x);
                                }
                            }
                            if x == k {
                                assert(keys1[i as int] == x);
                            }
                        }
                        assert forall|x: K::Model| keys1.contains(x) implies #[trigger] zip_map(
                            keys1,
                            values1,
                        )[x] == zip_map(keys0, values0).insert(k, value)[x] by {
                            let j = keys1.index_of(x);
                            if x == k {
                                lemma_ascending_distinct::<K>(keys1, i as int, j);
                            } else {
                                let j0 = keys0.index_of(x);
                                let j1 = if j0 < i {
                                    j0
                                } else {
                                    j0 + 1
                                };
                                assert(keys1[j1] == x);
                                lemma_ascending_distinct::<K>(keys1, j, j1);
                            }
                        }
                    }
                }
                None
            },
        }
    }

    /// Whether the map holds `key`.
    pub fn contains_key(&self, key: &K) -> (r: bool)
        ensures
            r == self@.contains_key(key.model()),
    {
        self.get(key).is_some()
    }
}

} // verus!
