//! A collection which is similar to a hash map in that it stores values
//! associated with a key, but where multiple values can be associated with
//! the same key.
//!
//! The contents are modelled as a map from keys to the sequence of values
//! inserted under that key, in insertion order. The statements about the
//! contents hold under vstd's key-model condition for the key type, which
//! holds for the integer types and other types whose hashes are
//! deterministic.

use vstd::prelude::*;
use std::collections::HashMap;
use std::hash::Hash;

verus! {

broadcast use vstd::std_specs::hash::group_hash_axioms;

/// A hash map from keys to all the values inserted under them.
pub struct MultiHash<K, V> {
    map: HashMap<K, Vec<V>>,
}

impl<K: Hash + Eq + Clone, V> MultiHash<K, V> {
    /// The contents: each present key maps to the sequence of values
    /// inserted under it, oldest first.
    pub closed spec fn contents(self) -> Map<K, Seq<V>> {
        self.map@.map_values(|v: Vec<V>| v@)
    }

    /// Constructor for `MultiHash`.
    pub fn new() -> (m: MultiHash<K, V>)
        ensures
            m.contents() == Map::<K, Seq<V>>::empty(),
    {
        let m = MultiHash { map: HashMap::new() };
        proof {
            assert(m.contents() =~= Map::<K, Seq<V>>::empty());
        }
        m
    }

    /// Insert a new value: appended after the values already associated
    /// with the key, if any.
    pub fn insert(&mut self, key: K, value: V)
        ensures
            vstd::std_specs::hash::obeys_key_model::<K>() ==> final(self).contents() == (
            if old(self).contents().contains_key(key) {
                old(self).contents().insert(key, old(self).contents()[key].push(value))
            } else {
                old(self).contents().insert(key, seq![value])
            }),
    {
        let ghost pre = self.contents();
        if self.contains_key(&key) {
            match self.map.remove(&key) {
                Some(mut values) => {
                    values.push(value);
                    self.map.insert(key, values);
                    proof {
                        if vstd::std_specs::hash::obeys_key_model::<K>() {
                            assert(self.contents() =~= pre.insert(key, pre[key].push(value)));
                        }
                    }
                },
                None => {
                    proof {
                        if vstd::std_specs::hash::obeys_key_model::<K>() {
                            assert(self.contents() =~= pre.insert(key, pre[key].push(value)));
                        }
                    }
                },
            }
        } else {
            let mut new_vec: Vec<V> = Vec::new();
            new_vec.push(value);
            self.map.insert(key, new_vec);
            proof {
                if vstd::std_specs::hash::obeys_key_model::<K>() {
                    assert(self.contents() =~= pre.insert(key, seq![value]));
                }
            }
        }
    }

    /// Get the values associated with a key, oldest first.
    pub fn get(&self, key: &K) -> (r: Option<&Vec<V>>)
        ensures
            vstd::std_specs::hash::obeys_key_model::<K>() ==> match r {
                Some(values) => self.contents().contains_key(*key) && values@ == self.contents().index(*key),
                None => !self.contents().contains_key(*key),
            },
    {
        self.map.get(key)
    }

    /// Check whether this hash contains any items associated with a given
    /// key.
    pub fn contains_key(&self, key: &K) -> (r: bool)
        ensures
            vstd::std_specs::hash::obeys_key_model::<K>() ==> r == self.contents().contains_key(
                *key,
            ),
    {
        self.map.contains_key(key)
    }
}

} // verus!
