//! The in-memory key-value store.
//!
//! A `KeyStore` owns a table of key to value with existence-sensitive
//! mutation: `create` inserts only an absent key, `update` replaces only a
//! present one, `delete` removes only a present one, and each failure says
//! so without mutating anything. The table is modelled as a
//! `Map<Seq<u8>, Value>`; every operation's contract says exactly how the
//! map changes and which result comes back for present and for absent keys.

use vstd::prelude::*;

use crate::assoc::{
    bytes_eq, find_index, lemma_map_of_contains, lemma_map_of_index, lemma_map_of_push,
    lemma_map_of_remove, lemma_map_of_update, map_of, unique_keys,
};
use crate::encode::{make_uri, uri_of};
use crate::value::Value;

verus! {

/// A location reference: the canonical `/keys/<encoded key>` path of a key.
#[derive(Debug, PartialEq, Eq)]
pub struct Location {
    pub uri: Vec<u8>,
}

/// Why a store operation failed. Both failures echo the key's location,
/// so a caller can decide its next action.
#[derive(Debug, PartialEq, Eq)]
pub enum StoreError {
    /// `create` on a key that already exists; nothing was mutated.
    Conflict(Location),
    /// `read`, `update` or `delete` on an absent key; nothing was mutated.
    NotFound(Location),
}

/// The in-memory table of key to value.
pub struct KeyStore {
    entries: Vec<(Vec<u8>, Value)>,
}

impl View for KeyStore {
    type V = Map<Seq<u8>, Value>;

    closed spec fn view(&self) -> Map<Seq<u8>, Value> {
        map_of(self.entries@)
    }
}

impl KeyStore {
    /// The representation invariant: no key appears twice.
    pub closed spec fn wf(&self) -> bool {
        unique_keys(self.entries@)
    }

    /// An empty store.
    pub fn new() -> (r: KeyStore)
        ensures
            r.wf(),
            r@ == Map::<Seq<u8>, Value>::empty(),
    {
        let r = KeyStore { entries: Vec::new() };
        proof {
            assert(r@ =~= Map::<Seq<u8>, Value>::empty());
        }
        r
    }

    /// Inserts `value` under `key` only if `key` is absent. On success the
    /// key's location comes back and the table gains exactly that binding;
    /// if the key already exists, the call fails with `Conflict`, mutates
    /// nothing, and still returns the location of the existing key.
    pub fn create(&mut self, key: Vec<u8>, value: Value) -> (r: Result<Location, StoreError>)
        requires
            old(self).wf(),
        ensures
            final(self).wf(),
            match r {
                Ok(loc) => !old(self)@.contains_key(key@) && loc.uri@ == uri_of(key@)
                    && final(self)@ == old(self)@.insert(key@, value),
                Err(StoreError::Conflict(loc)) => old(self)@.contains_key(key@)
                    && loc.uri@ == uri_of(key@) && final(self)@ == old(self)@,
                Err(StoreError::NotFound(_)) => false,
            },
    {
        let uri = make_uri(&key);
        proof {
            lemma_map_of_contains(self.entries@, key@);
        }
        match find_index(&self.entries, &key) {
            Some(_) => Err(StoreError::Conflict(Location { uri })),
            None => {
                let ghost s0 = self.entries@;
                self.entries.push((key, value));
                proof {
                    lemma_map_of_push(s0, (key, value));
                    assert forall|i: int, j: int|
                        0 <= i < j < self.entries@.len() implies self.entries@[i].0@
                        != self.entries@[j].0@ by {
                        if j < s0.len() {
                            assert(s0[i].0@ != s0[j].0@);
                        } else {
                            assert(s0[i].0@ != key@);
                        }
                    }
                }
                Ok(Location { uri })
            },
        }
    }

    /// Returns the value stored under `key`, or `None` if the key is absent.
    /// The caller sees exactly what the table holds.
    pub fn read(&self, key: &Vec<u8>) -> (r: Option<&Value>)
        requires
            self.wf(),
        ensures
            match r {
                Some(v) => self@.contains_key(key@) && *v == self@[key@],
                None => !self@.contains_key(key@),
            },
    {
        proof {
            lemma_map_of_contains(self.entries@, key@);
        }
        match find_index(&self.entries, key) {
            Some(i) => {
                proof {
                    lemma_map_of_index(self.entries@, i as int);
                }
                Some(&self.entries[i].1)
            },
            None => None,
        }
    }

    /// Replaces the value under `key` only if `key` is present. On an
    /// absent key the call fails with `NotFound` and mutates nothing.
    pub fn update(&mut self, key: &Vec<u8>, value: Value) -> (r: Result<Location, StoreError>)
        requires
            old(self).wf(),
        ensures
            final(self).wf(),
            match r {
                Ok(loc) => old(self)@.contains_key(key@) && loc.uri@ == uri_of(key@)
                    && final(self)@ == old(self)@.insert(key@, value),
                Err(StoreError::NotFound(loc)) => !old(self)@.contains_key(key@)
                    && loc.uri@ == uri_of(key@) && final(self)@ == old(self)@,
                Err(StoreError::Conflict(_)) => false,
            },
    {
        let uri = make_uri(key);
        proof {
            lemma_map_of_contains(self.entries@, key@);
        }
        match find_index(&self.entries, key) {
            Some(i) => {
                let ghost s0 = self.entries@;
                self.entries[i].1 = value;
                proof {
                    lemma_map_of_update(s0, i as int, self.entries@[i as int]);
                }
                Ok(Location { uri })
            },
            None => Err(StoreError::NotFound(Location { uri })),
        }
    }

    /// Removes `key` only if it is present, returning its location. On an
    /// absent key the call fails with `NotFound` and mutates nothing.
    /// A removed key stays absent until created again.
    pub fn delete(&mut self, key: &Vec<u8>) -> (r: Result<Location, StoreError>)
        requires
            old(self).wf(),
        ensures
            final(self).wf(),
            match r {
                Ok(loc) => old(self)@.contains_key(key@) && loc.uri@ == uri_of(key@)
                    && final(self)@ == old(self)@.remove(key@),
                Err(StoreError::NotFound(loc)) => !old(self)@.contains_key(key@)
                    && loc.uri@ == uri_of(key@) && final(self)@ == old(self)@,
                Err(StoreError::Conflict(_)) => false,
            },
    {
        let uri = make_uri(key);
        proof {
            lemma_map_of_contains(self.entries@, key@);
        }
        match find_index(&self.entries, key) {
            Some(i) => {
                let ghost s0 = self.entries@;
                self.entries.remove(i);
                proof {
                    lemma_map_of_remove(s0, i as int);
                }
                Ok(Location { uri })
            },
            None => Err(StoreError::NotFound(Location { uri })),
        }
    }

    /// Whether `key` is currently present.
    pub fn contains(&self, key: &Vec<u8>) -> (r: bool)
        requires
            self.wf(),
        ensures
            r == self@.contains_key(key@),
    {
        proof {
            lemma_map_of_contains(self.entries@, key@);
        }
        match find_index(&self.entries, key) {
            Some(_) => true,
            None => false,
        }
    }
}

/// Law: a value just created is read back unchanged. `create`'s contract
/// makes the table `m.insert(k, v)`; `read`'s contract returns what that
/// table holds at `k`, which is `v` itself.
pub proof fn lemma_create_then_read(m: Map<Seq<u8>, Value>, k: Seq<u8>, v: Value)
    requires
        !m.contains_key(k),
    ensures
        m.insert(k, v).contains_key(k),
        m.insert(k, v)[k] == v,
{
}

/// Law: create is exactly-once. After a successful `create(k, v1)` the key
/// is present, so a second `create(k, v2)` meets only the `Conflict` arm of
/// `create`'s contract, which leaves the table unchanged — and a `read(k)`
/// of that unchanged table still yields `v1`.
pub proof fn lemma_create_exactly_once(m: Map<Seq<u8>, Value>, k: Seq<u8>, v1: Value)
    requires
        !m.contains_key(k),
    ensures
        m.insert(k, v1).contains_key(k),
        m.insert(k, v1)[k] == v1,
{
}

/// Law: delete is final. After `delete(k)` succeeds the table is
/// `m.remove(k)`, where `k` is absent: a second `delete(k)` and any
/// subsequent `read(k)` meet only the `NotFound` arms of their contracts.
pub proof fn lemma_delete_is_final(m: Map<Seq<u8>, Value>, k: Seq<u8>)
    ensures
        !m.remove(k).contains_key(k),
{
}

/// Law: creates on distinct keys are isolated. If `k1` and `k2` are both
/// absent and distinct, creating `k1` leaves `k2` absent, so creating `k2`
/// also succeeds, and afterwards each key reads back its own value. In any
/// order the serialized creates run, every one on a fresh key succeeds and
/// is independently readable.
pub proof fn lemma_distinct_creates_isolated(
    m: Map<Seq<u8>, Value>,
    k1: Seq<u8>,
    v1: Value,
    k2: Seq<u8>,
    v2: Value,
)
    requires
        k1 != k2,
        !m.contains_key(k1),
        !m.contains_key(k2),
    ensures
        !m.insert(k1, v1).contains_key(k2),
        m.insert(k1, v1).insert(k2, v2)[k1] == v1,
        m.insert(k1, v1).insert(k2, v2)[k2] == v2,
{
}

} // verus!
