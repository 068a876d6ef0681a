//! The storage backend: an abstract keyed store that storage nodes
//! persist into, modelled as a map from keys to stored values, and a
//! basic in-memory implementation.

use vstd::prelude::*;
use crate::message::{Key, KeyV, Value, ValueV};

verus! {

/// A generic storage backend for storage nodes to use as persistence
/// layer. Its observable state is a map from keys to stored values;
/// `insert` overwrites unconditionally and `get` never mutates.
pub trait StorageBackend: Sized {
    /// The implementation's internal well-formedness.
    spec fn inv(&self) -> bool;

    /// The map this backend currently stores.
    spec fn contents(&self) -> Map<KeyV, ValueV>;

    /// A fresh, empty backend.
    fn new() -> (s: Self)
        ensures
            s.inv(),
            s.contents() == Map::<KeyV, ValueV>::empty(),
    ;

    /// Persist `value` under `key`, overwriting any previous entry.
    fn insert(&mut self, key: Key, value: Value)
        requires
            old(self).inv(),
        ensures
            final(self).inv(),
            final(self).contents() == old(self).contents().insert(key@, value@),
    ;

    /// Get the stored value for the given `key`, if any.
    fn get(&self, key: &Key) -> (r: Option<Value>)
        requires
            self.inv(),
        ensures
            match r {
                Some(v) => self.contents().contains_key(key@) && v@ == self.contents()[key@],
                None => !self.contents().contains_key(key@),
            },
    ;
}

/// Byte-wise equality of two buffers.
fn bytes_eq(a: &Vec<u8>, b: &Vec<u8>) -> (r: bool)
    ensures
        r == (a@ == b@),
{
    if a.len() != b.len() {
        proof {
            assert(a@ != b@);
        }
        return false;
    }
    let n = a.len();
    let mut i: usize = 0;
    while i < n
        invariant
            n == a@.len() == b@.len(),
            0 <= i <= n,
            forall|j: int| 0 <= j < i ==> a@[j] == b@[j],
        decreases n - i,
    {
        if a[i] != b[i] {
            proof {
                assert(a@ != b@);
            }
            return false;
        }
        i += 1;
    }
    proof {
        assert(a@ =~= b@);
    }
    true
}

/// Equality of two keys: byte-wise equality of the triple.
fn key_eq(a: &Key, b: &Key) -> (r: bool)
    ensures
        r == (a@ == b@),
{
    let r = bytes_eq(&a.dataset, &b.dataset) && bytes_eq(&a.pkey, &b.pkey) && bytes_eq(
        &a.lkey,
        &b.lkey,
    );
    proof {
        if r {
            assert(a@ =~= b@);
        }
    }
    r
}

/// The map stored by an association list: later entries win, though
/// the backend keeps keys unique so order never matters.
spec fn assoc_map(entries: Seq<(Key, Value)>) -> Map<KeyV, ValueV>
    decreases entries.len(),
{
    if entries.len() == 0 {
        Map::<KeyV, ValueV>::empty()
    } else {
        assoc_map(entries.drop_last()).insert(entries.last().0@, entries.last().1@)
    }
}

/// Keys are pairwise distinct.
spec fn unique_keys(entries: Seq<(Key, Value)>) -> bool {
    forall|i: int, j: int| 0 <= i < j < entries.len() ==> entries[i].0@ != entries[j].0@
}

proof fn lemma_assoc_map_at(entries: Seq<(Key, Value)>, i: int)
    requires
        unique_keys(entries),
        0 <= i < entries.len(),
    ensures
        assoc_map(entries).contains_key(entries[i].0@),
        assoc_map(entries)[entries[i].0@] == entries[i].1@,
    decreases entries.len(),
{
    if i < entries.len() - 1 {
        lemma_assoc_map_at(entries.drop_last(), i);
    }
}

proof fn lemma_assoc_map_absent(entries: Seq<(Key, Value)>, k: KeyV)
    requires
        forall|i: int| 0 <= i < entries.len() ==> entries[i].0@ != k,
    ensures
        !assoc_map(entries).contains_key(k),
    decreases entries.len(),
{
    if entries.len() > 0 {
        lemma_assoc_map_absent(entries.drop_last(), k);
    }
}

proof fn lemma_assoc_map_update(entries: Seq<(Key, Value)>, i: int, key: Key, value: Value)
    requires
        unique_keys(entries),
        0 <= i < entries.len(),
        entries[i].0@ == key@,
    ensures
        unique_keys(entries.update(i, (key, value))),
        assoc_map(entries.update(i, (key, value))) == assoc_map(entries).insert(key@, value@),
    decreases entries.len(),
{
    let updated = entries.update(i, (key, value));
    assert(unique_keys(updated));
    if i == entries.len() - 1 {
        assert(updated.drop_last() =~= entries.drop_last());
        assert(assoc_map(updated) =~= assoc_map(entries).insert(key@, value@));
    } else {
        lemma_assoc_map_update(entries.drop_last(), i, key, value);
        assert(updated.drop_last() =~= entries.drop_last().update(i, (key, value)));
        assert(updated.last() == entries.last());
        assert(entries.last().0@ != key@);
        assert(assoc_map(updated) =~= assoc_map(entries).insert(key@, value@));
    }
}

/// A basic in-memory backend for storage nodes, held as an
/// association list with unique keys.
#[derive(Debug)]
pub struct HashMapBackend {
    entries: Vec<(Key, Value)>,
}

impl StorageBackend for HashMapBackend {
    closed spec fn inv(&self) -> bool {
        unique_keys(self.entries@)
    }

    closed spec fn contents(&self) -> Map<KeyV, ValueV> {
        assoc_map(self.entries@)
    }

    fn new() -> (s: Self)
        ensures
            s.inv(),
            s.contents() == Map::<KeyV, ValueV>::empty(),
    {
        HashMapBackend { entries: Vec::new() }
    }

    fn insert(&mut self, key: Key, value: Value)
        ensures
            final(self).inv(),
            final(self).contents() == old(self).contents().insert(key@, value@),
    {
        let n = self.entries.len();
        let mut i: usize = 0;
        while i < n
            invariant
                n == self.entries@.len(),
                0 <= i <= n,
                self == old(self),
                unique_keys(self.entries@),
                forall|j: int| 0 <= j < i ==> self.entries@[j].0@ != key@,
            decreases n - i,
        {
            if key_eq(&self.entries[i].0, &key) {
                proof {
                    lemma_assoc_map_update(self.entries@, i as int, key, value);
                }
                let elem = &mut self.entries[i];
                *elem = (key, value);
                return;
            }
            i += 1;
        }
        proof {
            lemma_assoc_map_absent(self.entries@, key@);
            assert(self.entries@.push((key, value)).drop_last() =~= self.entries@);
            assert forall|a: int, b: int|
                0 <= a < b < self.entries@.push((key, value)).len() implies self.entries@.push(
                (key, value),
            )[a].0@ != self.entries@.push((key, value))[b].0@ by {
                if b < self.entries@.len() {
                    assert(self.entries@[a].0@ != self.entries@[b].0@);
                }
            }
        }
        self.entries.push((key, value));
    }

    fn get(&self, key: &Key) -> (r: Option<Value>)
        ensures
            match r {
                Some(v) => self.contents().contains_key(key@) && v@ == self.contents()[key@],
                None => !self.contents().contains_key(key@),
            },
    {
        let n = self.entries.len();
        let mut i: usize = 0;
        while i < n
            invariant
                self.inv(),
                n == self.entries@.len(),
                0 <= i <= n,
                forall|j: int| 0 <= j < i ==> self.entries@[j].0@ != key@,
            decreases n - i,
        {
            if key_eq(&self.entries[i].0, key) {
                proof {
                    lemma_assoc_map_at(self.entries@, i as int);
                }
                return Some(self.entries[i].1.duplicate());
            }
            i += 1;
        }
        proof {
            lemma_assoc_map_absent(self.entries@, key@);
        }
        None
    }
}

} // verus!