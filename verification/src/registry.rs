//! Objects under ids, in the order in which they were added.

use std::sync::Arc;

use indexmap::IndexMap;
use vstd::prelude::*;

use crate::text::Uuid;

verus! {

#[verifier::external_type_specification]
#[verifier::external_body]
#[verifier::reject_recursive_types(K)]
#[verifier::reject_recursive_types(V)]
#[verifier::reject_recursive_types(S)]
pub struct ExIndexMap<K, V, S>(IndexMap<K, V, S>);

/// The entries of an `indexmap::IndexMap`, in its order.
pub uninterp spec fn index_entries(map: IndexMap<u128, usize>) -> Seq<(u128, usize)>;

/// Whether a list of entries has one under the key.
pub open spec fn has_key<V>(entries: Seq<(Uuid, V)>, key: Uuid) -> bool {
    exists|i: int| 0 <= i < entries.len() && (#[trigger] entries[i]).0 == key
}

/// Makes an empty map.
///
/// Calls `indexmap::IndexMap::new`, which makes a map without entries.
#[verifier::external_body]
fn index_new() -> (r: IndexMap<u128, usize>)
    ensures
        index_entries(r) == Seq::<(u128, usize)>::empty(),
{
    IndexMap::new()
}

/// Looks up a key.
///
/// Calls `indexmap::IndexMap::get`, which gives the value of the entry with
/// that key, or nothing if no entry has it.
#[verifier::external_body]
fn index_get(map: &IndexMap<u128, usize>, key: u128) -> (r: Option<usize>)
    ensures
        match r {
            Some(value) => exists|i: int|
                0 <= i < index_entries(*map).len() && #[trigger] index_entries(*map)[i] == (
                    key,
                    value,
                ),
            None => !has_key(index_entries(*map), key),
        },
{
    map.get(&key).copied()
}

/// Puts a value under a key.
///
/// Calls `indexmap::IndexMap::insert`. A new key comes last in the order; an
/// entry that was there keeps its place and gets the new value.
#[verifier::external_body]
fn index_insert(map: &mut IndexMap<u128, usize>, key: u128, value: usize)
    ensures
        !has_key(index_entries(*old(map)), key) ==> index_entries(*final(map)) == index_entries(
            *old(map),
        ).push((key, value)),
        forall|i: int|
            0 <= i < index_entries(*old(map)).len() && (#[trigger] index_entries(*old(map))[i]).0
                == key ==> index_entries(*final(map)) == index_entries(*old(map)).update(
                i,
                (key, value),
            ),
{
    map.insert(key, value);
}

/// Copies a map.
///
/// Calls the `Clone` of `indexmap::IndexMap`, which keeps the entries and
/// their order.
#[verifier::external_body]
fn index_clone(map: &IndexMap<u128, usize>) -> (r: IndexMap<u128, usize>)
    ensures
        index_entries(r) == index_entries(*map),
{
    map.clone()
}

/// Objects under ids, in the order in which they were added.
///
/// Stored with `Arc` to allow cheap cloning.
#[derive(Debug)]
pub struct Registry<T> {
    index: IndexMap<u128, usize>,
    items: Vec<Arc<T>>,
}

impl<T> View for Registry<T> {
    type V = Seq<(Uuid, T)>;

    closed spec fn view(&self) -> Seq<(Uuid, T)> {
        Seq::new(
            self.items@.len(),
            |i: int| (index_entries(self.index)[i].0, *self.items@[i]),
        )
    }
}

/// Whether no two entries have the same key.
pub open spec fn keys_differ<V>(entries: Seq<(Uuid, V)>) -> bool {
    forall|i: int, j: int|
        #![trigger entries[i], entries[j]]
        0 <= i < j < entries.len() ==> entries[i].0 != entries[j].0
}

/// The entries with a value under a key: a new key comes last, and an old one
/// keeps its place.
pub open spec fn with_entry<V>(entries: Seq<(Uuid, V)>, key: Uuid, value: V) -> Seq<(Uuid, V)> {
    if has_key(entries, key) {
        entries.map_values(
            |e: (Uuid, V)|
                if e.0 == key {
                    (key, value)
                } else {
                    e
                },
        )
    } else {
        entries.push((key, value))
    }
}

impl<T> Registry<T> {
    #[verifier::type_invariant]
    spec fn consistent(self) -> bool {
        &&& index_entries(self.index).len() == self.items@.len()
        &&& forall|i: int|
            0 <= i < self.items@.len() ==> (#[trigger] index_entries(self.index)[i]).1 == i
        &&& keys_differ(index_entries(self.index))
    }

    /// A registry without objects.
    pub fn new() -> (r: Self)
        ensures
            r@ == Seq::<(Uuid, T)>::empty(),
    {
        let r = Registry { index: index_new(), items: Vec::new() };
        assert(r@ =~= Seq::<(Uuid, T)>::empty());
        r
    }

    /// Whether there are no objects.
    pub fn is_empty(&self) -> (r: bool)
        ensures
            r == (self@.len() == 0),
    {
        self.items.is_empty()
    }

    /// The object under an id.
    pub fn get(&self, id: Uuid) -> (r: Option<&T>)
        ensures
            match r {
                Some(t) => self@.contains((id, *t)),
                None => !has_key(self@, id),
            },
            keys_differ(self@),
    {
        proof {
            use_type_invariant(self);
        }
        match index_get(&self.index, id) {
            Some(at) => {
                assert(self@[at as int] == (id, *self.items@[at as int]));
                Some(&*self.items[at])
            },
            None => {
                proof {
                    if has_key(self@, id) {
                        let i = choose|i: int| 0 <= i < self@.len() && (#[trigger] self@[i]).0
                            == id;
                        assert(index_entries(self.index)[i].0 == id);
                    }
                }
                None
            },
        }
    }

    /// The objects, in the order in which they were added.
    pub fn values(&self) -> (r: Vec<&T>)
        ensures
            r.len() == self@.len(),
            forall|i: int| 0 <= i < r.len() ==> *(#[trigger] r@[i]) == self@[i].1,
            keys_differ(self@),
    {
        proof {
            use_type_invariant(self);
        }
        let mut out: Vec<&T> = Vec::new();
        let mut i: usize = 0;
        while i < self.items.len()
            invariant
                i <= self.items.len(),
                self@.len() == self.items.len(),
                out.len() == i,
                forall|k: int| 0 <= k < i ==> *(#[trigger] out@[k]) == self@[k].1,
            decreases self.items.len() - i,
        {
            out.push(&*self.items[i]);
            i = i + 1;
        }
        out
    }

    /// Puts an object under an id.
    pub fn insert(&mut self, id: Uuid, item: Arc<T>)
        ensures
            final(self)@ == with_entry(old(self)@, id, *item),
    {
        proof {
            use_type_invariant(&*self);
        }
        let ghost before = self@;
        let mut taken = Registry::new();
        std::mem::swap(&mut taken, self);
        let Registry { mut index, mut items } = taken;
        match index_get(&index, id) {
            Some(at) => {
                items.set(at, item);
                assert(before[at as int].0 == id);
            },
            None => {
                proof {
                    if has_key(before, id) {
                        let i = choose|i: int| 0 <= i < before.len() && (#[trigger] before[i]).0
                            == id;
                        assert(index_entries(index)[i].0 == id);
                    }
                }
                index_insert(&mut index, id, items.len());
                items.push(item);
            },
        }
        *self = Registry { index, items };
        assert(self@ =~= with_entry(before, id, *item));
    }
}

impl<T> Clone for Registry<T> {
    fn clone(&self) -> (r: Self)
        ensures
            r@ == self@,
    {
        proof {
            use_type_invariant(self);
        }
        let mut items: Vec<Arc<T>> = Vec::new();
        let mut i: usize = 0;
        while i < self.items.len()
            invariant
                i <= self.items.len(),
                items.len() == i,
                forall|k: int| 0 <= k < i ==> *(#[trigger] items@[k]) == *self.items@[k],
            decreases self.items.len() - i,
        {
            items.push(self.items[i].clone());
            i = i + 1;
        }
        let r = Registry { index: index_clone(&self.index), items };
        assert(r@ =~= self@);
        r
    }
}

} // verus!
