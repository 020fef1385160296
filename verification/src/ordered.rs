//! The keys of ordered maps, in order.

use std::collections::{BTreeMap, BTreeSet};

use vstd::prelude::*;
use vstd::std_specs::cmp::OrdSpec;
use vstd::std_specs::iter::IteratorSpec;

verus! {

/// Whether each number is smaller than those that follow it.
pub open spec fn increasing(list: Seq<int>) -> bool {
    forall|i: int, j: int| 0 <= i < j < list.len() ==> list[i] < list[j]
}

/// Whether a list holds exactly the numbers of a set, smallest first.
pub open spec fn in_order(list: Seq<int>, set: Set<int>) -> bool {
    &&& increasing(list)
    &&& list.to_set() == set
}

/// Two increasing lists of the same numbers are the same list.
pub proof fn lemma_in_order_unique(a: Seq<int>, b: Seq<int>, set: Set<int>)
    requires
        in_order(a, set),
        in_order(b, set),
    ensures
        a == b,
    decreases a.len(),
{
    if a.len() == 0 {
        if b.len() > 0 {
            assert(b.to_set().contains(b[0]));
            assert(a.to_set().contains(b[0]));
        }
        assert(a =~= b);
    } else {
        let x = a.last();
        assert(a.to_set().contains(x));
        assert(b.to_set().contains(x));
        let k = choose|k: int| 0 <= k < b.len() && b[k] == x;
        let y = b.last();
        assert(b.to_set().contains(y));
        assert(a.to_set().contains(y));
        let j = choose|j: int| 0 <= j < a.len() && a[j] == y;
        assert(x == y);
        let a1 = a.drop_last();
        let b1 = b.drop_last();
        assert forall|n: int| #[trigger] a1.to_set().contains(n) == set.remove(x).contains(n) by {
            if a1.to_set().contains(n) {
                let i = choose|i: int| 0 <= i < a1.len() && a1[i] == n;
                assert(a[i] == n);
                assert(a.to_set().contains(n));
            }
            if set.remove(x).contains(n) {
                assert(a.to_set().contains(n));
                let i = choose|i: int| 0 <= i < a.len() && a[i] == n;
                assert(a1[i] == n);
            }
        }
        assert forall|n: int| #[trigger] b1.to_set().contains(n) == set.remove(x).contains(n) by {
            if b1.to_set().contains(n) {
                let i = choose|i: int| 0 <= i < b1.len() && b1[i] == n;
                assert(b[i] == n);
                assert(b.to_set().contains(n));
            }
            if set.remove(x).contains(n) {
                assert(b.to_set().contains(n));
                let i = choose|i: int| 0 <= i < b.len() && b[i] == n;
                assert(b1[i] == n);
            }
        }
        assert(a1.to_set() =~= set.remove(x));
        assert(b1.to_set() =~= set.remove(x));
        lemma_in_order_unique(a1, b1, set.remove(x));
        assert(a =~= a1.push(x));
        assert(b =~= b1.push(x));
    }
}

/// A number that serves as the key of a map.
pub trait MapKey: Ord + Copy {
    /// The key as a number.
    spec fn number(self) -> int;

    /// Keys are ordered as their numbers are, and differ where those do.
    proof fn lemma_ordered_by_number()
        ensures
            vstd::laws_cmp::obeys_cmp::<Self>(),
            forall|a: Self, b: Self|
                (#[trigger] a.cmp_spec(&b)) is Less ==> a.number() < b.number(),
            forall|a: Self, b: Self|
                #![trigger a.number(), b.number()]
                a.number() == b.number() ==> a == b,
    ;
}

impl MapKey for u64 {
    open spec fn number(self) -> int {
        self as int
    }

    proof fn lemma_ordered_by_number() {
        broadcast use vstd::laws_cmp::group_laws_cmp;

    }
}

impl MapKey for u128 {
    open spec fn number(self) -> int {
        self as int
    }

    proof fn lemma_ordered_by_number() {
        broadcast use vstd::laws_cmp::group_laws_cmp;

    }
}

/// Keys as numbers.
pub open spec fn id_numbers<K: MapKey>(list: Seq<K>) -> Seq<int> {
    list.map_values(|k: K| k.number())
}

/// The keys of a map, as numbers.
pub open spec fn id_set<K: MapKey, V>(map: Map<K, V>) -> Set<int> {
    Set::new(|n: int| exists|k: K| #[trigger] map.contains_key(k) && k.number() == n)
}

/// The keys with the numbers of a set, smallest first.
pub open spec fn ids_of<K: MapKey>(set: Set<int>) -> Seq<K> {
    choose|list: Seq<K>| in_order(#[trigger] id_numbers(list), set)
}

/// The keys of a map, smallest first.
pub open spec fn sorted_ids<K: MapKey, V>(map: Map<K, V>) -> Seq<K> {
    ids_of(id_set(map))
}

/// Whether the keys of a map are listed just once each, smallest first.
pub open spec fn in_key_order<K: MapKey, V>(map: Map<K, V>) -> bool {
    &&& increasing(id_numbers(sorted_ids(map)))
    &&& forall|k: K| #[trigger] sorted_ids(map).contains(k) <==> map.contains_key(k)
}

/// How many of an increasing list of keys have smaller numbers than a key.
proof fn lemma_place_of_key<K: MapKey>(list: Seq<K>, key: K) -> (p: int)
    requires
        increasing(id_numbers(list)),
    ensures
        0 <= p <= list.len(),
        forall|i: int| 0 <= i < p ==> (#[trigger] list[i]).number() < key.number(),
        forall|i: int| p <= i < list.len() ==> (#[trigger] list[i]).number() >= key.number(),
    decreases list.len(),
{
    if list.len() == 0 {
        0
    } else {
        let rest = list.drop_last();
        assert forall|i: int, j: int| 0 <= i < j < rest.len() implies id_numbers(rest)[i]
            < id_numbers(rest)[j] by {
            assert(id_numbers(list)[i] < id_numbers(list)[j]);
        }
        let p = lemma_place_of_key(rest, key);
        assert forall|i: int| 0 <= i < rest.len() implies #[trigger] list[i] == rest[i] by {}
        if list.last().number() < key.number() {
            assert forall|i: int| 0 <= i < list.len() implies (#[trigger] list[i]).number()
                < key.number() by {
                if i < rest.len() {
                    assert(id_numbers(list)[i] < id_numbers(list)[list.len() - 1]);
                }
            }
            list.len() as int
        } else {
            p
        }
    }
}

/// Finitely many keys can be listed, smallest first.
pub proof fn lemma_keys_can_be_listed<K: MapKey>(keys: Set<K>) -> (list: Seq<K>)
    requires
        keys.finite(),
    ensures
        increasing(id_numbers(list)),
        forall|k: K| #[trigger] list.contains(k) <==> keys.contains(k),
    decreases keys.len(),
{
    if keys.len() == 0 {
        assert(keys =~= Set::<K>::empty());
        Seq::empty()
    } else {
        K::lemma_ordered_by_number();
        let key = keys.choose();
        let rest = lemma_keys_can_be_listed(keys.remove(key));
        let p = lemma_place_of_key(rest, key);
        let list = rest.insert(p, key);
        assert(!rest.contains(key));
        assert forall|i: int, j: int| 0 <= i < j < list.len() implies id_numbers(list)[i]
            < id_numbers(list)[j] by {
            let (a, b) = (if i < p { i } else { i - 1 }, if j < p { j } else { j - 1 });
            if i != p {
                assert(list[i] == rest[a]);
                assert(id_numbers(rest)[a] == rest[a].number());
            }
            if j != p {
                assert(list[j] == rest[b]);
                assert(id_numbers(rest)[b] == rest[b].number());
            }
            if i == p {
                assert(rest.contains(rest[b]));
                assert(rest[b].number() != key.number());
            }
        }
        assert forall|k: K| #[trigger] list.contains(k) <==> keys.contains(k) by {
            if list.contains(k) && k != key {
                let i = choose|i: int| 0 <= i < list.len() && list[i] == k;
                assert(rest[if i < p { i } else { i - 1 }] == k);
                assert(rest.contains(k));
            }
            if keys.contains(k) {
                if k == key {
                    assert(list[p] == k);
                } else {
                    assert(rest.contains(k));
                    let i = choose|i: int| 0 <= i < rest.len() && rest[i] == k;
                    assert(list[if i < p { i } else { i + 1 }] == k);
                }
            }
        }
        list
    }
}

/// The keys of a finite map are listed just once each, smallest first.
pub proof fn law_keys_are_in_order<K: MapKey, V>(map: Map<K, V>)
    requires
        map.dom().finite(),
    ensures
        in_key_order(map),
{
    let list = lemma_keys_can_be_listed(map.dom());
    assert forall|k: K| list.contains(k) <==> map.contains_key(k) by {
        assert(list.contains(k) <==> map.dom().contains(k));
    }
    lemma_sorted_ids(list, map);
}

/// Maps with the same keys have them in the same order.
pub proof fn lemma_same_ids<K: MapKey, V, W>(a: Map<K, V>, b: Map<K, W>)
    requires
        a.dom() =~= b.dom(),
    ensures
        sorted_ids(a) == sorted_ids(b),
        in_key_order(a) == in_key_order(b),
{
    assert forall|n: int| id_set(a).contains(n) == id_set(b).contains(n) by {
        if id_set(a).contains(n) {
            let k = choose|k: K| #[trigger] a.contains_key(k) && k.number() == n;
            assert(b.dom().contains(k));
            assert(b.contains_key(k));
        }
        if id_set(b).contains(n) {
            let k = choose|k: K| #[trigger] b.contains_key(k) && k.number() == n;
            assert(a.dom().contains(k));
            assert(a.contains_key(k));
        }
    }
    assert(id_set(a) =~= id_set(b));
    assert forall|k: K| a.contains_key(k) == b.contains_key(k) by {
        assert(a.dom().contains(k) == b.dom().contains(k));
    }
}

proof fn lemma_sorted_ids<K: MapKey, V>(list: Seq<K>, map: Map<K, V>)
    requires
        increasing(id_numbers(list)),
        forall|k: K| list.contains(k) <==> map.contains_key(k),
    ensures
        list == sorted_ids(map),
{
    K::lemma_ordered_by_number();
    let numbers = id_numbers(list);
    assert forall|n: int| #[trigger] numbers.to_set().contains(n) == id_set(map).contains(n) by {
        if numbers.to_set().contains(n) {
            let i = choose|i: int| 0 <= i < numbers.len() && numbers[i] == n;
            assert(list.contains(list[i]));
            assert(map.contains_key(list[i]));
        }
        if id_set(map).contains(n) {
            let k = choose|k: K| #[trigger] map.contains_key(k) && k.number() == n;
            assert(list.contains(k));
            let i = choose|i: int| 0 <= i < list.len() && list[i] == k;
            assert(numbers[i] == n);
        }
    }
    assert(numbers.to_set() =~= id_set(map));
    let other = sorted_ids(map);
    assert(in_order(id_numbers(list), id_set(map)));
    lemma_in_order_unique(numbers, id_numbers(other), id_set(map));
    assert(list.len() == numbers.len() == id_numbers(other).len() == other.len());
    assert forall|i: int| 0 <= i < list.len() implies list[i] == other[i] by {
        assert(numbers[i] == list[i].number());
        assert(id_numbers(other)[i] == other[i].number());
    }
    assert(list =~= other);
}

proof fn lemma_increasing_ids<K: MapKey>(list: Seq<&K>)
    requires
        vstd::std_specs::btree::increasing_seq(list),
    ensures
        increasing(id_numbers(list.unref())),
{
    broadcast use vstd::laws_cmp::group_laws_cmp;

    K::lemma_ordered_by_number();
    vstd::std_specs::btree::axiom_increasing_seq_meaning(list);
    assert forall|i: int, j: int| 0 <= i < j < list.len() implies id_numbers(list.unref())[i]
        < id_numbers(list.unref())[j] by {
        assert(OrdSpec::cmp_spec(&list[i], &list[j]) is Less);
        assert((*list[i]).cmp_spec(list[j]) is Less);
    }
}

/// The keys of a map, smallest first.
pub fn ids_in_order<K: MapKey, V>(map: &BTreeMap<K, V>) -> (r: Vec<K>)
    ensures
        r@ == sorted_ids(map@),
        in_key_order(map@),
        increasing(id_numbers(r@)),
        forall|i: int, j: int|
            #![trigger r@[i], r@[j]]
            0 <= i < j < r@.len() ==> r@[i].number() < r@[j].number(),
        forall|k: K| r@.contains(k) <==> map@.contains_key(k),
{
    broadcast use vstd::std_specs::btree::group_btree_axioms;

    proof {
        K::lemma_ordered_by_number();
    }
    let mut ids: Vec<K> = Vec::new();
    let keys = map.keys();
    let ghost all = keys.remaining().unref();
    for k in it: keys
        invariant
            it.seq().unref() == all,
            ids@ == all.take(it.index()),
    {
        ids.push(*k);
    }
    proof {
        lemma_increasing_ids(keys.remaining());
        assert(ids@ =~= all);
        assert(all.to_set() == map@.dom());
        assert forall|k: K| ids@.contains(k) <==> map@.contains_key(k) by {
            assert(all.to_set().contains(k) <==> map@.dom().contains(k));
        }
        lemma_sorted_ids(ids@, map@);
        assert forall|i: int, j: int|
            #![trigger ids@[i], ids@[j]]
            0 <= i < j < ids@.len() implies ids@[i].number() < ids@[j].number() by {
            assert(id_numbers(ids@)[i] < id_numbers(ids@)[j]);
        }
    }
    ids
}

/// What stands under a key.
pub fn get<K: MapKey, V>(map: &BTreeMap<K, V>, key: K) -> (r: Option<&V>)
    ensures
        match r {
            Some(v) => map@.contains_key(key) && *v == map@[key],
            None => !map@.contains_key(key),
        },
{
    broadcast use vstd::std_specs::btree::group_btree_axioms;

    proof {
        K::lemma_ordered_by_number();
    }
    map.get(&key)
}

/// Puts a value under a key.
pub fn put<K: MapKey, V>(map: &mut BTreeMap<K, V>, key: K, value: V)
    ensures
        final(map)@ == old(map)@.insert(key, value),
{
    broadcast use vstd::std_specs::btree::group_btree_axioms;

    proof {
        K::lemma_ordered_by_number();
    }
    map.insert(key, value);
}

/// The entries of a map, smallest key first.
pub open spec fn listed<K: MapKey, V>(map: Map<K, V>) -> Seq<(K, V)> {
    sorted_ids(map).map_values(|id: K| (id, map[id]))
}

/// The entries of a map, smallest key first.
pub fn entries<K: MapKey, V>(map: &BTreeMap<K, V>) -> (r: Vec<(K, &V)>)
    ensures
        in_key_order(map@),
        r.len() == listed(map@).len(),
        forall|i: int|
            0 <= i < r.len() ==> (#[trigger] r@[i]).0 == listed(map@)[i].0 && *r@[i].1 == listed(
                map@,
            )[i].1,
        forall|i: int|
            0 <= i < r.len() ==> map@.contains_key((#[trigger] r@[i]).0) && *r@[i].1
                == map@[r@[i].0],
        forall|i: int, j: int|
            #![trigger r@[i], r@[j]]
            0 <= i < j < r.len() ==> r@[i].0.number() < r@[j].0.number(),
{
    let ids = ids_in_order(map);
    let mut out: Vec<(K, &V)> = Vec::new();
    let mut i: usize = 0;
    while i < ids.len()
        invariant
            i <= ids.len(),
            ids@ == sorted_ids(map@),
            in_key_order(map@),
            forall|k: K| ids@.contains(k) <==> map@.contains_key(k),
            out.len() == i,
            forall|k: int|
                0 <= k < i ==> (#[trigger] out@[k]).0 == ids@[k] && *out@[k].1 == map@[ids@[k]]
                    && map@.contains_key(ids@[k]),
        decreases ids.len() - i,
    {
        let id = ids[i];
        assert(ids@.contains(id));
        if let Some(v) = get(map, id) {
            out.push((id, v));
        }
        i = i + 1;
    }
    proof {
        assert forall|i: int, j: int|
            #![trigger out@[i], out@[j]]
            0 <= i < j < out.len() implies out@[i].0.number() < out@[j].0.number() by {
            assert(ids@[i].number() < ids@[j].number());
        }
    }
    out
}

/// Whether a key is in a set.
pub fn contains<K: MapKey>(set: &BTreeSet<K>, key: K) -> (r: bool)
    ensures
        r == set@.contains(key),
{
    broadcast use vstd::std_specs::btree::group_btree_axioms;

    proof {
        K::lemma_ordered_by_number();
    }
    set.contains(&key)
}

/// Puts a key into a set.
pub fn insert<K: MapKey>(set: &mut BTreeSet<K>, key: K)
    ensures
        final(set)@ == old(set)@.insert(key),
{
    broadcast use vstd::std_specs::btree::group_btree_axioms;

    proof {
        K::lemma_ordered_by_number();
    }
    set.insert(key);
}

/// Takes a key out of a set.
pub fn remove<K: MapKey>(set: &mut BTreeSet<K>, key: K)
    ensures
        final(set)@ == old(set)@.remove(key),
{
    broadcast use vstd::std_specs::btree::group_btree_axioms;

    proof {
        K::lemma_ordered_by_number();
    }
    set.remove(&key);
}

/// How many keys are in a set.
pub fn count<K: MapKey>(set: &BTreeSet<K>) -> (r: usize)
    ensures
        r == set@.len(),
{
    broadcast use vstd::std_specs::btree::group_btree_axioms;

    proof {
        K::lemma_ordered_by_number();
    }
    set.len()
}

/// The keys of a set, smallest first.
pub fn keys_in_order<K: MapKey>(set: &BTreeSet<K>) -> (r: Vec<K>)
    ensures
        increasing(id_numbers(r@)),
        forall|k: K| #[trigger] r@.contains(k) <==> set@.contains(k),
{
    broadcast use vstd::std_specs::btree::group_btree_axioms;

    proof {
        K::lemma_ordered_by_number();
    }
    let mut keys: Vec<K> = Vec::new();
    let iter = set.iter();
    let ghost all = iter.remaining().unref();
    for k in it: iter
        invariant
            it.seq().unref() == all,
            keys@ == all.take(it.index()),
    {
        keys.push(*k);
    }
    proof {
        lemma_increasing_ids(iter.remaining());
        assert(keys@ =~= all);
        assert forall|k: K| #[trigger] keys@.contains(k) <==> set@.contains(k) by {
            assert(all.to_set().contains(k) <==> set@.contains(k));
        }
    }
    keys
}

} // verus!
