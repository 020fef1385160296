//! Sorting of values that carry a two-part key.

use vstd::prelude::*;

verus! {

/// What each value of a list stands for.
pub open spec fn views<T: View>(list: Seq<T>) -> Seq<T::V> {
    list.map_values(|t: T| t@)
}

/// A value with a key to sort it by.
pub trait Keyed: View {
    /// The key of what the value stands for.
    spec fn key_of(v: Self::V) -> (u8, u128);

    /// The key of this value.
    fn key(&self) -> (r: (u8, u128))
        ensures
            r == Self::key_of(self@),
    ;
}

/// Whether the first key comes strictly before the second: by the first part,
/// and among equal first parts by the second.
pub open spec fn key_before(a: (u8, u128), b: (u8, u128)) -> bool {
    a.0 < b.0 || (a.0 == b.0 && a.1 < b.1)
}

/// Whether no value stands before one with a smaller key.
pub open spec fn sorted_by_key<T: Keyed>(list: Seq<T::V>) -> bool {
    forall|i: int, j: int|
        #![trigger list[i], list[j]]
        0 <= i < j < list.len() ==> !key_before(T::key_of(list[j]), T::key_of(list[i]))
}

/// A list with one more value, put before the first one whose key is not
/// smaller.
pub open spec fn inserted<T: Keyed>(list: Seq<T::V>, value: T::V) -> Seq<T::V>
    decreases list.len(),
{
    if list.len() > 0 && key_before(T::key_of(list[0]), T::key_of(value)) {
        seq![list[0]] + inserted::<T>(list.drop_first(), value)
    } else {
        seq![value] + list
    }
}

/// The values of a list in the order of their keys. Values with the same key
/// stay in the order in which they were.
pub open spec fn sorted<T: Keyed>(list: Seq<T::V>) -> Seq<T::V>
    decreases list.len(),
{
    if list.len() == 0 {
        list
    } else {
        inserted::<T>(sorted::<T>(list.drop_first()), list[0])
    }
}

fn comes_before(a: (u8, u128), b: (u8, u128)) -> (r: bool)
    ensures
        r == key_before(a, b),
{
    a.0 < b.0 || (a.0 == b.0 && a.1 < b.1)
}

/// Where a value with the given key goes in a sorted list.
fn insertion_point<T: Keyed>(list: &Vec<T>, key: (u8, u128)) -> (r: usize)
    requires
        sorted_by_key::<T>(views(list@)),
    ensures
        r <= list.len(),
        forall|i: int| 0 <= i < r ==> key_before(T::key_of(#[trigger] views(list@)[i]), key),
        forall|i: int|
            r <= i < list.len() ==> !key_before(T::key_of(#[trigger] views(list@)[i]), key),
{
    let mut low: usize = 0;
    let mut high: usize = list.len();
    while low < high
        invariant
            low <= high <= list.len(),
            sorted_by_key::<T>(views(list@)),
            forall|i: int| 0 <= i < low ==> key_before(T::key_of(#[trigger] views(list@)[i]), key),
            forall|i: int|
                high <= i < list.len() ==> !key_before(T::key_of(#[trigger] views(list@)[i]), key),
        decreases high - low,
    {
        let mid: usize = low + (high - low) / 2;
        let mid_key = list[mid].key();
        assert(views(list@)[mid as int] == list@[mid as int]@);
        if comes_before(mid_key, key) {
            low = mid + 1;
        } else {
            high = mid;
        }
    }
    low
}

/// Inserting a value at the right place of a sorted list.
proof fn lemma_inserted<T: Keyed>(list: Seq<T::V>, value: T::V, at: int)
    requires
        0 <= at <= list.len(),
        forall|i: int| 0 <= i < at ==> key_before(T::key_of(#[trigger] list[i]), T::key_of(value)),
        at < list.len() ==> !key_before(T::key_of(list[at]), T::key_of(value)),
    ensures
        inserted::<T>(list, value) == list.insert(at, value),
    decreases list.len(),
{
    if at == 0 {
        assert(seq![value] + list =~= list.insert(0, value));
    } else {
        let rest = list.drop_first();
        assert forall|i: int| 0 <= i < at - 1 implies key_before(
            T::key_of(#[trigger] rest[i]),
            T::key_of(value),
        ) by {
            assert(rest[i] == list[i + 1]);
        }
        lemma_inserted::<T>(rest, value, at - 1);
        assert(key_before(T::key_of(list[0]), T::key_of(value)));
        assert(seq![list[0]] + rest.insert(at - 1, value) =~= list.insert(at, value));
    }
}

proof fn lemma_insert_multiset<A>(s: Seq<A>, pos: int, a: A)
    requires
        0 <= pos <= s.len(),
    ensures
        s.insert(pos, a).to_multiset() == s.to_multiset().insert(a),
{
    broadcast use vstd::seq_lib::group_to_multiset_ensures;

    let t = s.insert(pos, a);
    assert(t.remove(pos) =~= s);
    assert(t[pos] == a);
    assert(t.contains(a));
    assert(t.to_multiset().count(a) > 0);
    assert(t.to_multiset().remove(a) == s.to_multiset());
    assert(t.to_multiset() =~= s.to_multiset().insert(a));
}

/// The place of a value among those of a sorted list.
proof fn lemma_place<T: Keyed>(list: Seq<T::V>, value: T::V) -> (at: int)
    requires
        sorted_by_key::<T>(list),
    ensures
        0 <= at <= list.len(),
        forall|i: int| 0 <= i < at ==> key_before(T::key_of(#[trigger] list[i]), T::key_of(value)),
        forall|i: int|
            at <= i < list.len() ==> !key_before(T::key_of(#[trigger] list[i]), T::key_of(value)),
    decreases list.len(),
{
    if list.len() == 0 {
        0
    } else {
        let front = list.drop_last();
        assert forall|i: int, j: int|
            #![trigger front[i], front[j]]
            0 <= i < j < front.len() implies !key_before(
            T::key_of(front[j]),
            T::key_of(front[i]),
        ) by {
            assert(front[i] == list[i] && front[j] == list[j]);
        }
        let at = lemma_place::<T>(front, value);
        assert forall|i: int| 0 <= i < front.len() implies #[trigger] list[i] == front[i] by {}
        if at == front.len() && key_before(T::key_of(list.last()), T::key_of(value)) {
            at + 1
        } else {
            if at < front.len() {
                assert(!key_before(T::key_of(list[list.len() - 1]), T::key_of(list[at])));
            }
            at
        }
    }
}

/// Sorting puts the values in the order of their keys and keeps every value as
/// often as it was there.
pub proof fn lemma_sorted<T: Keyed>(list: Seq<T::V>)
    ensures
        sorted_by_key::<T>(sorted::<T>(list)),
        sorted::<T>(list).to_multiset() == list.to_multiset(),
        sorted::<T>(list).len() == list.len(),
    decreases list.len(),
{
    broadcast use vstd::seq_lib::group_to_multiset_ensures;

    if list.len() > 0 {
        let rest = list.drop_first();
        lemma_sorted::<T>(rest);
        let done = sorted::<T>(rest);
        let at = lemma_place::<T>(done, list[0]);
        lemma_inserted::<T>(done, list[0], at);
        lemma_insert_multiset(done, at, list[0]);
        lemma_insert_multiset(rest, 0, list[0]);
        assert(rest.insert(0, list[0]) =~= list);
        let all = done.insert(at, list[0]);
        assert forall|i: int, j: int|
            #![trigger all[i], all[j]]
            0 <= i < j < all.len() implies !key_before(T::key_of(all[j]), T::key_of(all[i])) by {
            if i < at {
                assert(all[i] == done[i]);
            } else if i > at {
                assert(all[i] == done[i - 1]);
            }
            if j < at {
                assert(all[j] == done[j]);
            } else if j > at {
                assert(all[j] == done[j - 1]);
            }
        }
    }
}

/// Of values that each occur once, sorting keeps just those, and each once.
pub proof fn lemma_sorted_no_duplicates<T: Keyed>(list: Seq<T::V>)
    requires
        list.no_duplicates(),
    ensures
        sorted::<T>(list).no_duplicates(),
        forall|v: T::V|
            #![trigger sorted::<T>(list).contains(v)]
            #![trigger list.contains(v)]
            sorted::<T>(list).contains(v) <==> list.contains(v),
{
    broadcast use vstd::seq_lib::group_to_multiset_ensures;

    lemma_sorted::<T>(list);
    list.lemma_multiset_has_no_duplicates();
    sorted::<T>(list).lemma_multiset_has_no_duplicates_conv();
    assert forall|v: T::V| sorted::<T>(list).contains(v) <==> list.contains(v) by {
        assert(sorted::<T>(list).to_multiset().count(v) == list.to_multiset().count(v));
    }
}

/// Sorting keeps every property of the values as often as it was there.
pub proof fn lemma_sorted_mapped<T: Keyed, A>(list: Seq<T::V>, f: spec_fn(T::V) -> A)
    ensures
        sorted::<T>(list).map_values(f).to_multiset() == list.map_values(f).to_multiset(),
    decreases list.len(),
{
    if list.len() > 0 {
        let rest = list.drop_first();
        let done = sorted::<T>(rest);
        lemma_sorted_mapped::<T, A>(rest, f);
        lemma_sorted::<T>(rest);
        let at = lemma_place::<T>(done, list[0]);
        lemma_inserted::<T>(done, list[0], at);
        assert(done.insert(at, list[0]).map_values(f) =~= done.map_values(f).insert(
            at,
            f(list[0]),
        ));
        assert(list.map_values(f) =~= rest.map_values(f).insert(0, f(list[0])));
        lemma_insert_multiset(done.map_values(f), at, f(list[0]));
        lemma_insert_multiset(rest.map_values(f), 0, f(list[0]));
    }
}

/// Two lists of the same values, whose keys all differ, sort to the same list:
/// the order in which the values came does not matter.
pub proof fn lemma_sorted_canonical<T: Keyed>(a: Seq<T::V>, b: Seq<T::V>)
    requires
        a.to_multiset() == b.to_multiset(),
        forall|i: int, j: int|
            #![trigger a[i], a[j]]
            0 <= i < j < a.len() ==> T::key_of(a[i]) != T::key_of(a[j]),
    ensures
        sorted::<T>(a) == sorted::<T>(b),
{
    broadcast use vstd::seq_lib::group_to_multiset_ensures;

    assert(a.no_duplicates());
    a.lemma_multiset_has_no_duplicates();
    b.lemma_multiset_has_no_duplicates_conv();
    lemma_sorted_no_duplicates::<T>(a);
    lemma_sorted_no_duplicates::<T>(b);
    lemma_sorted::<T>(a);
    lemma_sorted::<T>(b);
    let s = sorted::<T>(a);
    let t = sorted::<T>(b);
    assert forall|v: T::V| s.contains(v) <==> t.contains(v) by {
        assert(a.contains(v) <==> a.to_multiset().count(v) > 0);
        assert(b.contains(v) <==> b.to_multiset().count(v) > 0);
    }
    assert forall|v: T::V, w: T::V| s.contains(v) && s.contains(w) && T::key_of(v) == T::key_of(
        w,
    ) implies v == w by {
        assert(a.contains(v) && a.contains(w));
        let i = choose|i: int| 0 <= i < a.len() && a[i] == v;
        let j = choose|j: int| 0 <= j < a.len() && a[j] == w;
        if i < j {
            assert(T::key_of(a[i]) != T::key_of(a[j]));
        } else if j < i {
            assert(T::key_of(a[j]) != T::key_of(a[i]));
        }
    }
    lemma_same_order::<T>(s, t);
}

/// Two sorted lists of the same values, whose keys all differ, are the same.
pub proof fn lemma_same_order<T: Keyed>(s: Seq<T::V>, t: Seq<T::V>)
    requires
        sorted_by_key::<T>(s),
        sorted_by_key::<T>(t),
        s.no_duplicates(),
        t.no_duplicates(),
        forall|v: T::V| s.contains(v) <==> t.contains(v),
        forall|v: T::V, w: T::V|
            s.contains(v) && s.contains(w) && #[trigger] T::key_of(v) == #[trigger] T::key_of(w)
                ==> v == w,
    ensures
        s == t,
    decreases s.len(),
{
    if s.len() == 0 {
        if t.len() > 0 {
            assert(t.contains(t[0]));
            assert(s.contains(t[0]));
        }
        assert(s =~= t);
    } else {
        let x = s.last();
        assert(s.contains(x));
        assert(t.contains(x));
        let k = choose|k: int| 0 <= k < t.len() && t[k] == x;
        let y = t.last();
        assert(t.contains(y));
        assert(s.contains(y));
        let j = choose|j: int| 0 <= j < s.len() && s[j] == y;
        if x != y {
            assert(s[j] == y && s[s.len() - 1] == x);
            assert(!key_before(T::key_of(x), T::key_of(y)));
            assert(t[k] == x && t[t.len() - 1] == y);
            assert(!key_before(T::key_of(y), T::key_of(x)));
            assert(T::key_of(x) == T::key_of(y));
        }
        let s1 = s.drop_last();
        let t1 = t.drop_last();
        assert forall|v: T::V| s1.contains(v) <==> t1.contains(v) by {
            if s1.contains(v) {
                let i = choose|i: int| 0 <= i < s1.len() && s1[i] == v;
                assert(s[i] == v);
                assert(s.contains(v));
                assert(v != x);
                assert(t.contains(v));
                let m = choose|m: int| 0 <= m < t.len() && t[m] == v;
                assert(t1[m] == v);
            }
            if t1.contains(v) {
                let i = choose|i: int| 0 <= i < t1.len() && t1[i] == v;
                assert(t[i] == v);
                assert(t.contains(v));
                assert(v != x);
                assert(s.contains(v));
                let m = choose|m: int| 0 <= m < s.len() && s[m] == v;
                assert(s1[m] == v);
            }
        }
        assert forall|v: T::V| s1.contains(v) implies s.contains(v) by {
            let i = choose|i: int| 0 <= i < s1.len() && s1[i] == v;
            assert(s[i] == v);
        }
        assert(sorted_by_key::<T>(s1)) by {
            assert forall|i: int, j: int|
                #![trigger s1[i], s1[j]]
                0 <= i < j < s1.len() implies !key_before(T::key_of(s1[j]), T::key_of(s1[i])) by {
                assert(s1[i] == s[i] && s1[j] == s[j]);
            }
        }
        assert(sorted_by_key::<T>(t1)) by {
            assert forall|i: int, j: int|
                #![trigger t1[i], t1[j]]
                0 <= i < j < t1.len() implies !key_before(T::key_of(t1[j]), T::key_of(t1[i])) by {
                assert(t1[i] == t[i] && t1[j] == t[j]);
            }
        }
        lemma_same_order::<T>(s1, t1);
        assert(s =~= s1.push(x));
        assert(t =~= t1.push(x));
    }
}

/// Sorting leaves a sorted list as it is.
pub proof fn lemma_sorted_again<T: Keyed>(list: Seq<T::V>)
    requires
        sorted_by_key::<T>(list),
    ensures
        sorted::<T>(list) == list,
    decreases list.len(),
{
    if list.len() > 0 {
        let rest = list.drop_first();
        assert forall|i: int, j: int|
            #![trigger rest[i], rest[j]]
            0 <= i < j < rest.len() implies !key_before(T::key_of(rest[j]), T::key_of(rest[i])) by {
            assert(rest[i] == list[i + 1] && rest[j] == list[j + 1]);
        }
        lemma_sorted_again::<T>(rest);
        if rest.len() > 0 {
            assert(rest[0] == list[1]);
        }
        lemma_inserted::<T>(rest, list[0], 0);
        assert(rest.insert(0, list[0]) =~= list);
    }
}

/// Sorts a list by key.
pub fn sort_by_key<T: Keyed>(list: &mut Vec<T>)
    ensures
        views(final(list)@) == sorted::<T>(views(old(list)@)),
{
    let ghost all = views(list@);
    let mut out: Vec<T> = Vec::new();
    assert(views(out@) =~= sorted::<T>(all.skip(all.len() as int)));
    while list.len() > 0
        invariant
            list.len() <= all.len(),
            views(list@) == all.take(list.len() as int),
            views(out@) == sorted::<T>(all.skip(list.len() as int)),
        decreases list.len(),
    {
        let ghost done = views(out@);
        let ghost n = list.len();
        if let Some(value) = list.pop() {
            proof {
                lemma_sorted::<T>(all.skip(n as int));
                assert(value@ == all.take(n as int)[n - 1]);
                assert(all.skip(n - 1).drop_first() =~= all.skip(n as int));
                assert(all.skip(n - 1)[0] == value@);
            }
            let at: usize = insertion_point(&out, value.key());
            out.insert(at, value);
            proof {
                assert(views(out@) =~= done.insert(at as int, value@));
                lemma_inserted::<T>(done, value@, at as int);
                assert(views(list@) =~= all.take(n - 1));
            }
        }
    }
    assert(all.skip(0) =~= all);
    *list = out;
}

} // verus!
