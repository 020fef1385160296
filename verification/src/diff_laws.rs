//! What holds of the differences between blueprints.

use vstd::prelude::*;

use crate::blueprint_diff::{
    by_id, diff_result, error_lines, found_in_service, in_zone_order, is_common, kind_change,
    kind_changed, kinds_kept, lemma_by_id, lemma_ids_match, lists_all_kind_changes, lists_common, lists_kind_changes,
    lists_zones, sled_by_id, sled_in_both, sled_unchanged, tells_kind_change, BeforeView,
    BlueprintDiff, BlueprintDiffError, BlueprintDiffSingleError, CommonView, DiffBeforeMetadata,
    DiffZoneCommon, ModifiedView, SledsView,
};
use crate::deployment::{
    in_service, zone_key, BlueprintZoneConfig, MetadataView, OmicronZonesView, ZoneKind, ZoneView,
    ZonesView,
};
use crate::sort::{
    key_before, lemma_same_order, lemma_sorted, lemma_sorted_again, lemma_sorted_canonical, sorted,
    sorted_by_key, Keyed,
};
use crate::text::{uuid_text, Uuid};

verus! {

// ---
// Sleds
// ---

/// Each sled of either side is in one class of the diff, and in one only.
pub proof fn law_each_sled_in_one_class(
    sleds: SledsView,
    before: Map<Uuid, ZonesView>,
    after: Map<Uuid, ZonesView>,
    id: Uuid,
)
    requires
        sleds.describes(before, after),
    ensures
        sleds.added.contains_key(id) <==> !before.contains_key(id) && after.contains_key(id),
        sleds.removed.contains_key(id) <==> before.contains_key(id) && !after.contains_key(id),
        sleds.modified.contains_key(id) || sleds.unchanged.contains_key(id) <==> sled_in_both(
            before,
            after,
            id,
        ),
        !(sleds.modified.contains_key(id) && sleds.unchanged.contains_key(id)),
{
}

/// Nothing differs between a side and itself: no zone changed its kind, and
/// every sled is unchanged.
pub proof fn law_diff_with_itself(zones: Map<Uuid, ZonesView>, sleds: SledsView)
    requires
        sleds.describes(zones, zones),
    ensures
        kinds_kept(zones, zones),
        sleds.added.dom() == Set::<Uuid>::empty(),
        sleds.removed.dom() == Set::<Uuid>::empty(),
        sleds.modified.dom() == Set::<Uuid>::empty(),
        sleds.unchanged.dom() == zones.dom(),
{
    assert forall|id: Uuid| !sleds.modified.contains_key(id) by {
        law_each_sled_in_one_class(sleds, zones, zones, id);
        assert(zones.contains_key(id) ==> sled_unchanged(zones, zones, id));
    }
    assert(sleds.added.dom() =~= Set::empty());
    assert(sleds.removed.dom() =~= Set::empty());
    assert(sleds.modified.dom() =~= Set::empty());
    assert(sleds.unchanged.dom() =~= zones.dom());
}

/// The order in which the zones of a sled are recorded does not matter, where
/// no two of them have the same kind and id.
pub proof fn law_zone_order_does_not_matter(
    before: Map<Uuid, ZonesView>,
    after: Map<Uuid, ZonesView>,
    id: Uuid,
)
    requires
        sled_in_both(before, after, id),
        before[id].generation == after[id].generation,
        before[id].zones.to_multiset() == after[id].zones.to_multiset(),
        forall|i: int, j: int|
            #![trigger before[id].zones[i], before[id].zones[j]]
            0 <= i < j < before[id].zones.len() ==> zone_key(before[id].zones[i]) != zone_key(
                before[id].zones[j],
            ),
    ensures
        sled_unchanged(before, after, id),
{
    lemma_sorted_canonical::<BlueprintZoneConfig>(before[id].zones, after[id].zones);
}

/// A sled whose generation differs is changed.
pub proof fn law_generation_counts(
    sleds: SledsView,
    before: Map<Uuid, ZonesView>,
    after: Map<Uuid, ZonesView>,
    id: Uuid,
)
    requires
        sleds.describes(before, after),
        sled_in_both(before, after, id),
        before[id].generation != after[id].generation,
    ensures
        sleds.modified.contains_key(id),
{
}

/// Where no zone changed its kind one way, none did the other way.
pub proof fn law_kinds_kept_both_ways(before: Map<Uuid, ZonesView>, after: Map<Uuid, ZonesView>)
    ensures
        kinds_kept(before, after) <==> kinds_kept(after, before),
{
    lemma_kinds_kept_back(before, after);
    lemma_kinds_kept_back(after, before);
}

proof fn lemma_kinds_kept_back(before: Map<Uuid, ZonesView>, after: Map<Uuid, ZonesView>)
    ensures
        kinds_kept(before, after) ==> kinds_kept(after, before),
{
    assert forall|e: BlueprintDiffSingleError|
        kinds_kept(before, after) implies !#[trigger] tells_kind_change(e, after, before) by {
        if tells_kind_change(e, after, before) {
            let back = BlueprintDiffSingleError::ZoneTypeChanged {
                sled_id: e->sled_id,
                zone_id: e->zone_id,
                before: e->after,
                after: e->before,
            };
            assert(tells_kind_change(back, before, after));
        }
    }
}

/// A blueprint made from what a collection found has the collection's sleds
/// unchanged.
pub proof fn law_initial_blueprint_changes_nothing(
    found: Map<Uuid, OmicronZonesView>,
    initial: Map<Uuid, ZonesView>,
    sleds: SledsView,
)
    requires
        initial.dom() == found.dom(),
        forall|id: Uuid| #[trigger]
            found.contains_key(id) ==> initial[id].generation == found[id].generation
                && initial[id].zones == sorted::<BlueprintZoneConfig>(in_service(found[id].zones)),
        sleds.describes(found_in_service(found), initial),
    ensures
        kinds_kept(found_in_service(found), initial),
        sleds.unchanged == initial,
        sleds.added.dom() == Set::<Uuid>::empty(),
        sleds.removed.dom() == Set::<Uuid>::empty(),
        sleds.modified.dom() == Set::<Uuid>::empty(),
{
    let before = found_in_service(found);
    assert forall|id: Uuid| #[trigger] initial.contains_key(id) implies in_zone_order(before[id])
        == initial[id] && in_zone_order(initial[id]) == initial[id] by {
        assert(found.contains_key(id));
        lemma_sorted::<BlueprintZoneConfig>(in_service(found[id].zones));
        lemma_sorted_again::<BlueprintZoneConfig>(initial[id].zones);
    }
    assert forall|id: Uuid| initial.contains_key(id) implies #[trigger] sled_unchanged(
        before,
        initial,
        id,
    ) by {}
    assert(sleds.unchanged =~= initial);
    assert(sleds.added.dom() =~= Set::empty());
    assert(sleds.removed.dom() =~= Set::empty());
    assert forall|id: Uuid| !sleds.modified.contains_key(id) by {
        law_each_sled_in_one_class(sleds, before, initial, id);
        assert(initial.contains_key(id) ==> sled_unchanged(before, initial, id));
    }
    assert(sleds.modified.dom() =~= Set::empty());
    assert forall|e: BlueprintDiffSingleError| !#[trigger] tells_kind_change(
        e,
        before,
        initial,
    ) by {
        if sled_in_both(before, initial, e->sled_id) {
            assert(sled_by_id(before, e->sled_id) == sled_by_id(initial, e->sled_id));
        }
    }
}

// ---
// Zones of a changed sled
// ---

/// Each zone of either side of a changed sled is added, removed or common, and
/// only one of these, unless it changed its kind.
pub proof fn law_each_zone_in_one_class(
    m: ModifiedView,
    sled_id: Uuid,
    before: ZonesView,
    after: ZonesView,
    id: Uuid,
)
    requires
        m.describes(sled_id, before, after),
    ensures
        ({
            let (b, a) = (by_id(before.zones), by_id(after.zones));
            &&& (exists|z: ZoneView| #[trigger] m.zones_added.contains(z) && z.config.id == id)
                <==> a.contains_key(id) && !b.contains_key(id)
            &&& (exists|z: ZoneView| #[trigger] m.zones_removed.contains(z) && z.config.id == id)
                <==> b.contains_key(id) && !a.contains_key(id)
            &&& (exists|c: CommonView| #[trigger]
                m.zones_common.contains(c) && c.zone_before.config.id == id) <==> is_common(
                b,
                a,
                id,
            ) && !kind_changed(b, a, id)
        }),
{
    let (b, a) = (by_id(before.zones), by_id(after.zones));
    if a.contains_key(id) && !b.contains_key(id) {
        lemma_by_id(after.zones, id);
        assert(m.zones_added.contains(a[id]));
    }
    if b.contains_key(id) && !a.contains_key(id) {
        lemma_by_id(before.zones, id);
        assert(m.zones_removed.contains(b[id]));
    }
    if is_common(b, a, id) && !kind_changed(b, a, id) {
        lemma_by_id(before.zones, id);
        assert(m.zones_common.contains(CommonView { zone_before: b[id], zone_after: a[id] }));
    }
}

/// Each common zone of a changed sled is either modified or unchanged.
pub proof fn law_common_zones_split(m: ModifiedView, c: CommonView)
    ensures
        m.zones_modified().contains(c) <==> m.zones_common.contains(c) && c.modified(),
        m.zones_unchanged().contains(c) <==> m.zones_common.contains(c) && !c.modified(),
        m.zones_modified().len() + m.zones_unchanged().len() == m.zones_common.len(),
{
    lemma_filter_split(m.zones_common, |c: CommonView| c.modified(), c);
    let not = |c: CommonView| !c.modified();
    let negated = |d: CommonView| !(|c: CommonView| c.modified())(d);
    assert(not =~= negated);
}

/// A list splits into the values with a property and those without it.
pub proof fn lemma_filter_split<T>(list: Seq<T>, p: spec_fn(T) -> bool, x: T)
    ensures
        list.filter(p).contains(x) <==> list.contains(x) && p(x),
        list.filter(|t: T| !p(t)).contains(x) <==> list.contains(x) && !p(x),
        list.filter(p).len() + list.filter(|t: T| !p(t)).len() == list.len(),
    decreases list.len(),
{
    let q = |t: T| !p(t);
    if list.len() == 0 {
        reveal(Seq::filter);
    } else {
        let (front, last) = (list.drop_last(), list.last());
        lemma_filter_split(front, p, x);
        assert(list =~= front.push(last));
        front.lemma_filter_push(last, p);
        front.lemma_filter_push(last, q);
        lemma_contains_push(front, last, x);
        lemma_contains_push(front.filter(p), last, x);
        lemma_contains_push(front.filter(q), last, x);
    }
}

pub proof fn lemma_contains_push<T>(list: Seq<T>, last: T, x: T)
    ensures
        list.push(last).contains(x) <==> list.contains(x) || x == last,
{
    let all = list.push(last);
    if all.contains(x) {
        let i = choose|i: int| 0 <= i < all.len() && all[i] == x;
        if i < list.len() {
            assert(list[i] == x);
        }
    }
    if list.contains(x) {
        let i = choose|i: int| 0 <= i < list.len() && list[i] == x;
        assert(all[i] == x);
    }
    assert(all[list.len() as int] == last);
}

/// There is one list of the zones of a map in the sort order.
proof fn lemma_one_zone_list(s: Seq<ZoneView>, t: Seq<ZoneView>, map: Map<Uuid, ZoneView>)
    requires
        lists_zones(s, map),
        lists_zones(t, map),
    ensures
        s == t,
{
    assert forall|v: ZoneView, w: ZoneView|
        s.contains(v) && s.contains(w) && #[trigger] BlueprintZoneConfig::key_of(v)
            == #[trigger] BlueprintZoneConfig::key_of(w) implies v == w by {
        assert(v.config.id == w.config.id);
    }
    lemma_same_order::<BlueprintZoneConfig>(s, t);
}

/// There is one list of the common zones of two maps in the sort order.
proof fn lemma_one_common_list(
    s: Seq<CommonView>,
    t: Seq<CommonView>,
    before: Map<Uuid, ZoneView>,
    after: Map<Uuid, ZoneView>,
)
    requires
        lists_common(s, before, after),
        lists_common(t, before, after),
    ensures
        s == t,
{
    assert forall|v: CommonView, w: CommonView|
        s.contains(v) && s.contains(w) && #[trigger] DiffZoneCommon::key_of(v)
            == #[trigger] DiffZoneCommon::key_of(w) implies v == w by {
        assert(v.zone_before.config.id == w.zone_before.config.id);
    }
    lemma_same_order::<DiffZoneCommon>(s, t);
}

/// What describes a changed sled is determined by the two sides.
pub proof fn law_one_description(
    m: ModifiedView,
    n: ModifiedView,
    sled_id: Uuid,
    before: ZonesView,
    after: ZonesView,
)
    requires
        m.describes(sled_id, before, after),
        n.describes(sled_id, before, after),
    ensures
        m == n,
{
    let (b, a) = (by_id(before.zones), by_id(after.zones));
    lemma_one_zone_list(m.zones_added, n.zones_added, a.remove_keys(b.dom()));
    lemma_one_zone_list(m.zones_removed, n.zones_removed, b.remove_keys(a.dom()));
    lemma_one_common_list(m.zones_common, n.zones_common, b, a);
    assert(m =~= n);
}

/// A common zone, with the sides exchanged.
pub open spec fn exchanged(c: CommonView) -> CommonView {
    CommonView { zone_before: c.zone_after, zone_after: c.zone_before }
}

/// What describes a changed sled, with the sides exchanged.
pub open spec fn exchanged_sled(m: ModifiedView) -> ModifiedView {
    ModifiedView {
        sled_id: m.sled_id,
        generation_before: m.generation_after,
        generation_after: m.generation_before,
        zones_added: m.zones_removed,
        zones_removed: m.zones_added,
        zones_common: m.zones_common.map_values(|c: CommonView| exchanged(c)),
    }
}

/// Exchanging the sides of a changed sled exchanges what was added and removed.
pub proof fn law_sled_diff_back(
    m: ModifiedView,
    back: ModifiedView,
    sled_id: Uuid,
    before: ZonesView,
    after: ZonesView,
)
    requires
        m.describes(sled_id, before, after),
        back.describes(sled_id, after, before),
    ensures
        back == exchanged_sled(m),
{
    let (b, a) = (by_id(before.zones), by_id(after.zones));
    let there = m.zones_common;
    let here = exchanged_sled(m).zones_common;
    lemma_ids_match(m, sled_id, before, after);
    lemma_ids_match(back, sled_id, after, before);
    assert forall|i: int| 0 <= i < there.len() implies #[trigger] here[i] == exchanged(there[i])
        && there.contains(there[i]) && there[i].zone_before.config.id
        == there[i].zone_after.config.id && zone_key(there[i].zone_before) == zone_key(
        there[i].zone_after,
    ) by {
        let c = there[i];
        assert(there.contains(c));
        assert(!kind_changed(b, a, c.zone_before.config.id));
        assert(here[i] == exchanged(c));
    }
    assert(here.no_duplicates()) by {
        assert forall|i: int, j: int|
            0 <= i < here.len() && 0 <= j < here.len() && i != j implies here[i] != here[j] by {
            assert(there[i] != there[j]);
            assert(here[i] == exchanged(there[i]) && here[j] == exchanged(there[j]));
        }
    }
    assert(sorted_by_key::<DiffZoneCommon>(here)) by {
        assert forall|i: int, j: int|
            #![trigger here[i], here[j]]
            0 <= i < j < here.len() implies !key_before(
            DiffZoneCommon::key_of(here[j]),
            DiffZoneCommon::key_of(here[i]),
        ) by {
            assert(here[i] == exchanged(there[i]) && here[j] == exchanged(there[j]));
        }
    }
    assert forall|c: CommonView| #[trigger] here.contains(c) <==> {
        let id = c.zone_before.config.id;
        &&& is_common(a, b, id)
        &&& !kind_changed(a, b, id)
        &&& a[id] == c.zone_before
        &&& b[id] == c.zone_after
    } by {
        let id = c.zone_before.config.id;
        if here.contains(c) {
            let i = choose|i: int| 0 <= i < here.len() && here[i] == c;
            assert(here[i] == exchanged(there[i]));
            assert(there.contains(there[i]));
        }
        if is_common(a, b, id) && !kind_changed(a, b, id) && a[id] == c.zone_before && b[id]
            == c.zone_after {
            lemma_by_id(before.zones, id);
            let d = exchanged(c);
            assert(there.contains(d));
            let i = choose|i: int| 0 <= i < there.len() && there[i] == d;
            assert(here[i] == exchanged(there[i]));
            assert(here[i] == c);
        }
    }
    lemma_one_common_list(back.zones_common, here, a, b);
    lemma_one_zone_list(back.zones_added, m.zones_removed, b.remove_keys(a.dom()));
    lemma_one_zone_list(back.zones_removed, m.zones_added, a.remove_keys(b.dom()));
    assert(back =~= exchanged_sled(m));
}

/// Exchanging the sides of a diff exchanges the sleds that were added and
/// removed, leaves the same sleds unchanged, and exchanges the sides of those
/// that changed.
pub proof fn law_diff_back(
    sleds: SledsView,
    back: SledsView,
    before: Map<Uuid, ZonesView>,
    after: Map<Uuid, ZonesView>,
)
    requires
        sleds.describes(before, after),
        back.describes(after, before),
    ensures
        back.added == sleds.removed,
        back.removed == sleds.added,
        back.unchanged == sleds.unchanged,
        back.modified == sleds.modified.map_values(|m: ModifiedView| exchanged_sled(m)),
{
    assert(back.unchanged =~= sleds.unchanged);
    assert forall|id: Uuid| #[trigger] back.modified.contains_key(id) implies back.modified[id]
        == exchanged_sled(sleds.modified[id]) by {
        assert(sled_in_both(before, after, id) && !sled_unchanged(before, after, id));
        assert(sleds.modified.contains_key(id));
        law_sled_diff_back(
            sleds.modified[id],
            back.modified[id],
            id,
            in_zone_order(before[id]),
            in_zone_order(after[id]),
        );
    }
    assert forall|id: Uuid| sleds.modified.contains_key(id) <==> back.modified.contains_key(
        id,
    ) by {
        assert(sled_in_both(before, after, id) <==> sled_in_both(after, before, id));
        assert(sled_unchanged(before, after, id) <==> sled_unchanged(after, before, id));
    }
    assert(back.modified =~= sleds.modified.map_values(|m: ModifiedView| exchanged_sled(m)));
}

// ---
// What a diff keeps of its sides
// ---

/// There is a zone under an id just where some zone has that id.
pub proof fn law_zones_under_ids(zones: Seq<ZoneView>, id: Uuid)
    ensures
        by_id(zones).contains_key(id) <==> exists|i: int|
            0 <= i < zones.len() && (#[trigger] zones[i]).config.id == id,
    decreases zones.len(),
{
    if zones.len() > 0 {
        let (front, last) = (zones.drop_last(), zones.last());
        law_zones_under_ids(front, id);
        assert(zones[zones.len() - 1] == last);
        if last.config.id != id {
            if by_id(zones).contains_key(id) {
                let i = choose|i: int| 0 <= i < front.len() && (#[trigger] front[i]).config.id
                    == id;
                assert(zones[i].config.id == id);
            }
            if exists|i: int| 0 <= i < zones.len() && (#[trigger] zones[i]).config.id == id {
                let i = choose|i: int| 0 <= i < zones.len() && (#[trigger] zones[i]).config.id
                    == id;
                assert(front[i].config.id == id);
            }
        }
    }
}

/// The zone that counts under an id is the last one with that id.
pub proof fn law_last_zone_counts(zones: Seq<ZoneView>, i: int)
    requires
        0 <= i < zones.len(),
        forall|k: int| i < k < zones.len() ==> (#[trigger] zones[k]).config.id != zones[i].config.id,
    ensures
        by_id(zones).contains_key(zones[i].config.id),
        by_id(zones)[zones[i].config.id] == zones[i],
    decreases zones.len(),
{
    let front = zones.drop_last();
    if i < front.len() {
        assert forall|k: int| i < k < front.len() implies (#[trigger] front[k]).config.id
            != front[i].config.id by {
            assert(front[k] == zones[k]);
        }
        law_last_zone_counts(front, i);
        assert(zones[zones.len() - 1].config.id != zones[i].config.id);
    }
}

/// A sled that was added keeps the zones of the side after, and one that was removed
/// those of the side before. One that did not change keeps its generation and each of
/// its zones, as often as they are there on either side.
pub proof fn law_whole_sleds_keep_their_zones(
    sleds: SledsView,
    before: Map<Uuid, ZonesView>,
    after: Map<Uuid, ZonesView>,
    id: Uuid,
)
    requires
        sleds.describes(before, after),
    ensures
        sleds.added.contains_key(id) ==> sleds.added[id] == after[id],
        sleds.removed.contains_key(id) ==> sleds.removed[id] == before[id],
        sleds.unchanged.contains_key(id) ==> {
            &&& sleds.unchanged[id].generation == before[id].generation
            &&& sleds.unchanged[id].generation == after[id].generation
            &&& sleds.unchanged[id].zones.to_multiset() == before[id].zones.to_multiset()
            &&& sleds.unchanged[id].zones.to_multiset() == after[id].zones.to_multiset()
        },
{
    lemma_sorted::<BlueprintZoneConfig>(before[id].zones);
    lemma_sorted::<BlueprintZoneConfig>(after[id].zones);
}

/// A sled that changed differs in its generation or in its zones, and one on both
/// sides with the same generation and the same zones in the same order did not.
pub proof fn law_same_sled_is_unchanged(
    sleds: SledsView,
    before: Map<Uuid, ZonesView>,
    after: Map<Uuid, ZonesView>,
    id: Uuid,
)
    requires
        sleds.describes(before, after),
        before.contains_key(id),
        after.contains_key(id),
    ensures
        before[id].generation == after[id].generation && before[id].zones == after[id].zones
            ==> sleds.unchanged.contains_key(id),
        before[id].generation != after[id].generation || before[id].zones.to_multiset()
            != after[id].zones.to_multiset() ==> sleds.modified.contains_key(id),
{
    lemma_sorted::<BlueprintZoneConfig>(before[id].zones);
    lemma_sorted::<BlueprintZoneConfig>(after[id].zones);
}

/// What is told of a changed sled is told under its id, with the generations that its
/// zones have on the two sides.
pub proof fn law_changed_sled_keeps_its_generations(
    sleds: SledsView,
    before: Map<Uuid, ZonesView>,
    after: Map<Uuid, ZonesView>,
    id: Uuid,
)
    requires
        sleds.describes(before, after),
        sleds.modified.contains_key(id),
    ensures
        sleds.modified[id].sled_id == id,
        sleds.modified[id].generation_before == before[id].generation,
        sleds.modified[id].generation_after == after[id].generation,
{
}

/// An added zone is a zone of the side after, of which the side before has none with
/// its id; and a removed one the other way round. A common zone is a zone of either
/// side, with the same id and the same kind.
pub proof fn law_where_zones_come_from(
    m: ModifiedView,
    sled_id: Uuid,
    before: ZonesView,
    after: ZonesView,
    z: ZoneView,
    c: CommonView,
    i: int,
)
    requires
        m.describes(sled_id, before, after),
    ensures
        m.zones_added.contains(z) ==> after.zones.contains(z),
        m.zones_added.contains(z) && 0 <= i < before.zones.len() ==> before.zones[i].config.id
            != z.config.id,
        m.zones_removed.contains(z) ==> before.zones.contains(z),
        m.zones_removed.contains(z) && 0 <= i < after.zones.len() ==> after.zones[i].config.id
            != z.config.id,
        m.zones_common.contains(c) ==> {
            &&& before.zones.contains(c.zone_before)
            &&& after.zones.contains(c.zone_after)
            &&& c.zone_before.config.id == c.zone_after.config.id
            &&& c.zone_before.config.zone_type.kind == c.zone_after.config.zone_type.kind
        },
{
    let (b, a) = (by_id(before.zones), by_id(after.zones));
    if m.zones_added.contains(z) {
        lemma_by_id(after.zones, z.config.id);
        law_zones_under_ids(before.zones, z.config.id);
    }
    if m.zones_removed.contains(z) {
        lemma_by_id(before.zones, z.config.id);
        law_zones_under_ids(after.zones, z.config.id);
    }
    if m.zones_common.contains(c) {
        let id = c.zone_before.config.id;
        lemma_by_id(before.zones, id);
        lemma_by_id(after.zones, id);
        assert(!kind_changed(b, a, id));
    }
}

/// No zone of the side after is left out: one whose id no zone of the side before has
/// is told as added. Of zones with the same id the last one counts.
pub proof fn law_no_new_zone_is_left_out(
    m: ModifiedView,
    sled_id: Uuid,
    before: ZonesView,
    after: ZonesView,
    i: int,
)
    requires
        m.describes(sled_id, before, after),
        0 <= i < after.zones.len(),
        forall|x: int|
            i < x < after.zones.len() ==> (#[trigger] after.zones[x]).config.id
                != after.zones[i].config.id,
    ensures
        m.zones_added.contains(after.zones[i]) <==> forall|x: int|
            0 <= x < before.zones.len() ==> (#[trigger] before.zones[x]).config.id
                != after.zones[i].config.id,
{
    let (b, a) = (by_id(before.zones), by_id(after.zones));
    let z = after.zones[i];
    law_last_zone_counts(after.zones, i);
    law_zones_under_ids(before.zones, z.config.id);
    if !b.contains_key(z.config.id) {
        assert(a.remove_keys(b.dom()).contains_key(z.config.id));
        assert(m.zones_added.contains(z));
    }
}

/// No zone of the side before is left out: one whose id no zone of the side after has
/// is told as removed. Of zones with the same id the last one counts.
pub proof fn law_no_old_zone_is_left_out(
    m: ModifiedView,
    sled_id: Uuid,
    before: ZonesView,
    after: ZonesView,
    k: int,
)
    requires
        m.describes(sled_id, before, after),
        0 <= k < before.zones.len(),
        forall|x: int|
            k < x < before.zones.len() ==> (#[trigger] before.zones[x]).config.id
                != before.zones[k].config.id,
    ensures
        m.zones_removed.contains(before.zones[k]) <==> forall|x: int|
            0 <= x < after.zones.len() ==> (#[trigger] after.zones[x]).config.id
                != before.zones[k].config.id,
{
    let (b, a) = (by_id(before.zones), by_id(after.zones));
    let z = before.zones[k];
    law_last_zone_counts(before.zones, k);
    law_zones_under_ids(after.zones, z.config.id);
    if !a.contains_key(z.config.id) {
        assert(b.remove_keys(a.dom()).contains_key(z.config.id));
        assert(m.zones_removed.contains(z));
    }
}

/// No zone that both sides have is left out: it is told as common just where its kind
/// is the same. Of zones with the same id the last one counts.
pub proof fn law_no_common_zone_is_left_out(
    m: ModifiedView,
    sled_id: Uuid,
    before: ZonesView,
    after: ZonesView,
    i: int,
    k: int,
)
    requires
        m.describes(sled_id, before, after),
        0 <= i < after.zones.len(),
        forall|x: int|
            i < x < after.zones.len() ==> (#[trigger] after.zones[x]).config.id
                != after.zones[i].config.id,
        0 <= k < before.zones.len(),
        forall|x: int|
            k < x < before.zones.len() ==> (#[trigger] before.zones[x]).config.id
                != before.zones[k].config.id,
        before.zones[k].config.id == after.zones[i].config.id,
    ensures
        m.zones_common.contains(
            (CommonView { zone_before: before.zones[k], zone_after: after.zones[i] }),
        ) <==> before.zones[k].config.zone_type.kind == after.zones[i].config.zone_type.kind,
{
    law_last_zone_counts(after.zones, i);
    law_last_zone_counts(before.zones, k);
}

/// The zones that are told of a changed sled are grouped by kind, in the order of the
/// kinds, and are told by ascending ids among those of one kind.
pub proof fn law_told_zones_are_in_order(
    m: ModifiedView,
    sled_id: Uuid,
    before: ZonesView,
    after: ZonesView,
    i: int,
    j: int,
)
    requires
        m.describes(sled_id, before, after),
        0 <= i < j,
    ensures
        j < m.zones_added.len() ==> {
            let (a, b) = (m.zones_added[i].config, m.zones_added[j].config);
            &&& a.zone_type.kind.place() <= b.zone_type.kind.place()
            &&& a.zone_type.kind == b.zone_type.kind ==> a.id <= b.id
        },
        j < m.zones_removed.len() ==> {
            let (a, b) = (m.zones_removed[i].config, m.zones_removed[j].config);
            &&& a.zone_type.kind.place() <= b.zone_type.kind.place()
            &&& a.zone_type.kind == b.zone_type.kind ==> a.id <= b.id
        },
        j < m.zones_common.len() ==> {
            let (a, b) = (m.zones_common[i].zone_before.config, m.zones_common[j].zone_before.config);
            &&& a.zone_type.kind.place() <= b.zone_type.kind.place()
            &&& a.zone_type.kind == b.zone_type.kind ==> a.id <= b.id
        },
{
    if j < m.zones_added.len() {
        assert(!key_before(
            BlueprintZoneConfig::key_of(m.zones_added[j]),
            BlueprintZoneConfig::key_of(m.zones_added[i]),
        ));
    }
    if j < m.zones_removed.len() {
        assert(!key_before(
            BlueprintZoneConfig::key_of(m.zones_removed[j]),
            BlueprintZoneConfig::key_of(m.zones_removed[i]),
        ));
    }
    if j < m.zones_common.len() {
        assert(!key_before(
            DiffZoneCommon::key_of(m.zones_common[j]),
            DiffZoneCommon::key_of(m.zones_common[i]),
        ));
    }
}

/// A common zone is modified just where its configuration or its disposition differs.
pub proof fn law_when_a_zone_is_modified(c: CommonView)
    ensures
        c.modified() <==> {
            ||| c.zone_before.config.id != c.zone_after.config.id
            ||| c.zone_before.config.underlay_address != c.zone_after.config.underlay_address
            ||| c.zone_before.config.zone_type != c.zone_after.config.zone_type
            ||| c.zone_before.disposition != c.zone_after.disposition
        },
{
    if c.zone_before.config.id == c.zone_after.config.id
        && c.zone_before.config.underlay_address == c.zone_after.config.underlay_address
        && c.zone_before.config.zone_type == c.zone_after.config.zone_type
        && c.zone_before.disposition == c.zone_after.disposition {
        assert(c.zone_before.config =~= c.zone_after.config);
        assert(c.zone_before =~= c.zone_after);
    }
}

// ---
// Errors, and names
// ---

/// An error tells a sled of both sides, a zone that it has on both, and the two kinds
/// of that zone, which differ.
pub proof fn law_errors_tell_kind_changes(
    e: BlueprintDiffSingleError,
    before: Map<Uuid, ZonesView>,
    after: Map<Uuid, ZonesView>,
)
    requires
        tells_kind_change(e, before, after),
    ensures
        before.contains_key(e->sled_id),
        after.contains_key(e->sled_id),
        e->before != e->after,
        exists|z: ZoneView| #[trigger]
            before[e->sled_id].zones.contains(z) && z.config.id == e->zone_id
                && z.config.zone_type.kind == e->before,
        exists|z: ZoneView| #[trigger]
            after[e->sled_id].zones.contains(z) && z.config.id == e->zone_id
                && z.config.zone_type.kind == e->after,
{
    broadcast use vstd::seq_lib::group_to_multiset_ensures;

    let (b, a) = (before[e->sled_id].zones, after[e->sled_id].zones);
    lemma_sorted::<BlueprintZoneConfig>(b);
    lemma_sorted::<BlueprintZoneConfig>(a);
    lemma_by_id(sorted::<BlueprintZoneConfig>(b), e->zone_id);
    lemma_by_id(sorted::<BlueprintZoneConfig>(a), e->zone_id);
    let (x, y) = (
        sled_by_id(before, e->sled_id)[e->zone_id],
        sled_by_id(after, e->sled_id)[e->zone_id],
    );
    assert(sorted::<BlueprintZoneConfig>(b).to_multiset().count(x) > 0);
    assert(sorted::<BlueprintZoneConfig>(a).to_multiset().count(y) > 0);
    assert(b.contains(x));
    assert(a.contains(y));
}

/// The errors of one sled tell each zone whose kind differs between the two sides, by
/// its id and its kind before and after, and no others.
pub proof fn law_kind_changes_of_a_sled(
    errors: Seq<BlueprintDiffSingleError>,
    sled_id: Uuid,
    before: Map<Uuid, ZoneView>,
    after: Map<Uuid, ZoneView>,
    id: Uuid,
)
    requires
        lists_kind_changes(errors, sled_id, before, after),
    ensures
        before.contains_key(id) && after.contains_key(id)
            && before[id].config.zone_type.kind != after[id].config.zone_type.kind
            ==> errors.contains(
            (BlueprintDiffSingleError::ZoneTypeChanged {
                sled_id,
                zone_id: id,
                before: before[id].config.zone_type.kind,
                after: after[id].config.zone_type.kind,
            }),
        ),
        forall|i: int|
            0 <= i < errors.len() ==> {
                let e = #[trigger] errors[i];
                &&& e->sled_id == sled_id
                &&& before.contains_key(e->zone_id)
                &&& after.contains_key(e->zone_id)
                &&& e->before == before[e->zone_id].config.zone_type.kind
                &&& e->after == after[e->zone_id].config.zone_type.kind
                &&& e->before != e->after
            },
{
    assert forall|i: int| 0 <= i < errors.len() implies ({
        let e = #[trigger] errors[i];
        &&& e->sled_id == sled_id
        &&& before.contains_key(e->zone_id)
        &&& after.contains_key(e->zone_id)
        &&& e->before == before[e->zone_id].config.zone_type.kind
        &&& e->after == after[e->zone_id].config.zone_type.kind
        &&& e->before != e->after
    }) by {
        assert(errors.contains(errors[i]));
    }
    if before.contains_key(id) && after.contains_key(id) {
        let e = BlueprintDiffSingleError::ZoneTypeChanged {
            sled_id,
            zone_id: id,
            before: before[id].config.zone_type.kind,
            after: after[id].config.zone_type.kind,
        };
        assert(errors.contains(e) <==> kind_changed(before, after, e->zone_id) && e == kind_change(
            sled_id,
            before,
            after,
            e->zone_id,
        ));
    }
}

/// Comparing two sides fails just where a zone changed its kind, and tells the two
/// sides either way.
pub proof fn law_diff_tells_its_sides(
    r: Result<BlueprintDiff, BlueprintDiffError>,
    before_meta: BeforeView,
    before: Map<Uuid, ZonesView>,
    after_meta: MetadataView,
    after: Map<Uuid, ZonesView>,
)
    requires
        diff_result(r, before_meta, before, after_meta, after),
    ensures
        r is Err <==> exists|e: BlueprintDiffSingleError| #[trigger]
            tells_kind_change(e, before, after),
        r is Ok ==> r->Ok_0@.before_meta == before_meta && r->Ok_0@.after_meta == after_meta
            && r->Ok_0@.sleds.describes(before, after),
        r is Err ==> r->Err_0.before_meta@ == before_meta && r->Err_0.after_meta@ == after_meta,
        r is Err ==> forall|e: BlueprintDiffSingleError| #[trigger]
            r->Err_0.errors@.contains(e) <==> tells_kind_change(e, before, after),
        r is Err ==> r->Err_0.errors@.len() > 0,
{
    if r is Err {
        let e = choose|e: BlueprintDiffSingleError| #[trigger] tells_kind_change(e, before, after);
        assert(r->Err_0.errors@.contains(e));
    }
}

/// The text of an error names the sled, the zone, and its kinds before and after.
pub proof fn law_text_of_a_kind_change(
    sled_id: Uuid,
    zone_id: Uuid,
    before: ZoneKind,
    after: ZoneKind,
)
    ensures
        (BlueprintDiffSingleError::ZoneTypeChanged { sled_id, zone_id, before, after }).text()
            == "on sled "@ + uuid_text(sled_id) + ", zone "@ + uuid_text(zone_id)
            + " changed type from "@ + before.text() + " to "@ + after.text(),
{
}

/// Each error stands on a line of its own, after those before it.
pub proof fn law_errors_are_listed(
    errors: Seq<BlueprintDiffSingleError>,
    more: BlueprintDiffSingleError,
)
    ensures
        error_lines(Seq::empty()).len() == 0,
        error_lines(errors.push(more)) == error_lines(errors) + "  - "@ + more.text() + "\n"@,
{
    assert(errors.push(more).drop_last() =~= errors);
}

/// How the side before is named, and what it stands for.
pub proof fn law_names_of_the_side_before(id: Uuid, m: MetadataView, meta: DiffBeforeMetadata)
    ensures
        (BeforeView::Collection { id }).display_id() == "collection "@ + uuid_text(id),
        BeforeView::Blueprint(m).display_id() == "blueprint "@ + uuid_text(m.id),
        match meta {
            DiffBeforeMetadata::Collection { id } => meta@ == (BeforeView::Collection { id }),
            DiffBeforeMetadata::Blueprint(b) => meta@ == BeforeView::Blueprint((*b)@),
        },
{
}

/// What was found on a sled is compared with its generation and with all of its zones
/// in service.
pub proof fn law_found_zones_are_in_service(
    found: Map<Uuid, OmicronZonesView>,
    id: Uuid,
    i: int,
)
    ensures
        found_in_service(found).contains_key(id) <==> found.contains_key(id),
        found.contains_key(id) ==> {
            let shown = found_in_service(found)[id];
            &&& shown.generation == found[id].generation
            &&& shown.zones.len() == found[id].zones.len()
            &&& 0 <= i < found[id].zones.len() ==> shown.zones[i].config == found[id].zones[i]
                && shown.zones[i].disposition is InService
        },
{
}

/// A common zone stands for what its fields hold.
pub proof fn law_common_zone_stands_for_itself(zone: DiffZoneCommon)
    ensures
        zone@.zone_before == zone.zone_before@,
        zone@.zone_after == zone.zone_after@,
{
}

/// The errors of a diff stand sled by sled, in the order of the sled ids, and each zone
/// is told once.
pub proof fn law_errors_stand_sled_by_sled(
    errors: Seq<BlueprintDiffSingleError>,
    before: Map<Uuid, ZonesView>,
    after: Map<Uuid, ZonesView>,
    i: int,
    j: int,
)
    requires
        lists_all_kind_changes(errors, before, after),
        0 <= i < j < errors.len(),
    ensures
        errors[i]->sled_id <= errors[j]->sled_id,
        errors[i]->sled_id != errors[j]->sled_id || errors[i]->zone_id != errors[j]->zone_id,
{
    assert(errors.contains(errors[i]));
    assert(errors.contains(errors[j]));
}

/// No zone is told twice as added, twice as removed, or twice as common.
pub proof fn law_each_zone_is_told_once(
    m: ModifiedView,
    sled_id: Uuid,
    before: ZonesView,
    after: ZonesView,
    i: int,
    j: int,
)
    requires
        m.describes(sled_id, before, after),
        0 <= i < j,
    ensures
        j < m.zones_added.len() ==> m.zones_added[i].config.id != m.zones_added[j].config.id,
        j < m.zones_removed.len() ==> m.zones_removed[i].config.id
            != m.zones_removed[j].config.id,
        j < m.zones_common.len() ==> m.zones_common[i].zone_before.config.id
            != m.zones_common[j].zone_before.config.id,
{
    if j < m.zones_added.len() {
        assert(m.zones_added.contains(m.zones_added[i]));
        assert(m.zones_added.contains(m.zones_added[j]));
    }
    if j < m.zones_removed.len() {
        assert(m.zones_removed.contains(m.zones_removed[i]));
        assert(m.zones_removed.contains(m.zones_removed[j]));
    }
    if j < m.zones_common.len() {
        let (c, d) = (m.zones_common[i], m.zones_common[j]);
        assert(m.zones_common.contains(c));
        assert(m.zones_common.contains(d));
        if c.zone_before.config.id == d.zone_before.config.id {
            assert(c =~= d);
        }
    }
}

} // verus!
