//! Differences between blueprints, and between a collection and a blueprint.

use std::collections::{BTreeMap, HashMap};

use vstd::prelude::*;

use crate::deployment::{
    blueprint_display_id, in_service, pair_views, zone_key, zone_sort_key, zones_by_sled,
    zones_in_service, zones_of_sled, Blueprint, BlueprintMetadata, BlueprintZoneConfig,
    BlueprintZonesConfig, Generation, MetadataView, OmicronZonesView, ZoneKind, ZoneView,
    ZonesView,
};
use crate::inventory::{zones_found, Collection};
use crate::ordered::{entries, in_key_order, get, ids_in_order, lemma_same_ids, listed, put};
use crate::sort::{
    lemma_sorted, lemma_sorted_no_duplicates, sort_by_key, sorted, sorted_by_key, views, Keyed,
};
use crate::text::{uuid_text, uuid_to_string, Uuid};

verus! {

/// The zones under their ids. Where two zones have the same id, the later one
/// counts.
pub open spec fn by_id(zones: Seq<ZoneView>) -> Map<Uuid, ZoneView>
    decreases zones.len(),
{
    if zones.len() == 0 {
        Map::empty()
    } else {
        by_id(zones.drop_last()).insert(zones.last().config.id, zones.last())
    }
}

/// Describes a zone that was common to both sides of a diff.
#[derive(Debug)]
pub struct DiffZoneCommon {
    /// full zone configuration before
    pub zone_before: BlueprintZoneConfig,
    /// full zone configuration after
    pub zone_after: BlueprintZoneConfig,
}

/// What a [`DiffZoneCommon`] stands for.
#[verifier::ext_equal]
pub struct CommonView {
    pub zone_before: ZoneView,
    pub zone_after: ZoneView,
}

impl View for DiffZoneCommon {
    type V = CommonView;

    open spec fn view(&self) -> CommonView {
        CommonView { zone_before: self.zone_before@, zone_after: self.zone_after@ }
    }
}

impl Keyed for DiffZoneCommon {
    open spec fn key_of(v: CommonView) -> (u8, u128) {
        zone_key(v.zone_before)
    }

    fn key(&self) -> (r: (u8, u128)) {
        zone_sort_key(&self.zone_before)
    }
}

impl Clone for DiffZoneCommon {
    fn clone(&self) -> (r: Self)
        ensures
            r@ == self@,
    {
        DiffZoneCommon {
            zone_before: self.zone_before.clone(),
            zone_after: self.zone_after.clone(),
        }
    }
}

impl CommonView {
    /// Whether the zone differs at all between the two sides.
    pub open spec fn modified(self) -> bool {
        self.zone_before != self.zone_after
    }
}

impl DiffZoneCommon {
    /// Returns true if there are any differences between `zone_before` and
    /// `zone_after`.
    ///
    /// This is equivalent to `config_changed() || disposition_changed()`.
    pub fn is_modified(&self) -> (r: bool)
        ensures
            r == self@.modified(),
            r <==> (self@.zone_before.config != self@.zone_after.config
                || self@.zone_before.disposition != self@.zone_after.disposition),
    {
        // state is smaller and easier to compare than config.
        self.disposition_changed() || self.config_changed()
    }

    /// Returns true if the zone configuration (excluding the disposition)
    /// changed.
    pub fn config_changed(&self) -> (r: bool)
        ensures
            r == (self@.zone_before.config != self@.zone_after.config),
    {
        self.zone_before.config != self.zone_after.config
    }

    /// Returns true if the disposition of the zone changed.
    pub fn disposition_changed(&self) -> (r: bool)
        ensures
            r == (self@.zone_before.disposition != self@.zone_after.disposition),
    {
        self.zone_before.disposition != self.zone_after.disposition
    }
}

/// An individual error within a [`BlueprintDiffError`].
#[derive(Copy, Clone, Debug, PartialEq, Eq, Structural)]
pub enum BlueprintDiffSingleError {
    /// The type of a particular zone changed between the before and after
    /// blueprints.
    ///
    /// For a particular zone, the type should never change.
    ZoneTypeChanged { sled_id: Uuid, zone_id: Uuid, before: ZoneKind, after: ZoneKind },
}

/// The error for a zone whose kind differs between the two sides.
pub open spec fn kind_change(
    sled_id: Uuid,
    before: Map<Uuid, ZoneView>,
    after: Map<Uuid, ZoneView>,
    zone_id: Uuid,
) -> BlueprintDiffSingleError {
    BlueprintDiffSingleError::ZoneTypeChanged {
        sled_id,
        zone_id,
        before: before[zone_id].config.zone_type.kind,
        after: after[zone_id].config.zone_type.kind,
    }
}

/// Whether a zone stands on both sides.
pub open spec fn is_common(
    before: Map<Uuid, ZoneView>,
    after: Map<Uuid, ZoneView>,
    zone_id: Uuid,
) -> bool {
    before.contains_key(zone_id) && after.contains_key(zone_id)
}

/// Whether a zone stands on both sides, with different kinds.
pub open spec fn kind_changed(
    before: Map<Uuid, ZoneView>,
    after: Map<Uuid, ZoneView>,
    zone_id: Uuid,
) -> bool {
    &&& is_common(before, after, zone_id)
    &&& before[zone_id].config.zone_type.kind != after[zone_id].config.zone_type.kind
}

/// Whether a list of errors names each zone of a sled whose kind changed, and
/// each once.
pub open spec fn lists_kind_changes(
    errors: Seq<BlueprintDiffSingleError>,
    sled_id: Uuid,
    before: Map<Uuid, ZoneView>,
    after: Map<Uuid, ZoneView>,
) -> bool {
    &&& errors.no_duplicates()
    &&& forall|e: BlueprintDiffSingleError|
        #![trigger errors.contains(e)]
        errors.contains(e) <==> kind_changed(before, after, e->zone_id) && e == kind_change(
            sled_id,
            before,
            after,
            e->zone_id,
        )
}

/// Whether a list holds the zones of a map, each once, in the sort order.
pub open spec fn lists_zones(list: Seq<ZoneView>, map: Map<Uuid, ZoneView>) -> bool {
    &&& list.no_duplicates()
    &&& sorted_by_key::<BlueprintZoneConfig>(list)
    &&& forall|z: ZoneView|
        #![trigger list.contains(z)]
        list.contains(z) <==> map.contains_key(z.config.id) && map[z.config.id] == z
}

/// Whether a list holds the zones that stand on both sides with the same kind,
/// each once, in the sort order.
pub open spec fn lists_common(
    list: Seq<CommonView>,
    before: Map<Uuid, ZoneView>,
    after: Map<Uuid, ZoneView>,
) -> bool {
    &&& list.no_duplicates()
    &&& sorted_by_key::<DiffZoneCommon>(list)
    &&& forall|c: CommonView|
        #![trigger list.contains(c)]
        list.contains(c) <==> {
            let id = c.zone_before.config.id;
            &&& is_common(before, after, id)
            &&& !kind_changed(before, after, id)
            &&& before[id] == c.zone_before
            &&& after[id] == c.zone_after
        }
}

/// Describes a sled that appeared on both sides of a diff and is changed.
#[derive(Clone, Debug)]
pub struct DiffSledModified {
    /// id of the sled
    pub sled_id: Uuid,
    /// generation of the "zones" configuration on the left side
    pub generation_before: Generation,
    /// generation of the "zones" configuration on the right side
    pub generation_after: Generation,
    zones_added: Vec<BlueprintZoneConfig>,
    zones_removed: Vec<BlueprintZoneConfig>,
    zones_common: Vec<DiffZoneCommon>,
}

/// What a [`DiffSledModified`] stands for.
#[verifier::ext_equal]
pub struct ModifiedView {
    pub sled_id: Uuid,
    pub generation_before: Generation,
    pub generation_after: Generation,
    pub zones_added: Seq<ZoneView>,
    pub zones_removed: Seq<ZoneView>,
    pub zones_common: Seq<CommonView>,
}

impl View for DiffSledModified {
    type V = ModifiedView;

    closed spec fn view(&self) -> ModifiedView {
        ModifiedView {
            sled_id: self.sled_id,
            generation_before: self.generation_before,
            generation_after: self.generation_after,
            zones_added: views(self.zones_added@),
            zones_removed: views(self.zones_removed@),
            zones_common: views(self.zones_common@),
        }
    }
}

impl ModifiedView {
    /// The common zones that changed.
    pub open spec fn zones_modified(self) -> Seq<CommonView> {
        self.zones_common.filter(|c: CommonView| c.modified())
    }

    /// The common zones that did not change.
    pub open spec fn zones_unchanged(self) -> Seq<CommonView> {
        self.zones_common.filter(|c: CommonView| !c.modified())
    }

    /// Whether each common zone has the same id on both sides.
    pub open spec fn ids_match(self) -> bool {
        forall|c: CommonView| #[trigger]
            self.zones_common.contains(c) ==> c.zone_before.config.id == c.zone_after.config.id
    }

    /// Whether this describes what changed on a sled between two zone
    /// configurations.
    pub open spec fn describes(self, sled_id: Uuid, before: ZonesView, after: ZonesView) -> bool {
        let before_by_id = by_id(before.zones);
        let after_by_id = by_id(after.zones);
        &&& self.sled_id == sled_id
        &&& self.generation_before == before.generation
        &&& self.generation_after == after.generation
        &&& lists_zones(self.zones_added, after_by_id.remove_keys(before_by_id.dom()))
        &&& lists_zones(self.zones_removed, before_by_id.remove_keys(after_by_id.dom()))
        &&& lists_common(self.zones_common, before_by_id, after_by_id)
    }
}

/// Whether a map gives, for each id, where the zone that counts for it stands.
spec fn indexes(index: Map<Uuid, usize>, zones: Seq<ZoneView>) -> bool {
    &&& forall|id: Uuid| #[trigger] index.contains_key(id) <==> by_id(zones).contains_key(id)
    &&& forall|id: Uuid| #[trigger]
        index.contains_key(id) ==> {
            &&& index[id] < zones.len()
            &&& zones[index[id] as int] == by_id(zones)[id]
            &&& zones[index[id] as int].config.id == id
        }
    &&& forall|i: int|
        0 <= i < zones.len() ==> index.contains_key((#[trigger] zones[i]).config.id)
}

fn index_by_id(zones: &Vec<BlueprintZoneConfig>) -> (r: HashMap<Uuid, usize>)
    ensures
        indexes(r@, views(zones@)),
{
    broadcast use vstd::std_specs::hash::group_hash_axioms;

    let mut index: HashMap<Uuid, usize> = HashMap::new();
    let mut i: usize = 0;
    let ghost all = views(zones@);
    assert(all.take(0) =~= Seq::empty());
    while i < zones.len()
        invariant
            i <= zones.len(),
            all == views(zones@),
            indexes(index@, all.take(i as int)),
        decreases zones.len() - i,
    {
        let ghost before = index@;
        index.insert(zones[i].config.id, i);
        proof {
            let next = all.take(i + 1);
            assert(next.drop_last() =~= all.take(i as int));
            assert(next.last() == zones@[i as int]@);
            assert forall|k: int| 0 <= k < next.len() implies index@.contains_key(
                (#[trigger] next[k]).config.id,
            ) by {
                if k < i {
                    assert(next[k] == all.take(i as int)[k]);
                }
            }
            assert forall|id: Uuid| #[trigger] index@.contains_key(id) implies ({
                &&& index@[id] < next.len()
                &&& next[index@[id] as int] == by_id(next)[id]
                &&& next[index@[id] as int].config.id == id
            }) by {
                if id != zones@[i as int].config.id {
                    assert(before.contains_key(id));
                    assert(next[index@[id] as int] == all.take(i as int)[index@[id] as int]);
                }
            }
        }
        i = i + 1;
    }
    assert(all.take(zones.len() as int) =~= all);
    index
}

proof fn lemma_push_contains<A>(s: Seq<A>, x: A)
    ensures
        forall|y: A| #[trigger] s.push(x).contains(y) <==> s.contains(y) || y == x,
        s.no_duplicates() && !s.contains(x) ==> s.push(x).no_duplicates(),
{
    assert forall|y: A| #[trigger] s.push(x).contains(y) <==> s.contains(y) || y == x by {
        if s.contains(y) {
            let i = choose|i: int| 0 <= i < s.len() && s[i] == y;
            assert(s.push(x)[i] == y);
        }
        if y == x {
            assert(s.push(x)[s.len() as int] == y);
        }
    }
}

/// Sorted, zones that each stand under their id in a map list that map.
proof fn lemma_lists_zones(list: Seq<ZoneView>, map: Map<Uuid, ZoneView>)
    requires
        list.no_duplicates(),
        forall|z: ZoneView|
            #![trigger list.contains(z)]
            list.contains(z) <==> map.contains_key(z.config.id) && map[z.config.id] == z,
    ensures
        lists_zones(sorted::<BlueprintZoneConfig>(list), map),
{
    lemma_sorted::<BlueprintZoneConfig>(list);
    lemma_sorted_no_duplicates::<BlueprintZoneConfig>(list);
}

/// Whether an error names a zone whose kind changed, among those that stand
/// before position `n`.
spec fn kind_change_before(
    e: BlueprintDiffSingleError,
    sled_id: Uuid,
    before: Seq<ZoneView>,
    after: Seq<ZoneView>,
    index: Map<Uuid, usize>,
    n: int,
) -> bool {
    &&& kind_changed(by_id(before), by_id(after), e->zone_id)
    &&& index[e->zone_id] < n
    &&& e == kind_change(sled_id, by_id(before), by_id(after), e->zone_id)
}

impl DiffSledModified {
    /// Compares two zone configurations of a sled.
    ///
    /// An error is added for each zone whose kind changed.
    pub(crate) fn new(
        sled_id: Uuid,
        before: BlueprintZonesConfig,
        after: BlueprintZonesConfig,
        errors: &mut Vec<BlueprintDiffSingleError>,
    ) -> (r: Self)
        ensures
            r@.describes(sled_id, before@, after@),
            old(errors).len() <= final(errors).len(),
            final(errors)@.take(old(errors).len() as int) == old(errors)@,
            lists_kind_changes(
                final(errors)@.skip(old(errors).len() as int),
                sled_id,
                by_id(before@.zones),
                by_id(after@.zones),
            ),
    {
        broadcast use vstd::std_specs::hash::group_hash_axioms;

        // Assemble separate summaries of the zones, indexed by zone id.
        let before_index = index_by_id(&before.zones);
        let after_index = index_by_id(&after.zones);
        let ghost b = views(before.zones@);
        let ghost a = views(after.zones@);
        let ghost b_map = by_id(b);
        let ghost a_map = by_id(a);

        let mut zones_removed: Vec<BlueprintZoneConfig> = Vec::new();
        let mut zones_common: Vec<DiffZoneCommon> = Vec::new();
        let mut changes: Vec<BlueprintDiffSingleError> = Vec::new();

        // Now go through each zone and compare them.
        let mut i: usize = 0;
        while i < before.zones.len()
            invariant
                i <= before.zones.len(),
                b == views(before.zones@),
                a == views(after.zones@),
                b_map == by_id(b),
                a_map == by_id(a),
                indexes(before_index@, b),
                indexes(after_index@, a),
                views(zones_removed@).no_duplicates(),
                forall|z: ZoneView|
                    #![trigger views(zones_removed@).contains(z)]
                    views(zones_removed@).contains(z) <==> b_map.contains_key(z.config.id)
                        && b_map[z.config.id] == z && !a_map.contains_key(z.config.id)
                        && before_index@[z.config.id] < i,
                views(zones_common@).no_duplicates(),
                forall|c: CommonView|
                    #![trigger views(zones_common@).contains(c)]
                    views(zones_common@).contains(c) <==> {
                        let id = c.zone_before.config.id;
                        &&& is_common(b_map, a_map, id)
                        &&& !kind_changed(b_map, a_map, id)
                        &&& b_map[id] == c.zone_before
                        &&& a_map[id] == c.zone_after
                        &&& before_index@[id] < i
                    },
                changes@.no_duplicates(),
                forall|e: BlueprintDiffSingleError|
                    #![trigger changes@.contains(e)]
                    changes@.contains(e) <==> kind_change_before(
                        e,
                        sled_id,
                        b,
                        a,
                        before_index@,
                        i as int,
                    ),
            decreases before.zones.len() - i,
        {
            let zone_before = &before.zones[i];
            let zone_id = zone_before.config.id;
            let ghost removed_so_far = views(zones_removed@);
            let ghost common_so_far = views(zones_common@);
            let ghost changes_so_far = changes@;
            assert(b[i as int] == zone_before@);
            assert(before_index@.contains_key(zone_id));
            assert forall|id: Uuid| #[trigger]
                b_map.contains_key(id) && before_index@[id] == i implies id == zone_id by {
                assert(before_index@.contains_key(id));
            }
            let counts = match before_index.get(&zone_id) {
                Some(last) => *last == i,
                None => false,
            };
            if counts {
                assert(b_map[zone_id] == zone_before@);
                assert(b_map.contains_key(zone_id));
                match after_index.get(&zone_id) {
                    Some(at) => {
                        assert(after_index@.contains_key(zone_id));
                        let zone_after = &after.zones[*at];
                        assert(a[*at as int] == zone_after@);
                        assert(a_map.contains_key(zone_id));
                        let before_kind = zone_before.config.zone_type.kind();
                        let after_kind = zone_after.config.zone_type.kind();
                        if before_kind != after_kind {
                            let change = BlueprintDiffSingleError::ZoneTypeChanged {
                                sled_id,
                                zone_id,
                                before: before_kind,
                                after: after_kind,
                            };
                            changes.push(change);
                            proof {
                                assert(kind_changed(b_map, a_map, zone_id));
                                lemma_push_contains(changes_so_far, change);
                                assert(!changes_so_far.contains(change));
                            }
                        } else {
                            zones_common.push(
                                DiffZoneCommon {
                                    zone_before: zone_before.clone(),
                                    zone_after: zone_after.clone(),
                                },
                            );
                            proof {
                                let c = CommonView {
                                    zone_before: zone_before@,
                                    zone_after: zone_after@,
                                };
                                assert(views(zones_common@) =~= common_so_far.push(c));
                                lemma_push_contains(common_so_far, c);
                                assert(!common_so_far.contains(c));
                            }
                        }
                    },
                    None => {
                        assert(!a_map.contains_key(zone_id)) by {
                            assert(!after_index@.contains_key(zone_id));
                        }
                        zones_removed.push(zone_before.clone());
                        proof {
                            assert(views(zones_removed@) =~= removed_so_far.push(zone_before@));
                            lemma_push_contains(removed_so_far, zone_before@);
                            assert(!removed_so_far.contains(zone_before@));
                        }
                    },
                }
            }
            i = i + 1;
        }

        // What stands only on the right was added.
        let mut zones_added: Vec<BlueprintZoneConfig> = Vec::new();
        let mut j: usize = 0;
        while j < after.zones.len()
            invariant
                j <= after.zones.len(),
                a == views(after.zones@),
                b_map == by_id(b),
                a_map == by_id(a),
                indexes(before_index@, b),
                indexes(after_index@, a),
                views(zones_added@).no_duplicates(),
                forall|z: ZoneView|
                    #![trigger views(zones_added@).contains(z)]
                    views(zones_added@).contains(z) <==> a_map.contains_key(z.config.id)
                        && a_map[z.config.id] == z && !b_map.contains_key(z.config.id)
                        && after_index@[z.config.id] < j,
            decreases after.zones.len() - j,
        {
            let zone_after = &after.zones[j];
            let zone_id = zone_after.config.id;
            let ghost added_so_far = views(zones_added@);
            assert(a[j as int] == zone_after@);
            assert(after_index@.contains_key(zone_id));
            assert forall|id: Uuid| #[trigger]
                a_map.contains_key(id) && after_index@[id] == j implies id == zone_id by {
                assert(after_index@.contains_key(id));
            }
            let counts = match after_index.get(&zone_id) {
                Some(last) => *last == j,
                None => false,
            };
            if counts && !before_index.contains_key(&zone_id) {
                assert(a_map[zone_id] == zone_after@);
                assert(a_map.contains_key(zone_id));
                assert(!b_map.contains_key(zone_id)) by {
                    assert(!before_index@.contains_key(zone_id));
                }
                zones_added.push(zone_after.clone());
                proof {
                    assert(views(zones_added@) =~= added_so_far.push(zone_after@));
                    lemma_push_contains(added_so_far, zone_after@);
                    assert(!added_so_far.contains(zone_after@));
                }
            } else if counts {
                assert(before_index@.contains_key(zone_id));
                assert(b_map.contains_key(zone_id));
            }
            j = j + 1;
        }

        proof {
            assert forall|id: Uuid| #[trigger]
                b_map.contains_key(id) implies before_index@[id] < before.zones.len() by {
                assert(before_index@.contains_key(id));
            }
            assert forall|id: Uuid| #[trigger]
                a_map.contains_key(id) implies after_index@[id] < after.zones.len() by {
                assert(after_index@.contains_key(id));
            }
            lemma_lists_zones(views(zones_added@), a_map.remove_keys(b_map.dom()));
            lemma_lists_zones(views(zones_removed@), b_map.remove_keys(a_map.dom()));
            lemma_sorted::<DiffZoneCommon>(views(zones_common@));
            lemma_sorted_no_duplicates::<DiffZoneCommon>(views(zones_common@));
        }
        sort_by_key(&mut zones_added);
        sort_by_key(&mut zones_removed);
        sort_by_key(&mut zones_common);

        let ghost found = changes@;
        errors.append(&mut changes);
        proof {
            assert(errors@.take(old(errors).len() as int) =~= old(errors)@);
            assert(errors@.skip(old(errors).len() as int) =~= found);
        }
        DiffSledModified {
            sled_id,
            generation_before: before.generation,
            generation_after: after.generation,
            zones_added,
            zones_removed,
            zones_common,
        }
    }
}

/// What each value of a list of references stands for.
pub open spec fn ref_views<T: View>(list: Seq<&T>) -> Seq<T::V> {
    list.map_values(|t: &T| t@)
}

impl DiffSledModified {
    /// The generations of the zones before and after.
    pub fn generations(&self) -> (r: (Generation, Generation))
        ensures
            r == (self@.generation_before, self@.generation_after),
    {
        (self.generation_before, self.generation_after)
    }

    /// Zones added between the blueprints.
    pub fn zones_added(&self) -> (r: &Vec<BlueprintZoneConfig>)
        ensures
            views(r@) == self@.zones_added,
    {
        &self.zones_added
    }

    /// Zones removed between the blueprints.
    pub fn zones_removed(&self) -> (r: &Vec<BlueprintZoneConfig>)
        ensures
            views(r@) == self@.zones_removed,
    {
        &self.zones_removed
    }

    /// Zones that are common to both blueprints.
    pub fn zones_in_common(&self) -> (r: &Vec<DiffZoneCommon>)
        ensures
            views(r@) == self@.zones_common,
    {
        &self.zones_common
    }

    /// The common zones that changed, or those that did not.
    fn zones_with(&self, modified: bool) -> (r: Vec<&DiffZoneCommon>)
        ensures
            ref_views(r@) == self@.zones_common.filter(
                |c: CommonView| c.modified() == modified,
            ),
    {
        let mut out: Vec<&DiffZoneCommon> = Vec::new();
        let mut i: usize = 0;
        let ghost all = self@.zones_common;
        let ghost pred = |c: CommonView| c.modified() == modified;
        while i < self.zones_common.len()
            invariant
                i <= self.zones_common.len(),
                all == views(self.zones_common@),
                pred == (|c: CommonView| c.modified() == modified),
                ref_views(out@) == all.take(i as int).filter(pred),
            decreases self.zones_common.len() - i,
        {
            let z = &self.zones_common[i];
            let ghost so_far = ref_views(out@);
            proof {
                assert(all.take(i + 1) =~= all.take(i as int).push(z@));
                all.take(i as int).lemma_filter_push(z@, pred);
            }
            if z.is_modified() == modified {
                out.push(z);
                assert(ref_views(out@) =~= so_far.push(z@));
            }
            i = i + 1;
        }
        assert(all.take(self.zones_common.len() as int) =~= all);
        out
    }

    /// Zones that changed between the blueprints.
    pub fn zones_modified(&self) -> (r: Vec<&DiffZoneCommon>)
        ensures
            ref_views(r@) == self@.zones_modified(),
    {
        assert((|c: CommonView| c.modified() == true) =~= (|c: CommonView| c.modified()));
        self.zones_with(true)
    }

    /// Zones that did not change between the blueprints.
    pub fn zones_unchanged(&self) -> (r: Vec<&DiffZoneCommon>)
        ensures
            ref_views(r@) == self@.zones_unchanged(),
    {
        assert((|c: CommonView| c.modified() == false) =~= (|c: CommonView| !c.modified()));
        self.zones_with(false)
    }
}

/// A zone configuration with its zones in the sort order.
pub open spec fn in_zone_order(zones: ZonesView) -> ZonesView {
    ZonesView {
        generation: zones.generation,
        zones: sorted::<BlueprintZoneConfig>(zones.zones),
    }
}

/// Whether a sled stands on both sides.
pub open spec fn sled_in_both(
    before: Map<Uuid, ZonesView>,
    after: Map<Uuid, ZonesView>,
    sled_id: Uuid,
) -> bool {
    before.contains_key(sled_id) && after.contains_key(sled_id)
}

/// Whether a sled stands on both sides with the same zones, in whatever order
/// they are recorded.
pub open spec fn sled_unchanged(
    before: Map<Uuid, ZonesView>,
    after: Map<Uuid, ZonesView>,
    sled_id: Uuid,
) -> bool {
    &&& sled_in_both(before, after, sled_id)
    &&& in_zone_order(before[sled_id]) == in_zone_order(after[sled_id])
}

/// The zones of a sled under their ids.
pub open spec fn sled_by_id(sleds: Map<Uuid, ZonesView>, sled_id: Uuid) -> Map<Uuid, ZoneView> {
    by_id(in_zone_order(sleds[sled_id]).zones)
}

/// Whether an error tells of a zone whose kind changed.
pub open spec fn tells_kind_change(
    e: BlueprintDiffSingleError,
    before: Map<Uuid, ZonesView>,
    after: Map<Uuid, ZonesView>,
) -> bool {
    let b = sled_by_id(before, e->sled_id);
    let a = sled_by_id(after, e->sled_id);
    &&& sled_in_both(before, after, e->sled_id)
    &&& kind_changed(b, a, e->zone_id)
    &&& e == kind_change(e->sled_id, b, a, e->zone_id)
}

/// Whether the errors stand sled by sled, in the order of the sled ids.
pub open spec fn in_sled_order(errors: Seq<BlueprintDiffSingleError>) -> bool {
    forall|i: int, j: int|
        #![trigger errors[i], errors[j]]
        0 <= i < j < errors.len() ==> errors[i]->sled_id <= errors[j]->sled_id
}

/// Whether a list of errors names each zone whose kind changed on a sled that
/// stands on both sides, and each once, sled by sled.
pub open spec fn lists_all_kind_changes(
    errors: Seq<BlueprintDiffSingleError>,
    before: Map<Uuid, ZonesView>,
    after: Map<Uuid, ZonesView>,
) -> bool {
    &&& errors.no_duplicates()
    &&& in_sled_order(errors)
    &&& forall|e: BlueprintDiffSingleError|
        #![trigger errors.contains(e)]
        errors.contains(e) <==> tells_kind_change(e, before, after)
}

/// The sleds of a diff.
#[derive(Debug)]
struct DiffSleds {
    added: BTreeMap<Uuid, BlueprintZonesConfig>,
    removed: BTreeMap<Uuid, BlueprintZonesConfig>,
    modified: BTreeMap<Uuid, DiffSledModified>,
    unchanged: BTreeMap<Uuid, BlueprintZonesConfig>,
}

/// The sleds of a diff: those only on the right, those only on the left, those
/// that changed, and those that did not.
#[verifier::ext_equal]
pub struct SledsView {
    pub added: Map<Uuid, ZonesView>,
    pub removed: Map<Uuid, ZonesView>,
    pub modified: Map<Uuid, ModifiedView>,
    pub unchanged: Map<Uuid, ZonesView>,
}

/// What each modified sled stands for.
pub open spec fn modified_by_sled(map: Map<Uuid, DiffSledModified>) -> Map<Uuid, ModifiedView> {
    map.map_values(|m: DiffSledModified| m@)
}

impl View for DiffSleds {
    type V = SledsView;

    closed spec fn view(&self) -> SledsView {
        SledsView {
            added: zones_by_sled(self.added@),
            removed: zones_by_sled(self.removed@),
            modified: modified_by_sled(self.modified@),
            unchanged: zones_by_sled(self.unchanged@),
        }
    }
}

impl SledsView {
    /// Whether these are the sleds of the diff between two sides.
    pub open spec fn describes(
        self,
        before: Map<Uuid, ZonesView>,
        after: Map<Uuid, ZonesView>,
    ) -> bool {
        &&& self.added == after.remove_keys(before.dom())
        &&& self.removed == before.remove_keys(after.dom())
        &&& self.unchanged == Map::new(
            |id: Uuid| sled_unchanged(before, after, id),
            |id: Uuid| in_zone_order(before[id]),
        )
        &&& forall|id: Uuid| #[trigger]
            self.modified.contains_key(id) <==> sled_in_both(before, after, id)
                && !sled_unchanged(before, after, id)
        &&& forall|id: Uuid| #[trigger]
            self.modified.contains_key(id) ==> self.modified[id].describes(
                id,
                in_zone_order(before[id]),
                in_zone_order(after[id]),
            )
    }
}

proof fn lemma_append_no_duplicates<A>(s: Seq<A>, t: Seq<A>)
    requires
        s.no_duplicates(),
        t.no_duplicates(),
        forall|x: A| s.contains(x) ==> !t.contains(x),
    ensures
        (s + t).no_duplicates(),
        forall|x: A| #[trigger] (s + t).contains(x) <==> s.contains(x) || t.contains(x),
{
    assert forall|i: int, j: int| 0 <= i < j < (s + t).len() implies (s + t)[i] != (s + t)[j] by {
        if i < s.len() {
            assert(s.contains((s + t)[i]));
        }
        if j >= s.len() {
            assert(t.contains((s + t)[j]));
        }
    }
    assert forall|x: A| #[trigger] (s + t).contains(x) <==> s.contains(x) || t.contains(x) by {
        if s.contains(x) {
            let i = choose|i: int| 0 <= i < s.len() && s[i] == x;
            assert((s + t)[i] == x);
        }
        if t.contains(x) {
            let i = choose|i: int| 0 <= i < t.len() && t[i] == x;
            assert((s + t)[s.len() + i] == x);
        }
    }
}

/// Equal zone configurations have no zone whose kind differs.
proof fn lemma_unchanged_has_no_kind_change(
    e: BlueprintDiffSingleError,
    before: Map<Uuid, ZonesView>,
    after: Map<Uuid, ZonesView>,
)
    requires
        sled_unchanged(before, after, e->sled_id),
    ensures
        !tells_kind_change(e, before, after),
{
}

impl DiffSleds {
    /// Sorts the sleds of both sides into added, removed, modified and
    /// unchanged ones. An error is added for each zone whose kind changed.
    fn new(
        before: &BTreeMap<Uuid, BlueprintZonesConfig>,
        after: &BTreeMap<Uuid, BlueprintZonesConfig>,
        errors: &mut Vec<BlueprintDiffSingleError>,
    ) -> (r: Self)
        ensures
            r@.describes(zones_by_sled(before@), zones_by_sled(after@)),
            old(errors).len() <= final(errors).len(),
            final(errors)@.take(old(errors).len() as int) == old(errors)@,
            lists_all_kind_changes(
                final(errors)@.skip(old(errors).len() as int),
                zones_by_sled(before@),
                zones_by_sled(after@),
            ),
    {
        let ghost b = zones_by_sled(before@);
        let ghost a = zones_by_sled(after@);
        let mut removed: BTreeMap<Uuid, BlueprintZonesConfig> = BTreeMap::new();
        let mut modified: BTreeMap<Uuid, DiffSledModified> = BTreeMap::new();
        let mut unchanged: BTreeMap<Uuid, BlueprintZonesConfig> = BTreeMap::new();
        let mut found: Vec<BlueprintDiffSingleError> = Vec::new();

        let ids = ids_in_order(before);
        let mut i: usize = 0;
        while i < ids.len()
            invariant
                i <= ids.len(),
                b == zones_by_sled(before@),
                a == zones_by_sled(after@),
                ids_increase(ids@),
                forall|k: u128| ids@.contains(k) <==> before@.contains_key(k),
                forall|id: Uuid| #[trigger]
                    removed@.contains_key(id) <==> ids@.take(i as int).contains(id)
                        && !a.contains_key(id),
                forall|id: Uuid| #[trigger] removed@.contains_key(id) ==> removed@[id]@ == b[id],
                forall|id: Uuid| #[trigger]
                    unchanged@.contains_key(id) <==> ids@.take(i as int).contains(id)
                        && sled_unchanged(b, a, id),
                forall|id: Uuid| #[trigger]
                    unchanged@.contains_key(id) ==> unchanged@[id]@ == in_zone_order(b[id]),
                forall|id: Uuid| #[trigger]
                    modified@.contains_key(id) <==> ids@.take(i as int).contains(id)
                        && sled_in_both(b, a, id) && !sled_unchanged(b, a, id),
                forall|id: Uuid| #[trigger]
                    modified@.contains_key(id) ==> modified@[id]@.describes(
                        id,
                        in_zone_order(b[id]),
                        in_zone_order(a[id]),
                    ),
                found@.no_duplicates(),
                in_sled_order(found@),
                forall|e: BlueprintDiffSingleError|
                    #![trigger found@.contains(e)]
                    found@.contains(e) <==> ids@.take(i as int).contains(e->sled_id)
                        && tells_kind_change(e, b, a),
            decreases ids.len() - i,
        {
            let sled_id = ids[i];
            let ghost done = ids@.take(i as int);
            let ghost next = ids@.take(i + 1);
            let ghost found_so_far = found@;
            assert(ids@.contains(sled_id));
            proof {
                assert(next =~= done.push(sled_id));
                lemma_push_contains(done, sled_id);
                assert forall|id: Uuid| done.contains(id) implies id < sled_id by {
                    let k = choose|k: int| 0 <= k < done.len() && done[k] == id;
                    assert(ids@[k] < ids@[i as int]);
                }
            }
            let before_z = zones_of_sled(before, sled_id);
            match get(after, sled_id) {
                Some(after_z) => {
                    // Sort both sides so they can be compared directly.
                    let mut before_z = before_z.clone();
                    let mut after_z = after_z.clone();
                    assert(before_z@ == b[sled_id] && after_z@ == a[sled_id]);
                    before_z.sort();
                    after_z.sort();
                    assert(before_z@ == in_zone_order(b[sled_id]));
                    assert(after_z@ == in_zone_order(a[sled_id]));
                    assert(sled_in_both(b, a, sled_id));

                    if before_z == after_z {
                        put(&mut unchanged, sled_id, before_z);
                        proof {
                            assert forall|e: BlueprintDiffSingleError|
                                e->sled_id == sled_id implies !tells_kind_change(e, b, a) by {
                                lemma_unchanged_has_no_kind_change(e, b, a);
                            }
                        }
                    } else {
                        let sled_modified = DiffSledModified::new(
                            sled_id,
                            before_z,
                            after_z,
                            &mut found,
                        );
                        put(&mut modified, sled_id, sled_modified);
                        proof {
                            let added = found@.skip(found_so_far.len() as int);
                            assert(found@ =~= found_so_far + added);
                            assert forall|e: BlueprintDiffSingleError|
                                added.contains(e) implies e->sled_id == sled_id by {}
                            assert forall|k: int| 0 <= k < added.len() implies (
                            #[trigger] added[k])->sled_id == sled_id by {
                                assert(added.contains(added[k]));
                            }
                            assert forall|k: int| 0 <= k < found_so_far.len() implies (
                            #[trigger] found_so_far[k])->sled_id < sled_id by {
                                assert(found_so_far.contains(found_so_far[k]));
                            }
                            lemma_append_no_duplicates(found_so_far, added);
                            assert(in_sled_order(found@)) by {
                                assert forall|k: int, m: int|
                                    #![trigger found@[k], found@[m]]
                                    0 <= k < m < found@.len() implies found@[k]->sled_id
                                    <= found@[m]->sled_id by {
                                    if k < found_so_far.len() {
                                        assert(found@[k] == found_so_far[k]);
                                    } else {
                                        assert(found@[k] == added[k - found_so_far.len()]);
                                    }
                                    if m < found_so_far.len() {
                                        assert(found@[m] == found_so_far[m]);
                                    } else {
                                        assert(found@[m] == added[m - found_so_far.len()]);
                                    }
                                }
                            }
                        }
                    }
                },
                None => {
                    put(&mut removed, sled_id, before_z.clone());
                    assert(!a.contains_key(sled_id));
                },
            }
            i = i + 1;
        }

        // What stands only on the right was added.
        let mut added: BTreeMap<Uuid, BlueprintZonesConfig> = BTreeMap::new();
        let after_ids = ids_in_order(after);
        let mut j: usize = 0;
        while j < after_ids.len()
            invariant
                j <= after_ids.len(),
                b == zones_by_sled(before@),
                a == zones_by_sled(after@),
                forall|k: u128| after_ids@.contains(k) <==> after@.contains_key(k),
                forall|id: Uuid| #[trigger]
                    added@.contains_key(id) <==> after_ids@.take(j as int).contains(id)
                        && !b.contains_key(id),
                forall|id: Uuid| #[trigger] added@.contains_key(id) ==> added@[id]@ == a[id],
            decreases after_ids.len() - j,
        {
            let sled_id = after_ids[j];
            assert(after_ids@.contains(sled_id));
            proof {
                assert(after_ids@.take(j + 1) =~= after_ids@.take(j as int).push(sled_id));
                lemma_push_contains(after_ids@.take(j as int), sled_id);
            }
            if get(before, sled_id).is_none() {
                let zones = zones_of_sled(after, sled_id).clone();
                put(&mut added, sled_id, zones);
            }
            j = j + 1;
        }

        proof {
            assert(ids@.take(ids.len() as int) =~= ids@);
            assert(after_ids@.take(after_ids.len() as int) =~= after_ids@);
        }
        let ghost all = found@;
        errors.append(&mut found);
        let sleds = DiffSleds { added, removed, modified, unchanged };
        proof {
            assert(errors@.take(old(errors).len() as int) =~= old(errors)@);
            assert(errors@.skip(old(errors).len() as int) =~= all);
            assert(sleds@.added =~= a.remove_keys(b.dom()));
            assert(sleds@.removed =~= b.remove_keys(a.dom()));
            assert(sleds@.unchanged =~= Map::new(
                |id: Uuid| sled_unchanged(b, a, id),
                |id: Uuid| in_zone_order(b[id]),
            ));
        }
        sleds
    }
}

/// Whether each id is smaller than those that follow it.
spec fn ids_increase(ids: Seq<Uuid>) -> bool {
    forall|i: int, j: int| 0 <= i < j < ids.len() ==> ids[i] < ids[j]
}

/// Data about the "before" version within a [`BlueprintDiff`].
#[derive(Clone, Debug)]
pub enum DiffBeforeMetadata {
    /// The diff was made from a collection.
    Collection { id: Uuid },
    /// The diff was made from a blueprint.
    Blueprint(Box<BlueprintMetadata>),
}

/// What a [`DiffBeforeMetadata`] stands for.
#[verifier::ext_equal]
pub enum BeforeView {
    Collection { id: Uuid },
    Blueprint(MetadataView),
}

impl View for DiffBeforeMetadata {
    type V = BeforeView;

    open spec fn view(&self) -> BeforeView {
        match self {
            DiffBeforeMetadata::Collection { id } => BeforeView::Collection { id: *id },
            DiffBeforeMetadata::Blueprint(b) => BeforeView::Blueprint((*b)@),
        }
    }
}

impl BeforeView {
    /// How the "before" side is named in messages.
    pub open spec fn display_id(self) -> Seq<char> {
        match self {
            BeforeView::Collection { id } => "collection "@ + uuid_text(id),
            BeforeView::Blueprint(b) => blueprint_display_id(b.id),
        }
    }
}

impl DiffBeforeMetadata {
    /// How the "before" side is named in messages.
    pub fn display_id(&self) -> (r: String)
        ensures
            r@ == self@.display_id(),
    {
        match self {
            DiffBeforeMetadata::Collection { id } => "collection ".to_owned().concat(
                uuid_to_string(*id).as_str(),
            ),
            DiffBeforeMetadata::Blueprint(b) => b.display_id(),
        }
    }
}

impl BlueprintDiffSingleError {
    /// The text of the error.
    pub open spec fn text(self) -> Seq<char> {
        match self {
            BlueprintDiffSingleError::ZoneTypeChanged { sled_id, zone_id, before, after } => {
                "on sled "@ + uuid_text(sled_id) + ", zone "@ + uuid_text(zone_id)
                    + " changed type from "@ + before.text() + " to "@ + after.text()
            },
        }
    }

    /// The text of the error.
    pub fn to_text(&self) -> (r: String)
        ensures
            r@ == self.text(),
    {
        match self {
            BlueprintDiffSingleError::ZoneTypeChanged { sled_id, zone_id, before, after } => {
                "on sled ".to_owned().concat(uuid_to_string(*sled_id).as_str()).concat(
                    ", zone ",
                ).concat(uuid_to_string(*zone_id).as_str()).concat(" changed type from ").concat(
                    before.as_str(),
                ).concat(" to ").concat(after.as_str())
            },
        }
    }
}

/// The errors that kept a diff from being made.
#[derive(Clone, Debug)]
pub struct BlueprintDiffError {
    pub before_meta: DiffBeforeMetadata,
    pub after_meta: Box<BlueprintMetadata>,
    pub errors: Vec<BlueprintDiffSingleError>,
}

/// The errors, each on a line of its own.
pub open spec fn error_lines(errors: Seq<BlueprintDiffSingleError>) -> Seq<char>
    decreases errors.len(),
{
    if errors.len() == 0 {
        Seq::empty()
    } else {
        error_lines(errors.drop_last()) + "  - "@ + errors.last().text() + "\n"@
    }
}

impl BlueprintDiffError {
    /// The text of the error.
    pub fn to_text(&self) -> (r: String)
        ensures
            r@ == "errors in diff between "@ + self.before_meta@.display_id() + " and "@
                + blueprint_display_id(self.after_meta@.id) + ":\n"@ + error_lines(self.errors@),
    {
        let mut out = "errors in diff between ".to_owned().concat(
            self.before_meta.display_id().as_str(),
        ).concat(" and ").concat(self.after_meta.display_id().as_str()).concat(":\n");
        let ghost head = out@;
        let mut i: usize = 0;
        assert(out@ =~= head + error_lines(self.errors@.take(0)));
        while i < self.errors.len()
            invariant
                i <= self.errors.len(),
                out@ == head + error_lines(self.errors@.take(i as int)),
            decreases self.errors.len() - i,
        {
            out = out.concat("  - ").concat(self.errors[i].to_text().as_str()).concat("\n");
            proof {
                let next = self.errors@.take(i + 1);
                assert(next.drop_last() =~= self.errors@.take(i as int));
                assert(out@ =~= head + error_lines(next));
            }
            i = i + 1;
        }
        assert(self.errors@.take(self.errors.len() as int) =~= self.errors@);
        out
    }
}

/// Summarizes the differences between two blueprints.
#[derive(Debug)]
pub struct BlueprintDiff {
    before_meta: DiffBeforeMetadata,
    after_meta: BlueprintMetadata,
    sleds: DiffSleds,
}

/// What a [`BlueprintDiff`] stands for.
#[verifier::ext_equal]
pub struct DiffView {
    pub before_meta: BeforeView,
    pub after_meta: MetadataView,
    pub sleds: SledsView,
}

impl BlueprintDiff {
    #[verifier::type_invariant]
    spec fn common_ids_match(self) -> bool {
        forall|id: Uuid| #[trigger]
            self.sleds.modified@.contains_key(id) ==> self.sleds.modified@[id]@.ids_match()
    }
}

/// The zone under an id has that id, and is one of the zones.
pub proof fn lemma_by_id(zones: Seq<ZoneView>, id: Uuid)
    requires
        by_id(zones).contains_key(id),
    ensures
        by_id(zones)[id].config.id == id,
        zones.contains(by_id(zones)[id]),
    decreases zones.len(),
{
    if zones.len() > 0 {
        if zones.last().config.id != id {
            lemma_by_id(zones.drop_last(), id);
            let z = by_id(zones)[id];
            let i = choose|i: int| 0 <= i < zones.drop_last().len() && zones.drop_last()[i] == z;
            assert(zones[i] == z);
        } else {
            assert(zones[zones.len() - 1] == by_id(zones)[id]);
        }
    }
}

/// In what describes a changed sled, each common zone has one id.
pub proof fn lemma_ids_match(m: ModifiedView, sled_id: Uuid, before: ZonesView, after: ZonesView)
    requires
        m.describes(sled_id, before, after),
    ensures
        m.ids_match(),
{
    assert forall|c: CommonView| #[trigger] m.zones_common.contains(c) implies c.zone_before.config.id
        == c.zone_after.config.id by {
        lemma_by_id(after.zones, c.zone_before.config.id);
    }
}

impl View for BlueprintDiff {
    type V = DiffView;

    closed spec fn view(&self) -> DiffView {
        DiffView {
            before_meta: self.before_meta@,
            after_meta: self.after_meta@,
            sleds: self.sleds@,
        }
    }
}

/// Whether no zone on a sled of both sides changed its kind.
pub open spec fn kinds_kept(before: Map<Uuid, ZonesView>, after: Map<Uuid, ZonesView>) -> bool {
    forall|e: BlueprintDiffSingleError| !#[trigger] tells_kind_change(e, before, after)
}

/// What comes of comparing two sides: a diff where every zone kept its kind,
/// and otherwise the errors.
pub open spec fn diff_result(
    r: Result<BlueprintDiff, BlueprintDiffError>,
    before_meta: BeforeView,
    before: Map<Uuid, ZonesView>,
    after_meta: MetadataView,
    after: Map<Uuid, ZonesView>,
) -> bool {
    match r {
        Ok(diff) => {
            &&& kinds_kept(before, after)
            &&& diff@.before_meta == before_meta
            &&& diff@.after_meta == after_meta
            &&& diff@.sleds.describes(before, after)
        },
        Err(e) => {
            &&& !kinds_kept(before, after)
            &&& e.before_meta@ == before_meta
            &&& e.after_meta@ == after_meta
            &&& lists_all_kind_changes(e.errors@, before, after)
        },
    }
}

/// What the sleds that a map holds stand for, smallest id first.
fn list_sleds(map: &BTreeMap<Uuid, BlueprintZonesConfig>) -> (r: Vec<
    (Uuid, &BlueprintZonesConfig),
>)
    ensures
        pair_views(r@) == listed(zones_by_sled(map@)),
        in_key_order(zones_by_sled(map@)),
{
    let r = entries(map);
    proof {
        lemma_same_ids(map@, zones_by_sled(map@));
        assert(pair_views(r@) =~= listed(zones_by_sled(map@)));
    }
    r
}

impl BlueprintDiff {
    /// Build a diff with the provided contents, verifying that the provided
    /// data is valid.
    fn new(
        before_meta: DiffBeforeMetadata,
        before_zones: &BTreeMap<Uuid, BlueprintZonesConfig>,
        after_meta: BlueprintMetadata,
        after_zones: &BTreeMap<Uuid, BlueprintZonesConfig>,
    ) -> (r: Result<Self, BlueprintDiffError>)
        ensures
            diff_result(
                r,
                before_meta@,
                zones_by_sled(before_zones@),
                after_meta@,
                zones_by_sled(after_zones@),
            ),
    {
        let mut errors: Vec<BlueprintDiffSingleError> = Vec::new();
        let sleds = DiffSleds::new(before_zones, after_zones, &mut errors);
        assert(errors@.skip(0) =~= errors@);
        if errors.is_empty() {
            proof {
                assert forall|e: BlueprintDiffSingleError| !#[trigger] tells_kind_change(
                    e,
                    zones_by_sled(before_zones@),
                    zones_by_sled(after_zones@),
                ) by {
                    assert(!errors@.contains(e));
                }
            }
            proof {
                let b = zones_by_sled(before_zones@);
                let a = zones_by_sled(after_zones@);
                assert forall|id: Uuid| #[trigger]
                    sleds.modified@.contains_key(id) implies sleds.modified@[id]@.ids_match() by {
                    assert(sleds@.modified.contains_key(id));
                    lemma_ids_match(
                        sleds@.modified[id],
                        id,
                        in_zone_order(b[id]),
                        in_zone_order(a[id]),
                    );
                }
            }
            Ok(BlueprintDiff { before_meta, after_meta, sleds })
        } else {
            proof {
                assert(errors@.contains(errors@[0]));
            }
            Err(BlueprintDiffError { before_meta, after_meta: Box::new(after_meta), errors })
        }
    }

    /// Returns metadata about the source of the "before" data.
    pub fn before_meta(&self) -> (r: &DiffBeforeMetadata)
        ensures
            r@ == self@.before_meta,
    {
        &self.before_meta
    }

    /// Returns metadata about the source of the "after" data.
    pub fn after_meta(&self) -> (r: &BlueprintMetadata)
        ensures
            r@ == self@.after_meta,
    {
        &self.after_meta
    }

    /// Sleds only present in the second blueprint of a diff.
    pub fn sleds_added(&self) -> (r: Vec<(Uuid, &BlueprintZonesConfig)>)
        ensures
            pair_views(r@) == listed(self@.sleds.added),
            in_key_order(self@.sleds.added),
    {
        list_sleds(&self.sleds.added)
    }

    /// Sleds only present in the first blueprint of a diff.
    pub fn sleds_removed(&self) -> (r: Vec<(Uuid, &BlueprintZonesConfig)>)
        ensures
            pair_views(r@) == listed(self@.sleds.removed),
            in_key_order(self@.sleds.removed),
    {
        list_sleds(&self.sleds.removed)
    }

    /// Sleds present in both blueprints in a diff that have changes.
    pub fn sleds_modified(&self) -> (r: Vec<(Uuid, &DiffSledModified)>)
        ensures
            pair_views(r@) == listed(self@.sleds.modified),
            in_key_order(self@.sleds.modified),
            forall|i: int| 0 <= i < r.len() ==> (#[trigger] r@[i]).1@.ids_match(),
    {
        let r = entries(&self.sleds.modified);
        proof {
            use_type_invariant(self);
            lemma_same_ids(self.sleds.modified@, self@.sleds.modified);
            assert(pair_views(r@) =~= listed(self@.sleds.modified));
        }
        r
    }

    /// Sleds present in both blueprints in a diff that have no changes.
    pub fn sleds_unchanged(&self) -> (r: Vec<(Uuid, &BlueprintZonesConfig)>)
        ensures
            pair_views(r@) == listed(self@.sleds.unchanged),
            in_key_order(self@.sleds.unchanged),
    {
        list_sleds(&self.sleds.unchanged)
    }
}

/// The zones found on each sled, each taken to be in service.
pub open spec fn found_in_service(found: Map<Uuid, OmicronZonesView>) -> Map<Uuid, ZonesView> {
    found.map_values(
        |f: OmicronZonesView|
            ZonesView { generation: f.generation, zones: in_service(f.zones) },
    )
}

impl Blueprint {
    /// Summarize the difference between sleds and zones between two
    /// blueprints.
    ///
    /// The argument provided is the "before" side, and `self` is the "after"
    /// side. This matches the order of arguments to
    /// [`Blueprint::diff_since_collection`].
    pub fn diff_since_blueprint(&self, before: &Blueprint) -> (r: Result<
        BlueprintDiff,
        BlueprintDiffError,
    >)
        ensures
            diff_result(
                r,
                BeforeView::Blueprint(before@.metadata),
                before@.zones,
                self@.metadata,
                self@.zones,
            ),
    {
        BlueprintDiff::new(
            DiffBeforeMetadata::Blueprint(Box::new(before.metadata())),
            &before.blueprint_zones,
            self.metadata(),
            &self.blueprint_zones,
        )
    }

    /// Summarize the differences in sleds and zones between a collection and a
    /// blueprint.
    ///
    /// This gives an idea about what would change about a running system if
    /// one were to execute the blueprint.
    ///
    /// Note that collections do not hold zone dispositions, so it is assumed
    /// that all zones in the collection are in service.
    pub fn diff_since_collection(&self, before: &Collection) -> (r: Result<
        BlueprintDiff,
        BlueprintDiffError,
    >)
        ensures
            diff_result(
                r,
                (BeforeView::Collection { id: before.id }),
                found_in_service(zones_found(before.omicron_zones@)),
                self@.metadata,
                self@.zones,
            ),
    {
        let ghost found = zones_found(before.omicron_zones@);
        let ids = ids_in_order(&before.omicron_zones);
        let mut before_zones: BTreeMap<Uuid, BlueprintZonesConfig> = BTreeMap::new();
        let mut i: usize = 0;
        while i < ids.len()
            invariant
                i <= ids.len(),
                found == zones_found(before.omicron_zones@),
                forall|k: u128| ids@.contains(k) <==> before.omicron_zones@.contains_key(k),
                forall|id: Uuid| #[trigger]
                    before_zones@.contains_key(id) <==> ids@.take(i as int).contains(id),
                forall|id: Uuid| #[trigger]
                    before_zones@.contains_key(id) ==> before_zones@[id]@ == found_in_service(
                        found,
                    )[id],
            decreases ids.len() - i,
        {
            let sled_id = ids[i];
            assert(ids@.contains(sled_id));
            proof {
                assert(ids@.take(i + 1) =~= ids@.take(i as int).push(sled_id));
                lemma_push_contains(ids@.take(i as int), sled_id);
            }
            if let Some(zones_found) = get(&before.omicron_zones, sled_id) {
                let zones = BlueprintZonesConfig {
                    generation: zones_found.zones.generation,
                    zones: zones_in_service(&zones_found.zones.zones),
                };
                put(&mut before_zones, sled_id, zones);
            }
            i = i + 1;
        }
        proof {
            assert(ids@.take(ids.len() as int) =~= ids@);
            assert(zones_by_sled(before_zones@) =~= found_in_service(found));
        }
        BlueprintDiff::new(
            DiffBeforeMetadata::Collection { id: before.id },
            &before_zones,
            self.metadata(),
            &self.blueprint_zones,
        )
    }
}

} // verus!
