//! What holds of policies, of zones and of what blueprints list.

use vstd::prelude::*;
use vstd::std_specs::cmp::PartialEqSpec;

use crate::blueprint_diff::{CommonView, DiffZoneCommon};
use crate::deployment::{
    blueprint_display_id, configs_of_sleds, in_service, matching_configs, matching_sleds,
    pair_views, zone_key, zones_of_sleds, Blueprint, BlueprintMetadata, BlueprintZoneConfig,
    BlueprintZoneDisposition, BlueprintZoneFilter, BlueprintZonesConfig, OmicronZoneConfig,
    OmicronZoneType, OmicronZonesConfig,
    SledFilter, SledResources, SledResourcesView, ZoneConfigView, ZoneKind, ZoneView, ZonesView,
};
use crate::description::hardware_of;
use crate::diff_laws::{lemma_contains_push, lemma_filter_split};
use crate::inventory::{
    details_of, zones_found, BaseboardId, BaseboardView, HardwareFound, HardwareView,
    OmicronZonesFound, SledAgent, SledAgentView,
};
use crate::ordered::{id_numbers, in_key_order, listed, sorted_ids, MapKey};
use crate::sort::{inserted, key_before, lemma_sorted, sorted, views, Keyed};
use crate::text::{texts, uuid_text, Uuid};

verus! {

// ---
// Filters
// ---

/// Quiesced zones are deployed and sent firewall rules, but are not in internal
/// DNS, and zones in service are all of these.
pub proof fn law_which_zones_match(d: BlueprintZoneDisposition, filter: BlueprintZoneFilter)
    ensures
        filter is All ==> d.matching(filter),
        filter is SledAgentPut ==> d.matching(filter),
        filter is VpcFirewall ==> d.matching(filter),
        filter is InternalDns ==> (d.matching(filter) <==> d is InService),
{
}

/// The sleds that were not decommissioned are listed, and only they: each with its
/// own resources, and by ascending ids.
pub proof fn law_commissioned_sleds(
    sleds: Map<Uuid, SledResourcesView>,
    id: Uuid,
    resources: SledResourcesView,
)
    requires
        in_key_order(sleds),
    ensures
        ({
            let list = matching_sleds(listed(sleds), SledFilter::Commissioned);
            &&& list.contains((id, resources)) <==> sleds.contains_key(id) && sleds[id]
                == resources && resources.state is Active
            &&& forall|i: int, j: int|
                #![trigger list[i], list[j]]
                0 <= i < j < list.len() ==> list[i].0 < list[j].0
        }),
{
    let all = listed(sleds);
    let ids = sorted_ids(sleds);
    let pred = |p: (Uuid, SledResourcesView)| p.1.state is Active;
    let given = |p: (Uuid, SledResourcesView)| SledFilter::Commissioned.matching(p.1.state);
    assert(given =~= pred);
    let list = matching_sleds(all, SledFilter::Commissioned);
    assert(list == all.filter(pred));
    lemma_filter_split(all, pred, (id, resources));
    assert(all.contains((id, resources)) <==> sleds.contains_key(id) && sleds[id]
        == resources) by {
        if all.contains((id, resources)) {
            let i = choose|i: int| 0 <= i < all.len() && all[i] == (id, resources);
            assert(ids[i] == id);
            assert(ids.contains(id));
        }
        if sleds.contains_key(id) && sleds[id] == resources {
            assert(ids.contains(id));
            let i = choose|i: int| 0 <= i < ids.len() && ids[i] == id;
            assert(all[i] == (id, resources));
        }
    }
    let ordered = |a: (Uuid, SledResourcesView), b: (Uuid, SledResourcesView)| a.0 < b.0;
    assert forall|i: int, j: int|
        #![trigger all[i], all[j]]
        0 <= i < j < all.len() implies ordered(all[i], all[j]) by {
        assert(id_numbers(ids)[i] < id_numbers(ids)[j]);
    }
    lemma_filter_order(all, pred, ordered);
    assert forall|i: int, j: int|
        #![trigger list[i], list[j]]
        0 <= i < j < list.len() implies list[i].0 < list[j].0 by {
        assert(ordered(list[i], list[j]));
    }
}

proof fn lemma_filter_order<T>(
    list: Seq<T>,
    pred: spec_fn(T) -> bool,
    ordered: spec_fn(T, T) -> bool,
)
    requires
        forall|i: int, j: int|
            #![trigger list[i], list[j]]
            0 <= i < j < list.len() ==> ordered(list[i], list[j]),
    ensures
        forall|i: int, j: int|
            #![trigger list.filter(pred)[i], list.filter(pred)[j]]
            0 <= i < j < list.filter(pred).len() ==> ordered(
                list.filter(pred)[i],
                list.filter(pred)[j],
            ),
    decreases list.len(),
{
    if list.len() == 0 {
        reveal(Seq::filter);
    } else {
        let (init, last) = (list.drop_last(), list.last());
        assert forall|i: int, j: int|
            #![trigger init[i], init[j]]
            0 <= i < j < init.len() implies ordered(init[i], init[j]) by {
            assert(ordered(list[i], list[j]));
        }
        lemma_filter_order(init, pred, ordered);
        assert(list =~= init.push(last));
        init.lemma_filter_push(last, pred);
        let (a, b) = (init.filter(pred), list.filter(pred));
        assert forall|i: int, j: int| #![trigger b[i], b[j]] 0 <= i < j < b.len() implies ordered(
            b[i],
            b[j],
        ) by {
            assert(b[i] == a[i]);
            if j < a.len() {
                assert(b[j] == a[j]);
            } else {
                lemma_filter_split(init, pred, a[i]);
                assert(a.contains(a[i]));
                let k = choose|k: int| 0 <= k < init.len() && init[k] == a[i];
                assert(list[k] == a[i] && list[list.len() - 1] == last);
            }
        }
    }
}

/// What is exported of the zones of a sled under a filter are the configurations of
/// those that match it, in their order: all of them, or those in service where the
/// filter is that for internal DNS.
pub proof fn law_exported_zones(zones: Seq<ZoneView>, filter: BlueprintZoneFilter)
    ensures
        filter is InternalDns ==> matching_configs(zones, filter) == zones.filter(
            |z: ZoneView| z.disposition is InService,
        ).map_values(|z: ZoneView| z.config),
        !(filter is InternalDns) ==> matching_configs(zones, filter) == zones.map_values(
            |z: ZoneView| z.config,
        ),
{
    let given = |z: ZoneView| z.disposition.matching(filter);
    if filter is InternalDns {
        assert(given =~= |z: ZoneView| z.disposition is InService);
    } else {
        lemma_keep_all(zones, given);
    }
}

pub proof fn lemma_keep_all<T>(list: Seq<T>, pred: spec_fn(T) -> bool)
    requires
        forall|t: T| #[trigger] pred(t),
    ensures
        list.filter(pred) == list,
    decreases list.len(),
{
    if list.len() == 0 {
        reveal(Seq::filter);
        assert(list.filter(pred) =~= list);
    } else {
        let (init, last) = (list.drop_last(), list.last());
        lemma_keep_all(init, pred);
        assert(list =~= init.push(last));
        init.lemma_filter_push(last, pred);
        assert(pred(last));
    }
}

/// The zones of a collection are taken to be in service, each with its whole
/// configuration, and in their order.
pub proof fn law_collected_zones_are_in_service(zones: Seq<ZoneConfigView>, i: int)
    ensures
        in_service(zones).len() == zones.len(),
        0 <= i < zones.len() ==> in_service(zones)[i].config == zones[i] && in_service(
            zones,
        )[i].disposition is InService,
{
}

// ---
// Zones of sleds
// ---

/// The zones of one sled come in their order, each with the id of the sled: all of
/// them, or those in service where the filter is that for internal DNS.
pub proof fn law_zones_of_one_sled(
    id: Uuid,
    zones: Map<Uuid, ZonesView>,
    filter: BlueprintZoneFilter,
)
    ensures
        filter is InternalDns ==> zones_of_sleds(seq![id], zones, filter)
            == zones[id].zones.filter(|z: ZoneView| z.disposition is InService).map_values(
            |z: ZoneView| (id, z),
        ),
        !(filter is InternalDns) ==> zones_of_sleds(seq![id], zones, filter)
            == zones[id].zones.map_values(|z: ZoneView| (id, z)),
        configs_of_sleds(seq![id], zones) == zones[id].zones.map_values(
            |z: ZoneView| (id, z.config),
        ),
{
    reveal_with_fuel(zones_of_sleds, 2);
    reveal_with_fuel(configs_of_sleds, 2);
    let ids = seq![id];
    assert(ids.drop_last() =~= Seq::<Uuid>::empty());
    assert(zones_of_sleds(ids.drop_last(), zones, filter).len() == 0);
    assert(configs_of_sleds(ids.drop_last(), zones).len() == 0);
    let given = |z: ZoneView| z.disposition.matching(filter);
    let tag = |z: ZoneView| (id, z);
    assert(zones_of_sleds(ids, zones, filter) =~= zones[id].zones.filter(given).map_values(tag));
    assert(configs_of_sleds(ids, zones) =~= zones[id].zones.map_values(
        |z: ZoneView| (id, z.config),
    ));
    if filter is InternalDns {
        assert(given =~= |z: ZoneView| z.disposition is InService);
    } else {
        lemma_keep_all(zones[id].zones, given);
    }
}

/// The zones of some sleds and then of others are listed one after the other.
pub proof fn law_zones_of_more_sleds(
    first: Seq<Uuid>,
    second: Seq<Uuid>,
    zones: Map<Uuid, ZonesView>,
    filter: BlueprintZoneFilter,
)
    ensures
        zones_of_sleds(first + second, zones, filter) == zones_of_sleds(first, zones, filter)
            + zones_of_sleds(second, zones, filter),
        configs_of_sleds(first + second, zones) == configs_of_sleds(first, zones)
            + configs_of_sleds(second, zones),
    decreases second.len(),
{
    let all = first + second;
    if second.len() == 0 {
        assert(all =~= first);
        assert(zones_of_sleds(all, zones, filter) =~= zones_of_sleds(first, zones, filter)
            + zones_of_sleds(second, zones, filter));
        assert(configs_of_sleds(all, zones) =~= configs_of_sleds(first, zones) + configs_of_sleds(
            second,
            zones,
        ));
    } else {
        law_zones_of_more_sleds(first, second.drop_last(), zones, filter);
        assert(all.drop_last() =~= first + second.drop_last());
        assert(all.last() == second.last());
        assert(zones_of_sleds(all, zones, filter) =~= zones_of_sleds(first, zones, filter)
            + zones_of_sleds(second, zones, filter));
        assert(configs_of_sleds(all, zones) =~= configs_of_sleds(first, zones) + configs_of_sleds(
            second,
            zones,
        ));
    }
}

/// A zone is listed for a sled just where the sled is one of those asked for and
/// has the zone, unless it is quiesced and the filter is that for internal DNS.
pub proof fn law_listed_zones(
    ids: Seq<Uuid>,
    zones: Map<Uuid, ZonesView>,
    filter: BlueprintZoneFilter,
    id: Uuid,
    zone: ZoneView,
)
    ensures
        zones_of_sleds(ids, zones, filter).contains((id, zone)) <==> ids.contains(id)
            && zones[id].zones.contains(zone) && (zone.disposition is InService || !(
        filter is InternalDns)),
    decreases ids.len(),
{
    let all = zones_of_sleds(ids, zones, filter);
    if ids.len() == 0 {
        assert(all.len() == 0);
    } else {
        let (init, last) = (ids.drop_last(), ids.last());
        law_listed_zones(init, zones, filter, id, zone);
        let given = |z: ZoneView| z.disposition.matching(filter);
        let tag = |z: ZoneView| (last, z);
        let before = zones_of_sleds(init, zones, filter);
        let kept = zones[last].zones.filter(given);
        let more = kept.map_values(tag);
        assert(all == before + more);
        lemma_filter_split(zones[last].zones, given, zone);
        assert(ids =~= init.push(last));
        lemma_contains_push(init, last, id);
        if more.contains((id, zone)) {
            let i = choose|i: int| 0 <= i < more.len() && more[i] == (id, zone);
            assert(kept[i] == zone);
            assert(kept.contains(zone));
        }
        if id == last && kept.contains(zone) {
            let i = choose|i: int| 0 <= i < kept.len() && kept[i] == zone;
            assert(more[i] == (id, zone));
            assert(all[before.len() + i] == (id, zone));
        }
        if before.contains((id, zone)) {
            let i = choose|i: int| 0 <= i < before.len() && before[i] == (id, zone);
            assert(all[i] == (id, zone));
        }
        if all.contains((id, zone)) {
            let i = choose|i: int| 0 <= i < all.len() && all[i] == (id, zone);
            if i < before.len() {
                assert(before[i] == (id, zone));
            } else {
                assert(more[i - before.len()] == (id, zone));
            }
        }
    }
}

// ---
// Kinds and dispositions
// ---

/// The names of the kinds of zones.
pub proof fn law_kind_names(kind: ZoneKind)
    ensures
        kind is BoundaryNtp ==> kind.text() == "boundary_ntp"@,
        kind is Clickhouse ==> kind.text() == "clickhouse"@,
        kind is ClickhouseKeeper ==> kind.text() == "clickhouse_keeper"@,
        kind is CockroachDb ==> kind.text() == "cockroach_db"@,
        kind is Crucible ==> kind.text() == "crucible"@,
        kind is CruciblePantry ==> kind.text() == "crucible_pantry"@,
        kind is ExternalDns ==> kind.text() == "external_dns"@,
        kind is InternalDns ==> kind.text() == "internal_dns"@,
        kind is InternalNtp ==> kind.text() == "internal_ntp"@,
        kind is Nexus ==> kind.text() == "nexus"@,
        kind is Oximeter ==> kind.text() == "oximeter"@,
{
}

/// The names of the dispositions, and how a blueprint is named.
pub proof fn law_disposition_names(d: BlueprintZoneDisposition, id: Uuid)
    ensures
        d is InService ==> d.text() == "in service"@,
        d is Quiesced ==> d.text() == "quiesced"@,
        blueprint_display_id(id) == "blueprint "@ + uuid_text(id),
{
}

/// The kinds of zones are ordered by their names.
pub proof fn law_kinds_in_order()
    ensures
        ZoneKind::BoundaryNtp.place() < ZoneKind::Clickhouse.place(),
        ZoneKind::Clickhouse.place() < ZoneKind::ClickhouseKeeper.place(),
        ZoneKind::ClickhouseKeeper.place() < ZoneKind::CockroachDb.place(),
        ZoneKind::CockroachDb.place() < ZoneKind::Crucible.place(),
        ZoneKind::Crucible.place() < ZoneKind::CruciblePantry.place(),
        ZoneKind::CruciblePantry.place() < ZoneKind::ExternalDns.place(),
        ZoneKind::ExternalDns.place() < ZoneKind::InternalDns.place(),
        ZoneKind::InternalDns.place() < ZoneKind::InternalNtp.place(),
        ZoneKind::InternalNtp.place() < ZoneKind::Nexus.place(),
        ZoneKind::Nexus.place() < ZoneKind::Oximeter.place(),
{
}

/// Sorting keeps each zone as often as it was there, and groups zones of the same
/// kind: in the order of the kinds, and among those of one kind by ascending ids.
pub proof fn law_zones_are_sorted(zones: Seq<ZoneView>, i: int, j: int)
    ensures
        ({
            let list = sorted::<BlueprintZoneConfig>(zones);
            let (a, b) = (list[i].config, list[j].config);
            &&& list.len() == zones.len()
            &&& list.to_multiset() == zones.to_multiset()
            &&& 0 <= i < j < zones.len() ==> a.zone_type.kind.place() <= b.zone_type.kind.place()
            &&& 0 <= i < j < zones.len() && a.zone_type.kind == b.zone_type.kind ==> a.id <= b.id
        }),
{
    lemma_sorted::<BlueprintZoneConfig>(zones);
    let list = sorted::<BlueprintZoneConfig>(zones);
    if 0 <= i < j < zones.len() {
        assert(!key_before(
            BlueprintZoneConfig::key_of(list[j]),
            BlueprintZoneConfig::key_of(list[i]),
        ));
    }
}

// ---
// Hardware
// ---

/// What is found for a baseboard are the details of the first entry with both its
/// part number and its serial number, and nothing just where there is none.
pub proof fn law_details_are_of_the_baseboard(list: Seq<HardwareView>, id: BaseboardView)
    ensures
        match details_of(list, id) {
            Some(details) => exists|i: int|
                {
                    &&& 0 <= i < list.len()
                    &&& (#[trigger] list[i]).details == details
                    &&& list[i].baseboard_id.part_number == id.part_number
                    &&& list[i].baseboard_id.serial_number == id.serial_number
                    &&& forall|k: int|
                        0 <= k < i ==> (#[trigger] list[k]).baseboard_id.part_number
                            != id.part_number || list[k].baseboard_id.serial_number
                            != id.serial_number
                },
            None => forall|i: int|
                0 <= i < list.len() ==> (#[trigger] list[i]).baseboard_id.part_number
                    != id.part_number || list[i].baseboard_id.serial_number != id.serial_number,
        },
    decreases list.len(),
{
    if list.len() > 0 {
        let rest = list.drop_first();
        law_details_are_of_the_baseboard(rest, id);
        if list[0].baseboard_id == id {
            assert(list[0].details == list[0].details);
        } else {
            assert(list[0].baseboard_id.part_number != id.part_number
                || list[0].baseboard_id.serial_number != id.serial_number) by {
                if list[0].baseboard_id.part_number == id.part_number
                    && list[0].baseboard_id.serial_number == id.serial_number {
                    assert(list[0].baseboard_id =~= id);
                }
            }
            assert forall|k: int| 1 <= k < list.len() implies #[trigger] list[k] == rest[k
                - 1] by {}
            match details_of(rest, id) {
                Some(details) => {
                    let i = choose|i: int|
                        {
                            &&& 0 <= i < rest.len()
                            &&& (#[trigger] rest[i]).details == details
                            &&& rest[i].baseboard_id.part_number == id.part_number
                            &&& rest[i].baseboard_id.serial_number == id.serial_number
                            &&& forall|k: int|
                                0 <= k < i ==> (#[trigger] rest[k]).baseboard_id.part_number
                                    != id.part_number || rest[k].baseboard_id.serial_number
                                    != id.serial_number
                        };
                    assert(list[i + 1].details == details);
                    assert forall|k: int| 0 <= k < i + 1 implies (
                    #[trigger] list[k]).baseboard_id.part_number != id.part_number
                        || list[k].baseboard_id.serial_number != id.serial_number by {
                        if k > 0 {
                            assert(list[k] == rest[k - 1]);
                        }
                    }
                },
                None => {
                    assert forall|k: int| 0 <= k < list.len() implies (
                    #[trigger] list[k]).baseboard_id.part_number != id.part_number
                        || list[k].baseboard_id.serial_number != id.serial_number by {
                        if k > 0 {
                            assert(list[k] == rest[k - 1]);
                        }
                    }
                },
            }
        }
    }
}

/// The hardware of a sled is told just where its agent names a baseboard of which
/// both a service processor and a root of trust were found, and then by the details
/// of these two.
pub proof fn law_hardware_has_both_parts(
    agent: SledAgentView,
    sps: Seq<HardwareView>,
    rots: Seq<HardwareView>,
)
    ensures
        match hardware_of(agent, sps, rots) {
            Some(hw) => {
                &&& agent.baseboard_id == Some(hw.baseboard_id)
                &&& details_of(sps, hw.baseboard_id) == Some(hw.sp)
                &&& details_of(rots, hw.baseboard_id) == Some(hw.rot)
            },
            None => agent.baseboard_id is None || details_of(sps, agent.baseboard_id->0) is None
                || details_of(rots, agent.baseboard_id->0) is None,
        },
{
}

// ---
// What values stand for
// ---

/// The parts of a zone stand for what their fields hold.
pub proof fn law_zones_stand_for_themselves(
    zone: BlueprintZoneConfig,
    zones: BlueprintZonesConfig,
    found: OmicronZonesConfig,
)
    ensures
        zone@.config.id == zone.config.id,
        zone@.config.underlay_address == zone.config.underlay_address,
        zone@.config.zone_type.kind == zone.config.zone_type.kind,
        zone@.config.zone_type.config == zone.config.zone_type.config@,
        zone@.disposition == zone.disposition,
        zones@.generation == zones.generation,
        zones@.zones == views(zones.zones@),
        found@.generation == found.generation,
        found@.zones == views(found.zones@),
{
}

/// A blueprint, its metadata and the resources of a sled stand for what their fields
/// hold.
pub proof fn law_blueprints_stand_for_themselves(
    b: Blueprint,
    m: BlueprintMetadata,
    s: SledResources,
    sled_id: Uuid,
)
    ensures
        b@.metadata.id == b.id,
        b@.metadata.parent_blueprint_id == b.parent_blueprint_id,
        b@.metadata.internal_dns_version == b.internal_dns_version,
        b@.metadata.external_dns_version == b.external_dns_version,
        b@.metadata.time_created == b.time_created,
        b@.metadata.creator == b.creator@,
        b@.metadata.comment == b.comment@,
        b@.zones.contains_key(sled_id) <==> b.blueprint_zones@.contains_key(sled_id),
        b@.zones.contains_key(sled_id) ==> b@.zones[sled_id] == b.blueprint_zones@[sled_id]@,
        m@.id == m.id,
        m@.parent_blueprint_id == m.parent_blueprint_id,
        m@.internal_dns_version == m.internal_dns_version,
        m@.external_dns_version == m.external_dns_version,
        m@.time_created == m.time_created,
        m@.creator == m.creator@,
        m@.comment == m.comment@,
        s@.policy == s.policy,
        s@.state == s.state,
        s@.zpools == texts(s.zpools@),
        s@.subnet == s.subnet,
{
}

/// What was found of hardware stands for what its fields hold.
pub proof fn law_hardware_stands_for_itself(
    id: BaseboardId,
    found: HardwareFound,
    agent: SledAgent,
    zones: Map<Uuid, OmicronZonesFound>,
    sled_id: Uuid,
)
    ensures
        id@.part_number == id.part_number@,
        id@.serial_number == id.serial_number@,
        found@.baseboard_id == found.baseboard_id@,
        found@.details == found.details@,
        agent@.baseboard_id is Some <==> agent.baseboard_id is Some,
        agent.baseboard_id is Some ==> agent@.baseboard_id->0 == agent.baseboard_id->0@,
        agent@.details == agent.details@,
        zones_found(zones).contains_key(sled_id) <==> zones.contains_key(sled_id),
        zones.contains_key(sled_id) ==> zones_found(zones)[sled_id] == zones[sled_id].zones@,
{
}

/// Two zones are equal where all of their parts are, and so are two lists of zones.
pub proof fn law_equal_zones(a: BlueprintZoneConfig, b: BlueprintZoneConfig)
    ensures
        a.eq_spec(&b) <==> {
            &&& a.config.id == b.config.id
            &&& a.config.underlay_address == b.config.underlay_address
            &&& a.config.zone_type.kind == b.config.zone_type.kind
            &&& a.config.zone_type.config@ == b.config.zone_type.config@
            &&& a.disposition == b.disposition
        },
        BlueprintZoneConfig::obeys_eq_spec(),
        OmicronZoneConfig::obeys_eq_spec(),
        OmicronZoneType::obeys_eq_spec(),
        BlueprintZonesConfig::obeys_eq_spec(),
        a.config.eq_spec(&b.config) <==> a.config@ == b.config@,
        a.config.zone_type.eq_spec(&b.config.zone_type) <==> a.config.zone_type@
            == b.config.zone_type@,
{
    if a.config.id == b.config.id && a.config.underlay_address == b.config.underlay_address
        && a.config.zone_type.kind == b.config.zone_type.kind && a.config.zone_type.config@
        == b.config.zone_type.config@ && a.disposition == b.disposition {
        assert(a@.config.zone_type =~= b@.config.zone_type);
        assert(a@.config =~= b@.config);
        assert(a@ =~= b@);
    }
}

/// Two lists of zones are equal where their generations are, and their zones one by one.
pub proof fn law_equal_lists_of_zones(a: BlueprintZonesConfig, b: BlueprintZonesConfig, i: int)
    requires
        a.eq_spec(&b),
    ensures
        a.generation == b.generation,
        a.zones@.len() == b.zones@.len(),
        0 <= i < a.zones@.len() ==> a.zones@[i]@ == b.zones@[i]@,
{
    assert(a@.zones.len() == a.zones@.len() && b@.zones.len() == b.zones@.len());
    if 0 <= i < a.zones@.len() {
        assert(a@.zones[i] == a.zones@[i]@ && b@.zones[i] == b.zones@[i]@);
    }
}

/// A list stands for what its values stand for, in their order.
pub proof fn law_lists_stand_for_their_values<T: View>(
    list: Seq<T>,
    pairs: Seq<(Uuid, &T)>,
    i: int,
)
    ensures
        views(list).len() == list.len(),
        0 <= i < list.len() ==> views(list)[i] == list[i]@,
        pair_views(pairs).len() == pairs.len(),
        0 <= i < pairs.len() ==> pair_views(pairs)[i] == (pairs[i].0, pairs[i].1@),
{
}

/// The entries of a map are listed by ascending keys, each key with its own value.
pub proof fn law_listed_entries<K: MapKey, V>(map: Map<K, V>, key: K, value: V, i: int, j: int)
    requires
        in_key_order(map),
    ensures
        listed(map).contains((key, value)) <==> map.contains_key(key) && map[key] == value,
        0 <= i < j < listed(map).len() ==> listed(map)[i].0.number() < listed(map)[j].0.number(),
        listed(map).len() == sorted_ids(map).len(),
{
    let (all, ids) = (listed(map), sorted_ids(map));
    if all.contains((key, value)) {
        let k = choose|k: int| 0 <= k < all.len() && all[k] == (key, value);
        assert(ids[k] == key);
        assert(ids.contains(key));
    }
    if map.contains_key(key) && map[key] == value {
        assert(ids.contains(key));
        let k = choose|k: int| 0 <= k < ids.len() && ids[k] == key;
        assert(all[k] == (key, value));
    }
    if 0 <= i < j < all.len() {
        assert(id_numbers(ids)[i] < id_numbers(ids)[j]);
    }
}

/// Keys are ordered by their numbers.
pub proof fn law_numbers_of_keys(a: u64, b: u128)
    ensures
        a.number() == a,
        b.number() == b,
{
}

// ---
// Sorting
// ---

/// A key comes before another by its first part, and by the second where the first
/// parts are the same.
pub proof fn law_order_of_keys(a: (u8, u128), b: (u8, u128))
    ensures
        a.0 < b.0 ==> key_before(a, b),
        a.0 > b.0 ==> !key_before(a, b),
        a.0 == b.0 ==> (key_before(a, b) <==> a.1 < b.1),
{
}

/// Zones are sorted by their kinds and then by their ids.
pub proof fn law_keys_of_zones(zone: ZoneView, common: CommonView)
    ensures
        zone_key(zone) == (zone.config.zone_type.kind.place(), zone.config.id),
        BlueprintZoneConfig::key_of(zone) == zone_key(zone),
        DiffZoneCommon::key_of(common) == zone_key(common.zone_before),
{
}

proof fn lemma_inserted_filter<T: Keyed>(list: Seq<T::V>, value: T::V, key: (u8, u128))
    ensures
        ({
            let same = |v: T::V| T::key_of(v) == key;
            inserted::<T>(list, value).filter(same) == if same(value) {
                seq![value] + list.filter(same)
            } else {
                list.filter(same)
            }
        }),
    decreases list.len(),
{
    let same = |v: T::V| T::key_of(v) == key;
    let one = seq![value];
    assert(one.filter(same) =~= if same(value) {
        one
    } else {
        Seq::empty()
    }) by {
        reveal(Seq::filter);
        reveal_with_fuel(Seq::filter, 2);
        assert(one.drop_last() =~= Seq::empty());
    }
    if list.len() == 0 {
        reveal(Seq::filter);
        assert(inserted::<T>(list, value) =~= one);
        assert(one + list.filter(same) =~= one);
    } else if key_before(T::key_of(list[0]), T::key_of(value)) {
        let (first, rest) = (seq![list[0]], list.drop_first());
        lemma_inserted_filter::<T>(rest, value, key);
        assert(inserted::<T>(list, value) =~= first + inserted::<T>(rest, value));
        assert(list =~= first + rest);
        Seq::filter_distributes_over_add(first, inserted::<T>(rest, value), same);
        Seq::filter_distributes_over_add(first, rest, same);
        assert(first.filter(same) =~= if same(list[0]) {
            first
        } else {
            Seq::empty()
        }) by {
            reveal_with_fuel(Seq::filter, 2);
            assert(first.drop_last() =~= Seq::empty());
        }
        if same(value) {
            assert(!same(list[0]));
            assert(first.filter(same) =~= Seq::empty());
            assert(Seq::<T::V>::empty() + inserted::<T>(rest, value).filter(same) =~= inserted::<T>(
                rest,
                value,
            ).filter(same));
            assert(Seq::<T::V>::empty() + rest.filter(same) =~= rest.filter(same));
        }
    } else {
        assert(inserted::<T>(list, value) =~= one + list);
        Seq::filter_distributes_over_add(one, list, same);
        if !same(value) {
            assert(Seq::<T::V>::empty() + list.filter(same) =~= list.filter(same));
        }
    }
}

/// Sorting keeps the order of values with the same key.
pub proof fn law_sorting_is_stable<T: Keyed>(list: Seq<T::V>, key: (u8, u128))
    ensures
        sorted::<T>(list).filter(|v: T::V| T::key_of(v) == key) == list.filter(
            |v: T::V| T::key_of(v) == key,
        ),
    decreases list.len(),
{
    let same = |v: T::V| T::key_of(v) == key;
    if list.len() == 0 {
        reveal(Seq::filter);
        assert(sorted::<T>(list) =~= list);
    } else {
        let (first, rest) = (seq![list[0]], list.drop_first());
        law_sorting_is_stable::<T>(rest, key);
        lemma_inserted_filter::<T>(sorted::<T>(rest), list[0], key);
        assert(list =~= first + rest);
        Seq::filter_distributes_over_add(first, rest, same);
        assert(first.filter(same) =~= if same(list[0]) {
            first
        } else {
            Seq::empty()
        }) by {
            reveal(Seq::filter);
            reveal_with_fuel(Seq::filter, 2);
            assert(first.drop_last() =~= Seq::empty());
        }
        if !same(list[0]) {
            assert(Seq::<T::V>::empty() + rest.filter(same) =~= rest.filter(same));
        }
    }
}

} // verus!
