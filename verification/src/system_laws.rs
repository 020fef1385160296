//! What holds of simulated systems.

use vstd::prelude::*;

use crate::deployment::{resources_by_sled, Blueprint, Generation, SledResourcesView};
use crate::deployment_laws::law_commissioned_sleds;
use crate::description::{hardware_of, DuplicateSled, Sled, SledHwInventory};
use crate::diff_laws::lemma_filter_split;
use crate::inventory::Collection;
use crate::net::ranges_text;
use crate::ordered::{id_numbers, in_key_order, sorted_ids};
use crate::registry::{has_key, keys_differ, with_entry};
use crate::sort::views;
use crate::system::{
    comma_or_none, duplicate_warnings, first_of_each, first_with_id, generation_texts, id_texts,
    ids_of_entries, is_loaded_example, known_sleds, loaded_sled, loaded_sleds,
    no_inventory_warning, unknown_sled_warnings, BuilderView, DnsConfigParams, DnsConfigZone,
    ExampleSystem, Identified, LoadResultView, LoadSerializedSystemResult, LogView,
    SimSystemLogEntry, SystemView, UnstableReconfiguratorState,
};
use crate::text::{decimal, join, uuid_text, Uuid};
use crate::time::Timestamp;

verus! {

// ---
// Adding objects
// ---

/// What was added under a new id is what is found there, and what was found
/// under other ids is still found.
pub proof fn law_get_after_add<T>(entries: Seq<(Uuid, T)>, id: Uuid, value: T)
    requires
        keys_differ(entries),
        !has_key(entries, id),
    ensures
        keys_differ(entries.push((id, value))),
        has_key(entries.push((id, value)), id),
        forall|v: T| #[trigger] entries.push((id, value)).contains((id, v)) <==> v == value,
        forall|other: Uuid, v: T|
            other != id ==> (#[trigger] entries.push((id, value)).contains((other, v))
                <==> entries.contains((other, v))),
{
    let all = entries.push((id, value));
    assert(all[entries.len() as int] == (id, value));
    assert forall|v: T| #[trigger] all.contains((id, v)) <==> v == value by {
        if all.contains((id, v)) {
            let i = choose|i: int| 0 <= i < all.len() && all[i] == (id, v);
            if i < entries.len() {
                assert(entries[i].0 == id);
            }
        }
    }
    assert forall|other: Uuid, v: T| other != id implies (#[trigger] all.contains((other, v))
        <==> entries.contains((other, v))) by {
        if all.contains((other, v)) {
            let i = choose|i: int| 0 <= i < all.len() && all[i] == (other, v);
            assert(entries[i] == (other, v));
        }
        if entries.contains((other, v)) {
            let i = choose|i: int| 0 <= i < entries.len() && entries[i] == (other, v);
            assert(all[i] == (other, v));
        }
    }
    assert forall|i: int, j: int|
        #![trigger all[i], all[j]]
        0 <= i < j < all.len() implies all[i].0 != all[j].0 by {
        assert(all[i] == entries[i]);
        if j < entries.len() {
            assert(all[j] == entries[j]);
        }
    }
}

/// A system that a collection or a blueprint was added to is not empty, so that
/// nothing can be loaded into it.
pub proof fn law_not_empty_after_add(system: SystemView)
    requires
        system.collections.len() > 0 || system.blueprints.len() > 0,
    ensures
        !system.is_empty(),
{
}

// ---
// Loading serialized states
// ---

/// Of the objects in a list, the first one under each id is loaded, and each of
/// the others is warned about.
pub proof fn law_each_id_is_loaded_once<T: Identified>(list: Seq<T>, kind: Seq<char>)
    ensures
        keys_differ(first_of_each(list)),
        forall|i: int|
            0 <= i < list.len() ==> has_key(first_of_each(list), (#[trigger] list[i]).id_of()),
        forall|i: int|
            0 <= i < first_of_each(list).len() ==> {
                let (id, value) = #[trigger] first_of_each(list)[i];
                value.id_of() == id && list.contains(value)
            },
        first_of_each(list).len() + duplicate_warnings(list, kind).len() == list.len(),
    decreases list.len(),
{
    if list.len() > 0 {
        let (front, last) = (list.drop_last(), list.last());
        let (before, after) = (first_of_each(front), first_of_each(list));
        law_each_id_is_loaded_once(front, kind);
        assert(list[list.len() - 1] == last);
        assert forall|v: T| #[trigger] front.contains(v) implies list.contains(v) by {
            let k = choose|k: int| 0 <= k < front.len() && front[k] == v;
            assert(list[k] == v);
        }
        if !has_key(before, last.id_of()) {
            law_get_after_add(before, last.id_of(), last);
            assert(after == before.push((last.id_of(), last)));
            assert(after[before.len() as int] == (last.id_of(), last));
        }
        assert forall|i: int| 0 <= i < list.len() implies has_key(
            after,
            (#[trigger] list[i]).id_of(),
        ) by {
            if i < front.len() {
                assert(list[i] == front[i]);
                let k = choose|k: int|
                    0 <= k < before.len() && (#[trigger] before[k]).0 == front[i].id_of();
                assert(after[k] == before[k]);
            }
        }
        assert forall|i: int| 0 <= i < after.len() implies ({
            let (id, value) = #[trigger] after[i];
            value.id_of() == id && list.contains(value)
        }) by {
            if i < before.len() {
                assert(after[i] == before[i]);
                assert(front.contains(before[i].1));
            }
        }
    }
}

/// Objects whose ids all differ are all loaded, in their order and without a
/// warning.
pub proof fn law_distinct_ids_are_all_loaded<T: Identified>(list: Seq<T>, kind: Seq<char>)
    requires
        forall|i: int, j: int|
            #![trigger list[i], list[j]]
            0 <= i < j < list.len() ==> list[i].id_of() != list[j].id_of(),
    ensures
        first_of_each(list) == list.map_values(|t: T| (t.id_of(), t)),
        duplicate_warnings(list, kind).len() == 0,
    decreases list.len(),
{
    let tag = |t: T| (t.id_of(), t);
    if list.len() == 0 {
        assert(list.map_values(tag) =~= Seq::empty());
    } else {
        let (front, last) = (list.drop_last(), list.last());
        assert forall|i: int, j: int|
            #![trigger front[i], front[j]]
            0 <= i < j < front.len() implies front[i].id_of() != front[j].id_of() by {
            assert(front[i] == list[i] && front[j] == list[j]);
        }
        law_distinct_ids_are_all_loaded(front, kind);
        assert(!has_key(first_of_each(front), last.id_of())) by {
            if has_key(first_of_each(front), last.id_of()) {
                let k = choose|k: int|
                    0 <= k < front.len() && (#[trigger] first_of_each(front)[k]).0 == last.id_of();
                assert(first_of_each(front)[k] == tag(front[k]));
                assert(front[k] == list[k] && last == list[list.len() - 1]);
            }
        }
        assert(list.map_values(tag) =~= front.map_values(tag).push(tag(last)));
    }
}

/// The primary collection that a state is loaded by is among the collections
/// that are loaded.
pub proof fn law_primary_collection_is_loaded(state: UnstableReconfiguratorState, id: Uuid)
    requires
        first_with_id(state.collections@, id) is Some,
    ensures
        ({
            let primary = first_with_id(state.collections@, id)->0;
            &&& primary.id == id
            &&& has_key(state.loaded_system(primary).collections, id)
            &&& !state.loaded_system(primary).is_empty()
        }),
{
    let list = state.collections@;
    lemma_first_with_id_is_there(list, id);
    let k = choose|k: int| 0 <= k < list.len() && (#[trigger] list[k]).id == id;
    law_each_id_is_loaded_once(list, Seq::empty());
    assert(list[k].id_of() == id);
    assert(has_key(first_of_each(list), list[k].id_of()));
}

proof fn lemma_first_with_id_is_there(list: Seq<Collection>, id: Uuid)
    requires
        first_with_id(list, id) is Some,
    ensures
        first_with_id(list, id)->0.id == id,
        exists|k: int| 0 <= k < list.len() && (#[trigger] list[k]).id == id,
    decreases list.len(),
{
    if list[0].id != id {
        let rest = list.drop_first();
        lemma_first_with_id_is_there(rest, id);
        let k = choose|k: int| 0 <= k < rest.len() && (#[trigger] rest[k]).id == id;
        assert(list[k + 1].id == id);
    }
}

/// Of the sleds in a list, those that the primary collection knows are loaded,
/// and each of the others is warned about.
pub proof fn law_each_sled_is_loaded_or_warned_about(
    list: Seq<(Uuid, SledResourcesView)>,
    primary: Collection,
    id: Uuid,
)
    ensures
        known_sleds(list, primary).len() + unknown_sled_warnings(list, primary).len() == list.len(),
        loaded_sleds(list, primary).contains_key(id) <==> has_key(list, id)
            && primary.sled_agents@.contains_key(id),
    decreases list.len(),
{
    let known = |p: (Uuid, SledResourcesView)| primary.sled_agents@.contains_key(p.0);
    let unknown = |p: (Uuid, SledResourcesView)| !primary.sled_agents@.contains_key(p.0);
    if list.len() > 0 {
        let (front, last) = (list.drop_last(), list.last());
        law_each_sled_is_loaded_or_warned_about(front, primary, id);
        assert(list[list.len() - 1] == last);
        if has_key(front, id) {
            let k = choose|k: int| 0 <= k < front.len() && (#[trigger] front[k]).0 == id;
            assert(list[k].0 == id);
        }
        if has_key(list, id) && last.0 != id {
            let k = choose|k: int| 0 <= k < list.len() && (#[trigger] list[k]).0 == id;
            assert(front[k].0 == id);
        }
    }
    lemma_filter_split(list, known, arbitrary());
    assert(unknown =~= (|p: (Uuid, SledResourcesView)| !known(p)));
}

/// The ranges of the service IP pool are loaded whole, into the description of the
/// system, and are the ones that are told of.
pub proof fn law_service_ip_ranges_are_loaded(
    state: UnstableReconfiguratorState,
    primary: Collection,
)
    ensures
        state.loaded_system(primary).description.service_ip_pool_ranges
            == state.policy.service_ip_pool_ranges@,
        state.load_result(primary).service_ip_pool_ranges
            == state.policy.service_ip_pool_ranges@,
{
}

/// The DNS configurations are loaded as they are, each under its generation: the
/// internal ones as internal, and the external ones as external.
pub proof fn law_dns_is_loaded(
    state: UnstableReconfiguratorState,
    primary: Collection,
    generation: Generation,
)
    ensures
        ({
            let loaded = state.loaded_system(primary);
            &&& loaded.internal_dns.contains_key(generation)
                <==> state.internal_dns@.contains_key(generation)
            &&& loaded.external_dns.contains_key(generation)
                <==> state.external_dns@.contains_key(generation)
            &&& state.internal_dns@.contains_key(generation) ==> loaded.internal_dns[generation]
                == *state.internal_dns@[generation]
            &&& state.external_dns@.contains_key(generation) ==> loaded.external_dns[generation]
                == *state.external_dns@[generation]
        }),
{
}

/// What is told to be loaded is what the system then holds: its sleds, collections,
/// blueprints and DNS generations.
pub proof fn law_what_is_told_was_loaded(
    state: UnstableReconfiguratorState,
    primary: Collection,
    id: Uuid,
    generation: Generation,
)
    requires
        in_key_order(state.internal_dns@),
        in_key_order(state.external_dns@),
    ensures
        ({
            let loaded = state.loaded_system(primary);
            let told = state.load_result(primary);
            &&& told.primary_collection_id == primary.id
            &&& forall|i: int|
                0 <= i < told.collection_ids.len() ==> #[trigger] told.collection_ids[i]
                    == loaded.collections[i].0
            &&& forall|i: int|
                0 <= i < told.blueprint_ids.len() ==> #[trigger] told.blueprint_ids[i]
                    == loaded.blueprints[i].0
            &&& told.sled_ids.contains(id) <==> loaded.description.sleds.contains_key(id)
            &&& told.collection_ids.contains(id) <==> has_key(loaded.collections, id)
            &&& told.collection_ids.len() == loaded.collections.len()
            &&& told.blueprint_ids.contains(id) <==> has_key(loaded.blueprints, id)
            &&& told.blueprint_ids.len() == loaded.blueprints.len()
            &&& told.internal_dns_generations.contains(generation)
                <==> loaded.internal_dns.contains_key(generation)
            &&& told.external_dns_generations.contains(generation)
                <==> loaded.external_dns.contains_key(generation)
        }),
{
    let list = state.commissioned();
    let known = |p: (Uuid, SledResourcesView)| primary.sled_agents@.contains_key(p.0);
    let kept = known_sleds(list, primary);
    law_each_sled_is_loaded_or_warned_about(list, primary, id);
    let ids = ids_of_entries(kept);
    if ids.contains(id) {
        let i = choose|i: int| 0 <= i < ids.len() && ids[i] == id;
        assert(kept[i].0 == id);
        lemma_filter_split(list, known, kept[i]);
        assert(kept.contains(kept[i]));
        let k = choose|k: int| 0 <= k < list.len() && list[k] == kept[i];
        assert(list[k].0 == id);
    }
    if has_key(list, id) && primary.sled_agents@.contains_key(id) {
        let k = choose|k: int| 0 <= k < list.len() && (#[trigger] list[k]).0 == id;
        lemma_filter_split(list, known, list[k]);
        assert(list.contains(list[k]));
        let i = choose|i: int| 0 <= i < kept.len() && kept[i] == list[k];
        assert(ids[i] == id);
    }
    lemma_ids_of_entries(first_of_each(state.collections@), id);
    lemma_ids_of_entries(first_of_each(state.blueprints@), id);
}

proof fn lemma_ids_of_entries<T>(entries: Seq<(Uuid, T)>, id: Uuid)
    ensures
        ids_of_entries(entries).contains(id) <==> has_key(entries, id),
        ids_of_entries(entries).len() == entries.len(),
{
    let ids = ids_of_entries(entries);
    if ids.contains(id) {
        let i = choose|i: int| 0 <= i < ids.len() && ids[i] == id;
        assert(entries[i].0 == id);
    }
    if has_key(entries, id) {
        let i = choose|i: int| 0 <= i < entries.len() && (#[trigger] entries[i]).0 == id;
        assert(ids[i] == id);
    }
}

/// A sled is loaded just where the policy has it, it was not decommissioned, and the
/// primary collection knows its agent. It is loaded with the policy, state and
/// resources that it has there, and with what the primary collection found of it.
pub proof fn law_which_sleds_are_loaded(
    state: UnstableReconfiguratorState,
    primary: Collection,
    id: Uuid,
)
    requires
        in_key_order(resources_by_sled(state.policy.sleds@)),
    ensures
        ({
            let sleds = state.loaded_system(primary).description.sleds;
            let (given, agents) = (state.policy.sleds@, primary.sled_agents@);
            &&& sleds.contains_key(id) <==> given.contains_key(id) && given[id].state is Active
                && agents.contains_key(id)
            &&& sleds.contains_key(id) ==> {
                &&& sleds[id].policy == given[id].policy
                &&& sleds[id].state == given[id].state
                &&& sleds[id].resources == given[id]@
                &&& sleds[id].inventory_sled_agent == agents[id]@
                &&& sleds[id].inventory_sp == hardware_of(
                    agents[id]@,
                    views(primary.sps@),
                    views(primary.rots@),
                )
            }
        }),
{
    let by_sled = resources_by_sled(state.policy.sleds@);
    let list = state.commissioned();
    law_each_sled_is_loaded_or_warned_about(list, primary, id);
    if by_sled.contains_key(id) {
        law_commissioned_sleds(by_sled, id, by_sled[id]);
    }
    if has_key(list, id) {
        let k = choose|k: int| 0 <= k < list.len() && (#[trigger] list[k]).0 == id;
        law_commissioned_sleds(by_sled, id, list[k].1);
        assert(list[k] == (id, list[k].1));
        assert(list.contains(list[k]));
        if primary.sled_agents@.contains_key(id) {
            assert forall|i: int, j: int|
                #![trigger list[i], list[j]]
                0 <= i < j < list.len() implies list[i].0 != list[j].0 by {}
            lemma_loaded_as_listed(list, primary, k);
        }
    }
    if by_sled.contains_key(id) && by_sled[id].state is Active {
        let k = choose|k: int| 0 <= k < list.len() && list[k] == (id, by_sled[id]);
        assert(list[k].0 == id);
    }
}

/// Where the sleds of a list have different ids, each that the primary collection
/// knows is loaded with the resources that it is listed with.
proof fn lemma_loaded_as_listed(
    list: Seq<(Uuid, SledResourcesView)>,
    primary: Collection,
    k: int,
)
    requires
        0 <= k < list.len(),
        primary.sled_agents@.contains_key(list[k].0),
        forall|i: int, j: int|
            #![trigger list[i], list[j]]
            0 <= i < j < list.len() ==> list[i].0 != list[j].0,
    ensures
        loaded_sleds(list, primary)[list[k].0] == loaded_sled(list[k].0, list[k].1, primary),
    decreases list.len(),
{
    let front = list.drop_last();
    if k < front.len() {
        assert forall|i: int, j: int|
            #![trigger front[i], front[j]]
            0 <= i < j < front.len() implies front[i].0 != front[j].0 by {
            assert(list[i].0 != list[j].0);
        }
        assert(front[k] == list[k]);
        lemma_loaded_as_listed(front, primary, k);
        assert(list[k].0 != list[list.len() - 1].0);
    }
}

/// The policies, states and resources that a loaded sled is given are its own, and
/// the sleds under other ids do not change where one more is listed.
pub proof fn law_one_more_sled_leaves_the_others(
    list: Seq<(Uuid, SledResourcesView)>,
    primary: Collection,
    sled: (Uuid, SledResourcesView),
    other: Uuid,
)
    requires
        other != sled.0,
    ensures
        ({
            let (before, after) = (
                loaded_sleds(list, primary),
                loaded_sleds(list.push(sled), primary),
            );
            &&& after.contains_key(other) <==> before.contains_key(other)
            &&& after.contains_key(other) ==> after[other] == before[other]
        }),
{
    assert(list.push(sled).drop_last() =~= list);
}

/// Everything in the state is loaded or warned about: each commissioned sled, each
/// collection and each blueprint is told of just once.
pub proof fn law_loaded_or_warned_about(state: UnstableReconfiguratorState, primary: Collection)
    ensures
        state.load_result(primary).sled_ids.len() + state.load_result(primary).collection_ids.len()
            + state.load_result(primary).blueprint_ids.len() + state.load_warnings(primary).len()
            == state.commissioned().len() + state.collections@.len() + state.blueprints@.len(),
{
    law_each_sled_is_loaded_or_warned_about(state.commissioned(), primary, 0);
    law_each_id_is_loaded_once(state.collections@, "collection "@);
    law_each_id_is_loaded_once(state.blueprints@, "blueprint "@);
}

/// Of the objects with one id it is the first in the list that is loaded.
pub proof fn law_the_first_is_loaded<T: Identified>(list: Seq<T>, i: int)
    requires
        0 <= i < list.len(),
    ensures
        first_of_each(list).contains((list[i].id_of(), list[i])) || exists|j: int|
            0 <= j < i && (#[trigger] list[j]).id_of() == list[i].id_of(),
        (forall|j: int| 0 <= j < i ==> (#[trigger] list[j]).id_of() != list[i].id_of())
            ==> first_of_each(list).contains((list[i].id_of(), list[i])),
    decreases list.len(),
{
    let (front, last) = (list.drop_last(), list.last());
    let (before, after) = (first_of_each(front), first_of_each(list));
    if i < front.len() {
        law_the_first_is_loaded(front, i);
        assert(front[i] == list[i]);
        if forall|j: int| 0 <= j < i ==> (#[trigger] list[j]).id_of() != list[i].id_of() {
            assert forall|j: int| 0 <= j < i implies (#[trigger] front[j]).id_of()
                != front[i].id_of() by {
                assert(list[j] == front[j]);
            }
            let k = choose|k: int|
                0 <= k < before.len() && before[k] == (list[i].id_of(), list[i]);
            assert(after[k] == before[k]);
        }
    } else {
        if !has_key(before, last.id_of()) {
            assert(after[before.len() as int] == (last.id_of(), last));
        } else {
            law_each_id_is_loaded_once(front, Seq::empty());
            let k = choose|k: int| 0 <= k < before.len() && (#[trigger] before[k]).0 == last.id_of();
            assert(front.contains(before[k].1));
            let j = choose|j: int| 0 <= j < front.len() && front[j] == before[k].1;
            assert(list[j].id_of() == list[i].id_of());
        }
    }
}

/// One more object is loaded last where its id is new, and is otherwise warned
/// about by its kind and its id.
pub proof fn law_one_more_object<T: Identified>(list: Seq<T>, more: T, kind: Seq<char>)
    ensures
        ({
            let (id, all) = (more.id_of(), list.push(more));
            if exists|i: int| 0 <= i < list.len() && (#[trigger] list[i]).id_of() == id {
                &&& first_of_each(all) == first_of_each(list)
                &&& duplicate_warnings(all, kind) == duplicate_warnings(list, kind).push(
                    kind + uuid_text(id) + ": skipped (duplicate found)"@,
                )
            } else {
                &&& first_of_each(all) == first_of_each(list).push((id, more))
                &&& duplicate_warnings(all, kind) == duplicate_warnings(list, kind)
            }
        }),
{
    let all = list.push(more);
    let id = more.id_of();
    assert(all.drop_last() =~= list);
    assert(all.last() == more);
    law_each_id_is_loaded_once(list, kind);
    let there = first_of_each(list);
    if exists|i: int| 0 <= i < list.len() && (#[trigger] list[i]).id_of() == id {
        let i = choose|i: int| 0 <= i < list.len() && (#[trigger] list[i]).id_of() == id;
        assert(has_key(there, list[i].id_of()));
    } else if has_key(there, id) {
        let k = choose|k: int| 0 <= k < there.len() && (#[trigger] there[k]).0 == id;
        assert(list.contains(there[k].1));
        let j = choose|j: int| 0 <= j < list.len() && list[j] == there[k].1;
        assert(list[j].id_of() == id);
    }
}

/// The warnings come in the order in which the state is loaded: those for the sleds,
/// those for collections, and those for blueprints.
pub proof fn law_order_of_warnings(state: UnstableReconfiguratorState, primary: Collection)
    ensures
        ({
            let all = state.load_warnings(primary);
            let sleds = unknown_sled_warnings(state.commissioned(), primary);
            let collections = duplicate_warnings(state.collections@, "collection "@);
            &&& all.take(sleds.len() as int) == sleds
            &&& all.skip(sleds.len() as int).take(collections.len() as int) == collections
            &&& all.skip((sleds.len() + collections.len()) as int) == duplicate_warnings(
                state.blueprints@,
                "blueprint "@,
            )
        }),
{
    let all = state.load_warnings(primary);
    let sleds = unknown_sled_warnings(state.commissioned(), primary);
    let collections = duplicate_warnings(state.collections@, "collection "@);
    assert(all.take(sleds.len() as int) =~= sleds);
    assert(all.skip(sleds.len() as int).take(collections.len() as int) =~= collections);
    assert(all.skip((sleds.len() + collections.len()) as int) =~= duplicate_warnings(
        state.blueprints@,
        "blueprint "@,
    ));
}

/// A sled that the primary collection does not know is warned about by its own id,
/// with the id of that collection.
pub proof fn law_unknown_sled_is_warned_about(
    list: Seq<(Uuid, SledResourcesView)>,
    primary: Collection,
    sled: (Uuid, SledResourcesView),
)
    ensures
        ({
            let (before, after) = (
                unknown_sled_warnings(list, primary),
                unknown_sled_warnings(list.push(sled), primary),
            );
            if primary.sled_agents@.contains_key(sled.0) {
                after == before
            } else {
                after == before.push(
                    "sled "@ + uuid_text(sled.0)
                        + ": skipped (no inventory found for sled agent in collection "@
                        + uuid_text(primary.id),
                )
            }
        }),
{
    let unknown = |p: (Uuid, SledResourcesView)| !primary.sled_agents@.contains_key(p.0);
    let warning = |p: (Uuid, SledResourcesView)| no_inventory_warning(p.0, primary.id);
    list.lemma_filter_push(sled, unknown);
    let kept = list.filter(unknown);
    assert(kept.push(sled).map_values(warning) =~= kept.map_values(warning).push(warning(sled)));
}

/// The primary collection is the first in the list with its id, and there is none
/// just where no collection has it.
pub proof fn law_primary_collection_is_the_first(list: Seq<Collection>, id: Uuid)
    ensures
        match first_with_id(list, id) {
            Some(c) => exists|i: int|
                {
                    &&& 0 <= i < list.len()
                    &&& #[trigger] list[i] == c
                    &&& c.id == id
                    &&& forall|j: int| 0 <= j < i ==> (#[trigger] list[j]).id != id
                },
            None => forall|i: int| 0 <= i < list.len() ==> (#[trigger] list[i]).id != id,
        },
    decreases list.len(),
{
    if list.len() > 0 {
        let rest = list.drop_first();
        law_primary_collection_is_the_first(rest, id);
        if list[0].id != id {
            match first_with_id(rest, id) {
                Some(c) => {
                    let i = choose|i: int|
                        {
                            &&& 0 <= i < rest.len()
                            &&& #[trigger] rest[i] == c
                            &&& c.id == id
                            &&& forall|j: int| 0 <= j < i ==> (#[trigger] rest[j]).id != id
                        };
                    assert(list[i + 1] == c);
                    assert forall|j: int| 0 <= j < i + 1 implies (#[trigger] list[j]).id
                        != id by {
                        if j > 0 {
                            assert(list[j] == rest[j - 1]);
                        }
                    }
                },
                None => {
                    assert forall|j: int| 0 <= j < list.len() implies (#[trigger] list[j]).id
                        != id by {
                        if j > 0 {
                            assert(list[j] == rest[j - 1]);
                        }
                    }
                },
            }
        } else {
            assert(list[0] == list[0]);
        }
    }
}

/// The text of what was loaded tells each list on a line of its own.
pub proof fn law_text_of_what_was_loaded(told: LoadResultView)
    ensures
        told.text() == "using collection "@ + uuid_text(told.primary_collection_id)
            + " as source of sled inventory data\n"@ + ("loaded sleds: "@ + comma_or_none(
            id_texts(told.sled_ids),
        ) + "\n"@) + ("loaded collections: "@ + comma_or_none(id_texts(told.collection_ids))
            + "\n"@) + ("loaded blueprints: "@ + comma_or_none(id_texts(told.blueprint_ids))
            + "\n"@) + ("loaded service IP pool ranges: "@ + ranges_text(
            told.service_ip_pool_ranges,
        ) + "\n"@) + ("loaded internal DNS generations: "@ + comma_or_none(
            generation_texts(told.internal_dns_generations),
        ) + "\n"@) + ("loaded external DNS generations: "@ + comma_or_none(
            generation_texts(told.external_dns_generations),
        ) + "\n"@),
{
    assert(told.text() =~= "using collection "@ + uuid_text(told.primary_collection_id)
        + " as source of sled inventory data\n"@ + ("loaded sleds: "@ + comma_or_none(
        id_texts(told.sled_ids),
    ) + "\n"@) + ("loaded collections: "@ + comma_or_none(id_texts(told.collection_ids)) + "\n"@)
        + ("loaded blueprints: "@ + comma_or_none(id_texts(told.blueprint_ids)) + "\n"@) + (
    "loaded service IP pool ranges: "@ + ranges_text(told.service_ip_pool_ranges) + "\n"@) + (
    "loaded internal DNS generations: "@ + comma_or_none(
        generation_texts(told.internal_dns_generations),
    ) + "\n"@) + ("loaded external DNS generations: "@ + comma_or_none(
        generation_texts(told.external_dns_generations),
    ) + "\n"@));
}

/// A list is told by a word where it is empty, and is otherwise its entries with a
/// comma and a blank between each two.
pub proof fn law_lists_are_told_with_commas(parts: Seq<Seq<char>>, more: Seq<char>)
    ensures
        comma_or_none(Seq::empty()) == "(none)"@,
        comma_or_none(seq![more]) == more,
        parts.len() > 0 ==> comma_or_none(parts.push(more)) == comma_or_none(parts) + ", "@ + more,
{
    reveal_with_fuel(join, 2);
    assert(parts.push(more).drop_last() =~= parts);
}

/// Ids and generations are told each by its own text, in their order.
pub proof fn law_ids_are_told_in_order(ids: Seq<Uuid>, generations: Seq<Generation>, i: int)
    ensures
        id_texts(ids).len() == ids.len(),
        0 <= i < ids.len() ==> id_texts(ids)[i] == uuid_text(ids[i]),
        generation_texts(generations).len() == generations.len(),
        0 <= i < generations.len() ==> generation_texts(generations)[i] == decimal(
            generations[i] as nat,
        ),
{
}

/// A result stands for what its fields hold, and so does a log entry.
pub proof fn law_what_is_told_stands_for_itself(
    told: LoadSerializedSystemResult,
    entry: SimSystemLogEntry,
)
    ensures
        told@.primary_collection_id == told.primary_collection_id,
        told@.sled_ids == told.sled_ids@,
        told@.collection_ids == told.collection_ids@,
        told@.blueprint_ids == told.blueprint_ids@,
        told@.service_ip_pool_ranges == told.service_ip_pool_ranges@,
        told@.internal_dns_generations == told.internal_dns_generations@,
        told@.external_dns_generations == told.external_dns_generations@,
        match entry {
            SimSystemLogEntry::LoadExample {
                collection_id,
                blueprint_id,
                internal_dns_version,
                external_dns_version,
            } => {
                &&& entry@ is LoadExample
                &&& entry@->collection_id == collection_id
                &&& entry@->blueprint_id == blueprint_id
                &&& entry@->internal_dns_version == internal_dns_version
                &&& entry@->external_dns_version == external_dns_version
            },
            SimSystemLogEntry::LoadSerialized(res) => entry@ == LogView::LoadSerialized(res@),
            SimSystemLogEntry::AddCollection(id) => entry@ == LogView::AddCollection(id),
            SimSystemLogEntry::AddBlueprint(id) => entry@ == LogView::AddBlueprint(id),
            SimSystemLogEntry::AddInternalDns(g) => entry@ == LogView::AddInternalDns(g),
            SimSystemLogEntry::AddExternalDns(g) => entry@ == LogView::AddExternalDns(g),
            SimSystemLogEntry::Wipe => entry@ is Wipe,
        },
{
}

// ---
// Loading examples, and what was done
// ---

/// A loaded example holds its collection, its two blueprints, and one DNS zone of
/// each kind under the version that the second blueprint tells.
pub proof fn law_what_an_example_holds(
    system: SystemView,
    example: ExampleSystem,
    blueprint: Blueprint,
    internal_dns: DnsConfigZone,
    internal_time: Timestamp,
    external_dns: DnsConfigZone,
    external_time: Timestamp,
    generation: Generation,
)
    requires
        is_loaded_example(
            system,
            example,
            blueprint,
            internal_dns,
            internal_time,
            external_dns,
            external_time,
        ),
    ensures
        system.description == example.system@,
        system.collections == seq![(example.collection.id, example.collection)],
        system.blueprints.len() > 0,
        system.blueprints.last() == (blueprint.id, blueprint),
        blueprint.id != example.initial_blueprint.id ==> system.blueprints == seq![
            (example.initial_blueprint.id, example.initial_blueprint),
            (blueprint.id, blueprint),
        ],
        system.internal_dns.contains_key(generation) <==> generation
            == blueprint.internal_dns_version,
        system.external_dns.contains_key(generation) <==> generation
            == blueprint.external_dns_version,
        ({
            let config = system.internal_dns[blueprint.internal_dns_version];
            &&& config.generation == blueprint.internal_dns_version
            &&& config.time_created == internal_time
            &&& config.zones@ == seq![internal_dns]
        }),
        ({
            let config = system.external_dns[blueprint.external_dns_version];
            &&& config.generation == blueprint.external_dns_version
            &&& config.time_created == external_time
            &&& config.zones@ == seq![external_dns]
        }),
{
    let first = seq![(example.initial_blueprint.id, example.initial_blueprint)];
    assert(first[0].0 == example.initial_blueprint.id);
    if blueprint.id == example.initial_blueprint.id {
        assert(has_key(first, blueprint.id));
    } else {
        assert(!has_key(first, blueprint.id));
        assert(system.blueprints =~= seq![
            (example.initial_blueprint.id, example.initial_blueprint),
            (blueprint.id, blueprint),
        ]);
    }
}

/// What is done to a system is told by one more entry at the end of the log, and the
/// entries before stay.
pub proof fn law_log_grows_by_one(
    builder: BuilderView,
    system: SystemView,
    entry: LogView,
    i: int,
)
    ensures
        builder.after(system, entry).system == system,
        builder.after(system, entry).log.len() == builder.log.len() + 1,
        builder.after(system, entry).log.last() == entry,
        0 <= i < builder.log.len() ==> builder.after(system, entry).log[i] == builder.log[i],
{
}

/// A system is empty just where it has no sled, no collection, no blueprint and no
/// DNS configuration.
pub proof fn law_what_makes_a_system_empty(system: SystemView)
    ensures
        system.is_empty() <==> {
            &&& forall|id: Uuid| !(#[trigger] system.description.sleds.contains_key(id))
            &&& system.collections.len() == 0
            &&& system.blueprints.len() == 0
            &&& forall|g: Generation| !(#[trigger] system.internal_dns.contains_key(g))
            &&& forall|g: Generation| !(#[trigger] system.external_dns.contains_key(g))
        },
{
    let none = Map::<Generation, DnsConfigParams>::empty();
    if forall|g: Generation| !(#[trigger] system.internal_dns.contains_key(g)) {
        assert(system.internal_dns =~= none);
    }
    if forall|g: Generation| !(#[trigger] system.external_dns.contains_key(g)) {
        assert(system.external_dns =~= none);
    }
}

/// What was found of a sled, and of its hardware, stands for what its fields hold.
pub proof fn law_sleds_stand_for_themselves(sled: Sled, hw: SledHwInventory)
    ensures
        sled@.policy == sled.policy,
        sled@.state == sled.state,
        sled@.resources == sled.resources@,
        sled@.inventory_sp is Some <==> sled.inventory_sp is Some,
        sled.inventory_sp is Some ==> sled@.inventory_sp->0 == sled.inventory_sp->0@,
        sled@.inventory_sled_agent == sled.inventory_sled_agent@,
        hw@.baseboard_id == hw.baseboard_id@,
        hw@.sp == hw.sp@,
        hw@.rot == hw.rot@,
{
}

/// The text of the error for a sled that is there twice names the sled.
pub proof fn law_duplicate_sled_is_named(e: DuplicateSled)
    ensures
        e.text() == "attempted to add sled with the same id as an existing one: "@ + uuid_text(
            e.sled_id,
        ),
{
}

/// A value that is put under an id is found there, and those under other ids stay
/// where they were.
pub proof fn law_entry_under_an_id<T>(
    entries: Seq<(Uuid, T)>,
    id: Uuid,
    value: T,
    other: Uuid,
    found: T,
)
    requires
        other != id,
    ensures
        with_entry(entries, id, value).contains((id, value)),
        with_entry(entries, id, value).contains((other, found)) <==> entries.contains(
            (other, found),
        ),
        has_key(entries, id) ==> with_entry(entries, id, value).len() == entries.len(),
        !has_key(entries, id) ==> with_entry(entries, id, value) == entries.push((id, value)),
        forall|i: int|
            0 <= i < entries.len() ==> (#[trigger] with_entry(entries, id, value)[i]).0
                == entries[i].0,
{
    let after = with_entry(entries, id, value);
    if has_key(entries, id) {
        let i = choose|i: int| 0 <= i < entries.len() && (#[trigger] entries[i]).0 == id;
        assert(after[i] == (id, value));
    } else {
        assert(after[entries.len() as int] == (id, value));
    }
    if after.contains((other, found)) {
        let i = choose|i: int| 0 <= i < after.len() && after[i] == (other, found);
        assert(entries[i] == (other, found));
    }
    if entries.contains((other, found)) {
        let i = choose|i: int| 0 <= i < entries.len() && entries[i] == (other, found);
        assert(after[i] == (other, found));
    }
}

/// Objects are known by their own ids.
pub proof fn law_ids_of_objects(collection: Collection, blueprint: Blueprint)
    ensures
        collection.id_of() == collection.id,
        blueprint.id_of() == blueprint.id,
{
}

/// One more sled is known just where the primary collection knows its agent, and then
/// comes last.
pub proof fn law_one_more_known_sled(
    list: Seq<(Uuid, SledResourcesView)>,
    primary: Collection,
    sled: (Uuid, SledResourcesView),
)
    ensures
        known_sleds(Seq::empty(), primary).len() == 0,
        primary.sled_agents@.contains_key(sled.0) ==> known_sleds(list.push(sled), primary)
            == known_sleds(list, primary).push(sled),
        !primary.sled_agents@.contains_key(sled.0) ==> known_sleds(list.push(sled), primary)
            == known_sleds(list, primary),
{
    let known = |p: (Uuid, SledResourcesView)| primary.sled_agents@.contains_key(p.0);
    list.lemma_filter_push(sled, known);
    reveal(Seq::filter);
}

/// The generations of DNS configurations are told smallest first.
pub proof fn law_generations_are_told_in_order(
    state: UnstableReconfiguratorState,
    primary: Collection,
    i: int,
    j: int,
)
    requires
        in_key_order(state.internal_dns@),
        in_key_order(state.external_dns@),
        0 <= i < j,
    ensures
        ({
            let told = state.load_result(primary);
            &&& j < told.internal_dns_generations.len() ==> told.internal_dns_generations[i]
                < told.internal_dns_generations[j]
            &&& j < told.external_dns_generations.len() ==> told.external_dns_generations[i]
                < told.external_dns_generations[j]
        }),
{
    let (a, b) = (sorted_ids(state.internal_dns@), sorted_ids(state.external_dns@));
    if j < a.len() {
        assert(id_numbers(a)[i] < id_numbers(a)[j]);
    }
    if j < b.len() {
        assert(id_numbers(b)[i] < id_numbers(b)[j]);
    }
}

} // verus!
