//! A simulated reconfigurator system.

use std::collections::BTreeMap;
use std::sync::Arc;

use vstd::prelude::*;

use crate::deployment::{
    matching_sleds, pair_views, resources_by_sled, Blueprint, Generation, Policy, SledFilter,
    SledResourcesView,
};
use crate::description::{
    find_hardware, hardware_of, DescriptionView, SledView, SystemDescription,
};
use crate::inventory::Collection;
use crate::net::{ranges_string, ranges_text, IpRange};
use crate::ordered::{
    entries, get, ids_in_order, in_key_order, lemma_same_ids, listed, put, sorted_ids,
};
use crate::registry::{has_key, keys_differ, with_entry, Registry};
use crate::sort::views;
use crate::text::{
    decimal, decimal_string, join, join_strings, texts, uuid_text, uuid_to_string, Uuid,
};
use crate::time::{utc_now, Timestamp};

verus! {

/// The records of one DNS zone, in their serialized form.
#[derive(Debug)]
pub struct DnsConfigZone {
    pub zone_name: String,
    pub records: String,
}

/// A DNS configuration.
#[derive(Debug)]
pub struct DnsConfigParams {
    pub generation: Generation,
    pub time_created: Timestamp,
    pub zones: Vec<DnsConfigZone>,
}

/// The parts of an example system.
#[derive(Debug)]
pub struct ExampleSystem {
    pub system: SystemDescription,
    pub collection: Collection,
    pub initial_blueprint: Blueprint,
}

/// Encapsulates Reconfigurator state.
///
/// This form is intended for saving state from hand-constructed or real,
/// deployed systems and loading it back into a simulator or test suite.
#[derive(Clone, Debug)]
pub struct UnstableReconfiguratorState {
    pub policy: Policy,
    pub collections: Vec<Collection>,
    pub blueprints: Vec<Blueprint>,
    pub internal_dns: BTreeMap<Generation, Arc<DnsConfigParams>>,
    pub external_dns: BTreeMap<Generation, Arc<DnsConfigParams>>,
    pub silo_names: Vec<String>,
    pub external_dns_zone_names: Vec<String>,
}

/// What an error speaks of.
#[derive(Copy, Clone, Debug, PartialEq, Eq, Structural)]
pub enum ObjectId {
    Collection(Uuid),
    Blueprint(Uuid),
    InternalDns(Generation),
    ExternalDns(Generation),
}

/// There is no such object.
#[derive(Copy, Clone, Debug, PartialEq, Eq, Structural)]
pub struct KeyError {
    pub id: ObjectId,
}

/// There already is such an object.
#[derive(Copy, Clone, Debug, PartialEq, Eq, Structural)]
pub struct DuplicateError {
    pub id: ObjectId,
}

/// The system is not empty.
#[derive(Copy, Clone, Debug, PartialEq, Eq, Structural)]
pub struct NonEmptySystemError {}

/// DNS configurations, by generation.
pub open spec fn dns_by_generation(map: Map<Generation, Arc<DnsConfigParams>>) -> Map<
    Generation,
    DnsConfigParams,
> {
    map.map_values(|p: Arc<DnsConfigParams>| *p)
}

/// A versioned, simulated reconfigurator system.
#[derive(Debug)]
pub struct SimSystem {
    description: SystemDescription,
    collections: Registry<Collection>,
    blueprints: Registry<Blueprint>,
    internal_dns: BTreeMap<Generation, Arc<DnsConfigParams>>,
    external_dns: BTreeMap<Generation, Arc<DnsConfigParams>>,
}

/// What a [`SimSystem`] stands for: the description of its sleds, the
/// collections and blueprints in the order in which they were added, and the
/// DNS configurations by generation.
#[verifier::ext_equal]
pub struct SystemView {
    pub description: DescriptionView,
    pub collections: Seq<(Uuid, Collection)>,
    pub blueprints: Seq<(Uuid, Blueprint)>,
    pub internal_dns: Map<Generation, DnsConfigParams>,
    pub external_dns: Map<Generation, DnsConfigParams>,
}

impl View for SimSystem {
    type V = SystemView;

    closed spec fn view(&self) -> SystemView {
        SystemView {
            description: self.description@,
            collections: self.collections@,
            blueprints: self.blueprints@,
            internal_dns: dns_by_generation(self.internal_dns@),
            external_dns: dns_by_generation(self.external_dns@),
        }
    }
}

impl SystemView {
    /// Whether the system holds nothing.
    pub open spec fn is_empty(self) -> bool {
        &&& !self.description.has_sleds()
        &&& self.collections.len() == 0
        &&& self.blueprints.len() == 0
        &&& self.internal_dns == Map::<Generation, DnsConfigParams>::empty()
        &&& self.external_dns == Map::<Generation, DnsConfigParams>::empty()
    }
}

fn no_dns(map: &BTreeMap<Generation, Arc<DnsConfigParams>>) -> (r: bool)
    ensures
        r == (dns_by_generation(map@) == Map::<Generation, DnsConfigParams>::empty()),
{
    let r = map.is_empty();
    proof {
        if r {
            assert(dns_by_generation(map@) =~= Map::<Generation, DnsConfigParams>::empty());
        } else {
            if dns_by_generation(map@) == Map::<Generation, DnsConfigParams>::empty() {
                assert forall|g: Generation| !map@.dom().contains(g) by {
                    if map@.dom().contains(g) {
                        assert(dns_by_generation(map@).dom().contains(g));
                    }
                }
                assert(map@ =~= Map::empty());
            }
        }
    }
    r
}

/// The configurations of a map, smallest generation first.
fn list_dns(map: &BTreeMap<Generation, Arc<DnsConfigParams>>) -> (r: Vec<&DnsConfigParams>)
    ensures
        in_key_order(dns_by_generation(map@)),
        r.len() == listed(dns_by_generation(map@)).len(),
        forall|i: int|
            0 <= i < r.len() ==> *(#[trigger] r@[i]) == listed(dns_by_generation(map@))[i].1,
{
    let all = entries(map);
    let mut out: Vec<&DnsConfigParams> = Vec::new();
    let mut i: usize = 0;
    proof {
        lemma_same_ids(map@, dns_by_generation(map@));
    }
    while i < all.len()
        invariant
            i <= all.len(),
            in_key_order(dns_by_generation(map@)),
            all.len() == listed(dns_by_generation(map@)).len(),
            sorted_ids(map@) == sorted_ids(
                dns_by_generation(map@),
            ),
            forall|k: int|
                0 <= k < all.len() ==> map@.contains_key((#[trigger] all@[k]).0) && *all@[k].1
                    == map@[all@[k].0] && all@[k].0 == listed(map@)[k].0,
            out.len() == i,
            forall|k: int|
                0 <= k < i ==> *(#[trigger] out@[k]) == listed(dns_by_generation(map@))[k].1,
        decreases all.len() - i,
    {
        let (generation, params) = all[i];
        assert(listed(dns_by_generation(map@))[i as int] == (
            generation,
            dns_by_generation(map@)[generation],
        ));
        out.push(&**params);
        i = i + 1;
    }
    out
}

impl SimSystem {
    /// A system that holds nothing.
    pub fn new() -> (r: Self)
        ensures
            r@.is_empty(),
            r@.description.service_ip_pool_ranges == Seq::<IpRange>::empty(),
    {
        let r = SimSystem {
            description: SystemDescription::new(),
            collections: Registry::new(),
            blueprints: Registry::new(),
            internal_dns: BTreeMap::new(),
            external_dns: BTreeMap::new(),
        };
        proof {
            assert(r@.internal_dns =~= Map::<Generation, DnsConfigParams>::empty());
            assert(r@.external_dns =~= Map::<Generation, DnsConfigParams>::empty());
        }
        r
    }

    /// Whether the system holds nothing.
    pub fn is_empty(&self) -> (r: bool)
        ensures
            r == self@.is_empty(),
    {
        !self.description.has_sleds() && self.collections.is_empty() && self.blueprints.is_empty()
            && no_dns(&self.internal_dns) && no_dns(&self.external_dns)
    }

    /// Describes the sleds in the system.
    pub fn description(&self) -> (r: &SystemDescription)
        ensures
            r@ == self@.description,
    {
        &self.description
    }

    /// The collection under an id.
    pub fn get_collection(&self, id: Uuid) -> (r: Result<&Collection, KeyError>)
        ensures
            match r {
                Ok(c) => self@.collections.contains((id, *c)),
                Err(e) => !has_key(self@.collections, id) && e.id == ObjectId::Collection(id),
            },
            keys_differ(self@.collections),
    {
        match self.collections.get(id) {
            Some(c) => Ok(c),
            None => Err(KeyError { id: ObjectId::Collection(id) }),
        }
    }

    /// The collections, in the order in which they were added.
    pub fn all_collections(&self) -> (r: Vec<&Collection>)
        ensures
            r.len() == self@.collections.len(),
            forall|i: int| 0 <= i < r.len() ==> *(#[trigger] r@[i]) == self@.collections[i].1,
    {
        self.collections.values()
    }

    /// The blueprint under an id.
    pub fn get_blueprint(&self, id: Uuid) -> (r: Result<&Blueprint, KeyError>)
        ensures
            match r {
                Ok(b) => self@.blueprints.contains((id, *b)),
                Err(e) => !has_key(self@.blueprints, id) && e.id == ObjectId::Blueprint(id),
            },
            keys_differ(self@.blueprints),
    {
        match self.blueprints.get(id) {
            Some(b) => Ok(b),
            None => Err(KeyError { id: ObjectId::Blueprint(id) }),
        }
    }

    /// The blueprints, in the order in which they were added.
    pub fn all_blueprints(&self) -> (r: Vec<&Blueprint>)
        ensures
            r.len() == self@.blueprints.len(),
            forall|i: int| 0 <= i < r.len() ==> *(#[trigger] r@[i]) == self@.blueprints[i].1,
    {
        self.blueprints.values()
    }

    /// The internal DNS configuration of a generation.
    pub fn get_internal_dns(&self, generation: Generation) -> (r: Result<
        &DnsConfigParams,
        KeyError,
    >)
        ensures
            match r {
                Ok(d) => self@.internal_dns.contains_key(generation)
                    && self@.internal_dns[generation] == *d,
                Err(e) => !self@.internal_dns.contains_key(generation) && e.id
                    == ObjectId::InternalDns(generation),
            },
    {
        match get(&self.internal_dns, generation) {
            Some(d) => Ok(&**d),
            None => Err(KeyError { id: ObjectId::InternalDns(generation) }),
        }
    }

    /// The internal DNS configurations, smallest generation first.
    pub fn all_internal_dns(&self) -> (r: Vec<&DnsConfigParams>)
        ensures
            in_key_order(self@.internal_dns),
            r.len() == listed(self@.internal_dns).len(),
            forall|i: int|
                0 <= i < r.len() ==> *(#[trigger] r@[i]) == listed(self@.internal_dns)[i].1,
    {
        list_dns(&self.internal_dns)
    }

    /// The external DNS configuration of a generation.
    pub fn get_external_dns(&self, generation: Generation) -> (r: Result<
        &DnsConfigParams,
        KeyError,
    >)
        ensures
            match r {
                Ok(d) => self@.external_dns.contains_key(generation)
                    && self@.external_dns[generation] == *d,
                Err(e) => !self@.external_dns.contains_key(generation) && e.id
                    == ObjectId::ExternalDns(generation),
            },
    {
        match get(&self.external_dns, generation) {
            Some(d) => Ok(&**d),
            None => Err(KeyError { id: ObjectId::ExternalDns(generation) }),
        }
    }

    /// The external DNS configurations, smallest generation first.
    pub fn all_external_dns(&self) -> (r: Vec<&DnsConfigParams>)
        ensures
            in_key_order(self@.external_dns),
            r.len() == listed(self@.external_dns).len(),
            forall|i: int|
                0 <= i < r.len() ==> *(#[trigger] r@[i]) == listed(self@.external_dns)[i].1,
    {
        list_dns(&self.external_dns)
    }
}

impl Clone for SimSystem {
    fn clone(&self) -> (r: Self)
        ensures
            r@ == self@,
    {
        SimSystem {
            description: self.description.clone(),
            collections: self.collections.clone(),
            blueprints: self.blueprints.clone(),
            internal_dns: self.internal_dns.clone(),
            external_dns: self.external_dns.clone(),
        }
    }
}

/// The result of loading a serialized system state.
#[derive(Debug)]
#[must_use]
pub struct LoadSerializedSystemResult {
    /// The primary collection ID.
    pub primary_collection_id: Uuid,
    /// The sled IDs successfully loaded.
    pub sled_ids: Vec<Uuid>,
    /// The collection IDs successfully loaded.
    pub collection_ids: Vec<Uuid>,
    /// The blueprint IDs successfully loaded.
    pub blueprint_ids: Vec<Uuid>,
    /// The service IP pool ranges.
    pub service_ip_pool_ranges: Vec<IpRange>,
    /// Internal DNS generations.
    pub internal_dns_generations: Vec<Generation>,
    /// External DNS generations.
    pub external_dns_generations: Vec<Generation>,
}

/// What a [`LoadSerializedSystemResult`] stands for.
#[verifier::ext_equal]
pub struct LoadResultView {
    pub primary_collection_id: Uuid,
    pub sled_ids: Seq<Uuid>,
    pub collection_ids: Seq<Uuid>,
    pub blueprint_ids: Seq<Uuid>,
    pub service_ip_pool_ranges: Seq<IpRange>,
    pub internal_dns_generations: Seq<Generation>,
    pub external_dns_generations: Seq<Generation>,
}

impl View for LoadSerializedSystemResult {
    type V = LoadResultView;

    open spec fn view(&self) -> LoadResultView {
        LoadResultView {
            primary_collection_id: self.primary_collection_id,
            sled_ids: self.sled_ids@,
            collection_ids: self.collection_ids@,
            blueprint_ids: self.blueprint_ids@,
            service_ip_pool_ranges: self.service_ip_pool_ranges@,
            internal_dns_generations: self.internal_dns_generations@,
            external_dns_generations: self.external_dns_generations@,
        }
    }
}

impl Clone for LoadSerializedSystemResult {
    fn clone(&self) -> (r: Self)
        ensures
            r@ == self@,
    {
        let r = LoadSerializedSystemResult {
            primary_collection_id: self.primary_collection_id,
            sled_ids: self.sled_ids.clone(),
            collection_ids: self.collection_ids.clone(),
            blueprint_ids: self.blueprint_ids.clone(),
            service_ip_pool_ranges: self.service_ip_pool_ranges.clone(),
            internal_dns_generations: self.internal_dns_generations.clone(),
            external_dns_generations: self.external_dns_generations.clone(),
        };
        proof {
            assert(r.sled_ids@ =~= self.sled_ids@);
            assert(r.collection_ids@ =~= self.collection_ids@);
            assert(r.blueprint_ids@ =~= self.blueprint_ids@);
            assert(r.service_ip_pool_ranges@ =~= self.service_ip_pool_ranges@);
            assert(r.internal_dns_generations@ =~= self.internal_dns_generations@);
            assert(r.external_dns_generations@ =~= self.external_dns_generations@);
        }
        r
    }
}

/// The texts with commas between them, or a word for that there are none.
pub open spec fn comma_or_none(parts: Seq<Seq<char>>) -> Seq<char> {
    if parts.len() == 0 {
        "(none)"@
    } else {
        join(parts, ", "@)
    }
}

/// The texts with commas between them, or a word for that there are none.
pub fn join_comma_or_none(parts: &Vec<String>) -> (r: String)
    ensures
        r@ == comma_or_none(texts(parts@)),
{
    if parts.is_empty() {
        "(none)".to_owned()
    } else {
        join_strings(parts, ", ")
    }
}

/// The texts of ids.
pub open spec fn id_texts(ids: Seq<Uuid>) -> Seq<Seq<char>> {
    ids.map_values(|id: Uuid| uuid_text(id))
}

/// The texts of generations.
pub open spec fn generation_texts(generations: Seq<Generation>) -> Seq<Seq<char>> {
    generations.map_values(|g: Generation| decimal(g as nat))
}

fn id_list(ids: &Vec<Uuid>) -> (r: String)
    ensures
        r@ == comma_or_none(id_texts(ids@)),
{
    let mut parts: Vec<String> = Vec::new();
    let mut i: usize = 0;
    while i < ids.len()
        invariant
            i <= ids.len(),
            parts.len() == i,
            forall|k: int| 0 <= k < i ==> (#[trigger] parts@[k])@ == uuid_text(ids@[k]),
        decreases ids.len() - i,
    {
        parts.push(uuid_to_string(ids[i]));
        i = i + 1;
    }
    assert(texts(parts@) =~= id_texts(ids@));
    join_comma_or_none(&parts)
}

fn generation_list(generations: &Vec<Generation>) -> (r: String)
    ensures
        r@ == comma_or_none(generation_texts(generations@)),
{
    let mut parts: Vec<String> = Vec::new();
    let mut i: usize = 0;
    while i < generations.len()
        invariant
            i <= generations.len(),
            parts.len() == i,
            forall|k: int|
                0 <= k < i ==> (#[trigger] parts@[k])@ == decimal(generations@[k] as nat),
        decreases generations.len() - i,
    {
        parts.push(decimal_string(generations[i]));
        i = i + 1;
    }
    assert(texts(parts@) =~= generation_texts(generations@));
    join_comma_or_none(&parts)
}

impl LoadResultView {
    /// The text of the result.
    pub open spec fn text(self) -> Seq<char> {
        "using collection "@ + uuid_text(self.primary_collection_id)
            + " as source of sled inventory data\n"@ + "loaded sleds: "@ + comma_or_none(
            id_texts(self.sled_ids),
        ) + "\n"@ + "loaded collections: "@ + comma_or_none(id_texts(self.collection_ids)) + "\n"@
            + "loaded blueprints: "@ + comma_or_none(id_texts(self.blueprint_ids)) + "\n"@
            + "loaded service IP pool ranges: "@ + ranges_text(self.service_ip_pool_ranges)
            + "\n"@ + "loaded internal DNS generations: "@ + comma_or_none(
            generation_texts(self.internal_dns_generations),
        ) + "\n"@ + "loaded external DNS generations: "@ + comma_or_none(
            generation_texts(self.external_dns_generations),
        ) + "\n"@
    }
}

impl LoadSerializedSystemResult {
    /// Create a new `LoadSerializedSystemResult`.
    pub(crate) fn new(primary_collection_id: Uuid) -> (r: Self)
        ensures
            r@ == (LoadResultView {
                primary_collection_id,
                sled_ids: Seq::empty(),
                collection_ids: Seq::empty(),
                blueprint_ids: Seq::empty(),
                service_ip_pool_ranges: Seq::empty(),
                internal_dns_generations: Seq::empty(),
                external_dns_generations: Seq::empty(),
            }),
    {
        LoadSerializedSystemResult {
            primary_collection_id,
            sled_ids: Vec::new(),
            collection_ids: Vec::new(),
            blueprint_ids: Vec::new(),
            service_ip_pool_ranges: Vec::new(),
            internal_dns_generations: Vec::new(),
            external_dns_generations: Vec::new(),
        }
    }

    /// The text of the result.
    pub fn to_text(&self) -> (r: String)
        ensures
            r@ == self@.text(),
    {
        "using collection ".to_owned().concat(
            uuid_to_string(self.primary_collection_id).as_str(),
        ).concat(" as source of sled inventory data\n").concat("loaded sleds: ").concat(
            id_list(&self.sled_ids).as_str(),
        ).concat("\n").concat("loaded collections: ").concat(
            id_list(&self.collection_ids).as_str(),
        ).concat("\n").concat("loaded blueprints: ").concat(
            id_list(&self.blueprint_ids).as_str(),
        ).concat("\n").concat("loaded service IP pool ranges: ").concat(
            ranges_string(&self.service_ip_pool_ranges).as_str(),
        ).concat("\n").concat("loaded internal DNS generations: ").concat(
            generation_list(&self.internal_dns_generations).as_str(),
        ).concat("\n").concat("loaded external DNS generations: ").concat(
            generation_list(&self.external_dns_generations).as_str(),
        ).concat("\n")
    }
}

/// Collects what is to be told of loading a serialized state.
#[derive(Debug)]
pub struct LoadSerializedResultBuilder {
    pub warnings: Vec<String>,
}

// ---
// What loading a serialized state does
// ---

/// The first collection with an id.
pub open spec fn first_with_id(collections: Seq<Collection>, id: Uuid) -> Option<Collection>
    decreases collections.len(),
{
    if collections.len() == 0 {
        None
    } else if collections[0].id == id {
        Some(collections[0])
    } else {
        first_with_id(collections.drop_first(), id)
    }
}

/// The warning for a sled that the primary collection does not know.
pub open spec fn no_inventory_warning(sled_id: Uuid, collection_id: Uuid) -> Seq<char> {
    "sled "@ + uuid_text(sled_id)
        + ": skipped (no inventory found for sled agent in collection "@ + uuid_text(collection_id)
}

/// The sleds of a list that the primary collection knows.
pub open spec fn known_sleds(list: Seq<(Uuid, SledResourcesView)>, primary: Collection) -> Seq<
    (Uuid, SledResourcesView),
> {
    list.filter(|p: (Uuid, SledResourcesView)| primary.sled_agents@.contains_key(p.0))
}

/// The warnings for the sleds of a list that the primary collection does not
/// know.
pub open spec fn unknown_sled_warnings(
    list: Seq<(Uuid, SledResourcesView)>,
    primary: Collection,
) -> Seq<Seq<char>> {
    list.filter(
        |p: (Uuid, SledResourcesView)| !primary.sled_agents@.contains_key(p.0),
    ).map_values(|p: (Uuid, SledResourcesView)| no_inventory_warning(p.0, primary.id))
}

/// A sled as the policy and the primary collection describe it.
pub open spec fn loaded_sled(
    sled_id: Uuid,
    resources: SledResourcesView,
    primary: Collection,
) -> SledView {
    let agent = primary.sled_agents@[sled_id]@;
    SledView {
        policy: resources.policy,
        state: resources.state,
        resources,
        inventory_sp: hardware_of(agent, views(primary.sps@), views(primary.rots@)),
        inventory_sled_agent: agent,
    }
}

/// The sleds of a list that the primary collection knows, under their ids.
pub open spec fn loaded_sleds(
    list: Seq<(Uuid, SledResourcesView)>,
    primary: Collection,
) -> Map<Uuid, SledView>
    decreases list.len(),
{
    if list.len() == 0 {
        Map::empty()
    } else {
        let rest = loaded_sleds(list.drop_last(), primary);
        let (id, resources) = list.last();
        if primary.sled_agents@.contains_key(id) {
            rest.insert(id, loaded_sled(id, resources, primary))
        } else {
            rest
        }
    }
}

/// An object with an id.
pub trait Identified: Sized {
    /// The id of the object.
    spec fn id_of(self) -> Uuid;
}

impl Identified for Collection {
    open spec fn id_of(self) -> Uuid {
        self.id
    }
}

impl Identified for Blueprint {
    open spec fn id_of(self) -> Uuid {
        self.id
    }
}

/// The objects of a list under their ids, without those whose id was there
/// before.
pub open spec fn first_of_each<T: Identified>(list: Seq<T>) -> Seq<(Uuid, T)>
    decreases list.len(),
{
    if list.len() == 0 {
        Seq::empty()
    } else {
        let rest = first_of_each(list.drop_last());
        if has_key(rest, list.last().id_of()) {
            rest
        } else {
            rest.push((list.last().id_of(), list.last()))
        }
    }
}

/// The ids of entries.
pub open spec fn ids_of_entries<T>(entries: Seq<(Uuid, T)>) -> Seq<Uuid> {
    entries.map_values(|e: (Uuid, T)| e.0)
}

/// The warnings for the objects of a list whose id was there before.
pub open spec fn duplicate_warnings<T: Identified>(list: Seq<T>, kind: Seq<char>) -> Seq<Seq<char>>
    decreases list.len(),
{
    if list.len() == 0 {
        Seq::empty()
    } else {
        let rest = duplicate_warnings(list.drop_last(), kind);
        let id = list.last().id_of();
        if has_key(first_of_each(list.drop_last()), id) {
            rest.push(kind + uuid_text(id) + ": skipped (duplicate found)"@)
        } else {
            rest
        }
    }
}

impl UnstableReconfiguratorState {
    /// The sleds that are loaded: those that have not been decommissioned.
    pub open spec fn commissioned(self) -> Seq<(Uuid, SledResourcesView)> {
        matching_sleds(listed(resources_by_sled(self.policy.sleds@)), SledFilter::Commissioned)
    }

    /// The system that loading this state makes.
    pub open spec fn loaded_system(self, primary: Collection) -> SystemView {
        SystemView {
            description: DescriptionView {
                sleds: loaded_sleds(self.commissioned(), primary),
                service_ip_pool_ranges: self.policy.service_ip_pool_ranges@,
            },
            collections: first_of_each(self.collections@),
            blueprints: first_of_each(self.blueprints@),
            internal_dns: dns_by_generation(self.internal_dns@),
            external_dns: dns_by_generation(self.external_dns@),
        }
    }

    /// What is told of loading this state.
    pub open spec fn load_result(self, primary: Collection) -> LoadResultView {
        LoadResultView {
            primary_collection_id: primary.id,
            sled_ids: ids_of_entries(known_sleds(self.commissioned(), primary)),
            collection_ids: ids_of_entries(first_of_each(self.collections@)),
            blueprint_ids: ids_of_entries(first_of_each(self.blueprints@)),
            service_ip_pool_ranges: self.policy.service_ip_pool_ranges@,
            internal_dns_generations: sorted_ids(self.internal_dns@),
            external_dns_generations: sorted_ids(self.external_dns@),
        }
    }

    /// The warnings that come of loading this state.
    pub open spec fn load_warnings(self, primary: Collection) -> Seq<Seq<char>> {
        unknown_sled_warnings(self.commissioned(), primary) + duplicate_warnings(
            self.collections@,
            "collection "@,
        ) + duplicate_warnings(self.blueprints@, "blueprint "@)
    }
}

fn find_collection(collections: &Vec<Collection>, id: Uuid) -> (r: Option<&Collection>)
    ensures
        match r {
            Some(c) => first_with_id(collections@, id) == Some(*c),
            None => first_with_id(collections@, id) is None,
        },
{
    let mut i: usize = 0;
    assert(collections@.skip(0) =~= collections@);
    while i < collections.len()
        invariant
            i <= collections.len(),
            first_with_id(collections@, id) == first_with_id(collections@.skip(i as int), id),
        decreases collections.len() - i,
    {
        let c = &collections[i];
        assert(collections@.skip(i as int)[0] == *c);
        if c.id == id {
            return Some(c);
        }
        assert(collections@.skip(i as int).drop_first() =~= collections@.skip(i + 1));
        i = i + 1;
    }
    None
}

/// The primary collection has the id it was found by.
proof fn lemma_first_with_id(collections: Seq<Collection>, id: Uuid)
    ensures
        match first_with_id(collections, id) {
            Some(c) => c.id == id && collections.contains(c),
            None => forall|i: int| 0 <= i < collections.len() ==> (#[trigger] collections[i]).id
                != id,
        },
    decreases collections.len(),
{
    if collections.len() > 0 && collections[0].id != id {
        let rest = collections.drop_first();
        lemma_first_with_id(rest, id);
        match first_with_id(collections, id) {
            Some(c) => {
                let i = choose|i: int| 0 <= i < rest.len() && rest[i] == c;
                assert(collections[i + 1] == c);
            },
            None => {
                assert forall|i: int| 0 <= i < collections.len() implies (
                #[trigger] collections[i]).id != id by {
                    if i > 0 {
                        assert(rest[i - 1] == collections[i]);
                    }
                }
            },
        }
    } else if collections.len() > 0 {
        assert(collections[0].id == id);
    }
}

/// The sleds that are loaded are among those of the list.
proof fn lemma_loaded_sleds(list: Seq<(Uuid, SledResourcesView)>, primary: Collection, id: Uuid)
    requires
        loaded_sleds(list, primary).contains_key(id),
    ensures
        exists|i: int| 0 <= i < list.len() && (#[trigger] list[i]).0 == id,
    decreases list.len(),
{
    if list.len() > 0 {
        if list.last().0 != id {
            lemma_loaded_sleds(list.drop_last(), primary, id);
            let i = choose|i: int|
                0 <= i < list.drop_last().len() && (#[trigger] list.drop_last()[i]).0 == id;
            assert(list[i].0 == id);
        } else {
            assert(list[list.len() - 1].0 == id);
        }
    }
}

/// What one more entry adds to a list that is filtered.
proof fn lemma_filter_next<A>(list: Seq<A>, n: int, pred: spec_fn(A) -> bool)
    requires
        0 <= n < list.len(),
    ensures
        list.take(n + 1).filter(pred) == (if pred(list[n]) {
            list.take(n).filter(pred).push(list[n])
        } else {
            list.take(n).filter(pred)
        }),
{
    assert(list.take(n + 1) =~= list.take(n).push(list[n]));
    list.take(n).lemma_filter_push(list[n], pred);
}

/// Loads the sleds of a policy into a description without sleds.
fn load_sleds(
    description: &mut SystemDescription,
    policy: &Policy,
    primary: &Collection,
    warnings: &mut Vec<String>,
) -> (r: Vec<Uuid>)
    requires
        !old(description)@.has_sleds(),
    ensures
        ({
            let list = matching_sleds(
                listed(resources_by_sled(policy.sleds@)),
                SledFilter::Commissioned,
            );
            &&& final(description)@.sleds == loaded_sleds(list, *primary)
            &&& texts(final(warnings)@) == texts(old(warnings)@) + unknown_sled_warnings(
                list,
                *primary,
            )
            &&& r@ == ids_of_entries(known_sleds(list, *primary))
        }),
        final(description)@.service_ip_pool_ranges == old(description)@.service_ip_pool_ranges,
{
    let sleds = policy.all_sleds(SledFilter::Commissioned);
    let mut sled_ids: Vec<Uuid> = Vec::new();
    let mut i: usize = 0;
    let ghost list = pair_views(sleds@);
    let ghost told = texts(warnings@);
    let ghost ranges = description@.service_ip_pool_ranges;
    let ghost known = |p: (Uuid, SledResourcesView)| primary.sled_agents@.contains_key(p.0);
    let ghost unknown = |p: (Uuid, SledResourcesView)| !primary.sled_agents@.contains_key(p.0);
    let ghost id_of = |p: (Uuid, SledResourcesView)| p.0;
    let ghost warning = |p: (Uuid, SledResourcesView)| no_inventory_warning(p.0, primary.id);
    proof {
        assert forall|id: Uuid| !description@.sleds.dom().contains(id) by {
            assert(!description@.sleds.contains_key(id));
        }
        assert(description@.sleds =~= Map::empty());
        assert(loaded_sleds(list.take(0), *primary) =~= Map::empty());
        assert(told =~= told + list.take(0).filter(unknown).map_values(warning));
        assert(sled_ids@ =~= list.take(0).filter(known).map_values(id_of));
    }
    while i < sleds.len()
        invariant
            i <= sleds.len(),
            list == pair_views(sleds@),
            known == (|p: (Uuid, SledResourcesView)| primary.sled_agents@.contains_key(p.0)),
            unknown == (|p: (Uuid, SledResourcesView)| !primary.sled_agents@.contains_key(p.0)),
            id_of == (|p: (Uuid, SledResourcesView)| p.0),
            warning == (|p: (Uuid, SledResourcesView)| no_inventory_warning(p.0, primary.id)),
            forall|a: int, b: int|
                #![trigger sleds@[a], sleds@[b]]
                0 <= a < b < sleds.len() ==> sleds@[a].0 != sleds@[b].0,
            description@.sleds == loaded_sleds(list.take(i as int), *primary),
            description@.service_ip_pool_ranges == ranges,
            texts(warnings@) == told + list.take(i as int).filter(unknown).map_values(warning),
            sled_ids@ == list.take(i as int).filter(known).map_values(id_of),
        decreases sleds.len() - i,
    {
        let (sled_id, sled_details) = sleds[i];
        let ghost warned = texts(warnings@);
        let ghost listed_so_far = sled_ids@;
        proof {
            assert(list[i as int] == (sled_id, sled_details@));
            assert(list.take(i + 1).drop_last() =~= list.take(i as int));
            lemma_filter_next(list, i as int, known);
            lemma_filter_next(list, i as int, unknown);
        }
        match get(&primary.sled_agents, sled_id) {
            None => {
                warnings.push(
                    "sled ".to_owned().concat(uuid_to_string(sled_id).as_str()).concat(
                        ": skipped (no inventory found for sled agent in collection ",
                    ).concat(uuid_to_string(primary.id).as_str()),
                );
                proof {
                    assert(texts(warnings@) =~= warned.push(
                        no_inventory_warning(sled_id, primary.id),
                    ));
                    assert(list.take(i as int).filter(unknown).push(list[i as int]).map_values(
                        warning,
                    ) =~= list.take(i as int).filter(unknown).map_values(warning).push(
                        warning(list[i as int]),
                    ));
                }
            },
            Some(inventory_sled_agent) => {
                let inventory_sp = find_hardware(inventory_sled_agent, &primary.sps, &primary.rots);
                proof {
                    if description@.sleds.contains_key(sled_id) {
                        lemma_loaded_sleds(list.take(i as int), *primary, sled_id);
                        let k = choose|k: int|
                            0 <= k < list.take(i as int).len() && (#[trigger] list.take(
                                i as int,
                            )[k]).0 == sled_id;
                        assert(sleds@[k].0 == sleds@[i as int].0);
                    }
                }
                let result = description.sled_full(
                    sled_id,
                    sled_details.policy,
                    sled_details.state,
                    sled_details.clone(),
                    inventory_sp,
                    inventory_sled_agent,
                );
                match result {
                    Ok(_) => {
                        sled_ids.push(sled_id);
                        assert(list.take(i as int).filter(known).push(list[i as int]).map_values(
                            id_of,
                        ) =~= listed_so_far.push(sled_id));
                    },
                    Err(error) => {
                        warnings.push(
                            "sled ".to_owned().concat(uuid_to_string(sled_id).as_str()).concat(
                                ": ",
                            ).concat(error.to_text().as_str()),
                        );
                    },
                }
            },
        }
        i = i + 1;
    }
    proof {
        assert(list.take(sleds.len() as int) =~= list);
        assert(sled_ids@ == ids_of_entries(known_sleds(list, *primary)));
    }
    sled_ids
}

/// Inner structure for system building.
///
/// This is mostly to ensure a clean separation between the public API which
/// adds log entries, and internal methods which don't.
#[derive(Clone, Debug)]
struct SimSystemBuilderInner {
    system: SimSystem,
}

/// Whether this is a DNS configuration with one zone.
pub open spec fn is_dns_config(
    params: DnsConfigParams,
    generation: Generation,
    time_created: Timestamp,
    zone: DnsConfigZone,
) -> bool {
    &&& params.generation == generation
    &&& params.time_created == time_created
    &&& params.zones@ == seq![zone]
}

/// Whether this is the system that loading an example makes.
pub open spec fn is_loaded_example(
    system: SystemView,
    example: ExampleSystem,
    blueprint: Blueprint,
    internal_dns: DnsConfigZone,
    internal_time: Timestamp,
    external_dns: DnsConfigZone,
    external_time: Timestamp,
) -> bool {
    &&& system.description == example.system@
    &&& system.collections == seq![(example.collection.id, example.collection)]
    &&& system.blueprints == with_entry(
        seq![(example.initial_blueprint.id, example.initial_blueprint)],
        blueprint.id,
        blueprint,
    )
    &&& system.internal_dns.dom() == set![blueprint.internal_dns_version]
    &&& is_dns_config(
        system.internal_dns[blueprint.internal_dns_version],
        blueprint.internal_dns_version,
        internal_time,
        internal_dns,
    )
    &&& system.external_dns.dom() == set![blueprint.external_dns_version]
    &&& is_dns_config(
        system.external_dns[blueprint.external_dns_version],
        blueprint.external_dns_version,
        external_time,
        external_dns,
    )
}

impl SimSystemBuilderInner {
    // This method MUST be infallible. It should only be called after checking
    // the invariant: the system must be empty.
    fn load_example_inner(
        &mut self,
        example: ExampleSystem,
        blueprint: Blueprint,
        internal_dns: DnsConfigZone,
        internal_time: Timestamp,
        external_dns: DnsConfigZone,
        external_time: Timestamp,
    )
        requires
            old(self).system@.is_empty(),
        ensures
            is_loaded_example(
                final(self).system@,
                example,
                blueprint,
                internal_dns,
                internal_time,
                external_dns,
                external_time,
            ),
    {
        let ghost whole = example;
        let ExampleSystem { system, collection, initial_blueprint } = example;
        let internal_version = blueprint.internal_dns_version;
        let external_version = blueprint.external_dns_version;
        let blueprint_id = blueprint.id;
        let initial_id = initial_blueprint.id;
        let collection_id = collection.id;
        self.system.description = system;
        self.system.collections.insert(collection_id, Arc::new(collection));
        let internal = DnsConfigParams {
            generation: internal_version,
            time_created: internal_time,
            zones: vec![internal_dns],
        };
        put(&mut self.system.internal_dns, internal_version, Arc::new(internal));
        let external = DnsConfigParams {
            generation: external_version,
            time_created: external_time,
            zones: vec![external_dns],
        };
        put(&mut self.system.external_dns, external_version, Arc::new(external));
        self.system.blueprints.insert(initial_id, Arc::new(initial_blueprint));
        self.system.blueprints.insert(blueprint_id, Arc::new(blueprint));
        proof {
            assert(old(self).system@.internal_dns.dom() =~= Set::empty());
            assert(old(self).system@.external_dns.dom() =~= Set::empty());
            assert forall|g: Generation| !old(self).system.internal_dns@.dom().contains(g) by {
                if old(self).system.internal_dns@.dom().contains(g) {
                    assert(old(self).system@.internal_dns.dom().contains(g));
                }
            }
            assert forall|g: Generation| !old(self).system.external_dns@.dom().contains(g) by {
                if old(self).system.external_dns@.dom().contains(g) {
                    assert(old(self).system@.external_dns.dom().contains(g));
                }
            }
            assert(internal.zones@ =~= seq![internal_dns]);
            assert(external.zones@ =~= seq![external_dns]);
            assert(self.system@.internal_dns.dom() =~= set![internal_version]);
            assert(self.system@.external_dns.dom() =~= set![external_version]);
            assert(self.system@.collections =~= seq![(collection_id, whole.collection)]);
            assert(old(self).system@.blueprints =~= Seq::<(Uuid, Blueprint)>::empty());
            assert(with_entry(
                Seq::<(Uuid, Blueprint)>::empty(),
                initial_id,
                whole.initial_blueprint,
            ) =~= seq![(initial_id, whole.initial_blueprint)]);
        }
    }

    /// Loads collections, and tells of those that were left out.
    fn load_collections(&mut self, collections: Vec<Collection>, warnings: &mut Vec<String>) -> (r:
        Vec<Uuid>)
        requires
            old(self).system@.collections.len() == 0,
        ensures
            final(self).system@ == (SystemView {
                collections: first_of_each(collections@),
                ..old(self).system@
            }),
            r@ == ids_of_entries(first_of_each(collections@)),
            texts(final(warnings)@) == texts(old(warnings)@) + duplicate_warnings(
                collections@,
                "collection "@,
            ),
    {
        let mut ids: Vec<Uuid> = Vec::new();
        let ghost all = collections@;
        let ghost told = texts(warnings@);
        proof {
            assert(self.system@.collections =~= first_of_each(all.take(0)));
            assert(ids@ =~= ids_of_entries(first_of_each(all.take(0))));
            assert(told =~= told + duplicate_warnings(all.take(0), "collection "@));
        }
        for collection in it: collections
            invariant
                it.seq() == all,
                self.system@ == (SystemView {
                    collections: first_of_each(all.take(it.index())),
                    ..old(self).system@
                }),
                ids@ == ids_of_entries(first_of_each(all.take(it.index()))),
                texts(warnings@) == told + duplicate_warnings(
                    all.take(it.index()),
                    "collection "@,
                ),
        {
            let collection_id = collection.id;
            let ghost n = it.index();
            let ghost warned = texts(warnings@);
            proof {
                assert(all.take(n + 1).drop_last() =~= all.take(n));
                assert(all.take(n + 1).last() == collection);
            }
            match self.add_collection_inner(Arc::new(collection)) {
                Ok(_) => {
                    ids.push(collection_id);
                    assert(ids@ =~= ids_of_entries(first_of_each(all.take(n + 1))));
                },
                Err(_) => {
                    warnings.push(
                        "collection ".to_owned().concat(
                            uuid_to_string(collection_id).as_str(),
                        ).concat(": skipped (duplicate found)"),
                    );
                    proof {
                        let told_last = "collection "@ + uuid_text(collection_id)
                            + ": skipped (duplicate found)"@;
                        assert(texts(warnings@) =~= warned.push(told_last));
                        assert(texts(warnings@) =~= told + duplicate_warnings(
                            all.take(n + 1),
                            "collection "@,
                        ));
                    }
                },
            }
        }
        assert(all.take(all.len() as int) =~= all);
        ids
    }

    /// Loads blueprints, and tells of those that were left out.
    fn load_blueprints(&mut self, blueprints: Vec<Blueprint>, warnings: &mut Vec<String>) -> (r:
        Vec<Uuid>)
        requires
            old(self).system@.blueprints.len() == 0,
        ensures
            final(self).system@ == (SystemView {
                blueprints: first_of_each(blueprints@),
                ..old(self).system@
            }),
            r@ == ids_of_entries(first_of_each(blueprints@)),
            texts(final(warnings)@) == texts(old(warnings)@) + duplicate_warnings(
                blueprints@,
                "blueprint "@,
            ),
    {
        let mut ids: Vec<Uuid> = Vec::new();
        let ghost all = blueprints@;
        let ghost told = texts(warnings@);
        proof {
            assert(self.system@.blueprints =~= first_of_each(all.take(0)));
            assert(ids@ =~= ids_of_entries(first_of_each(all.take(0))));
            assert(told =~= told + duplicate_warnings(all.take(0), "blueprint "@));
        }
        for blueprint in it: blueprints
            invariant
                it.seq() == all,
                self.system@ == (SystemView {
                    blueprints: first_of_each(all.take(it.index())),
                    ..old(self).system@
                }),
                ids@ == ids_of_entries(first_of_each(all.take(it.index()))),
                texts(warnings@) == told + duplicate_warnings(
                    all.take(it.index()),
                    "blueprint "@,
                ),
        {
            let blueprint_id = blueprint.id;
            let ghost n = it.index();
            let ghost warned = texts(warnings@);
            proof {
                assert(all.take(n + 1).drop_last() =~= all.take(n));
                assert(all.take(n + 1).last() == blueprint);
            }
            match self.add_blueprint_inner(Arc::new(blueprint)) {
                Ok(_) => {
                    ids.push(blueprint_id);
                    assert(ids@ =~= ids_of_entries(first_of_each(all.take(n + 1))));
                },
                Err(_) => {
                    warnings.push(
                        "blueprint ".to_owned().concat(
                            uuid_to_string(blueprint_id).as_str(),
                        ).concat(": skipped (duplicate found)"),
                    );
                    proof {
                        let told_last = "blueprint "@ + uuid_text(blueprint_id)
                            + ": skipped (duplicate found)"@;
                        assert(texts(warnings@) =~= warned.push(told_last));
                        assert(texts(warnings@) =~= told + duplicate_warnings(
                            all.take(n + 1),
                            "blueprint "@,
                        ));
                    }
                },
            }
        }
        assert(all.take(all.len() as int) =~= all);
        ids
    }

    // This method MUST be infallible. It should only be called after checking
    // the invariant: the primary collection ID is valid.
    fn load_serialized_inner(
        &mut self,
        state: UnstableReconfiguratorState,
        primary_collection_id: Uuid,
        res: &mut LoadSerializedResultBuilder,
    ) -> (r: LoadSerializedSystemResult)
        requires
            old(self).system@.is_empty(),
            first_with_id(state.collections@, primary_collection_id) is Some,
        ensures
            ({
                let primary = first_with_id(state.collections@, primary_collection_id)->0;
                &&& final(self).system@ == state.loaded_system(primary)
                &&& r@ == state.load_result(primary)
                &&& texts(final(res).warnings@) == texts(old(res).warnings@)
                    + state.load_warnings(primary)
            }),
            in_key_order(state.internal_dns@),
            in_key_order(state.external_dns@),
    {
        let ghost whole = state;
        let ghost told = texts(res.warnings@);
        let UnstableReconfiguratorState {
            policy,
            collections,
            blueprints,
            internal_dns,
            external_dns,
            ..
        } = state;
        let mut system_res = LoadSerializedSystemResult::new(primary_collection_id);
        proof {
            lemma_first_with_id(collections@, primary_collection_id);
        }
        let ghost primary = first_with_id(collections@, primary_collection_id)->0;
        if let Some(primary_collection) = find_collection(&collections, primary_collection_id) {
            system_res.sled_ids =
            load_sleds(
                &mut self.system.description,
                &policy,
                primary_collection,
                &mut res.warnings,
            );
        }
        system_res.collection_ids = self.load_collections(collections, &mut res.warnings);
        system_res.blueprint_ids = self.load_blueprints(blueprints, &mut res.warnings);

        let ranges = policy.service_ip_pool_ranges.clone();
        assert(ranges@ =~= policy.service_ip_pool_ranges@);
        self.system.description.service_ip_pool_ranges(ranges);
        system_res.service_ip_pool_ranges = policy.service_ip_pool_ranges;

        system_res.internal_dns_generations = ids_in_order(&internal_dns);
        system_res.external_dns_generations = ids_in_order(&external_dns);
        self.set_internal_dns(internal_dns);
        self.set_external_dns(external_dns);
        proof {
            assert(self.system@.description =~= whole.loaded_system(primary).description);
            assert(self.system@ =~= whole.loaded_system(primary));
            assert(system_res@ =~= whole.load_result(primary));
            assert(texts(res.warnings@) =~= told + whole.load_warnings(primary));
        }
        system_res
    }

    fn add_collection_inner(&mut self, collection: Arc<Collection>) -> (r: Result<
        (),
        DuplicateError,
    >)
        ensures
            match r {
                Ok(_) => {
                    &&& !has_key(old(self).system@.collections, collection.id)
                    &&& final(self).system@ == (SystemView {
                        collections: old(self).system@.collections.push(
                            (collection.id, *collection),
                        ),
                        ..old(self).system@
                    })
                },
                Err(e) => {
                    &&& has_key(old(self).system@.collections, collection.id)
                    &&& e.id == ObjectId::Collection(collection.id)
                    &&& final(self).system@ == old(self).system@
                },
            },
    {
        let collection_id = collection.id;
        match self.system.collections.get(collection_id) {
            None => {
                self.system.collections.insert(collection_id, collection);
                Ok(())
            },
            Some(_) => {
                proof {
                    let list = self.system@.collections;
                    let c = choose|c: Collection| list.contains((collection_id, c));
                    let i = choose|i: int| 0 <= i < list.len() && list[i] == (collection_id, c);
                    assert(list[i].0 == collection_id);
                }
                Err(DuplicateError { id: ObjectId::Collection(collection_id) })
            },
        }
    }

    fn add_blueprint_inner(&mut self, blueprint: Arc<Blueprint>) -> (r: Result<(), DuplicateError>)
        ensures
            match r {
                Ok(_) => {
                    &&& !has_key(old(self).system@.blueprints, blueprint.id)
                    &&& final(self).system@ == (SystemView {
                        blueprints: old(self).system@.blueprints.push((blueprint.id, *blueprint)),
                        ..old(self).system@
                    })
                },
                Err(e) => {
                    &&& has_key(old(self).system@.blueprints, blueprint.id)
                    &&& e.id == ObjectId::Blueprint(blueprint.id)
                    &&& final(self).system@ == old(self).system@
                },
            },
    {
        let blueprint_id = blueprint.id;
        match self.system.blueprints.get(blueprint_id) {
            None => {
                self.system.blueprints.insert(blueprint_id, blueprint);
                Ok(())
            },
            Some(_) => {
                proof {
                    let list = self.system@.blueprints;
                    let b = choose|b: Blueprint| list.contains((blueprint_id, b));
                    let i = choose|i: int| 0 <= i < list.len() && list[i] == (blueprint_id, b);
                    assert(list[i].0 == blueprint_id);
                }
                Err(DuplicateError { id: ObjectId::Blueprint(blueprint_id) })
            },
        }
    }

    fn add_internal_dns_inner(&mut self, params: Arc<DnsConfigParams>) -> (r: Result<
        (),
        DuplicateError,
    >)
        ensures
            match r {
                Ok(_) => {
                    &&& !old(self).system@.internal_dns.contains_key(params.generation)
                    &&& final(self).system@ == (SystemView {
                        internal_dns: old(self).system@.internal_dns.insert(
                            params.generation,
                            *params,
                        ),
                        ..old(self).system@
                    })
                },
                Err(e) => {
                    &&& old(self).system@.internal_dns.contains_key(params.generation)
                    &&& e.id == ObjectId::InternalDns(params.generation)
                    &&& final(self).system@ == old(self).system@
                },
            },
    {
        let generation = params.generation;
        match get(&self.system.internal_dns, generation) {
            None => {
                put(&mut self.system.internal_dns, generation, params);
                assert(self.system@.internal_dns =~= old(self).system@.internal_dns.insert(
                    generation,
                    *params,
                ));
                Ok(())
            },
            Some(_) => Err(DuplicateError { id: ObjectId::InternalDns(generation) }),
        }
    }

    fn add_external_dns_inner(&mut self, params: Arc<DnsConfigParams>) -> (r: Result<
        (),
        DuplicateError,
    >)
        ensures
            match r {
                Ok(_) => {
                    &&& !old(self).system@.external_dns.contains_key(params.generation)
                    &&& final(self).system@ == (SystemView {
                        external_dns: old(self).system@.external_dns.insert(
                            params.generation,
                            *params,
                        ),
                        ..old(self).system@
                    })
                },
                Err(e) => {
                    &&& old(self).system@.external_dns.contains_key(params.generation)
                    &&& e.id == ObjectId::ExternalDns(params.generation)
                    &&& final(self).system@ == old(self).system@
                },
            },
    {
        let generation = params.generation;
        match get(&self.system.external_dns, generation) {
            None => {
                put(&mut self.system.external_dns, generation, params);
                assert(self.system@.external_dns =~= old(self).system@.external_dns.insert(
                    generation,
                    *params,
                ));
                Ok(())
            },
            Some(_) => Err(DuplicateError { id: ObjectId::ExternalDns(generation) }),
        }
    }

    // Not public: the only caller of this is load_serialized.
    fn set_internal_dns(&mut self, dns: BTreeMap<Generation, Arc<DnsConfigParams>>)
        ensures
            final(self).system@ == (SystemView {
                internal_dns: dns_by_generation(dns@),
                ..old(self).system@
            }),
    {
        self.system.internal_dns = dns;
    }

    // Not public: the only caller of this is load_serialized.
    fn set_external_dns(&mut self, dns: BTreeMap<Generation, Arc<DnsConfigParams>>)
        ensures
            final(self).system@ == (SystemView {
                external_dns: dns_by_generation(dns@),
                ..old(self).system@
            }),
    {
        self.system.external_dns = dns;
    }

    fn wipe_inner(&mut self)
        ensures
            final(self).system@.is_empty(),
            final(self).system@.description.service_ip_pool_ranges == Seq::<IpRange>::empty(),
    {
        self.system = SimSystem::new();
    }
}

/// A log entry corresponding to an individual operation on a
/// [`SimSystemBuilder`].
#[derive(Clone, Debug)]
pub enum SimSystemLogEntry {
    LoadExample {
        collection_id: Uuid,
        blueprint_id: Uuid,
        internal_dns_version: Generation,
        external_dns_version: Generation,
    },
    LoadSerialized(LoadSerializedSystemResult),
    AddCollection(Uuid),
    AddBlueprint(Uuid),
    AddInternalDns(Generation),
    AddExternalDns(Generation),
    Wipe,
}

/// What a [`SimSystemLogEntry`] stands for.
pub enum LogView {
    LoadExample {
        collection_id: Uuid,
        blueprint_id: Uuid,
        internal_dns_version: Generation,
        external_dns_version: Generation,
    },
    LoadSerialized(LoadResultView),
    AddCollection(Uuid),
    AddBlueprint(Uuid),
    AddInternalDns(Generation),
    AddExternalDns(Generation),
    Wipe,
}

impl View for SimSystemLogEntry {
    type V = LogView;

    open spec fn view(&self) -> LogView {
        match self {
            SimSystemLogEntry::LoadExample {
                collection_id,
                blueprint_id,
                internal_dns_version,
                external_dns_version,
            } => LogView::LoadExample {
                collection_id: *collection_id,
                blueprint_id: *blueprint_id,
                internal_dns_version: *internal_dns_version,
                external_dns_version: *external_dns_version,
            },
            SimSystemLogEntry::LoadSerialized(res) => LogView::LoadSerialized(res@),
            SimSystemLogEntry::AddCollection(id) => LogView::AddCollection(*id),
            SimSystemLogEntry::AddBlueprint(id) => LogView::AddBlueprint(*id),
            SimSystemLogEntry::AddInternalDns(g) => LogView::AddInternalDns(*g),
            SimSystemLogEntry::AddExternalDns(g) => LogView::AddExternalDns(*g),
            SimSystemLogEntry::Wipe => LogView::Wipe,
        }
    }
}

/// A [`SimSystem`] that can be changed to create new states.
#[derive(Clone, Debug)]
pub struct SimSystemBuilder {
    // Methods on `SimSystemBuilder` add log entries, but those on
    // `SimSystemBuilderInner` do not.
    inner: SimSystemBuilderInner,
    // Operation log on the system.
    log: Vec<SimSystemLogEntry>,
}

/// What a [`SimSystemBuilder`] stands for: the system as it is, and the log of
/// what was done to it.
#[verifier::ext_equal]
pub struct BuilderView {
    pub system: SystemView,
    pub log: Seq<LogView>,
}

impl View for SimSystemBuilder {
    type V = BuilderView;

    closed spec fn view(&self) -> BuilderView {
        BuilderView { system: self.inner.system@, log: views(self.log@) }
    }
}

impl BuilderView {
    /// This builder with another system, and one more log entry.
    pub open spec fn after(self, system: SystemView, entry: LogView) -> BuilderView {
        BuilderView { system, log: self.log.push(entry) }
    }
}

impl SimSystem {
    /// A builder that starts from this system.
    pub fn to_mut(&self) -> (r: SimSystemBuilder)
        ensures
            r@.system == self@,
            r@.log == Seq::<LogView>::empty(),
    {
        let r = SimSystemBuilder {
            inner: SimSystemBuilderInner { system: self.clone() },
            log: Vec::new(),
        };
        assert(r@.log =~= Seq::<LogView>::empty());
        r
    }
}

impl SimSystemBuilder {
    fn push_log(&mut self, entry: SimSystemLogEntry)
        ensures
            final(self)@ == old(self)@.after(old(self)@.system, entry@),
    {
        self.log.push(entry);
        assert(views(self.log@) =~= views(old(self).log@).push(entry@));
    }

    /// Whether the system holds nothing.
    pub fn is_empty(&self) -> (r: bool)
        ensures
            r == self@.system.is_empty(),
    {
        self.inner.system.is_empty()
    }

    /// Describes the sleds in the system.
    pub fn description(&self) -> (r: &SystemDescription)
        ensures
            r@ == self@.system.description,
    {
        self.inner.system.description()
    }

    /// The collection under an id.
    pub fn get_collection(&self, id: Uuid) -> (r: Result<&Collection, KeyError>)
        ensures
            match r {
                Ok(c) => self@.system.collections.contains((id, *c)),
                Err(e) => !has_key(self@.system.collections, id) && e.id == ObjectId::Collection(
                    id,
                ),
            },
            keys_differ(self@.system.collections),
    {
        self.inner.system.get_collection(id)
    }

    /// The collections, in the order in which they were added.
    pub fn all_collections(&self) -> (r: Vec<&Collection>)
        ensures
            r.len() == self@.system.collections.len(),
            forall|i: int|
                0 <= i < r.len() ==> *(#[trigger] r@[i]) == self@.system.collections[i].1,
    {
        self.inner.system.all_collections()
    }

    /// The blueprint under an id.
    pub fn get_blueprint(&self, id: Uuid) -> (r: Result<&Blueprint, KeyError>)
        ensures
            match r {
                Ok(b) => self@.system.blueprints.contains((id, *b)),
                Err(e) => !has_key(self@.system.blueprints, id) && e.id == ObjectId::Blueprint(id),
            },
            keys_differ(self@.system.blueprints),
    {
        self.inner.system.get_blueprint(id)
    }

    /// The blueprints, in the order in which they were added.
    pub fn all_blueprints(&self) -> (r: Vec<&Blueprint>)
        ensures
            r.len() == self@.system.blueprints.len(),
            forall|i: int|
                0 <= i < r.len() ==> *(#[trigger] r@[i]) == self@.system.blueprints[i].1,
    {
        self.inner.system.all_blueprints()
    }

    /// The internal DNS configuration of a generation.
    pub fn get_internal_dns(&self, generation: Generation) -> (r: Result<
        &DnsConfigParams,
        KeyError,
    >)
        ensures
            match r {
                Ok(d) => self@.system.internal_dns.contains_key(generation)
                    && self@.system.internal_dns[generation] == *d,
                Err(e) => !self@.system.internal_dns.contains_key(generation) && e.id
                    == ObjectId::InternalDns(generation),
            },
    {
        self.inner.system.get_internal_dns(generation)
    }

    /// The internal DNS configurations, smallest generation first.
    pub fn all_internal_dns(&self) -> (r: Vec<&DnsConfigParams>)
        ensures
            in_key_order(self@.system.internal_dns),
            r.len() == listed(self@.system.internal_dns).len(),
            forall|i: int|
                0 <= i < r.len() ==> *(#[trigger] r@[i]) == listed(self@.system.internal_dns)[i].1,
    {
        self.inner.system.all_internal_dns()
    }

    /// The external DNS configuration of a generation.
    pub fn get_external_dns(&self, generation: Generation) -> (r: Result<
        &DnsConfigParams,
        KeyError,
    >)
        ensures
            match r {
                Ok(d) => self@.system.external_dns.contains_key(generation)
                    && self@.system.external_dns[generation] == *d,
                Err(e) => !self@.system.external_dns.contains_key(generation) && e.id
                    == ObjectId::ExternalDns(generation),
            },
    {
        self.inner.system.get_external_dns(generation)
    }

    /// The external DNS configurations, smallest generation first.
    pub fn all_external_dns(&self) -> (r: Vec<&DnsConfigParams>)
        ensures
            in_key_order(self@.system.external_dns),
            r.len() == listed(self@.system.external_dns).len(),
            forall|i: int|
                0 <= i < r.len() ==> *(#[trigger] r@[i]) == listed(self@.system.external_dns)[i].1,
    {
        self.inner.system.all_external_dns()
    }

    /// The description of the sleds, to be changed in place.
    pub fn description_mut(&mut self) -> (r: &mut SystemDescription)
        ensures
            r@ == old(self)@.system.description,
            final(self)@ == (BuilderView {
                system: SystemView { description: final(r)@, ..old(self)@.system },
                ..old(self)@
            }),
    {
        &mut self.inner.system.description
    }

    /// Loads an example system, given the times at which its DNS
    /// configurations count as made.
    pub fn load_example_at(
        &mut self,
        example: ExampleSystem,
        blueprint: Blueprint,
        internal_dns: DnsConfigZone,
        internal_time: Timestamp,
        external_dns: DnsConfigZone,
        external_time: Timestamp,
    ) -> (r: Result<(), NonEmptySystemError>)
        ensures
            r is Ok <==> old(self)@.system.is_empty(),
            r is Ok ==> {
                &&& is_loaded_example(
                    final(self)@.system,
                    example,
                    blueprint,
                    internal_dns,
                    internal_time,
                    external_dns,
                    external_time,
                )
                &&& final(self)@.log == old(self)@.log.push(
                    (LogView::LoadExample {
                        collection_id: example.collection.id,
                        blueprint_id: blueprint.id,
                        internal_dns_version: blueprint.internal_dns_version,
                        external_dns_version: blueprint.external_dns_version,
                    }),
                )
            },
            r is Err ==> final(self)@ == old(self)@,
    {
        if !self.is_empty() {
            return Err(NonEmptySystemError {  });
        }
        // NOTE: If more error cases are added, ensure that they're checked
        // before load_example_inner is called. This ensures that the system is
        // not modified if there are errors.

        self.push_log(
            SimSystemLogEntry::LoadExample {
                collection_id: example.collection.id,
                blueprint_id: blueprint.id,
                internal_dns_version: blueprint.internal_dns_version,
                external_dns_version: blueprint.external_dns_version,
            },
        );
        self.inner.load_example_inner(
            example,
            blueprint,
            internal_dns,
            internal_time,
            external_dns,
            external_time,
        );
        Ok(())
    }

    /// Loads an example system.
    pub fn load_example(
        &mut self,
        example: ExampleSystem,
        blueprint: Blueprint,
        internal_dns: DnsConfigZone,
        external_dns: DnsConfigZone,
    ) -> (r: Result<(), NonEmptySystemError>)
        ensures
            r is Ok <==> old(self)@.system.is_empty(),
            r is Ok ==> {
                &&& exists|internal_time: Timestamp, external_time: Timestamp|
                    internal_time.in_range() && external_time.in_range()
                        && #[trigger] is_loaded_example(
                        final(self)@.system,
                        example,
                        blueprint,
                        internal_dns,
                        internal_time,
                        external_dns,
                        external_time,
                    )
                &&& final(self)@.log == old(self)@.log.push(
                    (LogView::LoadExample {
                        collection_id: example.collection.id,
                        blueprint_id: blueprint.id,
                        internal_dns_version: blueprint.internal_dns_version,
                        external_dns_version: blueprint.external_dns_version,
                    }),
                )
            },
            r is Err ==> final(self)@ == old(self)@,
    {
        let internal_time = utc_now();
        let external_time = utc_now();
        self.load_example_at(
            example,
            blueprint,
            internal_dns,
            internal_time,
            external_dns,
            external_time,
        )
    }

    /// Load a serialized system state.
    ///
    /// This requires that the system be empty, and that the state hold a
    /// collection with the primary collection's id.
    pub fn load_serialized(
        &mut self,
        state: UnstableReconfiguratorState,
        primary_collection_id: Uuid,
        res: &mut LoadSerializedResultBuilder,
    ) -> (r: LoadSerializedSystemResult)
        requires
            old(self)@.system.is_empty(),
            first_with_id(state.collections@, primary_collection_id) is Some,
        ensures
            ({
                let primary = first_with_id(state.collections@, primary_collection_id)->0;
                &&& final(self)@ == old(self)@.after(
                    state.loaded_system(primary),
                    LogView::LoadSerialized(state.load_result(primary)),
                )
                &&& r@ == state.load_result(primary)
                &&& texts(final(res).warnings@) == texts(old(res).warnings@)
                    + state.load_warnings(primary)
            }),
            in_key_order(state.internal_dns@),
            in_key_order(state.external_dns@),
    {
        let system_res = self.inner.load_serialized_inner(state, primary_collection_id, res);
        self.push_log(SimSystemLogEntry::LoadSerialized(system_res.clone()));
        system_res
    }

    /// Adds a collection, unless there is one with its id.
    pub fn add_collection(&mut self, collection: Arc<Collection>) -> (r: Result<(), DuplicateError>)
        ensures
            match r {
                Ok(_) => {
                    &&& !has_key(old(self)@.system.collections, collection.id)
                    &&& final(self)@ == old(self)@.after(
                        (SystemView {
                            collections: old(self)@.system.collections.push(
                                (collection.id, *collection),
                            ),
                            ..old(self)@.system
                        }),
                        LogView::AddCollection(collection.id),
                    )
                },
                Err(e) => {
                    &&& has_key(old(self)@.system.collections, collection.id)
                    &&& e.id == ObjectId::Collection(collection.id)
                    &&& final(self)@ == old(self)@
                },
            },
    {
        let collection_id = collection.id;
        match self.inner.add_collection_inner(collection) {
            Ok(_) => {
                // Only add the log entry if the collection was successfully
                // added.
                self.push_log(SimSystemLogEntry::AddCollection(collection_id));
                Ok(())
            },
            Err(e) => Err(e),
        }
    }

    /// Adds a blueprint, unless there is one with its id.
    pub fn add_blueprint(&mut self, blueprint: Arc<Blueprint>) -> (r: Result<(), DuplicateError>)
        ensures
            match r {
                Ok(_) => {
                    &&& !has_key(old(self)@.system.blueprints, blueprint.id)
                    &&& final(self)@ == old(self)@.after(
                        (SystemView {
                            blueprints: old(self)@.system.blueprints.push(
                                (blueprint.id, *blueprint),
                            ),
                            ..old(self)@.system
                        }),
                        LogView::AddBlueprint(blueprint.id),
                    )
                },
                Err(e) => {
                    &&& has_key(old(self)@.system.blueprints, blueprint.id)
                    &&& e.id == ObjectId::Blueprint(blueprint.id)
                    &&& final(self)@ == old(self)@
                },
            },
    {
        let blueprint_id = blueprint.id;
        match self.inner.add_blueprint_inner(blueprint) {
            Ok(_) => {
                // Only add the log entry if the blueprint was successfully
                // added.
                self.push_log(SimSystemLogEntry::AddBlueprint(blueprint_id));
                Ok(())
            },
            Err(e) => Err(e),
        }
    }

    /// Adds an internal DNS configuration, unless there is one of its
    /// generation.
    pub fn add_internal_dns(&mut self, params: Arc<DnsConfigParams>) -> (r: Result<
        (),
        DuplicateError,
    >)
        ensures
            match r {
                Ok(_) => {
                    &&& !old(self)@.system.internal_dns.contains_key(params.generation)
                    &&& final(self)@ == old(self)@.after(
                        (SystemView {
                            internal_dns: old(self)@.system.internal_dns.insert(
                                params.generation,
                                *params,
                            ),
                            ..old(self)@.system
                        }),
                        LogView::AddInternalDns(params.generation),
                    )
                },
                Err(e) => {
                    &&& old(self)@.system.internal_dns.contains_key(params.generation)
                    &&& e.id == ObjectId::InternalDns(params.generation)
                    &&& final(self)@ == old(self)@
                },
            },
    {
        let generation = params.generation;
        match self.inner.add_internal_dns_inner(params) {
            Ok(_) => {
                // Only add the log entry if the new generation was
                // successfully added.
                self.push_log(SimSystemLogEntry::AddInternalDns(generation));
                Ok(())
            },
            Err(e) => Err(e),
        }
    }

    /// Adds an external DNS configuration, unless there is one of its
    /// generation.
    pub fn add_external_dns(&mut self, params: Arc<DnsConfigParams>) -> (r: Result<
        (),
        DuplicateError,
    >)
        ensures
            match r {
                Ok(_) => {
                    &&& !old(self)@.system.external_dns.contains_key(params.generation)
                    &&& final(self)@ == old(self)@.after(
                        (SystemView {
                            external_dns: old(self)@.system.external_dns.insert(
                                params.generation,
                                *params,
                            ),
                            ..old(self)@.system
                        }),
                        LogView::AddExternalDns(params.generation),
                    )
                },
                Err(e) => {
                    &&& old(self)@.system.external_dns.contains_key(params.generation)
                    &&& e.id == ObjectId::ExternalDns(params.generation)
                    &&& final(self)@ == old(self)@
                },
            },
    {
        let generation = params.generation;
        match self.inner.add_external_dns_inner(params) {
            Ok(_) => {
                // Only add the log entry if the new generation was
                // successfully added.
                self.push_log(SimSystemLogEntry::AddExternalDns(generation));
                Ok(())
            },
            Err(e) => Err(e),
        }
    }

    /// Makes the system hold nothing.
    pub fn wipe(&mut self)
        ensures
            final(self)@.system.is_empty(),
            final(self)@.system.description.service_ip_pool_ranges == Seq::<IpRange>::empty(),
            final(self)@.log == old(self)@.log.push(LogView::Wipe),
    {
        self.inner.wipe_inner();
        self.push_log(SimSystemLogEntry::Wipe);
    }

    /// The system as it is, and the log of what was done to it.
    pub fn into_parts(self) -> (r: (SimSystem, Vec<SimSystemLogEntry>))
        ensures
            r.0@ == self@.system,
            views(r.1@) == self@.log,
    {
        (self.inner.system, self.log)
    }
}

} // verus!
