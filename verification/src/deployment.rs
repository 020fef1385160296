//! Deployed software and configuration: policy, blueprints, and the zones they
//! describe.

use std::collections::BTreeMap;

use vstd::prelude::*;

use crate::net::{IpNetwork, IpRange, Ipv6Addr, Ipv6Network, MacAddr};
use crate::ordered::{
    entries, get, id_numbers, ids_in_order, in_key_order, increasing, lemma_same_ids, listed,
    sorted_ids,
};
use crate::sort::{lemma_sorted, lemma_sorted_mapped, sort_by_key, sorted, views, Keyed};
use crate::text::{texts, uuid_text, uuid_to_string, Uuid};
use crate::time::Timestamp;

verus! {

/// A generation number.
pub type Generation = u64;

/// Whether new services may be placed on a sled.
#[derive(Copy, Clone, Debug, PartialEq, Eq, Structural)]
pub enum SledProvisionPolicy {
    /// The sled may have services provisioned on it.
    Provisionable,
    /// No new services are provisioned on the sled.
    NonProvisionable,
}

/// The operator-defined policy of a sled.
#[derive(Copy, Clone, Debug, PartialEq, Eq, Structural)]
pub enum SledPolicy {
    /// The operator has indicated that the sled is in-service.
    InService { provision_policy: SledProvisionPolicy },
    /// The operator has indicated that the sled has been permanently removed.
    Expunged,
}

impl SledPolicy {
    /// Whether the sled is in service and can have services provisioned on it.
    pub fn is_provisionable(&self) -> (r: bool)
        ensures
            r == (*self == SledPolicy::InService {
                provision_policy: SledProvisionPolicy::Provisionable,
            }),
    {
        match self {
            SledPolicy::InService { provision_policy } => match provision_policy {
                SledProvisionPolicy::Provisionable => true,
                SledProvisionPolicy::NonProvisionable => false,
            },
            SledPolicy::Expunged => false,
        }
    }
}

/// The current state of a sled.
#[derive(Copy, Clone, Debug, PartialEq, Eq, Structural)]
pub enum SledState {
    /// The sled is currently active, and has resources allocated on it.
    Active,
    /// The sled has been permanently removed from service.
    Decommissioned,
}

impl SledState {
    /// Whether the sled can have services on it that are not required to be on
    /// every sled.
    pub fn is_eligible_for_discretionary_services(&self) -> (r: bool)
        ensures
            r == (self is Active),
    {
        match self {
            SledState::Active => true,
            SledState::Decommissioned => false,
        }
    }
}

/// Describes the resources available on each sled for the planner.
#[derive(Debug)]
pub struct SledResources {
    /// current sled policy
    pub policy: SledPolicy,
    /// current sled state
    pub state: SledState,
    /// zpools on this sled
    ///
    /// (used to allocate storage for control plane zones with persistent
    /// storage)
    pub zpools: Vec<String>,
    /// the IPv6 subnet of this sled on the underlay network
    ///
    /// (implicitly specifies the whole range of addresses that the planner can
    /// use for control plane components)
    pub subnet: Ipv6Network,
}

/// What a [`SledResources`] stands for.
#[verifier::ext_equal]
pub struct SledResourcesView {
    pub policy: SledPolicy,
    pub state: SledState,
    pub zpools: Seq<Seq<char>>,
    pub subnet: Ipv6Network,
}

impl View for SledResources {
    type V = SledResourcesView;

    open spec fn view(&self) -> SledResourcesView {
        SledResourcesView {
            policy: self.policy,
            state: self.state,
            zpools: texts(self.zpools@),
            subnet: self.subnet,
        }
    }
}

impl Clone for SledResources {
    fn clone(&self) -> (r: Self)
        ensures
            r@ == self@,
    {
        let zpools = self.zpools.clone();
        assert(texts(zpools@) =~= texts(self.zpools@));
        SledResources { policy: self.policy, state: self.state, zpools, subnet: self.subnet }
    }
}

impl SledResources {
    /// Returns true if the sled can have services provisioned on it that
    /// aren't required to be on every sled.
    ///
    /// For example, NTP must exist on every sled, but Nexus does not have to.
    pub fn is_eligible_for_discretionary_services(&self) -> (r: bool)
        ensures
            r <==> (self.state is Active && self.policy == (SledPolicy::InService {
                provision_policy: SledProvisionPolicy::Provisionable,
            })),
    {
        self.policy.is_provisionable() && self.state.is_eligible_for_discretionary_services()
    }
}

/// Filters that apply to sleds.
#[derive(Copy, Clone, Debug, PartialEq, Eq, Structural)]
pub enum SledFilter {
    /// All sleds that have not been decommissioned.
    Commissioned,
}

impl SledFilter {
    /// Whether a sled in a given state matches the filter.
    pub open spec fn matching(self, state: SledState) -> bool {
        match self {
            SledFilter::Commissioned => state is Active,
        }
    }

    /// Whether a sled in a given state matches the filter.
    pub fn matches(self, state: SledState) -> (r: bool)
        ensures
            r == self.matching(state),
    {
        match self {
            SledFilter::Commissioned => match state {
                SledState::Active => true,
                SledState::Decommissioned => false,
            },
        }
    }
}

/// Fleet-wide deployment policy.
#[derive(Clone, Debug)]
pub struct Policy {
    /// set of sleds that are supposed to be part of the control plane, along
    /// with information about resources available to the planner
    pub sleds: BTreeMap<Uuid, SledResources>,
    /// ranges specified by the IP pool for externally-visible control plane
    /// services (e.g., external DNS, Nexus, boundary NTP)
    pub service_ip_pool_ranges: Vec<IpRange>,
    /// desired total number of deployed Nexus zones
    pub target_nexus_zone_count: usize,
}

/// The entries of a list whose sleds match a filter, in order.
pub open spec fn matching_sleds(
    list: Seq<(Uuid, SledResourcesView)>,
    filter: SledFilter,
) -> Seq<(Uuid, SledResourcesView)> {
    list.filter(|p: (Uuid, SledResourcesView)| filter.matching(p.1.state))
}

/// What the resources of each sled stand for.
pub open spec fn resources_by_sled(map: Map<Uuid, SledResources>) -> Map<Uuid, SledResourcesView> {
    map.map_values(|s: SledResources| s@)
}

impl Policy {
    /// The sleds that match a filter, smallest id first.
    pub fn all_sleds(&self, filter: SledFilter) -> (r: Vec<(Uuid, &SledResources)>)
        ensures
            pair_views(r@) == matching_sleds(listed(resources_by_sled(self.sleds@)), filter),
            in_key_order(resources_by_sled(self.sleds@)),
            forall|i: int|
                0 <= i < r.len() ==> self.sleds@.contains_key((#[trigger] r@[i]).0) && *r@[i].1
                    == self.sleds@[r@[i].0],
            forall|i: int, j: int|
                #![trigger r@[i], r@[j]]
                0 <= i < j < r.len() ==> r@[i].0 < r@[j].0,
    {
        let sleds = entries(&self.sleds);
        let mut out: Vec<(Uuid, &SledResources)> = Vec::new();
        let mut i: usize = 0;
        let ghost all = pair_views(sleds@);
        let ghost pred = |p: (Uuid, SledResourcesView)| filter.matching(p.1.state);
        proof {
            lemma_same_ids(self.sleds@, resources_by_sled(self.sleds@));
            assert(all =~= listed(resources_by_sled(self.sleds@)));
        }
        while i < sleds.len()
            invariant
                i <= sleds.len(),
                all == pair_views(sleds@),
                pred == (|p: (Uuid, SledResourcesView)| filter.matching(p.1.state)),
                forall|k: int|
                    0 <= k < sleds.len() ==> self.sleds@.contains_key((#[trigger] sleds@[k]).0)
                        && *sleds@[k].1 == self.sleds@[sleds@[k].0],
                forall|k: int, m: int|
                    #![trigger sleds@[k], sleds@[m]]
                    0 <= k < m < sleds.len() ==> sleds@[k].0 < sleds@[m].0,
                forall|k: int, m: int|
                    #![trigger out@[k], out@[m]]
                    0 <= k < m < out.len() ==> out@[k].0 < out@[m].0,
                forall|k: int|
                    i < sleds.len() && 0 <= k < out.len() ==> (#[trigger] out@[k]).0
                        < sleds@[i as int].0,
                pair_views(out@) == all.take(i as int).filter(pred),
                forall|k: int|
                    0 <= k < out.len() ==> self.sleds@.contains_key((#[trigger] out@[k]).0)
                        && *out@[k].1 == self.sleds@[out@[k].0],
            decreases sleds.len() - i,
        {
            let (id, resources) = sleds[i];
            let ghost so_far = pair_views(out@);
            proof {
                assert(all[i as int] == (id, resources@));
                assert(all.take(i + 1) =~= all.take(i as int).push((id, resources@)));
                all.take(i as int).lemma_filter_push((id, resources@), pred);
            }
            if filter.matches(resources.state) {
                out.push((id, resources));
                assert(pair_views(out@) =~= so_far.push((id, resources@)));
            }
            i = i + 1;
        }
        assert(all.take(sleds.len() as int) =~= all);
        out
    }
}

/// External IP allocated to a service.
#[derive(Copy, Clone, Debug, PartialEq, Eq, Structural)]
pub struct ExternalIp {
    pub id: Uuid,
    pub ip: IpNetwork,
}

/// Network interface allocated to a service.
#[derive(Copy, Clone, Debug, PartialEq, Eq, Structural)]
pub struct ServiceNetworkInterface {
    pub id: Uuid,
    pub mac: MacAddr,
    pub ip: IpNetwork,
    pub slot: u8,
    pub primary: bool,
}

/// Policy and database inputs to the Reconfigurator planner.
#[derive(Clone, Debug)]
pub struct PlanningInput {
    /// fleet-wide policy
    pub policy: Policy,
    /// external IPs allocated to services
    pub service_external_ips: BTreeMap<Uuid, ExternalIp>,
    /// vNICs allocated to services
    pub service_nics: BTreeMap<Uuid, ServiceNetworkInterface>,
}

/// Describes what blueprint, if any, the system is currently working toward.
#[derive(Copy, Clone, Debug, PartialEq, Eq, Structural)]
pub struct BlueprintTarget {
    /// id of the blueprint that the system is trying to make real
    pub target_id: Uuid,
    /// policy: should the system actively work towards this blueprint
    ///
    /// This should generally be left enabled.
    pub enabled: bool,
    /// when this blueprint was made the target
    pub time_made_target: Timestamp,
}

/// Specifies what blueprint, if any, the system should be working toward.
#[derive(Copy, Clone, Debug, PartialEq, Eq, Structural)]
pub struct BlueprintTargetSet {
    pub target_id: Uuid,
    pub enabled: bool,
}

/// The kinds of zones, in the order in which zones are sorted.
#[derive(Copy, Clone, Debug, PartialEq, Eq, Structural)]
pub enum ZoneKind {
    BoundaryNtp,
    Clickhouse,
    ClickhouseKeeper,
    CockroachDb,
    Crucible,
    CruciblePantry,
    ExternalDns,
    InternalDns,
    InternalNtp,
    Nexus,
    Oximeter,
}

impl ZoneKind {
    /// The place of the kind in the sort order.
    pub open spec fn place(self) -> u8 {
        match self {
            ZoneKind::BoundaryNtp => 0,
            ZoneKind::Clickhouse => 1,
            ZoneKind::ClickhouseKeeper => 2,
            ZoneKind::CockroachDb => 3,
            ZoneKind::Crucible => 4,
            ZoneKind::CruciblePantry => 5,
            ZoneKind::ExternalDns => 6,
            ZoneKind::InternalDns => 7,
            ZoneKind::InternalNtp => 8,
            ZoneKind::Nexus => 9,
            ZoneKind::Oximeter => 10,
        }
    }

    fn rank(self) -> (r: u8)
        ensures
            r == self.place(),
    {
        match self {
            ZoneKind::BoundaryNtp => 0,
            ZoneKind::Clickhouse => 1,
            ZoneKind::ClickhouseKeeper => 2,
            ZoneKind::CockroachDb => 3,
            ZoneKind::Crucible => 4,
            ZoneKind::CruciblePantry => 5,
            ZoneKind::ExternalDns => 6,
            ZoneKind::InternalDns => 7,
            ZoneKind::InternalNtp => 8,
            ZoneKind::Nexus => 9,
            ZoneKind::Oximeter => 10,
        }
    }

    /// The name of the kind.
    pub open spec fn text(self) -> Seq<char> {
        match self {
            ZoneKind::BoundaryNtp => "boundary_ntp"@,
            ZoneKind::Clickhouse => "clickhouse"@,
            ZoneKind::ClickhouseKeeper => "clickhouse_keeper"@,
            ZoneKind::CockroachDb => "cockroach_db"@,
            ZoneKind::Crucible => "crucible"@,
            ZoneKind::CruciblePantry => "crucible_pantry"@,
            ZoneKind::ExternalDns => "external_dns"@,
            ZoneKind::InternalDns => "internal_dns"@,
            ZoneKind::InternalNtp => "internal_ntp"@,
            ZoneKind::Nexus => "nexus"@,
            ZoneKind::Oximeter => "oximeter"@,
        }
    }

    /// The name of the kind.
    pub fn as_str(self) -> (r: &'static str)
        ensures
            r@ == self.text(),
    {
        match self {
            ZoneKind::BoundaryNtp => "boundary_ntp",
            ZoneKind::Clickhouse => "clickhouse",
            ZoneKind::ClickhouseKeeper => "clickhouse_keeper",
            ZoneKind::CockroachDb => "cockroach_db",
            ZoneKind::Crucible => "crucible",
            ZoneKind::CruciblePantry => "crucible_pantry",
            ZoneKind::ExternalDns => "external_dns",
            ZoneKind::InternalDns => "internal_dns",
            ZoneKind::InternalNtp => "internal_ntp",
            ZoneKind::Nexus => "nexus",
            ZoneKind::Oximeter => "oximeter",
        }
    }
}

/// The type of a zone: its kind, and the configuration that goes with the
/// kind in its serialized form.
#[derive(Debug, Eq)]
pub struct OmicronZoneType {
    pub kind: ZoneKind,
    pub config: String,
}

/// What an [`OmicronZoneType`] stands for.
#[verifier::ext_equal]
pub struct ZoneTypeView {
    pub kind: ZoneKind,
    pub config: Seq<char>,
}

impl View for OmicronZoneType {
    type V = ZoneTypeView;

    open spec fn view(&self) -> ZoneTypeView {
        ZoneTypeView { kind: self.kind, config: self.config@ }
    }
}

impl OmicronZoneType {
    /// The kind of the zone.
    pub fn kind(&self) -> (r: ZoneKind)
        ensures
            r == self@.kind,
    {
        self.kind
    }
}

impl Clone for OmicronZoneType {
    fn clone(&self) -> (r: Self)
        ensures
            r@ == self@,
    {
        OmicronZoneType { kind: self.kind, config: self.config.clone() }
    }
}

impl PartialEq for OmicronZoneType {
    fn eq(&self, other: &Self) -> (r: bool) {
        self.kind == other.kind && self.config == other.config
    }
}

impl vstd::std_specs::cmp::PartialEqSpecImpl for OmicronZoneType {
    open spec fn obeys_eq_spec() -> bool {
        true
    }

    open spec fn eq_spec(&self, other: &Self) -> bool {
        self@ == other@
    }
}

/// The configuration of one zone.
#[derive(Debug, Eq)]
pub struct OmicronZoneConfig {
    pub id: Uuid,
    pub underlay_address: Ipv6Addr,
    pub zone_type: OmicronZoneType,
}

/// What an [`OmicronZoneConfig`] stands for.
#[verifier::ext_equal]
pub struct ZoneConfigView {
    pub id: Uuid,
    pub underlay_address: Ipv6Addr,
    pub zone_type: ZoneTypeView,
}

impl View for OmicronZoneConfig {
    type V = ZoneConfigView;

    open spec fn view(&self) -> ZoneConfigView {
        ZoneConfigView {
            id: self.id,
            underlay_address: self.underlay_address,
            zone_type: self.zone_type@,
        }
    }
}

impl Clone for OmicronZoneConfig {
    fn clone(&self) -> (r: Self)
        ensures
            r@ == self@,
    {
        OmicronZoneConfig {
            id: self.id,
            underlay_address: self.underlay_address,
            zone_type: self.zone_type.clone(),
        }
    }
}

impl PartialEq for OmicronZoneConfig {
    fn eq(&self, other: &Self) -> (r: bool) {
        self.id == other.id && self.underlay_address == other.underlay_address && self.zone_type
            == other.zone_type
    }
}

impl vstd::std_specs::cmp::PartialEqSpecImpl for OmicronZoneConfig {
    open spec fn obeys_eq_spec() -> bool {
        true
    }

    open spec fn eq_spec(&self, other: &Self) -> bool {
        self@ == other@
    }
}

/// The zones of one sled, as an inventory collection found them.
#[derive(Clone, Debug)]
pub struct OmicronZonesConfig {
    pub generation: Generation,
    pub zones: Vec<OmicronZoneConfig>,
}

/// What an [`OmicronZonesConfig`] stands for.
#[verifier::ext_equal]
pub struct OmicronZonesView {
    pub generation: Generation,
    pub zones: Seq<ZoneConfigView>,
}

impl View for OmicronZonesConfig {
    type V = OmicronZonesView;

    open spec fn view(&self) -> OmicronZonesView {
        OmicronZonesView { generation: self.generation, zones: views(self.zones@) }
    }
}

/// The desired state of a zone in a blueprint.
#[derive(Copy, Clone, Debug, PartialEq, Eq, Hash, PartialOrd, Ord, Structural)]
pub enum BlueprintZoneDisposition {
    /// The zone is in-service.
    InService,
    /// The zone is not in service.
    Quiesced,
}

/// Filters that apply to blueprint zones.
#[derive(Copy, Clone, Debug, PartialEq, Eq, Hash, Structural)]
pub enum BlueprintZoneFilter {
    /// All zones.
    All,
    /// Filter by zones that should be in internal DNS.
    InternalDns,
    /// Filter by zones that we should tell sled-agent to deploy.
    SledAgentPut,
    /// Filter by zones that should be sent VPC firewall rules.
    VpcFirewall,
}

impl BlueprintZoneDisposition {
    /// Every disposition matches every filter, except that quiesced zones are
    /// not exposed in DNS.
    pub open spec fn matching(self, filter: BlueprintZoneFilter) -> bool {
        !(self is Quiesced && filter is InternalDns)
    }

    /// Returns true if the zone disposition matches this filter.
    pub fn matches(self, filter: BlueprintZoneFilter) -> (r: bool)
        ensures
            r == self.matching(filter),
    {
        match self {
            BlueprintZoneDisposition::InService => match filter {
                BlueprintZoneFilter::All => true,
                BlueprintZoneFilter::SledAgentPut => true,
                BlueprintZoneFilter::InternalDns => true,
                BlueprintZoneFilter::VpcFirewall => true,
            },
            BlueprintZoneDisposition::Quiesced => match filter {
                BlueprintZoneFilter::All => true,
                // Quiesced zones should not be exposed in DNS.
                BlueprintZoneFilter::InternalDns => false,
                // Quiesced zones are expected to be deployed by sled-agent.
                BlueprintZoneFilter::SledAgentPut => true,
                // Quiesced zones should get firewall rules.
                BlueprintZoneFilter::VpcFirewall => true,
            },
        }
    }

    /// Returns all zone dispositions that match the given filter.
    pub fn all_matching(filter: BlueprintZoneFilter) -> (r: Vec<Self>)
        ensures
            r@ == seq![
                BlueprintZoneDisposition::InService,
                BlueprintZoneDisposition::Quiesced,
            ].filter(|d: BlueprintZoneDisposition| d.matching(filter)),
    {
        let every = vec![BlueprintZoneDisposition::InService, BlueprintZoneDisposition::Quiesced];
        let mut matching: Vec<Self> = Vec::new();
        let mut i: usize = 0;
        let ghost pred = |d: BlueprintZoneDisposition| d.matching(filter);
        while i < every.len()
            invariant
                i <= every.len(),
                pred == (|d: BlueprintZoneDisposition| d.matching(filter)),
                matching@ == every@.take(i as int).filter(pred),
            decreases every.len() - i,
        {
            let d = every[i];
            proof {
                assert(every@.take(i + 1) =~= every@.take(i as int).push(d));
                every@.take(i as int).lemma_filter_push(d, pred);
            }
            if d.matches(filter) {
                matching.push(d);
            }
            i = i + 1;
        }
        assert(every@.take(every.len() as int) =~= seq![
            BlueprintZoneDisposition::InService,
            BlueprintZoneDisposition::Quiesced,
        ]);
        matching
    }

    /// The name of the disposition.
    pub open spec fn text(self) -> Seq<char> {
        match self {
            BlueprintZoneDisposition::InService => "in service"@,
            BlueprintZoneDisposition::Quiesced => "quiesced"@,
        }
    }

    /// The name of the disposition.
    pub fn as_str(self) -> (r: &'static str)
        ensures
            r@ == self.text(),
    {
        match self {
            BlueprintZoneDisposition::InService => "in service",
            BlueprintZoneDisposition::Quiesced => "quiesced",
        }
    }
}

/// Describes one Omicron-managed zone in a blueprint.
#[derive(Debug, Eq)]
pub struct BlueprintZoneConfig {
    /// The underlying zone configuration.
    pub config: OmicronZoneConfig,
    /// The disposition (desired state) of this zone recorded in the blueprint.
    pub disposition: BlueprintZoneDisposition,
}

/// What a [`BlueprintZoneConfig`] stands for.
#[verifier::ext_equal]
pub struct ZoneView {
    pub config: ZoneConfigView,
    pub disposition: BlueprintZoneDisposition,
}

impl View for BlueprintZoneConfig {
    type V = ZoneView;

    open spec fn view(&self) -> ZoneView {
        ZoneView { config: self.config@, disposition: self.disposition }
    }
}

impl Clone for BlueprintZoneConfig {
    fn clone(&self) -> (r: Self)
        ensures
            r@ == self@,
    {
        BlueprintZoneConfig { config: self.config.clone(), disposition: self.disposition }
    }
}

impl PartialEq for BlueprintZoneConfig {
    fn eq(&self, other: &Self) -> (r: bool) {
        self.disposition == other.disposition && self.config == other.config
    }
}

impl vstd::std_specs::cmp::PartialEqSpecImpl for BlueprintZoneConfig {
    open spec fn obeys_eq_spec() -> bool {
        true
    }

    open spec fn eq_spec(&self, other: &Self) -> bool {
        self@ == other@
    }
}

/// Zones sort by kind, then by id, so that zones of the same kind are grouped
/// together.
pub open spec fn zone_key(z: ZoneView) -> (u8, u128) {
    (z.config.zone_type.kind.place(), z.config.id)
}

/// The key that a zone is sorted by.
pub fn zone_sort_key(z: &BlueprintZoneConfig) -> (r: (u8, u128))
    ensures
        r == zone_key(z@),
{
    (z.config.zone_type.kind().rank(), z.config.id)
}

impl Keyed for BlueprintZoneConfig {
    open spec fn key_of(v: ZoneView) -> (u8, u128) {
        zone_key(v)
    }

    fn key(&self) -> (r: (u8, u128)) {
        zone_sort_key(self)
    }
}

/// The zones of one sled as recorded in a blueprint.
#[derive(Debug, Eq)]
pub struct BlueprintZonesConfig {
    /// Generation number of this configuration.
    pub generation: Generation,
    /// The list of running zones.
    pub zones: Vec<BlueprintZoneConfig>,
}

/// What a [`BlueprintZonesConfig`] stands for.
#[verifier::ext_equal]
pub struct ZonesView {
    pub generation: Generation,
    pub zones: Seq<ZoneView>,
}

impl View for BlueprintZonesConfig {
    type V = ZonesView;

    open spec fn view(&self) -> ZonesView {
        ZonesView { generation: self.generation, zones: views(self.zones@) }
    }
}

impl Clone for BlueprintZonesConfig {
    fn clone(&self) -> (r: Self)
        ensures
            r@ == self@,
    {
        let zones = self.zones.clone();
        assert(views(zones@) =~= views(self.zones@));
        BlueprintZonesConfig { generation: self.generation, zones }
    }
}

impl PartialEq for BlueprintZonesConfig {
    fn eq(&self, other: &Self) -> (r: bool) {
        let n: usize = self.zones.len();
        if self.generation != other.generation || n != other.zones.len() {
            assert(self@.zones.len() == n && other@.zones.len() == other.zones.len());
            return false;
        }
        let mut i: usize = 0;
        while i < n
            invariant
                i <= n,
                n == self.zones.len(),
                n == other.zones.len(),
                forall|k: int| 0 <= k < i ==> self.zones@[k]@ == other.zones@[k]@,
            decreases n - i,
        {
            if self.zones[i] != other.zones[i] {
                assert(self@.zones[i as int] != other@.zones[i as int]);
                return false;
            }
            i = i + 1;
        }
        assert(self@.zones =~= other@.zones);
        true
    }
}

impl vstd::std_specs::cmp::PartialEqSpecImpl for BlueprintZonesConfig {
    open spec fn obeys_eq_spec() -> bool {
        true
    }

    open spec fn eq_spec(&self, other: &Self) -> bool {
        self@ == other@
    }
}

/// The zones of a collection, each taken to be in service.
pub open spec fn in_service(zones: Seq<ZoneConfigView>) -> Seq<ZoneView> {
    zones.map_values(
        |c: ZoneConfigView|
            ZoneView { config: c, disposition: BlueprintZoneDisposition::InService },
    )
}

/// The configurations of the zones that match a filter, in order.
pub open spec fn matching_configs(
    zones: Seq<ZoneView>,
    filter: BlueprintZoneFilter,
) -> Seq<ZoneConfigView> {
    zones.filter(|z: ZoneView| z.disposition.matching(filter)).map_values(|z: ZoneView| z.config)
}

/// The zones of a collection, each with the in-service disposition.
pub(crate) fn zones_in_service(found: &Vec<OmicronZoneConfig>) -> (r: Vec<BlueprintZoneConfig>)
    ensures
        views(r@) == in_service(views(found@)),
{
    let mut zones: Vec<BlueprintZoneConfig> = Vec::new();
    let mut i: usize = 0;
    while i < found.len()
        invariant
            i <= found.len(),
            zones.len() == i,
            forall|k: int| 0 <= k < i ==> (#[trigger] zones@[k])@ == in_service(views(found@))[k],
        decreases found.len() - i,
    {
        zones.push(
            BlueprintZoneConfig {
                config: found[i].clone(),
                disposition: BlueprintZoneDisposition::InService,
            },
        );
        i = i + 1;
    }
    assert(views(zones@) =~= in_service(views(found@)));
    zones
}

impl BlueprintZonesConfig {
    /// Constructs a new [`BlueprintZonesConfig`] from a collection's zones.
    ///
    /// For the initial blueprint, all zones within a collection are assumed to
    /// have the [`InService`](BlueprintZoneDisposition::InService)
    /// disposition.
    pub fn initial_from_collection(collection: &OmicronZonesConfig) -> (r: Self)
        ensures
            r@.generation == collection@.generation,
            r@.zones == sorted::<BlueprintZoneConfig>(in_service(collection@.zones)),
    {
        let mut ret = BlueprintZonesConfig {
            generation: collection.generation,
            zones: zones_in_service(&collection.zones),
        };
        ret.sort();
        ret
    }

    /// Sorts the list of zones stored in this configuration.
    pub fn sort(&mut self)
        ensures
            final(self)@.generation == old(self)@.generation,
            final(self)@.zones == sorted::<BlueprintZoneConfig>(old(self)@.zones),
    {
        sort_by_key(&mut self.zones);
    }

    /// Converts self to an [`OmicronZonesConfig`] of the zones that match the
    /// provided [`BlueprintZoneFilter`].
    pub fn to_omicron_zones_config(&self, filter: BlueprintZoneFilter) -> (r: OmicronZonesConfig)
        ensures
            r@.generation == self@.generation,
            r@.zones == matching_configs(self@.zones, filter),
    {
        let mut zones: Vec<OmicronZoneConfig> = Vec::new();
        let mut i: usize = 0;
        let ghost pred = |z: ZoneView| z.disposition.matching(filter);
        let ghost config = |z: ZoneView| z.config;
        while i < self.zones.len()
            invariant
                i <= self.zones.len(),
                pred == (|z: ZoneView| z.disposition.matching(filter)),
                config == (|z: ZoneView| z.config),
                views(zones@) == self@.zones.take(i as int).filter(pred).map_values(config),
            decreases self.zones.len() - i,
        {
            let z = &self.zones[i];
            let ghost before = views(zones@);
            proof {
                assert(self@.zones.take(i + 1) =~= self@.zones.take(i as int).push(z@));
                self@.zones.take(i as int).lemma_filter_push(z@, pred);
            }
            if z.disposition.matches(filter) {
                zones.push(z.config.clone());
                proof {
                    assert(views(zones@) =~= before.push(z@.config));
                    assert(self@.zones.take(i as int).filter(pred).push(z@).map_values(config)
                        =~= before.push(z@.config));
                }
            }
            i = i + 1;
        }
        assert(self@.zones.take(self.zones.len() as int) =~= self@.zones);
        OmicronZonesConfig { generation: self.generation, zones }
    }
}

/// Describe high-level metadata about a blueprint.
#[derive(Debug, PartialEq, Eq)]
pub struct BlueprintMetadata {
    /// unique identifier for this blueprint
    pub id: Uuid,
    /// which blueprint this blueprint is based on
    pub parent_blueprint_id: Option<Uuid>,
    /// internal DNS version when this blueprint was created
    pub internal_dns_version: Generation,
    /// external DNS version when this blueprint was created
    pub external_dns_version: Generation,
    /// when this blueprint was generated (for debugging)
    pub time_created: Timestamp,
    /// identity of the component that generated the blueprint (for debugging)
    pub creator: String,
    /// human-readable string describing why this blueprint was created
    /// (for debugging)
    pub comment: String,
}

/// What a [`BlueprintMetadata`] stands for.
#[verifier::ext_equal]
pub struct MetadataView {
    pub id: Uuid,
    pub parent_blueprint_id: Option<Uuid>,
    pub internal_dns_version: Generation,
    pub external_dns_version: Generation,
    pub time_created: Timestamp,
    pub creator: Seq<char>,
    pub comment: Seq<char>,
}

impl View for BlueprintMetadata {
    type V = MetadataView;

    open spec fn view(&self) -> MetadataView {
        MetadataView {
            id: self.id,
            parent_blueprint_id: self.parent_blueprint_id,
            internal_dns_version: self.internal_dns_version,
            external_dns_version: self.external_dns_version,
            time_created: self.time_created,
            creator: self.creator@,
            comment: self.comment@,
        }
    }
}

impl Clone for BlueprintMetadata {
    fn clone(&self) -> (r: Self)
        ensures
            r@ == self@,
    {
        BlueprintMetadata {
            id: self.id,
            parent_blueprint_id: self.parent_blueprint_id,
            internal_dns_version: self.internal_dns_version,
            external_dns_version: self.external_dns_version,
            time_created: self.time_created,
            creator: self.creator.clone(),
            comment: self.comment.clone(),
        }
    }
}

/// How a blueprint is named in messages.
pub open spec fn blueprint_display_id(id: Uuid) -> Seq<char> {
    "blueprint "@ + uuid_text(id)
}

impl BlueprintMetadata {
    /// How the blueprint is named in messages.
    pub fn display_id(&self) -> (r: String)
        ensures
            r@ == blueprint_display_id(self@.id),
    {
        "blueprint ".to_owned().concat(uuid_to_string(self.id).as_str())
    }
}

/// Describes a complete set of software and configuration for the system.
///
/// A sled is considered part of the control plane cluster iff it has an entry
/// in `blueprint_zones`.
#[derive(Clone, Debug, PartialEq, Eq)]
pub struct Blueprint {
    /// unique identifier for this blueprint
    pub id: Uuid,
    /// A map of sled id -> zones deployed on each sled, along with the
    /// [`BlueprintZoneDisposition`] for each zone.
    pub blueprint_zones: BTreeMap<Uuid, BlueprintZonesConfig>,
    /// which blueprint this blueprint is based on
    pub parent_blueprint_id: Option<Uuid>,
    /// internal DNS version when this blueprint was created
    pub internal_dns_version: Generation,
    /// external DNS version when this blueprint was created
    pub external_dns_version: Generation,
    /// when this blueprint was generated (for debugging)
    pub time_created: Timestamp,
    /// identity of the component that generated the blueprint (for debugging)
    pub creator: String,
    /// human-readable string describing why this blueprint was created
    /// (for debugging)
    pub comment: String,
}

/// What a [`Blueprint`] stands for.
#[verifier::ext_equal]
pub struct BlueprintView {
    pub metadata: MetadataView,
    pub zones: Map<Uuid, ZonesView>,
}

/// What the zones of each sled stand for.
pub open spec fn zones_by_sled(map: Map<Uuid, BlueprintZonesConfig>) -> Map<Uuid, ZonesView> {
    map.map_values(|z: BlueprintZonesConfig| z@)
}

impl View for Blueprint {
    type V = BlueprintView;

    open spec fn view(&self) -> BlueprintView {
        BlueprintView {
            metadata: MetadataView {
                id: self.id,
                parent_blueprint_id: self.parent_blueprint_id,
                internal_dns_version: self.internal_dns_version,
                external_dns_version: self.external_dns_version,
                time_created: self.time_created,
                creator: self.creator@,
                comment: self.comment@,
            },
            zones: zones_by_sled(self.blueprint_zones@),
        }
    }
}

/// The zones that match a filter, each with the id of its sled: sled by sled
/// in the order of `ids`, and in the order recorded for each sled.
pub open spec fn zones_of_sleds(
    ids: Seq<Uuid>,
    zones: Map<Uuid, ZonesView>,
    filter: BlueprintZoneFilter,
) -> Seq<(Uuid, ZoneView)>
    decreases ids.len(),
{
    if ids.len() == 0 {
        Seq::empty()
    } else {
        let id = ids.last();
        zones_of_sleds(ids.drop_last(), zones, filter) + zones[id].zones.filter(
            |z: ZoneView| z.disposition.matching(filter),
        ).map_values(|z: ZoneView| (id, z))
    }
}

/// The zones of all sleds, each with the id of its sled: sled by sled in the
/// order of `ids`, and in the order recorded for each sled.
pub open spec fn configs_of_sleds(
    ids: Seq<Uuid>,
    zones: Map<Uuid, ZonesView>,
) -> Seq<(Uuid, ZoneConfigView)>
    decreases ids.len(),
{
    if ids.len() == 0 {
        Seq::empty()
    } else {
        let id = ids.last();
        configs_of_sleds(ids.drop_last(), zones) + zones[id].zones.map_values(
            |z: ZoneView| (id, z.config),
        )
    }
}

/// What pairs of a sled id and a zone stand for.
pub open spec fn pair_views<T: View>(list: Seq<(Uuid, &T)>) -> Seq<(Uuid, T::V)> {
    list.map_values(|p: (Uuid, &T)| (p.0, p.1@))
}

/// The zones of one sled, under its id.
pub(crate) fn zones_of_sled(map: &BTreeMap<Uuid, BlueprintZonesConfig>, id: Uuid) -> (r:
    &BlueprintZonesConfig)
    requires
        map@.contains_key(id),
    ensures
        *r == map@[id],
{
    match get(map, id) {
        Some(zones) => zones,
        None => vstd::pervasive::unreached(),
    }
}

impl Blueprint {
    /// Return metadata for this blueprint.
    pub fn metadata(&self) -> (r: BlueprintMetadata)
        ensures
            r@ == self@.metadata,
    {
        BlueprintMetadata {
            id: self.id,
            parent_blueprint_id: self.parent_blueprint_id,
            internal_dns_version: self.internal_dns_version,
            external_dns_version: self.external_dns_version,
            time_created: self.time_created,
            creator: self.creator.clone(),
            comment: self.comment.clone(),
        }
    }

    /// The [`BlueprintZoneConfig`] instances in the blueprint that match the
    /// provided filter, along with the associated sled id.
    pub fn all_blueprint_zones(&self, filter: BlueprintZoneFilter) -> (r: Vec<
        (Uuid, &BlueprintZoneConfig),
    >)
        ensures
            pair_views(r@) == zones_of_sleds(sorted_ids(self@.zones), self@.zones, filter),
            in_key_order(self@.zones),
    {
        let ids = ids_in_order(&self.blueprint_zones);
        let mut out: Vec<(Uuid, &BlueprintZoneConfig)> = Vec::new();
        let mut i: usize = 0;
        proof {
            lemma_same_ids(self.blueprint_zones@, self@.zones);
        }
        while i < ids.len()
            invariant
                i <= ids.len(),
                forall|k: u128| ids@.contains(k) <==> self.blueprint_zones@.contains_key(k),
                pair_views(out@) == zones_of_sleds(ids@.take(i as int), self@.zones, filter),
            decreases ids.len() - i,
        {
            let id = ids[i];
            assert(ids@.contains(id));
            let zones = &zones_of_sled(&self.blueprint_zones, id).zones;
            let ghost before = pair_views(out@);
            let ghost all = self@.zones[id].zones;
            let ghost pred = |z: ZoneView| z.disposition.matching(filter);
            let ghost tag = |z: ZoneView| (id, z);
            let mut j: usize = 0;
            assert(all =~= views(zones@));
            assert(before =~= before + all.take(0).filter(pred).map_values(tag));
            while j < zones.len()
                invariant
                    j <= zones.len(),
                    all == views(zones@),
                    pred == (|z: ZoneView| z.disposition.matching(filter)),
                    tag == (|z: ZoneView| (id, z)),
                    pair_views(out@) == before + all.take(j as int).filter(pred).map_values(tag),
                decreases zones.len() - j,
            {
                let z = &zones[j];
                let ghost so_far = pair_views(out@);
                proof {
                    assert(all.take(j + 1) =~= all.take(j as int).push(z@));
                    all.take(j as int).lemma_filter_push(z@, pred);
                }
                if z.disposition.matches(filter) {
                    out.push((id, z));
                    proof {
                        assert(pair_views(out@) =~= so_far.push((id, z@)));
                        assert(all.take(j as int).filter(pred).push(z@).map_values(tag)
                            =~= all.take(j as int).filter(pred).map_values(tag).push((id, z@)));
                    }
                }
                j = j + 1;
            }
            proof {
                assert(all.take(zones.len() as int) =~= all);
                assert(ids@.take(i + 1).drop_last() =~= ids@.take(i as int));
                assert(ids@.take(i + 1).last() == id);
            }
            i = i + 1;
        }
        assert(ids@.take(ids.len() as int) =~= ids@);
        out
    }

    /// All the [`OmicronZoneConfig`] instances in the blueprint, along with
    /// the associated sled id.
    pub fn all_omicron_zones(&self) -> (r: Vec<(Uuid, &OmicronZoneConfig)>)
        ensures
            pair_views(r@) == configs_of_sleds(sorted_ids(self@.zones), self@.zones),
            in_key_order(self@.zones),
    {
        let ids = ids_in_order(&self.blueprint_zones);
        let mut out: Vec<(Uuid, &OmicronZoneConfig)> = Vec::new();
        let mut i: usize = 0;
        proof {
            lemma_same_ids(self.blueprint_zones@, self@.zones);
        }
        while i < ids.len()
            invariant
                i <= ids.len(),
                forall|k: u128| ids@.contains(k) <==> self.blueprint_zones@.contains_key(k),
                pair_views(out@) == configs_of_sleds(ids@.take(i as int), self@.zones),
            decreases ids.len() - i,
        {
            let id = ids[i];
            assert(ids@.contains(id));
            let zones = &zones_of_sled(&self.blueprint_zones, id).zones;
            let ghost before = pair_views(out@);
            let ghost all = self@.zones[id].zones;
            let ghost tag = |z: ZoneView| (id, z.config);
            let mut j: usize = 0;
            assert(all =~= views(zones@));
            assert(before =~= before + all.take(0).map_values(tag));
            while j < zones.len()
                invariant
                    j <= zones.len(),
                    all == views(zones@),
                    tag == (|z: ZoneView| (id, z.config)),
                    pair_views(out@) == before + all.take(j as int).map_values(tag),
                decreases zones.len() - j,
            {
                let z = &zones[j];
                let ghost so_far = pair_views(out@);
                out.push((id, &z.config));
                proof {
                    assert(pair_views(out@) =~= so_far.push((id, z@.config)));
                    assert(all.take(j + 1).map_values(tag) =~= all.take(j as int).map_values(
                        tag,
                    ).push((id, z@.config)));
                }
                j = j + 1;
            }
            proof {
                assert(all.take(zones.len() as int) =~= all);
                assert(ids@.take(i + 1).drop_last() =~= ids@.take(i as int));
                assert(ids@.take(i + 1).last() == id);
            }
            i = i + 1;
        }
        assert(ids@.take(ids.len() as int) =~= ids@);
        out
    }

    /// The ids of all sleds in the blueprint, smallest first.
    pub fn sleds(&self) -> (r: Vec<Uuid>)
        ensures
            r@ == sorted_ids(self@.zones),
            increasing(id_numbers(r@)),
            forall|id: Uuid| r@.contains(id) <==> self@.zones.contains_key(id),
    {
        proof {
            lemma_same_ids(self.blueprint_zones@, self@.zones);
        }
        ids_in_order(&self.blueprint_zones)
    }
}

// ---
// Laws
// ---

/// The filter for all zones leaves none out.
pub proof fn law_all_zones_match(d: BlueprintZoneDisposition)
    ensures
        d.matching(BlueprintZoneFilter::All),
{
}

/// No filter leaves out a zone in service.
pub proof fn law_zones_in_service_match(filter: BlueprintZoneFilter)
    ensures
        BlueprintZoneDisposition::InService.matching(filter),
{
}

/// The zones of the initial blueprint are those of the collection: whatever the
/// filter, its export has each zone as often as the collection had it.
pub proof fn law_initial_zones_are_exported(
    zones: Seq<ZoneConfigView>,
    filter: BlueprintZoneFilter,
)
    ensures
        matching_configs(
            sorted::<BlueprintZoneConfig>(in_service(zones)),
            filter,
        ).to_multiset() == zones.to_multiset(),
{
    let all = in_service(zones);
    let list = sorted::<BlueprintZoneConfig>(all);
    let pred = |z: ZoneView| z.disposition.matching(filter);
    let config = |z: ZoneView| z.config;
    lemma_sorted::<BlueprintZoneConfig>(all);
    lemma_sorted_mapped::<BlueprintZoneConfig, ZoneConfigView>(all, config);
    assert(all.map_values(config) =~= zones);
    assert forall|i: int| 0 <= i < list.len() implies pred(#[trigger] list[i]) by {
        broadcast use vstd::seq_lib::group_to_multiset_ensures;

        assert(list.to_multiset().count(list[i]) > 0);
        assert(all.contains(list[i]));
    }
    lemma_filter_all(list, pred);
}

proof fn lemma_filter_all<T>(list: Seq<T>, pred: spec_fn(T) -> bool)
    requires
        forall|i: int| 0 <= i < list.len() ==> pred(#[trigger] list[i]),
    ensures
        list.filter(pred) == list,
    decreases list.len(),
{
    if list.len() == 0 {
        reveal(Seq::filter);
        assert(list.filter(pred) =~= list);
    } else {
        let (front, last) = (list.drop_last(), list.last());
        assert forall|i: int| 0 <= i < front.len() implies pred(#[trigger] front[i]) by {
            assert(front[i] == list[i]);
        }
        lemma_filter_all(front, pred);
        assert(pred(list[list.len() - 1]));
        assert(list =~= front.push(last));
        front.lemma_filter_push(last, pred);
    }
}

} // verus!
