use std::collections::BTreeMap;
use std::sync::Arc;

use omicron::deployment::{
    Blueprint, Policy, SledPolicy, SledProvisionPolicy, SledResources, SledState,
};
use omicron::description::SystemDescription;
use omicron::inventory::{BaseboardId, Collection, HardwareFound, SledAgent};
use omicron::net::{IpRange, Ipv4Range, Ipv6Network};
use omicron::system::{
    join_comma_or_none, DnsConfigParams, DnsConfigZone, DuplicateError, ExampleSystem, KeyError,
    LoadSerializedResultBuilder, NonEmptySystemError, ObjectId, SimSystem, SimSystemLogEntry,
    UnstableReconfiguratorState,
};
use omicron::time::Timestamp;

const TIME: Timestamp = Timestamp { secs: 1_700_000_000, nanos: 0 };
const SLED_1: u128 = 0x51;
const SLED_2: u128 = 0x52;
const SLED_3: u128 = 0x53;

fn collection(id: u128) -> Collection {
    Collection {
        id,
        omicron_zones: BTreeMap::new(),
        sled_agents: BTreeMap::new(),
        sps: Vec::new(),
        rots: Vec::new(),
    }
}

fn blueprint(id: u128, comment: &str) -> Blueprint {
    Blueprint {
        id,
        blueprint_zones: BTreeMap::new(),
        parent_blueprint_id: None,
        internal_dns_version: 3,
        external_dns_version: 4,
        time_created: TIME,
        creator: "test".to_string(),
        comment: comment.to_string(),
    }
}

fn dns(generation: u64) -> Arc<DnsConfigParams> {
    Arc::new(DnsConfigParams { generation, time_created: TIME, zones: Vec::new() })
}

fn dns_zone(name: &str) -> DnsConfigZone {
    DnsConfigZone { zone_name: name.to_string(), records: "{}".to_string() }
}

fn example() -> ExampleSystem {
    ExampleSystem {
        system: SystemDescription::new(),
        collection: collection(1),
        initial_blueprint: blueprint(2, "initial"),
    }
}

#[test]
fn a_new_system_is_empty() {
    let system = SimSystem::new();
    assert!(system.is_empty());
    assert!(system.all_collections().is_empty());
    assert!(system.all_blueprints().is_empty());
    assert!(system.all_internal_dns().is_empty());
    assert!(system.all_external_dns().is_empty());
    assert!(!system.description().has_sleds());
    assert_eq!(
        system.get_collection(5).unwrap_err(),
        KeyError { id: ObjectId::Collection(5) }
    );
    assert_eq!(system.get_blueprint(5).unwrap_err(), KeyError { id: ObjectId::Blueprint(5) });
    assert_eq!(
        system.get_internal_dns(5).unwrap_err(),
        KeyError { id: ObjectId::InternalDns(5) }
    );
    assert_eq!(
        system.get_external_dns(5).unwrap_err(),
        KeyError { id: ObjectId::ExternalDns(5) }
    );
}

#[test]
fn what_was_added_is_found() {
    let system = SimSystem::new();
    let mut builder = system.to_mut();
    builder.add_collection(Arc::new(collection(9))).unwrap();
    builder.add_collection(Arc::new(collection(3))).unwrap();
    builder.add_blueprint(Arc::new(blueprint(7, "first"))).unwrap();
    builder.add_internal_dns(dns(2)).unwrap();
    builder.add_internal_dns(dns(1)).unwrap();
    builder.add_external_dns(dns(8)).unwrap();
    assert_eq!(builder.get_collection(3).unwrap().id, 3);
    assert_eq!(builder.get_blueprint(7).unwrap().comment, "first");
    assert_eq!(builder.get_internal_dns(1).unwrap().generation, 1);
    assert_eq!(builder.get_external_dns(8).unwrap().generation, 8);
    assert!(!builder.is_empty());
    // The system that the builder started from is as it was.
    assert!(system.is_empty());

    let (system, log) = builder.into_parts();
    // Collections come in the order in which they were added, and DNS
    // configurations by generation.
    assert_eq!(system.all_collections().iter().map(|c| c.id).collect::<Vec<_>>(), vec![9, 3]);
    assert_eq!(
        system.all_internal_dns().iter().map(|p| p.generation).collect::<Vec<_>>(),
        vec![1, 2]
    );
    assert_eq!(log.len(), 6);
    assert!(matches!(log[0], SimSystemLogEntry::AddCollection(9)));
    assert!(matches!(log[2], SimSystemLogEntry::AddBlueprint(7)));
    assert!(matches!(log[4], SimSystemLogEntry::AddInternalDns(1)));
    assert!(matches!(log[5], SimSystemLogEntry::AddExternalDns(8)));
}

#[test]
fn duplicates_are_not_added() {
    let mut builder = SimSystem::new().to_mut();
    builder.add_collection(Arc::new(collection(1))).unwrap();
    builder.add_blueprint(Arc::new(blueprint(1, "first"))).unwrap();
    builder.add_internal_dns(dns(1)).unwrap();
    builder.add_external_dns(dns(1)).unwrap();
    assert_eq!(
        builder.add_collection(Arc::new(collection(1))),
        Err(DuplicateError { id: ObjectId::Collection(1) })
    );
    assert_eq!(
        builder.add_blueprint(Arc::new(blueprint(1, "second"))),
        Err(DuplicateError { id: ObjectId::Blueprint(1) })
    );
    assert_eq!(
        builder.add_internal_dns(dns(1)),
        Err(DuplicateError { id: ObjectId::InternalDns(1) })
    );
    assert_eq!(
        builder.add_external_dns(dns(1)),
        Err(DuplicateError { id: ObjectId::ExternalDns(1) })
    );
    assert_eq!(builder.get_blueprint(1).unwrap().comment, "first");
    let (_, log) = builder.into_parts();
    assert_eq!(log.len(), 4);
}

#[test]
fn a_system_can_be_wiped() {
    let mut builder = SimSystem::new().to_mut();
    builder.add_collection(Arc::new(collection(1))).unwrap();
    assert_eq!(
        builder.load_example(example(), blueprint(4, ""), dns_zone("a"), dns_zone("b")),
        Err(NonEmptySystemError {})
    );
    builder.wipe();
    assert!(builder.is_empty());
    builder.load_example(example(), blueprint(4, ""), dns_zone("a"), dns_zone("b")).unwrap();
    let (_, log) = builder.into_parts();
    assert_eq!(log.len(), 3);
    assert!(matches!(log[1], SimSystemLogEntry::Wipe));
    assert!(matches!(
        log[2],
        SimSystemLogEntry::LoadExample {
            collection_id: 1,
            blueprint_id: 4,
            internal_dns_version: 3,
            external_dns_version: 4,
        }
    ));
}

#[test]
fn an_example_is_loaded() {
    let mut builder = SimSystem::new().to_mut();
    let later = Timestamp { secs: TIME.secs + 1, nanos: 0 };
    builder
        .load_example_at(example(), blueprint(4, "new"), dns_zone("in"), TIME, dns_zone("ex"), later)
        .unwrap();
    assert_eq!(builder.all_blueprints().iter().map(|b| b.id).collect::<Vec<_>>(), vec![2, 4]);
    assert_eq!(builder.all_collections().len(), 1);
    let internal = builder.get_internal_dns(3).unwrap();
    assert_eq!(internal.time_created, TIME);
    assert_eq!(internal.zones[0].zone_name, "in");
    let external = builder.get_external_dns(4).unwrap();
    assert_eq!(external.time_created, later);
    assert_eq!(external.zones[0].zone_name, "ex");
}

fn resources(state: SledState) -> SledResources {
    SledResources {
        policy: SledPolicy::InService { provision_policy: SledProvisionPolicy::Provisionable },
        state,
        zpools: vec!["oxp_1".to_string()],
        subnet: Ipv6Network { addr: 0xfd00 << 112, prefix: 64 },
    }
}

fn baseboard(serial: &str) -> BaseboardId {
    BaseboardId { part_number: "part".to_string(), serial_number: serial.to_string() }
}

fn state() -> UnstableReconfiguratorState {
    let mut primary = collection(1);
    primary.sled_agents.insert(
        SLED_1,
        SledAgent { baseboard_id: Some(baseboard("one")), details: "agent".to_string() },
    );
    let found = |details: &str| HardwareFound {
        baseboard_id: baseboard("one"),
        details: details.to_string(),
    };
    primary.sps = vec![found("sp")];
    primary.rots = vec![found("rot")];
    UnstableReconfiguratorState {
        policy: Policy {
            sleds: BTreeMap::from([
                (SLED_1, resources(SledState::Active)),
                (SLED_2, resources(SledState::Active)),
                (SLED_3, resources(SledState::Decommissioned)),
            ]),
            service_ip_pool_ranges: vec![IpRange::V4(Ipv4Range { first: 1, last: 2 })],
            target_nexus_zone_count: 3,
        },
        collections: vec![collection(5), primary, collection(5)],
        blueprints: vec![blueprint(6, "first"), blueprint(6, "second")],
        internal_dns: BTreeMap::from([(1, dns(1))]),
        external_dns: BTreeMap::from([(10, dns(10)), (2, dns(2))]),
        silo_names: Vec::new(),
        external_dns_zone_names: Vec::new(),
    }
}

#[test]
fn a_serialized_state_is_loaded() {
    let mut builder = SimSystem::new().to_mut();
    let mut told = LoadSerializedResultBuilder { warnings: vec!["earlier".to_string()] };
    let result = builder.load_serialized(state(), 1, &mut told);
    assert_eq!(result.primary_collection_id, 1);
    assert_eq!(result.sled_ids, vec![SLED_1]);
    assert_eq!(result.collection_ids, vec![5, 1]);
    assert_eq!(result.blueprint_ids, vec![6]);
    assert_eq!(result.internal_dns_generations, vec![1]);
    assert_eq!(result.external_dns_generations, vec![2, 10]);
    assert_eq!(
        told.warnings,
        vec![
            "earlier".to_string(),
            "sled 00000000-0000-0000-0000-000000000052: skipped (no inventory found for sled \
             agent in collection 00000000-0000-0000-0000-000000000001"
                .to_string(),
            "collection 00000000-0000-0000-0000-000000000005: skipped (duplicate found)"
                .to_string(),
            "blueprint 00000000-0000-0000-0000-000000000006: skipped (duplicate found)".to_string(),
        ]
    );
    // The first of two duplicates is kept.
    assert_eq!(builder.get_blueprint(6).unwrap().comment, "first");
    let sled = builder.description().get_sled(SLED_1).unwrap();
    assert_eq!(sled.inventory_sled_agent.details, "agent");
    let hardware = sled.inventory_sp.as_ref().unwrap();
    assert_eq!((hardware.sp.as_str(), hardware.rot.as_str()), ("sp", "rot"));
    assert!(builder.description().get_sled(SLED_2).is_none());
    assert!(builder.description().get_sled(SLED_3).is_none());
    assert_eq!(builder.get_internal_dns(1).unwrap().generation, 1);
    assert_eq!(builder.get_external_dns(2).unwrap().generation, 2);
    assert_eq!(
        result.to_text(),
        "using collection 00000000-0000-0000-0000-000000000001 as source of sled inventory data\n\
         loaded sleds: 00000000-0000-0000-0000-000000000051\n\
         loaded collections: 00000000-0000-0000-0000-000000000005, \
         00000000-0000-0000-0000-000000000001\n\
         loaded blueprints: 00000000-0000-0000-0000-000000000006\n\
         loaded service IP pool ranges: [V4(Ipv4Range { first: 0.0.0.1, last: 0.0.0.2 })]\n\
         loaded internal DNS generations: 1\n\
         loaded external DNS generations: 2, 10\n"
    );
    let (_, log) = builder.into_parts();
    assert!(matches!(&log[0], SimSystemLogEntry::LoadSerialized(r) if r.blueprint_ids == vec![6]));
}

#[test]
fn sleds_are_described_once() {
    let mut builder = SimSystem::new().to_mut();
    let agent = SledAgent { baseboard_id: None, details: String::new() };
    let policy = resources(SledState::Active).policy;
    let description = builder.description_mut();
    description
        .sled_full(SLED_1, policy, SledState::Active, resources(SledState::Active), None, &agent)
        .unwrap();
    let error = description
        .sled_full(SLED_1, policy, SledState::Active, resources(SledState::Active), None, &agent)
        .unwrap_err();
    assert_eq!(error.sled_id, SLED_1);
    println!("{}", error.to_text());
    assert!(builder.description().has_sleds());
    assert!(!builder.is_empty());
}

#[test]
fn lists_with_commas() {
    let list = |parts: &[&str]| parts.iter().map(|p| p.to_string()).collect::<Vec<String>>();
    assert_eq!(join_comma_or_none(&list(&[])), "(none)");
    assert_eq!(join_comma_or_none(&list(&["a", "b"])), "a, b");
}
