use std::collections::BTreeMap;

use omicron::blueprint_diff::{BlueprintDiffSingleError, DiffBeforeMetadata};
use omicron::deployment::{
    Blueprint, BlueprintZoneConfig, BlueprintZoneDisposition, BlueprintZoneFilter,
    BlueprintZonesConfig, OmicronZoneConfig, OmicronZoneType, OmicronZonesConfig, Policy,
    SledFilter, SledPolicy, SledProvisionPolicy, SledResources, SledState, ZoneKind,
};
use omicron::inventory::{Collection, OmicronZonesFound};
use omicron::net::Ipv6Network;
use omicron::sectioned_table::{Section, SectionRow, SectionSpacing, SectionedTable, Subsection};
use omicron::time::Timestamp;

const SLED_1: u128 = 0x11111111_0000_4000_8000_000000000001;
const SLED_2: u128 = 0x22222222_0000_4000_8000_000000000002;
const SLED_3: u128 = 0x33333333_0000_4000_8000_000000000003;

fn config(id: u128, kind: ZoneKind) -> OmicronZoneConfig {
    OmicronZoneConfig {
        id,
        underlay_address: 0xfd00_1122_3344_0101_0000_0000_0000_0000 + id,
        zone_type: OmicronZoneType { kind, config: "{}".to_string() },
    }
}

fn zone(id: u128, kind: ZoneKind) -> BlueprintZoneConfig {
    BlueprintZoneConfig {
        config: config(id, kind),
        disposition: BlueprintZoneDisposition::InService,
    }
}

fn zones(generation: u64, zones: Vec<BlueprintZoneConfig>) -> BlueprintZonesConfig {
    BlueprintZonesConfig { generation, zones }
}

fn blueprint(id: u128, sleds: Vec<(u128, BlueprintZonesConfig)>) -> Blueprint {
    Blueprint {
        id,
        blueprint_zones: sleds.into_iter().collect(),
        parent_blueprint_id: None,
        internal_dns_version: 1,
        external_dns_version: 2,
        time_created: Timestamp { secs: 1_700_000_000, nanos: 123_456_789 },
        creator: "test".to_string(),
        comment: String::new(),
    }
}

fn ids(zones: &[BlueprintZoneConfig]) -> Vec<u128> {
    zones.iter().map(|z| z.config.id).collect()
}

#[test]
fn dispositions_match_filters() {
    for filter in [
        BlueprintZoneFilter::All,
        BlueprintZoneFilter::SledAgentPut,
        BlueprintZoneFilter::VpcFirewall,
    ] {
        assert!(BlueprintZoneDisposition::InService.matches(filter));
        assert!(BlueprintZoneDisposition::Quiesced.matches(filter));
        assert_eq!(
            BlueprintZoneDisposition::all_matching(filter),
            vec![BlueprintZoneDisposition::InService, BlueprintZoneDisposition::Quiesced]
        );
    }
    let filter = BlueprintZoneFilter::InternalDns;
    assert!(BlueprintZoneDisposition::InService.matches(filter));
    assert!(!BlueprintZoneDisposition::Quiesced.matches(filter));
    assert_eq!(
        BlueprintZoneDisposition::all_matching(filter),
        vec![BlueprintZoneDisposition::InService]
    );
    assert_eq!(BlueprintZoneDisposition::InService.as_str(), "in service");
    assert_eq!(BlueprintZoneDisposition::Quiesced.as_str(), "quiesced");
}

#[test]
fn zones_sort_by_kind_and_then_by_id() {
    let mut sled = zones(
        1,
        vec![
            zone(1, ZoneKind::Oximeter),
            zone(9, ZoneKind::Crucible),
            zone(3, ZoneKind::Crucible),
            zone(7, ZoneKind::BoundaryNtp),
        ],
    );
    sled.sort();
    assert_eq!(ids(&sled.zones), vec![7, 3, 9, 1]);
}

#[test]
fn the_initial_blueprint_exports_what_was_collected() {
    let found = OmicronZonesConfig {
        generation: 5,
        zones: vec![config(2, ZoneKind::Nexus), config(1, ZoneKind::Clickhouse)],
    };
    let initial = BlueprintZonesConfig::initial_from_collection(&found);
    assert_eq!(initial.generation, 5);
    assert_eq!(ids(&initial.zones), vec![1, 2]);
    assert!(initial.zones.iter().all(|z| z.disposition == BlueprintZoneDisposition::InService));
    let exported = initial.to_omicron_zones_config(BlueprintZoneFilter::InternalDns);
    assert_eq!(exported.generation, 5);
    assert_eq!(
        exported.zones,
        vec![config(1, ZoneKind::Clickhouse), config(2, ZoneKind::Nexus)]
    );
}

#[test]
fn exports_leave_out_what_does_not_match() {
    let mut quiesced = zone(1, ZoneKind::InternalDns);
    quiesced.disposition = BlueprintZoneDisposition::Quiesced;
    let sled = zones(3, vec![quiesced, zone(2, ZoneKind::InternalDns)]);
    let in_dns = sled.to_omicron_zones_config(BlueprintZoneFilter::InternalDns);
    assert_eq!(in_dns.zones, vec![config(2, ZoneKind::InternalDns)]);
    assert_eq!(sled.to_omicron_zones_config(BlueprintZoneFilter::All).zones.len(), 2);

    let blueprint = blueprint(
        0,
        vec![(SLED_2, zones(1, vec![zone(5, ZoneKind::Nexus)])), (SLED_1, sled)],
    );
    let listed: Vec<(u128, u128)> = blueprint
        .all_blueprint_zones(BlueprintZoneFilter::InternalDns)
        .iter()
        .map(|(sled_id, z)| (*sled_id, z.config.id))
        .collect();
    assert_eq!(listed, vec![(SLED_1, 2), (SLED_2, 5)]);
    let listed: Vec<(u128, u128)> = blueprint
        .all_omicron_zones()
        .iter()
        .map(|(sled_id, z)| (*sled_id, z.id))
        .collect();
    assert_eq!(listed, vec![(SLED_1, 1), (SLED_1, 2), (SLED_2, 5)]);
    assert_eq!(blueprint.sleds(), vec![SLED_1, SLED_2]);
}

fn resources(policy: SledPolicy, state: SledState) -> SledResources {
    SledResources {
        policy,
        state,
        zpools: Vec::new(),
        subnet: Ipv6Network { addr: 0xfd00 << 112, prefix: 64 },
    }
}

#[test]
fn discretionary_services_need_an_active_provisionable_sled() {
    let provisionable =
        SledPolicy::InService { provision_policy: SledProvisionPolicy::Provisionable };
    let not_provisionable =
        SledPolicy::InService { provision_policy: SledProvisionPolicy::NonProvisionable };
    let eligible =
        |policy, state| resources(policy, state).is_eligible_for_discretionary_services();
    assert!(eligible(provisionable, SledState::Active));
    assert!(!eligible(provisionable, SledState::Decommissioned));
    assert!(!eligible(not_provisionable, SledState::Active));
    assert!(!eligible(SledPolicy::Expunged, SledState::Active));
}

#[test]
fn decommissioned_sleds_are_filtered_out() {
    let policy = Policy {
        sleds: BTreeMap::from([
            (SLED_2, resources(SledPolicy::Expunged, SledState::Active)),
            (SLED_1, resources(SledPolicy::Expunged, SledState::Decommissioned)),
            (SLED_3, resources(SledPolicy::Expunged, SledState::Active)),
        ]),
        service_ip_pool_ranges: Vec::new(),
        target_nexus_zone_count: 3,
    };
    let listed: Vec<u128> =
        policy.all_sleds(SledFilter::Commissioned).iter().map(|(id, _)| *id).collect();
    assert_eq!(listed, vec![SLED_2, SLED_3]);
}

#[test]
fn a_blueprint_does_not_differ_from_itself() {
    let make = |order: [u128; 3]| {
        blueprint(
            1,
            vec![(SLED_1, zones(1, order.iter().map(|id| zone(*id, ZoneKind::Crucible)).collect()))],
        )
    };
    // The order in which zones are recorded does not matter.
    let diff = make([1, 2, 3]).diff_since_blueprint(&make([3, 1, 2])).unwrap();
    assert!(diff.sleds_added().is_empty());
    assert!(diff.sleds_removed().is_empty());
    assert!(diff.sleds_modified().is_empty());
    let unchanged = diff.sleds_unchanged();
    assert_eq!(unchanged.len(), 1);
    assert_eq!(unchanged[0].0, SLED_1);
    assert_eq!(ids(&unchanged[0].1.zones), vec![1, 2, 3]);
}

fn before_and_after() -> (Blueprint, Blueprint) {
    let mut changed = zone(2, ZoneKind::Nexus);
    changed.disposition = BlueprintZoneDisposition::Quiesced;
    let before = blueprint(
        0xaaaa,
        vec![
            (SLED_1, zones(1, vec![zone(7, ZoneKind::InternalNtp)])),
            (
                SLED_2,
                zones(
                    4,
                    vec![
                        zone(1, ZoneKind::Crucible),
                        zone(2, ZoneKind::Nexus),
                        zone(3, ZoneKind::Oximeter),
                    ],
                ),
            ),
        ],
    );
    let after = blueprint(
        0xbbbb,
        vec![
            (
                SLED_2,
                zones(
                    5,
                    vec![zone(1, ZoneKind::Crucible), changed, zone(4, ZoneKind::Clickhouse)],
                ),
            ),
            (SLED_3, zones(1, vec![zone(8, ZoneKind::InternalNtp)])),
        ],
    );
    (before, after)
}

#[test]
fn a_diff_tells_sleds_and_zones_apart() {
    let (before, after) = before_and_after();
    let diff = after.diff_since_blueprint(&before).unwrap();
    assert_eq!(diff.sleds_added().iter().map(|s| s.0).collect::<Vec<_>>(), vec![SLED_3]);
    assert_eq!(diff.sleds_removed().iter().map(|s| s.0).collect::<Vec<_>>(), vec![SLED_1]);
    assert!(diff.sleds_unchanged().is_empty());
    assert!(matches!(diff.before_meta(), DiffBeforeMetadata::Blueprint(meta) if meta.id == 0xaaaa));
    assert_eq!(diff.after_meta().id, 0xbbbb);

    let modified = diff.sleds_modified();
    assert_eq!(modified.len(), 1);
    let (sled_id, modified) = modified[0];
    assert_eq!(sled_id, SLED_2);
    assert_eq!(modified.sled_id, SLED_2);
    assert_eq!(modified.generations(), (4, 5));
    assert_eq!(ids(modified.zones_added()), vec![4]);
    assert_eq!(ids(modified.zones_removed()), vec![3]);
    let common: Vec<u128> =
        modified.zones_in_common().iter().map(|c| c.zone_before.config.id).collect();
    assert_eq!(common, vec![1, 2]);
    let changed = modified.zones_modified();
    assert_eq!(changed.len(), 1);
    assert_eq!(changed[0].zone_before.config.id, 2);
    assert!(changed[0].is_modified());
    assert!(changed[0].disposition_changed());
    assert!(!changed[0].config_changed());
    assert_eq!(modified.zones_unchanged().len(), 1);
    assert_eq!(modified.zones_unchanged()[0].zone_after.config.id, 1);
}

#[test]
fn exchanging_the_sides_of_a_diff() {
    let (before, after) = before_and_after();
    let back = before.diff_since_blueprint(&after).unwrap();
    assert_eq!(back.sleds_added()[0].0, SLED_1);
    assert_eq!(back.sleds_removed()[0].0, SLED_3);
    let (_, modified) = back.sleds_modified()[0];
    assert_eq!(modified.generations(), (5, 4));
    assert_eq!(ids(modified.zones_added()), vec![3]);
    assert_eq!(ids(modified.zones_removed()), vec![4]);
}

#[test]
fn another_generation_is_a_change() {
    let make = |generation| {
        blueprint(1, vec![(SLED_1, zones(generation, vec![zone(1, ZoneKind::Crucible)]))])
    };
    let diff = make(2).diff_since_blueprint(&make(1)).unwrap();
    assert_eq!(diff.sleds_modified().len(), 1);
    assert!(diff.sleds_unchanged().is_empty());
    let (_, modified) = diff.sleds_modified()[0];
    assert!(modified.zones_modified().is_empty());
    assert_eq!(modified.zones_unchanged().len(), 1);
}

#[test]
fn a_zone_must_keep_its_kind() {
    let make = |kind| blueprint(1, vec![(SLED_1, zones(1, vec![zone(1, kind)]))]);
    let error =
        make(ZoneKind::Nexus).diff_since_blueprint(&make(ZoneKind::Oximeter)).unwrap_err();
    assert_eq!(
        error.errors,
        vec![BlueprintDiffSingleError::ZoneTypeChanged {
            sled_id: SLED_1,
            zone_id: 1,
            before: ZoneKind::Oximeter,
            after: ZoneKind::Nexus,
        }]
    );
    assert_eq!(
        error.to_text(),
        "errors in diff between blueprint 00000000-0000-0000-0000-000000000001 and \
         blueprint 00000000-0000-0000-0000-000000000001:\n  \
         - on sled 11111111-0000-4000-8000-000000000001, \
         zone 00000000-0000-0000-0000-000000000001 changed type from oximeter to nexus\n"
    );
}

#[test]
fn a_blueprint_made_from_a_collection_changes_nothing() {
    let found = |zones| OmicronZonesFound {
        time_collected: Timestamp { secs: 0, nanos: 0 },
        source: "sled agent".to_string(),
        sled_id: SLED_1,
        zones: OmicronZonesConfig { generation: 9, zones },
    };
    let all = || vec![config(2, ZoneKind::Nexus), config(1, ZoneKind::Crucible)];
    let collection = Collection {
        id: 0xc0,
        omicron_zones: BTreeMap::from([(SLED_1, found(all()))]),
        sled_agents: BTreeMap::new(),
        sps: Vec::new(),
        rots: Vec::new(),
    };
    let initial = BlueprintZonesConfig::initial_from_collection(&OmicronZonesConfig {
        generation: 9,
        zones: all(),
    });
    let diff = blueprint(1, vec![(SLED_1, initial)]).diff_since_collection(&collection).unwrap();
    assert_eq!(diff.sleds_unchanged().len(), 1);
    assert!(diff.sleds_modified().is_empty());
    assert!(matches!(diff.before_meta(), DiffBeforeMetadata::Collection { id: 0xc0 }));
    assert_eq!(
        diff.before_meta().display_id(),
        "collection 00000000-0000-0000-0000-0000000000c0"
    );
}

fn records(rows: &[SectionRow]) -> Vec<Vec<String>> {
    rows.iter()
        .filter_map(|row| match row {
            SectionRow::Record(cells) => Some(cells.clone()),
            _ => None,
        })
        .collect()
}

fn subsection_named<'a>(table: &'a SectionedTable, text: &str) -> &'a Subsection {
    table
        .sections
        .iter()
        .flat_map(|section| section.subsections.iter())
        .find(|subsection| subsection.heading.contains(text))
        .unwrap()
}

#[test]
fn the_metadata_of_a_blueprint_as_a_table() {
    let blueprint = blueprint(0xb1, vec![(SLED_1, zones(3, vec![zone(1, ZoneKind::Nexus)]))]);
    let display = blueprint.display();
    assert_eq!(
        display.make_metadata_rows(),
        vec![
            vec!["  ", "created by:", "test"],
            vec!["  ", "created at:", "2023-11-14T22:13:20.123Z"],
            vec!["  ", "comment:", "(none)"],
            vec!["  ", "internal DNS version:", "1"],
            vec!["  ", "external DNS version:", "2"],
        ]
    );
    let table = display.make_metadata_table();
    assert_eq!(table.lines().count(), 5);
    assert!(table.contains("created at:"));
    assert!(table.contains("2023-11-14T22:13:20.123Z"));
    let text = display.to_text_with("ZONES");
    assert!(text.starts_with("blueprint  00000000-0000-0000-0000-0000000000b1\n"));
    assert!(text.contains("parent:    <none>"));
    assert!(text.contains("ZONES"));
    assert!(text.contains("METADATA:"));
    assert!(text.contains(&table));
    let zones = display.make_zone_table().to_text();
    assert_eq!(display.to_text(), display.to_text_with(&zones));
    assert!(display.to_text().contains(&zones));
}

#[test]
fn a_table_is_laid_out_by_sections() {
    let record = |cells: [&str; 2]| SectionRow::Record(cells.map(str::to_string).to_vec());
    let section = |heading: &str| Section {
        spacing: SectionSpacing::IfNotFirst,
        heading: heading.to_string(),
        rows: vec![record(["1", "2"]), SectionRow::Spanned("spanned".to_string())],
        subsections: vec![Subsection {
            spacing: SectionSpacing::Never,
            heading: "sub".to_string(),
            rows: vec![
                SectionRow::NestedHeading(SectionSpacing::IfNotFirst, "nested".to_string()),
                record(["3", "4"]),
                SectionRow::NestedHeading(SectionSpacing::Always, "again".to_string()),
            ],
        }],
    };
    let table = SectionedTable {
        header: vec!["first".to_string(), "second".to_string()],
        sections: vec![section("one"), section("two")],
    };
    let lines: Vec<(Vec<String>, bool)> =
        table.lines().into_iter().map(|line| (line.cells, line.spans)).collect();
    let cells = |texts: &[&str]| texts.iter().map(|text| text.to_string()).collect::<Vec<_>>();
    let of_section = |heading| {
        vec![
            (cells(&[heading]), true),
            (cells(&["1", "2"]), false),
            (cells(&["spanned"]), true),
            (cells(&["sub"]), true),
            (cells(&["nested"]), true),
            (cells(&["3", "4"]), false),
            (cells(&[""]), true),
            (cells(&["again"]), true),
        ]
    };
    let mut expected = vec![(cells(&["first", "second"]), false)];
    expected.extend(of_section("one"));
    expected.push((cells(&[""]), true));
    expected.extend(of_section("two"));
    assert_eq!(lines, expected);
    let text = table.to_text();
    let shown: Vec<&str> = text.lines().map(str::trim_end).collect();
    assert_eq!(shown[..3], [" first   second", " one", " 1       2"]);
    assert_eq!(shown[8..11], [" again", "", " two"]);
    assert_eq!(shown.len(), 18);
}

#[test]
fn text_that_spans_columns_does_not_stay_in_the_first() {
    let table = |rows| SectionedTable {
        header: vec!["a".to_string(), "b".to_string()],
        sections: vec![Section {
            spacing: SectionSpacing::Never,
            heading: "a long heading".to_string(),
            rows,
            subsections: Vec::new(),
        }],
    };
    assert_eq!(table(Vec::new()).to_text(), " a        b     \n a long heading ");
}

#[test]
fn a_changed_sled_of_the_same_generation_is_warned_about() {
    let make = |zones_on_sled| blueprint(1, vec![(SLED_1, zones(6, zones_on_sled))]);
    let before = make(vec![zone(1, ZoneKind::Nexus)]);
    let after = make(Vec::new());
    let diff = after.diff_since_blueprint(&before).unwrap();
    let table = diff.display().make_zone_diff_table();
    let sled = subsection_named(&table, "11111111");
    assert_eq!(
        sled.heading,
        "*  sled 11111111-0000-4000-8000-000000000001: zones at generation: 6"
    );
    assert!(matches!(
        &sled.rows[0],
        SectionRow::NestedHeading(SectionSpacing::Never, text)
            if text == "!   warning: generation should have changed"
    ));

    let later = blueprint(1, vec![(SLED_1, zones(7, Vec::new()))]);
    let diff = later.diff_since_blueprint(&after).unwrap();
    let table = diff.display().make_zone_diff_table();
    let sled = subsection_named(&table, "11111111");
    assert_eq!(sled.rows.len(), 1);
    assert!(matches!(
        &sled.rows[0],
        SectionRow::NestedHeading(SectionSpacing::Never, text) if text == "    (no zones)"
    ));
}

#[test]
fn the_zones_of_a_blueprint_as_a_table() {
    let blueprint = blueprint(1, vec![(SLED_1, zones(3, vec![zone(1, ZoneKind::Nexus)]))]);
    let table = blueprint.display().make_zone_table();
    assert_eq!(table.sections.len(), 1);
    assert_eq!(
        records(&table.sections[0].rows),
        vec![vec![
            "   ",
            "nexus",
            "00000000-0000-0000-0000-000000000001",
            "in service",
            "fd00:1122:3344:101::1",
        ]]
    );
}

#[test]
fn the_zones_of_a_diff_as_a_table() {
    let (before, after) = before_and_after();
    let diff = after.diff_since_blueprint(&before).unwrap();
    let display = diff.display();
    let table = display.make_zone_diff_table();
    let headings: Vec<&str> = table.sections.iter().map(|s| s.heading.as_str()).collect();
    assert_eq!(
        headings,
        vec!["  UNCHANGED SLEDS:", "  REMOVED SLEDS:", "  MODIFIED SLEDS:", "  ADDED SLEDS:"]
    );
    let removed = subsection_named(&table, "11111111");
    assert_eq!(
        removed.heading,
        "-  sled 11111111-0000-4000-8000-000000000001: zones at generation 1"
    );
    assert_eq!(
        records(&removed.rows),
        vec![vec![
            "-   ",
            "internal_ntp",
            "00000000-0000-0000-0000-000000000007",
            "in service",
            "fd00:1122:3344:101::7",
            "removed",
        ]]
    );
    let modified = subsection_named(&table, "22222222");
    assert_eq!(
        modified.heading,
        "*  sled 22222222-0000-4000-8000-000000000002: zones at generation: 4 -> 5"
    );
    assert_eq!(
        records(&modified.rows),
        vec![
            vec![
                "    ",
                "crucible",
                "00000000-0000-0000-0000-000000000001",
                "in service",
                "fd00:1122:3344:101::1",
            ],
            vec![
                "-   ",
                "oximeter",
                "00000000-0000-0000-0000-000000000003",
                "in service",
                "fd00:1122:3344:101::3",
                "removed",
            ],
            vec![
                "-   ",
                "nexus",
                "00000000-0000-0000-0000-000000000002",
                "in service",
                "fd00:1122:3344:101::2",
                "modified",
            ],
            vec!["+   ", " ├─", "", "quiesced", "fd00:1122:3344:101::2"],
            vec![
                "+   ",
                "clickhouse",
                "00000000-0000-0000-0000-000000000004",
                "in service",
                "fd00:1122:3344:101::4",
                "added",
            ],
        ]
    );
    assert!(modified
        .rows
        .iter()
        .any(|row| matches!(row, SectionRow::Spanned(text) if text == "*     └─ changed: disposition")));
    let rows = display.make_metadata_diff_rows();
    assert_eq!(
        rows,
        vec![
            vec!["    ", "internal DNS version:", "1 (unchanged)"],
            vec!["    ", "external DNS version:", "2 (unchanged)"],
        ]
    );
    let text = display.to_text_with("ZONES");
    assert!(text.starts_with(
        "from: blueprint 00000000-0000-0000-0000-00000000aaaa\n\
         to:   blueprint 00000000-0000-0000-0000-00000000bbbb\n"
    ));
}
