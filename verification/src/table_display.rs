//! Blueprints and their differences, laid out as tables.

use vstd::prelude::*;

use crate::blueprint_diff::{
    ref_views, BeforeView, BlueprintDiff, CommonView, DiffBeforeMetadata, DiffSledModified,
    DiffView, DiffZoneCommon, ModifiedView,
};
use crate::deployment::{
    pair_views, Blueprint, BlueprintView, BlueprintZoneConfig, BlueprintZonesConfig, MetadataView,
    ZoneView, ZonesView,
};
use crate::net::{ipv6_string, ipv6_text};
use crate::ordered::{entries, in_key_order, lemma_same_ids, listed};
use crate::sectioned_table::{
    cell_texts, RowView, Section, SectionRow, SectionSpacing, SectionView, SectionedTable,
    SectionedTableView, Subsection, SubsectionView,
};
use crate::sort::views;
use crate::text::{
    decimal, decimal_string, join, join_strings, texts, uuid_text, uuid_to_string, Uuid,
};

verus! {

// This aligns the heading with the first column of actual text.
pub const H1_INDENT: &'static str = "  ";

pub const SLED_HEAD_INDENT: &'static str = " ";

pub const SLED_INDENT: &'static str = "  ";

pub const ZONE_HEAD_INDENT: &'static str = "   ";

// Due to somewhat mysterious reasons with how padding works with tabled,
// this needs to be 3 columns wide rather than 4.
pub const ZONE_INDENT: &'static str = "   ";

pub const METADATA_INDENT: &'static str = "  ";

pub const METADATA_DIFF_INDENT: &'static str = "   ";

pub const ADDED_PREFIX: &'static str = "+";

pub const REMOVED_PREFIX: &'static str = "-";

pub const MODIFIED_PREFIX: &'static str = "*";

pub const UNCHANGED_PREFIX: &'static str = " ";

pub const WARNING_PREFIX: &'static str = "!";

pub const ARROW: &'static str = "->";

pub const SUB_NOT_LAST: &'static str = "├─";

pub const SUB_LAST: &'static str = "└─";

pub const ZONE_TYPE: &'static str = "zone type";

pub const ZONE_ID: &'static str = "zone ID";

pub const DISPOSITION: &'static str = "disposition";

pub const UNDERLAY_IP: &'static str = "underlay IP";

pub const ZONE_TYPE_CONFIG: &'static str = "zone type config";

pub const STATUS: &'static str = "status";

pub const REMOVED_SLEDS_HEADING: &'static str = "REMOVED SLEDS";

pub const MODIFIED_SLEDS_HEADING: &'static str = "MODIFIED SLEDS";

pub const UNCHANGED_SLEDS_HEADING: &'static str = "UNCHANGED SLEDS";

pub const ADDED_SLEDS_HEADING: &'static str = "ADDED SLEDS";

pub const REMOVED: &'static str = "removed";

pub const ADDED: &'static str = "added";

pub const MODIFIED: &'static str = "modified";

pub const METADATA_HEADING: &'static str = "METADATA";

pub const CREATED_BY: &'static str = "created by";

pub const CREATED_AT: &'static str = "created at";

pub const INTERNAL_DNS_VERSION: &'static str = "internal DNS version";

pub const EXTERNAL_DNS_VERSION: &'static str = "external DNS version";

pub const COMMENT: &'static str = "comment";

pub const UNCHANGED_PARENS: &'static str = "(unchanged)";

pub const NO_ZONES_PARENS: &'static str = "(no zones)";

pub const NONE_PARENS: &'static str = "(none)";

pub const NOT_PRESENT_IN_COLLECTION_PARENS: &'static str = "(not present in collection)";

// ---
// Rows for zones
// ---

/// The cells that describe a zone, after a first cell that indents them.
pub open spec fn zone_cells(first: Seq<char>, zone: ZoneView) -> Seq<Seq<char>> {
    seq![
        first,
        zone.config.zone_type.kind.text(),
        uuid_text(zone.config.id),
        zone.disposition.text(),
        ipv6_text(zone.config.underlay_address),
    ]
}

fn zone_cell_strings(first: String, zone: &BlueprintZoneConfig) -> (r: Vec<String>)
    ensures
        texts(r@) == zone_cells(first@, zone@),
{
    let cells = vec![
        first,
        zone.config.zone_type.kind().as_str().to_owned(),
        uuid_to_string(zone.config.id),
        zone.disposition.as_str().to_owned(),
        ipv6_string(zone.config.underlay_address),
    ];
    assert(texts(cells@) =~= zone_cells(first@, zone@));
    cells
}

/// The record of a zone.
pub open spec fn zone_record(first: Seq<char>, zone: ZoneView) -> RowView {
    RowView::Record(zone_cells(first, zone))
}

/// The record of a zone, with a status in the last column.
pub open spec fn zone_record_with_status(
    first: Seq<char>,
    zone: ZoneView,
    status: Seq<char>,
) -> RowView {
    RowView::Record(zone_cells(first, zone).push(status))
}

/// Add a zone record to this section.
pub fn add_zone_record(first_column: String, zone: &BlueprintZoneConfig, section: &mut Vec<
    SectionRow,
>)
    ensures
        views(final(section)@) == views(old(section)@).push(zone_record(first_column@, zone@)),
{
    section.push(SectionRow::Record(zone_cell_strings(first_column, zone)));
    assert(views(section@) =~= views(old(section)@).push(zone_record(first_column@, zone@)));
}

/// Add a zone record with a status to this section.
pub fn add_zone_record_with_status(
    first_column: String,
    zone: &BlueprintZoneConfig,
    status: &str,
    section: &mut Vec<SectionRow>,
)
    ensures
        views(final(section)@) == views(old(section)@).push(
            zone_record_with_status(first_column@, zone@, status@),
        ),
{
    let mut cells = zone_cell_strings(first_column, zone);
    let ghost before = texts(cells@);
    cells.push(status.to_owned());
    assert(texts(cells@) =~= before.push(status@));
    section.push(SectionRow::Record(cells));
    assert(views(section@) =~= views(old(section)@).push(
        zone_record_with_status(first_column@, zone@, status@),
    ));
}

/// What changed about a zone, named in a fixed order.
pub open spec fn what_changed(zone: CommonView) -> Seq<Seq<char>> {
    let before = zone.zone_before;
    let after = zone.zone_after;
    (if before.config.zone_type != after.config.zone_type {
        seq![ZONE_TYPE_CONFIG@]
    } else {
        seq![]
    }) + (if before.disposition != after.disposition {
        seq![DISPOSITION@]
    } else {
        seq![]
    }) + (if before.config.underlay_address != after.config.underlay_address {
        seq![UNDERLAY_IP@]
    } else {
        seq![]
    })
}

/// The rows of a zone that changed: what it was, what it became, and what of
/// it changed.
pub open spec fn modified_zone_rows(zone: CommonView) -> Seq<RowView> {
    seq![
        zone_record_with_status(REMOVED_PREFIX@ + ZONE_INDENT@, zone.zone_before, MODIFIED@),
        RowView::Record(
            seq![
                ADDED_PREFIX@ + ZONE_INDENT@,
                // First two columns of data are skipped over since they're
                // always the same.
                " "@ + SUB_NOT_LAST@,
                ""@,
                zone.zone_after.disposition.text(),
                ipv6_text(zone.zone_after.config.underlay_address),
            ],
        ),
        RowView::Spanned(
            MODIFIED_PREFIX@ + ZONE_INDENT@ + "  "@ + SUB_LAST@ + " changed: "@ + join(
                what_changed(zone),
                ", "@,
            ),
        ),
    ]
}

fn what_changed_strings(modified: &DiffZoneCommon) -> (r: Vec<String>)
    ensures
        texts(r@) == what_changed(modified@),
{
    let before = &modified.zone_before;
    let after = &modified.zone_after;
    let mut out: Vec<String> = Vec::new();
    if before.config.zone_type != after.config.zone_type {
        out.push(ZONE_TYPE_CONFIG.to_owned());
    }
    if before.disposition != after.disposition {
        out.push(DISPOSITION.to_owned());
    }
    if before.config.underlay_address != after.config.underlay_address {
        out.push(UNDERLAY_IP.to_owned());
    }
    assert(texts(out@) =~= what_changed(modified@));
    out
}

/// Add a change table for the zone to the section.
///
/// At least something must have changed besides the zone's id.
pub fn add_modified_zone_records(modified: &DiffZoneCommon, section: &mut Vec<SectionRow>)
    requires
        what_changed(modified@).len() > 0,
    ensures
        views(final(section)@) == views(old(section)@) + modified_zone_rows(modified@),
{
    let before = &modified.zone_before;
    let after = &modified.zone_after;

    // Before record.
    add_zone_record_with_status(
        REMOVED_PREFIX.to_owned().concat(ZONE_INDENT),
        before,
        MODIFIED,
        section,
    );

    let what_changed = what_changed_strings(modified);
    let record = vec![
        ADDED_PREFIX.to_owned().concat(ZONE_INDENT),
        " ".to_owned().concat(SUB_NOT_LAST),
        "".to_owned(),
        after.disposition.as_str().to_owned(),
        ipv6_string(after.config.underlay_address),
    ];
    let ghost cells = seq![
        ADDED_PREFIX@ + ZONE_INDENT@,
        " "@ + SUB_NOT_LAST@,
        ""@,
        after@.disposition.text(),
        ipv6_text(after@.config.underlay_address),
    ];
    assert(texts(record@) =~= cells);
    let ghost rows = modified_zone_rows(modified@);
    assert(views(section@) =~= views(old(section)@).push(rows[0]));
    section.push(SectionRow::Record(record));
    assert(views(section@) =~= views(old(section)@).push(rows[0]).push(rows[1]));
    let line = MODIFIED_PREFIX.to_owned().concat(ZONE_INDENT).concat("  ").concat(SUB_LAST).concat(
        " changed: ",
    ).concat(join_strings(&what_changed, ", ").as_str());
    section.push(SectionRow::Spanned(line));
    assert(views(section@) =~= views(old(section)@).push(rows[0]).push(rows[1]).push(rows[2]));
    assert(views(section@) =~= views(old(section)@) + rows);
}

// ---
// Headings
// ---

/// The heading of a sled whose zones stand at one generation.
pub open spec fn sled_heading(prefix: Seq<char>, sled_id: Uuid, generation: u64) -> Seq<char> {
    prefix + SLED_INDENT@ + "sled "@ + uuid_text(sled_id) + ": zones at generation "@ + decimal(
        generation as nat,
    )
}

fn sled_heading_string(prefix: &str, sled_id: Uuid, generation: u64) -> (r: String)
    ensures
        r@ == sled_heading(prefix@, sled_id, generation),
{
    prefix.to_owned().concat(SLED_INDENT).concat("sled ").concat(
        uuid_to_string(sled_id).as_str(),
    ).concat(": zones at generation ").concat(decimal_string(generation).as_str())
}

/// The header of a table of zones.
pub open spec fn header_cells() -> Seq<Seq<char>> {
    seq![SLED_INDENT@, ZONE_TYPE@, ZONE_ID@, DISPOSITION@, UNDERLAY_IP@]
}

/// The header of a table of zones.
pub fn header_row() -> (r: Vec<String>)
    ensures
        texts(r@) == header_cells(),
{
    let row = vec![
        // First column is so that the header border aligns with the ZONE
        // TABLE section header.
        SLED_INDENT.to_owned(),
        ZONE_TYPE.to_owned(),
        ZONE_ID.to_owned(),
        DISPOSITION.to_owned(),
        UNDERLAY_IP.to_owned(),
    ];
    assert(texts(row@) =~= header_cells());
    row
}

/// The header of a table of differences between zones.
pub open spec fn diff_header_cells() -> Seq<Seq<char>> {
    seq![SLED_HEAD_INDENT@, ZONE_TYPE@, ZONE_ID@, DISPOSITION@, UNDERLAY_IP@, STATUS@]
}

/// The header of a table of differences between zones.
pub fn diff_header_row() -> (r: Vec<String>)
    ensures
        texts(r@) == diff_header_cells(),
{
    let row = vec![
        // First column is so that the header border aligns with the ZONE
        // TABLE section header.
        SLED_HEAD_INDENT.to_owned(),
        ZONE_TYPE.to_owned(),
        ZONE_ID.to_owned(),
        DISPOSITION.to_owned(),
        UNDERLAY_IP.to_owned(),
        STATUS.to_owned(),
    ];
    assert(texts(row@) =~= diff_header_cells());
    row
}

/// The heading of the metadata of a blueprint.
pub fn metadata_heading() -> (r: String)
    ensures
        r@ == METADATA_HEADING@ + ":"@,
{
    METADATA_HEADING.to_owned().concat(":")
}

/// The heading of the metadata of a diff.
pub fn metadata_diff_heading() -> (r: String)
    ensures
        r@ == H1_INDENT@ + METADATA_HEADING@ + ":"@,
{
    H1_INDENT.to_owned().concat(METADATA_HEADING).concat(":")
}

/// The heading of a section of sleds.
pub open spec fn sleds_heading_text(prefix: Seq<char>, heading: Seq<char>) -> Seq<char> {
    prefix + SLED_HEAD_INDENT@ + heading + ":"@
}

/// The heading of a section of sleds.
pub fn sleds_heading(prefix: &str, heading: &str) -> (r: String)
    ensures
        r@ == sleds_heading_text(prefix@, heading@),
{
    prefix.to_owned().concat(SLED_HEAD_INDENT).concat(heading).concat(":")
}

/// The heading of the removed sleds.
pub fn removed_sleds_heading() -> (r: String)
    ensures
        r@ == sleds_heading_text(UNCHANGED_PREFIX@, REMOVED_SLEDS_HEADING@),
{
    sleds_heading(UNCHANGED_PREFIX, REMOVED_SLEDS_HEADING)
}

/// The heading of the added sleds.
pub fn added_sleds_heading() -> (r: String)
    ensures
        r@ == sleds_heading_text(UNCHANGED_PREFIX@, ADDED_SLEDS_HEADING@),
{
    sleds_heading(UNCHANGED_PREFIX, ADDED_SLEDS_HEADING)
}

/// The heading of the modified sleds.
pub fn modified_sleds_heading() -> (r: String)
    ensures
        r@ == sleds_heading_text(UNCHANGED_PREFIX@, MODIFIED_SLEDS_HEADING@),
{
    sleds_heading(UNCHANGED_PREFIX, MODIFIED_SLEDS_HEADING)
}

/// The heading of the unchanged sleds.
pub fn unchanged_sleds_heading() -> (r: String)
    ensures
        r@ == sleds_heading_text(UNCHANGED_PREFIX@, UNCHANGED_SLEDS_HEADING@),
{
    sleds_heading(UNCHANGED_PREFIX, UNCHANGED_SLEDS_HEADING)
}

/// The label of a row in a table that reads from top to bottom.
pub fn linear_table_label(value: &str) -> (r: String)
    ensures
        r@ == value@ + ":"@,
{
    value.to_owned().concat(":")
}

/// A value that changed.
pub fn linear_table_modified(before: &str, after: &str) -> (r: String)
    ensures
        r@ == before@ + " "@ + ARROW@ + " "@ + after@,
{
    before.to_owned().concat(" ").concat(ARROW).concat(" ").concat(after)
}

/// A value that did not change.
pub fn linear_table_unchanged(value: &str) -> (r: String)
    ensures
        r@ == value@ + " "@ + UNCHANGED_PARENS@,
{
    value.to_owned().concat(" ").concat(UNCHANGED_PARENS)
}

/// The label of the internal DNS version.
pub fn metadata_table_internal_dns() -> (r: String)
    ensures
        r@ == INTERNAL_DNS_VERSION@ + ":"@,
{
    linear_table_label(INTERNAL_DNS_VERSION)
}

/// The label of the external DNS version.
pub fn metadata_table_external_dns() -> (r: String)
    ensures
        r@ == EXTERNAL_DNS_VERSION@ + ":"@,
{
    linear_table_label(EXTERNAL_DNS_VERSION)
}

// ---
// Sleds
// ---

/// How a sled that stands on one side only, or is the same on both, is shown.
#[derive(Copy, Clone, Debug, PartialEq, Eq, Structural)]
pub enum WholeSledKind {
    Removed,
    Added,
    Unchanged,
}

impl WholeSledKind {
    /// The mark before each line of the sled.
    pub open spec fn prefix_text(self) -> Seq<char> {
        match self {
            WholeSledKind::Removed => REMOVED_PREFIX@,
            WholeSledKind::Added => ADDED_PREFIX@,
            WholeSledKind::Unchanged => UNCHANGED_PREFIX@,
        }
    }

    /// The status of each zone of the sled, if it is shown.
    pub open spec fn status_text(self) -> Option<Seq<char>> {
        match self {
            WholeSledKind::Removed => Some(REMOVED@),
            WholeSledKind::Added => Some(ADDED@),
            WholeSledKind::Unchanged => None,
        }
    }

    /// The mark before each line of the sled.
    pub fn prefix(self) -> (r: &'static str)
        ensures
            r@ == self.prefix_text(),
    {
        match self {
            WholeSledKind::Removed => REMOVED_PREFIX,
            WholeSledKind::Added => ADDED_PREFIX,
            WholeSledKind::Unchanged => UNCHANGED_PREFIX,
        }
    }

    /// The status of each zone of the sled, if it is shown.
    pub fn status(self) -> (r: Option<&'static str>)
        ensures
            match r {
                Some(s) => self.status_text() == Some(s@),
                None => self.status_text() is None,
            },
    {
        match self {
            WholeSledKind::Removed => Some(REMOVED),
            WholeSledKind::Added => Some(ADDED),
            WholeSledKind::Unchanged => None,
        }
    }

    /// The row of a zone of the sled.
    pub open spec fn zone_row(self, zone: ZoneView) -> RowView {
        match self.status_text() {
            Some(status) => zone_record_with_status(
                self.prefix_text() + ZONE_INDENT@,
                zone,
                status,
            ),
            None => zone_record(self.prefix_text() + ZONE_INDENT@, zone),
        }
    }
}

/// A sled that stands on one side only, or is the same on both.
pub open spec fn whole_sled(kind: WholeSledKind, sled_id: Uuid, zones: ZonesView) -> SubsectionView {
    SubsectionView {
        spacing: SectionSpacing::Always,
        heading: sled_heading(kind.prefix_text(), sled_id, zones.generation),
        rows: zones.zones.map_values(|z: ZoneView| kind.zone_row(z)),
    }
}

/// Adds a sled that stands on one side only, or is the same on both.
pub fn add_whole_sled_records(
    sled_id: Uuid,
    sled_zones: &BlueprintZonesConfig,
    kind: WholeSledKind,
    section: &mut Vec<Subsection>,
)
    ensures
        views(final(section)@) == views(old(section)@).push(whole_sled(kind, sled_id, sled_zones@)),
{
    let heading = sled_heading_string(kind.prefix(), sled_id, sled_zones.generation);
    let prefix = kind.prefix();
    let status = kind.status();
    let mut rows: Vec<SectionRow> = Vec::new();
    let mut i: usize = 0;
    let ghost all = sled_zones@.zones;
    let ghost row = |z: ZoneView| kind.zone_row(z);
    assert(views(rows@) =~= all.take(0).map_values(row));
    while i < sled_zones.zones.len()
        invariant
            i <= sled_zones.zones.len(),
            all == views(sled_zones.zones@),
            row == (|z: ZoneView| kind.zone_row(z)),
            prefix@ == kind.prefix_text(),
            match status {
                Some(s) => kind.status_text() == Some(s@),
                None => kind.status_text() is None,
            },
            views(rows@) == all.take(i as int).map_values(row),
        decreases sled_zones.zones.len() - i,
    {
        let zone = &sled_zones.zones[i];
        let ghost so_far = views(rows@);
        match status {
            Some(status) => {
                add_zone_record_with_status(
                    prefix.to_owned().concat(ZONE_INDENT),
                    zone,
                    status,
                    &mut rows,
                );
            },
            None => {
                add_zone_record(prefix.to_owned().concat(ZONE_INDENT), zone, &mut rows);
            },
        }
        proof {
            assert(views(rows@) =~= so_far.push(kind.zone_row(zone@)));
            assert(all.take(i + 1).map_values(row) =~= all.take(i as int).map_values(row).push(
                kind.zone_row(zone@),
            ));
        }
        i = i + 1;
    }
    assert(all.take(sled_zones.zones.len() as int) =~= all);
    section.push(Subsection { spacing: SectionSpacing::Always, heading, rows });
    assert(views(section@) =~= views(old(section)@).push(whole_sled(kind, sled_id, sled_zones@)));
}

/// The heading of a sled that changed.
pub open spec fn modified_sled_heading(sled_id: Uuid, modified: ModifiedView) -> Seq<char> {
    MODIFIED_PREFIX@ + SLED_INDENT@ + "sled "@ + uuid_text(sled_id) + ": "@ + (
    if modified.generation_before != modified.generation_after {
        "zones at generation: "@ + decimal(modified.generation_before as nat) + " -> "@ + decimal(
            modified.generation_after as nat,
        )
    } else {
        "zones at generation: "@ + decimal(modified.generation_before as nat)
    })
}

/// The warning for a changed sled whose generation stayed the same.
pub open spec fn generation_warning(modified: ModifiedView) -> Seq<RowView> {
    if modified.generation_before != modified.generation_after {
        seq![]
    } else {
        // Modified sleds should always see a generation bump.
        seq![
            RowView::NestedHeading(
                SectionSpacing::Never,
                WARNING_PREFIX@ + ZONE_HEAD_INDENT@ + "warning: generation should have changed"@,
            ),
        ]
    }
}

/// The rows of zones that changed, one zone after the other.
pub open spec fn modified_zones_rows(zones: Seq<CommonView>) -> Seq<RowView>
    decreases zones.len(),
{
    if zones.len() == 0 {
        seq![]
    } else {
        modified_zones_rows(zones.drop_last()) + modified_zone_rows(zones.last())
    }
}

/// The zones of a changed sled: unchanged, removed, modified, added.
pub open spec fn modified_sled_zone_rows(modified: ModifiedView) -> Seq<RowView> {
    generation_warning(modified) + modified.zones_unchanged().map_values(
        |c: CommonView| zone_record(UNCHANGED_PREFIX@ + ZONE_INDENT@, c.zone_before),
    ) + modified.zones_removed.map_values(
        |z: ZoneView| zone_record_with_status(REMOVED_PREFIX@ + ZONE_INDENT@, z, REMOVED@),
    ) + modified_zones_rows(modified.zones_modified()) + modified.zones_added.map_values(
        |z: ZoneView| zone_record_with_status(ADDED_PREFIX@ + ZONE_INDENT@, z, ADDED@),
    )
}

/// A sled that changed.
pub open spec fn modified_sled(sled_id: Uuid, modified: ModifiedView) -> SubsectionView {
    let rows = modified_sled_zone_rows(modified);
    SubsectionView {
        spacing: SectionSpacing::Always,
        heading: modified_sled_heading(sled_id, modified),
        rows: if rows.len() == 0 {
            seq![
                RowView::NestedHeading(
                    SectionSpacing::Never,
                    UNCHANGED_PREFIX@ + ZONE_HEAD_INDENT@ + NO_ZONES_PARENS@,
                ),
            ]
        } else {
            rows
        },
    }
}

/// Adds the zones of a list, all with one status.
fn add_zones_with_status(
    prefix: &str,
    zones: &Vec<BlueprintZoneConfig>,
    status: &str,
    section: &mut Vec<SectionRow>,
)
    ensures
        views(final(section)@) == views(old(section)@) + views(zones@).map_values(
            |z: ZoneView| zone_record_with_status(prefix@ + ZONE_INDENT@, z, status@),
        ),
{
    let mut i: usize = 0;
    let ghost before = views(section@);
    let ghost all = views(zones@);
    let ghost row = |z: ZoneView| zone_record_with_status(prefix@ + ZONE_INDENT@, z, status@);
    assert(before =~= before + all.take(0).map_values(row));
    while i < zones.len()
        invariant
            i <= zones.len(),
            all == views(zones@),
            row == (|z: ZoneView| zone_record_with_status(prefix@ + ZONE_INDENT@, z, status@)),
            views(section@) == before + all.take(i as int).map_values(row),
        decreases zones.len() - i,
    {
        let ghost so_far = views(section@);
        let zone = &zones[i];
        add_zone_record_with_status(prefix.to_owned().concat(ZONE_INDENT), zone, status, section);
        proof {
            assert(all.take(i + 1).map_values(row) =~= all.take(i as int).map_values(row).push(
                row(zone@),
            ));
            assert(views(section@) =~= so_far.push(row(zone@)));
        }
        i = i + 1;
    }
    assert(all.take(zones.len() as int) =~= all);
}

fn add_unchanged_zones(zones: &Vec<&DiffZoneCommon>, section: &mut Vec<SectionRow>)
    ensures
        views(final(section)@) == views(old(section)@) + ref_views(zones@).map_values(
            |c: CommonView| zone_record(UNCHANGED_PREFIX@ + ZONE_INDENT@, c.zone_before),
        ),
{
    let mut i: usize = 0;
    let ghost before = views(section@);
    let ghost all = ref_views(zones@);
    let ghost row = |c: CommonView| zone_record(UNCHANGED_PREFIX@ + ZONE_INDENT@, c.zone_before);
    assert(before =~= before + all.take(0).map_values(row));
    while i < zones.len()
        invariant
            i <= zones.len(),
            all == ref_views(zones@),
            row == (|c: CommonView|
                zone_record(UNCHANGED_PREFIX@ + ZONE_INDENT@, c.zone_before)),
            views(section@) == before + all.take(i as int).map_values(row),
        decreases zones.len() - i,
    {
        let ghost so_far = views(section@);
        let zone = zones[i];
        add_zone_record(
            UNCHANGED_PREFIX.to_owned().concat(ZONE_INDENT),
            &zone.zone_before,
            section,
        );
        proof {
            assert(all.take(i + 1).map_values(row) =~= all.take(i as int).map_values(row).push(
                row(zone@),
            ));
            assert(views(section@) =~= so_far.push(row(zone@)));
        }
        i = i + 1;
    }
    assert(all.take(zones.len() as int) =~= all);
}

fn add_modified_zones(zones: &Vec<&DiffZoneCommon>, section: &mut Vec<SectionRow>)
    requires
        forall|i: int|
            0 <= i < zones.len() ==> what_changed(#[trigger] ref_views(zones@)[i]).len() > 0,
    ensures
        views(final(section)@) == views(old(section)@) + modified_zones_rows(ref_views(zones@)),
{
    let mut i: usize = 0;
    let ghost before = views(section@);
    let ghost all = ref_views(zones@);
    assert(before =~= before + modified_zones_rows(all.take(0)));
    while i < zones.len()
        invariant
            i <= zones.len(),
            all == ref_views(zones@),
            forall|i: int| 0 <= i < zones.len() ==> what_changed(#[trigger] all[i]).len() > 0,
            views(section@) == before + modified_zones_rows(all.take(i as int)),
        decreases zones.len() - i,
    {
        let zone = zones[i];
        assert(all[i as int] == zone@);
        add_modified_zone_records(zone, section);
        proof {
            assert(all.take(i + 1).drop_last() =~= all.take(i as int));
            assert(views(section@) =~= before + modified_zones_rows(all.take(i + 1)));
        }
        i = i + 1;
    }
    assert(all.take(zones.len() as int) =~= all);
}

/// Something besides the id changed of each zone that changed.
proof fn lemma_something_changed(modified: ModifiedView)
    requires
        modified.ids_match(),
    ensures
        forall|i: int|
            0 <= i < modified.zones_modified().len() ==> what_changed(
                #[trigger] modified.zones_modified()[i],
            ).len() > 0,
{
    let pred = |c: CommonView| c.modified();
    let list = modified.zones_modified();
    assert forall|i: int| #![trigger list[i]] 0 <= i < list.len() implies what_changed(
        list[i],
    ).len() > 0 by {
        modified.zones_common.lemma_filter_pred(pred, i);
        let c = list[i];
        assert(list.contains(c));
        modified.zones_common.lemma_filter_contains_rev(pred, c);
        assert(modified.zones_common.contains(c));
        assert(c.zone_before.config.id == c.zone_after.config.id);
        if what_changed(c).len() == 0 {
            assert(c.zone_before.config.zone_type == c.zone_after.config.zone_type);
            assert(c.zone_before =~= c.zone_after);
        }
    }
}

/// Adds a sled that changed.
pub fn add_modified_sled_records(
    sled_id: Uuid,
    modified: &DiffSledModified,
    section: &mut Vec<Subsection>,
)
    requires
        modified@.ids_match(),
    ensures
        views(final(section)@) == views(old(section)@).push(modified_sled(sled_id, modified@)),
{
    let mut rows: Vec<SectionRow> = Vec::new();
    let (generation_before, generation_after) = modified.generations();
    let generation_heading = if generation_before != generation_after {
        "zones at generation: ".to_owned().concat(
            decimal_string(generation_before).as_str(),
        ).concat(" -> ").concat(decimal_string(generation_after).as_str())
    } else {
        // Modified sleds should always see a generation bump.
        rows.push(
            SectionRow::NestedHeading(
                SectionSpacing::Never,
                WARNING_PREFIX.to_owned().concat(ZONE_HEAD_INDENT).concat(
                    "warning: generation should have changed",
                ),
            ),
        );
        "zones at generation: ".to_owned().concat(
            decimal_string(generation_before).as_str(),
        )
    };
    let heading = MODIFIED_PREFIX.to_owned().concat(SLED_INDENT).concat("sled ").concat(
        uuid_to_string(sled_id).as_str(),
    ).concat(": ").concat(generation_heading.as_str());
    assert(views(rows@) =~= generation_warning(modified@));

    // The order is:
    //
    // 1. Unchanged
    // 2. Removed
    // 3. Modified
    // 4. Added
    //
    // The idea behind the order is to (a) group all changes together and (b)
    // put changes towards the bottom, so people have to scroll back less.
    add_unchanged_zones(&modified.zones_unchanged(), &mut rows);
    add_zones_with_status(REMOVED_PREFIX, modified.zones_removed(), REMOVED, &mut rows);
    proof {
        lemma_something_changed(modified@);
    }
    add_modified_zones(&modified.zones_modified(), &mut rows);
    add_zones_with_status(ADDED_PREFIX, modified.zones_added(), ADDED, &mut rows);
    assert(views(rows@) =~= modified_sled_zone_rows(modified@));

    // If no rows were pushed, add a row indicating that for this sled.
    if rows.is_empty() {
        rows.push(
            SectionRow::NestedHeading(
                SectionSpacing::Never,
                UNCHANGED_PREFIX.to_owned().concat(ZONE_HEAD_INDENT).concat(NO_ZONES_PARENS),
            ),
        );
    }
    section.push(Subsection { spacing: SectionSpacing::Always, heading, rows });
    proof {
        let last = section@.last();
        assert(last@.rows =~= modified_sled(sled_id, modified@).rows);
        assert(last@ =~= modified_sled(sled_id, modified@));
        assert(views(section@) =~= views(old(section)@).push(modified_sled(sled_id, modified@)));
    }
}

// ---
// Tables
// ---

/// The section of a sled in a table of zones.
pub open spec fn zone_section(sled_id: Uuid, zones: ZonesView) -> SectionView {
    SectionView {
        spacing: SectionSpacing::Always,
        heading: sled_heading(""@, sled_id, zones.generation),
        rows: if zones.zones.len() == 0 {
            seq![
                RowView::NestedHeading(
                    SectionSpacing::IfNotFirst,
                    ZONE_HEAD_INDENT@ + NO_ZONES_PARENS@,
                ),
            ]
        } else {
            zones.zones.map_values(|z: ZoneView| zone_record(ZONE_INDENT@, z))
        },
        subsections: seq![],
    }
}

/// The table of the zones of a blueprint, sled by sled.
pub open spec fn zone_table(blueprint: BlueprintView) -> SectionedTableView {
    SectionedTableView {
        header: header_cells(),
        sections: listed(blueprint.zones).map_values(
            |p: (Uuid, ZonesView)| zone_section(p.0, p.1),
        ),
    }
}

fn zone_section_of(sled_id: Uuid, sled_zones: &BlueprintZonesConfig) -> (r: Section)
    ensures
        r@ == zone_section(sled_id, sled_zones@),
{
    let heading = sled_heading_string("", sled_id, sled_zones.generation);
    let mut rows: Vec<SectionRow> = Vec::new();
    let mut i: usize = 0;
    let ghost all = sled_zones@.zones;
    let ghost row = |z: ZoneView| zone_record(ZONE_INDENT@, z);
    assert(views(rows@) =~= all.take(0).map_values(row));
    while i < sled_zones.zones.len()
        invariant
            i <= sled_zones.zones.len(),
            all == views(sled_zones.zones@),
            row == (|z: ZoneView| zone_record(ZONE_INDENT@, z)),
            views(rows@) == all.take(i as int).map_values(row),
        decreases sled_zones.zones.len() - i,
    {
        let zone = &sled_zones.zones[i];
        add_zone_record(ZONE_INDENT.to_owned(), zone, &mut rows);
        assert(all.take(i + 1).map_values(row) =~= all.take(i as int).map_values(row).push(
            row(zone@),
        ));
        i = i + 1;
    }
    assert(all.take(sled_zones.zones.len() as int) =~= all);
    if rows.is_empty() {
        rows.push(
            SectionRow::NestedHeading(
                SectionSpacing::IfNotFirst,
                ZONE_HEAD_INDENT.to_owned().concat(NO_ZONES_PARENS),
            ),
        );
    }
    let section = Section {
        spacing: SectionSpacing::Always,
        heading,
        rows,
        subsections: Vec::new(),
    };
    proof {
        assert(section@.rows =~= zone_section(sled_id, sled_zones@).rows);
        assert(section@ =~= zone_section(sled_id, sled_zones@));
    }
    section
}

/// A section of whole sleds.
pub open spec fn whole_sleds_section(
    heading: Seq<char>,
    kind: WholeSledKind,
    sleds: Seq<(Uuid, ZonesView)>,
) -> SectionView {
    SectionView {
        spacing: SectionSpacing::Always,
        heading: sleds_heading_text(UNCHANGED_PREFIX@, heading),
        rows: seq![],
        subsections: sleds.map_values(|p: (Uuid, ZonesView)| whole_sled(kind, p.0, p.1)),
    }
}

/// The section of the sleds that changed.
pub open spec fn modified_sleds_section(sleds: Seq<(Uuid, ModifiedView)>) -> SectionView {
    SectionView {
        spacing: SectionSpacing::Always,
        heading: sleds_heading_text(UNCHANGED_PREFIX@, MODIFIED_SLEDS_HEADING@),
        rows: seq![],
        subsections: sleds.map_values(|p: (Uuid, ModifiedView)| modified_sled(p.0, p.1)),
    }
}

/// The table of the differences between two sides: unchanged, removed,
/// modified, and added sleds.
pub open spec fn zone_diff_table(diff: DiffView) -> SectionedTableView {
    SectionedTableView {
        header: diff_header_cells(),
        sections: seq![
            whole_sleds_section(
                UNCHANGED_SLEDS_HEADING@,
                WholeSledKind::Unchanged,
                listed(diff.sleds.unchanged),
            ),
            whole_sleds_section(
                REMOVED_SLEDS_HEADING@,
                WholeSledKind::Removed,
                listed(diff.sleds.removed),
            ),
            modified_sleds_section(listed(diff.sleds.modified)),
            whole_sleds_section(
                ADDED_SLEDS_HEADING@,
                WholeSledKind::Added,
                listed(diff.sleds.added),
            ),
        ],
    }
}

fn whole_sleds(heading: String, kind: WholeSledKind, sleds: &Vec<(Uuid, &BlueprintZonesConfig)>)
    -> (r: Section)
    ensures
        r@.spacing is Always,
        r@.heading == heading@,
        r@.rows == Seq::<RowView>::empty(),
        r@.subsections == pair_views(sleds@).map_values(
            |p: (Uuid, ZonesView)| whole_sled(kind, p.0, p.1),
        ),
{
    let mut subsections: Vec<Subsection> = Vec::new();
    let mut i: usize = 0;
    let ghost all = pair_views(sleds@);
    let ghost shown = |p: (Uuid, ZonesView)| whole_sled(kind, p.0, p.1);
    assert(views(subsections@) =~= all.take(0).map_values(shown));
    while i < sleds.len()
        invariant
            i <= sleds.len(),
            all == pair_views(sleds@),
            shown == (|p: (Uuid, ZonesView)| whole_sled(kind, p.0, p.1)),
            views(subsections@) == all.take(i as int).map_values(shown),
        decreases sleds.len() - i,
    {
        let (sled_id, sled_zones) = sleds[i];
        add_whole_sled_records(sled_id, sled_zones, kind, &mut subsections);
        proof {
            assert(all[i as int] == (sled_id, sled_zones@));
            assert(all.take(i + 1).map_values(shown) =~= all.take(i as int).map_values(shown).push(
                shown(all[i as int]),
            ));
        }
        i = i + 1;
    }
    assert(all.take(sleds.len() as int) =~= all);
    let section = Section {
        spacing: SectionSpacing::Always,
        heading,
        rows: Vec::new(),
        subsections,
    };
    assert(section@.rows =~= Seq::<RowView>::empty());
    section
}

fn modified_sleds(heading: String, sleds: &Vec<(Uuid, &DiffSledModified)>) -> (r: Section)
    requires
        forall|i: int| 0 <= i < sleds.len() ==> (#[trigger] sleds@[i]).1@.ids_match(),
    ensures
        r@.spacing is Always,
        r@.heading == heading@,
        r@.rows == Seq::<RowView>::empty(),
        r@.subsections == pair_views(sleds@).map_values(
            |p: (Uuid, ModifiedView)| modified_sled(p.0, p.1),
        ),
{
    let mut subsections: Vec<Subsection> = Vec::new();
    let mut i: usize = 0;
    let ghost all = pair_views(sleds@);
    let ghost shown = |p: (Uuid, ModifiedView)| modified_sled(p.0, p.1);
    assert(views(subsections@) =~= all.take(0).map_values(shown));
    while i < sleds.len()
        invariant
            i <= sleds.len(),
            all == pair_views(sleds@),
            shown == (|p: (Uuid, ModifiedView)| modified_sled(p.0, p.1)),
            forall|i: int| 0 <= i < sleds.len() ==> (#[trigger] sleds@[i]).1@.ids_match(),
            views(subsections@) == all.take(i as int).map_values(shown),
        decreases sleds.len() - i,
    {
        let (sled_id, sled) = sleds[i];
        assert(sleds@[i as int].1@.ids_match());
        add_modified_sled_records(sled_id, sled, &mut subsections);
        proof {
            assert(all[i as int] == (sled_id, sled@));
            assert(all.take(i + 1).map_values(shown) =~= all.take(i as int).map_values(shown).push(
                shown(all[i as int]),
            ));
        }
        i = i + 1;
    }
    assert(all.take(sleds.len() as int) =~= all);
    let section = Section {
        spacing: SectionSpacing::Always,
        heading,
        rows: Vec::new(),
        subsections,
    };
    assert(section@.rows =~= Seq::<RowView>::empty());
    section
}

/// The text that `tabled` gives for rows of cells in a table without borders
/// and without padding, except around the cells of one column.
pub uninterp spec fn borderless_table(
    rows: Seq<Seq<Seq<char>>>,
    padded_column: nat,
    left: nat,
    right: nat,
    top: nat,
    bottom: nat,
) -> Seq<char>;

/// Lays out rows of cells in a table without borders, with padding around the
/// cells of one column only.
///
/// Calls the builder of `tabled`, its settings for style and padding, and the
/// `Display` of the table it builds; the text depends on the cells and on the
/// settings alone.
#[verifier::external_body]
fn render_borderless(
    rows: Vec<Vec<String>>,
    padded_column: usize,
    left: usize,
    right: usize,
    top: usize,
    bottom: usize,
) -> (r: String)
    requires
        forall|i: int| 0 <= i < rows.len() ==> padded_column < (#[trigger] rows@[i]).len(),
        left <= 0xff && right <= 0xff && top <= 0xff && bottom <= 0xff,
    ensures
        r@ == borderless_table(
            cell_texts(rows@),
            padded_column as nat,
            left as nat,
            right as nat,
            top as nat,
            bottom as nat,
        ),
{
    let mut table = tabled::builder::Builder::from_iter(rows).build();
    table
        .with(tabled::settings::Style::empty())
        .with(tabled::settings::Padding::zero())
        .with(
            tabled::settings::Modify::new(
                tabled::settings::object::Columns::single(padded_column),
            ).with(tabled::settings::Padding::new(left, right, top, bottom)),
        );
    table.to_string()
}

/// The text of a table which has top-to-bottom rows, and a first column with
/// indents: a padding on the right of the label column makes the table
/// visually distinctive.
pub open spec fn linear_table(rows: Seq<Seq<Seq<char>>>) -> Seq<char> {
    borderless_table(rows, 1, 0, 2, 0, 0)
}

fn linear_table_string(rows: Vec<Vec<String>>) -> (r: String)
    requires
        forall|i: int| 0 <= i < rows.len() ==> 1 < (#[trigger] rows@[i]).len(),
    ensures
        r@ == linear_table(cell_texts(rows@)),
{
    render_borderless(rows, 1, 0, 2, 0, 0)
}

/// The rows of the metadata of a blueprint.
pub open spec fn metadata_rows(m: MetadataView) -> Seq<Seq<Seq<char>>> {
    seq![
        seq![METADATA_INDENT@, CREATED_BY@ + ":"@, m.creator],
        seq![METADATA_INDENT@, CREATED_AT@ + ":"@, m.time_created.text()],
        seq![
            METADATA_INDENT@,
            COMMENT@ + ":"@,
            if m.comment.len() == 0 {
                NONE_PARENS@
            } else {
                m.comment
            },
        ],
        seq![
            METADATA_INDENT@,
            INTERNAL_DNS_VERSION@ + ":"@,
            decimal(m.internal_dns_version as nat),
        ],
        seq![
            METADATA_INDENT@,
            EXTERNAL_DNS_VERSION@ + ":"@,
            decimal(m.external_dns_version as nat),
        ],
    ]
}

fn row3(a: String, b: String, c: String) -> (r: Vec<String>)
    ensures
        texts(r@) == seq![a@, b@, c@],
        r.len() == 3,
{
    let row = vec![a, b, c];
    assert(texts(row@) =~= seq![a@, b@, c@]);
    row
}

/// A [`Blueprint`] to be displayed.
///
/// Returned by [`Blueprint::display()`].
#[must_use]
#[derive(Clone, Debug)]
pub struct BlueprintDisplay<'a> {
    blueprint: &'a Blueprint,
}

impl<'a> View for BlueprintDisplay<'a> {
    type V = BlueprintView;

    closed spec fn view(&self) -> BlueprintView {
        self.blueprint@
    }
}

/// The text of a blueprint, given that of its zone table.
pub open spec fn blueprint_text(b: BlueprintView, zone_table: Seq<char>) -> Seq<char> {
    "blueprint  "@ + uuid_text(b.metadata.id) + "\nparent:    "@ + (
    match b.metadata.parent_blueprint_id {
        Some(parent) => uuid_text(parent),
        None => "<none>"@,
    }) + "\n\n"@ + zone_table + "\n\n"@ + (METADATA_HEADING@ + ":"@) + "\n"@ + linear_table(
        metadata_rows(b.metadata),
    ) + "\n"@
}

impl<'a> BlueprintDisplay<'a> {
    /// The table of the zones of the blueprint.
    pub fn make_zone_table(&self) -> (r: SectionedTable)
        ensures
            r@ == zone_table(self@),
            in_key_order(self@.zones),
    {
        let sleds = entries(&self.blueprint.blueprint_zones);
        let mut sections: Vec<Section> = Vec::new();
        let mut i: usize = 0;
        let ghost all = pair_views(sleds@);
        let ghost shown = |p: (Uuid, ZonesView)| zone_section(p.0, p.1);
        proof {
            lemma_same_ids(self.blueprint.blueprint_zones@, self@.zones);
            assert(all =~= listed(self@.zones));
            assert(views(sections@) =~= all.take(0).map_values(shown));
        }
        while i < sleds.len()
            invariant
                i <= sleds.len(),
                all == pair_views(sleds@),
                shown == (|p: (Uuid, ZonesView)| zone_section(p.0, p.1)),
                views(sections@) == all.take(i as int).map_values(shown),
            decreases sleds.len() - i,
        {
            let (sled_id, sled_zones) = sleds[i];
            let ghost so_far = views(sections@);
            sections.push(zone_section_of(sled_id, sled_zones));
            proof {
                assert(all[i as int] == (sled_id, sled_zones@));
                assert(views(sections@) =~= so_far.push(zone_section(sled_id, sled_zones@)));
                assert(all.take(i + 1).map_values(shown) =~= all.take(i as int).map_values(
                    shown,
                ).push(shown(all[i as int])));
            }
            i = i + 1;
        }
        assert(all.take(sleds.len() as int) =~= all);
        SectionedTable { header: header_row(), sections }
    }

    /// The rows of the metadata of the blueprint.
    pub fn make_metadata_rows(&self) -> (r: Vec<Vec<String>>)
        requires
            self@.metadata.time_created.printable(),
        ensures
            cell_texts(r@) == metadata_rows(self@.metadata),
            forall|i: int| 0 <= i < r.len() ==> (#[trigger] r@[i]).len() == 3,
    {
        let b = self.blueprint;
        let comment = if b.comment.as_str().is_empty() {
            NONE_PARENS.to_owned()
        } else {
            b.comment.clone()
        };
        let rows = vec![
            row3(METADATA_INDENT.to_owned(), linear_table_label(CREATED_BY), b.creator.clone()),
            row3(
                METADATA_INDENT.to_owned(),
                linear_table_label(CREATED_AT),
                b.time_created.to_rfc3339_millis(),
            ),
            row3(METADATA_INDENT.to_owned(), linear_table_label(COMMENT), comment),
            row3(
                METADATA_INDENT.to_owned(),
                metadata_table_internal_dns(),
                decimal_string(b.internal_dns_version),
            ),
            row3(
                METADATA_INDENT.to_owned(),
                metadata_table_external_dns(),
                decimal_string(b.external_dns_version),
            ),
        ];
        assert(cell_texts(rows@) =~= metadata_rows(self@.metadata));
        rows
    }

    /// The table of the metadata of the blueprint.
    pub fn make_metadata_table(&self) -> (r: String)
        requires
            self@.metadata.time_created.printable(),
        ensures
            r@ == linear_table(metadata_rows(self@.metadata)),
    {
        linear_table_string(self.make_metadata_rows())
    }

    /// The text of the blueprint.
    pub fn to_text(&self) -> (r: String)
        requires
            self@.metadata.time_created.printable(),
        ensures
            r@ == blueprint_text(self@, zone_table(self@).text()),
    {
        let zone_table = self.make_zone_table().to_text();
        self.to_text_with(zone_table.as_str())
    }

    /// The text of the blueprint, given the laid-out table of its zones.
    pub fn to_text_with(&self, zone_table: &str) -> (r: String)
        requires
            self@.metadata.time_created.printable(),
        ensures
            r@ == blueprint_text(self@, zone_table@),
    {
        let b = self.blueprint;
        let parent = match b.parent_blueprint_id {
            Some(parent) => uuid_to_string(parent),
            None => "<none>".to_owned(),
        };
        "blueprint  ".to_owned().concat(uuid_to_string(b.id).as_str()).concat(
            "\nparent:    ",
        ).concat(parent.as_str()).concat("\n\n").concat(zone_table).concat("\n\n").concat(
            metadata_heading().as_str(),
        ).concat("\n").concat(self.make_metadata_table().as_str()).concat("\n")
    }
}

/// The row of a DNS version in the metadata of a diff.
pub open spec fn dns_version_row(label: Seq<char>, before: Option<u64>, after: u64) -> Seq<
    Seq<char>,
> {
    match before {
        None => seq![
            ADDED_PREFIX@ + METADATA_DIFF_INDENT@,
            label,
            NOT_PRESENT_IN_COLLECTION_PARENS@ + " "@ + ARROW@ + " "@ + decimal(after as nat),
        ],
        Some(before) => if before != after {
            seq![
                MODIFIED_PREFIX@ + METADATA_DIFF_INDENT@,
                label,
                decimal(before as nat) + " "@ + ARROW@ + " "@ + decimal(after as nat),
            ]
        } else {
            seq![
                UNCHANGED_PREFIX@ + METADATA_DIFF_INDENT@,
                label,
                decimal(before as nat) + " "@ + UNCHANGED_PARENS@,
            ]
        },
    }
}

/// The rows of the metadata of a diff.
///
/// Collections don't have DNS versions, so there they are new.
pub open spec fn metadata_diff_rows(diff: DiffView) -> Seq<Seq<Seq<char>>> {
    let (internal, external) = match diff.before_meta {
        BeforeView::Collection { .. } => (None, None),
        BeforeView::Blueprint(before) => (
            Some(before.internal_dns_version),
            Some(before.external_dns_version),
        ),
    };
    seq![
        dns_version_row(
            INTERNAL_DNS_VERSION@ + ":"@,
            internal,
            diff.after_meta.internal_dns_version,
        ),
        dns_version_row(
            EXTERNAL_DNS_VERSION@ + ":"@,
            external,
            diff.after_meta.external_dns_version,
        ),
    ]
}

fn dns_version_cells(label: String, before: Option<u64>, after: u64) -> (r: Vec<String>)
    ensures
        r.len() == 3,
        texts(r@) == dns_version_row(label@, before, after),
{
    let after_text = decimal_string(after);
    match before {
        // Collections don't have DNS versions, so this is new.
        None => row3(
            ADDED_PREFIX.to_owned().concat(METADATA_DIFF_INDENT),
            label,
            linear_table_modified(NOT_PRESENT_IN_COLLECTION_PARENS, after_text.as_str()),
        ),
        Some(before) => {
            let before_text = decimal_string(before);
            if before != after {
                row3(
                    MODIFIED_PREFIX.to_owned().concat(METADATA_DIFF_INDENT),
                    label,
                    linear_table_modified(before_text.as_str(), after_text.as_str()),
                )
            } else {
                row3(
                    UNCHANGED_PREFIX.to_owned().concat(METADATA_DIFF_INDENT),
                    label,
                    linear_table_unchanged(before_text.as_str()),
                )
            }
        },
    }
}

/// A [`BlueprintDiff`] to be displayed.
///
/// Returned by [`BlueprintDiff::display()`].
#[must_use]
#[derive(Clone, Debug)]
pub struct BlueprintDiffDisplay<'diff> {
    diff: &'diff BlueprintDiff,
}

impl<'diff> View for BlueprintDiffDisplay<'diff> {
    type V = DiffView;

    closed spec fn view(&self) -> DiffView {
        self.diff@
    }
}

/// The first lines of the text of a diff: its two sides.
pub open spec fn diff_sides(diff: DiffView) -> Seq<char> {
    match diff.before_meta {
        BeforeView::Collection { id } => {
            "from: collection "@ + uuid_text(id) + "\nto:   blueprint  "@ + uuid_text(
                diff.after_meta.id,
            ) + "\n"@
        },
        BeforeView::Blueprint(before) => {
            "from: blueprint "@ + uuid_text(before.id) + "\nto:   blueprint "@ + uuid_text(
                diff.after_meta.id,
            ) + "\n"@
        },
    }
}

/// The text of a diff, given that of its zone table.
pub open spec fn diff_text(diff: DiffView, zone_table: Seq<char>) -> Seq<char> {
    diff_sides(diff) + "\n"@ + zone_table + "\n\n"@ + (H1_INDENT@ + METADATA_HEADING@ + ":"@)
        + "\n"@ + linear_table(metadata_diff_rows(diff)) + "\n"@
}

impl<'diff> BlueprintDiffDisplay<'diff> {
    /// The table of the differences between the two sides.
    pub fn make_zone_diff_table(&self) -> (r: SectionedTable)
        ensures
            r@ == zone_diff_table(self@),
            in_key_order(self@.sleds.unchanged),
            in_key_order(self@.sleds.removed),
            in_key_order(self@.sleds.modified),
            in_key_order(self@.sleds.added),
    {
        let diff = self.diff;

        // The order is:
        //
        // 1. Unchanged
        // 2. Removed
        // 3. Modified
        // 4. Added
        //
        // The idea behind the order is to (a) group all changes together and
        // (b) put changes towards the bottom, so people have to scroll back
        // less.
        let unchanged = whole_sleds(
            unchanged_sleds_heading(),
            WholeSledKind::Unchanged,
            &diff.sleds_unchanged(),
        );
        let removed = whole_sleds(
            removed_sleds_heading(),
            WholeSledKind::Removed,
            &diff.sleds_removed(),
        );
        let modified = modified_sleds(modified_sleds_heading(), &diff.sleds_modified());
        let added = whole_sleds(added_sleds_heading(), WholeSledKind::Added, &diff.sleds_added());
        let table = SectionedTable {
            header: diff_header_row(),
            sections: vec![unchanged, removed, modified, added],
        };
        proof {
            let want = zone_diff_table(self@).sections;
            assert(unchanged@ =~= want[0]);
            assert(removed@ =~= want[1]);
            assert(modified@ =~= want[2]);
            assert(added@ =~= want[3]);
            assert(table@.sections =~= want);
        }
        table
    }

    /// The rows of the metadata of the diff.
    pub fn make_metadata_diff_rows(&self) -> (r: Vec<Vec<String>>)
        ensures
            cell_texts(r@) == metadata_diff_rows(self@),
            forall|i: int| 0 <= i < r.len() ==> (#[trigger] r@[i]).len() == 3,
    {
        let after = self.diff.after_meta();
        let (internal, external): (Option<u64>, Option<u64>) = match self.diff.before_meta() {
            DiffBeforeMetadata::Collection { .. } => (None, None),
            DiffBeforeMetadata::Blueprint(before) => (
                Some(before.internal_dns_version),
                Some(before.external_dns_version),
            ),
        };
        let first = dns_version_cells(
            metadata_table_internal_dns(),
            internal,
            after.internal_dns_version,
        );
        let second = dns_version_cells(
            metadata_table_external_dns(),
            external,
            after.external_dns_version,
        );
        let rows = vec![first, second];
        assert(cell_texts(rows@) =~= metadata_diff_rows(self@));
        rows
    }

    /// The table of the metadata of the diff.
    pub fn make_metadata_diff_table(&self) -> (r: String)
        ensures
            r@ == linear_table(metadata_diff_rows(self@)),
    {
        linear_table_string(self.make_metadata_diff_rows())
    }

    /// The text of the diff.
    pub fn to_text(&self) -> (r: String)
        ensures
            r@ == diff_text(self@, zone_diff_table(self@).text()),
    {
        let zone_table = self.make_zone_diff_table().to_text();
        self.to_text_with(zone_table.as_str())
    }

    /// The text of the diff, given the laid-out table of its zones.
    pub fn to_text_with(&self, zone_table: &str) -> (r: String)
        ensures
            r@ == diff_text(self@, zone_table@),
    {
        let after_id = self.diff.after_meta().id;
        // Print things differently based on whether the diff is between a
        // collection and a blueprint, or a blueprint and a blueprint.
        let sides = match self.diff.before_meta() {
            DiffBeforeMetadata::Collection { id } => {
                "from: collection ".to_owned().concat(uuid_to_string(*id).as_str()).concat(
                    "\nto:   blueprint  ",
                ).concat(uuid_to_string(after_id).as_str()).concat("\n")
            },
            DiffBeforeMetadata::Blueprint(before) => {
                "from: blueprint ".to_owned().concat(uuid_to_string(before.id).as_str()).concat(
                    "\nto:   blueprint ",
                ).concat(uuid_to_string(after_id).as_str()).concat("\n")
            },
        };
        sides.concat("\n").concat(zone_table).concat("\n\n").concat(
            metadata_diff_heading().as_str(),
        ).concat("\n").concat(self.make_metadata_diff_table().as_str()).concat("\n")
    }
}

impl Blueprint {
    /// Return a struct that can be displayed to present information about the
    /// blueprint.
    pub fn display(&self) -> (r: BlueprintDisplay<'_>)
        ensures
            r@ == self@,
    {
        BlueprintDisplay { blueprint: self }
    }
}

impl BlueprintDiff {
    /// Return a struct that can be used to display the diff.
    pub fn display(&self) -> (r: BlueprintDiffDisplay<'_>)
        ensures
            r@ == self@,
    {
        BlueprintDiffDisplay { diff: self }
    }
}

} // verus!
