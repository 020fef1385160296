//! What holds of blueprints and their differences, laid out as tables.

use vstd::prelude::*;

use crate::address_laws::law_ipv6_addresses_differ_in_text;
use crate::blueprint_diff::{BeforeView, CommonView, DiffView, ModifiedView};
use crate::deployment::{BlueprintView, MetadataView, ZoneView, ZonesView};
use crate::diff_laws::exchanged;
use crate::net::ipv6_text;
use crate::ordered::listed;
use crate::sectioned_table::{
    blank_table, cell_texts, filled, heading_lines, row_lines, rows_lines, sections_lines, spanning_places,
    subsections_lines, LineView, RowView, Section, SectionRow, SectionSpacing, SectionView,
    SectionedTable, SectionedTableView, Subsection, SubsectionView,
};
use crate::sort::views;
use crate::table_display::{
    blueprint_text, borderless_table, diff_header_cells, diff_sides, diff_text, dns_version_row,
    generation_warning, header_cells, linear_table, metadata_diff_rows, metadata_rows,
    modified_sled, modified_sled_heading, modified_sled_zone_rows, modified_sleds_section,
    modified_zone_rows, modified_zones_rows, sled_heading, sleds_heading_text, what_changed,
    whole_sled, whole_sleds_section, zone_cells, zone_diff_table, zone_record,
    zone_record_with_status, zone_section, zone_table, WholeSledKind,
};
use crate::text::{decimal, join, texts, uuid_text, Uuid};

verus! {

// ---
// Zones
// ---

/// A zone is shown by its kind, its id, its disposition and its underlay address, in
/// this order, after the cell that indents it and before its status.
pub proof fn law_cells_of_a_zone(first: Seq<char>, zone: ZoneView, status: Seq<char>)
    ensures
        zone_cells(first, zone).len() == 5,
        zone_cells(first, zone)[0] == first,
        zone_cells(first, zone)[1] == zone.config.zone_type.kind.text(),
        zone_cells(first, zone)[2] == uuid_text(zone.config.id),
        zone_cells(first, zone)[3] == zone.disposition.text(),
        zone_cells(first, zone)[4] == ipv6_text(zone.config.underlay_address),
        zone_record(first, zone) == RowView::Record(zone_cells(first, zone)),
        zone_record_with_status(first, zone, status) == RowView::Record(
            zone_cells(first, zone).push(status),
        ),
{
}

/// A zone that changed is shown in three rows: the whole of what it was, the
/// disposition and the underlay address of what it became, and what of it changed.
pub proof fn law_rows_of_a_modified_zone(zone: CommonView)
    ensures
        modified_zone_rows(zone) == seq![
            RowView::Record(
                seq![
                    "-"@ + "   "@,
                    zone.zone_before.config.zone_type.kind.text(),
                    uuid_text(zone.zone_before.config.id),
                    zone.zone_before.disposition.text(),
                    ipv6_text(zone.zone_before.config.underlay_address),
                    "modified"@,
                ],
            ),
            RowView::Record(
                seq![
                    "+"@ + "   "@,
                    " "@ + "├─"@,
                    ""@,
                    zone.zone_after.disposition.text(),
                    ipv6_text(zone.zone_after.config.underlay_address),
                ],
            ),
            RowView::Spanned(
                "*"@ + "   "@ + "  "@ + "└─"@ + " changed: "@ + join(what_changed(zone), ", "@),
            ),
        ],
{
    assert(zone_cells("-"@ + "   "@, zone.zone_before).push("modified"@) =~= seq![
        "-"@ + "   "@,
        zone.zone_before.config.zone_type.kind.text(),
        uuid_text(zone.zone_before.config.id),
        zone.zone_before.disposition.text(),
        ipv6_text(zone.zone_before.config.underlay_address),
        "modified"@,
    ]);
}

/// Where the two sides of a zone are exchanged, so are the dispositions and addresses
/// that its first two rows show, and the same things are told to have changed.
pub proof fn law_exchanged_sides_exchange_the_rows(zone: CommonView)
    ensures
        ({
            let (rows, back) = (modified_zone_rows(zone), modified_zone_rows(exchanged(zone)));
            &&& rows[0]->Record_0[3] == back[1]->Record_0[3]
            &&& rows[0]->Record_0[4] == back[1]->Record_0[4]
            &&& rows[1]->Record_0[3] == back[0]->Record_0[3]
            &&& rows[1]->Record_0[4] == back[0]->Record_0[4]
            &&& rows[2] == back[2]
        }),
{
    assert(what_changed(zone) =~= what_changed(exchanged(zone)));
}

/// The first two rows of a zone that changed show the same underlay address just where
/// it has the same on both sides, and the same disposition just where that did not
/// change.
pub proof fn law_changed_cells_differ(zone: CommonView)
    ensures
        ({
            let rows = modified_zone_rows(zone);
            let (b, a) = (zone.zone_before, zone.zone_after);
            &&& rows[0]->Record_0[4] == rows[1]->Record_0[4] <==> b.config.underlay_address
                == a.config.underlay_address
            &&& rows[0]->Record_0[3] == rows[1]->Record_0[3] <==> b.disposition == a.disposition
        }),
{
    let rows = modified_zone_rows(zone);
    let (b, a) = (zone.zone_before, zone.zone_after);
    if rows[0]->Record_0[4] == rows[1]->Record_0[4] {
        law_ipv6_addresses_differ_in_text(b.config.underlay_address, a.config.underlay_address);
    }
    reveal_strlit("in service");
    reveal_strlit("quiesced");
    assert("in service"@.len() == 10 && "quiesced"@.len() == 8);
}

/// Just those of the zone type, the disposition and the underlay address are told to
/// have changed that differ between the two sides, in this order.
pub proof fn law_what_changed_is_told(zone: CommonView)
    ensures
        ({
            let (b, a) = (zone.zone_before, zone.zone_after);
            let told = what_changed(zone);
            &&& told.contains("zone type config"@) <==> b.config.zone_type != a.config.zone_type
            &&& told.contains("disposition"@) <==> b.disposition != a.disposition
            &&& told.contains("underlay IP"@) <==> b.config.underlay_address
                != a.config.underlay_address
            &&& told.no_duplicates()
            &&& forall|i: int|
                0 <= i < told.len() ==> ({
                    ||| #[trigger] told[i] == "zone type config"@ && i == 0
                    ||| told[i] == "disposition"@ && i <= 1
                    ||| told[i] == "underlay IP"@ && i == told.len() - 1
                })
        }),
{
    reveal_strlit("zone type config");
    reveal_strlit("disposition");
    reveal_strlit("underlay IP");
    let (x, y, z) = ("zone type config"@, "disposition"@, "underlay IP"@);
    assert(x.len() == 16 && y.len() == 11 && z.len() == 11 && y[0] == 'd' && z[0] == 'u');
    let (b, a) = (zone.zone_before, zone.zone_after);
    let told = what_changed(zone);
    let (p, q, r) = (
        b.config.zone_type != a.config.zone_type,
        b.disposition != a.disposition,
        b.config.underlay_address != a.config.underlay_address,
    );
    if p {
        assert(told[0] == x);
    }
    if q {
        assert(told[if p {
            1int
        } else {
            0int
        }] == y);
    }
    if r {
        assert(told[told.len() - 1] == z);
    }
}

// ---
// Headings
// ---

/// The heading of a sled names it and the generation of its zones.
pub proof fn law_heading_of_a_sled(prefix: Seq<char>, sled_id: Uuid, generation: u64)
    ensures
        sled_heading(prefix, sled_id, generation) == prefix + "  "@ + "sled "@ + uuid_text(sled_id)
            + ": zones at generation "@ + decimal(generation as nat),
{
}

/// The headings of the columns.
pub proof fn law_headings_of_columns()
    ensures
        header_cells() == seq![
            "  "@,
            "zone type"@,
            "zone ID"@,
            "disposition"@,
            "underlay IP"@,
        ],
        diff_header_cells() == seq![
            " "@,
            "zone type"@,
            "zone ID"@,
            "disposition"@,
            "underlay IP"@,
            "status"@,
        ],
{
}

/// The heading of a changed sled tells both generations where they differ. Where they
/// do not, it tells the one, and a warning comes first among the rows.
pub proof fn law_heading_of_a_modified_sled(sled_id: Uuid, m: ModifiedView)
    ensures
        m.generation_before != m.generation_after ==> {
            &&& modified_sled_heading(sled_id, m) == "*"@ + "  "@ + "sled "@ + uuid_text(sled_id)
                + ": "@ + ("zones at generation: "@ + decimal(m.generation_before as nat)
                + " -> "@ + decimal(m.generation_after as nat))
            &&& generation_warning(m).len() == 0
        },
        m.generation_before == m.generation_after ==> {
            &&& modified_sled_heading(sled_id, m) == "*"@ + "  "@ + "sled "@ + uuid_text(sled_id)
                + ": "@ + ("zones at generation: "@ + decimal(m.generation_before as nat))
            &&& generation_warning(m) == seq![
                RowView::NestedHeading(
                    SectionSpacing::Never,
                    "!"@ + "   "@ + "warning: generation should have changed"@,
                ),
            ]
        },
{
}

// ---
// Sleds
// ---

/// A sled that was removed, was added or stayed the same shows each of its zones, in
/// their order: marked by a sign, and with its status unless it stayed the same.
pub proof fn law_rows_of_a_whole_sled(
    kind: WholeSledKind,
    sled_id: Uuid,
    zones: ZonesView,
    i: int,
)
    ensures
        ({
            let shown = whole_sled(kind, sled_id, zones);
            let sign = match kind {
                WholeSledKind::Removed => "-"@,
                WholeSledKind::Added => "+"@,
                WholeSledKind::Unchanged => " "@,
            };
            &&& shown.spacing is Always
            &&& shown.heading == sled_heading(sign, sled_id, zones.generation)
            &&& shown.rows.len() == zones.zones.len()
            &&& 0 <= i < zones.zones.len() ==> shown.rows[i] == match kind {
                WholeSledKind::Removed => zone_record_with_status(
                    "-"@ + "   "@,
                    zones.zones[i],
                    "removed"@,
                ),
                WholeSledKind::Added => zone_record_with_status(
                    "+"@ + "   "@,
                    zones.zones[i],
                    "added"@,
                ),
                WholeSledKind::Unchanged => zone_record(" "@ + "   "@, zones.zones[i]),
            }
        }),
{
}

/// The rows of more zones that changed come after those of the zones before.
pub proof fn law_rows_of_modified_zones(zones: Seq<CommonView>, more: CommonView)
    ensures
        modified_zones_rows(Seq::empty()).len() == 0,
        modified_zones_rows(zones.push(more)) == modified_zones_rows(zones) + modified_zone_rows(
            more,
        ),
        modified_zones_rows(zones).len() == 3 * zones.len(),
    decreases zones.len(),
{
    assert(zones.push(more).drop_last() =~= zones);
    if zones.len() > 0 {
        law_rows_of_modified_zones(zones.drop_last(), zones.last());
    }
}

/// The zones of a changed sled are shown in four groups: those that did not change,
/// those that were removed, those that changed, and those that were added.
pub proof fn law_groups_of_a_modified_sled(m: ModifiedView, i: int)
    ensures
        ({
            let rows = modified_sled_zone_rows(m);
            let warned: int = if m.generation_before == m.generation_after {
                1
            } else {
                0
            };
            let same = m.zones_common.filter(|c: CommonView| c.zone_before == c.zone_after);
            let changed = m.zones_common.filter(|c: CommonView| c.zone_before != c.zone_after);
            let removed = warned + same.len();
            let modified = removed + m.zones_removed.len();
            let added = modified + 3 * changed.len();
            &&& rows.len() == added + m.zones_added.len()
            &&& rows.take(warned) == generation_warning(m)
            &&& 0 <= i < same.len() ==> rows[warned + i] == zone_record(
                " "@ + "   "@,
                same[i].zone_before,
            )
            &&& 0 <= i < m.zones_removed.len() ==> rows[removed + i] == zone_record_with_status(
                "-"@ + "   "@,
                m.zones_removed[i],
                "removed"@,
            )
            &&& rows.subrange(modified, added) == modified_zones_rows(changed)
            &&& 0 <= i < m.zones_added.len() ==> rows[added + i] == zone_record_with_status(
                "+"@ + "   "@,
                m.zones_added[i],
                "added"@,
            )
        }),
{
    let is_same = |c: CommonView| c.zone_before == c.zone_after;
    let is_changed = |c: CommonView| c.zone_before != c.zone_after;
    assert(is_same =~= |c: CommonView| !c.modified());
    assert(is_changed =~= |c: CommonView| c.modified());
    let same = m.zones_common.filter(is_same);
    let changed = m.zones_common.filter(is_changed);
    assert(m.zones_unchanged() == same && m.zones_modified() == changed);
    law_rows_of_modified_zones(changed, arbitrary());
    let rows = modified_sled_zone_rows(m);
    let warned = generation_warning(m);
    assert(rows.take(warned.len() as int) =~= warned);
    let modified = (warned.len() + same.len() + m.zones_removed.len()) as int;
    assert(rows.subrange(modified, modified + 3 * changed.len()) =~= modified_zones_rows(changed));
}

/// A changed sled shows its rows under its heading, or that it has no zones where
/// there are none.
pub proof fn law_modified_sled_shows_its_rows(sled_id: Uuid, m: ModifiedView)
    ensures
        ({
            let shown = modified_sled(sled_id, m);
            let rows = modified_sled_zone_rows(m);
            &&& shown.spacing is Always
            &&& shown.heading == modified_sled_heading(sled_id, m)
            &&& rows.len() > 0 ==> shown.rows == rows
            &&& rows.len() == 0 ==> shown.rows == seq![
                RowView::NestedHeading(SectionSpacing::Never, " "@ + "   "@ + "(no zones)"@),
            ]
        }),
{
}

// ---
// Tables
// ---

/// A section of the table of a blueprint shows the zones of one sled, in their order,
/// or that there are none.
pub proof fn law_section_of_a_sled(sled_id: Uuid, zones: ZonesView, i: int)
    ensures
        ({
            let shown = zone_section(sled_id, zones);
            &&& shown.spacing is Always
            &&& shown.heading == sled_heading(""@, sled_id, zones.generation)
            &&& shown.subsections.len() == 0
            &&& zones.zones.len() == 0 ==> shown.rows == seq![
                RowView::NestedHeading(SectionSpacing::IfNotFirst, "   "@ + "(no zones)"@),
            ]
            &&& zones.zones.len() > 0 ==> shown.rows.len() == zones.zones.len()
            &&& 0 <= i < zones.zones.len() ==> shown.rows[i] == zone_record(
                "   "@,
                zones.zones[i],
            )
        }),
{
}

/// The table of a blueprint has a section for each sled, in the order of the ids.
pub proof fn law_sections_of_a_blueprint(b: BlueprintView, i: int)
    ensures
        zone_table(b).header == header_cells(),
        zone_table(b).sections.len() == listed(b.zones).len(),
        0 <= i < listed(b.zones).len() ==> {
            let (sled_id, zones) = listed(b.zones)[i];
            zone_table(b).sections[i] == zone_section(sled_id, zones)
        },
{
}

/// The table of a diff shows the sleds in four sections: those that did not change,
/// those that were removed, those that changed, and those that were added.
pub proof fn law_sections_of_a_diff(diff: DiffView, i: int)
    ensures
        ({
            let table = zone_diff_table(diff);
            let (same, gone) = (table.sections[0], table.sections[1]);
            let (changed, new) = (table.sections[2], table.sections[3]);
            let (unchanged, removed) = (listed(diff.sleds.unchanged), listed(diff.sleds.removed));
            let (modified, added) = (listed(diff.sleds.modified), listed(diff.sleds.added));
            &&& table.header == diff_header_cells()
            &&& table.sections.len() == 4
            &&& same.heading == " "@ + " "@ + "UNCHANGED SLEDS"@ + ":"@
            &&& gone.heading == " "@ + " "@ + "REMOVED SLEDS"@ + ":"@
            &&& changed.heading == " "@ + " "@ + "MODIFIED SLEDS"@ + ":"@
            &&& new.heading == " "@ + " "@ + "ADDED SLEDS"@ + ":"@
            &&& same.subsections.len() == unchanged.len()
            &&& gone.subsections.len() == removed.len()
            &&& changed.subsections.len() == modified.len()
            &&& new.subsections.len() == added.len()
            &&& 0 <= i < unchanged.len() ==> same.subsections[i] == whole_sled(
                WholeSledKind::Unchanged,
                unchanged[i].0,
                unchanged[i].1,
            )
            &&& 0 <= i < removed.len() ==> gone.subsections[i] == whole_sled(
                WholeSledKind::Removed,
                removed[i].0,
                removed[i].1,
            )
            &&& 0 <= i < modified.len() ==> changed.subsections[i] == modified_sled(
                modified[i].0,
                modified[i].1,
            )
            &&& 0 <= i < added.len() ==> new.subsections[i] == whole_sled(
                WholeSledKind::Added,
                added[i].0,
                added[i].1,
            )
            &&& 0 <= i < 4 ==> table.sections[i].spacing is Always && table.sections[i].rows.len()
                == 0
        }),
{
}

/// A section of sleds has its own heading.
pub proof fn law_heading_of_a_section(
    prefix: Seq<char>,
    heading: Seq<char>,
    kind: WholeSledKind,
    sleds: Seq<(Uuid, ZonesView)>,
    modified: Seq<(Uuid, ModifiedView)>,
)
    ensures
        sleds_heading_text(prefix, heading) == prefix + " "@ + heading + ":"@,
        whole_sleds_section(heading, kind, sleds).heading == " "@ + " "@ + heading + ":"@,
        modified_sleds_section(modified).heading == " "@ + " "@ + "MODIFIED SLEDS"@ + ":"@,
{
}

// ---
// Metadata
// ---

/// The metadata of a blueprint tell who made it, when, why, and its DNS versions.
pub proof fn law_rows_of_metadata(m: MetadataView)
    ensures
        metadata_rows(m).len() == 5,
        metadata_rows(m)[0] == seq!["  "@, "created by"@ + ":"@, m.creator],
        metadata_rows(m)[1] == seq!["  "@, "created at"@ + ":"@, m.time_created.text()],
        m.comment.len() > 0 ==> metadata_rows(m)[2] == seq!["  "@, "comment"@ + ":"@, m.comment],
        m.comment.len() == 0 ==> metadata_rows(m)[2] == seq!["  "@, "comment"@ + ":"@, "(none)"@],
        metadata_rows(m)[3] == seq![
            "  "@,
            "internal DNS version"@ + ":"@,
            decimal(m.internal_dns_version as nat),
        ],
        metadata_rows(m)[4] == seq![
            "  "@,
            "external DNS version"@ + ":"@,
            decimal(m.external_dns_version as nat),
        ],
{
}

/// A DNS version is shown as new where there was none, as changed where it differs,
/// and as unchanged where it does not.
pub proof fn law_row_of_a_dns_version(label: Seq<char>, before: u64, after: u64)
    ensures
        dns_version_row(label, None, after) == seq![
            "+"@ + "   "@,
            label,
            "(not present in collection)"@ + " "@ + "->"@ + " "@ + decimal(after as nat),
        ],
        before != after ==> dns_version_row(label, Some(before), after) == seq![
            "*"@ + "   "@,
            label,
            decimal(before as nat) + " "@ + "->"@ + " "@ + decimal(after as nat),
        ],
        before == after ==> dns_version_row(label, Some(before), after) == seq![
            " "@ + "   "@,
            label,
            decimal(after as nat) + " "@ + "(unchanged)"@,
        ],
{
}

/// The metadata of a diff compare the internal DNS versions of the two sides and the
/// external ones, and take those of a collection for missing.
pub proof fn law_rows_of_a_diff_of_metadata(diff: DiffView)
    ensures
        metadata_diff_rows(diff).len() == 2,
        match diff.before_meta {
            BeforeView::Collection { .. } => {
                &&& metadata_diff_rows(diff)[0] == dns_version_row(
                    "internal DNS version"@ + ":"@,
                    None,
                    diff.after_meta.internal_dns_version,
                )
                &&& metadata_diff_rows(diff)[1] == dns_version_row(
                    "external DNS version"@ + ":"@,
                    None,
                    diff.after_meta.external_dns_version,
                )
            },
            BeforeView::Blueprint(before) => {
                &&& metadata_diff_rows(diff)[0] == dns_version_row(
                    "internal DNS version"@ + ":"@,
                    Some(before.internal_dns_version),
                    diff.after_meta.internal_dns_version,
                )
                &&& metadata_diff_rows(diff)[1] == dns_version_row(
                    "external DNS version"@ + ":"@,
                    Some(before.external_dns_version),
                    diff.after_meta.external_dns_version,
                )
            },
        },
{
}

// ---
// Texts
// ---

/// The text of a blueprint: its id and that of its parent, its zones, and its
/// metadata.
pub proof fn law_text_of_a_blueprint(b: BlueprintView, zone_table: Seq<char>)
    ensures
        b.metadata.parent_blueprint_id is Some ==> blueprint_text(b, zone_table) == "blueprint  "@
            + uuid_text(b.metadata.id) + "\nparent:    "@ + uuid_text(
            b.metadata.parent_blueprint_id->0,
        ) + "\n\n"@ + zone_table + "\n\n"@ + ("METADATA"@ + ":"@) + "\n"@ + linear_table(
            metadata_rows(b.metadata),
        ) + "\n"@,
        b.metadata.parent_blueprint_id is None ==> blueprint_text(b, zone_table) == "blueprint  "@
            + uuid_text(b.metadata.id) + "\nparent:    "@ + "<none>"@ + "\n\n"@ + zone_table
            + "\n\n"@ + ("METADATA"@ + ":"@) + "\n"@ + linear_table(metadata_rows(b.metadata))
            + "\n"@,
{
}

/// The text of a diff: its two sides, first the one before and then the one after,
/// its zones, and its metadata.
pub proof fn law_text_of_a_diff(diff: DiffView, zone_table: Seq<char>)
    ensures
        diff.before_meta is Collection ==> diff_sides(diff) == "from: collection "@ + uuid_text(
            diff.before_meta->id,
        ) + "\nto:   blueprint  "@ + uuid_text(diff.after_meta.id) + "\n"@,
        diff.before_meta is Blueprint ==> diff_sides(diff) == "from: blueprint "@ + uuid_text(
            diff.before_meta->Blueprint_0.id,
        ) + "\nto:   blueprint "@ + uuid_text(diff.after_meta.id) + "\n"@,
        diff_text(diff, zone_table) == diff_sides(diff) + "\n"@ + zone_table + "\n\n"@ + ("  "@
            + "METADATA"@ + ":"@) + "\n"@ + linear_table(metadata_diff_rows(diff)) + "\n"@,
{
}

/// A table that reads from top to bottom has its second column set off by two blanks
/// on the right, and by nothing else.
pub proof fn law_linear_table_is_padded(rows: Seq<Seq<Seq<char>>>)
    ensures
        linear_table(rows) == borderless_table(rows, 1, 0, 2, 0, 0),
{
}

// ---
// Lines
// ---

/// A heading is a line across all columns. An empty one comes before it where that is
/// always so, or where it is so after the first and this is not the first.
pub proof fn law_lines_of_a_heading(spacing: SectionSpacing, first: bool, heading: Seq<char>)
    ensures
        ({
            let lines = heading_lines(spacing, first, heading);
            &&& lines.last() == (LineView { cells: seq![heading], spans: true })
            &&& spacing is Always || (spacing is IfNotFirst && !first) ==> lines.len() == 2
                && lines[0] == (LineView { cells: seq![Seq::empty()], spans: true })
            &&& spacing is Never || (spacing is IfNotFirst && first) ==> lines.len() == 1
        }),
{
}

/// A record is a line of its cells, and text that spans is a line across all columns.
pub proof fn law_lines_of_a_row(row: RowView, first: bool)
    ensures
        match row {
            RowView::Record(cells) => row_lines(row, first) == seq![
                LineView { cells, spans: false },
            ],
            RowView::NestedHeading(spacing, heading) => row_lines(row, first) == heading_lines(
                spacing,
                first,
                heading,
            ),
            RowView::Spanned(text) => row_lines(row, first) == seq![
                LineView { cells: seq![text], spans: true },
            ],
        },
{
}

/// The lines of one more row, subsection or section come after those before. Only
/// what comes first of all counts as the first.
pub proof fn law_lines_of_one_more(
    rows: Seq<RowView>,
    row: RowView,
    subsections: Seq<SubsectionView>,
    subsection: SubsectionView,
    sections: Seq<SectionView>,
    section: SectionView,
)
    ensures
        rows_lines(Seq::empty()).len() == 0,
        rows_lines(rows.push(row)) == rows_lines(rows) + row_lines(row, rows.len() == 0),
        subsections_lines(Seq::empty()).len() == 0,
        subsections_lines(subsections.push(subsection)) == subsections_lines(subsections) + (
        heading_lines(subsection.spacing, subsections.len() == 0, subsection.heading) + rows_lines(
            subsection.rows,
        )),
        sections_lines(Seq::empty()).len() == 0,
        sections_lines(sections.push(section)) == sections_lines(sections) + (heading_lines(
            section.spacing,
            sections.len() == 0,
            section.heading,
        ) + rows_lines(section.rows) + subsections_lines(section.subsections)),
{
    assert(rows.push(row).drop_last() =~= rows);
    assert(subsections.push(subsection).drop_last() =~= subsections);
    assert(sections.push(section).drop_last() =~= sections);
    assert(subsections_lines(subsections.push(subsection)) =~= subsections_lines(subsections) + (
    heading_lines(subsection.spacing, subsections.len() == 0, subsection.heading) + rows_lines(
        subsection.rows,
    )));
    assert(sections_lines(sections.push(section)) =~= sections_lines(sections) + (heading_lines(
        section.spacing,
        sections.len() == 0,
        section.heading,
    ) + rows_lines(section.rows) + subsections_lines(section.subsections)));
}

/// A table starts with its header, as a line of its cells, and goes on with the lines
/// of its sections.
pub proof fn law_lines_of_a_table(table: SectionedTableView)
    ensures
        table.lines().len() == 1 + sections_lines(table.sections).len(),
        table.lines()[0] == (LineView { cells: table.header, spans: false }),
        table.lines().skip(1) == sections_lines(table.sections),
{
    assert(table.lines().skip(1) =~= sections_lines(table.sections));
}

/// A line keeps its cells, and gets empty ones up to the number of columns.
pub proof fn law_cells_are_filled_up(cells: Seq<Seq<char>>, columns: nat, i: int)
    ensures
        filled(cells, columns).len() == columns,
        0 <= i < columns && i < cells.len() ==> filled(cells, columns)[i] == cells[i],
        cells.len() <= i < columns ==> filled(cells, columns)[i].len() == 0,
{
}

/// Just the lines that span all columns are told to, each once and from top to bottom.
pub proof fn law_places_of_spanning_lines(lines: Seq<LineView>, place: nat)
    ensures
        spanning_places(lines).contains(place) <==> place < lines.len()
            && lines[place as int].spans,
        forall|i: int, j: int|
            #![trigger spanning_places(lines)[i], spanning_places(lines)[j]]
            0 <= i < j < spanning_places(lines).len() ==> spanning_places(lines)[i]
                < spanning_places(lines)[j],
        forall|i: int|
            0 <= i < spanning_places(lines).len() ==> (#[trigger] spanning_places(lines)[i])
                < lines.len(),
    decreases lines.len(),
{
    let places = spanning_places(lines);
    if lines.len() > 0 {
        let before = spanning_places(lines.drop_last());
        law_places_of_spanning_lines(lines.drop_last(), place);
        let last = (lines.len() - 1) as nat;
        if lines.last().spans {
            assert(places == before.push(last));
            assert(places[before.len() as int] == last);
            if before.contains(place) {
                let i = choose|i: int| 0 <= i < before.len() && before[i] == place;
                assert(places[i] == place);
            }
            if places.contains(place) && place != last {
                let i = choose|i: int| 0 <= i < places.len() && places[i] == place;
                assert(before[i] == place);
            }
        }
        if place < last {
            assert(lines.drop_last()[place as int] == lines[place as int]);
        }
    }
}

/// The parts of a table stand for what their fields hold.
pub proof fn law_tables_stand_for_themselves(
    row: SectionRow,
    subsection: Subsection,
    section: Section,
    table: SectionedTable,
)
    ensures
        match row {
            SectionRow::Record(cells) => row@ == RowView::Record(texts(cells@)),
            SectionRow::NestedHeading(spacing, heading) => row@ == RowView::NestedHeading(
                spacing,
                heading@,
            ),
            SectionRow::Spanned(text) => row@ == RowView::Spanned(text@),
        },
        subsection@.spacing == subsection.spacing,
        subsection@.heading == subsection.heading@,
        subsection@.rows == views(subsection.rows@),
        section@.spacing == section.spacing,
        section@.heading == section.heading@,
        section@.rows == views(section.rows@),
        section@.subsections == views(section.subsections@),
        table@.header == texts(table.header@),
        table@.sections == views(table.sections@),
{
}

/// The cells of a list of rows, each by its text.
pub proof fn law_cells_by_their_text(rows: Seq<Vec<String>>, i: int, k: int)
    ensures
        cell_texts(rows).len() == rows.len(),
        0 <= i < rows.len() ==> cell_texts(rows)[i].len() == rows[i]@.len(),
        0 <= i < rows.len() && 0 <= k < rows[i]@.len() ==> cell_texts(rows)[i][k] == rows[i]@[k]@,
{
}

/// The text of a table is laid out from its lines, filled up to the columns of the
/// header, and the first cells of those that span do so over all of these.
pub proof fn law_text_of_a_table(
    table: SectionedTableView,
    rows: Seq<Seq<Seq<char>>>,
    spans: Seq<(nat, nat)>,
)
    requires
        rows.len() == table.lines().len(),
        forall|i: int|
            0 <= i < rows.len() ==> #[trigger] rows[i] == filled(
                table.lines()[i].cells,
                table.header.len(),
            ),
        spans.len() == spanning_places(table.lines()).len(),
        forall|i: int|
            0 <= i < spans.len() ==> #[trigger] spans[i] == (
                spanning_places(table.lines())[i],
                table.header.len(),
            ),
    ensures
        table.text() == blank_table(rows, spans),
{
    assert(rows =~= table.lines().map_values(|l: LineView| filled(l.cells, table.header.len())));
    assert(spans =~= spanning_places(table.lines()).map_values(
        |place: nat| (place, table.header.len()),
    ));
}

} // verus!
