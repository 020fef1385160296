//! Tables that are divided into sections.

use tabled::Table;
use vstd::prelude::*;

use crate::sort::views;
use crate::text::texts;

verus! {

/// When an empty line stands before a heading.
#[derive(Copy, Clone, Debug, PartialEq, Eq, Structural)]
pub enum SectionSpacing {
    /// Always.
    Always,
    /// Unless the heading comes first.
    IfNotFirst,
    /// Never.
    Never,
}

/// A row of a section.
#[derive(Debug)]
pub enum SectionRow {
    /// Cells, one for each column.
    Record(Vec<String>),
    /// A heading within the section.
    NestedHeading(SectionSpacing, String),
    /// Text that spans all columns.
    Spanned(String),
}

/// What a [`SectionRow`] stands for.
pub enum RowView {
    Record(Seq<Seq<char>>),
    NestedHeading(SectionSpacing, Seq<char>),
    Spanned(Seq<char>),
}

impl View for SectionRow {
    type V = RowView;

    open spec fn view(&self) -> RowView {
        match self {
            SectionRow::Record(cells) => RowView::Record(texts(cells@)),
            SectionRow::NestedHeading(spacing, heading) => {
                RowView::NestedHeading(*spacing, heading@)
            },
            SectionRow::Spanned(text) => RowView::Spanned(text@),
        }
    }
}

/// A section within a section.
#[derive(Debug)]
pub struct Subsection {
    pub spacing: SectionSpacing,
    pub heading: String,
    pub rows: Vec<SectionRow>,
}

/// What a [`Subsection`] stands for.
#[verifier::ext_equal]
pub struct SubsectionView {
    pub spacing: SectionSpacing,
    pub heading: Seq<char>,
    pub rows: Seq<RowView>,
}

impl View for Subsection {
    type V = SubsectionView;

    open spec fn view(&self) -> SubsectionView {
        SubsectionView { spacing: self.spacing, heading: self.heading@, rows: views(self.rows@) }
    }
}

/// A section of a table: its rows, then its subsections.
#[derive(Debug)]
pub struct Section {
    pub spacing: SectionSpacing,
    pub heading: String,
    pub rows: Vec<SectionRow>,
    pub subsections: Vec<Subsection>,
}

/// What a [`Section`] stands for.
#[verifier::ext_equal]
pub struct SectionView {
    pub spacing: SectionSpacing,
    pub heading: Seq<char>,
    pub rows: Seq<RowView>,
    pub subsections: Seq<SubsectionView>,
}

impl View for Section {
    type V = SectionView;

    open spec fn view(&self) -> SectionView {
        SectionView {
            spacing: self.spacing,
            heading: self.heading@,
            rows: views(self.rows@),
            subsections: views(self.subsections@),
        }
    }
}

/// A table: a header row, then sections.
#[derive(Debug)]
pub struct SectionedTable {
    pub header: Vec<String>,
    pub sections: Vec<Section>,
}

/// What a [`SectionedTable`] stands for.
#[verifier::ext_equal]
pub struct SectionedTableView {
    pub header: Seq<Seq<char>>,
    pub sections: Seq<SectionView>,
}

impl View for SectionedTable {
    type V = SectionedTableView;

    open spec fn view(&self) -> SectionedTableView {
        SectionedTableView { header: texts(self.header@), sections: views(self.sections@) }
    }
}

// ---
// Laying out a table
// ---

#[verifier::external_type_specification]
#[verifier::external_body]
pub struct ExTable(Table);

/// A line of a table: cells, or text in the first of them that spans all columns.
pub struct Line {
    pub cells: Vec<String>,
    pub spans: bool,
}

/// What a [`Line`] stands for.
#[verifier::ext_equal]
pub struct LineView {
    pub cells: Seq<Seq<char>>,
    pub spans: bool,
}

impl View for Line {
    type V = LineView;

    open spec fn view(&self) -> LineView {
        LineView { cells: texts(self.cells@), spans: self.spans }
    }
}

/// A line of text that spans all columns.
pub open spec fn spanning(text: Seq<char>) -> LineView {
    LineView { cells: seq![text], spans: true }
}

/// The lines of a heading.
pub open spec fn heading_lines(spacing: SectionSpacing, first: bool, heading: Seq<char>) -> Seq<
    LineView,
> {
    if spacing is Always || (spacing is IfNotFirst && !first) {
        seq![spanning(Seq::empty()), spanning(heading)]
    } else {
        seq![spanning(heading)]
    }
}

/// The lines of a row.
pub open spec fn row_lines(row: RowView, first: bool) -> Seq<LineView> {
    match row {
        RowView::Record(cells) => seq![LineView { cells, spans: false }],
        RowView::NestedHeading(spacing, heading) => heading_lines(spacing, first, heading),
        RowView::Spanned(text) => seq![spanning(text)],
    }
}

/// The lines of rows.
pub open spec fn rows_lines(rows: Seq<RowView>) -> Seq<LineView>
    decreases rows.len(),
{
    if rows.len() == 0 {
        Seq::empty()
    } else {
        rows_lines(rows.drop_last()) + row_lines(rows.last(), rows.len() == 1)
    }
}

/// The lines of subsections.
pub open spec fn subsections_lines(subsections: Seq<SubsectionView>) -> Seq<LineView>
    decreases subsections.len(),
{
    if subsections.len() == 0 {
        Seq::empty()
    } else {
        let last = subsections.last();
        subsections_lines(subsections.drop_last()) + heading_lines(
            last.spacing,
            subsections.len() == 1,
            last.heading,
        ) + rows_lines(last.rows)
    }
}

/// The lines of sections.
pub open spec fn sections_lines(sections: Seq<SectionView>) -> Seq<LineView>
    decreases sections.len(),
{
    if sections.len() == 0 {
        Seq::empty()
    } else {
        let last = sections.last();
        sections_lines(sections.drop_last()) + heading_lines(
            last.spacing,
            sections.len() == 1,
            last.heading,
        ) + rows_lines(last.rows) + subsections_lines(last.subsections)
    }
}

/// As many cells as there are columns: where there are fewer, the rest are empty.
pub open spec fn filled(cells: Seq<Seq<char>>, columns: nat) -> Seq<Seq<char>> {
    Seq::new(
        columns,
        |i: int|
            if i < cells.len() {
                cells[i]
            } else {
                Seq::empty()
            },
    )
}

/// The places of the lines that span all columns.
pub open spec fn spanning_places(lines: Seq<LineView>) -> Seq<nat>
    decreases lines.len(),
{
    if lines.len() == 0 {
        Seq::empty()
    } else {
        let before = spanning_places(lines.drop_last());
        if lines.last().spans {
            before.push((lines.len() - 1) as nat)
        } else {
            before
        }
    }
}

/// The text that `tabled` gives for rows of cells in a table whose borders are
/// blank, in which the first cells of some rows span columns: each with its row,
/// and the number of columns.
pub uninterp spec fn blank_table(rows: Seq<Seq<Seq<char>>>, spans: Seq<(nat, nat)>) -> Seq<char>;

/// Whether the borders of a `tabled::Table` are blank, and it has otherwise the
/// settings that tables start with, but for cells that span columns.
pub uninterp spec fn has_blank_style(table: Table) -> bool;

/// The cells of a `tabled::Table`.
pub uninterp spec fn table_cells(table: Table) -> Seq<Seq<Seq<char>>>;

/// The rows of a `tabled::Table` whose first cells span columns, each with the
/// number of columns.
pub uninterp spec fn table_spans(table: Table) -> Seq<(nat, nat)>;

impl SectionedTableView {
    /// The lines of the table: the header, and those of the sections.
    pub open spec fn lines(self) -> Seq<LineView> {
        seq![LineView { cells: self.header, spans: false }] + sections_lines(self.sections)
    }

    /// The text of the table.
    pub open spec fn text(self) -> Seq<char> {
        blank_table(
            self.lines().map_values(|l: LineView| filled(l.cells, self.header.len())),
            spanning_places(self.lines()).map_values(|place: nat| (place, self.header.len())),
        )
    }
}

/// The cells of a list of rows.
pub open spec fn cell_texts(rows: Seq<Vec<String>>) -> Seq<Seq<Seq<char>>> {
    rows.map_values(|row: Vec<String>| texts(row@))
}

/// Makes a table of rows of equally many cells, whose borders are blank.
///
/// Calls the builder of `tabled` and its setting for style.
#[verifier::external_body]
fn table_of(rows: Vec<Vec<String>>) -> (r: Table)
    requires
        forall|i: int| 0 <= i < rows.len() ==> (#[trigger] rows@[i]).len() == rows@[0].len(),
    ensures
        has_blank_style(r),
        table_cells(r) == cell_texts(rows@),
        table_spans(r).len() == 0,
{
    let mut table = tabled::builder::Builder::from_iter(rows).build();
    table.with(tabled::settings::Style::blank());
    table
}

/// Lets the first cell of a row span columns.
///
/// Calls `tabled::settings::Span::column` for the cell.
#[verifier::external_body]
fn table_span(table: &mut Table, row: usize, columns: usize)
    requires
        row < table_cells(*old(table)).len(),
        0 < columns <= table_cells(*old(table))[row as int].len(),
    ensures
        has_blank_style(*final(table)) == has_blank_style(*old(table)),
        table_cells(*final(table)) == table_cells(*old(table)),
        table_spans(*final(table)) == table_spans(*old(table)).push((row as nat, columns as nat)),
{
    let cell = tabled::settings::object::Cell::new(row, 0);
    let span = tabled::settings::Span::column(columns);
    table.with(tabled::settings::Modify::new(cell).with(span));
}

/// Lays out a table.
///
/// Calls the `Display` of `tabled::Table`; with blank borders, the text depends on
/// the cells and on which of them span columns alone.
#[verifier::external_body]
fn table_string(table: &Table) -> (r: String)
    requires
        has_blank_style(*table),
    ensures
        r@ == blank_table(table_cells(*table), table_spans(*table)),
{
    table.to_string()
}

fn push_spanning(lines: &mut Vec<Line>, text: &str)
    ensures
        views(final(lines)@) == views(old(lines)@).push(spanning(text@)),
{
    let line = Line { cells: vec![text.to_owned()], spans: true };
    assert(line@.cells =~= seq![text@]);
    lines.push(line);
    assert(views(lines@) =~= views(old(lines)@).push(spanning(text@)));
}

fn push_heading(lines: &mut Vec<Line>, spacing: SectionSpacing, first: bool, heading: &str)
    ensures
        views(final(lines)@) == views(old(lines)@) + heading_lines(spacing, first, heading@),
{
    let spaced = match spacing {
        SectionSpacing::Always => true,
        SectionSpacing::IfNotFirst => !first,
        SectionSpacing::Never => false,
    };
    if spaced {
        proof {
            reveal_strlit("");
            assert(""@ =~= Seq::<char>::empty());
        }
        push_spanning(lines, "");
    }
    push_spanning(lines, heading);
    assert(views(lines@) =~= views(old(lines)@) + heading_lines(spacing, first, heading@));
}

fn copied(cells: &Vec<String>) -> (r: Vec<String>)
    ensures
        texts(r@) == texts(cells@),
{
    let mut out: Vec<String> = Vec::new();
    let mut i: usize = 0;
    while i < cells.len()
        invariant
            i <= cells.len(),
            texts(out@) == texts(cells@).take(i as int),
        decreases cells.len() - i,
    {
        let ghost before = texts(out@);
        out.push(cells[i].clone());
        assert(texts(out@) =~= before.push(texts(cells@)[i as int]));
        assert(texts(out@) =~= texts(cells@).take(i + 1));
        i = i + 1;
    }
    assert(texts(out@) =~= texts(cells@));
    out
}

fn push_rows(lines: &mut Vec<Line>, rows: &Vec<SectionRow>)
    ensures
        views(final(lines)@) == views(old(lines)@) + rows_lines(views(rows@)),
{
    let ghost start = views(lines@);
    let ghost all = views(rows@);
    let mut i: usize = 0;
    assert(start + rows_lines(all.take(0)) =~= start);
    while i < rows.len()
        invariant
            i <= rows.len(),
            all == views(rows@),
            views(lines@) == start + rows_lines(all.take(i as int)),
        decreases rows.len() - i,
    {
        let ghost before = views(lines@);
        assert(all.take(i + 1).drop_last() =~= all.take(i as int));
        assert(all.take(i + 1).last() == rows@[i as int]@);
        match &rows[i] {
            SectionRow::Record(cells) => {
                let line = Line { cells: copied(cells), spans: false };
                lines.push(line);
                assert(views(lines@) =~= before + row_lines(all[i as int], i == 0));
            },
            SectionRow::NestedHeading(spacing, heading) => {
                push_heading(lines, *spacing, i == 0, heading.as_str());
            },
            SectionRow::Spanned(text) => {
                push_spanning(lines, text.as_str());
                assert(views(lines@) =~= before + row_lines(all[i as int], i == 0));
            },
        }
        assert(views(lines@) =~= start + rows_lines(all.take(i + 1)));
        i = i + 1;
    }
    assert(all.take(all.len() as int) =~= all);
}

fn push_subsections(lines: &mut Vec<Line>, subsections: &Vec<Subsection>)
    ensures
        views(final(lines)@) == views(old(lines)@) + subsections_lines(views(subsections@)),
{
    let ghost start = views(lines@);
    let ghost all = views(subsections@);
    let mut i: usize = 0;
    assert(start + subsections_lines(all.take(0)) =~= start);
    while i < subsections.len()
        invariant
            i <= subsections.len(),
            all == views(subsections@),
            views(lines@) == start + subsections_lines(all.take(i as int)),
        decreases subsections.len() - i,
    {
        assert(all.take(i + 1).drop_last() =~= all.take(i as int));
        assert(all.take(i + 1).last() == subsections@[i as int]@);
        let subsection = &subsections[i];
        push_heading(lines, subsection.spacing, i == 0, subsection.heading.as_str());
        push_rows(lines, &subsection.rows);
        assert(views(lines@) =~= start + subsections_lines(all.take(i + 1)));
        i = i + 1;
    }
    assert(all.take(all.len() as int) =~= all);
}

/// As many cells as there are columns.
fn fill(cells: &Vec<String>, columns: usize) -> (r: Vec<String>)
    ensures
        r.len() == columns,
        texts(r@) == filled(texts(cells@), columns as nat),
{
    let mut out: Vec<String> = Vec::new();
    let mut i: usize = 0;
    while i < columns
        invariant
            i <= columns,
            texts(out@) == filled(texts(cells@), i as nat),
        decreases columns - i,
    {
        let ghost before = texts(out@);
        if i < cells.len() {
            out.push(cells[i].clone());
            assert(texts(out@) =~= before.push(texts(cells@)[i as int]));
        } else {
            out.push(String::new());
            assert(texts(out@) =~= before.push(Seq::empty()));
        }
        assert(texts(out@) =~= filled(texts(cells@), (i + 1) as nat));
        i = i + 1;
    }
    assert(texts(out@).len() == out@.len());
    out
}

impl SectionedTable {
    /// The lines of the table: the header, and those of the sections.
    pub fn lines(&self) -> (r: Vec<Line>)
        ensures
            views(r@) == self@.lines(),
    {
        let mut lines: Vec<Line> = vec![Line { cells: copied(&self.header), spans: false }];
        let ghost header = LineView { cells: texts(self.header@), spans: false };
        let ghost all = views(self.sections@);
        let mut i: usize = 0;
        assert(views(lines@) =~= seq![header] + sections_lines(all.take(0)));
        while i < self.sections.len()
            invariant
                i <= self.sections.len(),
                all == views(self.sections@),
                views(lines@) == seq![header] + sections_lines(all.take(i as int)),
            decreases self.sections.len() - i,
        {
            assert(all.take(i + 1).drop_last() =~= all.take(i as int));
            assert(all.take(i + 1).last() == self.sections@[i as int]@);
            let section = &self.sections[i];
            push_heading(&mut lines, section.spacing, i == 0, section.heading.as_str());
            push_rows(&mut lines, &section.rows);
            push_subsections(&mut lines, &section.subsections);
            assert(views(lines@) =~= seq![header] + sections_lines(all.take(i + 1)));
            i = i + 1;
        }
        assert(all.take(all.len() as int) =~= all);
        lines
    }

    /// The text of the table, which has at least one column.
    pub fn to_text(&self) -> (r: String)
        requires
            self@.header.len() > 0,
        ensures
            r@ == self@.text(),
    {
        let lines = self.lines();
        let columns: usize = self.header.len();
        assert(self@.header.len() == columns);
        let ghost all = self@.lines();
        let ghost cells = |l: LineView| filled(l.cells, columns as nat);
        let mut rows: Vec<Vec<String>> = Vec::new();
        let mut i: usize = 0;
        while i < lines.len()
            invariant
                i <= lines.len(),
                all == views(lines@),
                cells == (|l: LineView| filled(l.cells, columns as nat)),
                forall|k: int| 0 <= k < rows.len() ==> (#[trigger] rows@[k]).len() == columns,
                cell_texts(rows@) == all.take(i as int).map_values(cells),
            decreases lines.len() - i,
        {
            let ghost before = cell_texts(rows@);
            assert(all[i as int] == lines@[i as int]@);
            rows.push(fill(&lines[i].cells, columns));
            assert(cell_texts(rows@) =~= before.push(cells(all[i as int])));
            assert(cell_texts(rows@) =~= all.take(i + 1).map_values(cells));
            i = i + 1;
        }
        assert(all.take(all.len() as int) =~= all);
        let mut table = table_of(rows);
        let ghost span = |place: nat| (place, columns as nat);
        let mut i: usize = 0;
        assert(table_spans(table) =~= spanning_places(all.take(0)).map_values(span));
        while i < lines.len()
            invariant
                i <= lines.len(),
                columns > 0,
                has_blank_style(table),
                all == views(lines@),
                cells == (|l: LineView| filled(l.cells, columns as nat)),
                span == (|place: nat| (place, columns as nat)),
                table_cells(table) == all.map_values(cells),
                table_spans(table) == spanning_places(all.take(i as int)).map_values(span),
            decreases lines.len() - i,
        {
            proof {
                assert(all[i as int] == lines@[i as int]@);
                assert(all.take(i + 1).drop_last() =~= all.take(i as int));
                assert(all.take(i + 1).last() == lines@[i as int]@);
                assert(table_cells(table)[i as int] == filled(all[i as int].cells, columns as nat));
            }
            if lines[i].spans {
                table_span(&mut table, i, columns);
            }
            assert(table_spans(table) =~= spanning_places(all.take(i + 1)).map_values(span));
            i = i + 1;
        }
        proof {
            assert(all.take(all.len() as int) =~= all);
            assert(all.map_values(cells) =~= all.map_values(
                |l: LineView| filled(l.cells, self@.header.len()),
            ));
            assert(spanning_places(all).map_values(span) =~= spanning_places(all).map_values(
                |place: nat| (place, self@.header.len()),
            ));
        }
        table_string(&table)
    }
}

} // verus!
