//! The report as a table, drawn by `comfy_table`.

use vstd::prelude::*;
use crate::record::DiscoveredFile;
use crate::render::{Row, binary_size_text, render_rows, shows_time, utf8_lossy_text};

verus! {

/// A table of `comfy_table`. Its inside is not visible here.
#[verifier::external_type_specification]
#[verifier::external_body]
pub struct ExTable(comfy_table::Table);

/// The data rows of a table, from top to bottom; each row is the text of its
/// cells from left to right. The header is no data row.
pub uninterp spec fn table_rows(table: comfy_table::Table) -> Seq<Seq<Seq<char>>>;

/// The header of a table, where it has one: the text of its cells from left
/// to right.
pub uninterp spec fn table_header(table: comfy_table::Table) -> Option<Seq<Seq<char>>>;

/// Whether a table is drawn from what it holds alone: its columns are as
/// wide as their content, whatever the terminal, and none of its cells is
/// coloured or otherwise styled.
pub uninterp spec fn table_is_plain(table: comfy_table::Table) -> bool;

/// The text that `comfy_table` draws for a plain table.
pub uninterp spec fn drawn_text(table: comfy_table::Table) -> Seq<char>;

/// The cells that a row of the report puts into the table.
pub open spec fn cells_of(row: Row) -> Seq<Seq<char>> {
    seq![row.path@, row.size@, row.modified@]
}

/// The cells of every row of the report.
pub open spec fn all_cells(rows: Seq<Row>) -> Seq<Seq<Seq<char>>> {
    rows.map_values(|r: Row| cells_of(r))
}

/// The cells of the header: file, size and time of modification.
pub open spec fn header_cells() -> Seq<Seq<char>> {
    seq!["Fil"@, "Storlek"@, "Ändrad"@]
}

/// Whether the cells of a data row show a file: its path as text, its size
/// in binary units and, in third place, its time of modification as local
/// time, or a dash where it has none.
pub open spec fn shows(cells: Seq<Seq<char>>, file: DiscoveredFile) -> bool {
    &&& cells.len() == 3
    &&& cells[0] == utf8_lossy_text(file.path@)
    &&& cells[1] == binary_size_text(file.size)
    &&& shows_time(cells[2], file.modified)
}

/// Whether a table is the report of a list of files: a plain table with the
/// header of the report and one data row for each file, in the order of the
/// list, that shows that file.
pub open spec fn reports(table: comfy_table::Table, files: Seq<DiscoveredFile>) -> bool {
    &&& table_is_plain(table)
    &&& table_header(table) == Some(header_cells())
    &&& table_rows(table).len() == files.len()
    &&& forall|i: int| 0 <= i < files.len() ==> shows(#[trigger] table_rows(table)[i], files[i])
}

/// Calls `comfy_table::Table::new`: a plain table without header and
/// without data rows.
#[verifier::external_body]
fn new_table() -> (table: comfy_table::Table)
    ensures
        table_rows(table) == Seq::<Seq<Seq<char>>>::empty(),
        table_header(table).is_none(),
        table_is_plain(table),
{
    comfy_table::Table::new()
}

/// Calls `Table::load_preset` with the preset `UTF8_FULL`, which changes the
/// characters of the borders and nothing else.
#[verifier::external_body]
fn draw_full_borders(table: &mut comfy_table::Table)
    ensures
        table_rows(*final(table)) == table_rows(*old(table)),
        table_header(*final(table)) == table_header(*old(table)),
        table_is_plain(*final(table)) == table_is_plain(*old(table)),
{
    table.load_preset(comfy_table::presets::UTF8_FULL);
}

/// Calls `Table::set_header` with three cells that are aligned left, right
/// and centre and have no style. The data rows stay as they are, and a plain
/// table stays plain.
#[verifier::external_body]
fn set_header(table: &mut comfy_table::Table, path: &str, size: &str, modified: &str)
    ensures
        table_rows(*final(table)) == table_rows(*old(table)),
        table_header(*final(table)) == Some(seq![path@, size@, modified@]),
        table_is_plain(*final(table)) == table_is_plain(*old(table)),
{
    table.set_header(vec![
        comfy_table::Cell::new(path).set_alignment(comfy_table::CellAlignment::Left),
        comfy_table::Cell::new(size).set_alignment(comfy_table::CellAlignment::Right),
        comfy_table::Cell::new(modified).set_alignment(comfy_table::CellAlignment::Center),
    ]);
}

/// Calls `Table::add_row` with the three cells of `row`, aligned left, right
/// and centre and without style: the row is appended below the rows that are
/// there, the header stays, and a plain table stays plain.
#[verifier::external_body]
fn add_row(table: &mut comfy_table::Table, row: &Row)
    ensures
        table_rows(*final(table)) == table_rows(*old(table)).push(cells_of(*row)),
        table_header(*final(table)) == table_header(*old(table)),
        table_is_plain(*final(table)) == table_is_plain(*old(table)),
{
    table.add_row(vec![
        comfy_table::Cell::new(&row.path).set_alignment(comfy_table::CellAlignment::Left),
        comfy_table::Cell::new(&row.size).set_alignment(comfy_table::CellAlignment::Right),
        comfy_table::Cell::new(&row.modified).set_alignment(comfy_table::CellAlignment::Center),
    ]);
}

/// Calls `to_string` on the table, which draws it. The text of a plain table
/// depends on the table alone; it is named, not described.
#[verifier::external_body]
fn draw(table: &comfy_table::Table) -> (text: String)
    requires
        table_is_plain(*table),
    ensures
        text@ == drawn_text(*table),
{
    table.to_string()
}

/// Builds the table of a report: a plain table with full borders, the header
/// of the report and one data row for each row of the report, in the same
/// order.
pub fn build_table(rows: &Vec<Row>) -> (table: comfy_table::Table)
    ensures
        table_rows(table) == all_cells(rows@),
        table_header(table) == Some(header_cells()),
        table_is_plain(table),
{
    let mut table = new_table();
    draw_full_borders(&mut table);
    set_header(&mut table, "Fil", "Storlek", "Ändrad");
    let mut i: usize = 0;
    assert(table_rows(table) =~= all_cells(rows@.subrange(0, 0)));
    while i < rows.len()
        invariant
            0 <= i <= rows@.len(),
            table_rows(table) == all_cells(rows@.subrange(0, i as int)),
            table_header(table) == Some(header_cells()),
            table_is_plain(table),
        decreases rows@.len() - i,
    {
        add_row(&mut table, &rows[i]);
        assert(all_cells(rows@.subrange(0, i + 1)) =~= all_cells(rows@.subrange(0, i as int)).push(
            cells_of(rows@[i as int]),
        ));
        i += 1;
    }
    assert(rows@.subrange(0, i as int) =~= rows@);
    table
}

/// Builds the table that reports a list of files.
pub fn files_table(files: &Vec<DiscoveredFile>) -> (table: comfy_table::Table)
    ensures
        reports(table, files@),
{
    let rows = render_rows(files);
    let table = build_table(&rows);
    assert forall|i: int| 0 <= i < files@.len() implies shows(
        #[trigger] table_rows(table)[i],
        files@[i],
    ) by {
        assert(table_rows(table)[i] == cells_of(rows@[i]));
    }
    table
}

/// Draws the report for a list of files: the text that `comfy_table` draws
/// for the table that reports the files, one data row per file in the order
/// of the list.
pub fn report_text(files: &Vec<DiscoveredFile>) -> (text: String)
    ensures
        exists|table: comfy_table::Table| #[trigger] reports(table, files@) && text@ == drawn_text(table),
{
    let table = files_table(files);
    draw(&table)
}

} // verus!
