//! The table rendering: two rows for each record, the title above the link.
//!
//! The table, its rows and cells are those of the `prettytable` crate.

use vstd::prelude::*;
use prettytable::{Cell, Row, Table};
use crate::record::{ExtractedRecord, RecordView};
use crate::text::{strip_escapes, without_escapes, ESCAPE};

verus! {

/// `prettytable::Table`; nothing of its inside is seen here.
#[verifier::external_type_specification]
#[verifier::external_body]
pub struct ExTable(prettytable::Table);

/// `prettytable::Cell`; nothing of its inside is seen here.
#[verifier::external_type_specification]
#[verifier::external_body]
pub struct ExCell(prettytable::Cell);

/// The rows of `table`, top to bottom, each with its cells from left to right.
pub uninterp spec fn table_rows(table: Table) -> Seq<Seq<Cell>>;

/// The header of `table`: the cells of its title row, or `None` where it has none.
pub uninterp spec fn table_titles(table: Table) -> Option<Seq<Cell>>;

/// The cell that holds `text`, styled as the specifier `style` says.
pub uninterp spec fn styled_cell(text: Seq<char>, style: Seq<char>) -> Cell;

/// `Table::new`: the new table has no rows and no header.
pub assume_specification[ Table::new ]() -> (table: Table)
    ensures
        table_rows(table) == Seq::<Seq<Cell>>::empty(),
        table_titles(table) is None,
;

/// The style of a title cell: black on yellow, bold, aligned left.
pub const TITLE_STYLE: &'static str = "FdBybl";

/// The style of a link cell: yellow foreground.
pub const LINK_STYLE: &'static str = "Fy";

/// The cell that shows a title: the title without escape characters, in
/// the title style.
pub open spec fn title_cell(r: RecordView) -> Cell {
    styled_cell(without_escapes(r.title), TITLE_STYLE@)
}

/// The cell that shows a link target: the target without escape
/// characters, in the link style.
pub open spec fn link_cell(r: RecordView) -> Cell {
    styled_cell(without_escapes(r.url), LINK_STYLE@)
}

/// The row at place `i` of the table for `records`: the title of record
/// `i / 2` where `i` is even, its link target where `i` is odd.
pub open spec fn story_row(records: Seq<RecordView>, i: int) -> Seq<Cell> {
    if i % 2 == 0 {
        seq![title_cell(records[i / 2])]
    } else {
        seq![link_cell(records[i / 2])]
    }
}

/// The rows of the table for `records`: two for each record, in the order
/// of the records, and no header.
pub open spec fn story_rows(records: Seq<RecordView>) -> Seq<Seq<Cell>> {
    Seq::new(2 * records.len(), |i: int| story_row(records, i))
}

/// The rows depend on nothing but the records: runs that are equal record by
/// record give the same rows, whenever and however often the table is built.
pub proof fn lemma_story_rows_repeat(first: Seq<RecordView>, second: Seq<RecordView>)
    requires
        first.len() == second.len(),
        forall|k: int| 0 <= k < first.len() ==> first[k] == second[k],
    ensures
        story_rows(first) == story_rows(second),
{
    assert(first =~= second);
}

/// The table keeps the order of the records: record `k` has its title in
/// row `2k` and its link target in row `2k + 1`.
pub proof fn lemma_story_rows_keep_order(records: Seq<RecordView>, k: int)
    requires
        0 <= k < records.len(),
    ensures
        story_rows(records).len() == 2 * records.len(),
        story_rows(records)[2 * k] == seq![title_cell(records[k])],
        story_rows(records)[2 * k + 1] == seq![link_cell(records[k])],
{
}

/// Builds the table for `records`: two rows for each record and no header.
/// Escape characters are taken out of what a cell shows.
pub fn build_table(records: &Vec<ExtractedRecord>) -> (table: Table)
    ensures
        table_rows(table) == story_rows(records.deep_view()),
        table_titles(table) is None,
{
    let mut table = Table::new();
    let ghost rs = records.deep_view();
    let mut i: usize = 0;
    proof {
        reveal_strlit("FdBybl");
        reveal_strlit("Fy");
    }
    while i < records.len()
        invariant
            i <= records.len(),
            rs == records.deep_view(),
            !TITLE_STYLE@.contains('H'),
            !LINK_STYLE@.contains('H'),
            table_titles(table) is None,
            table_rows(table).len() == 2 * i,
            forall|k: int| 0 <= k < 2 * i ==> #[trigger] table_rows(table)[k] == story_row(rs, k),
        decreases records.len() - i,
    {
        let record = &records[i];
        let title = strip_escapes(record.title.as_str());
        let target = strip_escapes(record.url.as_str());
        add_row(&mut table, styled(title.as_str(), TITLE_STYLE));
        add_row(&mut table, styled(target.as_str(), LINK_STYLE));
        i += 1;
    }
    assert(table_rows(table) =~= story_rows(rs));
    table
}

/// `Cell::new` followed by `Cell::style_spec`: the result is the cell named
/// by `styled_cell`. A text with an escape character is left out, because
/// `Cell::new` measures the text and fails where a control sequence hides
/// more columns than the text is wide. A specifier with the letter `H` is
/// left out, because `style_spec` reads a number after it and fails where
/// there is none.
#[verifier::external_body]
fn styled(text: &str, style: &str) -> (cell: Cell)
    requires
        !text@.contains(ESCAPE),
        !style@.contains('H'),
    ensures
        cell == styled_cell(text@, style@),
{
    Cell::new(text).style_spec(style)
}

/// `Table::add_row`, with a row of the one cell `cell`: the row is appended,
/// and the rows above it and the header stay as they were.
#[verifier::external_body]
fn add_row(table: &mut Table, cell: Cell)
    ensures
        table_rows(*final(table)) == table_rows(*old(table)).push(seq![cell]),
        table_titles(*final(table)) == table_titles(*old(table)),
{
    table.add_row(Row::new(vec![cell]));
}

} // verus!
