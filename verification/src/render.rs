//! The line rendering: one block of text for each record.

use vstd::prelude::*;
use vstd::string::*;
use crate::record::{ExtractedRecord, RecordView};

verus! {

/// What stands between the rank and the title.
pub const FIELD_SEPARATOR: &'static str = " | ";

/// What ends a line.
pub const LINE_END: &'static str = "\n";

/// The first line of a record's block: the rank, the separator and the
/// title, or the title alone where the record has no rank.
pub open spec fn heading(r: RecordView) -> Seq<char> {
    match r.rank {
        Some(rank) => rank + FIELD_SEPARATOR@ + r.title,
        None => r.title,
    }
}

/// The block of one record: its heading, its link target on a line of its
/// own, and an empty line that sets it off from the next block.
pub open spec fn block(r: RecordView) -> Seq<char> {
    heading(r) + LINE_END@ + r.url + LINE_END@ + LINE_END@
}

/// The text for a run of records: their blocks, one after the other in the
/// order of the records.
pub open spec fn rendering(records: Seq<RecordView>) -> Seq<char>
    decreases records.len(),
{
    if records.len() == 0 {
        Seq::empty()
    } else {
        rendering(records.drop_last()) + block(records.last())
    }
}

/// The text for one record alone is its block.
pub proof fn lemma_rendering_of_one(r: RecordView)
    ensures
        rendering(seq![r]) == block(r),
{
    assert(seq![r].drop_last() =~= Seq::<RecordView>::empty());
    assert(rendering(seq![r].drop_last()) =~= Seq::<char>::empty());
    assert(rendering(seq![r]) =~= block(r));
}

/// The text keeps the order of the records: the text for one run followed by
/// another is the text for the first followed by the text for the second.
pub proof fn lemma_rendering_keeps_order(first: Seq<RecordView>, second: Seq<RecordView>)
    ensures
        rendering(first + second) == rendering(first) + rendering(second),
    decreases second.len(),
{
    if second.len() == 0 {
        assert(first + second =~= first);
        assert(rendering(first) + rendering(second) =~= rendering(first));
    } else {
        lemma_rendering_keeps_order(first, second.drop_last());
        assert((first + second).drop_last() =~= first + second.drop_last());
        assert((first + second).last() == second.last());
        assert(rendering(first + second) =~= rendering(first) + rendering(second));
    }
}

/// The text depends on nothing but the records: runs that are equal record
/// by record give the same text, whenever and however often they are rendered.
pub proof fn lemma_rendering_repeats(first: Seq<RecordView>, second: Seq<RecordView>)
    requires
        first.len() == second.len(),
        forall|k: int| 0 <= k < first.len() ==> first[k] == second[k],
    ensures
        rendering(first) == rendering(second),
{
    assert(first =~= second);
}

/// Renders the block of one record.
pub fn render_block(record: &ExtractedRecord) -> (text: String)
    ensures
        text@ == block(record.deep_view()),
{
    let mut text = String::new();
    match &record.rank {
        Some(rank) => {
            text.append(rank.as_str());
            text.append(FIELD_SEPARATOR);
        },
        None => {},
    }
    text.append(record.title.as_str());
    assert(text@ =~= heading(record.deep_view()));
    text.append(LINE_END);
    text.append(record.url.as_str());
    text.append(LINE_END);
    text.append(LINE_END);
    text
}

/// Renders a run of records, block after block.
pub fn render(records: &Vec<ExtractedRecord>) -> (text: String)
    ensures
        text@ == rendering(records.deep_view()),
{
    let ghost rs = records.deep_view();
    let mut text = String::new();
    let mut i: usize = 0;
    assert(rs.take(0) =~= Seq::<RecordView>::empty());
    while i < records.len()
        invariant
            i <= records.len(),
            rs == records.deep_view(),
            text@ == rendering(rs.take(i as int)),
        decreases records.len() - i,
    {
        assert(rs.take(i + 1).drop_last() =~= rs.take(i as int));
        let piece = render_block(&records[i]);
        text.append(piece.as_str());
        i += 1;
    }
    assert(rs.take(i as int) =~= rs);
    text
}

} // verus!
