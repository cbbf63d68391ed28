//! A whole run, from what the transport handed back to what is to be
//! printed: status gate, parser, extractor, renderer, each stage only if the
//! one before it succeeded.

use vstd::prelude::*;
use prettytable::{Cell, Table};
use crate::body::{check_body, refusal, too_deep};
use crate::css::{
    headline_stories, lemma_link_without_target_ends_run, lemma_stories_are_sound, link_candidate,
    parsed_html, positional_stories, selection, stories_by, yielded_stories, CssTree,
};
use crate::error::{ExtractError, FetchErrorView, ParseError, ScrapeError, ScrapeErrorView};
use crate::extract::{
    defect, extract_all, kept_positions, lemma_kept_positions, lemma_missing_href_ends_run,
    lemma_no_login_record, lemma_records_keep_order, lemma_records_nonempty,
    lemma_success_iff_no_defect, login_title, record_of, skipped, yielded, RankPolicy,
};
use crate::fetch::{check_response, gate, status_is_success, FetchOutcome, FetchOutcomeView};
use crate::markers::{
    ascending, entry_candidate, entry_candidates, item_nodes, link_targets, name_nodes,
    parsed_document, MarkerTree, LINK_TAG,
};
use crate::record::{RecordView, LINK_ATTR};
use crate::render::{render, rendering};
use crate::table::{build_table, story_rows, table_rows, table_titles};

verus! {

/// The body that a parser parses: the one that passed the status gate,
/// unless the parser refuses it.
pub open spec fn acquired(outcome: FetchOutcomeView) -> Result<Seq<char>, ScrapeErrorView> {
    match gate(outcome) {
        Ok(body) => match refusal(body) {
            Some(e) => Err(ScrapeErrorView::Parse(e)),
            None => Ok(body),
        },
        Err(e) => Err(ScrapeErrorView::Fetch(e)),
    }
}

/// The body that the parser of marker trees parses: the acquired one,
/// unless its markup nests too deep.
pub open spec fn acquired_shallow(outcome: FetchOutcomeView) -> Result<
    Seq<char>,
    ScrapeErrorView,
> {
    match acquired(outcome) {
        Ok(body) => if too_deep(body) {
            Err(ScrapeErrorView::Parse(ParseError::TooDeep))
        } else {
            Ok(body)
        },
        Err(e) => Err(e),
    }
}

/// The records that a run extracts from the body that it parses, where
/// `stories` says what the layout at hand finds in a body.
pub open spec fn records_of(
    body: Result<Seq<char>, ScrapeErrorView>,
    stories: spec_fn(Seq<char>) -> Result<Seq<RecordView>, ExtractError>,
) -> Result<Seq<RecordView>, ScrapeErrorView> {
    match body {
        Ok(body) => match stories(body) {
            Ok(records) => Ok(records),
            Err(e) => Err(ScrapeErrorView::Extract(e)),
        },
        Err(e) => Err(e),
    }
}

/// The records of the ranked layout that a run on `outcome` extracts.
pub open spec fn ranked_records_of(outcome: FetchOutcomeView) -> Result<
    Seq<RecordView>,
    ScrapeErrorView,
> {
    records_of(
        acquired_shallow(outcome),
        |body: Seq<char>|
            extract_all(entry_candidates(parsed_document(body)), RankPolicy::Required),
    )
}

/// The records of the layout searched by position that a run on `outcome` extracts.
pub open spec fn positional_records_of(outcome: FetchOutcomeView) -> Result<
    Seq<RecordView>,
    ScrapeErrorView,
> {
    records_of(acquired(outcome), |body: Seq<char>| positional_stories(parsed_html(body)))
}

/// The records of the layout with marked headline links that a run on
/// `outcome` extracts.
pub open spec fn headline_records_of(outcome: FetchOutcomeView) -> Result<
    Seq<RecordView>,
    ScrapeErrorView,
> {
    records_of(acquired(outcome), |body: Seq<char>| headline_stories(parsed_html(body)))
}

/// The text that prints `records`, or the failure that came instead of them.
pub open spec fn report(records: Result<Seq<RecordView>, ScrapeErrorView>) -> Result<
    Seq<char>,
    ScrapeErrorView,
> {
    match records {
        Ok(records) => Ok(rendering(records)),
        Err(e) => Err(e),
    }
}

/// The text that a run of the ranked layout on `outcome` prints.
pub open spec fn ranked_report_of(outcome: FetchOutcomeView) -> Result<Seq<char>, ScrapeErrorView> {
    report(ranked_records_of(outcome))
}

/// The text that a run of the layout with marked headline links on
/// `outcome` prints.
pub open spec fn headline_report_of(outcome: FetchOutcomeView) -> Result<
    Seq<char>,
    ScrapeErrorView,
> {
    report(headline_records_of(outcome))
}

/// The rows of the table that a run of the layout searched by position on
/// `outcome` prints.
pub open spec fn story_table_of(outcome: FetchOutcomeView) -> Result<
    Seq<Seq<Cell>>,
    ScrapeErrorView,
> {
    match positional_records_of(outcome) {
        Ok(records) => Ok(story_rows(records)),
        Err(e) => Err(e),
    }
}

/// The link targets that a run on `outcome` lists.
pub open spec fn link_list_of(outcome: FetchOutcomeView) -> Result<
    Seq<Seq<char>>,
    ScrapeErrorView,
> {
    match acquired_shallow(outcome) {
        Ok(body) => Ok(link_targets(parsed_document(body))),
        Err(e) => Err(e),
    }
}

/// The records that a run prints: those that it extracted where every stage
/// succeeded, none where one failed.
pub open spec fn printed(records: Result<Seq<RecordView>, ScrapeErrorView>) -> Seq<RecordView> {
    match records {
        Ok(records) => records,
        Err(_) => Seq::empty(),
    }
}

/// Every kind of run on `outcome` ends with `failure`, and prints nothing.
pub open spec fn every_run_fails(outcome: FetchOutcomeView, failure: ScrapeErrorView) -> bool {
    &&& ranked_report_of(outcome) == Err::<Seq<char>, ScrapeErrorView>(failure)
    &&& headline_report_of(outcome) == Err::<Seq<char>, ScrapeErrorView>(failure)
    &&& story_table_of(outcome) == Err::<Seq<Seq<Cell>>, ScrapeErrorView>(failure)
    &&& link_list_of(outcome) == Err::<Seq<Seq<char>>, ScrapeErrorView>(failure)
    &&& printed(ranked_records_of(outcome)).len() == 0
    &&& printed(headline_records_of(outcome)).len() == 0
    &&& printed(positional_records_of(outcome)).len() == 0
}

/// A response with a status outside 200..=299 ends every kind of run with
/// the failure `BadStatus`, whatever its body holds: nothing is parsed,
/// extracted or rendered.
pub proof fn lemma_bad_status_ends_run(status: u16, body: Seq<char>)
    requires
        !status_is_success(status),
    ensures
        every_run_fails(
            FetchOutcomeView::Response { status, body },
            ScrapeErrorView::Fetch(FetchErrorView::BadStatus(status)),
        ),
{
}

/// A request that the transport could not complete ends every kind of run
/// with the failure `Transport`.
pub proof fn lemma_transport_failure_ends_run(details: Seq<char>)
    ensures
        every_run_fails(
            FetchOutcomeView::Failed(details),
            ScrapeErrorView::Fetch(FetchErrorView::Transport(details)),
        ),
{
}

/// A body that the parser refuses ends every kind of run with the parser's
/// reason, though it came with a success status.
pub proof fn lemma_refused_body_ends_run(status: u16, body: Seq<char>)
    requires
        status_is_success(status),
        refusal(body) is Some,
    ensures
        every_run_fails(
            FetchOutcomeView::Response { status, body },
            ScrapeErrorView::Parse(refusal(body)->0),
        ),
{
}

/// A record is sound where it does not bear the title of the login control
/// and neither its title nor its link target is empty.
pub open spec fn sound(r: RecordView) -> bool {
    r.title != login_title() && r.title.len() > 0 && r.url.len() > 0
}

/// A body whose markup nests too deep ends the runs on marker trees with
/// the failure `TooDeep`, though it came with a success status and in a
/// size that the parsers take.
pub proof fn lemma_deep_body_ends_marker_runs(outcome: FetchOutcomeView, body: Seq<char>)
    requires
        acquired(outcome) == Ok::<Seq<char>, ScrapeErrorView>(body),
        too_deep(body),
    ensures
        ranked_report_of(outcome) == Err::<Seq<char>, ScrapeErrorView>(
            ScrapeErrorView::Parse(ParseError::TooDeep),
        ),
        link_list_of(outcome) == Err::<Seq<Seq<char>>, ScrapeErrorView>(
            ScrapeErrorView::Parse(ParseError::TooDeep),
        ),
        printed(ranked_records_of(outcome)).len() == 0,
{
}

/// What a run prints is made of the printed records and of nothing else,
/// and each of these is sound: it does not bear the title of the login
/// control, and its title and its link target are not empty.
pub proof fn lemma_output_is_sound(outcome: FetchOutcomeView)
    ensures
        ranked_report_of(outcome) is Ok ==> ranked_report_of(outcome) == Ok::<
            Seq<char>,
            ScrapeErrorView,
        >(rendering(printed(ranked_records_of(outcome)))),
        headline_report_of(outcome) is Ok ==> headline_report_of(outcome) == Ok::<
            Seq<char>,
            ScrapeErrorView,
        >(rendering(printed(headline_records_of(outcome)))),
        story_table_of(outcome) is Ok ==> story_table_of(outcome) == Ok::<
            Seq<Seq<Cell>>,
            ScrapeErrorView,
        >(story_rows(printed(positional_records_of(outcome)))),
        forall|k: int|
            0 <= k < printed(ranked_records_of(outcome)).len() ==> sound(
                #[trigger] printed(ranked_records_of(outcome))[k],
            ),
        forall|k: int|
            0 <= k < printed(headline_records_of(outcome)).len() ==> sound(
                #[trigger] printed(headline_records_of(outcome))[k],
            ),
        forall|k: int|
            0 <= k < printed(positional_records_of(outcome)).len() ==> sound(
                #[trigger] printed(positional_records_of(outcome))[k],
            ),
{
    if acquired(outcome) is Ok {
        let body = acquired(outcome)->Ok_0;
        let cs = entry_candidates(parsed_document(body));
        lemma_no_login_record(cs, RankPolicy::Required);
        lemma_records_nonempty(cs, RankPolicy::Required);
        if !too_deep(body) {
            assert(printed(ranked_records_of(outcome)) == yielded(cs, RankPolicy::Required));
        }
        let html = parsed_html(body);
        lemma_stories_are_sound(html, crate::css::STORY_LINK_SELECTOR@);
        lemma_stories_are_sound(html, crate::css::HEADLINE_SELECTOR@);
        assert(printed(positional_records_of(outcome)) == yielded_stories(
            positional_stories(html),
        ));
        assert(printed(headline_records_of(outcome)) == yielded_stories(headline_stories(html)));
    }
}

/// The login filter drops the login entries and nothing else. On a response
/// with a success status whose body the parser of marker trees takes, and in
/// which every
/// story entry is complete, the ranked run succeeds; its text is made of the
/// blocks of exactly the entries that are not titled as the login control,
/// wherever the others stand; and where the item nodes stand in document
/// order, so do the blocks.
pub proof fn lemma_ranked_run_drops_only_login(outcome: FetchOutcomeView, body: Seq<char>)
    requires
        acquired_shallow(outcome) == Ok::<Seq<char>, ScrapeErrorView>(body),
        forall|i: int|
            0 <= i < entry_candidates(parsed_document(body)).len() ==> defect(
                #[trigger] entry_candidates(parsed_document(body))[i],
                RankPolicy::Required,
            ) is None,
    ensures
        ({
            let doc = parsed_document(body);
            let cs = entry_candidates(doc);
            let at = kept_positions(cs);
            let records = printed(ranked_records_of(outcome));
            &&& ranked_report_of(outcome) == Ok::<Seq<char>, ScrapeErrorView>(rendering(records))
            &&& records.len() == at.len()
            &&& forall|k: int|
                0 <= k < at.len() ==> 0 <= #[trigger] at[k] < cs.len() && !skipped(cs[at[k]])
                    && records[k] == record_of(entry_candidate(doc, item_nodes(doc)[at[k]]))
                    && records[k].title != login_title()
            &&& forall|i: int| 0 <= i < cs.len() && !skipped(#[trigger] cs[i]) ==> at.contains(i)
            &&& forall|j: int, k: int| 0 <= j < k < at.len() ==> at[j] < at[k]
            &&& ascending(item_nodes(doc)) ==> forall|j: int, k: int|
                0 <= j < k < at.len() ==> item_nodes(doc)[at[j]] < item_nodes(doc)[at[k]]
        }),
{
    let doc = parsed_document(body);
    let cs = entry_candidates(doc);
    lemma_success_iff_no_defect(cs, RankPolicy::Required);
    lemma_records_keep_order(cs, RankPolicy::Required);
    lemma_kept_positions(cs);
    lemma_no_login_record(cs, RankPolicy::Required);
    assert(printed(ranked_records_of(outcome)) == yielded(cs, RankPolicy::Required));
}

/// A story entry without a link target ends the ranked run. On a response
/// with a success status whose body the parser of marker trees takes, and in
/// which one
/// entry lacks its link target and every other entry is complete, the run
/// ends with `MissingHref` and prints nothing: not the entries before that
/// one and not those after it, wherever it stands.
pub proof fn lemma_ranked_run_ends_on_missing_href(
    outcome: FetchOutcomeView,
    body: Seq<char>,
    at: int,
)
    requires
        acquired_shallow(outcome) == Ok::<Seq<char>, ScrapeErrorView>(body),
        0 <= at < entry_candidates(parsed_document(body)).len(),
        defect(entry_candidates(parsed_document(body))[at], RankPolicy::Required) == Some(
            ExtractError::MissingHref,
        ),
        forall|i: int|
            0 <= i < entry_candidates(parsed_document(body)).len() && i != at ==> defect(
                #[trigger] entry_candidates(parsed_document(body))[i],
                RankPolicy::Required,
            ) is None,
    ensures
        ranked_report_of(outcome) == Err::<Seq<char>, ScrapeErrorView>(
            ScrapeErrorView::Extract(ExtractError::MissingHref),
        ),
        printed(ranked_records_of(outcome)).len() == 0,
{
    lemma_missing_href_ends_run(
        entry_candidates(parsed_document(body)),
        RankPolicy::Required,
        at,
    );
}

/// A matched link without a link target ends the headline run and the table
/// run in the same way: with `MissingHref`, and with nothing printed.
pub proof fn lemma_css_run_ends_on_missing_href(
    outcome: FetchOutcomeView,
    body: Seq<char>,
    css: Seq<char>,
    at: int,
)
    requires
        acquired(outcome) == Ok::<Seq<char>, ScrapeErrorView>(body),
        selection(parsed_html(body), css, LINK_ATTR@) is Ok,
        0 <= at < selection(parsed_html(body), css, LINK_ATTR@)->Ok_0.len(),
        ({
            let ms = selection(parsed_html(body), css, LINK_ATTR@)->Ok_0;
            &&& defect(link_candidate(ms[at]), RankPolicy::Optional) == Some(
                ExtractError::MissingHref,
            )
            &&& forall|i: int|
                0 <= i < ms.len() && i != at ==> defect(
                    link_candidate(#[trigger] ms[i]),
                    RankPolicy::Optional,
                ) is None
        }),
    ensures
        ({
            let failure = ScrapeErrorView::Extract(ExtractError::MissingHref);
            &&& css == crate::css::HEADLINE_SELECTOR@ ==> headline_report_of(outcome) == Err::<
                Seq<char>,
                ScrapeErrorView,
            >(failure) && printed(headline_records_of(outcome)).len() == 0
            &&& css == crate::css::STORY_LINK_SELECTOR@ ==> story_table_of(outcome) == Err::<
                Seq<Seq<Cell>>,
                ScrapeErrorView,
            >(failure) && printed(positional_records_of(outcome)).len() == 0
        }),
{
    lemma_link_without_target_ends_run(parsed_html(body), css, at);
    assert(stories_by(parsed_html(body), css) is Err);
}

/// Lets the body of a fetch through to the parser, or says which stage refused it.
pub fn acquire(outcome: FetchOutcome) -> (r: Result<String, ScrapeError>)
    ensures
        match r {
            Ok(body) => acquired(outcome.deep_view()) == Ok::<Seq<char>, ScrapeErrorView>(body@),
            Err(e) => acquired(outcome.deep_view()) == Err::<Seq<char>, ScrapeErrorView>(
                e.deep_view(),
            ),
        },
{
    match check_response(outcome) {
        Ok(body) => match check_body(body.as_str()) {
            Ok(_) => Ok(body),
            Err(e) => Err(ScrapeError::Parse(e)),
        },
        Err(e) => Err(ScrapeError::Fetch(e)),
    }
}

/// Runs the ranked layout: the text to print, or the failure of the first
/// stage that failed. Where the body was parsed, its story entries were read
/// in document order.
pub fn ranked_report(outcome: FetchOutcome) -> (r: Result<String, ScrapeError>)
    ensures
        match r {
            Ok(text) => ranked_report_of(outcome.deep_view()) == Ok::<Seq<char>, ScrapeErrorView>(
                text@,
            ),
            Err(e) => ranked_report_of(outcome.deep_view()) == Err::<Seq<char>, ScrapeErrorView>(
                e.deep_view(),
            ),
        },
        acquired_shallow(outcome.deep_view()) matches Ok(body) ==> ascending(
            item_nodes(parsed_document(body)),
        ),
{
    let body = match acquire(outcome) {
        Ok(body) => body,
        Err(e) => { return Err(e); },
    };
    let tree = match MarkerTree::parse(body.as_str()) {
        Ok(tree) => tree,
        Err(e) => { return Err(ScrapeError::Parse(e)); },
    };
    match tree.ranked_stories() {
        Ok(records) => Ok(render(&records)),
        Err(e) => Err(ScrapeError::Extract(e)),
    }
}

/// Runs the layout with marked headline links: the text to print, a title
/// line and a link line for each story, or the failure of the first stage
/// that failed.
pub fn headline_report(outcome: FetchOutcome) -> (r: Result<String, ScrapeError>)
    ensures
        match r {
            Ok(text) => headline_report_of(outcome.deep_view()) == Ok::<
                Seq<char>,
                ScrapeErrorView,
            >(text@),
            Err(e) => headline_report_of(outcome.deep_view()) == Err::<
                Seq<char>,
                ScrapeErrorView,
            >(e.deep_view()),
        },
{
    let body = match acquire(outcome) {
        Ok(body) => body,
        Err(e) => { return Err(e); },
    };
    let tree = match CssTree::parse(body.as_str()) {
        Ok(tree) => tree,
        Err(e) => { return Err(ScrapeError::Parse(e)); },
    };
    match tree.headlines() {
        Ok(records) => Ok(render(&records)),
        Err(e) => Err(ScrapeError::Extract(e)),
    }
}

/// Runs the layout searched by position: the table to print, without a
/// header, or the failure of the first stage that failed.
pub fn story_table(outcome: FetchOutcome) -> (r: Result<Table, ScrapeError>)
    ensures
        match r {
            Ok(table) => story_table_of(outcome.deep_view()) == Ok::<
                Seq<Seq<Cell>>,
                ScrapeErrorView,
            >(table_rows(table)) && table_titles(table) is None,
            Err(e) => story_table_of(outcome.deep_view()) == Err::<
                Seq<Seq<Cell>>,
                ScrapeErrorView,
            >(e.deep_view()),
        },
{
    let body = match acquire(outcome) {
        Ok(body) => body,
        Err(e) => { return Err(e); },
    };
    let tree = match CssTree::parse(body.as_str()) {
        Ok(tree) => tree,
        Err(e) => { return Err(ScrapeError::Parse(e)); },
    };
    match tree.story_links() {
        Ok(records) => Ok(build_table(&records)),
        Err(e) => Err(ScrapeError::Extract(e)),
    }
}

/// Lists the target of every link of the page that has one. Where the body
/// was parsed, its links were read in document order.
pub fn link_list(outcome: FetchOutcome) -> (r: Result<Vec<String>, ScrapeError>)
    ensures
        match r {
            Ok(targets) => link_list_of(outcome.deep_view()) == Ok::<
                Seq<Seq<char>>,
                ScrapeErrorView,
            >(targets.deep_view()),
            Err(e) => link_list_of(outcome.deep_view()) == Err::<Seq<Seq<char>>, ScrapeErrorView>(
                e.deep_view(),
            ),
        },
        acquired_shallow(outcome.deep_view()) matches Ok(body) ==> ascending(
            name_nodes(parsed_document(body), LINK_TAG@),
        ),
{
    let body = match acquire(outcome) {
        Ok(body) => body,
        Err(e) => { return Err(e); },
    };
    match MarkerTree::parse(body.as_str()) {
        Ok(tree) => Ok(tree.links()),
        Err(e) => Err(ScrapeError::Parse(e)),
    }
}

} // verus!
