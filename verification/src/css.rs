//! Document trees that are searched by CSS selector.
//!
//! Parsing, selector syntax and matching are the work of the `scraper`
//! crate; what is done with the matches is decided here.

use vstd::prelude::*;
use vstd::string::*;
use scraper::error::SelectorErrorKind;
use scraper::{Html, Selector};
use crate::body::{byte_len, check_body, refusal, MAX_BODY_BYTES};
use crate::error::{ExtractError, ParseError};
use crate::extract::{
    defect, extract, extract_all, kept_positions, lemma_kept_positions,
    lemma_missing_href_ends_run, lemma_no_login_record, lemma_records_keep_order,
    lemma_records_nonempty, login_title, record_of, yielded, RankPolicy,
};
use crate::record::{
    copy_text, Candidate, CandidateView, ExtractedRecord, RecordView, LINK_ATTR,
};
use crate::text::{trim_text, trimmed};

verus! {

/// `scraper::Html`, a parsed tree; nothing of its inside is seen here.
#[verifier::external_type_specification]
#[verifier::external_body]
pub struct ExHtml(scraper::Html);

/// `scraper::Selector`, a parsed selector group; nothing of its inside is seen here.
#[verifier::external_type_specification]
#[verifier::external_body]
pub struct ExSelector(scraper::Selector);

/// `scraper::error::SelectorErrorKind`, the reason why a text is no selector;
/// it is only told apart from success.
#[verifier::external_type_specification]
#[verifier::external_body]
pub struct ExSelectorErrorKind(scraper::error::SelectorErrorKind);

/// The tree that `scraper` builds from the text `body`, read as a whole document.
pub uninterp spec fn parsed_html(body: Seq<char>) -> Html;

/// The selector group that `scraper` reads from `css`, or `None` where it
/// refuses the text.
pub uninterp spec fn parsed_selector(css: Seq<char>) -> Option<Selector>;

/// The elements of `html` that `selector` matches, in the order in which a
/// selection yields them; of each its text nodes and the value of its
/// attribute `attr`.
pub uninterp spec fn selected(html: Html, selector: Selector, attr: Seq<char>) -> Seq<MatchedView>;

/// `Html::parse_document`: the result is the tree named by `parsed_html`. A
/// text of more than `MAX_BODY_BYTES` bytes is left out, because a text
/// buffer fails where it must grow past 2^31 bytes, and a text can come to
/// three times the bytes of the body that it is read from.
pub assume_specification[ Html::parse_document ](document: &str) -> (html: Html)
    requires
        byte_len(document@) <= MAX_BODY_BYTES,
    ensures
        html == parsed_html(document@),
;

/// One matched element, as plain values.
#[derive(Debug, Clone, PartialEq, Eq)]
pub struct Matched {
    /// The text nodes below the element, in document order.
    pub texts: Vec<String>,
    /// The value of the attribute that was asked for, if the element has it.
    pub attr: Option<String>,
}

/// A `Matched` with its texts taken by view.
pub struct MatchedView {
    pub texts: Seq<Seq<char>>,
    pub attr: Option<Seq<char>>,
}

impl DeepView for Matched {
    type V = MatchedView;

    open spec fn deep_view(&self) -> MatchedView {
        MatchedView { texts: self.texts.deep_view(), attr: self.attr.deep_view() }
    }
}

/// The selector of the story links: the link inside a span inside the third
/// cell of a row.
pub const STORY_LINK_SELECTOR: &'static str = "td:nth-child(3) > span > a";

/// The selector of the headline links.
pub const HEADLINE_SELECTOR: &'static str = ".storylink";

/// The greatest number of characters that a selector text may hold. The
/// matcher calls itself once for each step of a selector, and a selector
/// has fewer steps than its text has characters.
pub const MAX_SELECTOR_CHARS: usize = 1024;

/// Whether `css` spells `has(` from the place `i` on, in small or capital
/// letters.
pub open spec fn spells_has(css: Seq<char>, i: int) -> bool {
    &&& 0 <= i && i + 3 < css.len()
    &&& css[i] == 'h' || css[i] == 'H'
    &&& css[i + 1] == 'a' || css[i + 1] == 'A'
    &&& css[i + 2] == 's' || css[i + 2] == 'S'
    &&& css[i + 3] == '('
}

/// Whether `css` is a selector text that is taken for matching: it holds no
/// more than `MAX_SELECTOR_CHARS` characters, no backslash, and nowhere the
/// letters `has` before an opening bracket. That leaves out the selectors
/// that look into what lies below an element, which the matcher answers by
/// calling itself once for each level of the tree, and the escapes by which
/// their name could be written otherwise.
pub open spec fn plain_selector(css: Seq<char>) -> bool {
    &&& css.len() <= MAX_SELECTOR_CHARS
    &&& forall|i: int| 0 <= i < css.len() ==> css[i] != '\\'
    &&& forall|i: int| !#[trigger] spells_has(css, i)
}

/// The matches of the selector text `css` in `html`, or the failure to take
/// `css` for a selector.
pub open spec fn selection(html: Html, css: Seq<char>, attr: Seq<char>) -> Result<
    Seq<MatchedView>,
    ExtractError,
> {
    if plain_selector(css) {
        match parsed_selector(css) {
            Some(selector) => Ok(selected(html, selector, attr)),
            None => Err(ExtractError::InvalidSelector),
        }
    } else {
        Err(ExtractError::InvalidSelector)
    }
}

/// The texts of a run, one after the other.
pub open spec fn joined(texts: Seq<Seq<char>>) -> Seq<char>
    decreases texts.len(),
{
    if texts.len() == 0 {
        Seq::empty()
    } else {
        joined(texts.drop_last()) + texts.last()
    }
}

/// What a matched link yields: no rank, its text content without the
/// whitespace around it for a title, and its attribute for a link target.
/// The text content is all text below the link, in document order.
pub open spec fn link_candidate(m: MatchedView) -> CandidateView {
    CandidateView { rank: None, title: Some(trimmed(joined(m.texts))), href: m.attr }
}

/// The candidates of a run of matched links, in the same order.
pub open spec fn link_candidates(ms: Seq<MatchedView>) -> Seq<CandidateView> {
    Seq::new(ms.len(), |k: int| link_candidate(ms[k]))
}

/// The stories of `html` whose links the selector text `css` matches: the
/// failure to read `css`, or what the extraction rules make of the matched
/// links, each read as a candidate without a rank.
pub open spec fn stories_by(html: Html, css: Seq<char>) -> Result<Seq<RecordView>, ExtractError> {
    match selection(html, css, LINK_ATTR@) {
        Ok(ms) => extract_all(link_candidates(ms), RankPolicy::Optional),
        Err(e) => Err(e),
    }
}

/// The stories of `html` in the layout that is searched by position.
pub open spec fn positional_stories(html: Html) -> Result<Seq<RecordView>, ExtractError> {
    stories_by(html, STORY_LINK_SELECTOR@)
}

/// The stories of `html` in the layout that marks its headline links.
pub open spec fn headline_stories(html: Html) -> Result<Seq<RecordView>, ExtractError> {
    stories_by(html, HEADLINE_SELECTOR@)
}

/// The stories that a run yields: its records where it succeeds, none where
/// it fails.
pub open spec fn yielded_stories(stories: Result<Seq<RecordView>, ExtractError>) -> Seq<
    RecordView,
> {
    match stories {
        Ok(records) => records,
        Err(_) => Seq::empty(),
    }
}

/// Stories come out in the order of the selection: each story that a run
/// yields stands for a matched link, and a story that comes later stands for
/// a link that the selection yields later.
pub proof fn lemma_stories_in_selection_order(html: Html, css: Seq<char>)
    requires
        stories_by(html, css) is Ok,
    ensures
        ({
            let ms = selection(html, css, LINK_ATTR@)->Ok_0;
            let at = kept_positions(link_candidates(ms));
            let stories = yielded_stories(stories_by(html, css));
            &&& at.len() == stories.len()
            &&& forall|k: int|
                0 <= k < at.len() ==> 0 <= #[trigger] at[k] < ms.len() && stories[k] == record_of(
                    link_candidate(ms[at[k]]),
                )
            &&& forall|j: int, k: int| 0 <= j < k < at.len() ==> at[j] < at[k]
        }),
{
    let ms = selection(html, css, LINK_ATTR@)->Ok_0;
    lemma_records_keep_order(link_candidates(ms), RankPolicy::Optional);
    lemma_kept_positions(link_candidates(ms));
    assert(yielded_stories(stories_by(html, css)) == yielded(
        link_candidates(ms),
        RankPolicy::Optional,
    ));
}

/// No story bears the title of the login control, and every story has a
/// non-empty title and a non-empty link target.
pub proof fn lemma_stories_are_sound(html: Html, css: Seq<char>)
    ensures
        forall|k: int|
            0 <= k < yielded_stories(stories_by(html, css)).len() ==> {
                let r = #[trigger] yielded_stories(stories_by(html, css))[k];
                r.title != login_title() && r.title.len() > 0 && r.url.len() > 0
            },
{
    if stories_by(html, css) is Ok {
        let ms = selection(html, css, LINK_ATTR@)->Ok_0;
        lemma_no_login_record(link_candidates(ms), RankPolicy::Optional);
        lemma_records_nonempty(link_candidates(ms), RankPolicy::Optional);
        assert(yielded_stories(stories_by(html, css)) == yielded(
            link_candidates(ms),
            RankPolicy::Optional,
        ));
    }
}

/// A matched link without a link target ends the run: where the selection
/// holds one such link and every other link is complete, the run fails with
/// `MissingHref`, wherever that link stands.
pub proof fn lemma_link_without_target_ends_run(html: Html, css: Seq<char>, at: int)
    requires
        selection(html, css, LINK_ATTR@) is Ok,
        0 <= at < selection(html, css, LINK_ATTR@)->Ok_0.len(),
        ({
            let ms = selection(html, css, LINK_ATTR@)->Ok_0;
            &&& defect(link_candidate(ms[at]), RankPolicy::Optional) == Some(
                ExtractError::MissingHref,
            )
            &&& forall|i: int|
                0 <= i < ms.len() && i != at ==> defect(
                    link_candidate(#[trigger] ms[i]),
                    RankPolicy::Optional,
                ) is None
        }),
    ensures
        stories_by(html, css) == Err::<Seq<RecordView>, ExtractError>(ExtractError::MissingHref),
{
    let ms = selection(html, css, LINK_ATTR@)->Ok_0;
    lemma_missing_href_ends_run(link_candidates(ms), RankPolicy::Optional, at);
}

/// A parsed page.
pub struct CssTree {
    html: Html,
}

impl CssTree {
    /// The tree that this page holds.
    pub closed spec fn html(&self) -> Html {
        self.html
    }

    /// Parses `body` as a whole document. A body without any text and a
    /// body of more than `MAX_BODY_BYTES` bytes are refused; every other
    /// body is parsed, however malformed its markup.
    pub fn parse(body: &str) -> (r: Result<CssTree, ParseError>)
        ensures
            match r {
                Ok(tree) => refusal(body@) is None && tree.html() == parsed_html(body@),
                Err(e) => refusal(body@) == Some(e),
            },
    {
        match check_body(body) {
            Ok(_) => Ok(CssTree { html: Html::parse_document(body) }),
            Err(e) => Err(e),
        }
    }

    /// Selects by the selector text `css` and reads the attribute `attr` of
    /// each match. Fails exactly where `css` is not taken for a selector:
    /// where it is not plain, and where it is not in the selector syntax.
    pub fn select(&self, css: &str, attr: &str) -> (r: Result<Vec<Matched>, ExtractError>)
        ensures
            match r {
                Ok(found) => selection(self.html(), css@, attr@) == Ok::<
                    Seq<MatchedView>,
                    ExtractError,
                >(found.deep_view()),
                Err(e) => selection(self.html(), css@, attr@) == Err::<
                    Seq<MatchedView>,
                    ExtractError,
                >(e),
            },
    {
        if !is_plain_selector(css) {
            return Err(ExtractError::InvalidSelector);
        }
        match select_by(self, css, attr) {
            Ok(found) => Ok(found),
            Err(_) => Err(ExtractError::InvalidSelector),
        }
    }

    /// Extracts the stories whose links `css` matches: each matched link
    /// must have a text and a link target, the first one that does not ends
    /// the run, and the login control is passed over.
    pub fn stories(&self, css: &str) -> (r: Result<Vec<ExtractedRecord>, ExtractError>)
        ensures
            match r {
                Ok(records) => stories_by(self.html(), css@) == Ok::<Seq<RecordView>, ExtractError>(
                    records.deep_view(),
                ),
                Err(e) => stories_by(self.html(), css@) == Err::<Seq<RecordView>, ExtractError>(e),
            },
    {
        let found = match self.select(css, LINK_ATTR) {
            Ok(found) => found,
            Err(e) => { return Err(e); },
        };
        let cs = candidates_of(&found);
        extract(&cs, RankPolicy::Optional)
    }

    /// Extracts the stories of the layout that is searched by position.
    pub fn story_links(&self) -> (r: Result<Vec<ExtractedRecord>, ExtractError>)
        ensures
            match r {
                Ok(records) => positional_stories(self.html()) == Ok::<
                    Seq<RecordView>,
                    ExtractError,
                >(records.deep_view()),
                Err(e) => positional_stories(self.html()) == Err::<
                    Seq<RecordView>,
                    ExtractError,
                >(e),
            },
    {
        self.stories(STORY_LINK_SELECTOR)
    }

    /// Extracts the stories of the layout that marks its headline links.
    pub fn headlines(&self) -> (r: Result<Vec<ExtractedRecord>, ExtractError>)
        ensures
            match r {
                Ok(records) => headline_stories(self.html()) == Ok::<
                    Seq<RecordView>,
                    ExtractError,
                >(records.deep_view()),
                Err(e) => headline_stories(self.html()) == Err::<Seq<RecordView>, ExtractError>(
                    e,
                ),
            },
    {
        self.stories(HEADLINE_SELECTOR)
    }
}

/// Tells whether `css` is taken for matching.
pub fn is_plain_selector(css: &str) -> (plain: bool)
    ensures
        plain == plain_selector(css@),
{
    if css.unicode_len() > MAX_SELECTOR_CHARS {
        return false;
    }
    let mut first: char = ' ';
    let mut second: char = ' ';
    let mut third: char = ' ';
    let mut i: usize = 0;
    for c in it: css.chars()
        invariant
            i == it.index(),
            it.seq() == css@,
            css@.len() <= MAX_SELECTOR_CHARS,
            i <= css@.len(),
            i >= 1 ==> third == css@[i - 1],
            i >= 2 ==> second == css@[i - 2],
            i >= 3 ==> first == css@[i - 3],
            forall|k: int| 0 <= k < i ==> css@[k] != '\\',
            forall|k: int| k + 3 < i ==> !#[trigger] spells_has(css@, k),
    {
        assert(css@[i as int] == c);
        if c == '\\' {
            return false;
        }
        if i >= 3 && c == '(' && (first == 'h' || first == 'H') && (second == 'a' || second == 'A')
            && (third == 's' || third == 'S') {
            assert(spells_has(css@, i - 3));
            return false;
        }
        first = second;
        second = third;
        third = c;
        i += 1;
    }
    true
}

/// Joins a run of texts into one.
pub fn join(texts: &Vec<String>) -> (text: String)
    ensures
        text@ == joined(texts.deep_view()),
{
    let ghost ts = texts.deep_view();
    let mut text = String::new();
    let mut i: usize = 0;
    assert(ts.take(0) =~= Seq::<Seq<char>>::empty());
    while i < texts.len()
        invariant
            i <= texts.len(),
            ts == texts.deep_view(),
            text@ == joined(ts.take(i as int)),
        decreases texts.len() - i,
    {
        assert(ts.take(i + 1).drop_last() =~= ts.take(i as int));
        text.append(texts[i].as_str());
        i += 1;
    }
    assert(ts.take(i as int) =~= ts);
    text
}

/// Reads each matched link as a candidate.
pub fn candidates_of(found: &Vec<Matched>) -> (cs: Vec<Candidate>)
    ensures
        cs.deep_view() == link_candidates(found.deep_view()),
{
    let mut cs: Vec<Candidate> = Vec::new();
    let mut i: usize = 0;
    while i < found.len()
        invariant
            i <= found.len(),
            cs.len() == i,
            forall|k: int|
                0 <= k < i ==> (#[trigger] cs@[k]).deep_view() == link_candidate(
                    found@[k].deep_view(),
                ),
        decreases found.len() - i,
    {
        let m = &found[i];
        let content = join(&m.texts);
        let title = Some(trim_text(content.as_str()));
        cs.push(Candidate { rank: None, title, href: copy_text(&m.attr) });
        i += 1;
    }
    assert(cs.deep_view() =~= link_candidates(found.deep_view()));
    cs
}

/// `Selector::parse`, and `Html::select` with the selector that it gives,
/// with `ElementRef::text` and `Element::attr` on each element that the
/// selection yields: the matches as `selected` names them for the selector
/// that `parsed_selector` names, or the error of the parse where that is
/// `None`. A selector text that is not plain is left out, because the
/// matcher calls itself once for each step of the selector, and for a
/// selector that looks below an element once for each level of the tree.
#[verifier::external_body]
fn select_by(tree: &CssTree, css: &str, attr: &str) -> (r: Result<Vec<Matched>, SelectorErrorKind>)
    requires
        plain_selector(css@),
    ensures
        match r {
            Ok(found) => parsed_selector(css@) is Some && found.deep_view() == selected(
                tree.html(),
                parsed_selector(css@)->0,
                attr@,
            ),
            Err(_) => parsed_selector(css@) is None,
        },
{
    Selector::parse(css).map(
        |selector| tree.html.select(&selector).map(
            |e| Matched {
                texts: e.text().map(String::from).collect(),
                attr: e.value().attr(attr).map(String::from),
            },
        ).collect(),
    )
}

} // verus!
