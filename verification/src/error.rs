//! The failures of a run, one type per stage.

use vstd::prelude::*;

verus! {

/// Why a page could not be acquired.
#[derive(Debug, Clone, PartialEq, Eq)]
pub enum FetchError {
    /// The transport gave up, before a response arrived or while its body
    /// was read; the text is the transport's own account.
    Transport(String),
    /// A response arrived, but its status code lies outside 200..=299.
    BadStatus(u16),
}

/// Why a response body could not be turned into a document tree.
#[derive(Debug, Clone, Copy, PartialEq, Eq)]
pub enum ParseError {
    /// The body holds no text at all.
    EmptyInput,
    /// The body holds more bytes than the parsers take.
    TooLarge,
    /// The markup nests deeper than a parser that walks it level by level takes.
    TooDeep,
}

/// Why extraction stopped: a query that had to match found nothing.
#[derive(Debug, Clone, Copy, PartialEq, Eq)]
pub enum ExtractError {
    /// The structural query itself could not be built.
    InvalidSelector,
    /// An item carries no rank marker although the layout models one.
    MissingRank,
    /// An item carries no title-bearing link text.
    MissingTitle,
    /// The title-bearing link has no link target.
    MissingHref,
}

/// The failure of a whole run: the first stage that failed, with its reason.
#[derive(Debug, Clone, PartialEq, Eq)]
pub enum ScrapeError {
    Fetch(FetchError),
    Parse(ParseError),
    Extract(ExtractError),
}

/// A `FetchError` with its text taken by view.
pub enum FetchErrorView {
    Transport(Seq<char>),
    BadStatus(u16),
}

/// A `ScrapeError` with its text taken by view.
pub enum ScrapeErrorView {
    Fetch(FetchErrorView),
    Parse(ParseError),
    Extract(ExtractError),
}

impl DeepView for FetchError {
    type V = FetchErrorView;

    open spec fn deep_view(&self) -> FetchErrorView {
        match *self {
            FetchError::Transport(details) => FetchErrorView::Transport(details@),
            FetchError::BadStatus(code) => FetchErrorView::BadStatus(code),
        }
    }
}

impl DeepView for ScrapeError {
    type V = ScrapeErrorView;

    open spec fn deep_view(&self) -> ScrapeErrorView {
        match *self {
            ScrapeError::Fetch(e) => ScrapeErrorView::Fetch(e.deep_view()),
            ScrapeError::Parse(e) => ScrapeErrorView::Parse(e),
            ScrapeError::Extract(e) => ScrapeErrorView::Extract(e),
        }
    }
}

} // verus!
