//! What one item node yields before and after the extraction rules are applied.

use vstd::prelude::*;

verus! {

/// The attribute that holds a link's target.
pub const LINK_ATTR: &'static str = "href";

/// What was found for one item node: each field is the text that the
/// corresponding sub-query found, or `None` where it matched nothing.
#[derive(Debug, Clone, PartialEq, Eq)]
pub struct Candidate {
    /// Text of the rank marker.
    pub rank: Option<String>,
    /// Text of the title-bearing link.
    pub title: Option<String>,
    /// Link target of the title-bearing link.
    pub href: Option<String>,
}

/// A `Candidate` with its texts taken by view.
pub struct CandidateView {
    pub rank: Option<Seq<char>>,
    pub title: Option<Seq<char>>,
    pub href: Option<Seq<char>>,
}

impl DeepView for Candidate {
    type V = CandidateView;

    open spec fn deep_view(&self) -> CandidateView {
        CandidateView {
            rank: self.rank.deep_view(),
            title: self.title.deep_view(),
            href: self.href.deep_view(),
        }
    }
}

/// One story as it is handed to a renderer.
#[derive(Debug, Clone, PartialEq, Eq)]
pub struct ExtractedRecord {
    /// The rank text, where the page layout carries one.
    pub rank: Option<String>,
    pub title: String,
    pub url: String,
}

/// An `ExtractedRecord` with its texts taken by view.
pub struct RecordView {
    pub rank: Option<Seq<char>>,
    pub title: Seq<char>,
    pub url: Seq<char>,
}

impl DeepView for ExtractedRecord {
    type V = RecordView;

    open spec fn deep_view(&self) -> RecordView {
        RecordView { rank: self.rank.deep_view(), title: self.title@, url: self.url@ }
    }
}

/// Copies an optional text.
pub fn copy_text(text: &Option<String>) -> (copy: Option<String>)
    ensures
        copy.deep_view() == text.deep_view(),
{
    match text {
        Some(s) => Some(s.clone()),
        None => None,
    }
}

} // verus!
