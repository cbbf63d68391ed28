//! The status gate between the transport and the parser.

use vstd::prelude::*;
use vstd::string::*;
use crate::error::{FetchError, FetchErrorView};

verus! {

/// The address of the front page, which a run fetches unless it is given another.
pub const FRONT_PAGE: &'static str = "https://news.ycombinator.com";

/// The page to retrieve, named by its address. It is set once and not changed.
#[derive(Debug, Clone, PartialEq, Eq)]
pub struct PageSource {
    url: String,
}

impl View for PageSource {
    type V = Seq<char>;

    closed spec fn view(&self) -> Seq<char> {
        self.url@
    }
}

impl PageSource {
    /// The source with the address `url`. The address is taken as it is; whether
    /// it can be reached is for the transport to find out.
    pub fn new(url: &str) -> (source: PageSource)
        ensures
            source@ == url@,
    {
        PageSource { url: String::from_str(url) }
    }

    /// The source that names the front page.
    pub fn front_page() -> (source: PageSource)
        ensures
            source@ == FRONT_PAGE@,
    {
        PageSource::new(FRONT_PAGE)
    }

    /// The address.
    pub fn url(&self) -> (url: &str)
        ensures
            url@ == self@,
    {
        self.url.as_str()
    }
}

/// What the transport hands back for one GET request.
#[derive(Debug, Clone, PartialEq, Eq)]
pub enum FetchOutcome {
    /// A response arrived, with its status code and its body as text.
    Response { status: u16, body: String },
    /// The transport gave up, before a response arrived or while its body
    /// was read; the text is the transport's own account.
    Failed(String),
}

/// A `FetchOutcome` with its texts taken by view.
pub enum FetchOutcomeView {
    Response { status: u16, body: Seq<char> },
    Failed(Seq<char>),
}

impl DeepView for FetchOutcome {
    type V = FetchOutcomeView;

    open spec fn deep_view(&self) -> FetchOutcomeView {
        match *self {
            FetchOutcome::Response { status, body } => FetchOutcomeView::Response {
                status,
                body: body@,
            },
            FetchOutcome::Failed(details) => FetchOutcomeView::Failed(details@),
        }
    }
}

/// A status code counts as success exactly when it lies in 200..=299.
pub open spec fn status_is_success(status: u16) -> bool {
    200 <= status <= 299
}

/// The body that a fetch yields, or the reason why it yields none.
pub open spec fn gate(outcome: FetchOutcomeView) -> Result<Seq<char>, FetchErrorView> {
    match outcome {
        FetchOutcomeView::Response { status, body } => if status_is_success(status) {
            Ok(body)
        } else {
            Err(FetchErrorView::BadStatus(status))
        },
        FetchOutcomeView::Failed(details) => Err(FetchErrorView::Transport(details)),
    }
}

/// Tells whether `status` is a success code.
pub fn is_success(status: u16) -> (ok: bool)
    ensures
        ok == status_is_success(status),
{
    200 <= status && status <= 299
}

/// Lets a body through only if it came with a success status.
pub fn check_response(outcome: FetchOutcome) -> (r: Result<String, FetchError>)
    ensures
        match r {
            Ok(body) => gate(outcome.deep_view()) == Ok::<Seq<char>, FetchErrorView>(body@),
            Err(e) => gate(outcome.deep_view()) == Err::<Seq<char>, FetchErrorView>(
                e.deep_view(),
            ),
        },
{
    match outcome {
        FetchOutcome::Response { status, body } => {
            if is_success(status) {
                Ok(body)
            } else {
                Err(FetchError::BadStatus(status))
            }
        },
        FetchOutcome::Failed(details) => Err(FetchError::Transport(details)),
    }
}

} // verus!
