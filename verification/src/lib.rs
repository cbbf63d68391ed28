//! Front-page scraping as a verified pipeline: a fetched response is gated on
//! its status, parsed into a document tree, searched for story entries, and
//! the extracted records are rendered as text blocks or as a table.
//!
//! `fetch` holds the status gate, `body` the test that a body passes before
//! it is parsed, `markers` and `css` the two kinds of document tree with
//! their queries, `text` the trimming and cleaning of what is read from a
//! tree, `extract` the rules that turn candidates into records, `render` and
//! `table` the two renderings, and `pipeline` the whole run. Sending the
//! request and printing the result are left to the caller.

pub mod body;
pub mod css;
pub mod error;
pub mod extract;
pub mod fetch;
pub mod markers;
pub mod pipeline;
pub mod record;
pub mod render;
pub mod table;
pub mod text;
