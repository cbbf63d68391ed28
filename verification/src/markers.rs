//! Document trees that are searched by marker class and tag name.
//!
//! Parsing and searching are the work of the `select` crate; what is done
//! with the matches is decided here.

use vstd::prelude::*;
use select::document::Document;
use select::predicate::{Class, Name, Predicate};
use crate::body::{byte_len, check_nesting, nesting_refusal, too_deep, MAX_BODY_BYTES};
use crate::error::{ExtractError, ParseError};
use crate::extract::{
    extract, extract_all, kept_positions, lemma_kept_positions, lemma_records_keep_order,
    record_of, yielded, RankPolicy,
};
use crate::record::{Candidate, CandidateView, ExtractedRecord, RecordView, LINK_ATTR};
use crate::text::{trim_found, trimmed_text};

verus! {

/// `select::document::Document`, a parsed tree; nothing of its inside is seen here.
#[verifier::external_type_specification]
#[verifier::external_body]
pub struct ExDocument(select::document::Document);

/// The document that `select` builds from the text `body`.
pub uninterp spec fn parsed_document(body: Seq<char>) -> Document;

/// The nodes of `doc` that carry the class `class`, by their index.
pub uninterp spec fn class_nodes(doc: Document, class: Seq<char>) -> Seq<usize>;

/// The elements of `doc` whose tag is `name`, by their index.
pub uninterp spec fn name_nodes(doc: Document, name: Seq<char>) -> Seq<usize>;

/// The first node below `node` that carries the class `class`, or `None`
/// where there is none or `doc` has no node `node`.
pub uninterp spec fn first_class_below(doc: Document, node: usize, class: Seq<char>) -> Option<
    usize,
>;

/// The first element below `node` whose tag is `name` and which has an
/// ancestor that carries the class `class`, or `None` where there is none or
/// `doc` has no node `node`.
pub uninterp spec fn first_name_under_class(
    doc: Document,
    node: usize,
    class: Seq<char>,
    name: Seq<char>,
) -> Option<usize>;

/// The text of `node` and of all that lies below it, or `None` where `doc`
/// has no such node.
pub uninterp spec fn node_text(doc: Document, node: usize) -> Option<Seq<char>>;

/// The value of the attribute `name` of `node`, or `None` where the node has
/// no such attribute or `doc` no such node.
pub uninterp spec fn node_attr(doc: Document, node: usize, name: Seq<char>) -> Option<Seq<char>>;

/// Each entry is greater than the one before it.
pub open spec fn ascending(nodes: Seq<usize>) -> bool {
    forall|i: int, j: int| 0 <= i < j < nodes.len() ==> nodes[i] < nodes[j]
}

/// The class that marks one story entry.
pub const ITEM_CLASS: &'static str = "athing";

/// The class that marks the rank inside an entry.
pub const RANK_CLASS: &'static str = "rank";

/// The class that marks the cell around the title-bearing link.
pub const TITLE_CLASS: &'static str = "title";

/// The tag of a link.
pub const LINK_TAG: &'static str = "a";

/// The story entries of `doc`, by node index.
pub open spec fn item_nodes(doc: Document) -> Seq<usize> {
    class_nodes(doc, ITEM_CLASS@)
}

/// The title-bearing link of the entry at `node`: the first link below it
/// that stands under a title marker.
pub open spec fn title_link(doc: Document, node: usize) -> Option<usize> {
    first_name_under_class(doc, node, TITLE_CLASS@, LINK_TAG@)
}

/// The text of `node` as the extraction reads it: the text of the node and
/// of all that lies below it, without the whitespace around it.
pub open spec fn extracted_text(doc: Document, node: usize) -> Option<Seq<char>> {
    trimmed_text(node_text(doc, node))
}

/// What the sub-queries find for the entry at `node`: the text of its first
/// rank marker, and the text and the target of its title-bearing link.
pub open spec fn entry_candidate(doc: Document, node: usize) -> CandidateView {
    CandidateView {
        rank: match first_class_below(doc, node, RANK_CLASS@) {
            Some(marker) => extracted_text(doc, marker),
            None => None,
        },
        title: match title_link(doc, node) {
            Some(link) => extracted_text(doc, link),
            None => None,
        },
        href: match title_link(doc, node) {
            Some(link) => node_attr(doc, link, LINK_ATTR@),
            None => None,
        },
    }
}

/// The candidates of all story entries of `doc`, one for each item node and
/// in the order of the item nodes.
pub open spec fn entry_candidates(doc: Document) -> Seq<CandidateView> {
    Seq::new(item_nodes(doc).len(), |k: int| entry_candidate(doc, item_nodes(doc)[k]))
}

/// The item node that the record at place `k` of a successful run was taken from.
pub open spec fn source_node(doc: Document, k: int) -> usize {
    item_nodes(doc)[kept_positions(entry_candidates(doc))[k]]
}

/// Stories come out in document order: where the item nodes of `doc` stand
/// in document order, each record that a run yields stands for an item node,
/// and a record that comes later stands for a node further down.
pub proof fn lemma_stories_in_document_order(doc: Document)
    requires
        ascending(item_nodes(doc)),
    ensures
        ({
            let records = yielded(entry_candidates(doc), RankPolicy::Required);
            &&& forall|k: int|
                0 <= k < records.len() ==> #[trigger] records[k] == record_of(
                    entry_candidate(doc, source_node(doc, k)),
                )
            &&& forall|j: int, k: int|
                0 <= j < k < records.len() ==> source_node(doc, j) < source_node(doc, k)
        }),
{
    let cs = entry_candidates(doc);
    lemma_records_keep_order(cs, RankPolicy::Required);
    lemma_kept_positions(cs);
}

/// The texts that are there, in their order; the gaps are dropped.
pub open spec fn present(found: Seq<Option<Seq<char>>>) -> Seq<Seq<char>>
    decreases found.len(),
{
    if found.len() == 0 {
        Seq::empty()
    } else {
        match found.last() {
            Some(text) => present(found.drop_last()).push(text),
            None => present(found.drop_last()),
        }
    }
}

/// What each link of `doc` has for a target, in the order of the links.
pub open spec fn link_attrs(doc: Document) -> Seq<Option<Seq<char>>> {
    Seq::new(
        name_nodes(doc, LINK_TAG@).len(),
        |k: int| node_attr(doc, name_nodes(doc, LINK_TAG@)[k], LINK_ATTR@),
    )
}

/// The targets of all links of `doc` that have one, in the order of the links.
pub open spec fn link_targets(doc: Document) -> Seq<Seq<char>> {
    present(link_attrs(doc))
}

/// A parsed page. Its nodes are numbered in document order, from 0.
pub struct MarkerTree {
    doc: Document,
}

impl MarkerTree {
    /// The document that this tree holds.
    pub closed spec fn document(&self) -> Document {
        self.doc
    }

    /// Parses `body`. A body without any text, a body of more than
    /// `MAX_BODY_BYTES` bytes and a body whose markup nests deeper than
    /// `MAX_DEPTH` levels are refused; every other body is parsed, however
    /// malformed its markup.
    pub fn parse(body: &str) -> (r: Result<MarkerTree, ParseError>)
        ensures
            match r {
                Ok(tree) => nesting_refusal(body@) is None && tree.document() == parsed_document(
                    body@,
                ),
                Err(e) => nesting_refusal(body@) == Some(e),
            },
    {
        match check_nesting(body) {
            Ok(_) => Ok(MarkerTree { doc: document_from(body) }),
            Err(e) => Err(e),
        }
    }

    /// Reads the text of `node`, without the whitespace around it.
    pub fn text_at(&self, node: usize) -> (text: Option<String>)
        ensures
            text.deep_view() == extracted_text(self.document(), node),
    {
        trim_found(&text_of(self, node))
    }

    /// Runs the sub-queries of the ranked layout on the entry at `node`.
    pub fn candidate_at(&self, node: usize) -> (c: Candidate)
        ensures
            c.deep_view() == entry_candidate(self.document(), node),
    {
        let rank = match find_first_class_below(self, node, RANK_CLASS) {
            Some(marker) => self.text_at(marker),
            None => None,
        };
        match find_first_name_under_class(self, node, TITLE_CLASS, LINK_TAG) {
            Some(link) => Candidate {
                rank,
                title: self.text_at(link),
                href: attr_of(self, link, LINK_ATTR),
            },
            None => Candidate { rank, title: None, href: None },
        }
    }

    /// Collects the candidates of all story entries, in document order.
    pub fn candidates(&self) -> (cs: Vec<Candidate>)
        ensures
            cs.deep_view() == entry_candidates(self.document()),
            ascending(item_nodes(self.document())),
    {
        let items = find_class(self, ITEM_CLASS);
        let mut cs: Vec<Candidate> = Vec::new();
        let mut i: usize = 0;
        while i < items.len()
            invariant
                i <= items.len(),
                items@ == item_nodes(self.document()),
                cs.len() == i,
                forall|k: int|
                    0 <= k < i ==> (#[trigger] cs@[k]).deep_view() == entry_candidate(
                        self.document(),
                        items@[k],
                    ),
            decreases items.len() - i,
        {
            let c = self.candidate_at(items[i]);
            cs.push(c);
            i += 1;
        }
        assert(cs.deep_view() =~= entry_candidates(self.document()));
        cs
    }

    /// Extracts the stories of the ranked layout: every entry must carry a
    /// rank, a title and a link target, and the first one that does not ends
    /// the run.
    pub fn ranked_stories(&self) -> (r: Result<Vec<ExtractedRecord>, ExtractError>)
        ensures
            match r {
                Ok(records) => extract_all(entry_candidates(self.document()), RankPolicy::Required)
                    == Ok::<Seq<RecordView>, ExtractError>(records.deep_view()),
                Err(e) => extract_all(entry_candidates(self.document()), RankPolicy::Required)
                    == Err::<Seq<RecordView>, ExtractError>(e),
            },
            ascending(item_nodes(self.document())),
    {
        let cs = self.candidates();
        extract(&cs, RankPolicy::Required)
    }

    /// Collects the target of every link that has one, in document order. A
    /// link without a target is passed over.
    pub fn links(&self) -> (targets: Vec<String>)
        ensures
            targets.deep_view() == link_targets(self.document()),
            ascending(name_nodes(self.document(), LINK_TAG@)),
    {
        let anchors = find_name(self, LINK_TAG);
        let ghost found = link_attrs(self.document());
        let mut targets: Vec<String> = Vec::new();
        let mut i: usize = 0;
        assert(found.take(0) =~= Seq::<Option<Seq<char>>>::empty());
        assert(targets.deep_view() =~= Seq::<Seq<char>>::empty());
        while i < anchors.len()
            invariant
                i <= anchors.len(),
                anchors@ == name_nodes(self.document(), LINK_TAG@),
                found == link_attrs(self.document()),
                targets.deep_view() == present(found.take(i as int)),
            decreases anchors.len() - i,
        {
            let ghost before = targets.deep_view();
            assert(found.take(i + 1).drop_last() =~= found.take(i as int));
            match attr_of(self, anchors[i], LINK_ATTR) {
                Some(target) => {
                    targets.push(target);
                    assert(targets.deep_view() =~= before.push(target@));
                },
                None => {},
            }
            i += 1;
        }
        assert(found.take(i as int) =~= found);
        targets
    }
}

/// `Document::from` for a `&str`: the result is the document named by
/// `parsed_document`. It parses as `parsed_root` says and copies the tree by
/// a function that calls itself once for each level of nesting. A body of
/// more than `MAX_BODY_BYTES` bytes is left out, because a text buffer fails
/// where it must grow past 2^31 bytes, and a body whose tree nests deeper
/// than `MAX_DEPTH` levels, because the copy may then run out of stack.
#[verifier::external_body]
fn document_from(body: &str) -> (doc: Document)
    requires
        byte_len(body@) <= MAX_BODY_BYTES,
        !too_deep(body@),
    ensures
        doc == parsed_document(body@),
{
    Document::from(body)
}

/// `Document::find` with the predicate `Class`: the indices of the matching
/// nodes as `class_nodes` names them. The search walks the nodes by rising
/// index, so the indices come out ascending.
#[verifier::external_body]
fn find_class(tree: &MarkerTree, class: &str) -> (nodes: Vec<usize>)
    ensures
        nodes@ == class_nodes(tree.document(), class@),
        ascending(nodes@),
{
    tree.doc.find(Class(class)).map(|n| n.index()).collect()
}

/// `Document::find` with the predicate `Name`: the indices of the matching
/// nodes as `name_nodes` names them, ascending for the same reason.
#[verifier::external_body]
fn find_name(tree: &MarkerTree, name: &str) -> (nodes: Vec<usize>)
    ensures
        nodes@ == name_nodes(tree.document(), name@),
        ascending(nodes@),
{
    tree.doc.find(Name(name)).map(|n| n.index()).collect()
}

/// `Node::find` with the predicate `Class`, on the node that `Document::nth`
/// gives for `node`: the index of the first match.
#[verifier::external_body]
fn find_first_class_below(tree: &MarkerTree, node: usize, class: &str) -> (found: Option<usize>)
    ensures
        found == first_class_below(tree.document(), node, class@),
{
    tree.doc.nth(node).and_then(|n| n.find(Class(class)).next()).map(|n| n.index())
}

/// `Node::find` with the predicate `Class(..).descendant(Name(..))`, on the
/// node that `Document::nth` gives for `node`: the index of the first match.
#[verifier::external_body]
fn find_first_name_under_class(tree: &MarkerTree, node: usize, class: &str, name: &str) -> (found:
    Option<usize>)
    ensures
        found == first_name_under_class(tree.document(), node, class@, name@),
{
    tree.doc.nth(node).and_then(|n| n.find(Class(class).descendant(Name(name))).next()).map(
        |n| n.index(),
    )
}

/// `Node::text`, on the node that `Document::nth` gives for `node`.
#[verifier::external_body]
fn text_of(tree: &MarkerTree, node: usize) -> (text: Option<String>)
    ensures
        text.deep_view() == node_text(tree.document(), node),
{
    tree.doc.nth(node).map(|n| n.text())
}

/// `Node::attr`, on the node that `Document::nth` gives for `node`.
#[verifier::external_body]
fn attr_of(tree: &MarkerTree, node: usize, name: &str) -> (value: Option<String>)
    ensures
        value.deep_view() == node_attr(tree.document(), node, name@),
{
    tree.doc.nth(node).and_then(|n| n.attr(name)).map(String::from)
}

} // verus!
