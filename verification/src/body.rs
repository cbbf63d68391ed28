//! What a response body must be like for a parser to take it.

use std::rc::Rc;
use vstd::prelude::*;
use vstd::string::*;
use vstd::utf8::encode_utf8;
use html5ever::tendril::TendrilSink;
use markup5ever_rcdom::{Node, RcDom};
use crate::error::ParseError;

verus! {

/// `markup5ever_rcdom::Node`, a node of the tree that `html5ever` builds;
/// nothing of its inside is seen here.
#[verifier::external_type_specification]
#[verifier::external_body]
pub struct ExNode(markup5ever_rcdom::Node);

/// The document node of the tree that `html5ever` builds from the text
/// `body` with its default options.
pub uninterp spec fn parsed_root(body: Seq<char>) -> Node;

/// The children of `node`, in their order.
pub uninterp spec fn child_nodes(node: Node) -> Seq<Node>;

/// The greatest number of bytes that a body may hold. The parsers keep each
/// text in a buffer that grows by doubling and counts in 32 bits, so that no
/// text may pass 2^31 bytes, and a text can come to three times the bytes of
/// the body that it is read from.
pub const MAX_BODY_BYTES: u64 = 0x2aaa_aaaa;

/// The greatest number of levels that the tree of a body may nest below its
/// document node where the tree is walked by a function that calls itself.
pub const MAX_DEPTH: usize = 512;

/// The number of bytes that `body` takes.
pub open spec fn byte_len(body: Seq<char>) -> nat {
    encode_utf8(body).len()
}

/// Why every parser refuses `body`, or `None` where none does on these
/// grounds: a body without any text and a body of more than
/// `MAX_BODY_BYTES` bytes are refused.
pub open spec fn refusal(body: Seq<char>) -> Option<ParseError> {
    if body.len() == 0 {
        Some(ParseError::EmptyInput)
    } else if byte_len(body) > MAX_BODY_BYTES {
        Some(ParseError::TooLarge)
    } else {
        None
    }
}

/// Whether a chain of `n` nodes hangs below `node`, each the child of the
/// one before it.
pub open spec fn has_chain(node: Node, n: nat) -> bool
    decreases n,
{
    n == 0 || exists|i: int|
        0 <= i < child_nodes(node).len() && has_chain(
            #[trigger] child_nodes(node)[i],
            (n - 1) as nat,
        )
}

/// Whether the tree of `body` nests more than `MAX_DEPTH` levels below its
/// document node.
pub open spec fn too_deep(body: Seq<char>) -> bool {
    has_chain(parsed_root(body), (MAX_DEPTH + 1) as nat)
}

/// Why a parser that walks the tree by calling itself refuses `body`: on
/// the grounds of `refusal`, and also where the tree is too deep.
pub open spec fn nesting_refusal(body: Seq<char>) -> Option<ParseError> {
    match refusal(body) {
        Some(e) => Some(e),
        None => if too_deep(body) {
            Some(ParseError::TooDeep)
        } else {
            None
        },
    }
}

/// Tells whether every parser takes `body` by its size, and why not where
/// it does not.
pub fn check_body(body: &str) -> (r: Result<(), ParseError>)
    ensures
        match r {
            Ok(_) => refusal(body@) is None,
            Err(e) => refusal(body@) == Some(e),
        },
{
    if body.is_empty() {
        Err(ParseError::EmptyInput)
    } else if body.as_bytes().len() as u64 > MAX_BODY_BYTES {
        Err(ParseError::TooLarge)
    } else {
        Ok(())
    }
}

/// Tells whether no chain of more than `levels` nodes hangs below `node`.
/// The walk calls itself once for each level, and so at most `levels` times
/// at once.
pub fn nests_within(node: &Rc<Node>, levels: usize) -> (ok: bool)
    ensures
        ok == !has_chain(**node, (levels + 1) as nat),
    decreases levels,
{
    let children = children_of(node);
    if children.len() == 0 {
        return true;
    }
    if levels == 0 {
        assert(has_chain(child_nodes(**node)[0], 0));
        return false;
    }
    let mut i: usize = 0;
    while i < children.len()
        invariant
            i <= children.len(),
            levels > 0,
            children@.len() == child_nodes(**node).len(),
            forall|k: int| 0 <= k < children@.len() ==> *children@[k] == child_nodes(**node)[k],
            forall|k: int|
                0 <= k < i ==> !has_chain(#[trigger] child_nodes(**node)[k], levels as nat),
        decreases children.len() - i,
    {
        if !nests_within(&children[i], levels - 1) {
            assert(has_chain(child_nodes(**node)[i as int], levels as nat));
            return false;
        }
        i += 1;
    }
    true
}

/// Tells whether a parser that walks the tree by calling itself takes
/// `body`, and why not where it does not.
pub fn check_nesting(body: &str) -> (r: Result<(), ParseError>)
    ensures
        match r {
            Ok(_) => nesting_refusal(body@) is None,
            Err(e) => nesting_refusal(body@) == Some(e),
        },
{
    match check_body(body) {
        Ok(_) => {
            let root = parse_root(body);
            if nests_within(&root, MAX_DEPTH) {
                Ok(())
            } else {
                Err(ParseError::TooDeep)
            }
        },
        Err(e) => Err(e),
    }
}

/// `html5ever::parse_document` into an `RcDom`, with the default options,
/// fed the whole text at once: the document node of the tree is the one
/// named by `parsed_root`. A body of more than `MAX_BODY_BYTES` bytes is
/// left out, because a text buffer fails where it must grow past 2^31 bytes.
#[verifier::external_body]
fn parse_root(body: &str) -> (root: Rc<Node>)
    requires
        byte_len(body@) <= MAX_BODY_BYTES,
    ensures
        *root == parsed_root(body@),
{
    html5ever::parse_document(RcDom::default(), Default::default()).one(body).document
}

/// The field `children` of a `Node`: a copy of the handles that it holds,
/// which are the children named by `child_nodes`.
#[verifier::external_body]
fn children_of(node: &Rc<Node>) -> (children: Vec<Rc<Node>>)
    ensures
        children@.len() == child_nodes(**node).len(),
        forall|k: int| 0 <= k < children@.len() ==> *children@[k] == child_nodes(**node)[k],
{
    node.children.borrow().clone()
}

} // verus!
