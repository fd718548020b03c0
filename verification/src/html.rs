//! The one outside dependency of the engine: parsing the raw HTML text into
//! a node tree. The parse is done by scraper (html5ever) and its result is
//! copied into the flat arena form of `crate::dom`; everything after that
//! point is ordinary verified code over plain values.

use vstd::prelude::*;
use crate::dom::{arena_wf, DomNode};

verus! {

#[verifier::external_type_specification]
#[verifier::external_body]
#[verifier::reject_recursive_types(T)]
pub struct ExNodeRef<'a, T: 'a>(ego_tree::NodeRef<'a, T>);

#[verifier::external_type_specification]
#[verifier::external_body]
pub struct ExScraperNode(scraper::node::Node);

/// The arena that parsing a given document text yields. The parse is a pure
/// function of the text alone; its value is fixed here only by the clauses of
/// `parse_document` below.
pub uninterp spec fn dom_of(s: Seq<char>) -> Seq<DomNode>;

/// Relies on ego_tree::NodeRef::{value, children} and on scraper's node
/// accessors (Element::name, Element::attrs, the text of a Text node): walks
/// the parsed tree in document order, appending one arena entry per element
/// or text run. An element's entry is appended before its descendants' and
/// its `end` is set just past them, so each subtree occupies the contiguous
/// range `(i, end)`; comments, doctypes and processing instructions are
/// passed over, and the root's children are walked directly.
#[verifier::external_body]
fn push_subtree(out: &mut Vec<DomNode>, n: ego_tree::NodeRef<'_, scraper::node::Node>) {
    match n.value() {
        scraper::node::Node::Element(e) => {
            let i = out.len();
            let attrs = e.attrs().map(|kv| (kv.0.to_string(), kv.1.to_string())).collect();
            out.push(crate::dom::element_node(e.name(), attrs));
            n.children().for_each(|c| push_subtree(out, c));
            let fin = out.len();
            out[i].end = fin;
        },
        scraper::node::Node::Text(t) => {
            let end = out.len() + 1;
            out.push(crate::dom::text_run_node(t, end));
        },
        _ => n.children().for_each(|c| push_subtree(out, c)),
    }
}

/// Relies on scraper::Html::parse_document (html5ever's lenient HTML parser):
/// it turns any text into a node tree without failing. The tree is copied by
/// `push_subtree` into the flat arena named `dom_of`; the copy's preorder
/// layout is what makes `arena_wf` hold of it (each node sits before its
/// subtree end, and every end is bounded by the final length).
#[verifier::external_body]
pub(crate) fn parse_document(content: &str) -> (r: Vec<DomNode>)
    ensures
        r@ == dom_of(content@),
        arena_wf(r@),
{
    let html = scraper::Html::parse_document(content);
    let mut out: Vec<DomNode> = Vec::new();
    push_subtree(&mut out, html.tree.root());
    out
}

} // verus!
