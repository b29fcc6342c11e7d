use vstd::prelude::*;
use crate::html_tree::{EdgeModel, NodeKind, TreeEdge, edges_view};

verus! {

/// The depth-first walk over the tree that scraper's lenient HTML parser
/// builds for a fragment, starting at the root element that it wraps the
/// fragment's nodes in.
pub uninterp spec fn fragment_walk(fragment: Seq<char>) -> Seq<EdgeModel>;

/// Relies on `scraper::Html::parse_fragment`, `Html::root_element` and
/// ego_tree's `NodeRef::traverse`: every node of the parsed tree under the
/// root element, itself included, is entered and left in document order. Each
/// step is converted one for one: a text node keeps its text, an element its
/// local name, its attributes in scraper's order and its subtree as
/// `ElementRef::html` writes it, any other node is `Other`.
#[verifier::external_body]
pub(crate) fn parse_fragment_walk(fragment: &str) -> (r: Vec<TreeEdge>)
    ensures
        edges_view(r@) == fragment_walk(fragment@),
{
    let html = scraper::Html::parse_fragment(fragment);
    html.root_element().traverse().map(|edge| match edge {
        ego_tree::iter::Edge::Open(node) => TreeEdge::Open(match node.value() {
            scraper::Node::Text(t) => NodeKind::Text(t.to_string()),
            scraper::Node::Element(e) => NodeKind::Element {
                name: e.name().to_string(),
                attrs: e.attrs().map(|(k, v)| (k.to_string(), v.to_string())).collect(),
                html: scraper::ElementRef::wrap(node).map_or(String::new(), |r| r.html()),
            },
            _ => NodeKind::Other,
        }),
        ego_tree::iter::Edge::Close(_) => TreeEdge::Close,
    }).collect()
}

} // verus!
