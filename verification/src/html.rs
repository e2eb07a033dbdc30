//! Reading HTML into a flat document, and turning HTML into Markdown.
use vstd::prelude::*;

use crate::tree::{subtree_end, Document, Node, NodeData};

verus! {

/// The nodes of the tree that `scraper::Html::parse_document` builds from
/// `html`, in document order, each with its depth.
pub uninterp spec fn html_document_nodes(html: Seq<char>) -> Seq<Node>;

/// The nodes of the tree that `scraper::Html::parse_fragment` builds from
/// `html`, in document order, each with its depth.
pub uninterp spec fn html_fragment_nodes(html: Seq<char>) -> Seq<Node>;

/// The Markdown that `html2md::parse_html` writes for `html`.
pub uninterp spec fn markdown_of(html: Seq<char>) -> Seq<char>;

/// The places, in `html_document_nodes(html)`, of the elements that
/// `scraper::Html::select` yields for `selector` on the document parsed from
/// `html`, in the order it yields them; nothing when `scraper::Selector::parse`
/// refuses the selector.
pub uninterp spec fn css_select_document(html: Seq<char>, selector: Seq<char>) -> Seq<int>;

/// The places, in `html_document_nodes(html)`, of the elements that
/// `scraper::ElementRef::select` yields for `selector` below the element at
/// place `k` of the document parsed from `html`, in the order it yields
/// them; nothing when the selector is refused or node `k` is no element.
pub uninterp spec fn css_select_within(html: Seq<char>, k: int, selector: Seq<char>) -> Seq<int>;

/// The places, in `html_fragment_nodes(html)`, of the elements that
/// `scraper::Html::select` yields for `selector` on the fragment parsed
/// from `html`, in the order it yields them; nothing when the selector is
/// refused.
pub uninterp spec fn css_select_fragment(html: Seq<char>, selector: Seq<char>) -> Seq<int>;

/// Parses `html` with `scraper::Html::parse_document`, parses `selector`
/// with `scraper::Selector::parse` and runs `Html::select`, giving each
/// element it yields by its place among the nodes of the tree in document
/// order, as `parse_document_nodes` lists them. The contract claims that
/// the result depends on `html` and `selector` alone and that each place is
/// one of those nodes; which elements match is left to the name.
#[verifier::external_body]
pub(crate) fn select_document(html: &str, selector: &str) -> (r: Vec<usize>)
    ensures
        r@.map_values(|j: usize| j as int) == css_select_document(html@, selector@),
        forall|j: int| 0 <= j < r@.len() ==> #[trigger] r@[j] < html_document_nodes(html@).len(),
{
    let doc = scraper::Html::parse_document(html);
    let ids: Vec<_> = doc.tree.root().descendants().map(|n| n.id()).collect();
    let picked: Vec<_> = match scraper::Selector::parse(selector) {
        Ok(sel) => doc.select(&sel).map(|e| e.id()).collect(),
        Err(_) => Vec::new(),
    };
    picked.iter().map(|p| ids.iter().position(|i| i == p).unwrap_or(ids.len())).collect()
}

/// Parses `html` with `scraper::Html::parse_document`, takes the element at
/// place `k` of its nodes in document order, and runs
/// `scraper::ElementRef::select` with `selector` on it, giving each element
/// it yields by its place as `select_document` does. The contract claims
/// that the result depends on `html`, `k` and `selector` alone, and that
/// each place lies strictly inside the subtree of node `k`: the method walks
/// the descendants of the element and skips the element itself.
#[verifier::external_body]
pub(crate) fn select_within(html: &str, k: usize, selector: &str) -> (r: Vec<usize>)
    ensures
        r@.map_values(|j: usize| j as int) == css_select_within(html@, k as int, selector@),
        forall|j: int|
            0 <= j < r@.len() ==> k < #[trigger] r@[j] < subtree_end(html_document_nodes(html@), k as int),
{
    let doc = scraper::Html::parse_document(html);
    let ids: Vec<_> = doc.tree.root().descendants().map(|n| n.id()).collect();
    let el = ids.get(k).and_then(|id| doc.tree.get(*id)).and_then(scraper::ElementRef::wrap);
    let picked: Vec<_> = match (scraper::Selector::parse(selector), el) {
        (Ok(sel), Some(el)) => el.select(&sel).map(|e| e.id()).collect(),
        _ => Vec::new(),
    };
    picked.iter().map(|p| ids.iter().position(|i| i == p).unwrap_or(k)).collect()
}

/// Parses `html` with `scraper::Html::parse_fragment`, parses `selector` and
/// runs `Html::select`, giving each element it yields by its place among the
/// nodes that `parse_fragment_nodes` lists. The contract claims that the
/// result depends on `html` and `selector` alone and that each place is one
/// of those nodes.
#[verifier::external_body]
pub(crate) fn select_fragment(html: &str, selector: &str) -> (r: Vec<usize>)
    ensures
        r@.map_values(|j: usize| j as int) == css_select_fragment(html@, selector@),
        forall|j: int| 0 <= j < r@.len() ==> #[trigger] r@[j] < html_fragment_nodes(html@).len(),
{
    let doc = scraper::Html::parse_fragment(html);
    let ids: Vec<_> = doc.tree.root().descendants().map(|n| n.id()).collect();
    let picked: Vec<_> = match scraper::Selector::parse(selector) {
        Ok(sel) => doc.select(&sel).map(|e| e.id()).collect(),
        Err(_) => Vec::new(),
    };
    picked.iter().map(|p| ids.iter().position(|i| i == p).unwrap_or(ids.len())).collect()
}

/// Parses `html` as a whole document with `scraper::Html::parse_document`
/// and lists the nodes of the resulting tree in document order: each element
/// with its local name, its attributes (as scraper orders them) and its
/// inner HTML, each text node with its text, anything else as `Other`, and
/// each with the number of its ancestors. The contract claims only that the
/// result depends on `html` alone.
#[verifier::external_body]
fn parse_document_nodes(html: &str) -> (r: Vec<Node>)
    ensures
        r@ == html_document_nodes(html@),
{
    let doc = scraper::Html::parse_document(html);
    let mut out = Vec::new();
    for n in doc.tree.root().descendants() {
        let data = match n.value() {
            scraper::Node::Element(e) => NodeData::element(None, e.name().to_string(), e.attrs().map(|(k, v)| (k.to_string(), v.to_string())).collect(), scraper::ElementRef::wrap(n).map(|r| r.inner_html()).unwrap_or_default()),
            scraper::Node::Text(t) => NodeData::text(t.to_string()),
            _ => NodeData::other(),
        };
        out.push(Node { data, depth: n.ancestors().count() });
    }
    out
}

/// Parses `html` as a fragment with `scraper::Html::parse_fragment` and lists
/// the nodes of the resulting tree as `parse_document_nodes` does. The
/// contract claims only that the result depends on `html` alone.
#[verifier::external_body]
fn parse_fragment_nodes(html: &str) -> (r: Vec<Node>)
    ensures
        r@ == html_fragment_nodes(html@),
{
    let doc = scraper::Html::parse_fragment(html);
    let mut out = Vec::new();
    for n in doc.tree.root().descendants() {
        let data = match n.value() {
            scraper::Node::Element(e) => NodeData::element(None, e.name().to_string(), e.attrs().map(|(k, v)| (k.to_string(), v.to_string())).collect(), scraper::ElementRef::wrap(n).map(|r| r.inner_html()).unwrap_or_default()),
            scraper::Node::Text(t) => NodeData::text(t.to_string()),
            _ => NodeData::other(),
        };
        out.push(Node { data, depth: n.ancestors().count() });
    }
    out
}

/// Converts `html` to Markdown with `html2md::parse_html`. The contract claims
/// only that the result depends on `html` alone.
#[verifier::external_body]
pub(crate) fn html_to_markdown(html: &str) -> (r: String)
    ensures
        r@ == markdown_of(html@),
{
    html2md::parse_html(html)
}

/// Parses a whole HTML document.
pub fn parse_document(html: &str) -> (doc: Document)
    ensures
        doc.nodes@ == html_document_nodes(html@),
{
    Document { nodes: parse_document_nodes(html) }
}

/// Parses an HTML fragment.
pub fn parse_fragment(html: &str) -> (doc: Document)
    ensures
        doc.nodes@ == html_fragment_nodes(html@),
{
    Document { nodes: parse_fragment_nodes(html) }
}

} // verus!
