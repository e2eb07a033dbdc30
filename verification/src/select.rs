//! Reading pages as their text is read: the root element of a document,
//! and the text below a node with each piece trimmed.
use vstd::prelude::*;

use crate::text::{trim, trim_str};
use crate::tree::{subtree_end, Document, Node, NodeKind};

verus! {

/// The text below node `k`: each text node trimmed, one after the other.
pub open spec fn trimmed_text_in(ns: Seq<Node>, lo: int, hi: int) -> Seq<char>
    decreases hi - lo,
{
    if hi <= lo {
        Seq::empty()
    } else {
        let r = trimmed_text_in(ns, lo, hi - 1);
        if ns[hi - 1].data.kind == NodeKind::Text {
            r + trim(ns[hi - 1].data.content@)
        } else {
            r
        }
    }
}

/// The text of node `k` as the pages are read: each piece trimmed.
pub open spec fn trimmed_text(ns: Seq<Node>, k: int) -> Seq<char> {
    trimmed_text_in(ns, k + 1, subtree_end(ns, k))
}

/// The root element of a document: the first element at depth one.
pub open spec fn root_from(ns: Seq<Node>, k: int) -> Option<int>
    decreases ns.len() - k,
{
    if k < 0 || k >= ns.len() {
        None
    } else if ns[k].depth == 1 && ns[k].data.kind == NodeKind::Element {
        Some(k)
    } else {
        root_from(ns, k + 1)
    }
}

/// An optional index as an optional integer.
pub open spec fn opt_int_of(o: Option<usize>) -> Option<int> {
    match o {
        Some(k) => Some(k as int),
        None => None,
    }
}

/// The text of node `k`, each piece trimmed.
pub fn trimmed_text_of(doc: &Document, k: usize) -> (r: String)
    requires
        k < doc.nodes@.len(),
    ensures
        r@ == trimmed_text(doc.nodes@, k as int),
{
    let ghost ns = doc.nodes@;
    let end = doc.subtree_end(k);
    let mut r = String::new();
    let mut j = k + 1;
    while j < end
        invariant
            ns == doc.nodes@,
            k < j <= end <= ns.len(),
            end == subtree_end(ns, k as int),
            r@ == trimmed_text_in(ns, k + 1, j as int),
        decreases end - j,
    {
        match doc.nodes[j].data.kind {
            NodeKind::Text => {
                let t = trim_str(doc.nodes[j].data.content.as_str());
                r.append(t.as_str());
            },
            _ => {},
        }
        j = j + 1;
    }
    r
}

/// The root element of a document.
pub fn root_of(doc: &Document) -> (r: Option<usize>)
    ensures
        opt_int_of(r) == root_from(doc.nodes@, 0),
        r matches Some(k) ==> k < doc.nodes@.len(),
{
    let mut k: usize = 0;
    while k < doc.nodes.len()
        invariant
            root_from(doc.nodes@, 0) == root_from(doc.nodes@, k as int),
        decreases doc.nodes@.len() - k,
    {
        if doc.nodes[k].depth == 1 {
            match doc.nodes[k].data.kind {
                NodeKind::Element => {
                    return Some(k);
                },
                _ => {},
            }
        }
        k = k + 1;
    }
    None
}

} // verus!
