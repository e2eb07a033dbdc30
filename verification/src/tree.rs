//! A document tree held as a flat list of nodes in document order, each node
//! with its depth. Both the HTML pages and the XSD files are read into this
//! form; the parsers of this crate then walk it.
use vstd::prelude::*;

use crate::text::str_eq;

verus! {

/// What a node of a document is.
pub enum NodeKind {
    Element,
    Text,
    Other,
}

/// The plain content of one node of a document tree.
///
/// For an element: its namespace (XML), its local name, its attributes in
/// document order and, for HTML, its inner HTML in `content`. For a text
/// node: its text in `content`.
pub struct NodeData {
    pub kind: NodeKind,
    pub namespace: Option<String>,
    pub name: String,
    pub attrs: Vec<(String, String)>,
    pub content: String,
}

/// A node of a flattened document: its data and how many nodes enclose it.
pub struct Node {
    pub data: NodeData,
    pub depth: usize,
}

/// A document: its nodes in document order.
pub struct Document {
    pub nodes: Vec<Node>,
}

impl NodeData {
    /// The data of an element node.
    pub fn element(
        namespace: Option<String>,
        name: String,
        attrs: Vec<(String, String)>,
        content: String,
    ) -> (r: NodeData)
        ensures
            r == (NodeData { kind: NodeKind::Element, namespace, name, attrs, content }),
    {
        NodeData { kind: NodeKind::Element, namespace, name, attrs, content }
    }

    /// The data of a text node.
    pub fn text(content: String) -> (r: NodeData)
        ensures
            r.kind == NodeKind::Text,
            r.content == content,
            r.namespace is None,
            r.name@.len() == 0,
            r.attrs@.len() == 0,
    {
        NodeData {
            kind: NodeKind::Text,
            namespace: None,
            name: String::new(),
            attrs: Vec::new(),
            content,
        }
    }

    /// The data of a node that is neither an element nor text.
    pub fn other() -> (r: NodeData)
        ensures
            r.kind == NodeKind::Other,
            r.namespace is None,
            r.name@.len() == 0,
            r.attrs@.len() == 0,
            r.content@.len() == 0,
    {
        NodeData {
            kind: NodeKind::Other,
            namespace: None,
            name: String::new(),
            attrs: Vec::new(),
            content: String::new(),
        }
    }
}

/// An optional index, as an integer.
pub open spec fn opt_int(o: Option<usize>) -> Option<int> {
    match o {
        Some(k) => Some(k as int),
        None => None,
    }
}

// ----- structure of a flat document -----
/// The index just past the subtree of node `i`, searching from `k`.
pub open spec fn subtree_end_from(ns: Seq<Node>, i: int, k: int) -> int
    decreases ns.len() - k,
{
    if k >= ns.len() || k < 0 || ns[k].depth <= ns[i].depth {
        k
    } else {
        subtree_end_from(ns, i, k + 1)
    }
}

/// The index just past the last descendant of node `i`: the nodes strictly
/// between `i` and it are the descendants of `i`.
pub open spec fn subtree_end(ns: Seq<Node>, i: int) -> int {
    subtree_end_from(ns, i, i + 1)
}

proof fn lemma_subtree_end_from_bound(ns: Seq<Node>, i: int, k: int)
    requires
        0 <= i < k <= ns.len(),
    ensures
        k <= subtree_end_from(ns, i, k) <= ns.len(),
    decreases ns.len() - k,
{
    if k < ns.len() && ns[k].depth > ns[i].depth {
        lemma_subtree_end_from_bound(ns, i, k + 1);
    }
}

/// The subtree of a node ends after the node and within the document.
pub proof fn lemma_subtree_end_bound(ns: Seq<Node>, i: int)
    requires
        0 <= i < ns.len(),
    ensures
        i < subtree_end(ns, i) <= ns.len(),
{
    lemma_subtree_end_from_bound(ns, i, i + 1);
}

/// The children of node `i` that lie before index `hi`, in document order.
pub open spec fn child_list(ns: Seq<Node>, i: int, hi: int) -> Seq<int>
    decreases hi - i,
{
    if hi <= i + 1 {
        Seq::empty()
    } else {
        let r = child_list(ns, i, hi - 1);
        if ns[hi - 1].depth == ns[i].depth + 1 {
            r.push(hi - 1)
        } else {
            r
        }
    }
}

/// The children of node `i`, in document order.
pub open spec fn children(ns: Seq<Node>, i: int) -> Seq<int> {
    child_list(ns, i, subtree_end(ns, i))
}

/// The concatenated text of the text nodes in `[lo, hi)`.
pub open spec fn text_in(ns: Seq<Node>, lo: int, hi: int) -> Seq<char>
    decreases hi - lo,
{
    if hi <= lo {
        Seq::empty()
    } else {
        let r = text_in(ns, lo, hi - 1);
        if ns[hi - 1].data.kind == NodeKind::Text {
            r + ns[hi - 1].data.content@
        } else {
            r
        }
    }
}

/// The text of node `i`: all the text below it, in document order.
pub open spec fn node_text(ns: Seq<Node>, i: int) -> Seq<char> {
    text_in(ns, i + 1, subtree_end(ns, i))
}

/// Whether a node is an element with the given local name.
pub open spec fn is_element_named(n: Node, name: Seq<char>) -> bool {
    n.data.kind == NodeKind::Element && n.data.name@ == name
}

/// The value of the first attribute named `name`.
pub open spec fn attr_from(attrs: Seq<(String, String)>, name: Seq<char>, k: int) -> Option<
    String,
>
    decreases attrs.len() - k,
{
    if k < 0 || k >= attrs.len() {
        None
    } else if attrs[k].0@ == name {
        Some(attrs[k].1)
    } else {
        attr_from(attrs, name, k + 1)
    }
}

/// The value of the attribute `name` of a node.
pub open spec fn attr_of(n: NodeData, name: Seq<char>) -> Option<String> {
    attr_from(n.attrs@, name, 0)
}

impl Document {
    pub open spec fn len(&self) -> nat {
        self.nodes@.len()
    }

    /// The index just past the descendants of node `i`.
    pub fn subtree_end(&self, i: usize) -> (r: usize)
        requires
            i < self.nodes@.len(),
        ensures
            r as int == subtree_end(self.nodes@, i as int),
            i < r <= self.nodes@.len(),
    {
        let ghost ns = self.nodes@;
        let d = self.nodes[i].depth;
        let n = self.nodes.len();
        let mut k = i + 1;
        while k < self.nodes.len() && self.nodes[k].depth > d
            invariant
                ns == self.nodes@,
                d == ns[i as int].depth,
                i < k <= ns.len(),
                subtree_end_from(ns, i as int, k as int) == subtree_end(ns, i as int),
            decreases ns.len() - k,
        {
            k = k + 1;
        }
        k
    }

    /// The children of node `i`, in document order.
    pub fn children(&self, i: usize) -> (r: Vec<usize>)
        requires
            i < self.nodes@.len(),
        ensures
            r@.map_values(|k: usize| k as int) == children(self.nodes@, i as int),
            forall|j: int| 0 <= j < r@.len() ==> i < #[trigger] r@[j] < self.nodes@.len(),
    {
        let ghost ns = self.nodes@;
        let end = self.subtree_end(i);
        let d = self.nodes[i].depth;
        let mut r: Vec<usize> = Vec::new();
        let mut k = i + 1;
        while k < end
            invariant
                ns == self.nodes@,
                d == ns[i as int].depth,
                i < k <= end <= ns.len(),
                end == subtree_end(ns, i as int),
                r@.map_values(|x: usize| x as int) == child_list(ns, i as int, k as int),
                forall|j: int| 0 <= j < r@.len() ==> i < #[trigger] r@[j] < k,
            decreases end - k,
        {
            if d < usize::MAX && self.nodes[k].depth == d + 1 {
                r.push(k);
                assert(r@.map_values(|x: usize| x as int) =~= child_list(
                    ns,
                    i as int,
                    k as int,
                ).push(k as int));
            }
            k = k + 1;
        }
        r
    }

    /// The text of node `i`: all the text below it, in document order.
    pub fn text(&self, i: usize) -> (r: String)
        requires
            i < self.nodes@.len(),
        ensures
            r@ == node_text(self.nodes@, i as int),
    {
        let ghost ns = self.nodes@;
        let end = self.subtree_end(i);
        let mut r = String::new();
        let mut k = i + 1;
        while k < end
            invariant
                ns == self.nodes@,
                i < k <= end <= ns.len(),
                end == subtree_end(ns, i as int),
                r@ == text_in(ns, i + 1, k as int),
            decreases end - k,
        {
            match self.nodes[k].data.kind {
                NodeKind::Text => {
                    r.append(self.nodes[k].data.content.as_str());
                },
                _ => {},
            }
            k = k + 1;
        }
        r
    }

    /// Whether node `k` is an element named `name`.
    pub fn is_named(&self, k: usize, name: &str) -> (r: bool)
        requires
            k < self.nodes@.len(),
        ensures
            r == is_element_named(self.nodes@[k as int], name@),
    {
        match self.nodes[k].data.kind {
            NodeKind::Element => str_eq(self.nodes[k].data.name.as_str(), name),
            _ => false,
        }
    }
}

/// The value of the attribute `name` of node data `d`.
pub fn attr<'a>(d: &'a NodeData, name: &str) -> (r: Option<&'a String>)
    ensures
        match r {
            Some(v) => attr_of(*d, name@) == Some(*v),
            None => attr_of(*d, name@) is None,
        },
{
    let mut k: usize = 0;
    while k < d.attrs.len()
        invariant
            k <= d.attrs@.len(),
            attr_of(*d, name@) == attr_from(d.attrs@, name@, k as int),
        decreases d.attrs@.len() - k,
    {
        if str_eq(d.attrs[k].0.as_str(), name) {
            return Some(&d.attrs[k].1);
        }
        k = k + 1;
    }
    None
}

} // verus!
