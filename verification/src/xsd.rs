//! The XML Schema (XSD) files of the documentation, read into OpenAPI
//! schemas.
use vstd::prelude::*;

use crate::text::str_eq;
use crate::tree::{attr, attr_of, children, Document, Node, NodeData, NodeKind};

pub mod annotation;
pub mod primitive_type;
pub mod simple_type;
pub mod field;
pub mod group_ref;
pub mod object_type;
pub mod schema_type;
pub mod schema;
pub mod sequence_element;
pub mod complex_type;
pub mod gen_xsd;

verus! {

/// The namespace of XML Schema.
pub open spec fn xs_namespace() -> Seq<char> {
    "http://www.w3.org/2001/XMLSchema"@
}

/// Whether `n` is the XML Schema element `name`.
pub open spec fn is_xs(n: NodeData, name: Seq<char>) -> bool {
    &&& n.kind == NodeKind::Element
    &&& n.namespace matches Some(s) && s@ == xs_namespace()
    &&& n.name@ == name
}

/// Whether `n` is an element `name` in some namespace.
pub open spec fn is_in_ns(n: NodeData, name: Seq<char>) -> bool {
    &&& n.kind == NodeKind::Element
    &&& n.namespace is Some
    &&& n.name@ == name
}

/// Whether node data is the XML Schema element `name`.
pub fn node_is_xs(n: &NodeData, name: &str) -> (r: bool)
    ensures
        r == is_xs(*n, name@),
{
    match n.kind {
        NodeKind::Element => match &n.namespace {
            Some(s) => str_eq(s.as_str(), "http://www.w3.org/2001/XMLSchema") && str_eq(
                n.name.as_str(),
                name,
            ),
            None => false,
        },
        _ => false,
    }
}

/// Whether node data is an element `name` in some namespace.
pub fn node_is_in_ns(n: &NodeData, name: &str) -> (r: bool)
    ensures
        r == is_in_ns(*n, name@),
{
    match n.kind {
        NodeKind::Element => n.namespace.is_some() && str_eq(n.name.as_str(), name),
        _ => false,
    }
}

/// The first value that `f` gives for the nodes `cs`, in order.
pub open spec fn first_some<T>(cs: Seq<int>, f: spec_fn(int) -> Option<T>) -> Option<T>
    decreases cs.len(),
{
    if cs.len() == 0 {
        None
    } else {
        match f(cs[0]) {
            Some(x) => Some(x),
            None => first_some(cs.drop_first(), f),
        }
    }
}

/// The values that `f` gives for the nodes `cs`, in order.
pub open spec fn all_some<T>(cs: Seq<int>, f: spec_fn(int) -> Option<T>) -> Seq<T>
    decreases cs.len(),
{
    if cs.len() == 0 {
        Seq::empty()
    } else {
        match f(cs[0]) {
            Some(x) => seq![x] + all_some(cs.drop_first(), f),
            None => all_some(cs.drop_first(), f),
        }
    }
}

/// Whether `p` holds of one of the nodes `cs`.
pub open spec fn any_node(cs: Seq<int>, p: spec_fn(int) -> bool) -> bool {
    exists|k: int| 0 <= k < cs.len() && #[trigger] p(cs[k])
}

/// The node indices as integers.
pub open spec fn ints(v: Seq<usize>) -> Seq<int> {
    v.map_values(|k: usize| k as int)
}

/// Walking `first_some` one node on.
pub proof fn lemma_first_some_step<T>(cs: Seq<int>, f: spec_fn(int) -> Option<T>, i: int)
    requires
        0 <= i < cs.len(),
        f(cs[i]) is None,
    ensures
        first_some(cs.subrange(i, cs.len() as int), f) == first_some(
            cs.subrange(i + 1, cs.len() as int),
            f,
        ),
{
    assert(cs.subrange(i, cs.len() as int).drop_first() =~= cs.subrange(i + 1, cs.len() as int));
}

/// The first value of `f` found from node `k` on is the value at `k`, when
/// there is one there.
pub proof fn lemma_first_some_hit<T>(cs: Seq<int>, f: spec_fn(int) -> Option<T>, k: int)
    requires
        0 <= k < cs.len(),
        f(cs[k]) is Some,
    ensures
        first_some(cs.subrange(k, cs.len() as int), f) == f(cs[k]),
{
}

/// Walking `all_some` one node on.
pub proof fn lemma_all_some_step<T>(cs: Seq<int>, f: spec_fn(int) -> Option<T>, i: int)
    requires
        0 <= i < cs.len(),
    ensures
        all_some(cs.subrange(i, cs.len() as int), f) == match f(cs[i]) {
            Some(x) => seq![x] + all_some(cs.subrange(i + 1, cs.len() as int), f),
            None => all_some(cs.subrange(i + 1, cs.len() as int), f),
        },
{
    assert(cs.subrange(i, cs.len() as int).drop_first() =~= cs.subrange(i + 1, cs.len() as int));
}

/// The whole of a sequence, and its empty end.
pub proof fn lemma_subrange_ends<T>(cs: Seq<T>)
    ensures
        cs.subrange(0, cs.len() as int) == cs,
        cs.subrange(cs.len() as int, cs.len() as int) == Seq::<T>::empty(),
{
    assert(cs.subrange(0, cs.len() as int) =~= cs);
    assert(cs.subrange(cs.len() as int, cs.len() as int) =~= Seq::<T>::empty());
}

/// The first child of node `i`, when it is a text node: its text.
pub open spec fn first_child_text(ns: Seq<Node>, i: int) -> Option<Seq<char>> {
    let cs = children(ns, i);
    if cs.len() > 0 && ns[cs[0]].data.kind == NodeKind::Text {
        Some(ns[cs[0]].data.content@)
    } else {
        None
    }
}

/// The text of the first child of node `i`, when it is a text node.
pub fn first_child_text_of(doc: &Document, i: usize) -> (r: Option<String>)
    requires
        i < doc.nodes@.len(),
    ensures
        crate::openapi::opt_str(r) == first_child_text(doc.nodes@, i as int),
{
    let cs = doc.children(i);
    proof {
        assert(cs@.len() > 0 ==> cs@.map_values(|k: usize| k as int)[0] == cs@[0] as int);
    }
    if cs.len() > 0 {
        match doc.nodes[cs[0]].data.kind {
            NodeKind::Text => Some(doc.nodes[cs[0]].data.content.clone()),
            _ => None,
        }
    } else {
        None
    }
}

/// The sequences that `f` gives for the nodes `cs`, one after the other.
pub open spec fn concat_map<T>(cs: Seq<int>, f: spec_fn(int) -> Seq<T>) -> Seq<T>
    decreases cs.len(),
{
    if cs.len() == 0 {
        Seq::empty()
    } else {
        f(cs[0]) + concat_map(cs.drop_first(), f)
    }
}

/// Walking `concat_map` one node on.
pub proof fn lemma_concat_map_step<T>(cs: Seq<int>, f: spec_fn(int) -> Seq<T>, i: int)
    requires
        0 <= i < cs.len(),
    ensures
        concat_map(cs.subrange(i, cs.len() as int), f) == f(cs[i]) + concat_map(
            cs.subrange(i + 1, cs.len() as int),
            f,
        ),
{
    assert(cs.subrange(i, cs.len() as int).drop_first() =~= cs.subrange(i + 1, cs.len() as int));
}

/// A schema item, or a reference to one by name.
#[derive(Debug, PartialEq)]
pub enum ReferenceOr<T> {
    Reference { reference: String },
    Item(T),
}

} // verus!
