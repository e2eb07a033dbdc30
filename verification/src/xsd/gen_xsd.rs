//! A short reading of an `annotation` element: its English documentation,
//! whether it says the item is required, and whether it says the item is
//! deprecated. An annotation without English documentation says nothing.
use vstd::prelude::*;

use crate::html::{html_to_markdown, markdown_of};
use crate::text::str_eq;
use crate::tree::{attr, children, Document, Node, NodeData};
use crate::xsd::annotation::attr_is;
use crate::xsd::{
    any_node, first_child_text, first_child_text_of, first_some, ints, is_xs,
    lemma_first_some_hit, lemma_first_some_step, lemma_subrange_ends, node_is_xs,
};

verus! {

/// What the short reading of an annotation gives.
#[derive(Debug, PartialEq)]
pub struct Annotation {
    pub description: String,
    pub required: Option<bool>,
    pub deprecated: bool,
}

/// The text of node `c`, when it is an XML Schema `documentation` in
/// English whose first child is text.
pub open spec fn english_documentation(ns: Seq<Node>, c: int) -> Option<Seq<char>> {
    let d = ns[c].data;
    if is_xs(d, "documentation"@) && attr_is(d, "lang"@, "en"@) {
        first_child_text(ns, c)
    } else {
        None
    }
}

/// What node `c` says of the item being required, when it is a
/// `documentation` of that source whose text is exactly `true` or `false`.
pub open spec fn required_marker(ns: Seq<Node>, c: int) -> Option<bool> {
    let d = ns[c].data;
    if is_xs(d, "documentation"@) && attr_is(d, "source"@, "required"@) {
        match first_child_text(ns, c) {
            Some(r) => if r == "true"@ {
                Some(true)
            } else if r == "false"@ {
                Some(false)
            } else {
                None
            },
            None => None,
        }
    } else {
        None
    }
}

/// Whether node `c` is a `documentation` that marks the item deprecated.
pub open spec fn deprecated_marker(ns: Seq<Node>, c: int) -> bool {
    is_xs(ns[c].data, "documentation"@) && attr_is(ns[c].data, "source"@, "deprecated"@)
}

/// The short reading of node `i`: nothing when it is not an annotation or
/// has no English documentation.
pub open spec fn short_annotation_of(ns: Seq<Node>, i: int) -> Option<(Seq<char>, Option<bool>, bool)> {
    if !is_xs(ns[i].data, "annotation"@) {
        None
    } else {
        let cs = children(ns, i);
        match first_some(cs, |c: int| english_documentation(ns, c)) {
            None => None,
            Some(d) => Some(
                (
                    markdown_of(d),
                    first_some(cs, |c: int| required_marker(ns, c)),
                    any_node(cs, |c: int| deprecated_marker(ns, c)),
                ),
            ),
        }
    }
}

/// Whether the attribute `name` of `d` is `value`.
fn attr_equals(d: &NodeData, name: &str, value: &str) -> (r: bool)
    ensures
        r == attr_is(*d, name@, value@),
{
    match attr(d, name) {
        Some(v) => str_eq(v.as_str(), value),
        None => false,
    }
}

fn english_documentation_of(doc: &Document, c: usize) -> (r: Option<String>)
    requires
        c < doc.nodes@.len(),
    ensures
        crate::openapi::opt_str(r) == english_documentation(doc.nodes@, c as int),
{
    let d = &doc.nodes[c].data;
    if node_is_xs(d, "documentation") && attr_equals(d, "lang", "en") {
        first_child_text_of(doc, c)
    } else {
        None
    }
}

fn required_marker_of(doc: &Document, c: usize) -> (r: Option<bool>)
    requires
        c < doc.nodes@.len(),
    ensures
        r == required_marker(doc.nodes@, c as int),
{
    let d = &doc.nodes[c].data;
    if node_is_xs(d, "documentation") && attr_equals(d, "source", "required") {
        match first_child_text_of(doc, c) {
            Some(t) => if str_eq(t.as_str(), "true") {
                Some(true)
            } else if str_eq(t.as_str(), "false") {
                Some(false)
            } else {
                None
            },
            None => None,
        }
    } else {
        None
    }
}

/// Reads node `i` as an annotation: its English documentation as Markdown,
/// whether it is required, and whether it is deprecated.
pub fn parse_annotation(doc: &Document, i: usize) -> (r: Option<Annotation>)
    requires
        i < doc.nodes@.len(),
    ensures
        match r {
            Some(a) => short_annotation_of(doc.nodes@, i as int) == Some(
                (a.description@, a.required, a.deprecated),
            ),
            None => short_annotation_of(doc.nodes@, i as int) is None,
        },
{
    if !node_is_xs(&doc.nodes[i].data, "annotation") {
        return None;
    }
    let ghost ns = doc.nodes@;
    let kids = doc.children(i);
    let ghost cs = ints(kids@);
    let ghost fd = |c: int| english_documentation(ns, c);
    let ghost fr = |c: int| required_marker(ns, c);
    let ghost pd = |c: int| deprecated_marker(ns, c);
    proof {
        lemma_subrange_ends(cs);
    }
    let mut description: Option<String> = None;
    let mut required: Option<bool> = None;
    let mut deprecated = false;
    let mut k: usize = 0;
    while k < kids.len()
        invariant
            ns == doc.nodes@,
            cs == ints(kids@),
            cs == children(ns, i as int),
            fd == (|c: int| english_documentation(ns, c)),
            fr == (|c: int| required_marker(ns, c)),
            pd == (|c: int| deprecated_marker(ns, c)),
            forall|j: int| 0 <= j < kids@.len() ==> #[trigger] kids@[j] < ns.len(),
            k <= kids@.len(),
            description is Some ==> crate::openapi::opt_str(description) == first_some(cs, fd),
            description is None ==> first_some(cs, fd) == first_some(cs.subrange(k as int, cs.len() as int), fd),
            required is Some ==> required == first_some(cs, fr),
            required is None ==> first_some(cs, fr) == first_some(cs.subrange(k as int, cs.len() as int), fr),
            deprecated == exists|j: int| 0 <= j < k && #[trigger] pd(cs[j]),
        decreases kids@.len() - k,
    {
        let c = kids[k];
        assert(cs[k as int] == c as int);
        if description.is_none() {
            let d = english_documentation_of(doc, c);
            if d.is_none() {
                proof {
                    lemma_first_some_step(cs, fd, k as int);
                }
            } else {
                proof {
                    lemma_first_some_hit(cs, fd, k as int);
                }
            }
            description = d;
        }
        if required.is_none() {
            let d = required_marker_of(doc, c);
            if d.is_none() {
                proof {
                    lemma_first_some_step(cs, fr, k as int);
                }
            } else {
                proof {
                    lemma_first_some_hit(cs, fr, k as int);
                }
            }
            required = d;
        }
        let cd = &doc.nodes[c].data;
        if node_is_xs(cd, "documentation") && attr_equals(cd, "source", "deprecated") {
            assert(pd(cs[k as int]));
            deprecated = true;
        }
        k = k + 1;
    }
    assert(deprecated == any_node(cs, pd));
    match description {
        Some(d) => Some(Annotation { description: html_to_markdown(d.as_str()), required, deprecated }),
        None => None,
    }
}

} // verus!
