//! The `annotation` elements of XML Schema: documentation and markers.
use vstd::prelude::*;

use crate::html::{html_to_markdown, markdown_of};
use crate::openapi::opt_str;
use crate::text::{str_eq, trim, trim_str};
use crate::tree::{attr, attr_of, children, Document, Node, NodeData};
use crate::xsd::{
    first_child_text, first_child_text_of, first_some, lemma_first_some_hit, any_node, ints, is_in_ns, is_xs,
    lemma_first_some_step, lemma_subrange_ends, node_is_in_ns, node_is_xs,
};

verus! {

/// What an annotation says of the item it annotates.
#[derive(Debug, PartialEq)]
pub struct Annotation {
    pub description: Option<String>,
    pub required: Option<bool>,
    pub deprecated: bool,
    pub content_type: Option<String>,
    pub removed: bool,
}

/// Why a node is not an annotation.
#[derive(Debug, PartialEq)]
pub enum AnnotationParseError {
    NotAnnotationNode,
}

/// An annotation as plain sequences.
pub struct AnnotationV {
    pub description: Option<Seq<char>>,
    pub required: Option<bool>,
    pub deprecated: bool,
    pub content_type: Option<Seq<char>>,
    pub removed: bool,
}

pub open spec fn annotation_view(a: Annotation) -> AnnotationV {
    AnnotationV {
        description: opt_str(a.description),
        required: a.required,
        deprecated: a.deprecated,
        content_type: opt_str(a.content_type),
        removed: a.removed,
    }
}

/// `a`, or else `b`.
pub open spec fn or_else<T>(a: Option<T>, b: Option<T>) -> Option<T> {
    match a {
        Some(x) => Some(x),
        None => b,
    }
}

/// Two annotations merged: what the first says, and what only the second
/// says.
pub open spec fn merge_v(a: AnnotationV, b: AnnotationV) -> AnnotationV {
    AnnotationV {
        description: or_else(a.description, b.description),
        required: or_else(a.required, b.required),
        deprecated: a.deprecated || b.deprecated,
        content_type: or_else(a.content_type, b.content_type),
        removed: a.removed || b.removed,
    }
}

/// Whether the attribute `name` of `d` is `value`.
pub open spec fn attr_is(d: NodeData, name: Seq<char>, value: Seq<char>) -> bool {
    attr_of(d, name) matches Some(v) && v@ == value
}

/// The English documentation that node `c` holds, when it is one.
pub open spec fn en_documentation(ns: Seq<Node>, c: int) -> Option<Seq<char>> {
    let d = ns[c].data;
    if is_xs(d, "documentation"@) && (attr_is(d, "lang"@, "en"@) || d.attrs@.len() == 0) {
        first_child_text(ns, c)
    } else {
        None
    }
}

/// Whether node `c` says that the item is required, or that it is not.
pub open spec fn required_documentation(ns: Seq<Node>, c: int) -> Option<bool> {
    let d = ns[c].data;
    if is_in_ns(d, "documentation"@) && attr_is(d, "source"@, "required"@) {
        match first_child_text(ns, c) {
            Some(r) => if trim(r) == "true"@ {
                Some(true)
            } else if trim(r) == "false"@ {
                Some(false)
            } else {
                None
            },
            None => None,
        }
    } else {
        None
    }
}

/// Whether node `c` says that the item is deprecated.
pub open spec fn deprecated_documentation(ns: Seq<Node>, c: int) -> bool {
    is_in_ns(ns[c].data, "documentation"@) && attr_is(ns[c].data, "source"@, "deprecated"@)
}

/// Whether node `c` says that the item has been removed.
pub open spec fn removed_marker(ns: Seq<Node>, c: int) -> bool {
    let d = ns[c].data;
    ||| is_in_ns(d, "documentation"@) && attr_is(d, "source"@, "removed-in"@)
    ||| is_in_ns(d, "version"@) && attr_of(d, "removed-in"@) is Some
}

/// The content type that node `g` names, when it is a `content-type`.
pub open spec fn content_type_child(ns: Seq<Node>, g: int) -> Option<Seq<char>> {
    if is_in_ns(ns[g].data, "content-type"@) {
        match first_child_text(ns, g) {
            Some(ct) => Some(trim(ct)),
            None => None,
        }
    } else {
        None
    }
}

/// The content type that node `c` names, when it is an `appinfo`.
pub open spec fn appinfo_content_type(ns: Seq<Node>, c: int) -> Option<Seq<char>> {
    if is_in_ns(ns[c].data, "appinfo"@) {
        first_some(children(ns, c), |g: int| content_type_child(ns, g))
    } else {
        None
    }
}

/// What the children of node `i` say.
pub open spec fn children_annotation(ns: Seq<Node>, i: int) -> AnnotationV {
    let cs = children(ns, i);
    AnnotationV {
        description: match first_some(cs, |c: int| en_documentation(ns, c)) {
            Some(d) => Some(markdown_of(d)),
            None => None,
        },
        required: first_some(cs, |c: int| required_documentation(ns, c)),
        deprecated: any_node(cs, |c: int| deprecated_documentation(ns, c)),
        content_type: first_some(cs, |c: int| appinfo_content_type(ns, c)),
        removed: any_node(cs, |c: int| removed_marker(ns, c)),
    }
}

/// What the children of node `c` say, when it is an XML Schema `appinfo`.
pub open spec fn appinfo_annotation(ns: Seq<Node>, c: int) -> Option<AnnotationV> {
    if is_xs(ns[c].data, "appinfo"@) {
        Some(children_annotation(ns, c))
    } else {
        None
    }
}

/// The annotation that node `i` is: what its first `appinfo` says, merged
/// with what its own children say; nothing when it is no annotation.
pub open spec fn annotation_of(ns: Seq<Node>, i: int) -> Option<AnnotationV> {
    if is_xs(ns[i].data, "annotation"@) {
        let b = children_annotation(ns, i);
        Some(
            match first_some(children(ns, i), |c: int| appinfo_annotation(ns, c)) {
                Some(a) => merge_v(a, b),
                None => b,
            },
        )
    } else {
        None
    }
}

/// Merging annotations is associative.
pub proof fn lemma_merge_associative(a: AnnotationV, b: AnnotationV, c: AnnotationV)
    ensures
        merge_v(merge_v(a, b), c) == merge_v(a, merge_v(b, c)),
{
}

/// Merging an annotation with itself changes nothing.
pub proof fn lemma_merge_idempotent(a: AnnotationV)
    ensures
        merge_v(a, a) == a,
{
}

/// Whether the attribute `name` of `d` is `value`.
pub(crate) fn attr_equals(d: &NodeData, name: &str, value: &str) -> (r: bool)
    ensures
        r == attr_is(*d, name@, value@),
{
    match attr(d, name) {
        Some(v) => str_eq(v.as_str(), value),
        None => false,
    }
}

fn en_documentation_of(doc: &Document, c: usize) -> (r: Option<String>)
    requires
        c < doc.nodes@.len(),
    ensures
        opt_str(r) == en_documentation(doc.nodes@, c as int),
{
    let d = &doc.nodes[c].data;
    if node_is_xs(d, "documentation") && (attr_equals(d, "lang", "en") || d.attrs.len() == 0) {
        first_child_text_of(doc, c)
    } else {
        None
    }
}

fn required_documentation_of(doc: &Document, c: usize) -> (r: Option<bool>)
    requires
        c < doc.nodes@.len(),
    ensures
        r == required_documentation(doc.nodes@, c as int),
{
    let d = &doc.nodes[c].data;
    if node_is_in_ns(d, "documentation") && attr_equals(d, "source", "required") {
        match first_child_text_of(doc, c) {
            Some(r) => {
                let t = trim_str(r.as_str());
                if str_eq(t.as_str(), "true") {
                    Some(true)
                } else if str_eq(t.as_str(), "false") {
                    Some(false)
                } else {
                    None
                }
            },
            None => None,
        }
    } else {
        None
    }
}

fn content_type_child_of(doc: &Document, g: usize) -> (r: Option<String>)
    requires
        g < doc.nodes@.len(),
    ensures
        opt_str(r) == content_type_child(doc.nodes@, g as int),
{
    if node_is_in_ns(&doc.nodes[g].data, "content-type") {
        match first_child_text_of(doc, g) {
            Some(ct) => Some(trim_str(ct.as_str())),
            None => None,
        }
    } else {
        None
    }
}

fn appinfo_content_type_of(doc: &Document, c: usize) -> (r: Option<String>)
    requires
        c < doc.nodes@.len(),
    ensures
        opt_str(r) == appinfo_content_type(doc.nodes@, c as int),
{
    if !node_is_in_ns(&doc.nodes[c].data, "appinfo") {
        return None;
    }
    let ghost ns = doc.nodes@;
    let kids = doc.children(c);
    let ghost cs = ints(kids@);
    let ghost f = |g: int| content_type_child(ns, g);
    proof {
        lemma_subrange_ends(cs);
    }
    let mut k: usize = 0;
    while k < kids.len()
        invariant
            ns == doc.nodes@,
            cs == ints(kids@),
            cs == children(ns, c as int),
            f == (|g: int| content_type_child(ns, g)),
            c < ns.len(),
            is_in_ns(ns[c as int].data, "appinfo"@),
            forall|j: int| 0 <= j < kids@.len() ==> #[trigger] kids@[j] < ns.len(),
            k <= kids@.len(),
            first_some(cs, f) == first_some(cs.subrange(k as int, cs.len() as int), f),
        decreases kids@.len() - k,
    {
        let r = content_type_child_of(doc, kids[k]);
        assert(cs[k as int] == kids@[k as int] as int);
        match r {
            Some(ct) => {
                proof {
                    lemma_first_some_hit(cs, f, k as int);
                }
                return Some(ct);
            },
            None => {
                proof {
                    lemma_first_some_step(cs, f, k as int);
                }
            },
        }
        k = k + 1;
    }
    None
}

/// What the children of node `i` say: its English documentation (as
/// Markdown), whether it is required, deprecated or removed, and the content
/// type that an `appinfo` names.
pub fn children_annotation_of(doc: &Document, i: usize) -> (r: Annotation)
    requires
        i < doc.nodes@.len(),
    ensures
        annotation_view(r) == children_annotation(doc.nodes@, i as int),
{
    let ghost ns = doc.nodes@;
    let kids = doc.children(i);
    let ghost cs = ints(kids@);
    let ghost fd = |c: int| en_documentation(ns, c);
    let ghost fr = |c: int| required_documentation(ns, c);
    let ghost fc = |c: int| appinfo_content_type(ns, c);
    let ghost pd = |c: int| deprecated_documentation(ns, c);
    let ghost pr = |c: int| removed_marker(ns, c);
    proof {
        lemma_subrange_ends(cs);
    }
    let mut description: Option<String> = None;
    let mut required: Option<bool> = None;
    let mut content_type: Option<String> = None;
    let mut deprecated = false;
    let mut removed = false;
    let mut k: usize = 0;
    while k < kids.len()
        invariant
            ns == doc.nodes@,
            cs == ints(kids@),
            cs == children(ns, i as int),
            fd == (|c: int| en_documentation(ns, c)),
            fr == (|c: int| required_documentation(ns, c)),
            fc == (|c: int| appinfo_content_type(ns, c)),
            pd == (|c: int| deprecated_documentation(ns, c)),
            pr == (|c: int| removed_marker(ns, c)),
            forall|j: int| 0 <= j < kids@.len() ==> #[trigger] kids@[j] < ns.len(),
            k <= kids@.len(),
            description is Some ==> opt_str(description) == first_some(cs, fd),
            description is None ==> first_some(cs, fd) == first_some(
                cs.subrange(k as int, cs.len() as int),
                fd,
            ),
            required is Some ==> required == first_some(cs, fr),
            required is None ==> first_some(cs, fr) == first_some(
                cs.subrange(k as int, cs.len() as int),
                fr,
            ),
            content_type is Some ==> opt_str(content_type) == first_some(cs, fc),
            content_type is None ==> first_some(cs, fc) == first_some(
                cs.subrange(k as int, cs.len() as int),
                fc,
            ),
            deprecated == exists|j: int| 0 <= j < k && #[trigger] pd(cs[j]),
            removed == exists|j: int| 0 <= j < k && #[trigger] pr(cs[j]),
        decreases kids@.len() - k,
    {
        let c = kids[k];
        assert(cs[k as int] == c as int);
        if description.is_none() {
            let d = en_documentation_of(doc, c);
            if d.is_none() {
                proof {
                    lemma_first_some_step(cs, fd, k as int);
                }
            } else {
                proof {
                    lemma_first_some_hit(cs, fd, k as int);
                }
            }
            description = d;
        }
        if required.is_none() {
            let d = required_documentation_of(doc, c);
            if d.is_none() {
                proof {
                    lemma_first_some_step(cs, fr, k as int);
                }
            } else {
                proof {
                    lemma_first_some_hit(cs, fr, k as int);
                }
            }
            required = d;
        }
        if content_type.is_none() {
            let d = appinfo_content_type_of(doc, c);
            if d.is_none() {
                proof {
                    lemma_first_some_step(cs, fc, k as int);
                }
            } else {
                proof {
                    lemma_first_some_hit(cs, fc, k as int);
                }
            }
            content_type = d;
        }
        let dd = &doc.nodes[c].data;
        if node_is_in_ns(dd, "documentation") && attr_equals(dd, "source", "deprecated") {
            assert(pd(cs[k as int]));
            deprecated = true;
        }
        if (node_is_in_ns(dd, "documentation") && attr_equals(dd, "source", "removed-in")) || (
        node_is_in_ns(dd, "version") && attr(dd, "removed-in").is_some()) {
            assert(pr(cs[k as int]));
            removed = true;
        }
        k = k + 1;
    }
    let description = match description {
        Some(d) => Some(html_to_markdown(d.as_str())),
        None => None,
    };
    Annotation { description, required, deprecated, content_type, removed }
}

impl Annotation {
    /// This annotation merged with `b`: what it says, and what only `b` says.
    pub fn merge(self, b: Annotation) -> (r: Annotation)
        ensures
            annotation_view(r) == merge_v(annotation_view(self), annotation_view(b)),
    {
        Annotation {
            description: match self.description {
                Some(d) => Some(d),
                None => b.description,
            },
            content_type: match self.content_type {
                Some(c) => Some(c),
                None => b.content_type,
            },
            deprecated: self.deprecated || b.deprecated,
            required: match self.required {
                Some(r) => Some(r),
                None => b.required,
            },
            removed: self.removed || b.removed,
        }
    }

    /// Reads the annotation of node `i`: what its first `appinfo` says,
    /// merged with what its own children say.
    pub fn try_from(doc: &Document, i: usize) -> (r: Result<Annotation, AnnotationParseError>)
        requires
            i < doc.nodes@.len(),
        ensures
            match r {
                Ok(a) => annotation_of(doc.nodes@, i as int) == Some(annotation_view(a)),
                Err(_) => annotation_of(doc.nodes@, i as int) is None,
            },
    {
        if !node_is_xs(&doc.nodes[i].data, "annotation") {
            return Err(AnnotationParseError::NotAnnotationNode);
        }
        let ghost ns = doc.nodes@;
        let kids = doc.children(i);
        let ghost cs = ints(kids@);
        let ghost f = |c: int| appinfo_annotation(ns, c);
        proof {
            lemma_subrange_ends(cs);
        }
        let mut a: Option<Annotation> = None;
        let mut k: usize = 0;
        while k < kids.len()
            invariant
                ns == doc.nodes@,
                cs == ints(kids@),
                cs == children(ns, i as int),
                f == (|c: int| appinfo_annotation(ns, c)),
                forall|j: int| 0 <= j < kids@.len() ==> #[trigger] kids@[j] < ns.len(),
                k <= kids@.len(),
                a is None ==> first_some(cs, f) == first_some(cs.subrange(k as int, cs.len() as int), f),
                a matches Some(x) ==> first_some(cs, f) == Some(annotation_view(x)),
            decreases kids@.len() - k,
        {
            let c = kids[k];
            assert(cs[k as int] == c as int);
            if a.is_none() {
                if node_is_xs(&doc.nodes[c].data, "appinfo") {
                    proof {
                        lemma_first_some_hit(cs, f, k as int);
                    }
                    a = Some(children_annotation_of(doc, c));
                } else {
                    proof {
                        lemma_first_some_step(cs, f, k as int);
                    }
                }
            }
            k = k + 1;
        }
        let b = children_annotation_of(doc, i);
        match a {
            Some(a) => Ok(a.merge(b)),
            None => Ok(b),
        }
    }
}

} // verus!
