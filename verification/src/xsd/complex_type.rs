//! Complex types read on their own: annotation, name, the elements of their
//! sequences, and the type they extend.
use vstd::prelude::*;

use crate::openapi::{opt_str, opt_strs_view};
use crate::tree::{attr, attr_of, children, Document, Node};
use crate::xsd::annotation::{annotation_of, annotation_view, Annotation, AnnotationV};
use crate::xsd::sequence_element::{
    sequence_element_of, sequence_element_view, SequenceElement, SequenceElementV,
};
use crate::xsd::{
    all_some, concat_map, first_some, ints, is_xs, lemma_all_some_step, lemma_concat_map_step,
    lemma_first_some_hit, lemma_first_some_step, lemma_subrange_ends, node_is_xs,
};

verus! {

/// A complex type: its annotation, its name, the elements of its sequences
/// and the type it extends.
#[derive(Debug, PartialEq)]
pub struct ComplexType {
    pub annotation: Annotation,
    pub name: String,
    pub sequence_elements: Vec<SequenceElement>,
    pub parent: Option<String>,
}

/// Why a node is not a complex type that can be read.
#[derive(Debug, PartialEq)]
pub enum ComplexTypeParseError {
    NotComplexTypeNode,
    MissingName,
    MissingAnnotation,
}

/// A complex type as plain sequences.
pub struct ComplexTypeV {
    pub annotation: AnnotationV,
    pub name: Seq<char>,
    pub sequence_elements: Seq<SequenceElementV>,
    pub parent: Option<Seq<char>>,
}

pub open spec fn elements_view(v: Seq<SequenceElement>) -> Seq<SequenceElementV> {
    v.map_values(|e: SequenceElement| sequence_element_view(e))
}

pub open spec fn complex_type_view(t: ComplexType) -> ComplexTypeV {
    ComplexTypeV {
        annotation: annotation_view(t.annotation),
        name: t.name@,
        sequence_elements: elements_view(t.sequence_elements@),
        parent: opt_str(t.parent),
    }
}

/// The element of a sequence that node `c` is, when it can be read.
pub open spec fn element_ok(ns: Seq<Node>, c: int) -> Option<SequenceElementV> {
    match sequence_element_of(ns, c) {
        Ok(e) => Some(e),
        Err(_) => None,
    }
}

/// The elements among the children of node `p`.
pub open spec fn child_elements(ns: Seq<Node>, p: int) -> Seq<SequenceElementV> {
    all_some(children(ns, p), |c: int| element_ok(ns, c))
}

/// The elements that node `s` gives, when it is a `sequence`.
pub open spec fn sequence_part(ns: Seq<Node>, s: int) -> Seq<SequenceElementV> {
    if is_xs(ns[s].data, "sequence"@) {
        child_elements(ns, s)
    } else {
        Seq::empty()
    }
}

/// The elements that node `x` gives, when it is an `extension`: those of
/// its sequences, then its own.
pub open spec fn extension_elements(ns: Seq<Node>, x: int) -> Seq<SequenceElementV> {
    if is_xs(ns[x].data, "extension"@) {
        concat_map(children(ns, x), |c: int| sequence_part(ns, c)) + child_elements(ns, x)
    } else {
        Seq::empty()
    }
}

/// The elements that the child `c` of a complex type gives: those of a
/// `sequence`, or those of the extensions of a `complexContent`.
pub open spec fn content_elements(ns: Seq<Node>, c: int) -> Seq<SequenceElementV> {
    if is_xs(ns[c].data, "sequence"@) {
        child_elements(ns, c)
    } else if is_xs(ns[c].data, "complexContent"@) {
        concat_map(children(ns, c), |x: int| extension_elements(ns, x))
    } else {
        Seq::empty()
    }
}

/// The base that node `x` names, when it is an `extension` (which may name
/// none).
pub open spec fn extension_base(ns: Seq<Node>, x: int) -> Option<Option<Seq<char>>> {
    if is_xs(ns[x].data, "extension"@) {
        Some(opt_str(attr_of(ns[x].data, "base"@)))
    } else {
        None
    }
}

/// The bases of the extensions of the child `c`, when it is a
/// `complexContent`.
pub open spec fn content_bases(ns: Seq<Node>, c: int) -> Seq<Option<Seq<char>>> {
    if is_xs(ns[c].data, "complexContent"@) {
        all_some(children(ns, c), |x: int| extension_base(ns, x))
    } else {
        Seq::empty()
    }
}

/// The base of the last extension, when there is one.
pub open spec fn last_base(bs: Seq<Option<Seq<char>>>) -> Option<Seq<char>> {
    if bs.len() == 0 {
        None
    } else {
        bs.last()
    }
}

/// The complex type that node `i` is.
pub open spec fn complex_type_of(ns: Seq<Node>, i: int) -> Result<ComplexTypeV, ComplexTypeParseError> {
    if !is_xs(ns[i].data, "complexType"@) {
        Err(ComplexTypeParseError::NotComplexTypeNode)
    } else {
        match attr_of(ns[i].data, "name"@) {
            None => Err(ComplexTypeParseError::MissingName),
            Some(n) => {
                let cs = children(ns, i);
                match first_some(cs, |c: int| annotation_of(ns, c)) {
                    None => Err(ComplexTypeParseError::MissingAnnotation),
                    Some(a) => Ok(
                        ComplexTypeV {
                            annotation: a,
                            name: n@,
                            sequence_elements: concat_map(cs, |c: int| content_elements(ns, c)),
                            parent: last_base(concat_map(cs, |c: int| content_bases(ns, c))),
                        },
                    ),
                }
            },
        }
    }
}

proof fn lemma_elements_view_append(a: Seq<SequenceElement>, b: Seq<SequenceElement>)
    ensures
        elements_view(a + b) == elements_view(a) + elements_view(b),
{
    assert(elements_view(a + b) =~= elements_view(a) + elements_view(b));
}

proof fn lemma_assoc<T>(a: Seq<T>, b: Seq<T>, c: Seq<T>)
    ensures
        a + b + c == a + (b + c),
{
    assert(a + b + c =~= a + (b + c));
}

/// The elements among the children of node `p`.
fn elements_of_children(doc: &Document, p: usize) -> (r: Vec<SequenceElement>)
    requires
        p < doc.nodes@.len(),
    ensures
        elements_view(r@) == child_elements(doc.nodes@, p as int),
{
    let ghost ns = doc.nodes@;
    let kids = doc.children(p);
    let ghost cs = ints(kids@);
    let ghost f = |c: int| element_ok(ns, c);
    proof {
        lemma_subrange_ends(cs);
    }
    let mut r: Vec<SequenceElement> = Vec::new();
    let mut k: usize = 0;
    while k < kids.len()
        invariant
            ns == doc.nodes@,
            cs == ints(kids@),
            cs == children(ns, p as int),
            f == (|c: int| element_ok(ns, c)),
            forall|j: int| 0 <= j < kids@.len() ==> #[trigger] kids@[j] < ns.len(),
            k <= kids@.len(),
            all_some(cs, f) == elements_view(r@) + all_some(cs.subrange(k as int, cs.len() as int), f),
        decreases kids@.len() - k,
    {
        let c = kids[k];
        assert(cs[k as int] == c as int);
        proof {
            lemma_all_some_step(cs, f, k as int);
        }
        match SequenceElement::try_from(doc, c) {
            Ok(x) => {
                proof {
                    assert(elements_view(r@.push(x)) =~= elements_view(r@) + seq![sequence_element_view(x)]);
                    lemma_assoc(
                        elements_view(r@),
                        seq![sequence_element_view(x)],
                        all_some(cs.subrange(k + 1, cs.len() as int), f),
                    );
                }
                r.push(x);
            },
            Err(_) => {},
        }
        k = k + 1;
    }
    assert(elements_view(r@) + Seq::<SequenceElementV>::empty() =~= elements_view(r@));
    r
}

/// The elements that node `x` gives, when it is an `extension`.
fn elements_of_extension(doc: &Document, x: usize) -> (r: Vec<SequenceElement>)
    requires
        x < doc.nodes@.len(),
    ensures
        elements_view(r@) == extension_elements(doc.nodes@, x as int),
{
    let ghost ns = doc.nodes@;
    if !node_is_xs(&doc.nodes[x].data, "extension") {
        let r: Vec<SequenceElement> = Vec::new();
        assert(elements_view(r@) =~= Seq::<SequenceElementV>::empty());
        return r;
    }
    let kids = doc.children(x);
    let ghost cs = ints(kids@);
    let ghost f = |c: int| sequence_part(ns, c);
    proof {
        lemma_subrange_ends(cs);
    }
    let mut r: Vec<SequenceElement> = Vec::new();
    let mut k: usize = 0;
    while k < kids.len()
        invariant
            ns == doc.nodes@,
            cs == ints(kids@),
            cs == children(ns, x as int),
            f == (|c: int| sequence_part(ns, c)),
            forall|j: int| 0 <= j < kids@.len() ==> #[trigger] kids@[j] < ns.len(),
            k <= kids@.len(),
            concat_map(cs, f) == elements_view(r@) + concat_map(cs.subrange(k as int, cs.len() as int), f),
        decreases kids@.len() - k,
    {
        let c = kids[k];
        assert(cs[k as int] == c as int);
        proof {
            lemma_concat_map_step(cs, f, k as int);
        }
        let mut part: Vec<SequenceElement> = if node_is_xs(&doc.nodes[c].data, "sequence") {
            elements_of_children(doc, c)
        } else {
            let e: Vec<SequenceElement> = Vec::new();
            assert(elements_view(e@) =~= Seq::<SequenceElementV>::empty());
            e
        };
        proof {
            lemma_elements_view_append(r@, part@);
            lemma_assoc(elements_view(r@), elements_view(part@), concat_map(cs.subrange(k + 1, cs.len() as int), f));
        }
        r.append(&mut part);
        k = k + 1;
    }
    assert(elements_view(r@) + Seq::<SequenceElementV>::empty() =~= elements_view(r@));
    let mut own = elements_of_children(doc, x);
    proof {
        lemma_elements_view_append(r@, own@);
    }
    r.append(&mut own);
    r
}

/// The elements and the extension bases that the child `c` of a complex
/// type gives.
fn content_of_child(doc: &Document, c: usize) -> (r: (Vec<SequenceElement>, Vec<Option<String>>))
    requires
        c < doc.nodes@.len(),
    ensures
        elements_view(r.0@) == content_elements(doc.nodes@, c as int),
        opt_strs_view(r.1@) == content_bases(doc.nodes@, c as int),
{
    let ghost ns = doc.nodes@;
    let d = &doc.nodes[c].data;
    if node_is_xs(d, "sequence") {
        proof {
            reveal_strlit("sequence");
            reveal_strlit("complexContent");
            assert("sequence"@.len() != "complexContent"@.len());
        }
        let b: Vec<Option<String>> = Vec::new();
        assert(opt_strs_view(b@) =~= Seq::<Option<Seq<char>>>::empty());
        return (elements_of_children(doc, c), b);
    }
    if !node_is_xs(d, "complexContent") {
        let e: Vec<SequenceElement> = Vec::new();
        let b: Vec<Option<String>> = Vec::new();
        assert(elements_view(e@) =~= Seq::<SequenceElementV>::empty());
        assert(opt_strs_view(b@) =~= Seq::<Option<Seq<char>>>::empty());
        return (e, b);
    }
    let kids = doc.children(c);
    let ghost cs = ints(kids@);
    let ghost f = |x: int| extension_elements(ns, x);
    let ghost g = |x: int| extension_base(ns, x);
    proof {
        lemma_subrange_ends(cs);
    }
    let mut r: Vec<SequenceElement> = Vec::new();
    let mut bases: Vec<Option<String>> = Vec::new();
    let mut k: usize = 0;
    while k < kids.len()
        invariant
            ns == doc.nodes@,
            cs == ints(kids@),
            cs == children(ns, c as int),
            f == (|x: int| extension_elements(ns, x)),
            g == (|x: int| extension_base(ns, x)),
            forall|j: int| 0 <= j < kids@.len() ==> #[trigger] kids@[j] < ns.len(),
            k <= kids@.len(),
            concat_map(cs, f) == elements_view(r@) + concat_map(cs.subrange(k as int, cs.len() as int), f),
            all_some(cs, g) == opt_strs_view(bases@) + all_some(cs.subrange(k as int, cs.len() as int), g),
        decreases kids@.len() - k,
    {
        let x = kids[k];
        assert(cs[k as int] == x as int);
        proof {
            lemma_concat_map_step(cs, f, k as int);
            lemma_all_some_step(cs, g, k as int);
        }
        let mut part = elements_of_extension(doc, x);
        proof {
            lemma_elements_view_append(r@, part@);
            lemma_assoc(elements_view(r@), elements_view(part@), concat_map(cs.subrange(k + 1, cs.len() as int), f));
        }
        r.append(&mut part);
        let xd = &doc.nodes[x].data;
        if node_is_xs(xd, "extension") {
            let b = match attr(xd, "base") {
                Some(s) => Some(s.clone()),
                None => None,
            };
            proof {
                assert(opt_strs_view(bases@.push(b)) =~= opt_strs_view(bases@) + seq![opt_str(b)]);
                lemma_assoc(
                    opt_strs_view(bases@),
                    seq![opt_str(b)],
                    all_some(cs.subrange(k + 1, cs.len() as int), g),
                );
            }
            bases.push(b);
        }
        k = k + 1;
    }
    assert(elements_view(r@) + Seq::<SequenceElementV>::empty() =~= elements_view(r@));
    assert(opt_strs_view(bases@) + Seq::<Option<Seq<char>>>::empty() =~= opt_strs_view(bases@));
    (r, bases)
}

/// The first annotation among the children of node `i`.
fn first_annotation_of_children(doc: &Document, i: usize) -> (r: Option<Annotation>)
    requires
        i < doc.nodes@.len(),
    ensures
        match r {
            Some(a) => first_some(children(doc.nodes@, i as int), |c: int| annotation_of(doc.nodes@, c))
                == Some(annotation_view(a)),
            None => first_some(children(doc.nodes@, i as int), |c: int| annotation_of(doc.nodes@, c)) is None,
        },
{
    let ghost ns = doc.nodes@;
    let kids = doc.children(i);
    let ghost cs = ints(kids@);
    let ghost f = |c: int| annotation_of(ns, c);
    proof {
        lemma_subrange_ends(cs);
    }
    let mut k: usize = 0;
    while k < kids.len()
        invariant
            ns == doc.nodes@,
            cs == ints(kids@),
            cs == children(ns, i as int),
            f == (|c: int| annotation_of(ns, c)),
            forall|j: int| 0 <= j < kids@.len() ==> #[trigger] kids@[j] < ns.len(),
            k <= kids@.len(),
            first_some(cs, f) == first_some(cs.subrange(k as int, cs.len() as int), f),
        decreases kids@.len() - k,
    {
        let c = kids[k];
        assert(cs[k as int] == c as int);
        match Annotation::try_from(doc, c) {
            Ok(a) => {
                proof {
                    lemma_first_some_hit(cs, f, k as int);
                }
                return Some(a);
            },
            Err(_) => {
                proof {
                    lemma_first_some_step(cs, f, k as int);
                }
            },
        }
        k = k + 1;
    }
    None
}

impl ComplexType {
    /// Reads the complex type that node `i` is.
    pub fn try_from(doc: &Document, i: usize) -> (r: Result<ComplexType, ComplexTypeParseError>)
        requires
            i < doc.nodes@.len(),
        ensures
            match r {
                Ok(t) => complex_type_of(doc.nodes@, i as int) == Ok::<ComplexTypeV, ComplexTypeParseError>(
                    complex_type_view(t),
                ),
                Err(e) => complex_type_of(doc.nodes@, i as int) == Err::<ComplexTypeV, ComplexTypeParseError>(e),
            },
    {
        let ghost ns = doc.nodes@;
        let d = &doc.nodes[i].data;
        if !node_is_xs(d, "complexType") {
            return Err(ComplexTypeParseError::NotComplexTypeNode);
        }
        let name = match attr(d, "name") {
            Some(n) => n.clone(),
            None => {
                return Err(ComplexTypeParseError::MissingName);
            },
        };
        let annotation = match first_annotation_of_children(doc, i) {
            Some(a) => a,
            None => {
                return Err(ComplexTypeParseError::MissingAnnotation);
            },
        };
        let kids = doc.children(i);
        let ghost cs = ints(kids@);
        let ghost f = |c: int| content_elements(ns, c);
        let ghost g = |c: int| content_bases(ns, c);
        proof {
            lemma_subrange_ends(cs);
        }
        let mut elements: Vec<SequenceElement> = Vec::new();
        let mut bases: Vec<Option<String>> = Vec::new();
        let mut k: usize = 0;
        while k < kids.len()
            invariant
                ns == doc.nodes@,
                cs == ints(kids@),
                cs == children(ns, i as int),
                f == (|c: int| content_elements(ns, c)),
                g == (|c: int| content_bases(ns, c)),
                forall|j: int| 0 <= j < kids@.len() ==> #[trigger] kids@[j] < ns.len(),
                k <= kids@.len(),
                concat_map(cs, f) == elements_view(elements@) + concat_map(cs.subrange(k as int, cs.len() as int), f),
                concat_map(cs, g) == opt_strs_view(bases@) + concat_map(cs.subrange(k as int, cs.len() as int), g),
            decreases kids@.len() - k,
        {
            let c = kids[k];
            assert(cs[k as int] == c as int);
            proof {
                lemma_concat_map_step(cs, f, k as int);
                lemma_concat_map_step(cs, g, k as int);
            }
            let (mut part, mut part_bases) = content_of_child(doc, c);
            proof {
                lemma_elements_view_append(elements@, part@);
                lemma_assoc(
                    elements_view(elements@),
                    elements_view(part@),
                    concat_map(cs.subrange(k + 1, cs.len() as int), f),
                );
                assert(opt_strs_view(bases@ + part_bases@) =~= opt_strs_view(bases@) + opt_strs_view(part_bases@));
                lemma_assoc(
                    opt_strs_view(bases@),
                    opt_strs_view(part_bases@),
                    concat_map(cs.subrange(k + 1, cs.len() as int), g),
                );
            }
            elements.append(&mut part);
            bases.append(&mut part_bases);
            k = k + 1;
        }
        assert(elements_view(elements@) + Seq::<SequenceElementV>::empty() =~= elements_view(elements@));
        assert(opt_strs_view(bases@) + Seq::<Option<Seq<char>>>::empty() =~= opt_strs_view(bases@));
        let n = bases.len();
        let parent = if n == 0 {
            None
        } else {
            bases[n - 1].clone()
        };
        proof {
            assert(opt_strs_view(bases@).len() == n);
            if n > 0 {
                assert(opt_strs_view(bases@).last() == opt_str(bases@[n - 1]));
            }
        }
        Ok(ComplexType { annotation, name, sequence_elements: elements, parent })
    }
}

} // verus!
