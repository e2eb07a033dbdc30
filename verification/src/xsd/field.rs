//! The fields of an object type: its `element`s and `attribute`s.
use vstd::prelude::*;

use crate::numeral::{parse_u32, parse_u32_spec};
use crate::openapi::{
    data_view, empty_data_v, opt_str, ref_view, schema_view, type_view, Schema, SchemaData,
    SchemaDataV, SchemaKind, SchemaKindV, SchemaRef, SchemaRefV, SchemaType, SchemaTypeV, SchemaV,
};
use crate::text::{ascii_lower, concat, find_seq_from, find_str, str_eq};
use crate::tree::{attr, attr_of, children, Document, Node, NodeData, NodeKind};
use crate::xsd::annotation::{annotation_of, annotation_view, Annotation, AnnotationV};
use crate::xsd::primitive_type::{clone_opt, primitive_type_v, RestrictedPrimitiveType};
use crate::xsd::simple_type::{
    first_annotation, ns_view, opt_annotation_view, simple_or_ref_of, simple_or_ref_view, simple_type_of,
    simple_view, str_to_simple_type_or_reference, RefOrV, SimpleType, SimpleTypeV,
};
use crate::xsd::{
    first_some, ints, is_xs, lemma_first_some_hit, lemma_first_some_step, lemma_subrange_ends,
    node_is_xs, ReferenceOr,
};

verus! {

/// How many times a field may occur.
#[derive(Debug, PartialEq, Eq, Structural, Clone, Copy)]
pub enum Occurrences {
    Optional,
    One,
    Array,
}

/// A field of an object type.
#[derive(Debug, PartialEq)]
pub struct Field {
    pub annotation: Option<Annotation>,
    pub name: String,
    pub field_type: ReferenceOr<SimpleType>,
    pub occurrences: Occurrences,
}

/// Why a node is not a field that can be read.
#[derive(Debug, PartialEq)]
pub enum FieldParseError {
    MissingName,
    MissingType,
    NotFieldNode,
    Removed,
}

/// A field as plain sequences.
pub struct FieldV {
    pub annotation: Option<AnnotationV>,
    pub name: Seq<char>,
    pub field_type: RefOrV<SimpleTypeV>,
    pub occurrences: Occurrences,
}

pub open spec fn field_view(f: Field) -> FieldV {
    FieldV {
        annotation: opt_annotation_view(f.annotation),
        name: f.name@,
        field_type: simple_or_ref_view(f.field_type),
        occurrences: f.occurrences,
    }
}

/// The lower case of a character, as `char::to_lowercase` gives it.
pub uninterp spec fn char_lowercase(c: char) -> Seq<char>;

/// Calls `char::to_lowercase` on `c` and collects the characters it yields.
/// The contract claims that the result depends on `c` alone, and that an
/// ASCII character gives one character: its ASCII lower case (`A` to `Z`
/// become `a` to `z`, the rest stay). What other characters give is left
/// to the name.
#[verifier::external_body]
fn lowercase_of(c: char) -> (r: String)
    ensures
        r@ == char_lowercase(c),
        (c as u32) < 128 ==> r@.len() == 1 && r@[0] as u32 == ascii_lower(c),
{
    c.to_lowercase().collect::<String>()
}

/// `s` with its first character in lower case.
pub open spec fn decapitalized(s: Seq<char>) -> Seq<char> {
    if s.len() == 0 {
        s
    } else {
        char_lowercase(s[0]) + s.drop_first()
    }
}

/// `s` with its first character in lower case.
pub fn decapitalize(s: &str) -> (r: String)
    ensures
        r@ == decapitalized(s@),
        s@.len() > 0 && (s@[0] as u32) < 128 ==> {
            &&& r@.len() == s@.len()
            &&& r@[0] as u32 == ascii_lower(s@[0])
            &&& r@.drop_first() == s@.drop_first()
        },
{
    let n = s.unicode_len();
    if n == 0 {
        return String::new();
    }
    let first = lowercase_of(s.get_char(0));
    let rest = s.substring_char(1, n);
    assert(rest@ =~= s@.drop_first());
    let r = concat(first.as_str(), rest);
    proof {
        if (s@[0] as u32) < 128 {
            assert(r@.drop_first() =~= s@.drop_first());
        }
    }
    r
}

/// How many times the field of element `d` may occur, from its `minOccurs`
/// and `maxOccurs`.
pub open spec fn occurrences_of(d: NodeData) -> Occurrences {
    let min = opt_str(attr_of(d, "minOccurs"@));
    let max = opt_str(attr_of(d, "maxOccurs"@));
    if min == Some("1"@) && (max == Some("1"@) || max is None) {
        Occurrences::One
    } else if min == Some("0"@) && (max == Some("1"@) || max is None) {
        Occurrences::Optional
    } else if max == Some("unbounded"@) || (min is Some && max is None) {
        Occurrences::Array
    } else if min is Some && (max matches Some(m) && parse_u32_spec(m) matches Some(v) && v > 1) {
        Occurrences::Array
    } else {
        Occurrences::One
    }
}

/// How many times the field of node data `d` may occur.
pub fn get_occurrences(d: &NodeData) -> (r: Occurrences)
    ensures
        r == occurrences_of(*d),
{
    let min = attr(d, "minOccurs");
    let max = attr(d, "maxOccurs");
    let min_is = |v: &str| -> (b: bool)
        ensures
            b == (opt_str(attr_of(*d, "minOccurs"@)) == Some(v@)),
        {
            match min {
                Some(m) => str_eq(m.as_str(), v),
                None => false,
            }
        };
    let max_is = |v: &str| -> (b: bool)
        ensures
            b == (opt_str(attr_of(*d, "maxOccurs"@)) == Some(v@)),
        {
            match max {
                Some(m) => str_eq(m.as_str(), v),
                None => false,
            }
        };
    if min_is("1") && (max_is("1") || max.is_none()) {
        Occurrences::One
    } else if min_is("0") && (max_is("1") || max.is_none()) {
        Occurrences::Optional
    } else if max_is("unbounded") || (min.is_some() && max.is_none()) {
        Occurrences::Array
    } else {
        let many = match max {
            Some(m) => match parse_u32(m.as_str()) {
                Some(v) => v > 1,
                None => false,
            },
            None => false,
        };
        if min.is_some() && many {
            Occurrences::Array
        } else {
            Occurrences::One
        }
    }
}

/// The simple type that node `c` is, when it is one that can be read.
pub open spec fn simple_ok(nsp: Option<Seq<char>>, ns: Seq<Node>, c: int) -> Option<SimpleTypeV> {
    match simple_type_of(nsp, ns, c) {
        Ok(t) => Some(t),
        Err(_) => None,
    }
}

/// Whether the element `d` of a schema is the one that the reference `r`
/// names.
pub open spec fn ref_matches(r: Seq<char>, d: NodeData) -> bool {
    &&& d.kind == NodeKind::Element
    &&& match attr_of(d, "name"@) {
        None => false,
        Some(name) => match find_seq_from(r, ":"@, 0) {
            Some(i) => {
                let p = r.subrange(0, i);
                let tn = r.subrange(i + 1, r.len() as int);
                if p == "class"@ && tn == name@ {
                    true
                } else if tn == name@ {
                    match attr_of(d, "type"@) {
                        Some(t) => match find_seq_from(t@, ":"@, 0) {
                            Some(j) => t@.subrange(0, j) == p,
                            None => false,
                        },
                        None => false,
                    }
                } else {
                    false
                }
            },
            None => r == name@,
        },
    }
}

/// The name and type of the element that the reference `r` names in the
/// schema `doc`: its simple type, or the type its `type` names.
pub open spec fn ref_type_in(nsp: Option<Seq<char>>, r: Seq<char>, doc: Seq<Node>) -> Option<
    (Seq<char>, RefOrV<SimpleTypeV>),
> {
    if doc.len() == 0 || doc[0].data.kind != NodeKind::Element {
        None
    } else {
        match first_some(
            children(doc, 0),
            |c: int|
                if ref_matches(r, doc[c].data) {
                    Some(c)
                } else {
                    None
                },
        ) {
            None => None,
            Some(c) => match attr_of(doc[c].data, "name"@) {
                None => None,
                Some(name) => match simple_type_of(nsp, doc, c) {
                    Ok(t) => Some((name@, RefOrV::Item(t))),
                    Err(_) => match attr_of(doc[c].data, "type"@) {
                        Some(t) => Some((name@, simple_or_ref_of(nsp, t@, None))),
                        None => None,
                    },
                },
            },
        }
    }
}

/// The name and type of the element that the reference `r` names, in the
/// first of the schemas `types` (from index `k` on) where it is found.
pub open spec fn ref_lookup(nsp: Option<Seq<char>>, r: Seq<char>, types: Seq<Seq<Node>>, k: int) -> Option<
    (Seq<char>, RefOrV<SimpleTypeV>),
>
    decreases types.len() - k,
{
    if k < 0 || k >= types.len() {
        None
    } else {
        match ref_type_in(nsp, r, types[k]) {
            Some(x) => Some(x),
            None => ref_lookup(nsp, r, types, k + 1),
        }
    }
}

/// The field that an `element` or `attribute` node `i` is, in the namespace
/// `nsp`, with the schemas `types` to look references up in.
pub open spec fn field_of(nsp: Option<Seq<char>>, ns: Seq<Node>, i: int, types: Seq<Seq<Node>>) -> Result<
    FieldV,
    FieldParseError,
> {
    let d = ns[i].data;
    let cs = children(ns, i);
    let annotation = first_some(cs, |c: int| annotation_of(ns, c));
    let own_simple = first_simple_of(nsp, ns, i);
    if is_xs(d, "element"@) {
        let from_ref = match attr_of(d, "ref"@) {
            Some(r) => ref_lookup(nsp, r@, types, 0),
            None => None,
        };
        let own_type = match own_simple {
            Some(t) => Some(RefOrV::Item(t)),
            None => match attr_of(d, "type"@) {
                Some(t) => Some(simple_or_ref_of(nsp, t@, None)),
                None => None,
            },
        };
        let own = match own_type {
            Some(t) => match attr_of(d, "name"@) {
                Some(n) => Some((n@, t)),
                None => None,
            },
            None => None,
        };
        let found = match from_ref {
            Some(x) => Some(x),
            None => own,
        };
        match found {
            None => Err(FieldParseError::MissingType),
            Some((name, t)) => match annotation {
                Some(a) => if a.removed {
                    Err(FieldParseError::Removed)
                } else {
                    Ok(
                        FieldV {
                            annotation: Some(a),
                            name: decapitalized(name),
                            field_type: t,
                            occurrences: occurrences_of(d),
                        },
                    )
                },
                None => Ok(
                    FieldV {
                        annotation: None,
                        name: decapitalized(name),
                        field_type: t,
                        occurrences: occurrences_of(d),
                    },
                ),
            },
        }
    } else if is_xs(d, "attribute"@) {
        match attr_of(d, "name"@) {
            None => Err(FieldParseError::MissingName),
            Some(n) => {
                let t = match own_simple {
                    Some(t) => Some(RefOrV::Item(t)),
                    None => match attr_of(d, "type"@) {
                        Some(t) => Some(simple_or_ref_of(nsp, t@, None)),
                        None => None,
                    },
                };
                match t {
                    None => Err(FieldParseError::MissingType),
                    Some(t) => Ok(
                        FieldV {
                            annotation,
                            name: decapitalized(n@),
                            field_type: t,
                            occurrences: if crate::xsd::annotation::attr_is(d, "use"@, "required"@) {
                                Occurrences::One
                            } else {
                                Occurrences::Optional
                            },
                        },
                    ),
                }
            },
        }
    } else {
        Err(FieldParseError::NotFieldNode)
    }
}

/// The OpenAPI schema of a field, or the reference to it: its type (a
/// built-in type's schema, or a reference to a schema of the components),
/// as an array when it may occur many times, with its description and
/// whether it is deprecated.
pub open spec fn field_schema_v(f: FieldV) -> SchemaRefV {
    let data = SchemaDataV {
        nullable: false,
        read_only: false,
        deprecated: match f.annotation {
            Some(a) => a.deprecated,
            None => false,
        },
        title: None,
        description: match f.annotation {
            Some(a) => a.description,
            None => None,
        },
        discriminator: None,
    };
    match f.field_type {
        RefOrV::Item(s) => {
            let t = primitive_type_v(s.parent, s.pattern, s.enumeration, s.min_inclusive);
            if f.occurrences == Occurrences::Array {
                SchemaRefV::Item(
                    Box::new(
                        SchemaV {
                            data,
                            kind: SchemaKindV::Type(
                                SchemaTypeV::Array(
                                    Some(
                                        Box::new(
                                            SchemaRefV::Item(
                                                Box::new(
                                                    SchemaV {
                                                        data: empty_data_v(),
                                                        kind: SchemaKindV::Type(t),
                                                    },
                                                ),
                                            ),
                                        ),
                                    ),
                                ),
                            ),
                        },
                    ),
                )
            } else {
                SchemaRefV::Item(Box::new(SchemaV { data, kind: SchemaKindV::Type(t) }))
            }
        },
        RefOrV::Reference(r) => {
            let reference = "#/components/schemas/"@ + r;
            if f.occurrences == Occurrences::Array {
                SchemaRefV::Item(
                    Box::new(
                        SchemaV {
                            data,
                            kind: SchemaKindV::Type(
                                SchemaTypeV::Array(Some(Box::new(SchemaRefV::Reference(reference)))),
                            ),
                        },
                    ),
                )
            } else {
                SchemaRefV::Reference(reference)
            }
        },
    }
}

/// A field that may occur many times gets an array schema whose items are
/// its type: the reference to the schema of the type it names, or a schema
/// of its built-in type. A field of a named type that occurs at most once
/// gets the bare reference.
pub proof fn lemma_field_schema_arrays(f: FieldV)
    ensures
        f.occurrences == Occurrences::Array ==> match f.field_type {
            RefOrV::Reference(r) => field_schema_v(f) matches SchemaRefV::Item(s) && s.kind == SchemaKindV::Type(
                SchemaTypeV::Array(Some(Box::new(SchemaRefV::Reference("#/components/schemas/"@ + r)))),
            ),
            RefOrV::Item(t) => field_schema_v(f) matches SchemaRefV::Item(s) && s.kind matches SchemaKindV::Type(
                SchemaTypeV::Array(Some(items)),
            ) && *items matches SchemaRefV::Item(i) && i.kind == SchemaKindV::Type(
                primitive_type_v(t.parent, t.pattern, t.enumeration, t.min_inclusive),
            ),
        },
        f.occurrences != Occurrences::Array ==> (f.field_type matches RefOrV::Reference(r) ==> field_schema_v(f)
            == SchemaRefV::Reference("#/components/schemas/"@ + r)),
{
}

/// The first child of node `i` that is a simple type that can be read.
pub fn first_simple_type(ns: Option<&str>, doc: &Document, i: usize) -> (r: Option<SimpleType>)
    requires
        i < doc.nodes@.len(),
    ensures
        match r {
            Some(t) => first_simple_of(ns_view(ns), doc.nodes@, i as int) == Some(simple_view(t)),
            None => first_simple_of(ns_view(ns), doc.nodes@, i as int) is None,
        },
{
    let ghost nsv = ns_view(ns);
    let ghost nodes = doc.nodes@;
    let kids = doc.children(i);
    let ghost cs = ints(kids@);
    let ghost f = |c: int| simple_ok(nsv, nodes, c);
    proof {
        lemma_subrange_ends(cs);
    }
    let mut k: usize = 0;
    while k < kids.len()
        invariant
            nodes == doc.nodes@,
            nsv == ns_view(ns),
            cs == ints(kids@),
            cs == children(nodes, i as int),
            f == (|c: int| simple_ok(nsv, nodes, c)),
            forall|j: int| 0 <= j < kids@.len() ==> #[trigger] kids@[j] < nodes.len(),
            k <= kids@.len(),
            first_some(cs, f) == first_some(cs.subrange(k as int, cs.len() as int), f),
        decreases kids@.len() - k,
    {
        let c = kids[k];
        assert(cs[k as int] == c as int);
        match SimpleType::try_from(ns, doc, c) {
            Ok(t) => {
                proof {
                    lemma_first_some_hit(cs, f, k as int);
                }
                return Some(t);
            },
            Err(_) => {
                proof {
                    lemma_first_some_step(cs, f, k as int);
                }
            },
        }
        k = k + 1;
    }
    None
}

/// The first child of node `i` that is a simple type that can be read.
pub open spec fn first_simple_of(nsp: Option<Seq<char>>, ns: Seq<Node>, i: int) -> Option<SimpleTypeV> {
    first_some(children(ns, i), |c: int| simple_ok(nsp, ns, c))
}

/// Whether the element data `d` is the one that the reference `r` names.
fn ref_matches_node(r: &str, d: &NodeData) -> (b: bool)
    ensures
        b == ref_matches(r@, *d),
{
    match d.kind {
        NodeKind::Element => {},
        _ => {
            return false;
        },
    }
    let name = match attr(d, "name") {
        Some(n) => n,
        None => {
            return false;
        },
    };
    proof {
        reveal_strlit(":");
    }
    match find_str(r, ":") {
        Some(i) => {
            proof {
                crate::text::lemma_find_bound(r@, ":"@, 0);
            }
            let n = r.unicode_len();
            let p = r.substring_char(0, i);
            let tn = r.substring_char(i + 1, n);
            if str_eq(p, "class") && str_eq(tn, name.as_str()) {
                true
            } else if str_eq(tn, name.as_str()) {
                match attr(d, "type") {
                    Some(t) => match find_str(t.as_str(), ":") {
                        Some(j) => {
                            proof {
                                crate::text::lemma_find_bound(t@, ":"@, 0);
                            }
                            str_eq(t.as_str().substring_char(0, j), p)
                        },
                        None => false,
                    },
                    None => false,
                }
            } else {
                false
            }
        },
        None => str_eq(r, name.as_str()),
    }
}

/// The name and type of the element that the reference `r` names in the
/// schema `tdoc`.
fn ref_type_in_doc(ns: Option<&str>, r: &str, tdoc: &Document) -> (x: Option<(String, ReferenceOr<SimpleType>)>)
    ensures
        match x {
            Some((n, t)) => ref_type_in(
                ns_view(ns),
                r@,
                tdoc.nodes@,
            ) == Some((n@, simple_or_ref_view(t))),
            None => ref_type_in(
                ns_view(ns),
                r@,
                tdoc.nodes@,
            ) is None,
        },
{
    if tdoc.nodes.len() == 0 {
        return None;
    }
    match tdoc.nodes[0].data.kind {
        NodeKind::Element => {},
        _ => {
            return None;
        },
    }
    let ghost nodes = tdoc.nodes@;
    assert(nodes[0].data.kind == NodeKind::Element);
    let kids = tdoc.children(0);
    let ghost cs = ints(kids@);
    let ghost f = |c: int|
        if ref_matches(r@, nodes[c].data) {
            Some(c)
        } else {
            None
        };
    proof {
        lemma_subrange_ends(cs);
    }
    let mut k: usize = 0;
    while k < kids.len()
        invariant
            nodes == tdoc.nodes@,
            cs == ints(kids@),
            cs == children(nodes, 0),
            nodes.len() > 0,
            nodes[0].data.kind == NodeKind::Element,
            f == (|c: int|
                if ref_matches(r@, nodes[c].data) {
                    Some(c)
                } else {
                    None
                }),
            forall|j: int| 0 <= j < kids@.len() ==> #[trigger] kids@[j] < nodes.len(),
            k <= kids@.len(),
            first_some(cs, f) == first_some(cs.subrange(k as int, cs.len() as int), f),
        decreases kids@.len() - k,
    {
        let c = kids[k];
        assert(cs[k as int] == c as int);
        let d = &tdoc.nodes[c].data;
        if ref_matches_node(r, d) {
            proof {
                lemma_first_some_hit(cs, f, k as int);
            }
            let name = match attr(d, "name") {
                Some(n) => n.clone(),
                None => {
                    return None;
                },
            };
            return match SimpleType::try_from(ns, tdoc, c) {
                Ok(t) => Some((name, ReferenceOr::Item(t))),
                Err(_) => match attr(d, "type") {
                    Some(t) => Some((name, str_to_simple_type_or_reference(ns, t.as_str(), None))),
                    None => None,
                },
            };
        }
        proof {
            lemma_first_some_step(cs, f, k as int);
        }
        k = k + 1;
    }
    None
}

/// The name and type of the element that the reference `r` names, in the
/// first of the schemas `types` where it is found.
fn ref_lookup_in(ns: Option<&str>, r: &str, types: &Vec<Document>) -> (x: Option<(String, ReferenceOr<SimpleType>)>)
    ensures
        match x {
            Some((n, t)) => ref_lookup(
                ns_view(ns),
                r@,
                types@.map_values(|d: Document| d.nodes@),
                0,
            ) == Some((n@, simple_or_ref_view(t))),
            None => ref_lookup(
                ns_view(ns),
                r@,
                types@.map_values(|d: Document| d.nodes@),
                0,
            ) is None,
        },
{
    let ghost nsv = ns_view(ns);
    let ghost tv = types@.map_values(|d: Document| d.nodes@);
    let mut k: usize = 0;
    while k < types.len()
        invariant
            nsv == ns_view(ns),
            tv == types@.map_values(|d: Document| d.nodes@),
            k <= types@.len(),
            ref_lookup(nsv, r@, tv, 0) == ref_lookup(nsv, r@, tv, k as int),
        decreases types@.len() - k,
    {
        assert(tv[k as int] == types@[k as int].nodes@);
        match ref_type_in_doc(ns, r, &types[k]) {
            Some(x) => {
                return Some(x);
            },
            None => {},
        }
        k = k + 1;
    }
    None
}

impl Field {
    /// Reads the field of an `element` or `attribute` node `i`, naming types
    /// in the namespace `ns` and looking references up in the schemas
    /// `types`.
    pub fn try_from(ns: Option<&str>, doc: &Document, i: usize, types: &Vec<Document>) -> (r: Result<
        Field,
        FieldParseError,
    >)
        requires
            i < doc.nodes@.len(),
        ensures
            match r {
                Ok(f) => field_of(
                    ns_view(ns),
                    doc.nodes@,
                    i as int,
                    types@.map_values(|d: Document| d.nodes@),
                ) == Ok::<FieldV, FieldParseError>(field_view(f)),
                Err(e) => field_of(
                    ns_view(ns),
                    doc.nodes@,
                    i as int,
                    types@.map_values(|d: Document| d.nodes@),
                ) == Err::<FieldV, FieldParseError>(e),
            },
    {
        let d = &doc.nodes[i].data;
        if node_is_xs(d, "element") {
            let from_ref = match attr(d, "ref") {
                Some(r) => ref_lookup_in(ns, r.as_str(), types),
                None => None,
            };
            let found = match from_ref {
                Some(x) => Some(x),
                None => {
                    let own_type = match first_simple_type(ns, doc, i) {
                        Some(t) => Some(ReferenceOr::Item(t)),
                        None => match attr(d, "type") {
                            Some(t) => Some(str_to_simple_type_or_reference(ns, t.as_str(), None)),
                            None => None,
                        },
                    };
                    match own_type {
                        Some(t) => match attr(d, "name") {
                            Some(n) => Some((n.clone(), t)),
                            None => None,
                        },
                        None => None,
                    }
                },
            };
            match found {
                None => Err(FieldParseError::MissingType),
                Some((name, t)) => {
                    let annotation = first_annotation(doc, i);
                    match annotation {
                        Some(a) => {
                            if a.removed {
                                Err(FieldParseError::Removed)
                            } else {
                                Ok(
                                    Field {
                                        annotation: Some(a),
                                        name: decapitalize(name.as_str()),
                                        field_type: t,
                                        occurrences: get_occurrences(d),
                                    },
                                )
                            }
                        },
                        None => Ok(
                            Field {
                                annotation: None,
                                name: decapitalize(name.as_str()),
                                field_type: t,
                                occurrences: get_occurrences(d),
                            },
                        ),
                    }
                },
            }
        } else if node_is_xs(d, "attribute") {
            let name = match attr(d, "name") {
                Some(n) => decapitalize(n.as_str()),
                None => {
                    return Err(FieldParseError::MissingName);
                },
            };
            let field_type = match first_simple_type(ns, doc, i) {
                Some(t) => ReferenceOr::Item(t),
                None => match attr(d, "type") {
                    Some(t) => str_to_simple_type_or_reference(ns, t.as_str(), None),
                    None => {
                        return Err(FieldParseError::MissingType);
                    },
                },
            };
            let required = match attr(d, "use") {
                Some(u) => str_eq(u.as_str(), "required"),
                None => false,
            };
            let occurrences = if required {
                Occurrences::One
            } else {
                Occurrences::Optional
            };
            let annotation = first_annotation(doc, i);
            Ok(Field { annotation, name, field_type, occurrences })
        } else {
            Err(FieldParseError::NotFieldNode)
        }
    }

    /// The OpenAPI schema of this field, or the reference to it.
    pub fn to_schema_ref(&self) -> (r: SchemaRef)
        ensures
            ref_view(r) == field_schema_v(field_view(*self)),
    {
        let schema_data = SchemaData {
            nullable: false,
            read_only: false,
            deprecated: match &self.annotation {
                Some(a) => a.deprecated,
                None => false,
            },
            title: None,
            description: match &self.annotation {
                Some(a) => clone_opt(&a.description),
                None => None,
            },
            discriminator: None,
        };
        let ghost fv = field_view(*self);
        let ghost dv = data_view(schema_data);
        let is_array = match self.occurrences {
            Occurrences::Array => true,
            _ => false,
        };
        match &self.field_type {
            ReferenceOr::Item(s) => {
                let t = RestrictedPrimitiveType {
                    primitive: s.parent,
                    pattern: &s.pattern,
                    enumeration: &s.enumeration,
                    min_inclusive: &s.min_inclusive,
                }.to_schema_type();
                let ghost tv = type_view(t);
                if is_array {
                    let item = Schema { schema_data: SchemaData::empty(), schema_kind: SchemaKind::Type(t) };
                    assert(schema_view(item) == SchemaV { data: empty_data_v(), kind: SchemaKindV::Type(tv) });
                    let items = SchemaRef::Item(Box::new(item));
                    assert(ref_view(items) == SchemaRefV::Item(Box::new(SchemaV { data: empty_data_v(), kind: SchemaKindV::Type(tv) })));
                    let arr = SchemaType::Array(Some(Box::new(items)));
                    assert(type_view(arr) == SchemaTypeV::Array(Some(Box::new(ref_view(items)))));
                    let sch = Schema { schema_data, schema_kind: SchemaKind::Type(arr) };
                    assert(schema_view(sch) == SchemaV { data: dv, kind: SchemaKindV::Type(type_view(arr)) });
                    SchemaRef::Item(Box::new(sch))
                } else {
                    let sch = Schema { schema_data, schema_kind: SchemaKind::Type(t) };
                    assert(schema_view(sch) == SchemaV { data: dv, kind: SchemaKindV::Type(tv) });
                    SchemaRef::Item(Box::new(sch))
                }
            },
            ReferenceOr::Reference { reference } => {
                let full = concat("#/components/schemas/", reference.as_str());
                if is_array {
                    let items = SchemaRef::Reference(full);
                    let arr = SchemaType::Array(Some(Box::new(items)));
                    assert(type_view(arr) == SchemaTypeV::Array(Some(Box::new(ref_view(items)))));
                    let sch = Schema { schema_data, schema_kind: SchemaKind::Type(arr) };
                    assert(schema_view(sch) == SchemaV { data: dv, kind: SchemaKindV::Type(type_view(arr)) });
                    SchemaRef::Item(Box::new(sch))
                } else {
                    SchemaRef::Reference(full)
                }
            },
        }
    }
}

} // verus!
