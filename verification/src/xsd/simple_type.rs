//! The simple types of XML Schema: a built-in type, restricted or listed.
use vstd::prelude::*;

use crate::openapi::{
    empty_data_v, opt_str, opt_strs_view, schema_view, type_view, Schema, SchemaData,
    SchemaDataV, SchemaKind, SchemaKindV, SchemaRef, SchemaRefV, SchemaType, SchemaTypeV, SchemaV,
};
use crate::text::{concat, contains_seq, find_seq_from, find_str};
use crate::tree::{attr, attr_of, children, Document, Node};
use crate::xsd::annotation::{annotation_of, annotation_view, Annotation, AnnotationV};
use crate::xsd::primitive_type::{
    clone_opt, primitive_of, primitive_type_v, ParsePrimitiveTypeError, PrimitiveType,
    RestrictedPrimitiveType,
};
use crate::xsd::schema_type::{type_err_view, TypeErrV, TypeParseError};
use crate::xsd::{
    all_some, first_some, ints, lemma_first_some_hit, is_in_ns, is_xs, lemma_all_some_step, lemma_first_some_step,
    lemma_subrange_ends, node_is_in_ns, node_is_xs, ReferenceOr,
};

verus! {

/// A simple type: a built-in type with restrictions, or a list of values of
/// one.
#[derive(Debug, PartialEq)]
pub struct SimpleType {
    pub annotation: Option<Annotation>,
    pub name: Option<String>,
    pub pattern: Option<String>,
    pub list: bool,
    pub parent: PrimitiveType,
    pub enumeration: Vec<Option<String>>,
    pub min_inclusive: Option<String>,
}

/// A simple type as plain sequences.
pub struct SimpleTypeV {
    pub annotation: Option<AnnotationV>,
    pub name: Option<Seq<char>>,
    pub pattern: Option<Seq<char>>,
    pub list: bool,
    pub parent: PrimitiveType,
    pub enumeration: Seq<Option<Seq<char>>>,
    pub min_inclusive: Option<Seq<char>>,
}

pub open spec fn opt_annotation_view(a: Option<Annotation>) -> Option<AnnotationV> {
    match a {
        Some(x) => Some(annotation_view(x)),
        None => None,
    }
}

pub open spec fn simple_view(t: SimpleType) -> SimpleTypeV {
    SimpleTypeV {
        annotation: opt_annotation_view(t.annotation),
        name: opt_str(t.name),
        pattern: opt_str(t.pattern),
        list: t.list,
        parent: t.parent,
        enumeration: opt_strs_view(t.enumeration@),
        min_inclusive: opt_str(t.min_inclusive),
    }
}

/// A schema item or a reference, as plain sequences.
pub enum RefOrV<T> {
    Reference(Seq<char>),
    Item(T),
}

pub open spec fn simple_or_ref_view(r: ReferenceOr<SimpleType>) -> RefOrV<SimpleTypeV> {
    match r {
        ReferenceOr::Reference { reference } => RefOrV::Reference(reference@),
        ReferenceOr::Item(t) => RefOrV::Item(simple_view(t)),
    }
}

/// An optional namespace as an optional sequence.
pub open spec fn ns_view(ns: Option<&str>) -> Option<Seq<char>> {
    match ns {
        Some(p) => Some(p@),
        None => None,
    }
}

/// A name in the namespace `ns`: prefixed with it, when there is one.
pub open spec fn prefixed(ns: Option<Seq<char>>, n: Seq<char>) -> Seq<char> {
    match ns {
        Some(p) => p + "_"@ + n,
        None => n,
    }
}

/// A qualified name with its first `:` made a `_`.
pub open spec fn colon_to_underscore(t: Seq<char>) -> Seq<char> {
    match find_seq_from(t, ":"@, 0) {
        Some(i) => t.subrange(0, i) + "_"@ + t.subrange(i + 1, t.len() as int),
        None => t,
    }
}

/// The simple type, or the reference, that a type name stands for: a
/// built-in type, or a reference to a type of the schema.
pub open spec fn simple_or_ref_of(ns: Option<Seq<char>>, tname: Seq<char>, name: Option<
    Seq<char>,
>) -> RefOrV<SimpleTypeV> {
    match primitive_of(tname) {
        None => RefOrV::Reference(
            if contains_seq(tname, ":"@) {
                colon_to_underscore(tname)
            } else {
                prefixed(ns, tname)
            },
        ),
        Some(p) => RefOrV::Item(
            SimpleTypeV {
                annotation: None,
                name,
                pattern: None,
                list: false,
                parent: p,
                enumeration: Seq::empty(),
                min_inclusive: None,
            },
        ),
    }
}

/// The `value` of child `g` of a restriction, when it is the facet `facet`.
pub open spec fn facet_value(ns: Seq<Node>, g: int, facet: Seq<char>) -> Option<Seq<char>> {
    if is_in_ns(ns[g].data, facet) {
        opt_str(attr_of(ns[g].data, "value"@))
    } else {
        None
    }
}

/// The `value` of child `g` of a restriction, given or not, when it is an
/// enumeration.
pub open spec fn enumeration_value(ns: Seq<Node>, g: int) -> Option<Option<Seq<char>>> {
    if is_in_ns(ns[g].data, "enumeration"@) {
        Some(opt_str(attr_of(ns[g].data, "value"@)))
    } else {
        None
    }
}

/// What a `list` or `restriction` child `c` of a simple type says: whether
/// it is a list, the built-in type, the pattern, the enumeration and the
/// lower bound.
pub open spec fn simple_body(ns: Seq<Node>, c: int) -> Option<
    Result<(bool, PrimitiveType, Option<Seq<char>>, Seq<Option<Seq<char>>>, Option<Seq<char>>), TypeErrV>,
> {
    let d = ns[c].data;
    if is_in_ns(d, "list"@) {
        Some(
            match attr_of(d, "itemType"@) {
                None => Err(TypeErrV::MissingItemTypeValue),
                Some(t) => match primitive_of(t@) {
                    Some(p) => Ok((true, p, None, Seq::empty(), None)),
                    None => Err(TypeErrV::NoMatch(t@)),
                },
            },
        )
    } else if is_in_ns(d, "restriction"@) {
        Some(
            match attr_of(d, "base"@) {
                None => Err(TypeErrV::MissingBase),
                Some(b) => match primitive_of(b@) {
                    Some(p) => Ok(
                        (
                            false,
                            p,
                            first_some(children(ns, c), |g: int| facet_value(ns, g, "pattern"@)),
                            all_some(children(ns, c), |g: int| enumeration_value(ns, g)),
                            first_some(
                                children(ns, c),
                                |g: int| facet_value(ns, g, "minInclusive"@),
                            ),
                        ),
                    ),
                    None => Err(TypeErrV::NoMatch(b@)),
                },
            },
        )
    } else {
        None
    }
}

/// The simple type that node `i` is, in the namespace `nsp`.
pub open spec fn simple_type_of(nsp: Option<Seq<char>>, ns: Seq<Node>, i: int) -> Result<
    SimpleTypeV,
    TypeErrV,
> {
    let d = ns[i].data;
    if !is_xs(d, "simpleType"@) {
        Err(TypeErrV::NotTypeNode)
    } else {
        let name = match attr_of(d, "name"@) {
            Some(n) => Some(prefixed(nsp, n@)),
            None => None,
        };
        let annotation = first_some(children(ns, i), |c: int| annotation_of(ns, c));
        match first_some(children(ns, i), |c: int| simple_body(ns, c)) {
            Some(Ok((list, parent, pattern, enumeration, min_inclusive))) => Ok(
                SimpleTypeV { annotation, name, pattern, list, parent, enumeration, min_inclusive },
            ),
            Some(Err(e)) => Err(e),
            None => Err(TypeErrV::NotTypeNode),
        }
    }
}

/// The schema data of a simple type.
pub open spec fn simple_data_v(t: SimpleTypeV) -> SchemaDataV {
    SchemaDataV {
        nullable: false,
        read_only: false,
        deprecated: match t.annotation {
            Some(a) => a.deprecated,
            None => false,
        },
        title: t.name,
        description: match t.annotation {
            Some(a) => a.description,
            None => None,
        },
        discriminator: None,
    }
}

/// The OpenAPI schema of a simple type: its restricted built-in type, or an
/// array of it for a list.
pub open spec fn simple_schema_v(t: SimpleTypeV) -> SchemaV {
    let kind = SchemaKindV::Type(
        primitive_type_v(t.parent, t.pattern, t.enumeration, t.min_inclusive),
    );
    if t.list {
        SchemaV {
            data: simple_data_v(t),
            kind: SchemaKindV::Type(
                SchemaTypeV::Array(
                    Some(Box::new(SchemaRefV::Item(Box::new(SchemaV { data: empty_data_v(), kind })))),
                ),
            ),
        }
    } else {
        SchemaV { data: simple_data_v(t), kind }
    }
}

/// A name in the namespace `ns`.
pub fn prefix_name(ns: Option<&str>, n: &str) -> (r: String)
    ensures
        r@ == prefixed(
            ns_view(ns),
            n@,
        ),
{
    match ns {
        Some(p) => {
            let a = concat(p, "_");
            concat(a.as_str(), n)
        },
        None => String::from_str(n),
    }
}

/// The simple type, or the reference, that a type name stands for.
pub fn str_to_simple_type_or_reference(ns: Option<&str>, tname: &str, name: Option<String>) -> (r:
    ReferenceOr<SimpleType>)
    ensures
        simple_or_ref_view(r) == simple_or_ref_of(
            ns_view(ns),
            tname@,
            opt_str(name),
        ),
{
    match PrimitiveType::from_str(tname) {
        Err(_) => {
            let reference = match find_str(tname, ":") {
                Some(i) => {
                    proof {
                        reveal_strlit(":");
                        crate::text::lemma_find_bound(tname@, ":"@, 0);
                    }
                    let n = tname.unicode_len();
                    let a = concat(tname.substring_char(0, i), "_");
                    concat(a.as_str(), tname.substring_char(i + 1, n))
                },
                None => prefix_name(ns, tname),
            };
            ReferenceOr::Reference { reference }
        },
        Ok(p) => {
            let t = SimpleType {
                annotation: None,
                enumeration: Vec::new(),
                list: false,
                min_inclusive: None,
                name,
                parent: p,
                pattern: None,
            };
            assert(opt_strs_view(t.enumeration@) =~= Seq::empty());
            ReferenceOr::Item(t)
        },
    }
}

/// The `value` of the first child of node `c` that is the facet `facet` and
/// has one.
fn facet_of(doc: &Document, c: usize, facet: &str) -> (r: Option<String>)
    requires
        c < doc.nodes@.len(),
    ensures
        opt_str(r) == first_some(children(doc.nodes@, c as int), |g: int| facet_value(doc.nodes@, g, facet@)),
{
    let ghost ns = doc.nodes@;
    let kids = doc.children(c);
    let ghost cs = ints(kids@);
    let ghost f = |g: int| facet_value(ns, g, facet@);
    proof {
        lemma_subrange_ends(cs);
    }
    let mut k: usize = 0;
    while k < kids.len()
        invariant
            ns == doc.nodes@,
            cs == ints(kids@),
            cs == children(ns, c as int),
            f == (|g: int| facet_value(ns, g, facet@)),
            forall|j: int| 0 <= j < kids@.len() ==> #[trigger] kids@[j] < ns.len(),
            k <= kids@.len(),
            first_some(cs, f) == first_some(cs.subrange(k as int, cs.len() as int), f),
        decreases kids@.len() - k,
    {
        let g = kids[k];
        assert(cs[k as int] == g as int);
        let d = &doc.nodes[g].data;
        if node_is_in_ns(d, facet) {
            match attr(d, "value") {
                Some(v) => {
                    return Some(v.clone());
                },
                None => {},
            }
        }
        proof {
            lemma_first_some_step(cs, f, k as int);
        }
        k = k + 1;
    }
    None
}

/// The `value`s of the enumeration children of node `c`, given or not.
fn enumeration_of(doc: &Document, c: usize) -> (r: Vec<Option<String>>)
    requires
        c < doc.nodes@.len(),
    ensures
        opt_strs_view(r@) == all_some(children(doc.nodes@, c as int), |g: int| enumeration_value(doc.nodes@, g)),
{
    let ghost ns = doc.nodes@;
    let kids = doc.children(c);
    let ghost cs = ints(kids@);
    let ghost f = |g: int| enumeration_value(ns, g);
    proof {
        lemma_subrange_ends(cs);
    }
    let mut r: Vec<Option<String>> = Vec::new();
    let mut k: usize = 0;
    while k < kids.len()
        invariant
            ns == doc.nodes@,
            cs == ints(kids@),
            cs == children(ns, c as int),
            f == (|g: int| enumeration_value(ns, g)),
            forall|j: int| 0 <= j < kids@.len() ==> #[trigger] kids@[j] < ns.len(),
            k <= kids@.len(),
            all_some(cs, f) == opt_strs_view(r@) + all_some(cs.subrange(k as int, cs.len() as int), f),
        decreases kids@.len() - k,
    {
        let g = kids[k];
        assert(cs[k as int] == g as int);
        proof {
            lemma_all_some_step(cs, f, k as int);
        }
        let d = &doc.nodes[g].data;
        if node_is_in_ns(d, "enumeration") {
            let v = match attr(d, "value") {
                Some(v) => Some(v.clone()),
                None => None,
            };
            proof {
                assert(opt_strs_view(r@.push(v)) =~= opt_strs_view(r@).push(opt_str(v)));
                assert(opt_strs_view(r@.push(v)) + all_some(cs.subrange(k + 1, cs.len() as int), f)
                    =~= opt_strs_view(r@) + (seq![opt_str(v)] + all_some(cs.subrange(k + 1, cs.len() as int), f)));
            }
            r.push(v);
        }
        k = k + 1;
    }
    assert(opt_strs_view(r@) + Seq::<Option<Seq<char>>>::empty() =~= opt_strs_view(r@));
    r
}

/// The first annotation among the children of node `i`.
pub fn first_annotation(doc: &Document, i: usize) -> (r: Option<Annotation>)
    requires
        i < doc.nodes@.len(),
    ensures
        opt_annotation_view(r) == first_some(children(doc.nodes@, i as int), |c: int| annotation_of(doc.nodes@, c)),
{
    let ghost ns = doc.nodes@;
    let kids = doc.children(i);
    let ghost cs = ints(kids@);
    let ghost f = |c: int| annotation_of(ns, c);
    proof {
        lemma_subrange_ends(cs);
    }
    let mut k: usize = 0;
    while k < kids.len()
        invariant
            ns == doc.nodes@,
            cs == ints(kids@),
            cs == children(ns, i as int),
            f == (|c: int| annotation_of(ns, c)),
            forall|j: int| 0 <= j < kids@.len() ==> #[trigger] kids@[j] < ns.len(),
            k <= kids@.len(),
            first_some(cs, f) == first_some(cs.subrange(k as int, cs.len() as int), f),
        decreases kids@.len() - k,
    {
        let c = kids[k];
        assert(cs[k as int] == c as int);
        match Annotation::try_from(doc, c) {
            Ok(a) => {
                return Some(a);
            },
            Err(_) => {
                proof {
                    lemma_first_some_step(cs, f, k as int);
                }
            },
        }
        k = k + 1;
    }
    None
}

impl SimpleType {
    /// Reads the simple type of node `i`, naming it in the namespace `ns`.
    pub fn try_from(ns: Option<&str>, doc: &Document, i: usize) -> (r: Result<SimpleType, TypeParseError>)
        requires
            i < doc.nodes@.len(),
        ensures
            match r {
                Ok(t) => simple_type_of(
                    ns_view(ns),
                    doc.nodes@,
                    i as int,
                ) == Ok::<SimpleTypeV, TypeErrV>(simple_view(t)),
                Err(e) => simple_type_of(
                    ns_view(ns),
                    doc.nodes@,
                    i as int,
                ) == Err::<SimpleTypeV, TypeErrV>(type_err_view(e)),
            },
    {
        let d = &doc.nodes[i].data;
        if !node_is_xs(d, "simpleType") {
            return Err(TypeParseError::NotTypeNode);
        }
        let name = match attr(d, "name") {
            Some(n) => Some(prefix_name(ns, n.as_str())),
            None => None,
        };
        let annotation = first_annotation(doc, i);
        let ghost nodes = doc.nodes@;
        let ghost nsv = ns_view(ns);
        let kids = doc.children(i);
        let ghost cs = ints(kids@);
        let ghost f = |c: int| simple_body(nodes, c);
        proof {
            lemma_subrange_ends(cs);
        }
        let mut k: usize = 0;
        while k < kids.len()
            invariant
                nodes == doc.nodes@,
                cs == ints(kids@),
                cs == children(nodes, i as int),
                f == (|c: int| simple_body(nodes, c)),
                i < nodes.len(),
                is_xs(nodes[i as int].data, "simpleType"@),
                nsv == ns_view(ns),
                opt_str(name) == match attr_of(nodes[i as int].data, "name"@) {
                    Some(n) => Some(prefixed(nsv, n@)),
                    None => None,
                },
                opt_annotation_view(annotation) == first_some(
                    children(nodes, i as int),
                    |c: int| annotation_of(nodes, c),
                ),
                forall|j: int| 0 <= j < kids@.len() ==> #[trigger] kids@[j] < nodes.len(),
                k <= kids@.len(),
                first_some(cs, f) == first_some(cs.subrange(k as int, cs.len() as int), f),
            decreases kids@.len() - k,
        {
            let c = kids[k];
            assert(cs[k as int] == c as int);
            let cd = &doc.nodes[c].data;
            if node_is_in_ns(cd, "list") {
                proof {
                    lemma_first_some_hit(cs, f, k as int);
                }
                let parent = match attr(cd, "itemType") {
                    Some(p) => p,
                    None => {
                        return Err(TypeParseError::MissingItemTypeValue);
                    },
                };
                let parent = match PrimitiveType::from_str(parent.as_str()) {
                    Ok(p) => p,
                    Err(e) => {
                        return Err(TypeParseError::PrimitiveTypeParseError(e));
                    },
                };
                let r = SimpleType {
                    annotation,
                    name,
                    enumeration: Vec::new(),
                    list: true,
                    min_inclusive: None,
                    parent,
                    pattern: None,
                };
                assert(opt_strs_view(r.enumeration@) =~= Seq::empty());
                return Ok(r);
            } else if node_is_in_ns(cd, "restriction") {
                proof {
                    lemma_first_some_hit(cs, f, k as int);
                }
                let base = match attr(cd, "base") {
                    Some(b) => b,
                    None => {
                        return Err(TypeParseError::MissingBase);
                    },
                };
                let pattern = facet_of(doc, c, "pattern");
                let min_inclusive = facet_of(doc, c, "minInclusive");
                let enumeration = enumeration_of(doc, c);
                let parent = match PrimitiveType::from_str(base.as_str()) {
                    Ok(p) => p,
                    Err(e) => {
                        return Err(TypeParseError::PrimitiveTypeParseError(e));
                    },
                };
                return Ok(
                    SimpleType {
                        annotation,
                        name,
                        enumeration,
                        list: false,
                        min_inclusive,
                        parent,
                        pattern,
                    },
                );
            }
            proof {
                lemma_first_some_step(cs, f, k as int);
            }
            k = k + 1;
        }
        Err(TypeParseError::NotTypeNode)
    }

    /// The OpenAPI schema of this simple type.
    pub fn to_schema(&self) -> (r: Schema)
        ensures
            schema_view(r) == simple_schema_v(simple_view(*self)),
    {
        let schema_data = SchemaData {
            nullable: false,
            read_only: false,
            deprecated: match &self.annotation {
                Some(a) => a.deprecated,
                None => false,
            },
            title: clone_opt(&self.name),
            description: match &self.annotation {
                Some(a) => clone_opt(&a.description),
                None => None,
            },
            discriminator: None,
        };
        let t = RestrictedPrimitiveType {
            primitive: self.parent,
            pattern: &self.pattern,
            enumeration: &self.enumeration,
            min_inclusive: &self.min_inclusive,
        }.to_schema_type();
        let ghost tv = primitive_type_v(self.parent, opt_str(self.pattern), opt_strs_view(self.enumeration@), opt_str(self.min_inclusive));
        assert(crate::openapi::data_view(schema_data) == simple_data_v(simple_view(*self)));
        if self.list {
            let item = Schema { schema_data: SchemaData::empty(), schema_kind: SchemaKind::Type(t) };
            assert(schema_view(item) == SchemaV { data: empty_data_v(), kind: SchemaKindV::Type(tv) });
            assert(crate::openapi::ref_view(SchemaRef::Item(Box::new(item))) == SchemaRefV::Item(Box::new(SchemaV { data: empty_data_v(), kind: SchemaKindV::Type(tv) })));
            Schema {
                schema_data,
                schema_kind: SchemaKind::Type(
                    SchemaType::Array(Some(Box::new(SchemaRef::Item(Box::new(item))))),
                ),
            }
        } else {
            Schema { schema_data, schema_kind: SchemaKind::Type(t) }
        }
    }
}


} // verus!
