//! The object types of XML Schema: complex types, groups and attribute
//! groups, with their fields, the types they extend and, for the types that
//! the API tells apart by a `_type` property, the types that extend them.
use vstd::prelude::*;

use crate::openapi::{
    data_view, empty_data_v, entries_insert, has_key, key_index, lemma_pairs_insert,
    lemma_refs_view_push, map_insert, opt_str, pairs_view, plain_string_v, property_items,
    ref_view, refs_view, schema_view, strs_view, Properties,
    type_view, view_insert, view_key_index, Discriminator, Schema, SchemaData, SchemaDataV,
    SchemaKind, SchemaKindV, SchemaRef, SchemaRefV, SchemaType, SchemaTypeV, SchemaV, StringType,
};
use crate::xsd::field::field_schema_v;
use crate::xsd::simple_type::{simple_schema_v};
use crate::text::{concat, find_seq_from, find_str};
use crate::text::str_eq;
use crate::tree::{attr, attr_of, children, Document, Node, NodeKind};
use crate::xsd::annotation::{annotation_of, annotation_view, merge_v, Annotation, AnnotationV};
use crate::xsd::field::{field_of, field_view, Field, FieldV, Occurrences};
use crate::xsd::group_ref::{group_ref_of, GroupRef};
use crate::xsd::schema_type::TypeParseError;
use crate::xsd::simple_type::{
    ns_view, prefix_name, prefixed, simple_or_ref_of, simple_or_ref_view, str_to_simple_type_or_reference,
    RefOrV, SimpleType, SimpleTypeV,
};
use crate::xsd::{
    all_some, concat_map, first_some, ints, is_xs, lemma_all_some_step, lemma_concat_map_step,
    lemma_first_some_hit, lemma_first_some_step, lemma_subrange_ends, node_is_xs, ReferenceOr,
};

verus! {

/// An object type: its annotation, its name, its fields, the types it
/// extends, and the types that extend it.
#[derive(Debug, PartialEq)]
pub struct ObjectType {
    pub annotation: Option<Annotation>,
    pub name: String,
    pub fields: Vec<Field>,
    pub parents: Vec<ReferenceOr<SimpleType>>,
    pub descendants: Vec<String>,
}

/// An object type as plain sequences.
pub struct ObjectTypeV {
    pub annotation: Option<AnnotationV>,
    pub name: Seq<char>,
    pub fields: Seq<FieldV>,
    pub parents: Seq<RefOrV<SimpleTypeV>>,
    pub descendants: Seq<Seq<char>>,
}

pub open spec fn fields_view(v: Seq<Field>) -> Seq<FieldV> {
    v.map_values(|f: Field| field_view(f))
}

pub open spec fn parents_view(v: Seq<ReferenceOr<SimpleType>>) -> Seq<RefOrV<SimpleTypeV>> {
    v.map_values(|p: ReferenceOr<SimpleType>| simple_or_ref_view(p))
}

pub open spec fn annotations_view(v: Seq<Annotation>) -> Seq<AnnotationV> {
    v.map_values(|a: Annotation| annotation_view(a))
}

pub open spec fn object_view(o: ObjectType) -> ObjectTypeV {
    ObjectTypeV {
        annotation: match o.annotation {
            Some(a) => Some(annotation_view(a)),
            None => None,
        },
        name: o.name@,
        fields: fields_view(o.fields@),
        parents: parents_view(o.parents@),
        descendants: o.descendants@.map_values(|s: String| s@),
    }
}

// ----- what an object type node says -----
/// The field that node `c` is, when it is one that can be read.
pub open spec fn field_ok(nsp: Option<Seq<char>>, ns: Seq<Node>, c: int, types: Seq<Seq<Node>>) -> Option<
    FieldV,
> {
    match field_of(nsp, ns, c, types) {
        Ok(f) => Some(f),
        Err(_) => None,
    }
}

/// The type that node `c` makes a parent, when it is a reference to a
/// group.
pub open spec fn group_parent(nsp: Option<Seq<char>>, ns: Seq<Node>, c: int) -> Option<
    RefOrV<SimpleTypeV>,
> {
    match group_ref_of(ns, c) {
        Ok(r) => Some(simple_or_ref_of(nsp, r, None)),
        Err(_) => None,
    }
}

/// The fields among the children of node `p`.
pub open spec fn child_fields(nsp: Option<Seq<char>>, ns: Seq<Node>, p: int, types: Seq<Seq<Node>>) -> Seq<
    FieldV,
> {
    all_some(children(ns, p), |c: int| field_ok(nsp, ns, c, types))
}

/// The group references among the children of node `p`.
pub open spec fn child_groups(nsp: Option<Seq<char>>, ns: Seq<Node>, p: int) -> Seq<RefOrV<SimpleTypeV>> {
    all_some(children(ns, p), |c: int| group_parent(nsp, ns, c))
}

/// The annotations among the children of node `p`.
pub open spec fn child_annotations(ns: Seq<Node>, p: int) -> Seq<AnnotationV> {
    all_some(children(ns, p), |c: int| annotation_of(ns, c))
}

/// The fields that node `s` gives, when it is a `sequence`.
pub open spec fn sequence_fields(nsp: Option<Seq<char>>, ns: Seq<Node>, s: int, types: Seq<Seq<Node>>) -> Seq<
    FieldV,
> {
    if is_xs(ns[s].data, "sequence"@) {
        child_fields(nsp, ns, s, types)
    } else {
        Seq::empty()
    }
}

/// The parents that node `s` gives, when it is a `sequence`.
pub open spec fn sequence_groups(nsp: Option<Seq<char>>, ns: Seq<Node>, s: int) -> Seq<RefOrV<SimpleTypeV>> {
    if is_xs(ns[s].data, "sequence"@) {
        child_groups(nsp, ns, s)
    } else {
        Seq::empty()
    }
}

/// The fields that node `x` gives, when it is an `extension`: its own, then
/// those of its sequences.
pub open spec fn extension_fields(nsp: Option<Seq<char>>, ns: Seq<Node>, x: int, types: Seq<Seq<Node>>) -> Seq<
    FieldV,
> {
    if is_xs(ns[x].data, "extension"@) {
        child_fields(nsp, ns, x, types) + concat_map(
            children(ns, x),
            |s: int| sequence_fields(nsp, ns, s, types),
        )
    } else {
        Seq::empty()
    }
}

/// The parents that node `x` gives, when it is an `extension`: its base,
/// its group references, then those of its sequences.
pub open spec fn extension_parents(nsp: Option<Seq<char>>, ns: Seq<Node>, x: int) -> Seq<RefOrV<SimpleTypeV>> {
    if is_xs(ns[x].data, "extension"@) {
        let base = match attr_of(ns[x].data, "base"@) {
            Some(b) => seq![simple_or_ref_of(nsp, b@, None)],
            None => Seq::empty(),
        };
        base + child_groups(nsp, ns, x) + concat_map(children(ns, x), |s: int| sequence_groups(nsp, ns, s))
    } else {
        Seq::empty()
    }
}

/// Whether node `y` is a `complexContent` or a `simpleContent`.
pub open spec fn is_content(ns: Seq<Node>, y: int) -> bool {
    is_xs(ns[y].data, "complexContent"@) || is_xs(ns[y].data, "simpleContent"@)
}

/// The fields that the child `c` of an object type node gives.
pub open spec fn part_fields(nsp: Option<Seq<char>>, ns: Seq<Node>, c: int, types: Seq<Seq<Node>>) -> Seq<
    FieldV,
> {
    if is_xs(ns[c].data, "sequence"@) {
        child_fields(nsp, ns, c, types)
    } else if is_content(ns, c) {
        concat_map(children(ns, c), |x: int| extension_fields(nsp, ns, x, types))
    } else {
        Seq::empty()
    }
}

/// The parents that the child `c` of an object type node gives.
pub open spec fn part_parents(nsp: Option<Seq<char>>, ns: Seq<Node>, c: int) -> Seq<RefOrV<SimpleTypeV>> {
    if is_xs(ns[c].data, "sequence"@) {
        child_groups(nsp, ns, c)
    } else if is_content(ns, c) {
        concat_map(children(ns, c), |x: int| extension_parents(nsp, ns, x))
    } else {
        Seq::empty()
    }
}

/// The annotations that the child `c` of an object type node gives.
pub open spec fn part_annotations(ns: Seq<Node>, c: int) -> Seq<AnnotationV> {
    if is_content(ns, c) {
        child_annotations(ns, c)
    } else {
        Seq::empty()
    }
}

/// The field that stands for the built-in type `t` that an object type
/// extends: a required field named `value`, which occurs once.
pub open spec fn value_field_v(t: SimpleTypeV) -> FieldV {
    FieldV {
        annotation: Some(value_annotation_v()),
        name: "value"@,
        field_type: RefOrV::Item(t),
        occurrences: Occurrences::One,
    }
}

/// The types that the children of object type node `i` say it extends, in
/// order: references to other types and built-in types alike.
pub open spec fn object_bases(nsp: Option<Seq<char>>, ns: Seq<Node>, i: int) -> Seq<RefOrV<SimpleTypeV>> {
    concat_map(children(ns, i), |c: int| part_parents(nsp, ns, c))
}

/// The fields that stand for the built-in types among `ps`: a required
/// `value` field of each.
pub open spec fn value_fields(ps: Seq<RefOrV<SimpleTypeV>>) -> Seq<FieldV>
    decreases ps.len(),
{
    if ps.len() == 0 {
        Seq::empty()
    } else {
        let r = value_fields(ps.drop_last());
        match ps.last() {
            RefOrV::Item(t) => r.push(value_field_v(t)),
            RefOrV::Reference(_) => r,
        }
    }
}

/// The references among `ps`.
pub open spec fn references_only(ps: Seq<RefOrV<SimpleTypeV>>) -> Seq<RefOrV<SimpleTypeV>>
    decreases ps.len(),
{
    if ps.len() == 0 {
        Seq::empty()
    } else {
        let r = references_only(ps.drop_last());
        match ps.last() {
            RefOrV::Item(_) => r,
            RefOrV::Reference(x) => r.push(RefOrV::Reference(x)),
        }
    }
}

/// The annotation of a `value` field: required, and nothing else.
pub open spec fn value_annotation_v() -> AnnotationV {
    AnnotationV {
        description: None,
        required: Some(true),
        deprecated: false,
        content_type: None,
        removed: false,
    }
}

/// The annotations merged in order, when there are any.
pub open spec fn merge_all(anns: Seq<AnnotationV>) -> Option<AnnotationV>
    decreases anns.len(),
{
    if anns.len() == 0 {
        None
    } else {
        match merge_all(anns.drop_last()) {
            None => Some(anns.last()),
            Some(acc) => Some(merge_v(acc, anns.last())),
        }
    }
}

/// The type names that a polymorphic type is told apart from its
/// descendants by.
pub open spec fn is_polymorphic(tn: Seq<char>) -> bool {
    tn == "QueryResultRecordType"@ || tn == "MetadataTypedValue"@
}

/// Whether node `x` is an `extension` of `tn`.
pub open spec fn extends_marker(ns: Seq<Node>, x: int, tn: Seq<char>) -> Option<()> {
    if is_xs(ns[x].data, "extension"@) && (attr_of(ns[x].data, "base"@) matches Some(b) && b@ == tn) {
        Some(())
    } else {
        None
    }
}

/// Whether node `y` is a `complexContent` that extends `tn`.
pub open spec fn content_extends(ns: Seq<Node>, y: int, tn: Seq<char>) -> Option<()> {
    if is_xs(ns[y].data, "complexContent"@) {
        first_some(children(ns, y), |x: int| extends_marker(ns, x, tn))
    } else {
        None
    }
}

/// The name of node `c`, when it is a complex type that extends `tn`.
pub open spec fn descendant_name(ns: Seq<Node>, c: int, tn: Seq<char>) -> Option<Seq<char>> {
    if is_xs(ns[c].data, "complexType"@) && first_some(
        children(ns, c),
        |y: int| content_extends(ns, y, tn),
    ) is Some {
        opt_str(attr_of(ns[c].data, "name"@))
    } else {
        None
    }
}

/// The names of the complex types of the schema `doc` that extend `tn`.
pub open spec fn descendants_in(doc: Seq<Node>, tn: Seq<char>) -> Seq<Seq<char>> {
    if doc.len() == 0 || doc[0].data.kind != NodeKind::Element {
        Seq::empty()
    } else {
        all_some(children(doc, 0), |c: int| descendant_name(doc, c, tn))
    }
}

/// The names of the complex types of the schemas `types` (from `k` on)
/// that extend `tn`.
pub open spec fn descendants_from(types: Seq<Seq<Node>>, tn: Seq<char>, k: int) -> Seq<Seq<char>>
    decreases types.len() - k,
{
    if k < 0 || k >= types.len() {
        Seq::empty()
    } else {
        descendants_in(types[k], tn) + descendants_from(types, tn, k + 1)
    }
}

/// Whether node `i` is a complex type, a group or an attribute group.
pub open spec fn is_object_node(ns: Seq<Node>, i: int) -> bool {
    ||| is_xs(ns[i].data, "complexType"@)
    ||| is_xs(ns[i].data, "group"@)
    ||| is_xs(ns[i].data, "attributeGroup"@)
}

/// The object type that node `i` is, in the namespace `nsp`, with the
/// schemas `types`.
pub open spec fn object_type_of(nsp: Option<Seq<char>>, ns: Seq<Node>, i: int, types: Seq<Seq<Node>>) -> Option<
    Result<ObjectTypeV, TypeParseError>,
> {
    if !is_object_node(ns, i) {
        None
    } else {
        Some(
            match attr_of(ns[i].data, "name"@) {
                None => Err(TypeParseError::MissingName),
                Some(tn) => {
                    let cs = children(ns, i);
                    let fields = child_fields(nsp, ns, i, types) + concat_map(
                        cs,
                        |c: int| part_fields(nsp, ns, c, types),
                    );
                    let parents = object_bases(nsp, ns, i);
                    let anns = child_annotations(ns, i) + concat_map(cs, |c: int| part_annotations(ns, c));
                    Ok(
                        ObjectTypeV {
                            annotation: merge_all(anns),
                            name: prefixed(nsp, tn@),
                            fields: fields + value_fields(parents),
                            parents: references_only(parents),
                            descendants: if is_polymorphic(tn@) {
                                descendants_from(types, tn@, 0)
                            } else {
                                Seq::empty()
                            },
                        },
                    )
                },
            },
        )
    }
}


/// The schemas as their nodes.
pub open spec fn docs_view(v: Seq<Document>) -> Seq<Seq<Node>> {
    v.map_values(|d: Document| d.nodes@)
}

proof fn lemma_fields_view_append(a: Seq<Field>, b: Seq<Field>)
    ensures
        fields_view(a + b) == fields_view(a) + fields_view(b),
{
    assert(fields_view(a + b) =~= fields_view(a) + fields_view(b));
}

proof fn lemma_parents_view_append(a: Seq<ReferenceOr<SimpleType>>, b: Seq<ReferenceOr<SimpleType>>)
    ensures
        parents_view(a + b) == parents_view(a) + parents_view(b),
{
    assert(parents_view(a + b) =~= parents_view(a) + parents_view(b));
}

proof fn lemma_annotations_view_append(a: Seq<Annotation>, b: Seq<Annotation>)
    ensures
        annotations_view(a + b) == annotations_view(a) + annotations_view(b),
{
    assert(annotations_view(a + b) =~= annotations_view(a) + annotations_view(b));
}

proof fn lemma_assoc<T>(a: Seq<T>, b: Seq<T>, c: Seq<T>)
    ensures
        a + b + c == a + (b + c),
{
    assert(a + b + c =~= a + (b + c));
}

/// The fields among the children of node `p`.
fn fields_of_children(ns: Option<&str>, doc: &Document, p: usize, types: &Vec<Document>) -> (r: Vec<Field>)
    requires
        p < doc.nodes@.len(),
    ensures
        fields_view(r@) == child_fields(ns_view(ns), doc.nodes@, p as int, docs_view(types@)),
{
    let ghost nodes = doc.nodes@;
    let ghost tv = docs_view(types@);
    let kids = doc.children(p);
    let ghost cs = ints(kids@);
    let ghost f = |c: int| field_ok(ns_view(ns), nodes, c, tv);
    proof {
        lemma_subrange_ends(cs);
    }
    let mut r: Vec<Field> = Vec::new();
    let mut k: usize = 0;
    while k < kids.len()
        invariant
            nodes == doc.nodes@,
            tv == docs_view(types@),
            cs == ints(kids@),
            cs == children(nodes, p as int),
            f == (|c: int| field_ok(ns_view(ns), nodes, c, tv)),
            forall|j: int| 0 <= j < kids@.len() ==> #[trigger] kids@[j] < nodes.len(),
            k <= kids@.len(),
            all_some(cs, f) == fields_view(r@) + all_some(cs.subrange(k as int, cs.len() as int), f),
        decreases kids@.len() - k,
    {
        let c = kids[k];
        assert(cs[k as int] == c as int);
        proof {
            lemma_all_some_step(cs, f, k as int);
        }
        match Field::try_from(ns, doc, c, types) {
            Ok(x) => {
                proof {
                    assert(fields_view(r@.push(x)) =~= fields_view(r@) + seq![field_view(x)]);
                    lemma_assoc(fields_view(r@), seq![field_view(x)], all_some(cs.subrange(k + 1, cs.len() as int), f));
                }
                r.push(x);
            },
            Err(_) => {},
        }
        k = k + 1;
    }
    assert(fields_view(r@) + Seq::<FieldV>::empty() =~= fields_view(r@));
    r
}

/// The parents that the group references among the children of node `p`
/// make.
fn groups_of_children(ns: Option<&str>, doc: &Document, p: usize) -> (r: Vec<ReferenceOr<SimpleType>>)
    requires
        p < doc.nodes@.len(),
    ensures
        parents_view(r@) == child_groups(ns_view(ns), doc.nodes@, p as int),
{
    let ghost nodes = doc.nodes@;
    let kids = doc.children(p);
    let ghost cs = ints(kids@);
    let ghost f = |c: int| group_parent(ns_view(ns), nodes, c);
    proof {
        lemma_subrange_ends(cs);
    }
    let mut r: Vec<ReferenceOr<SimpleType>> = Vec::new();
    let mut k: usize = 0;
    while k < kids.len()
        invariant
            nodes == doc.nodes@,
            cs == ints(kids@),
            cs == children(nodes, p as int),
            f == (|c: int| group_parent(ns_view(ns), nodes, c)),
            forall|j: int| 0 <= j < kids@.len() ==> #[trigger] kids@[j] < nodes.len(),
            k <= kids@.len(),
            all_some(cs, f) == parents_view(r@) + all_some(cs.subrange(k as int, cs.len() as int), f),
        decreases kids@.len() - k,
    {
        let c = kids[k];
        assert(cs[k as int] == c as int);
        proof {
            lemma_all_some_step(cs, f, k as int);
        }
        match GroupRef::try_from(doc, c) {
            Ok(g) => {
                let x = str_to_simple_type_or_reference(ns, g.reference.as_str(), None);
                proof {
                    assert(parents_view(r@.push(x)) =~= parents_view(r@) + seq![simple_or_ref_view(x)]);
                    lemma_assoc(parents_view(r@), seq![simple_or_ref_view(x)], all_some(cs.subrange(k + 1, cs.len() as int), f));
                }
                r.push(x);
            },
            Err(_) => {},
        }
        k = k + 1;
    }
    assert(parents_view(r@) + Seq::<RefOrV<SimpleTypeV>>::empty() =~= parents_view(r@));
    r
}

/// The annotations among the children of node `p`.
fn annotations_of_children(doc: &Document, p: usize) -> (r: Vec<Annotation>)
    requires
        p < doc.nodes@.len(),
    ensures
        annotations_view(r@) == child_annotations(doc.nodes@, p as int),
{
    let ghost nodes = doc.nodes@;
    let kids = doc.children(p);
    let ghost cs = ints(kids@);
    let ghost f = |c: int| annotation_of(nodes, c);
    proof {
        lemma_subrange_ends(cs);
    }
    let mut r: Vec<Annotation> = Vec::new();
    let mut k: usize = 0;
    while k < kids.len()
        invariant
            nodes == doc.nodes@,
            cs == ints(kids@),
            cs == children(nodes, p as int),
            f == (|c: int| annotation_of(nodes, c)),
            forall|j: int| 0 <= j < kids@.len() ==> #[trigger] kids@[j] < nodes.len(),
            k <= kids@.len(),
            all_some(cs, f) == annotations_view(r@) + all_some(cs.subrange(k as int, cs.len() as int), f),
        decreases kids@.len() - k,
    {
        let c = kids[k];
        assert(cs[k as int] == c as int);
        proof {
            lemma_all_some_step(cs, f, k as int);
        }
        match Annotation::try_from(doc, c) {
            Ok(a) => {
                proof {
                    assert(annotations_view(r@.push(a)) =~= annotations_view(r@) + seq![annotation_view(a)]);
                    lemma_assoc(annotations_view(r@), seq![annotation_view(a)], all_some(cs.subrange(k + 1, cs.len() as int), f));
                }
                r.push(a);
            },
            Err(_) => {},
        }
        k = k + 1;
    }
    assert(annotations_view(r@) + Seq::<AnnotationV>::empty() =~= annotations_view(r@));
    r
}

/// The fields and parents that node `x` gives, when it is an `extension`.
fn extension_parts(ns: Option<&str>, doc: &Document, x: usize, types: &Vec<Document>) -> (r: (
    Vec<Field>,
    Vec<ReferenceOr<SimpleType>>,
))
    requires
        x < doc.nodes@.len(),
    ensures
        fields_view(r.0@) == extension_fields(ns_view(ns), doc.nodes@, x as int, docs_view(types@)),
        parents_view(r.1@) == extension_parents(ns_view(ns), doc.nodes@, x as int),
{
    let d = &doc.nodes[x].data;
    if !node_is_xs(d, "extension") {
        return (Vec::new(), Vec::new());
    }
    let ghost nodes = doc.nodes@;
    let ghost tv = docs_view(types@);
    let mut parents: Vec<ReferenceOr<SimpleType>> = Vec::new();
    match attr(d, "base") {
        Some(b) => {
            parents.push(str_to_simple_type_or_reference(ns, b.as_str(), None));
        },
        None => {},
    }
    let mut fields = fields_of_children(ns, doc, x, types);
    let mut groups = groups_of_children(ns, doc, x);
    proof {
        lemma_parents_view_append(parents@, groups@);
    }
    parents.append(&mut groups);
    let ghost f0 = fields_view(fields@);
    let ghost p0 = parents_view(parents@);
    let kids = doc.children(x);
    let ghost cs = ints(kids@);
    let ghost ff = |s: int| sequence_fields(ns_view(ns), nodes, s, tv);
    let ghost fp = |s: int| sequence_groups(ns_view(ns), nodes, s);
    proof {
        lemma_subrange_ends(cs);
    }
    let mut k: usize = 0;
    while k < kids.len()
        invariant
            nodes == doc.nodes@,
            tv == docs_view(types@),
            cs == ints(kids@),
            cs == children(nodes, x as int),
            ff == (|s: int| sequence_fields(ns_view(ns), nodes, s, tv)),
            fp == (|s: int| sequence_groups(ns_view(ns), nodes, s)),
            forall|j: int| 0 <= j < kids@.len() ==> #[trigger] kids@[j] < nodes.len(),
            k <= kids@.len(),
            f0 + concat_map(cs, ff) == fields_view(fields@) + concat_map(cs.subrange(k as int, cs.len() as int), ff),
            p0 + concat_map(cs, fp) == parents_view(parents@) + concat_map(cs.subrange(k as int, cs.len() as int), fp),
        decreases kids@.len() - k,
    {
        let s = kids[k];
        assert(cs[k as int] == s as int);
        proof {
            lemma_concat_map_step(cs, ff, k as int);
            lemma_concat_map_step(cs, fp, k as int);
        }
        if node_is_xs(&doc.nodes[s].data, "sequence") {
            let mut sf = fields_of_children(ns, doc, s, types);
            let mut sg = groups_of_children(ns, doc, s);
            proof {
                lemma_fields_view_append(fields@, sf@);
                lemma_parents_view_append(parents@, sg@);
                lemma_assoc(fields_view(fields@), fields_view(sf@), concat_map(cs.subrange(k + 1, cs.len() as int), ff));
                lemma_assoc(parents_view(parents@), parents_view(sg@), concat_map(cs.subrange(k + 1, cs.len() as int), fp));
            }
            fields.append(&mut sf);
            parents.append(&mut sg);
        } else {
            proof {
                assert(ff(cs[k as int]) =~= Seq::<FieldV>::empty());
                assert(fp(cs[k as int]) =~= Seq::<RefOrV<SimpleTypeV>>::empty());
                assert(Seq::<FieldV>::empty() + concat_map(cs.subrange(k + 1, cs.len() as int), ff) =~= concat_map(cs.subrange(k + 1, cs.len() as int), ff));
                assert(Seq::<RefOrV<SimpleTypeV>>::empty() + concat_map(cs.subrange(k + 1, cs.len() as int), fp) =~= concat_map(cs.subrange(k + 1, cs.len() as int), fp));
            }
        }
        k = k + 1;
    }
    proof {
        assert(fields_view(fields@) + Seq::<FieldV>::empty() =~= fields_view(fields@));
        assert(parents_view(parents@) + Seq::<RefOrV<SimpleTypeV>>::empty() =~= parents_view(parents@));
    }
    (fields, parents)
}


/// The fields and parents that the extensions among the children of node
/// `y` give.
fn content_parts(ns: Option<&str>, doc: &Document, y: usize, types: &Vec<Document>) -> (r: (
    Vec<Field>,
    Vec<ReferenceOr<SimpleType>>,
))
    requires
        y < doc.nodes@.len(),
    ensures
        fields_view(r.0@) == concat_map(
            children(doc.nodes@, y as int),
            |x: int| extension_fields(ns_view(ns), doc.nodes@, x, docs_view(types@)),
        ),
        parents_view(r.1@) == concat_map(
            children(doc.nodes@, y as int),
            |x: int| extension_parents(ns_view(ns), doc.nodes@, x),
        ),
{
    let ghost nodes = doc.nodes@;
    let ghost tv = docs_view(types@);
    let kids = doc.children(y);
    let ghost cs = ints(kids@);
    let ghost ff = |x: int| extension_fields(ns_view(ns), nodes, x, tv);
    let ghost fp = |x: int| extension_parents(ns_view(ns), nodes, x);
    proof {
        lemma_subrange_ends(cs);
    }
    let mut fields: Vec<Field> = Vec::new();
    let mut parents: Vec<ReferenceOr<SimpleType>> = Vec::new();
    let mut k: usize = 0;
    while k < kids.len()
        invariant
            nodes == doc.nodes@,
            tv == docs_view(types@),
            cs == ints(kids@),
            cs == children(nodes, y as int),
            ff == (|x: int| extension_fields(ns_view(ns), nodes, x, tv)),
            fp == (|x: int| extension_parents(ns_view(ns), nodes, x)),
            forall|j: int| 0 <= j < kids@.len() ==> #[trigger] kids@[j] < nodes.len(),
            k <= kids@.len(),
            concat_map(cs, ff) == fields_view(fields@) + concat_map(cs.subrange(k as int, cs.len() as int), ff),
            concat_map(cs, fp) == parents_view(parents@) + concat_map(cs.subrange(k as int, cs.len() as int), fp),
        decreases kids@.len() - k,
    {
        let x = kids[k];
        assert(cs[k as int] == x as int);
        proof {
            lemma_concat_map_step(cs, ff, k as int);
            lemma_concat_map_step(cs, fp, k as int);
        }
        let (mut ef, mut ep) = extension_parts(ns, doc, x, types);
        proof {
            lemma_fields_view_append(fields@, ef@);
            lemma_parents_view_append(parents@, ep@);
            lemma_assoc(fields_view(fields@), fields_view(ef@), concat_map(cs.subrange(k + 1, cs.len() as int), ff));
            lemma_assoc(parents_view(parents@), parents_view(ep@), concat_map(cs.subrange(k + 1, cs.len() as int), fp));
        }
        fields.append(&mut ef);
        parents.append(&mut ep);
        k = k + 1;
    }
    proof {
        assert(fields_view(fields@) + Seq::<FieldV>::empty() =~= fields_view(fields@));
        assert(parents_view(parents@) + Seq::<RefOrV<SimpleTypeV>>::empty() =~= parents_view(parents@));
    }
    (fields, parents)
}

/// Whether node `x` is an `extension` of `tn`.
fn node_extends(doc: &Document, x: usize, tn: &str) -> (r: bool)
    requires
        x < doc.nodes@.len(),
    ensures
        r == extends_marker(doc.nodes@, x as int, tn@) is Some,
{
    let d = &doc.nodes[x].data;
    node_is_xs(d, "extension") && match attr(d, "base") {
        Some(b) => str_eq(b.as_str(), tn),
        None => false,
    }
}

/// Whether node `y` is a `complexContent` that extends `tn`.
fn node_content_extends(doc: &Document, y: usize, tn: &str) -> (r: bool)
    requires
        y < doc.nodes@.len(),
    ensures
        r == content_extends(doc.nodes@, y as int, tn@) is Some,
{
    if !node_is_xs(&doc.nodes[y].data, "complexContent") {
        return false;
    }
    let ghost nodes = doc.nodes@;
    let kids = doc.children(y);
    let ghost cs = ints(kids@);
    let ghost f = |x: int| extends_marker(nodes, x, tn@);
    proof {
        lemma_subrange_ends(cs);
    }
    let mut k: usize = 0;
    while k < kids.len()
        invariant
            nodes == doc.nodes@,
            y < nodes.len(),
            is_xs(nodes[y as int].data, "complexContent"@),
            cs == ints(kids@),
            cs == children(nodes, y as int),
            f == (|x: int| extends_marker(nodes, x, tn@)),
            forall|j: int| 0 <= j < kids@.len() ==> #[trigger] kids@[j] < nodes.len(),
            k <= kids@.len(),
            first_some(cs, f) == first_some(cs.subrange(k as int, cs.len() as int), f),
        decreases kids@.len() - k,
    {
        let x = kids[k];
        assert(cs[k as int] == x as int);
        if node_extends(doc, x, tn) {
            proof {
                lemma_first_some_hit(cs, f, k as int);
            }
            return true;
        }
        proof {
            lemma_first_some_step(cs, f, k as int);
        }
        k = k + 1;
    }
    false
}

/// The name of node `c`, when it is a complex type that extends `tn`.
fn descendant_name_of(doc: &Document, c: usize, tn: &str) -> (r: Option<String>)
    requires
        c < doc.nodes@.len(),
    ensures
        opt_str(r) == descendant_name(doc.nodes@, c as int, tn@),
{
    if !node_is_xs(&doc.nodes[c].data, "complexType") {
        return None;
    }
    let ghost nodes = doc.nodes@;
    let kids = doc.children(c);
    let ghost cs = ints(kids@);
    let ghost f = |y: int| content_extends(nodes, y, tn@);
    proof {
        lemma_subrange_ends(cs);
    }
    let mut k: usize = 0;
    while k < kids.len()
        invariant
            nodes == doc.nodes@,
            c < nodes.len(),
            is_xs(nodes[c as int].data, "complexType"@),
            cs == ints(kids@),
            cs == children(nodes, c as int),
            f == (|y: int| content_extends(nodes, y, tn@)),
            forall|j: int| 0 <= j < kids@.len() ==> #[trigger] kids@[j] < nodes.len(),
            k <= kids@.len(),
            first_some(cs, f) == first_some(cs.subrange(k as int, cs.len() as int), f),
        decreases kids@.len() - k,
    {
        let y = kids[k];
        assert(cs[k as int] == y as int);
        if node_content_extends(doc, y, tn) {
            proof {
                lemma_first_some_hit(cs, f, k as int);
            }
            return match attr(&doc.nodes[c].data, "name") {
                Some(n) => Some(n.clone()),
                None => None,
            };
        }
        proof {
            lemma_first_some_step(cs, f, k as int);
        }
        k = k + 1;
    }
    None
}

/// The names of the complex types of the schema `tdoc` that extend `tn`.
fn descendants_in_doc(tdoc: &Document, tn: &str) -> (r: Vec<String>)
    ensures
        r@.map_values(|s: String| s@) == descendants_in(tdoc.nodes@, tn@),
{
    if tdoc.nodes.len() == 0 {
        return Vec::new();
    }
    match tdoc.nodes[0].data.kind {
        NodeKind::Element => {},
        _ => {
            return Vec::new();
        },
    }
    let ghost nodes = tdoc.nodes@;
    let kids = tdoc.children(0);
    let ghost cs = ints(kids@);
    let ghost f = |c: int| descendant_name(nodes, c, tn@);
    proof {
        lemma_subrange_ends(cs);
    }
    let mut r: Vec<String> = Vec::new();
    let mut k: usize = 0;
    while k < kids.len()
        invariant
            nodes == tdoc.nodes@,
            nodes.len() > 0,
            nodes[0].data.kind == NodeKind::Element,
            cs == ints(kids@),
            cs == children(nodes, 0),
            f == (|c: int| descendant_name(nodes, c, tn@)),
            forall|j: int| 0 <= j < kids@.len() ==> #[trigger] kids@[j] < nodes.len(),
            k <= kids@.len(),
            all_some(cs, f) == r@.map_values(|s: String| s@) + all_some(cs.subrange(k as int, cs.len() as int), f),
        decreases kids@.len() - k,
    {
        let c = kids[k];
        assert(cs[k as int] == c as int);
        proof {
            lemma_all_some_step(cs, f, k as int);
        }
        match descendant_name_of(tdoc, c, tn) {
            Some(n) => {
                proof {
                    assert(r@.push(n).map_values(|s: String| s@) =~= r@.map_values(|s: String| s@) + seq![n@]);
                    lemma_assoc(r@.map_values(|s: String| s@), seq![n@], all_some(cs.subrange(k + 1, cs.len() as int), f));
                }
                r.push(n);
            },
            None => {},
        }
        k = k + 1;
    }
    assert(r@.map_values(|s: String| s@) + Seq::<Seq<char>>::empty() =~= r@.map_values(|s: String| s@));
    r
}

/// The names of the complex types of the schemas `types` that extend `tn`.
fn descendants_of(types: &Vec<Document>, tn: &str) -> (r: Vec<String>)
    ensures
        r@.map_values(|s: String| s@) == descendants_from(docs_view(types@), tn@, 0),
{
    let ghost tv = docs_view(types@);
    let mut r: Vec<String> = Vec::new();
    let mut k: usize = 0;
    while k < types.len()
        invariant
            tv == docs_view(types@),
            k <= types@.len(),
            descendants_from(tv, tn@, 0) == r@.map_values(|s: String| s@) + descendants_from(tv, tn@, k as int),
        decreases types@.len() - k,
    {
        assert(tv[k as int] == types@[k as int].nodes@);
        let mut d = descendants_in_doc(&types[k], tn);
        proof {
            assert((r@ + d@).map_values(|s: String| s@) =~= r@.map_values(|s: String| s@) + d@.map_values(|s: String| s@));
            lemma_assoc(r@.map_values(|s: String| s@), d@.map_values(|s: String| s@), descendants_from(tv, tn@, k + 1));
        }
        r.append(&mut d);
        k = k + 1;
    }
    assert(r@.map_values(|s: String| s@) + Seq::<Seq<char>>::empty() =~= r@.map_values(|s: String| s@));
    r
}

/// The annotations merged in order, when there are any.
fn merge_annotations(anns: Vec<Annotation>) -> (r: Option<Annotation>)
    ensures
        match r {
            Some(a) => merge_all(annotations_view(anns@)) == Some(annotation_view(a)),
            None => merge_all(annotations_view(anns@)) is None,
        },
{
    let ghost av = annotations_view(anns@);
    let mut acc: Option<Annotation> = None;
    for a in it: anns
        invariant
            av == annotations_view(it.seq()),
            match acc {
                Some(x) => merge_all(av.take(it.index() as int)) == Some(annotation_view(x)),
                None => merge_all(av.take(it.index() as int)) is None,
            },
    {
        proof {
            assert(av.take(it.index() + 1).drop_last() =~= av.take(it.index() as int));
            assert(av[it.index() as int] == annotation_view(a));
        }
        acc = match acc {
            None => Some(a),
            Some(x) => Some(x.merge(a)),
        };
    }
    assert(av.take(av.len() as int) =~= av);
    acc
}

/// Splits the parents: the built-in types become required `value` fields,
/// appended to `fields`; the references stay.
fn split_parents(fields: &mut Vec<Field>, parents: Vec<ReferenceOr<SimpleType>>) -> (r: Vec<ReferenceOr<SimpleType>>)
    ensures
        fields_view(final(fields)@) == fields_view(old(fields)@) + value_fields(parents_view(parents@)),
        parents_view(r@) == references_only(parents_view(parents@)),
{
    let ghost pv = parents_view(parents@);
    let ghost f0 = fields_view(fields@);
    let mut kept: Vec<ReferenceOr<SimpleType>> = Vec::new();
    for p in it: parents
        invariant
            pv == parents_view(it.seq()),
            fields_view(fields@) == f0 + value_fields(pv.take(it.index() as int)),
            parents_view(kept@) == references_only(pv.take(it.index() as int)),
    {
        proof {
            assert(pv.take(it.index() + 1).drop_last() =~= pv.take(it.index() as int));
            assert(pv[it.index() as int] == simple_or_ref_view(p));
        }
        match p {
            ReferenceOr::Item(t) => {
                let v = Field {
                    annotation: Some(
                        Annotation {
                            content_type: None,
                            deprecated: false,
                            description: None,
                            required: Some(true),
                            removed: false,
                        },
                    ),
                    name: String::from_str("value"),
                    occurrences: Occurrences::One,
                    field_type: ReferenceOr::Item(t),
                };
                proof {
                    assert(fields_view(fields@.push(v)) =~= fields_view(fields@).push(field_view(v)));
                }
                fields.push(v);
            },
            ReferenceOr::Reference { reference } => {
                let x = ReferenceOr::Reference { reference };
                proof {
                    assert(parents_view(kept@.push(x)) =~= parents_view(kept@).push(simple_or_ref_view(x)));
                }
                kept.push(x);
            },
        }
    }
    assert(pv.take(pv.len() as int) =~= pv);
    kept
}

impl ObjectType {
    /// Reads the object type of a `complexType`, `group` or `attributeGroup`
    /// node `i`, naming it in the namespace `ns`, with the schemas `types`
    /// to look references up in and to find the types that extend it.
    pub fn try_from(ns: Option<&str>, doc: &Document, i: usize, types: &Vec<Document>) -> (r: Result<
        ObjectType,
        TypeParseError,
    >)
        requires
            i < doc.nodes@.len(),
        ensures
            match object_type_of(ns_view(ns), doc.nodes@, i as int, docs_view(types@)) {
                None => r matches Err(TypeParseError::NotTypeNode),
                Some(Ok(o)) => r matches Ok(x) && object_view(x) == o,
                Some(Err(e)) => r matches Err(x) && x == e,
            },
    {
        let d = &doc.nodes[i].data;
        if !(node_is_xs(d, "complexType") || node_is_xs(d, "group") || node_is_xs(d, "attributeGroup")) {
            return Err(TypeParseError::NotTypeNode);
        }
        let tn = match attr(d, "name") {
            Some(n) => n,
            None => {
                return Err(TypeParseError::MissingName);
            },
        };
        let name = prefix_name(ns, tn.as_str());
        let ghost nodes = doc.nodes@;
        let ghost tv = docs_view(types@);
        let mut annotations = annotations_of_children(doc, i);
        let mut fields = fields_of_children(ns, doc, i, types);
        let mut parents: Vec<ReferenceOr<SimpleType>> = Vec::new();
        let ghost a0 = annotations_view(annotations@);
        let ghost f0 = fields_view(fields@);
        let descendants = if str_eq(tn.as_str(), "QueryResultRecordType") || str_eq(tn.as_str(), "MetadataTypedValue") {
            descendants_of(types, tn.as_str())
        } else {
            Vec::new()
        };
        let kids = doc.children(i);
        let ghost cs = ints(kids@);
        let ghost ff = |c: int| part_fields(ns_view(ns), nodes, c, tv);
        let ghost fp = |c: int| part_parents(ns_view(ns), nodes, c);
        let ghost fa = |c: int| part_annotations(nodes, c);
        proof {
            lemma_subrange_ends(cs);
            assert(parents_view(parents@) =~= Seq::<RefOrV<SimpleTypeV>>::empty());
            assert(concat_map(cs, fp) =~= Seq::<RefOrV<SimpleTypeV>>::empty() + concat_map(cs, fp));
        }
        let mut k: usize = 0;
        while k < kids.len()
            invariant
                nodes == doc.nodes@,
                tv == docs_view(types@),
                cs == ints(kids@),
                cs == children(nodes, i as int),
                ff == (|c: int| part_fields(ns_view(ns), nodes, c, tv)),
                fp == (|c: int| part_parents(ns_view(ns), nodes, c)),
                fa == (|c: int| part_annotations(nodes, c)),
                forall|j: int| 0 <= j < kids@.len() ==> #[trigger] kids@[j] < nodes.len(),
                k <= kids@.len(),
                f0 + concat_map(cs, ff) == fields_view(fields@) + concat_map(cs.subrange(k as int, cs.len() as int), ff),
                concat_map(cs, fp) == parents_view(parents@) + concat_map(cs.subrange(k as int, cs.len() as int), fp),
                a0 + concat_map(cs, fa) == annotations_view(annotations@) + concat_map(cs.subrange(k as int, cs.len() as int), fa),
            decreases kids@.len() - k,
        {
            let c = kids[k];
            assert(cs[k as int] == c as int);
            proof {
                lemma_concat_map_step(cs, ff, k as int);
                lemma_concat_map_step(cs, fp, k as int);
                lemma_concat_map_step(cs, fa, k as int);
            }
            let cd = &doc.nodes[c].data;
            let is_content = node_is_xs(cd, "complexContent") || node_is_xs(cd, "simpleContent");
            let (mut pf, mut pp) = if node_is_xs(cd, "sequence") {
                (fields_of_children(ns, doc, c, types), groups_of_children(ns, doc, c))
            } else if is_content {
                content_parts(ns, doc, c, types)
            } else {
                (Vec::new(), Vec::new())
            };
            let mut pa = if is_content {
                annotations_of_children(doc, c)
            } else {
                Vec::new()
            };
            proof {
                assert(fields_view(pf@) == ff(cs[k as int]));
                assert(parents_view(pp@) == fp(cs[k as int]));
                assert(annotations_view(pa@) =~= fa(cs[k as int]));
                lemma_fields_view_append(fields@, pf@);
                lemma_parents_view_append(parents@, pp@);
                lemma_annotations_view_append(annotations@, pa@);
                lemma_assoc(fields_view(fields@), fields_view(pf@), concat_map(cs.subrange(k + 1, cs.len() as int), ff));
                lemma_assoc(parents_view(parents@), parents_view(pp@), concat_map(cs.subrange(k + 1, cs.len() as int), fp));
                lemma_assoc(annotations_view(annotations@), annotations_view(pa@), concat_map(cs.subrange(k + 1, cs.len() as int), fa));
            }
            fields.append(&mut pf);
            parents.append(&mut pp);
            annotations.append(&mut pa);
            k = k + 1;
        }
        proof {
            assert(fields_view(fields@) + Seq::<FieldV>::empty() =~= fields_view(fields@));
            assert(parents_view(parents@) + Seq::<RefOrV<SimpleTypeV>>::empty() =~= parents_view(parents@));
            assert(annotations_view(annotations@) + Seq::<AnnotationV>::empty() =~= annotations_view(annotations@));
        }
        let parents = split_parents(&mut fields, parents);
        let annotation = merge_annotations(annotations);
        let r = ObjectType { name, annotation, fields, parents, descendants };
        proof {
            if !is_polymorphic(tn@) {
                assert(descendants@.map_values(|s: String| s@) =~= Seq::<Seq<char>>::empty());
            }
        }
        Ok(r)
    }
}


// ----- the OpenAPI schema of an object type -----
/// The properties of the fields `fs`, each name once, in the order where
/// it first comes, with the schema of the last field of that name.
pub open spec fn properties_of(fs: Seq<FieldV>) -> Seq<(Seq<char>, SchemaRefV)>
    decreases fs.len(),
{
    if fs.len() == 0 {
        Seq::empty()
    } else {
        view_insert(properties_of(fs.drop_last()), fs.last().name, field_schema_v(fs.last()))
    }
}

/// The names of the fields `fs` that are marked as required.
pub open spec fn required_of(fs: Seq<FieldV>) -> Seq<Seq<char>>
    decreases fs.len(),
{
    if fs.len() == 0 {
        Seq::empty()
    } else {
        let r = required_of(fs.drop_last());
        if fs.last().annotation matches Some(a) && a.required == Some(true) {
            r.push(fs.last().name)
        } else {
            r
        }
    }
}

/// The name that the descendant `n` of the type `name` has in the schema:
/// `n` in the namespace of `name` (what comes before its first `_`); empty
/// when `name` has no namespace.
pub open spec fn descendant_reference(name: Seq<char>, n: Seq<char>) -> Seq<char> {
    match find_seq_from(name, "_"@, 0) {
        Some(i) => name.subrange(0, i) + "_"@ + n,
        None => Seq::empty(),
    }
}

/// The discriminator mapping of the type `name`: each descendant, once, to
/// its name in the schema.
pub open spec fn mapping_of(name: Seq<char>, ds: Seq<Seq<char>>) -> Seq<(Seq<char>, Seq<char>)>
    decreases ds.len(),
{
    if ds.len() == 0 {
        Seq::empty()
    } else {
        view_insert(mapping_of(name, ds.drop_last()), ds.last(), descendant_reference(name, ds.last()))
    }
}

/// The schema of a parent: a reference to a schema of the components, or
/// the schema of a simple type.
pub open spec fn parent_schema_v(p: RefOrV<SimpleTypeV>) -> SchemaRefV {
    match p {
        RefOrV::Reference(x) => SchemaRefV::Reference("#/components/schemas/"@ + x),
        RefOrV::Item(t) => SchemaRefV::Item(Box::new(simple_schema_v(t))),
    }
}

/// The `_type` property that tells the descendants of a type apart.
pub open spec fn type_property_v() -> SchemaRefV {
    SchemaRefV::Item(Box::new(SchemaV { data: empty_data_v(), kind: SchemaKindV::Type(plain_string_v()) }))
}

/// The object part of the schema of `o`: its properties, those that are
/// required and no others; with a required `_type` property when it has
/// descendants.
pub open spec fn object_part_v(o: ObjectTypeV) -> SchemaTypeV {
    let props = properties_of(o.fields);
    let req = required_of(o.fields);
    if o.descendants.len() > 0 {
        SchemaTypeV::Object {
            properties: if view_key_index(props, "_type"@, 0) is Some {
                props
            } else {
                props.push(("_type"@, type_property_v()))
            },
            required: req.push("_type"@),
            additional_properties: Some(false),
        }
    } else {
        SchemaTypeV::Object { properties: props, required: req, additional_properties: Some(false) }
    }
}

/// The OpenAPI schema of an object type: titled with its name; all of its
/// parents and its object part when it has parents, its object part alone
/// when not; with a discriminator on `_type` when it has descendants.
pub open spec fn object_schema_v(o: ObjectTypeV) -> SchemaV {
    let data = SchemaDataV {
        nullable: false,
        read_only: false,
        deprecated: match o.annotation {
            Some(a) => a.deprecated,
            None => false,
        },
        title: Some(o.name),
        description: match o.annotation {
            Some(a) => a.description,
            None => None,
        },
        discriminator: if o.descendants.len() > 0 {
            Some(("_type"@, mapping_of(o.name, o.descendants)))
        } else {
            None
        },
    };
    let object = object_part_v(o);
    if o.parents.len() > 0 {
        SchemaV {
            data,
            kind: SchemaKindV::AllOf(
                o.parents.map_values(|p: RefOrV<SimpleTypeV>| parent_schema_v(p)).push(
                    SchemaRefV::Item(Box::new(SchemaV { data: empty_data_v(), kind: SchemaKindV::Type(object) })),
                ),
            ),
        }
    } else {
        SchemaV { data, kind: SchemaKindV::Type(object) }
    }
}

/// The schema of a parent.
fn parent_schema(p: &ReferenceOr<SimpleType>) -> (r: SchemaRef)
    ensures
        ref_view(r) == parent_schema_v(simple_or_ref_view(*p)),
{
    match p {
        ReferenceOr::Reference { reference } => SchemaRef::Reference(
            concat("#/components/schemas/", reference.as_str()),
        ),
        ReferenceOr::Item(t) => SchemaRef::Item(Box::new(t.to_schema())),
    }
}

/// The `_type` property.
fn type_property() -> (r: SchemaRef)
    ensures
        ref_view(r) == type_property_v(),
{
    let t = SchemaType::String(StringType::plain());
    let s = Schema::of_type(t);
    SchemaRef::Item(Box::new(s))
}

impl ObjectType {
    /// The OpenAPI schema of this object type.
    pub fn to_schema(&self) -> (r: Schema)
        ensures
            schema_view(r) == object_schema_v(object_view(*self)),
    {
        let ghost ov = object_view(*self);
        let ghost fv = fields_view(self.fields@);
        let mut properties = Properties::new();
        let mut required: Vec<String> = Vec::new();
        let mut k: usize = 0;
        while k < self.fields.len()
            invariant
                fv == fields_view(self.fields@),
                k <= self.fields@.len(),
                property_items(properties) == properties_of(fv.take(k as int)),
                strs_view(required@) == required_of(fv.take(k as int)),
            decreases self.fields@.len() - k,
        {
            let f = &self.fields[k];
            proof {
                assert(fv.take(k + 1).drop_last() =~= fv.take(k as int));
                assert(fv.take(k + 1).last() == field_view(*f));
            }
            let sr = f.to_schema_ref();
            let key = f.name.clone();
            properties.insert(key, sr);
            let is_required = match &f.annotation {
                Some(a) => match a.required {
                    Some(b) => b,
                    None => false,
                },
                None => false,
            };
            if is_required {
                let n = f.name.clone();
                proof {
                    assert(strs_view(required@.push(n)) =~= strs_view(required@).push(n@));
                }
                required.push(n);
            }
            k = k + 1;
        }
        assert(fv.take(fv.len() as int) =~= fv);
        let has_descendants = self.descendants.len() > 0;
        if has_descendants {
            if properties.index_of("_type").is_none() {
                let tp = type_property();
                let key = String::from_str("_type");
                properties.insert(key, tp);
            }
            let key = String::from_str("_type");
            proof {
                assert(strs_view(required@.push(key)) =~= strs_view(required@).push(key@));
            }
            required.push(key);
        }
        let object = SchemaType::Object(
            crate::openapi::ObjectType { properties, required, additional_properties: Some(false) },
        );
        assert(type_view(object) == object_part_v(ov));
        let mut mapping: Vec<(String, String)> = Vec::new();
        if has_descendants {
            let ghost dv = self.descendants@.map_values(|s: String| s@);
            let mut j: usize = 0;
            while j < self.descendants.len()
                invariant
                    dv == self.descendants@.map_values(|s: String| s@),
                    j <= self.descendants@.len(),
                    pairs_view(mapping@) == mapping_of(self.name@, dv.take(j as int)),
                decreases self.descendants@.len() - j,
            {
                let n = &self.descendants[j];
                proof {
                    assert(dv.take(j + 1).drop_last() =~= dv.take(j as int));
                    reveal_strlit("_");
                }
                let value = match find_str(self.name.as_str(), "_") {
                    Some(i) => {
                        proof {
                            crate::text::lemma_find_bound(self.name@, "_"@, 0);
                        }
                        let a = concat(self.name.as_str().substring_char(0, i), "_");
                        concat(a.as_str(), n.as_str())
                    },
                    None => String::new(),
                };
                let key = n.clone();
                proof {
                    lemma_pairs_insert(mapping@, key, value);
                }
                entries_insert(&mut mapping, key, value);
                j = j + 1;
            }
            assert(dv.take(dv.len() as int) =~= dv);
        }
        let schema_data = SchemaData {
            nullable: false,
            read_only: false,
            deprecated: match &self.annotation {
                Some(a) => a.deprecated,
                None => false,
            },
            title: Some(self.name.clone()),
            description: match &self.annotation {
                Some(a) => crate::xsd::primitive_type::clone_opt(&a.description),
                None => None,
            },
            discriminator: if has_descendants {
                Some(Discriminator { property_name: String::from_str("_type"), mapping })
            } else {
                None
            },
        };
        if self.parents.len() > 0 {
            let ghost pv = parents_view(self.parents@);
            let mut all_of: Vec<SchemaRef> = Vec::new();
            let mut j: usize = 0;
            while j < self.parents.len()
                invariant
                    pv == parents_view(self.parents@),
                    j <= self.parents@.len(),
                    refs_view(all_of@) == pv.take(j as int).map_values(|p: RefOrV<SimpleTypeV>| parent_schema_v(p)),
                decreases self.parents@.len() - j,
            {
                let ps = parent_schema(&self.parents[j]);
                proof {
                    lemma_refs_view_push(all_of@, ps);
                    assert(pv.take(j + 1).map_values(|p: RefOrV<SimpleTypeV>| parent_schema_v(p)) =~= pv.take(j as int).map_values(|p: RefOrV<SimpleTypeV>| parent_schema_v(p)).push(ref_view(ps)));
                }
                all_of.push(ps);
                j = j + 1;
            }
            assert(pv.take(pv.len() as int) =~= pv);
            let obj = Schema::of_type(object);
            let last = SchemaRef::Item(Box::new(obj));
            proof {
                lemma_refs_view_push(all_of@, last);
            }
            all_of.push(last);
            Schema { schema_data, schema_kind: SchemaKind::AllOf(all_of) }
        } else {
            Schema { schema_data, schema_kind: SchemaKind::Type(object) }
        }
    }
}


/// The properties of the schema of an object type have distinct names.
pub proof fn lemma_properties_distinct(fs: Seq<FieldV>)
    ensures
        crate::openapi::view_keys_distinct(properties_of(fs)),
    decreases fs.len(),
{
    if fs.len() > 0 {
        lemma_properties_distinct(fs.drop_last());
        crate::openapi::lemma_insert_keeps_keys_distinct(
            properties_of(fs.drop_last()),
            fs.last().name,
            field_schema_v(fs.last()),
        );
    }
}

/// Splitting the bases of an object type: the references stay as its
/// parents and only they, each built-in type becomes a required `value`
/// field, and nothing is lost.
pub proof fn lemma_bases_split(ps: Seq<RefOrV<SimpleTypeV>>)
    ensures
        forall|k: int| 0 <= k < references_only(ps).len() ==> #[trigger] references_only(ps)[k] is Reference,
        forall|k: int|
            0 <= k < value_fields(ps).len() ==> exists|t: SimpleTypeV| #[trigger] value_fields(ps)[k] == value_field_v(t),
        references_only(ps).len() + value_fields(ps).len() == ps.len(),
        forall|j: int| 0 <= j < ps.len() && #[trigger] ps[j] is Reference ==> references_only(ps).contains(ps[j]),
        forall|j: int|
            0 <= j < ps.len() ==> (#[trigger] ps[j] matches RefOrV::Item(t) ==> value_fields(ps).contains(value_field_v(t))),
    decreases ps.len(),
{
    if ps.len() > 0 {
        let q = ps.drop_last();
        lemma_bases_split(q);
        let r = references_only(q);
        let v = value_fields(q);
        assert forall|j: int| 0 <= j < ps.len() && #[trigger] ps[j] is Reference implies references_only(ps).contains(ps[j]) by {
            if j < q.len() {
                assert(q[j] == ps[j]);
                let m = choose|m: int| 0 <= m < r.len() && r[m] == q[j];
                assert(references_only(ps)[m] == ps[j]);
            } else {
                assert(references_only(ps)[r.len() as int] == ps[j]);
            }
        }
        assert forall|j: int| 0 <= j < ps.len() implies (#[trigger] ps[j] matches RefOrV::Item(t) ==> value_fields(ps).contains(value_field_v(t))) by {
            if let RefOrV::Item(t) = ps[j] {
                if j < q.len() {
                    assert(q[j] == ps[j]);
                    let m = choose|m: int| 0 <= m < v.len() && v[m] == value_field_v(t);
                    assert(value_fields(ps)[m] == value_field_v(t));
                } else {
                    assert(value_fields(ps)[v.len() as int] == value_field_v(t));
                }
            }
        }
        assert forall|k: int| 0 <= k < value_fields(ps).len() implies exists|t: SimpleTypeV| #[trigger] value_fields(ps)[k] == value_field_v(t) by {
            if k < v.len() {
                assert(value_fields(ps)[k] == v[k]);
            } else {
                if let RefOrV::Item(t) = ps.last() {
                    assert(value_fields(ps)[k] == value_field_v(t));
                }
            }
        }
        assert forall|k: int| 0 <= k < references_only(ps).len() implies #[trigger] references_only(ps)[k] is Reference by {
            if k < r.len() {
                assert(references_only(ps)[k] == r[k]);
            }
        }
    }
}

/// The parents of an object type are references only; each type it extends
/// by reference is among its parents, and each built-in type it extends is
/// a required `value` field of it, which occurs once.
pub proof fn lemma_object_bases(nsp: Option<Seq<char>>, ns: Seq<Node>, i: int, types: Seq<Seq<Node>>)
    requires
        object_type_of(nsp, ns, i, types) matches Some(Ok(_)),
    ensures
        object_type_of(nsp, ns, i, types) matches Some(Ok(o)) && {
            let ps = object_bases(nsp, ns, i);
            &&& forall|k: int| 0 <= k < o.parents.len() ==> #[trigger] o.parents[k] is Reference
            &&& forall|j: int| 0 <= j < ps.len() && #[trigger] ps[j] is Reference ==> o.parents.contains(ps[j])
            &&& forall|j: int|
                0 <= j < ps.len() ==> (#[trigger] ps[j] matches RefOrV::Item(t) ==> o.fields.contains(value_field_v(t)))
        },
{
    let ps = object_bases(nsp, ns, i);
    lemma_bases_split(ps);
    if let Some(Ok(o)) = object_type_of(nsp, ns, i, types) {
        let tn = attr_of(ns[i].data, "name"@).unwrap();
        let f = child_fields(nsp, ns, i, types) + concat_map(children(ns, i), |c: int| part_fields(nsp, ns, c, types));
        assert(o.fields == f + value_fields(ps));
        assert(o.parents == references_only(ps));
        assert forall|j: int| 0 <= j < ps.len() implies (#[trigger] ps[j] matches RefOrV::Item(t) ==> o.fields.contains(value_field_v(t))) by {
            if let RefOrV::Item(t) = ps[j] {
                let m = choose|m: int| 0 <= m < value_fields(ps).len() && value_fields(ps)[m] == value_field_v(t);
                assert(o.fields[f.len() + m] == value_field_v(t));
            }
        }
    }
}

} // verus!
