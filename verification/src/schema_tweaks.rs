//! Changes to the schemas of the components that the XML Schemas do not
//! say: the schemas of the query parameters, stubs for OVF types, and the
//! superclasses that tell typed metadata values and query records apart by
//! their `_type`.
use vstd::prelude::*;

use indexmap::IndexMap;

use crate::openapi::{
    empty_data_v, entries_insert, has_key, key_index, key_position, lemma_refs_view_index,
    lemma_refs_view_push, opt_str, pairs_view, plain_string_v, property_items, ref_view,
    refs_view, schema_view, strs_view, type_view, Properties,
    view_insert, view_key_index, Discriminator, IntegerFormat, IntegerType, ObjectType, Schema,
    SchemaData, SchemaDataV, SchemaKind, SchemaKindV, SchemaRef, SchemaRefV, SchemaType,
    SchemaTypeV, SchemaV, StringFormat, StringType, StringTypeV,
};
use crate::query::Query;
use crate::schema_map::{
    schema_map_items, schemas_get_index, schemas_index_of, schemas_insert, schemas_len,
    schemas_replace_at,
};
use crate::text::{concat, ends_with, is_suffix, starts_with, str_eq};
use crate::tree::opt_int;

verus! {

// ----- small schemas -----
/// A boolean schema.
pub open spec fn bool_schema_v() -> SchemaRefV {
    SchemaRefV::Item(Box::new(SchemaV { data: empty_data_v(), kind: SchemaKindV::Type(SchemaTypeV::Boolean) }))
}

/// A string schema with the given values.
pub open spec fn string_schema_v(enumeration: Seq<Option<Seq<char>>>) -> SchemaRefV {
    SchemaRefV::Item(
        Box::new(
            SchemaV {
                data: empty_data_v(),
                kind: SchemaKindV::Type(
                    SchemaTypeV::String(StringTypeV { format: StringFormat::Empty, pattern: None, enumeration }),
                ),
            },
        ),
    )
}

/// An integer schema with the given bounds.
pub open spec fn integer_schema_v(minimum: Option<i64>, maximum: Option<i64>) -> SchemaRefV {
    SchemaRefV::Item(
        Box::new(
            SchemaV {
                data: empty_data_v(),
                kind: SchemaKindV::Type(
                    SchemaTypeV::Integer {
                        format: IntegerFormat::Empty,
                        minimum,
                        maximum,
                        enumeration: Seq::empty(),
                    },
                ),
            },
        ),
    )
}

/// An array schema of the schema that `reference` refers to.
pub open spec fn array_of_v(reference: Seq<char>) -> SchemaRefV {
    SchemaRefV::Item(
        Box::new(
            SchemaV {
                data: empty_data_v(),
                kind: SchemaKindV::Type(SchemaTypeV::Array(Some(Box::new(SchemaRefV::Reference(reference))))),
            },
        ),
    )
}

fn bool_schema() -> (r: SchemaRef)
    ensures
        ref_view(r) == bool_schema_v(),
{
    SchemaRef::Item(Box::new(Schema::of_type(SchemaType::Boolean)))
}

fn string_schema(enumeration: Vec<Option<String>>) -> (r: SchemaRef)
    ensures
        ref_view(r) == string_schema_v(crate::openapi::opt_strs_view(enumeration@)),
{
    let t = SchemaType::String(StringType { format: StringFormat::Empty, pattern: None, enumeration });
    SchemaRef::Item(Box::new(Schema::of_type(t)))
}

fn plain_string_schema() -> (r: SchemaRef)
    ensures
        ref_view(r) == string_schema_v(Seq::empty()),
{
    let e: Vec<Option<String>> = Vec::new();
    assert(crate::openapi::opt_strs_view(e@) =~= Seq::<Option<Seq<char>>>::empty());
    string_schema(e)
}

fn integer_schema(minimum: Option<i64>, maximum: Option<i64>) -> (r: SchemaRef)
    ensures
        ref_view(r) == integer_schema_v(minimum, maximum),
{
    let t = SchemaType::Integer(
        IntegerType { format: IntegerFormat::Empty, minimum, maximum, enumeration: Vec::new() },
    );
    let s = Schema::of_type(t);
    assert(type_view(t) == SchemaTypeV::Integer {
        format: IntegerFormat::Empty,
        minimum,
        maximum,
        enumeration: Seq::empty(),
    });
    SchemaRef::Item(Box::new(s))
}

fn array_of(reference: &str) -> (r: SchemaRef)
    ensures
        ref_view(r) == array_of_v(reference@),
{
    let items = SchemaRef::Reference(String::from_str(reference));
    let t = SchemaType::Array(Some(Box::new(items)));
    assert(type_view(t) == SchemaTypeV::Array(Some(Box::new(SchemaRefV::Reference(reference@)))));
    SchemaRef::Item(Box::new(Schema::of_type(t)))
}

// ----- inserting entries -----
/// The entries of a list as plain sequences.
pub open spec fn entries_view(v: Seq<(String, SchemaRef)>) -> Seq<(Seq<char>, SchemaRefV)> {
    v.map_values(|e: (String, SchemaRef)| (e.0@, ref_view(e.1)))
}

/// A map with the entries `es` inserted one after the other.
pub open spec fn insert_all(m: Seq<(Seq<char>, SchemaRefV)>, es: Seq<(Seq<char>, SchemaRefV)>) -> Seq<
    (Seq<char>, SchemaRefV),
>
    decreases es.len(),
{
    if es.len() == 0 {
        m
    } else {
        view_insert(insert_all(m, es.drop_last()), es.last().0, es.last().1)
    }
}

/// Inserts the entries `es` one after the other.
fn insert_entries(m: &mut IndexMap<String, SchemaRef>, es: Vec<(String, SchemaRef)>)
    ensures
        schema_map_items(*final(m)) == insert_all(schema_map_items(*old(m)), entries_view(es@)),
{
    let ghost ev = entries_view(es@);
    let ghost m0 = schema_map_items(*m);
    for e in it: es
        invariant
            ev == entries_view(it.seq()),
            schema_map_items(*m) == insert_all(m0, ev.take(it.index() as int)),
    {
        proof {
            assert(ev.take(it.index() + 1).drop_last() =~= ev.take(it.index() as int));
            assert(ev[it.index() as int] == (e.0@, ref_view(e.1)));
        }
        schemas_insert(m, e.0, e.1);
    }
    assert(ev.take(ev.len() as int) =~= ev);
}

// ----- the query parameters -----
/// The name of the schema of the query parameter `n`.
pub open spec fn query_parameter_key(n: Seq<char>) -> Seq<char> {
    "query-parameter_"@ + n
}

/// The schemas of the query parameters: `type` lists the names of the
/// queries.
pub open spec fn query_parameter_schemas(query_names: Seq<Seq<char>>) -> Seq<(Seq<char>, SchemaRefV)> {
    seq![
        (query_parameter_key("force"@), bool_schema_v()),
        (query_parameter_key("recursive"@), bool_schema_v()),
        (query_parameter_key("fields"@), string_schema_v(Seq::empty())),
        (query_parameter_key("filter"@), string_schema_v(Seq::empty())),
        (query_parameter_key("filterEncoded"@), bool_schema_v()),
        (query_parameter_key("format"@), string_schema_v(seq![Some("references"@), Some("records"@), Some("idrecords"@)])),
        (query_parameter_key("links"@), bool_schema_v()),
        (query_parameter_key("offset"@), integer_schema_v(Some(0), None)),
        (query_parameter_key("page"@), integer_schema_v(Some(1), None)),
        (query_parameter_key("pageSize"@), integer_schema_v(Some(1), Some(128))),
        (query_parameter_key("sortAsc"@), string_schema_v(Seq::empty())),
        (query_parameter_key("sortDesc"@), string_schema_v(Seq::empty())),
        (query_parameter_key("type"@), string_schema_v(query_names.map_values(|n: Seq<char>| Some(n)))),
    ]
}

fn push_entry(es: &mut Vec<(String, SchemaRef)>, n: &str, v: SchemaRef)
    ensures
        entries_view(final(es)@) == entries_view(old(es)@).push((query_parameter_key(n@), ref_view(v))),
{
    let k = concat("query-parameter_", n);
    let ghost e = (k, v);
    es.push((k, v));
    assert(entries_view(es@) =~= entries_view(old(es)@).push((e.0@, ref_view(e.1))));
}

/// Adds the schemas of the query parameters to `schemas`; the schema of
/// `type` lists the names of `queries`.
pub fn query_parameters(schemas: &mut IndexMap<String, SchemaRef>, queries: &[Query])
    ensures
        schema_map_items(*final(schemas)) == insert_all(
            schema_map_items(*old(schemas)),
            query_parameter_schemas(queries@.map_values(|q: Query| q.name@)),
        ),
{
    let mut names: Vec<Option<String>> = Vec::new();
    let mut k: usize = 0;
    while k < queries.len()
        invariant
            k <= queries@.len(),
            crate::openapi::opt_strs_view(names@) == queries@.take(k as int).map_values(|q: Query| q.name@).map_values(|n: Seq<char>| Some(n)),
        decreases queries@.len() - k,
    {
        let n = queries[k].name.clone();
        proof {
            assert(crate::openapi::opt_strs_view(names@.push(Some(n))) =~= crate::openapi::opt_strs_view(names@).push(Some(n@)));
            assert(queries@.take(k + 1) =~= queries@.take(k as int).push(queries@[k as int]));
            assert(queries@.take(k + 1).map_values(|q: Query| q.name@) =~= queries@.take(k as int).map_values(|q: Query| q.name@).push(n@));
            assert(crate::openapi::opt_strs_view(names@.push(Some(n))) =~= queries@.take(k + 1).map_values(|q: Query| q.name@).map_values(|n: Seq<char>| Some(n)));
        }
        names.push(Some(n));
        k = k + 1;
    }
    assert(queries@.take(queries@.len() as int) =~= queries@);
    let mut format: Vec<Option<String>> = Vec::new();
    format.push(Some(String::from_str("references")));
    format.push(Some(String::from_str("records")));
    format.push(Some(String::from_str("idrecords")));
    assert(crate::openapi::opt_strs_view(format@) =~= seq![Some("references"@), Some("records"@), Some("idrecords"@)]);
    let mut es: Vec<(String, SchemaRef)> = Vec::new();
    let ghost e0 = entries_view(es@);
    push_entry(&mut es, "force", bool_schema());
    push_entry(&mut es, "recursive", bool_schema());
    push_entry(&mut es, "fields", plain_string_schema());
    push_entry(&mut es, "filter", plain_string_schema());
    push_entry(&mut es, "filterEncoded", bool_schema());
    push_entry(&mut es, "format", string_schema(format));
    push_entry(&mut es, "links", bool_schema());
    push_entry(&mut es, "offset", integer_schema(Some(0), None));
    push_entry(&mut es, "page", integer_schema(Some(1), None));
    push_entry(&mut es, "pageSize", integer_schema(Some(1), Some(128)));
    push_entry(&mut es, "sortAsc", plain_string_schema());
    push_entry(&mut es, "sortDesc", plain_string_schema());
    push_entry(&mut es, "type", string_schema(names));
    proof {
        assert(entries_view(es@) =~= query_parameter_schemas(queries@.map_values(|q: Query| q.name@)));
    }
    insert_entries(schemas, es);
}

// ----- stubs for OVF types -----
/// An object with an `info` object that holds a string `value`.
pub open spec fn ovf_stub_v() -> SchemaRefV {
    let value = SchemaRefV::Item(Box::new(SchemaV { data: empty_data_v(), kind: SchemaKindV::Type(plain_string_v()) }));
    let info = SchemaRefV::Item(
        Box::new(
            SchemaV {
                data: empty_data_v(),
                kind: SchemaKindV::Type(
                    SchemaTypeV::Object {
                        properties: seq![("value"@, value)],
                        required: Seq::empty(),
                        additional_properties: None,
                    },
                ),
            },
        ),
    );
    SchemaRefV::Item(
        Box::new(
            SchemaV {
                data: empty_data_v(),
                kind: SchemaKindV::Type(
                    SchemaTypeV::Object {
                        properties: seq![("info"@, info)],
                        required: Seq::empty(),
                        additional_properties: None,
                    },
                ),
            },
        ),
    )
}

/// An object schema with one property and nothing else.
fn object_with(k: &str, v: SchemaRef) -> (r: SchemaRef)
    ensures
        ref_view(r) == SchemaRefV::Item(
            Box::new(
                SchemaV {
                    data: empty_data_v(),
                    kind: SchemaKindV::Type(
                        SchemaTypeV::Object {
                            properties: seq![(k@, ref_view(v))],
                            required: Seq::empty(),
                            additional_properties: None,
                        },
                    ),
                },
            ),
        ),
{
    let mut properties = Properties::new();
    let key = String::from_str(k);
    properties.insert(key, v);
    assert(property_items(properties) =~= seq![(k@, ref_view(v))]);
    let required: Vec<String> = Vec::new();
    assert(strs_view(required@) =~= Seq::<Seq<char>>::empty());
    let t = SchemaType::Object(ObjectType { properties, required, additional_properties: None });
    SchemaRef::Item(Box::new(Schema::of_type(t)))
}

fn ovf_stub() -> (r: SchemaRef)
    ensures
        ref_view(r) == ovf_stub_v(),
{
    let value = SchemaRef::Item(Box::new(Schema::of_type(SchemaType::String(StringType::plain()))));
    let info = object_with("value", value);
    object_with("info", info)
}

/// The schemas `m` with the stubs of the OVF types inserted.
pub open spec fn stub_ovf_v(m: Seq<(Seq<char>, SchemaRefV)>) -> Seq<(Seq<char>, SchemaRefV)> {
    view_insert(
        view_insert(view_insert(m, "ovf_Section_Type"@, ovf_stub_v()), "ovf_Item"@, ovf_stub_v()),
        "ovf_RASD_Type"@,
        ovf_stub_v(),
    )
}

/// Adding the OVF stubs twice gives what adding them once gives.
pub proof fn lemma_stub_ovf_idempotent(m: Seq<(Seq<char>, SchemaRefV)>)
    ensures
        stub_ovf_v(stub_ovf_v(m)) == stub_ovf_v(m),
{
    reveal_strlit("ovf_Section_Type");
    reveal_strlit("ovf_Item");
    reveal_strlit("ovf_RASD_Type");
    assert("ovf_Section_Type"@.len() == 16);
    assert("ovf_Item"@.len() == 8);
    assert("ovf_RASD_Type"@.len() == 13);
    let s = ovf_stub_v();
    let m1 = view_insert(m, "ovf_Section_Type"@, s);
    let m2 = view_insert(m1, "ovf_Item"@, s);
    let m3 = view_insert(m2, "ovf_RASD_Type"@, s);
    crate::openapi::lemma_insert_then_lookup(m, "ovf_Section_Type"@, s, "ovf_Item"@);
    crate::openapi::lemma_insert_then_lookup(m1, "ovf_Item"@, s, "ovf_Section_Type"@);
    crate::openapi::lemma_insert_then_lookup(m2, "ovf_RASD_Type"@, s, "ovf_Section_Type"@);
    crate::openapi::lemma_insert_then_lookup(m2, "ovf_RASD_Type"@, s, "ovf_Item"@);
    crate::openapi::lemma_insert_same(m3, "ovf_Section_Type"@, s);
    crate::openapi::lemma_insert_same(m3, "ovf_Item"@, s);
    crate::openapi::lemma_insert_same(m3, "ovf_RASD_Type"@, s);
}

/// After the schemas of the query parameters are added, the schema of
/// `type` is a string schema that lists the names of the queries.
pub proof fn lemma_query_parameter_type(m: Seq<(Seq<char>, SchemaRefV)>, query_names: Seq<Seq<char>>)
    ensures
        ({
            let r = insert_all(m, query_parameter_schemas(query_names));
            view_key_index(r, query_parameter_key("type"@), 0) matches Some(j) && r[j].1
                == string_schema_v(query_names.map_values(|n: Seq<char>| Some(n)))
        }),
{
    let es = query_parameter_schemas(query_names);
    reveal_strlit("type");
    assert(es.len() == 13);
    assert(es.last().0 == query_parameter_key("type"@));
    assert(es.last().0.len() >= 4);
    crate::openapi::lemma_insert_then_lookup(
        insert_all(m, es.drop_last()),
        es.last().0,
        es.last().1,
        Seq::empty(),
    );
}

/// Adds stubs for the OVF types that the schemas refer to but that the
/// documentation does not describe.
pub fn stub_ovf(output: &mut IndexMap<String, SchemaRef>)
    ensures
        schema_map_items(*final(output)) == stub_ovf_v(schema_map_items(*old(output))),
{
    schemas_insert(output, String::from_str("ovf_Section_Type"), ovf_stub());
    schemas_insert(output, String::from_str("ovf_Item"), ovf_stub());
    schemas_insert(output, String::from_str("ovf_RASD_Type"), ovf_stub());
}


// ----- superclasses -----
/// The name of a type of the `vcloud` namespace without its prefix.
pub open spec fn vcloud_name(k: Seq<char>) -> Option<Seq<char>> {
    if "vcloud_"@.is_prefix_of(k) {
        Some(k.subrange(7, k.len() as int))
    } else {
        None
    }
}

/// Whether the type named `t` in the `vcloud` namespace is one of the
/// subtypes: it starts with `prefix`, ends with `suffix`, and is not
/// `exclude`.
pub open spec fn is_subtype(t: Seq<char>, prefix: Seq<char>, suffix: Seq<char>, exclude: Seq<char>) -> bool {
    prefix.is_prefix_of(t) && is_suffix(suffix, t) && t != exclude
}

/// The subtypes among the first `hi` schemas: each name with its name
/// without the prefix.
pub open spec fn subtypes_from(
    items: Seq<(Seq<char>, SchemaRefV)>,
    hi: int,
    prefix: Seq<char>,
    suffix: Seq<char>,
    exclude: Seq<char>,
) -> Seq<(Seq<char>, Seq<char>)>
    decreases hi,
{
    if hi <= 0 || hi > items.len() {
        Seq::empty()
    } else {
        let r = subtypes_from(items, hi - 1, prefix, suffix, exclude);
        let k = items[hi - 1].0;
        match vcloud_name(k) {
            Some(t) => if is_subtype(t, prefix, suffix, exclude) {
                r.push((k, t))
            } else {
                r
            },
            None => r,
        }
    }
}

/// The subtypes among the schemas.
pub open spec fn subtypes(items: Seq<(Seq<char>, SchemaRefV)>, prefix: Seq<char>, suffix: Seq<char>, exclude: Seq<char>) -> Seq<
    (Seq<char>, Seq<char>),
> {
    subtypes_from(items, items.len() as int, prefix, suffix, exclude)
}

/// The reference to the schema named `k`.
pub open spec fn schema_ref_to(k: Seq<char>) -> Seq<char> {
    "#/components/schemas/"@ + k
}

/// The discriminator mapping of the subtypes `ts`: each short name, once,
/// to the reference to its schema.
pub open spec fn subtype_mapping(ts: Seq<(Seq<char>, Seq<char>)>) -> Seq<(Seq<char>, Seq<char>)>
    decreases ts.len(),
{
    if ts.len() == 0 {
        Seq::empty()
    } else {
        view_insert(subtype_mapping(ts.drop_last()), ts.last().1, schema_ref_to(ts.last().0))
    }
}

/// The superclass of the subtypes `ts`: one of them, told apart by `_type`.
pub open spec fn superclass_v(ts: Seq<(Seq<char>, Seq<char>)>) -> SchemaRefV {
    SchemaRefV::Item(
        Box::new(
            SchemaV {
                data: SchemaDataV {
                    nullable: false,
                    read_only: false,
                    deprecated: false,
                    title: None,
                    description: None,
                    discriminator: Some(("_type"@, subtype_mapping(ts))),
                },
                kind: SchemaKindV::OneOf(
                    ts.map_values(|p: (Seq<char>, Seq<char>)| SchemaRefV::Reference(schema_ref_to(p.0))),
                ),
            },
        ),
    )
}

/// The short names of the subtypes, as the values of a string schema.
pub open spec fn short_names(ts: Seq<(Seq<char>, Seq<char>)>) -> Seq<Option<Seq<char>>> {
    ts.map_values(|p: (Seq<char>, Seq<char>)| Some(p.1))
}

/// `props` with `v` under `k`, unless `k` is there already.
pub open spec fn entry_or_insert(props: Seq<(Seq<char>, SchemaRefV)>, k: Seq<char>, v: SchemaRefV) -> Seq<
    (Seq<char>, SchemaRefV),
> {
    if view_key_index(props, k, 0) is Some {
        props
    } else {
        props.push((k, v))
    }
}

/// An object schema with the property `k` added unless it has it; with `k`
/// added to the required properties too, when `require` holds and it is not
/// there; any other schema as it is.
pub open spec fn with_property_v(v: SchemaRefV, k: Seq<char>, p: SchemaRefV, require: bool) -> SchemaRefV {
    match v {
        SchemaRefV::Item(s) => match s.kind {
            SchemaKindV::Type(SchemaTypeV::Object { properties, required, additional_properties }) => SchemaRefV::Item(
                Box::new(
                    SchemaV {
                        data: s.data,
                        kind: SchemaKindV::Type(
                            SchemaTypeV::Object {
                                properties: entry_or_insert(properties, k, p),
                                required: if require && !required.contains(k) {
                                    required.push(k)
                                } else {
                                    required
                                },
                                additional_properties,
                            },
                        ),
                    },
                ),
            ),
            _ => v,
        },
        SchemaRefV::Reference(_) => v,
    }
}

/// Whether a schema is an object schema.
pub open spec fn is_object_v(v: SchemaRefV) -> bool {
    v matches SchemaRefV::Item(s) && s.kind matches SchemaKindV::Type(SchemaTypeV::Object { .. })
}

/// The first object schema in `all` from index `i` on.
pub open spec fn first_object_from(all: Seq<SchemaRefV>, i: int) -> Option<int>
    decreases all.len() - i,
{
    if i < 0 || i >= all.len() {
        None
    } else if is_object_v(all[i]) {
        Some(i)
    } else {
        first_object_from(all, i + 1)
    }
}

/// An object schema whose `typedValue` property, when it is a schema, is
/// made all of `MetadataTypedValue`; any other schema as it is.
pub open spec fn retype_typed_value_v(v: SchemaRefV) -> SchemaRefV {
    match v {
        SchemaRefV::Item(s) => match s.kind {
            SchemaKindV::Type(SchemaTypeV::Object { properties, required, additional_properties }) => match view_key_index(
                properties,
                "typedValue"@,
                0,
            ) {
                Some(p) => match properties[p].1 {
                    SchemaRefV::Item(tv) => SchemaRefV::Item(
                        Box::new(
                            SchemaV {
                                data: s.data,
                                kind: SchemaKindV::Type(
                                    SchemaTypeV::Object {
                                        properties: properties.update(
                                            p,
                                            (
                                                properties[p].0,
                                                SchemaRefV::Item(
                                                    Box::new(
                                                        SchemaV {
                                                            data: tv.data,
                                                            kind: SchemaKindV::AllOf(
                                                                seq![SchemaRefV::Reference(schema_ref_to("MetadataTypedValue"@))],
                                                            ),
                                                        },
                                                    ),
                                                ),
                                            ),
                                        ),
                                        required,
                                        additional_properties,
                                    },
                                ),
                            },
                        ),
                    ),
                    SchemaRefV::Reference(_) => v,
                },
                None => v,
            },
            _ => v,
        },
        SchemaRefV::Reference(_) => v,
    }
}

/// A schema that is all of other schemas, with the first object among them
/// changed by `retype_typed_value_v`; any other schema as it is.
pub open spec fn retype_in_all_of_v(v: SchemaRefV) -> SchemaRefV {
    match v {
        SchemaRefV::Item(s) => match s.kind {
            SchemaKindV::AllOf(all) => match first_object_from(all, 0) {
                Some(j) => SchemaRefV::Item(
                    Box::new(SchemaV { data: s.data, kind: SchemaKindV::AllOf(all.update(j, retype_typed_value_v(all[j]))) }),
                ),
                None => v,
            },
            _ => v,
        },
        SchemaRefV::Reference(_) => v,
    }
}

/// An object schema with the `record` and `reference` arrays of a
/// container of query results added, unless it has them.
pub open spec fn with_records_v(v: SchemaRefV) -> SchemaRefV {
    with_property_v(
        with_property_v(v, "record"@, array_of_v(schema_ref_to("QueryResultRecordType"@)), false),
        "reference"@,
        array_of_v(schema_ref_to("vcloud_ReferenceType"@)),
        false,
    )
}

/// A schema that is all of other schemas, with the first object among them
/// changed by `with_records_v`; any other schema as it is.
pub open spec fn records_in_all_of_v(v: SchemaRefV) -> SchemaRefV {
    match v {
        SchemaRefV::Item(s) => match s.kind {
            SchemaKindV::AllOf(all) => match first_object_from(all, 0) {
                Some(j) => SchemaRefV::Item(
                    Box::new(SchemaV { data: s.data, kind: SchemaKindV::AllOf(all.update(j, with_records_v(all[j]))) }),
                ),
                None => v,
            },
            _ => v,
        },
        SchemaRefV::Reference(_) => v,
    }
}

/// The subtypes among the schemas of `m`.
fn subtypes_of(m: &IndexMap<String, SchemaRef>, prefix: &str, suffix: &str, exclude: &str) -> (r: Vec<
    (String, String),
>)
    ensures
        pairs_view(r@) == subtypes(schema_map_items(*m), prefix@, suffix@, exclude@),
{
    let ghost items = schema_map_items(*m);
    let n = schemas_len(m);
    let mut r: Vec<(String, String)> = Vec::new();
    let mut i: usize = 0;
    while i < n
        invariant
            items == schema_map_items(*m),
            n == items.len(),
            i <= n,
            pairs_view(r@) == subtypes_from(items, i as int, prefix@, suffix@, exclude@),
        decreases n - i,
    {
        proof {
            reveal_strlit("vcloud_");
        }
        match schemas_get_index(m, i) {
            Some((k, _)) => {
                if starts_with(k.as_str(), "vcloud_") {
                    let t = k.as_str().substring_char(7, k.as_str().unicode_len());
                    if starts_with(t, prefix) && ends_with(t, suffix) && !str_eq(t, exclude) {
                        let p = (k.clone(), String::from_str(t));
                        proof {
                            assert(pairs_view(r@.push(p)) =~= pairs_view(r@).push((k@, t@)));
                        }
                        r.push(p);
                    }
                }
            },
            None => {},
        }
        i = i + 1;
    }
    r
}

/// The superclass of the subtypes `ts`.
fn superclass(ts: &Vec<(String, String)>) -> (r: SchemaRef)
    ensures
        ref_view(r) == superclass_v(pairs_view(ts@)),
{
    let ghost tv = pairs_view(ts@);
    let mut one_of: Vec<SchemaRef> = Vec::new();
    let mut mapping: Vec<(String, String)> = Vec::new();
    let mut k: usize = 0;
    while k < ts.len()
        invariant
            tv == pairs_view(ts@),
            k <= ts@.len(),
            refs_view(one_of@) == tv.take(k as int).map_values(|p: (Seq<char>, Seq<char>)| SchemaRefV::Reference(schema_ref_to(p.0))),
            pairs_view(mapping@) == subtype_mapping(tv.take(k as int)),
        decreases ts@.len() - k,
    {
        let reference = concat("#/components/schemas/", ts[k].0.as_str());
        let r1 = SchemaRef::Reference(reference.clone());
        proof {
            lemma_refs_view_push(one_of@, r1);
            assert(tv.take(k + 1) =~= tv.take(k as int).push(tv[k as int]));
            assert(tv.take(k + 1).map_values(|p: (Seq<char>, Seq<char>)| SchemaRefV::Reference(schema_ref_to(p.0))) =~= tv.take(k as int).map_values(|p: (Seq<char>, Seq<char>)| SchemaRefV::Reference(schema_ref_to(p.0))).push(ref_view(r1)));
            assert(tv.take(k + 1).drop_last() =~= tv.take(k as int));
        }
        one_of.push(r1);
        let key = ts[k].1.clone();
        proof {
            crate::openapi::lemma_pairs_insert(mapping@, key, reference);
        }
        entries_insert(&mut mapping, key, reference);
        k = k + 1;
    }
    assert(tv.take(tv.len() as int) =~= tv);
    let schema_data = SchemaData {
        nullable: false,
        read_only: false,
        deprecated: false,
        title: None,
        description: None,
        discriminator: Some(Discriminator { property_name: String::from_str("_type"), mapping }),
    };
    SchemaRef::Item(Box::new(Schema { schema_data, schema_kind: SchemaKind::OneOf(one_of) }))
}

/// The short names of the subtypes.
fn short_name_values(ts: &Vec<(String, String)>) -> (r: Vec<Option<String>>)
    ensures
        crate::openapi::opt_strs_view(r@) == short_names(pairs_view(ts@)),
{
    let mut r: Vec<Option<String>> = Vec::new();
    let mut k: usize = 0;
    while k < ts.len()
        invariant
            k <= ts@.len(),
            crate::openapi::opt_strs_view(r@) == short_names(pairs_view(ts@).take(k as int)),
        decreases ts@.len() - k,
    {
        let v = Some(ts[k].1.clone());
        proof {
            assert(crate::openapi::opt_strs_view(r@.push(v)) =~= crate::openapi::opt_strs_view(r@).push(crate::openapi::opt_str(v)));
            assert(pairs_view(ts@).take(k + 1) =~= pairs_view(ts@).take(k as int).push(pairs_view(ts@)[k as int]));
            assert(short_names(pairs_view(ts@).take(k + 1)) =~= short_names(pairs_view(ts@).take(k as int)).push(Some(ts@[k as int].1@)));
            assert(crate::openapi::opt_strs_view(r@.push(v)) =~= short_names(pairs_view(ts@).take(k + 1)));
        }
        r.push(v);
        k = k + 1;
    }
    assert(pairs_view(ts@).take(ts@.len() as int) =~= pairs_view(ts@));
    r
}

/// Whether `v` contains `k`.
fn contains_name(v: &Vec<String>, k: &str) -> (r: bool)
    ensures
        r == strs_view(v@).contains(k@),
{
    let mut i: usize = 0;
    while i < v.len()
        invariant
            i <= v@.len(),
            forall|j: int| 0 <= j < i ==> strs_view(v@)[j] != k@,
        decreases v@.len() - i,
    {
        if str_eq(v[i].as_str(), k) {
            assert(strs_view(v@)[i as int] == k@);
            return true;
        }
        i = i + 1;
    }
    false
}

/// An object schema with the property `k` added unless it has it (and, when
/// `require` holds, required); any other schema as it is.
fn with_property(v: SchemaRef, k: &str, p: SchemaRef, require: bool) -> (r: SchemaRef)
    ensures
        ref_view(r) == with_property_v(ref_view(v), k@, ref_view(p), require),
{
    match v {
        SchemaRef::Item(b) => {
            let s = *b;
            let schema_data = s.schema_data;
            match s.schema_kind {
                SchemaKind::Type(SchemaType::Object(o)) => {
                    let mut properties = o.properties;
                    if properties.index_of(k).is_none() {
                        let key = String::from_str(k);
                        properties.insert(key, p);
                    }
                    let mut required = o.required;
                    if require && !contains_name(&required, k) {
                        let key = String::from_str(k);
                        proof {
                            assert(strs_view(required@.push(key)) =~= strs_view(required@).push(k@));
                        }
                        required.push(key);
                    }
                    let t = SchemaType::Object(
                        ObjectType { properties, required, additional_properties: o.additional_properties },
                    );
                    SchemaRef::Item(Box::new(Schema { schema_data, schema_kind: SchemaKind::Type(t) }))
                },
                other => SchemaRef::Item(Box::new(Schema { schema_data, schema_kind: other })),
            }
        },
        other => other,
    }
}

/// An object schema whose `typedValue` property is made all of
/// `MetadataTypedValue`.
fn retype_typed_value(v: SchemaRef) -> (r: SchemaRef)
    ensures
        ref_view(r) == retype_typed_value_v(ref_view(v)),
{
    match v {
        SchemaRef::Item(b) => {
            let s = *b;
            let schema_data = s.schema_data;
            match s.schema_kind {
                SchemaKind::Type(SchemaType::Object(o)) => {
                    let mut properties = o.properties;
                    let ghost ps0 = property_items(properties);
                    proof {
                        crate::openapi::lemma_view_key_index_bound(ps0, "typedValue"@, 0);
                    }
                    match properties.index_of("typedValue") {
                        Some(p) => {
                            let value = properties.replace_at(p, SchemaRef::Reference(String::new()));
                            let nv = match value {
                                SchemaRef::Item(tvb) => {
                                    let tv = *tvb;
                                    let mut all_of: Vec<SchemaRef> = Vec::new();
                                    let target = SchemaRef::Reference(concat("#/components/schemas/", "MetadataTypedValue"));
                                    proof {
                                        lemma_refs_view_push(all_of@, target);
                                        assert(refs_view(all_of@) =~= Seq::<SchemaRefV>::empty());
                                    }
                                    all_of.push(target);
                                    SchemaRef::Item(Box::new(Schema { schema_data: tv.schema_data, schema_kind: SchemaKind::AllOf(all_of) }))
                                },
                                other => other,
                            };
                            let ghost rv = ref_view(nv);
                            properties.replace_at(p, nv);
                            proof {
                                assert(property_items(properties) =~= ps0.update(p as int, (ps0[p as int].0, rv)));
                                if ps0[p as int].1 is Reference {
                                    assert(ps0.update(p as int, (ps0[p as int].0, rv)) =~= ps0);
                                }
                            }
                        },
                        None => {},
                    }
                    let t = SchemaType::Object(
                        ObjectType { properties, required: o.required, additional_properties: o.additional_properties },
                    );
                    SchemaRef::Item(Box::new(Schema { schema_data, schema_kind: SchemaKind::Type(t) }))
                },
                other => SchemaRef::Item(Box::new(Schema { schema_data, schema_kind: other })),
            }
        },
        other => other,
    }
}


/// Whether a schema is an object schema.
fn is_object(r: &SchemaRef) -> (b: bool)
    ensures
        b == is_object_v(ref_view(*r)),
{
    match r {
        SchemaRef::Item(s) => match &s.schema_kind {
            SchemaKind::Type(SchemaType::Object(_)) => true,
            _ => false,
        },
        SchemaRef::Reference(_) => false,
    }
}

/// The first object schema in `all`.
fn first_object(all: &Vec<SchemaRef>) -> (r: Option<usize>)
    ensures
        opt_int(r) == first_object_from(refs_view(all@), 0),
        r matches Some(j) ==> j < all@.len(),
{
    proof {
        lemma_refs_view_index(all@);
    }
    let mut j: usize = 0;
    while j < all.len()
        invariant
            j <= all@.len(),
            refs_view(all@).len() == all@.len(),
            forall|i: int| 0 <= i < all@.len() ==> #[trigger] refs_view(all@)[i] == ref_view(all@[i]),
            first_object_from(refs_view(all@), 0) == first_object_from(refs_view(all@), j as int),
        decreases all@.len() - j,
    {
        if is_object(&all[j]) {
            return Some(j);
        }
        j = j + 1;
    }
    None
}

/// An object schema with the `record` and `reference` arrays of a
/// container of query results added, unless it has them.
fn with_records(v: SchemaRef) -> (r: SchemaRef)
    ensures
        ref_view(r) == with_records_v(ref_view(v)),
{
    let a = concat("#/components/schemas/", "QueryResultRecordType");
    let b = concat("#/components/schemas/", "vcloud_ReferenceType");
    let v1 = with_property(v, "record", array_of(a.as_str()), false);
    with_property(v1, "reference", array_of(b.as_str()), false)
}

/// Applies `retype_typed_value` to the first object of a schema that is all
/// of other schemas.
fn retype_in_all_of(v: SchemaRef) -> (r: SchemaRef)
    ensures
        ref_view(r) == retype_in_all_of_v(ref_view(v)),
{
    match v {
        SchemaRef::Item(b) => {
            let s = *b;
            let schema_data = s.schema_data;
            match s.schema_kind {
                SchemaKind::AllOf(all) => {
                    let mut all = all;
                    let ghost a0 = all@;
                    proof {
                        lemma_refs_view_index(all@);
                    }
                    match first_object(&all) {
                        Some(j) => {
                            let item = all.remove(j);
                            assert(item == a0[j as int]);
                            let ni = retype_typed_value(item);
                            all.insert(j, ni);
                            proof {
                                assert(all@ =~= a0.update(j as int, ni));
                                crate::openapi::lemma_refs_view_update(a0, j as int, ni);
                            }
                        },
                        None => {},
                    }
                    SchemaRef::Item(Box::new(Schema { schema_data, schema_kind: SchemaKind::AllOf(all) }))
                },
                other => SchemaRef::Item(Box::new(Schema { schema_data, schema_kind: other })),
            }
        },
        other => other,
    }
}

/// Applies `with_records` to the first object of a schema that is all of
/// other schemas.
fn records_in_all_of(v: SchemaRef) -> (r: SchemaRef)
    ensures
        ref_view(r) == records_in_all_of_v(ref_view(v)),
{
    match v {
        SchemaRef::Item(b) => {
            let s = *b;
            let schema_data = s.schema_data;
            match s.schema_kind {
                SchemaKind::AllOf(all) => {
                    let mut all = all;
                    let ghost a0 = all@;
                    proof {
                        lemma_refs_view_index(all@);
                    }
                    match first_object(&all) {
                        Some(j) => {
                            let item = all.remove(j);
                            assert(item == a0[j as int]);
                            let ni = with_records(item);
                            all.insert(j, ni);
                            proof {
                                assert(all@ =~= a0.update(j as int, ni));
                                crate::openapi::lemma_refs_view_update(a0, j as int, ni);
                            }
                        },
                        None => {},
                    }
                    SchemaRef::Item(Box::new(Schema { schema_data, schema_kind: SchemaKind::AllOf(all) }))
                },
                other => SchemaRef::Item(Box::new(Schema { schema_data, schema_kind: other })),
            }
        },
        other => other,
    }
}

/// The schemas with the schema named `key` changed by `f`, when there is one.
pub open spec fn update_at(
    items: Seq<(Seq<char>, SchemaRefV)>,
    key: Seq<char>,
    f: spec_fn(SchemaRefV) -> SchemaRefV,
) -> Seq<(Seq<char>, SchemaRefV)> {
    match view_key_index(items, key, 0) {
        Some(i) => items.update(i, (items[i].0, f(items[i].1))),
        None => items,
    }
}

/// What `metadata_superclass` makes of the schemas `items`: a superclass
/// `MetadataTypedValue` of the typed metadata values, which the
/// `typedValue` properties refer to, and a required `_type` property of
/// `vcloud_MetadataTypedValue` that lists them.
pub open spec fn metadata_superclass_v(items: Seq<(Seq<char>, SchemaRefV)>) -> Seq<(Seq<char>, SchemaRefV)> {
    let mt = subtypes(items, "Metadata"@, "Value"@, "MetadataTypedValue"@);
    let items1 = view_insert(items, "MetadataTypedValue"@, superclass_v(mt));
    let items2 = items1.map_values(|e: (Seq<char>, SchemaRefV)| (e.0, retype_in_all_of_v(e.1)));
    update_at(
        items2,
        "vcloud_MetadataTypedValue"@,
        |v: SchemaRefV| with_property_v(v, "_type"@, string_schema_v(short_names(mt)), true),
    )
}

/// What `query_superclass` makes of the schemas `items`: a superclass
/// `QueryResultRecordType` of the query result records, a `_type` property
/// of `vcloud_QueryResultRecordType` that lists them, and the `record` and
/// `reference` arrays of `vcloud_ContainerType`.
pub open spec fn query_superclass_v(items: Seq<(Seq<char>, SchemaRefV)>) -> Seq<(Seq<char>, SchemaRefV)> {
    let qt = subtypes(items, "QueryResult"@, "RecordType"@, "QueryResultRecordType"@);
    let items1 = view_insert(items, "QueryResultRecordType"@, superclass_v(qt));
    let items2 = update_at(
        items1,
        "vcloud_QueryResultRecordType"@,
        |v: SchemaRefV| with_property_v(v, "_type"@, string_schema_v(short_names(qt)), false),
    );
    update_at(items2, "vcloud_ContainerType"@, |v: SchemaRefV| records_in_all_of_v(v))
}

/// Adds a superclass of the typed metadata values, refers the `typedValue`
/// properties to it, and gives `vcloud_MetadataTypedValue` a required
/// `_type` property that lists them.
pub fn metadata_superclass(output: &mut IndexMap<String, SchemaRef>)
    ensures
        schema_map_items(*final(output)) == metadata_superclass_v(schema_map_items(*old(output))),
{
    let ghost items0 = schema_map_items(*output);
    let mt = subtypes_of(output, "Metadata", "Value", "MetadataTypedValue");
    schemas_insert(output, String::from_str("MetadataTypedValue"), superclass(&mt));
    let ghost items1 = schema_map_items(*output);
    let n = schemas_len(output);
    let mut i: usize = 0;
    while i < n
        invariant
            items1 == view_insert(items0, "MetadataTypedValue"@, superclass_v(pairs_view(mt@))),
            n == items1.len(),
            i <= n,
            schema_map_items(*output).len() == n,
            forall|j: int| 0 <= j < i ==> #[trigger] schema_map_items(*output)[j] == (items1[j].0, retype_in_all_of_v(items1[j].1)),
            forall|j: int| i <= j < n ==> #[trigger] schema_map_items(*output)[j] == items1[j],
        decreases n - i,
    {
        let v = schemas_replace_at(output, i, SchemaRef::Reference(String::new()));
        let v2 = retype_in_all_of(v);
        schemas_replace_at(output, i, v2);
        i = i + 1;
    }
    let ghost items2 = schema_map_items(*output);
    assert(items2 =~= items1.map_values(|e: (Seq<char>, SchemaRefV)| (e.0, retype_in_all_of_v(e.1))));
    match schemas_index_of(output, "vcloud_MetadataTypedValue") {
        Some(i) => {
            proof {
                crate::openapi::lemma_view_key_index_bound(items2, "vcloud_MetadataTypedValue"@, 0);
            }
            let v = schemas_replace_at(output, i, SchemaRef::Reference(String::new()));
            let v2 = with_property(v, "_type", string_schema(short_name_values(&mt)), true);
            schemas_replace_at(output, i, v2);
        },
        None => {},
    }
}

/// Adds a superclass of the query result records, gives
/// `vcloud_QueryResultRecordType` a `_type` property that lists them, and
/// gives `vcloud_ContainerType` its `record` and `reference` arrays.
pub fn query_superclass(output: &mut IndexMap<String, SchemaRef>)
    ensures
        schema_map_items(*final(output)) == query_superclass_v(schema_map_items(*old(output))),
{
    let qt = subtypes_of(output, "QueryResult", "RecordType", "QueryResultRecordType");
    schemas_insert(output, String::from_str("QueryResultRecordType"), superclass(&qt));
    let ghost items1 = schema_map_items(*output);
    match schemas_index_of(output, "vcloud_QueryResultRecordType") {
        Some(i) => {
            proof {
                crate::openapi::lemma_view_key_index_bound(items1, "vcloud_QueryResultRecordType"@, 0);
            }
            let v = schemas_replace_at(output, i, SchemaRef::Reference(String::new()));
            let v2 = with_property(v, "_type", string_schema(short_name_values(&qt)), false);
            schemas_replace_at(output, i, v2);
        },
        None => {},
    }
    let ghost items2 = schema_map_items(*output);
    let ghost qtv = pairs_view(qt@);
    assert(items2 == update_at(
        items1,
        "vcloud_QueryResultRecordType"@,
        |v: SchemaRefV| with_property_v(v, "_type"@, string_schema_v(short_names(qtv)), false),
    ));
    match schemas_index_of(output, "vcloud_ContainerType") {
        Some(i) => {
            proof {
                crate::openapi::lemma_view_key_index_bound(items2, "vcloud_ContainerType"@, 0);
            }
            let v = schemas_replace_at(output, i, SchemaRef::Reference(String::new()));
            let v2 = records_in_all_of(v);
            schemas_replace_at(output, i, v2);
        },
        None => {},
    }
}

// ----- applying a change twice -----
proof fn lemma_subtypes_same_names(
    a: Seq<(Seq<char>, SchemaRefV)>,
    b: Seq<(Seq<char>, SchemaRefV)>,
    hi: int,
    prefix: Seq<char>,
    suffix: Seq<char>,
    exclude: Seq<char>,
)
    requires
        hi <= a.len(),
        hi <= b.len(),
        forall|i: int| 0 <= i < hi ==> #[trigger] a[i].0 == b[i].0,
    ensures
        subtypes_from(a, hi, prefix, suffix, exclude) == subtypes_from(b, hi, prefix, suffix, exclude),
    decreases hi,
{
    if hi > 0 {
        lemma_subtypes_same_names(a, b, hi - 1, prefix, suffix, exclude);
        assert(a[hi - 1].0 == b[hi - 1].0);
    }
}

/// Inserting a schema whose name is outside the `vcloud` namespace leaves
/// the subtypes as they were.
proof fn lemma_subtypes_insert_other(
    items: Seq<(Seq<char>, SchemaRefV)>,
    k: Seq<char>,
    v: SchemaRefV,
    prefix: Seq<char>,
    suffix: Seq<char>,
    exclude: Seq<char>,
)
    requires
        vcloud_name(k) is None,
    ensures
        subtypes(view_insert(items, k, v), prefix, suffix, exclude) == subtypes(items, prefix, suffix, exclude),
{
    crate::openapi::lemma_view_key_index_bound(items, k, 0);
    let r = view_insert(items, k, v);
    match view_key_index(items, k, 0) {
        Some(j) => {
            assert forall|i: int| 0 <= i < items.len() implies #[trigger] r[i].0 == items[i].0 by {
                if i == j {
                    assert(items[j].0 == k);
                }
            }
            lemma_subtypes_same_names(r, items, items.len() as int, prefix, suffix, exclude);
        },
        None => {
            lemma_subtypes_same_names(r, items, items.len() as int, prefix, suffix, exclude);
            assert(r[items.len() as int].0 == k);
        },
    }
}

proof fn lemma_retype_typed_value_twice(v: SchemaRefV)
    ensures
        retype_typed_value_v(retype_typed_value_v(v)) == retype_typed_value_v(v),
        is_object_v(v) ==> is_object_v(retype_typed_value_v(v)),
{
    match v {
        SchemaRefV::Item(s) => match s.kind {
            SchemaKindV::Type(SchemaTypeV::Object { properties, required, additional_properties }) => {
                crate::openapi::lemma_view_key_index_bound(properties, "typedValue"@, 0);
                match view_key_index(properties, "typedValue"@, 0) {
                    Some(p) => match properties[p].1 {
                        SchemaRefV::Item(tv) => {
                            let np = properties.update(
                                p,
                                (
                                    properties[p].0,
                                    SchemaRefV::Item(
                                        Box::new(
                                            SchemaV {
                                                data: tv.data,
                                                kind: SchemaKindV::AllOf(
                                                    seq![SchemaRefV::Reference(schema_ref_to("MetadataTypedValue"@))],
                                                ),
                                            },
                                        ),
                                    ),
                                ),
                            );
                            lemma_view_key_index_same_keys(properties, np, "typedValue"@, 0);
                            assert(np.update(p, np[p]) =~= np);
                        },
                        SchemaRefV::Reference(_) => {},
                    },
                    None => {},
                }
            },
            _ => {},
        },
        SchemaRefV::Reference(_) => {},
    }
}

/// Where only values differ, keys are found at the same places.
proof fn lemma_view_key_index_same_keys(
    a: Seq<(Seq<char>, SchemaRefV)>,
    b: Seq<(Seq<char>, SchemaRefV)>,
    k: Seq<char>,
    i: int,
)
    requires
        a.len() == b.len(),
        forall|j: int| 0 <= j < a.len() ==> #[trigger] a[j].0 == b[j].0,
    ensures
        view_key_index(a, k, i) == view_key_index(b, k, i),
    decreases a.len() - i,
{
    if 0 <= i < a.len() {
        assert(a[i].0 == b[i].0);
        lemma_view_key_index_same_keys(a, b, k, i + 1);
    }
}

proof fn lemma_first_object_update(all: Seq<SchemaRefV>, j: int, x: SchemaRefV, i: int)
    requires
        0 <= i,
        first_object_from(all, i) == Some(j),
        is_object_v(x),
    ensures
        first_object_from(all.update(j, x), i) == Some(j),
    decreases all.len() - i,
{
    lemma_first_object_found(all, i);
    if i < j {
        lemma_first_object_update(all, j, x, i + 1);
    }
}

proof fn lemma_first_object_found(all: Seq<SchemaRefV>, i: int)
    requires
        0 <= i,
    ensures
        first_object_from(all, i) matches Some(j) ==> i <= j < all.len() && is_object_v(all[j]),
    decreases all.len() - i,
{
    if 0 <= i < all.len() && !is_object_v(all[i]) {
        lemma_first_object_found(all, i + 1);
    }
}

/// Referring the `typedValue` properties to the superclass twice gives what
/// doing it once gives.
pub proof fn lemma_retype_in_all_of_twice(v: SchemaRefV)
    ensures
        retype_in_all_of_v(retype_in_all_of_v(v)) == retype_in_all_of_v(v),
{
    match v {
        SchemaRefV::Item(s) => match s.kind {
            SchemaKindV::AllOf(all) => {
                lemma_first_object_found(all, 0);
                match first_object_from(all, 0) {
                    Some(j) => {
                        lemma_retype_typed_value_twice(all[j]);
                        let x = retype_typed_value_v(all[j]);
                        lemma_first_object_update(all, j, x, 0);
                        assert(all.update(j, x).update(j, retype_typed_value_v(x)) =~= all.update(j, x));
                    },
                    None => {},
                }
            },
            _ => {},
        },
        SchemaRefV::Reference(_) => {},
    }
}

/// Adding a property twice gives what adding it once gives.
pub proof fn lemma_with_property_twice(v: SchemaRefV, k: Seq<char>, p: SchemaRefV, q: SchemaRefV, require: bool)
    ensures
        with_property_v(with_property_v(v, k, p, require), k, q, require) == with_property_v(v, k, p, require),
        is_object_v(v) ==> is_object_v(with_property_v(v, k, p, require)),
        !is_object_v(v) ==> with_property_v(v, k, p, require) == v,
{
    match v {
        SchemaRefV::Item(s) => match s.kind {
            SchemaKindV::Type(SchemaTypeV::Object { properties, required, additional_properties }) => {
                let e = entry_or_insert(properties, k, p);
                crate::openapi::lemma_view_key_index_bound(properties, k, 0);
                if view_key_index(properties, k, 0) is None {
                    crate::openapi::lemma_view_key_index_bound(e, k, 0);
                    assert(e[properties.len() as int].0 == k);
                    if view_key_index(e, k, 0) is None {
                        lemma_key_absent(e, k, 0);
                    }
                }
                if require && !required.contains(k) {
                    assert(required.push(k)[required.len() as int] == k);
                    assert(required.push(k).contains(k));
                }
            },
            _ => {},
        },
        SchemaRefV::Reference(_) => {},
    }
}

proof fn lemma_key_absent(m: Seq<(Seq<char>, SchemaRefV)>, k: Seq<char>, i: int)
    requires
        0 <= i,
        view_key_index(m, k, i) is None,
    ensures
        forall|j: int| i <= j < m.len() ==> #[trigger] m[j].0 != k,
    decreases m.len() - i,
{
    if i < m.len() {
        lemma_key_absent(m, k, i + 1);
    }
}

proof fn lemma_retype_object(w: SchemaRefV)
    requires
        is_object_v(w),
    ensures
        retype_in_all_of_v(w) == w,
{
}

/// Making the superclass of the typed metadata values twice gives what
/// making it once gives.
pub proof fn lemma_metadata_superclass_twice(items: Seq<(Seq<char>, SchemaRefV)>)
    ensures
        metadata_superclass_v(metadata_superclass_v(items)) == metadata_superclass_v(items),
{
    let k1 = "MetadataTypedValue"@;
    let k2 = "vcloud_MetadataTypedValue"@;
    reveal_strlit("MetadataTypedValue");
    reveal_strlit("vcloud_MetadataTypedValue");
    reveal_strlit("vcloud_");
    assert(!"vcloud_"@.is_prefix_of(k1)) by {
        assert("vcloud_"@[0] != k1[0]);
    }
    assert(k1 != k2) by {
        assert(k1.len() != k2.len());
    }
    let mt = subtypes(items, "Metadata"@, "Value"@, "MetadataTypedValue"@);
    let sc = superclass_v(mt);
    let items1 = view_insert(items, k1, sc);
    let rt = |e: (Seq<char>, SchemaRefV)| (e.0, retype_in_all_of_v(e.1));
    let items2 = items1.map_values(rt);
    let f = |v: SchemaRefV| with_property_v(v, "_type"@, string_schema_v(short_names(mt)), true);
    let r = update_at(items2, k2, f);
    assert(r == metadata_superclass_v(items));
    assert(items2.len() == items1.len());
    crate::openapi::lemma_view_key_index_bound(items2, k2, 0);
    // The names are those of `items1`.
    assert(r.len() == items1.len());
    assert forall|i: int| 0 <= i < r.len() implies #[trigger] r[i].0 == items1[i].0 by {
        assert(items2[i].0 == items1[i].0);
    }
    // The subtypes are the same.
    lemma_subtypes_same_names(r, items1, r.len() as int, "Metadata"@, "Value"@, "MetadataTypedValue"@);
    lemma_subtypes_insert_other(items, k1, sc, "Metadata"@, "Value"@, "MetadataTypedValue"@);
    assert(subtypes(r, "Metadata"@, "Value"@, "MetadataTypedValue"@) == mt);
    // The superclass is there already.
    crate::openapi::lemma_insert_then_lookup(items, k1, sc, k2);
    let j1 = view_key_index(items1, k1, 0)->0;
    crate::openapi::lemma_view_key_index_bound(items1, k1, 0);
    lemma_view_key_index_same_keys(r, items1, k1, 0);
    assert(items1[j1] == (k1, sc));
    assert(retype_in_all_of_v(sc) == sc);
    assert(items2[j1] == (k1, sc));
    if let Some(j2) = view_key_index(items2, k2, 0) {
        assert(j2 != j1);
    }
    assert(r[j1] == (k1, sc));
    crate::openapi::lemma_insert_same(r, k1, sc);
    let r1 = view_insert(r, k1, sc);
    assert(r1 == r);
    // Referring the typed values again changes nothing.
    let r2 = r1.map_values(rt);
    assert forall|i: int| 0 <= i < r.len() implies #[trigger] r2[i] == r[i] by {
        lemma_retype_in_all_of_twice(items1[i].1);
        match view_key_index(items2, k2, 0) {
            Some(j2) => {
                if i == j2 {
                    let y = items2[j2].1;
                    lemma_with_property_twice(y, "_type"@, string_schema_v(short_names(mt)), string_schema_v(short_names(mt)), true);
                    if is_object_v(y) {
                        lemma_retype_object(f(y));
                    }
                }
            },
            None => {},
        }
    }
    assert(r2 =~= r);
    // Adding the property again changes nothing.
    lemma_view_key_index_same_keys(r, items2, k2, 0);
    match view_key_index(items2, k2, 0) {
        Some(j2) => {
            let y = items2[j2].1;
            lemma_with_property_twice(y, "_type"@, string_schema_v(short_names(mt)), string_schema_v(short_names(mt)), true);
            assert(update_at(r2, k2, f) =~= r);
        },
        None => {},
    }
}

/// The properties of an object schema.
pub open spec fn object_properties(v: SchemaRefV) -> Seq<(Seq<char>, SchemaRefV)> {
    match v {
        SchemaRefV::Item(s) => match s.kind {
            SchemaKindV::Type(SchemaTypeV::Object { properties, .. }) => properties,
            _ => Seq::empty(),
        },
        SchemaRefV::Reference(_) => Seq::empty(),
    }
}

proof fn lemma_with_property_has(v: SchemaRefV, k: Seq<char>, p: SchemaRefV, other: Seq<char>, require: bool)
    requires
        is_object_v(v),
    ensures
        view_key_index(object_properties(with_property_v(v, k, p, require)), k, 0) is Some,
        view_key_index(object_properties(v), other, 0) is Some ==> view_key_index(
            object_properties(with_property_v(v, k, p, require)),
            other,
            0,
        ) is Some,
{
    let ps = object_properties(v);
    crate::openapi::lemma_view_key_index_bound(ps, k, 0);
    crate::openapi::lemma_view_key_index_bound(ps, other, 0);
    if view_key_index(ps, k, 0) is None {
        let e = ps.push((k, p));
        assert(e[ps.len() as int].0 == k);
        if view_key_index(e, k, 0) is None {
            lemma_key_absent(e, k, 0);
        }
        if view_key_index(ps, other, 0) is Some {
            let j = view_key_index(ps, other, 0)->0;
            assert(e[j].0 == other);
            if view_key_index(e, other, 0) is None {
                lemma_key_absent(e, other, 0);
            }
        }
    }
}

proof fn lemma_with_property_present(v: SchemaRefV, k: Seq<char>, p: SchemaRefV)
    requires
        is_object_v(v),
        view_key_index(object_properties(v), k, 0) is Some,
    ensures
        with_property_v(v, k, p, false) == v,
{
}

/// Adding the arrays of a container of query results twice gives what
/// adding them once gives.
pub proof fn lemma_records_in_all_of_twice(v: SchemaRefV)
    ensures
        records_in_all_of_v(records_in_all_of_v(v)) == records_in_all_of_v(v),
{
    let a = array_of_v(schema_ref_to("QueryResultRecordType"@));
    let b = array_of_v(schema_ref_to("vcloud_ReferenceType"@));
    match v {
        SchemaRefV::Item(s) => match s.kind {
            SchemaKindV::AllOf(all) => {
                lemma_first_object_found(all, 0);
                match first_object_from(all, 0) {
                    Some(j) => {
                        let w = all[j];
                        let w1 = with_property_v(w, "record"@, a, false);
                        let x = with_records_v(w);
                        lemma_with_property_twice(w, "record"@, a, a, false);
                        lemma_with_property_twice(w1, "reference"@, b, b, false);
                        lemma_with_property_has(w, "record"@, a, "reference"@, false);
                        lemma_with_property_has(w1, "reference"@, b, "record"@, false);
                        lemma_with_property_present(x, "record"@, a);
                        lemma_with_property_present(x, "reference"@, b);
                        assert(with_records_v(x) == x);
                        lemma_first_object_update(all, j, x, 0);
                        assert(all.update(j, x).update(j, with_records_v(x)) =~= all.update(j, x));
                    },
                    None => {},
                }
            },
            _ => {},
        },
        SchemaRefV::Reference(_) => {},
    }
}

/// Making the superclass of the query result records twice gives what
/// making it once gives.
pub proof fn lemma_query_superclass_twice(items: Seq<(Seq<char>, SchemaRefV)>)
    ensures
        query_superclass_v(query_superclass_v(items)) == query_superclass_v(items),
{
    let k1 = "QueryResultRecordType"@;
    let k2 = "vcloud_QueryResultRecordType"@;
    let k3 = "vcloud_ContainerType"@;
    reveal_strlit("QueryResultRecordType");
    reveal_strlit("vcloud_QueryResultRecordType");
    reveal_strlit("vcloud_ContainerType");
    reveal_strlit("vcloud_");
    assert(!"vcloud_"@.is_prefix_of(k1)) by {
        assert("vcloud_"@[0] != k1[0]);
    }
    assert(k1 != k2 && k1 != k3 && k2 != k3) by {
        assert(k1.len() != k2.len());
        assert(k1[0] != k3[0]);
        assert(k2.len() != k3.len());
    }
    let qt = subtypes(items, "QueryResult"@, "RecordType"@, "QueryResultRecordType"@);
    let sc = superclass_v(qt);
    let f1 = |v: SchemaRefV| with_property_v(v, "_type"@, string_schema_v(short_names(qt)), false);
    let f2 = |v: SchemaRefV| records_in_all_of_v(v);
    let items1 = view_insert(items, k1, sc);
    let items2 = update_at(items1, k2, f1);
    let r = update_at(items2, k3, f2);
    assert(r == query_superclass_v(items));
    crate::openapi::lemma_view_key_index_bound(items1, k2, 0);
    crate::openapi::lemma_view_key_index_bound(items2, k3, 0);
    assert(r.len() == items1.len());
    assert forall|i: int| 0 <= i < r.len() implies #[trigger] r[i].0 == items1[i].0 by {
        assert(items2[i].0 == items1[i].0);
    }
    lemma_subtypes_same_names(r, items1, r.len() as int, "QueryResult"@, "RecordType"@, "QueryResultRecordType"@);
    lemma_subtypes_insert_other(items, k1, sc, "QueryResult"@, "RecordType"@, "QueryResultRecordType"@);
    assert(subtypes(r, "QueryResult"@, "RecordType"@, "QueryResultRecordType"@) == qt);
    // The superclass is there already.
    crate::openapi::lemma_insert_then_lookup(items, k1, sc, k2);
    let j1 = view_key_index(items1, k1, 0)->0;
    crate::openapi::lemma_view_key_index_bound(items1, k1, 0);
    lemma_view_key_index_same_keys(r, items1, k1, 0);
    lemma_view_key_index_same_keys(items2, items1, k3, 0);
    assert(r[j1] == (k1, sc));
    crate::openapi::lemma_insert_same(r, k1, sc);
    // The property is there already.
    lemma_view_key_index_same_keys(r, items1, k2, 0);
    match view_key_index(items1, k2, 0) {
        Some(j2) => {
            lemma_with_property_twice(items1[j2].1, "_type"@, string_schema_v(short_names(qt)), string_schema_v(short_names(qt)), false);
            if let Some(j3) = view_key_index(items2, k3, 0) {
                assert(j3 != j2);
            }
            assert(r[j2] == (k2, f1(items1[j2].1)));
            assert(update_at(r, k2, f1) =~= r);
        },
        None => {},
    }
    // The arrays are there already.
    lemma_view_key_index_same_keys(r, items2, k3, 0);
    match view_key_index(items2, k3, 0) {
        Some(j3) => {
            lemma_records_in_all_of_twice(items2[j3].1);
            assert(update_at(r, k3, f2) =~= r);
        },
        None => {},
    }
}

/// Whether the map `a` holds the entry `e` under its name.
pub open spec fn holds_entry(a: Seq<(Seq<char>, SchemaRefV)>, e: (Seq<char>, SchemaRefV)) -> bool {
    view_key_index(a, e.0, 0) matches Some(j) && a[j] == e
}

proof fn lemma_insert_all_holds(m: Seq<(Seq<char>, SchemaRefV)>, es: Seq<(Seq<char>, SchemaRefV)>)
    requires
        crate::openapi::view_keys_distinct(es),
    ensures
        forall|i: int| 0 <= i < es.len() ==> holds_entry(insert_all(m, es), #[trigger] es[i]),
    decreases es.len(),
{
    if es.len() > 0 {
        let es0 = es.drop_last();
        assert(crate::openapi::view_keys_distinct(es0)) by {
            assert forall|a: int, b: int| 0 <= a < b < es0.len() implies #[trigger] es0[a].0 != #[trigger] es0[b].0 by {
                assert(es0[a] == es[a] && es0[b] == es[b]);
            }
        }
        lemma_insert_all_holds(m, es0);
        let a = insert_all(m, es0);
        let l = es.last();
        assert forall|i: int| 0 <= i < es.len() implies holds_entry(insert_all(m, es), #[trigger] es[i]) by {
            if i == es.len() - 1 {
                assert(l.0.push(' ').len() != l.0.len());
                crate::openapi::lemma_insert_then_lookup(a, l.0, l.1, l.0.push(' '));
                crate::openapi::lemma_view_key_index_bound(view_insert(a, l.0, l.1), l.0, 0);
            } else {
                assert(es0[i] == es[i]);
                assert(es[i].0 != l.0);
                crate::openapi::lemma_insert_then_lookup(a, l.0, l.1, es[i].0);
            }
        }
    }
}

proof fn lemma_insert_all_same(a: Seq<(Seq<char>, SchemaRefV)>, es: Seq<(Seq<char>, SchemaRefV)>)
    requires
        forall|i: int| 0 <= i < es.len() ==> holds_entry(a, #[trigger] es[i]),
    ensures
        insert_all(a, es) == a,
    decreases es.len(),
{
    if es.len() > 0 {
        let es0 = es.drop_last();
        assert forall|i: int| 0 <= i < es0.len() implies holds_entry(a, #[trigger] es0[i]) by {
            assert(es0[i] == es[i]);
        }
        lemma_insert_all_same(a, es0);
        let l = es.last();
        assert(holds_entry(a, es[es.len() - 1]));
        crate::openapi::lemma_insert_same(a, l.0, l.1);
    }
}

/// Adding entries with distinct names twice gives what adding them once
/// gives.
pub proof fn lemma_insert_all_twice(m: Seq<(Seq<char>, SchemaRefV)>, es: Seq<(Seq<char>, SchemaRefV)>)
    requires
        crate::openapi::view_keys_distinct(es),
    ensures
        insert_all(insert_all(m, es), es) == insert_all(m, es),
{
    lemma_insert_all_holds(m, es);
    lemma_insert_all_same(insert_all(m, es), es);
}

proof fn lemma_prefixed_distinct(p: Seq<char>, a: Seq<char>, b: Seq<char>)
    requires
        a != b,
    ensures
        p + a != p + b,
{
    if p + a == p + b {
        assert((p + a).subrange(p.len() as int, (p + a).len() as int) =~= a);
        assert((p + b).subrange(p.len() as int, (p + b).len() as int) =~= b);
    }
}

/// The schemas of the query parameters have distinct names.
pub proof fn lemma_query_parameter_names_distinct(query_names: Seq<Seq<char>>)
    ensures
        crate::openapi::view_keys_distinct(query_parameter_schemas(query_names)),
{
    let names = seq![
        "force"@, "recursive"@, "fields"@, "filter"@, "filterEncoded"@, "format"@, "links"@,
        "offset"@, "page"@, "pageSize"@, "sortAsc"@, "sortDesc"@, "type"@,
    ];
    reveal_strlit("force");
    reveal_strlit("recursive");
    reveal_strlit("fields");
    reveal_strlit("filter");
    reveal_strlit("filterEncoded");
    reveal_strlit("format");
    reveal_strlit("links");
    reveal_strlit("offset");
    reveal_strlit("page");
    reveal_strlit("pageSize");
    reveal_strlit("sortAsc");
    reveal_strlit("sortDesc");
    reveal_strlit("type");
    let es = query_parameter_schemas(query_names);
    assert(es.len() == 13);
    assert forall|i: int| 0 <= i < 13 implies #[trigger] es[i].0 == query_parameter_key(names[i]) by {
    }
    assert forall|a: int, b: int| 0 <= a < b < 13 implies #[trigger] names[a] != #[trigger] names[b] by {
        if names[a].len() == names[b].len() {
            if names[a][0] == names[b][0] {
                assert(names[a][1] != names[b][1] || names[a][2] != names[b][2]);
            }
        }
    }
    assert forall|a: int, b: int| 0 <= a < b < es.len() implies #[trigger] es[a].0 != #[trigger] es[b].0 by {
        lemma_prefixed_distinct("query-parameter_"@, names[a], names[b]);
    }
}

/// Adding the schemas of the query parameters twice, for the same queries,
/// gives what adding them once gives.
pub proof fn lemma_query_parameters_twice(m: Seq<(Seq<char>, SchemaRefV)>, query_names: Seq<Seq<char>>)
    ensures
        insert_all(insert_all(m, query_parameter_schemas(query_names)), query_parameter_schemas(query_names))
            == insert_all(m, query_parameter_schemas(query_names)),
{
    lemma_query_parameter_names_distinct(query_names);
    lemma_insert_all_twice(m, query_parameter_schemas(query_names));
}

/// Whether `r` holds a boolean schema, with nothing else set, under `k`.
pub open spec fn boolean_under(r: Seq<(Seq<char>, SchemaRefV)>, k: Seq<char>) -> bool {
    view_key_index(r, k, 0) matches Some(j) && r[j].1 == SchemaRefV::Item(
        Box::new(SchemaV { data: empty_data_v(), kind: SchemaKindV::Type(SchemaTypeV::Boolean) }),
    )
}

/// After the schemas of the query parameters are added, whatever the map
/// held and whatever the queries are, the parameters `force`, `recursive`,
/// `filterEncoded` and `links` are booleans.
pub proof fn lemma_query_parameter_booleans(m: Seq<(Seq<char>, SchemaRefV)>, query_names: Seq<Seq<char>>)
    ensures
        boolean_under(insert_all(m, query_parameter_schemas(query_names)), "query-parameter_force"@),
        boolean_under(insert_all(m, query_parameter_schemas(query_names)), "query-parameter_recursive"@),
        boolean_under(insert_all(m, query_parameter_schemas(query_names)), "query-parameter_filterEncoded"@),
        boolean_under(insert_all(m, query_parameter_schemas(query_names)), "query-parameter_links"@),
{
    let es = query_parameter_schemas(query_names);
    lemma_query_parameter_names_distinct(query_names);
    lemma_insert_all_holds(m, es);
    reveal_strlit("query-parameter_");
    reveal_strlit("force");
    reveal_strlit("recursive");
    reveal_strlit("filterEncoded");
    reveal_strlit("links");
    reveal_strlit("query-parameter_force");
    reveal_strlit("query-parameter_recursive");
    reveal_strlit("query-parameter_filterEncoded");
    reveal_strlit("query-parameter_links");
    assert(es[0].0 =~= "query-parameter_force"@);
    assert(es[1].0 =~= "query-parameter_recursive"@);
    assert(es[4].0 =~= "query-parameter_filterEncoded"@);
    assert(es[6].0 =~= "query-parameter_links"@);
    assert(holds_entry(insert_all(m, es), es[0]));
    assert(holds_entry(insert_all(m, es), es[1]));
    assert(holds_entry(insert_all(m, es), es[4]));
    assert(holds_entry(insert_all(m, es), es[6]));
}

/// Whether `r` holds the schema `v` under `k`.
pub open spec fn schema_under(r: Seq<(Seq<char>, SchemaRefV)>, k: Seq<char>, v: SchemaRefV) -> bool {
    view_key_index(r, k, 0) matches Some(j) && r[j].1 == v
}

/// After the schemas of the query parameters are added, whatever the map
/// held and whatever the queries are, the other fixed parameters have their
/// documented schemas: `fields`, `filter`, `sortAsc` and `sortDesc` are
/// strings, `format` is one of `references`, `records` and `idrecords`,
/// `offset` is an integer of at least 0, `page` one of at least 1, and
/// `pageSize` one from 1 to 128.
pub proof fn lemma_query_parameter_fixed_schemas(m: Seq<(Seq<char>, SchemaRefV)>, query_names: Seq<Seq<char>>)
    ensures
        schema_under(insert_all(m, query_parameter_schemas(query_names)), "query-parameter_fields"@, SchemaRefV::Item(Box::new(SchemaV { data: empty_data_v(), kind: SchemaKindV::Type(SchemaTypeV::String(StringTypeV { format: StringFormat::Empty, pattern: None, enumeration: Seq::empty() })) }))),
        schema_under(insert_all(m, query_parameter_schemas(query_names)), "query-parameter_filter"@, SchemaRefV::Item(Box::new(SchemaV { data: empty_data_v(), kind: SchemaKindV::Type(SchemaTypeV::String(StringTypeV { format: StringFormat::Empty, pattern: None, enumeration: Seq::empty() })) }))),
        schema_under(insert_all(m, query_parameter_schemas(query_names)), "query-parameter_format"@, SchemaRefV::Item(Box::new(SchemaV { data: empty_data_v(), kind: SchemaKindV::Type(SchemaTypeV::String(StringTypeV { format: StringFormat::Empty, pattern: None, enumeration: seq![Some("references"@), Some("records"@), Some("idrecords"@)] })) }))),
        schema_under(insert_all(m, query_parameter_schemas(query_names)), "query-parameter_offset"@, SchemaRefV::Item(Box::new(SchemaV { data: empty_data_v(), kind: SchemaKindV::Type(SchemaTypeV::Integer { format: IntegerFormat::Empty, minimum: Some(0i64), maximum: None, enumeration: Seq::empty() }) }))),
        schema_under(insert_all(m, query_parameter_schemas(query_names)), "query-parameter_page"@, SchemaRefV::Item(Box::new(SchemaV { data: empty_data_v(), kind: SchemaKindV::Type(SchemaTypeV::Integer { format: IntegerFormat::Empty, minimum: Some(1i64), maximum: None, enumeration: Seq::empty() }) }))),
        schema_under(insert_all(m, query_parameter_schemas(query_names)), "query-parameter_pageSize"@, SchemaRefV::Item(Box::new(SchemaV { data: empty_data_v(), kind: SchemaKindV::Type(SchemaTypeV::Integer { format: IntegerFormat::Empty, minimum: Some(1i64), maximum: Some(128i64), enumeration: Seq::empty() }) }))),
        schema_under(insert_all(m, query_parameter_schemas(query_names)), "query-parameter_sortAsc"@, SchemaRefV::Item(Box::new(SchemaV { data: empty_data_v(), kind: SchemaKindV::Type(SchemaTypeV::String(StringTypeV { format: StringFormat::Empty, pattern: None, enumeration: Seq::empty() })) }))),
        schema_under(insert_all(m, query_parameter_schemas(query_names)), "query-parameter_sortDesc"@, SchemaRefV::Item(Box::new(SchemaV { data: empty_data_v(), kind: SchemaKindV::Type(SchemaTypeV::String(StringTypeV { format: StringFormat::Empty, pattern: None, enumeration: Seq::empty() })) }))),
{
    let es = query_parameter_schemas(query_names);
    lemma_query_parameter_names_distinct(query_names);
    lemma_insert_all_holds(m, es);
    reveal_strlit("query-parameter_");
    reveal_strlit("references");
    reveal_strlit("records");
    reveal_strlit("idrecords");
    reveal_strlit("fields");
    reveal_strlit("query-parameter_fields");
    assert(es[2].0 =~= "query-parameter_fields"@);
    assert(holds_entry(insert_all(m, es), es[2]));
    reveal_strlit("filter");
    reveal_strlit("query-parameter_filter");
    assert(es[3].0 =~= "query-parameter_filter"@);
    assert(holds_entry(insert_all(m, es), es[3]));
    reveal_strlit("format");
    reveal_strlit("query-parameter_format");
    assert(es[5].0 =~= "query-parameter_format"@);
    assert(holds_entry(insert_all(m, es), es[5]));
    reveal_strlit("offset");
    reveal_strlit("query-parameter_offset");
    assert(es[7].0 =~= "query-parameter_offset"@);
    assert(holds_entry(insert_all(m, es), es[7]));
    reveal_strlit("page");
    reveal_strlit("query-parameter_page");
    assert(es[8].0 =~= "query-parameter_page"@);
    assert(holds_entry(insert_all(m, es), es[8]));
    reveal_strlit("pageSize");
    reveal_strlit("query-parameter_pageSize");
    assert(es[9].0 =~= "query-parameter_pageSize"@);
    assert(holds_entry(insert_all(m, es), es[9]));
    reveal_strlit("sortAsc");
    reveal_strlit("query-parameter_sortAsc");
    assert(es[10].0 =~= "query-parameter_sortAsc"@);
    assert(holds_entry(insert_all(m, es), es[10]));
    reveal_strlit("sortDesc");
    reveal_strlit("query-parameter_sortDesc");
    assert(es[11].0 =~= "query-parameter_sortDesc"@);
    assert(holds_entry(insert_all(m, es), es[11]));
}

/// The schema of an object whose only property `name` has the schema `v`,
/// with nothing else set.
pub open spec fn one_property_object(name: Seq<char>, v: SchemaRefV) -> SchemaRefV {
    SchemaRefV::Item(
        Box::new(
            SchemaV {
                data: empty_data_v(),
                kind: SchemaKindV::Type(
                    SchemaTypeV::Object { properties: seq![(name, v)], required: Seq::empty(), additional_properties: None },
                ),
            },
        ),
    )
}

/// After the OVF stubs are added, `ovf_Section_Type`, `ovf_Item` and
/// `ovf_RASD_Type` each hold an object with an `info` object that holds a
/// string `value`, and every other schema of the map is as it was.
pub proof fn lemma_stub_ovf_schemas(m: Seq<(Seq<char>, SchemaRefV)>, other: Seq<char>)
    requires
        other != "ovf_Section_Type"@,
        other != "ovf_Item"@,
        other != "ovf_RASD_Type"@,
    ensures
        ({
            let stub = one_property_object(
                "info"@,
                one_property_object(
                    "value"@,
                    SchemaRefV::Item(
                        Box::new(
                            SchemaV {
                                data: empty_data_v(),
                                kind: SchemaKindV::Type(
                                    SchemaTypeV::String(
                                        StringTypeV { format: StringFormat::Empty, pattern: None, enumeration: Seq::empty() },
                                    ),
                                ),
                            },
                        ),
                    ),
                ),
            );
            let r = stub_ovf_v(m);
            &&& schema_under(r, "ovf_Section_Type"@, stub)
            &&& schema_under(r, "ovf_Item"@, stub)
            &&& schema_under(r, "ovf_RASD_Type"@, stub)
            &&& view_key_index(r, other, 0) == view_key_index(m, other, 0)
            &&& (view_key_index(m, other, 0) matches Some(j) ==> r[j] == m[j])
        }),
{
    reveal_strlit("ovf_Section_Type");
    reveal_strlit("ovf_Item");
    reveal_strlit("ovf_RASD_Type");
    assert("ovf_Section_Type"@.len() == 16);
    assert("ovf_Item"@.len() == 8);
    assert("ovf_RASD_Type"@.len() == 13);
    let s = ovf_stub_v();
    let m1 = view_insert(m, "ovf_Section_Type"@, s);
    let m2 = view_insert(m1, "ovf_Item"@, s);
    crate::openapi::lemma_insert_then_lookup(m, "ovf_Section_Type"@, s, "ovf_Item"@);
    crate::openapi::lemma_insert_then_lookup(m1, "ovf_Item"@, s, "ovf_Section_Type"@);
    crate::openapi::lemma_insert_then_lookup(m2, "ovf_RASD_Type"@, s, "ovf_Section_Type"@);
    crate::openapi::lemma_insert_then_lookup(m2, "ovf_RASD_Type"@, s, "ovf_Item"@);
    crate::openapi::lemma_insert_then_lookup(m, "ovf_Section_Type"@, s, other);
    crate::openapi::lemma_insert_then_lookup(m1, "ovf_Item"@, s, other);
    crate::openapi::lemma_insert_then_lookup(m2, "ovf_RASD_Type"@, s, other);
    assert(plain_string_v() == SchemaTypeV::String(
        StringTypeV { format: StringFormat::Empty, pattern: None, enumeration: Seq::empty() },
    ));
}

} // verus!
