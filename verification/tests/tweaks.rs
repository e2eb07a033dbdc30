use indexmap::IndexMap;
use transformer::openapi::{
    IntegerFormat, IntegerType, ObjectType, Properties, Schema, SchemaData, SchemaKind, SchemaRef,
    SchemaType, StringFormat, StringType,
};
use transformer::query::Query;
use transformer::schema_map::{
    schemas_get_index, schemas_index_of, schemas_insert, schemas_len, schemas_new,
    schemas_replace_at,
};
use transformer::schema_tweaks::{metadata_superclass, query_parameters, query_superclass, stub_ovf};

fn item(t: SchemaType) -> SchemaRef {
    SchemaRef::Item(Box::new(Schema::of_type(t)))
}

fn string_enum(values: &[&str]) -> SchemaRef {
    item(SchemaType::String(StringType {
        format: StringFormat::Empty,
        pattern: None,
        enumeration: values.iter().map(|v| Some(v.to_string())).collect(),
    }))
}

fn integer(minimum: Option<i64>, maximum: Option<i64>) -> SchemaRef {
    item(SchemaType::Integer(IntegerType {
        format: IntegerFormat::Empty,
        minimum,
        maximum,
        enumeration: Vec::new(),
    }))
}

fn object(props: Vec<(&str, SchemaRef)>, required: &[&str]) -> SchemaRef {
    item(SchemaType::Object(ObjectType {
        properties: Properties::from_entries(props.into_iter().map(|(k, v)| (k.to_string(), v)).collect()),
        required: required.iter().map(|r| r.to_string()).collect(),
        additional_properties: Some(false),
    }))
}

fn all_of(v: Vec<SchemaRef>) -> SchemaRef {
    SchemaRef::Item(Box::new(Schema { schema_data: SchemaData::empty(), schema_kind: SchemaKind::AllOf(v) }))
}

fn reference(s: &str) -> SchemaRef {
    SchemaRef::Reference(s.to_string())
}

fn keys(m: &IndexMap<String, SchemaRef>) -> Vec<String> {
    m.keys().cloned().collect()
}

fn prop(o: &ObjectType, i: usize) -> (&String, &SchemaRef) {
    o.properties.get_index(i).unwrap()
}

fn properties(r: &SchemaRef) -> &ObjectType {
    match r {
        SchemaRef::Item(s) => match &s.schema_kind {
            SchemaKind::Type(SchemaType::Object(o)) => o,
            _ => panic!("not an object"),
        },
        _ => panic!("a reference"),
    }
}

#[test]
fn query_parameters_are_added_with_the_query_names() {
    let mut m = IndexMap::new();
    m.insert("vcloud_A".to_string(), reference("#/x"));
    let queries = vec![Query { name: "adminVApp".to_string() }, Query { name: "user".to_string() }];
    query_parameters(&mut m, &queries);
    assert_eq!(
        keys(&m),
        [
            "vcloud_A", "query-parameter_force", "query-parameter_recursive", "query-parameter_fields",
            "query-parameter_filter", "query-parameter_filterEncoded", "query-parameter_format",
            "query-parameter_links", "query-parameter_offset", "query-parameter_page",
            "query-parameter_pageSize", "query-parameter_sortAsc", "query-parameter_sortDesc",
            "query-parameter_type",
        ]
        .iter()
        .map(|s| s.to_string())
        .collect::<Vec<_>>()
    );
    assert_eq!(m["query-parameter_type"], string_enum(&["adminVApp", "user"]));
    assert_eq!(m["query-parameter_format"], string_enum(&["references", "records", "idrecords"]));
    assert_eq!(m["query-parameter_pageSize"], integer(Some(1), Some(128)));
    assert_eq!(m["query-parameter_offset"], integer(Some(0), None));
    assert_eq!(m["query-parameter_page"], integer(Some(1), None));
    assert_eq!(m["query-parameter_force"], item(SchemaType::Boolean));
    assert_eq!(m["query-parameter_fields"], string_enum(&[]));
}

#[test]
fn query_parameters_replace_earlier_ones_in_place() {
    let mut m = IndexMap::new();
    m.insert("query-parameter_type".to_string(), reference("#/old"));
    query_parameters(&mut m, &[]);
    assert_eq!(m.len(), 13);
    assert_eq!(m.get_index(0).unwrap().0, "query-parameter_type");
    assert_eq!(m["query-parameter_type"], string_enum(&[]));
}

#[test]
fn ovf_stubs_are_added_once() {
    let mut once = IndexMap::new();
    once.insert("vcloud_A".to_string(), reference("#/x"));
    stub_ovf(&mut once);
    assert_eq!(keys(&once), vec!["vcloud_A", "ovf_Section_Type", "ovf_Item", "ovf_RASD_Type"]);
    let stub = properties(&once["ovf_Item"]);
    assert_eq!(stub.properties.len(), 1);
    assert_eq!(prop(stub, 0).0, "info");
    let info = properties(prop(stub, 0).1);
    assert_eq!(prop(info, 0).0, "value");
    assert_eq!(prop(info, 0).1, &item(SchemaType::String(StringType::plain())));
    let mut twice = IndexMap::new();
    twice.insert("vcloud_A".to_string(), reference("#/x"));
    stub_ovf(&mut twice);
    stub_ovf(&mut twice);
    assert_eq!(keys(&once), keys(&twice));
    assert_eq!(once, twice);
}

#[test]
fn metadata_values_get_a_superclass() {
    let mut m = IndexMap::new();
    m.insert("vcloud_MetadataStringValue".to_string(), object(vec![], &[]));
    m.insert("vcloud_MetadataNumberValue".to_string(), object(vec![], &[]));
    m.insert("vcloud_MetadataTypedValue".to_string(), object(vec![], &[]));
    m.insert("vcloud_MetadataValueOther".to_string(), object(vec![], &[]));
    m.insert(
        "vcloud_MetadataEntryType".to_string(),
        all_of(vec![
            reference("#/components/schemas/vcloud_ResourceType"),
            object(vec![("typedValue", object(vec![], &[]))], &[]),
        ]),
    );
    metadata_superclass(&mut m);
    assert_eq!(m.len(), 6);
    assert_eq!(m.get_index(5).unwrap().0, "MetadataTypedValue");
    match &m["MetadataTypedValue"] {
        SchemaRef::Item(s) => {
            assert_eq!(
                s.schema_kind,
                SchemaKind::OneOf(vec![
                    reference("#/components/schemas/vcloud_MetadataStringValue"),
                    reference("#/components/schemas/vcloud_MetadataNumberValue"),
                ])
            );
            let d = s.schema_data.discriminator.as_ref().unwrap();
            assert_eq!(d.property_name, "_type");
            assert_eq!(
                d.mapping,
                vec![
                    ("MetadataStringValue".to_string(), "#/components/schemas/vcloud_MetadataStringValue".to_string()),
                    ("MetadataNumberValue".to_string(), "#/components/schemas/vcloud_MetadataNumberValue".to_string()),
                ]
            );
        }
        _ => panic!("a reference"),
    }
    let typed = properties(&m["vcloud_MetadataTypedValue"]);
    assert_eq!(typed.properties.len(), 1);
    assert_eq!(prop(typed, 0), (&"_type".to_string(), &string_enum(&["MetadataStringValue", "MetadataNumberValue"])));
    assert_eq!(typed.required, vec!["_type".to_string()]);
    match &m["vcloud_MetadataEntryType"] {
        SchemaRef::Item(s) => match &s.schema_kind {
            SchemaKind::AllOf(all) => {
                let entry = properties(&all[1]);
                assert_eq!(
                    prop(entry, 0).1,
                    &all_of(vec![reference("#/components/schemas/MetadataTypedValue")])
                );
            }
            _ => panic!("not all of"),
        },
        _ => panic!("a reference"),
    }
}

#[test]
fn query_records_get_a_superclass() {
    let mut m = IndexMap::new();
    m.insert("vcloud_QueryResultVAppRecordType".to_string(), object(vec![], &[]));
    m.insert("vcloud_QueryResultRecordType".to_string(), object(vec![("href", string_enum(&[]))], &[]));
    m.insert("vcloud_QueryResultUserRecordType".to_string(), object(vec![], &[]));
    m.insert(
        "vcloud_ContainerType".to_string(),
        all_of(vec![reference("#/components/schemas/vcloud_ResourceType"), object(vec![], &[])]),
    );
    query_superclass(&mut m);
    assert_eq!(m.len(), 5);
    let base = properties(&m["vcloud_QueryResultRecordType"]);
    assert_eq!(prop(base, 1), (&"_type".to_string(), &string_enum(&["QueryResultVAppRecordType", "QueryResultUserRecordType"])));
    assert!(base.required.is_empty());
    match &m["QueryResultRecordType"] {
        SchemaRef::Item(s) => assert_eq!(
            s.schema_kind,
            SchemaKind::OneOf(vec![
                reference("#/components/schemas/vcloud_QueryResultVAppRecordType"),
                reference("#/components/schemas/vcloud_QueryResultUserRecordType"),
            ])
        ),
        _ => panic!("a reference"),
    }
    match &m["vcloud_ContainerType"] {
        SchemaRef::Item(s) => match &s.schema_kind {
            SchemaKind::AllOf(all) => {
                let c = properties(&all[1]);
                assert_eq!(c.properties.len(), 2);
                assert_eq!(
                    prop(c, 0),
                    (&"record".to_string(), &item(SchemaType::Array(Some(Box::new(reference("#/components/schemas/QueryResultRecordType"))))))
                );
                assert_eq!(
                    prop(c, 1),
                    (&"reference".to_string(), &item(SchemaType::Array(Some(Box::new(reference("#/components/schemas/vcloud_ReferenceType"))))))
                );
            }
            _ => panic!("not all of"),
        },
        _ => panic!("a reference"),
    }
}

#[test]
fn schema_map_keeps_insertion_order() {
    let mut m = schemas_new();
    schemas_insert(&mut m, "b".to_string(), reference("1"));
    schemas_insert(&mut m, "a".to_string(), reference("2"));
    schemas_insert(&mut m, "b".to_string(), reference("3"));
    assert_eq!(schemas_len(&m), 2);
    assert_eq!(schemas_get_index(&m, 0), Some((&"b".to_string(), &reference("3"))));
    assert_eq!(schemas_index_of(&m, "a"), Some(1));
    assert_eq!(schemas_index_of(&m, "c"), None);
    assert_eq!(schemas_get_index(&m, 2), None);
    let old = schemas_replace_at(&mut m, 1, reference("4"));
    assert_eq!(old, reference("2"));
    assert_eq!(m["a"], reference("4"));
}

fn metadata_schemas() -> IndexMap<String, SchemaRef> {
    let mut m = IndexMap::new();
    m.insert("vcloud_MetadataStringValue".to_string(), object(vec![], &[]));
    m.insert("vcloud_MetadataTypedValue".to_string(), object(vec![], &[]));
    m.insert(
        "vcloud_MetadataEntryType".to_string(),
        all_of(vec![reference("#/r"), object(vec![("typedValue", object(vec![], &[]))], &[])]),
    );
    m.insert("vcloud_QueryResultVAppRecordType".to_string(), object(vec![], &[]));
    m.insert("vcloud_QueryResultRecordType".to_string(), object(vec![], &[]));
    m.insert("vcloud_ContainerType".to_string(), all_of(vec![reference("#/r"), object(vec![], &[])]));
    m
}

#[test]
fn superclasses_made_twice_are_made_once() {
    let mut once = metadata_schemas();
    metadata_superclass(&mut once);
    let mut twice = metadata_schemas();
    metadata_superclass(&mut twice);
    metadata_superclass(&mut twice);
    assert_eq!(keys(&once), keys(&twice));
    assert_eq!(once, twice);
    let mut once = metadata_schemas();
    query_superclass(&mut once);
    let mut twice = metadata_schemas();
    query_superclass(&mut twice);
    query_superclass(&mut twice);
    assert_eq!(keys(&once), keys(&twice));
    assert_eq!(once, twice);
}

#[test]
fn query_parameters_added_twice_are_added_once() {
    let queries = vec![Query { name: "adminVApp".to_string() }];
    let mut once = IndexMap::new();
    once.insert("vcloud_A".to_string(), reference("#/x"));
    query_parameters(&mut once, &queries);
    let mut twice = IndexMap::new();
    twice.insert("vcloud_A".to_string(), reference("#/x"));
    query_parameters(&mut twice, &queries);
    query_parameters(&mut twice, &queries);
    assert_eq!(keys(&once), keys(&twice));
    assert_eq!(once, twice);
}
