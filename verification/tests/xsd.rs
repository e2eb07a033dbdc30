use serde_json::Value;
type Obj = serde_json::Map<String, Value>;
use transformer::openapi::{
    IntegerFormat, NumberFormat, Schema, SchemaKind, SchemaRef, SchemaType, StringFormat,
};
use transformer::tree::Document;
use transformer::xml::parse_xml;
use transformer::xsd::annotation::Annotation;
use transformer::xsd::schema_type::Type;

use transformer::xsd::schema::{is_schema_file, namespace_prefix, Schema as Xsd, SchemaFromBytesError, SchemaParseError};
use transformer::xsd::primitive_type::{ParsePrimitiveTypeError, PrimitiveType};
use transformer::xsd::field::{decapitalize, get_occurrences, Field, Occurrences};
use transformer::xsd::simple_type::prefix_name;
use transformer::numeral::{parse_i64, parse_u32};
use transformer::xsd::complex_type::{ComplexType, ComplexTypeParseError};
use transformer::xsd::gen_xsd::{parse_annotation, Annotation as ShortAnnotation};
use transformer::xsd::sequence_element::{Modifiable, SequenceElement, SequenceElementParseError};

fn doc(xml: &[u8]) -> Document {
    parse_xml(xml).unwrap()
}

fn json(text: &str) -> Value {
    serde_json::from_str(text).unwrap()
}

fn ref_json(r: &SchemaRef) -> Value {
    match r {
        SchemaRef::Reference(s) => {
            let mut m = Obj::new();
            m.insert("$ref".to_string(), Value::String(s.clone()));
            Value::Object(m)
        }
        SchemaRef::Item(s) => schema_json(s),
    }
}

fn put(m: &mut Obj, k: &str, v: Value) {
    m.insert(k.to_string(), v);
}

fn type_json(m: &mut Obj, t: &SchemaType) {
    match t {
        SchemaType::String(s) => {
            put(m, "type", Value::from("string"));
            match s.format {
                StringFormat::Empty => {}
                StringFormat::Uri => put(m, "format", Value::from("uri")),
                StringFormat::Byte => put(m, "format", Value::from("byte")),
                StringFormat::DateTime => put(m, "format", Value::from("date-time")),
            }
            if let Some(p) = &s.pattern {
                put(m, "pattern", Value::from(p.clone()));
            }
            if !s.enumeration.is_empty() {
                let e: Vec<Value> = s.enumeration.iter().map(|v| match v {
                    Some(v) => Value::from(v.clone()),
                    None => Value::Null,
                }).collect();
                put(m, "enum", Value::Array(e));
            }
        }
        SchemaType::Number(n) => {
            put(m, "type", Value::from("number"));
            match n.format {
                NumberFormat::Empty => {}
                NumberFormat::Float => put(m, "format", Value::from("float")),
                NumberFormat::Double => put(m, "format", Value::from("double")),
            }
            if let Some(v) = &n.minimum {
                put(m, "minimum", Value::from(v.parse::<f64>().unwrap()));
            }
            if !n.enumeration.is_empty() {
                let e: Vec<Value> =
                    n.enumeration.iter().map(|v| Value::from(v.parse::<f64>().unwrap())).collect();
                put(m, "enum", Value::Array(e));
            }
        }
        SchemaType::Integer(i) => {
            put(m, "type", Value::from("integer"));
            match i.format {
                IntegerFormat::Empty => {}
                IntegerFormat::Int32 => put(m, "format", Value::from("int32")),
                IntegerFormat::Int64 => put(m, "format", Value::from("int64")),
            }
            if let Some(v) = i.minimum {
                put(m, "minimum", Value::from(v));
            }
            if let Some(v) = i.maximum {
                put(m, "maximum", Value::from(v));
            }
            if !i.enumeration.is_empty() {
                let e: Vec<Value> = i.enumeration.iter().map(|v| match v {
                    Some(v) => Value::from(*v),
                    None => Value::Null,
                }).collect();
                put(m, "enum", Value::Array(e));
            }
        }
        SchemaType::Object(o) => {
            put(m, "type", Value::from("object"));
            if o.properties.len() > 0 {
                let mut p = Obj::new();
                for i in 0..o.properties.len() {
                    let (k, v) = o.properties.get_index(i).unwrap();
                    p.insert(k.clone(), ref_json(v));
                }
                put(m, "properties", Value::Object(p));
            }
            if !o.required.is_empty() {
                put(m, "required", Value::from(o.required.clone()));
            }
            if let Some(a) = o.additional_properties {
                put(m, "additionalProperties", Value::from(a));
            }
        }
        SchemaType::Array(items) => {
            put(m, "type", Value::from("array"));
            if let Some(i) = items {
                put(m, "items", ref_json(i));
            }
        }
        SchemaType::Boolean => put(m, "type", Value::from("boolean")),
    }
}

fn schema_json(s: &Schema) -> Value {
    let mut m = Obj::new();
    let d = &s.schema_data;
    if d.nullable {
        put(&mut m, "nullable", Value::from(true));
    }
    if d.read_only {
        put(&mut m, "readOnly", Value::from(true));
    }
    if d.deprecated {
        put(&mut m, "deprecated", Value::from(true));
    }
    if let Some(t) = &d.title {
        put(&mut m, "title", Value::from(t.clone()));
    }
    if let Some(t) = &d.description {
        put(&mut m, "description", Value::from(t.clone()));
    }
    if let Some(dis) = &d.discriminator {
        let mut dm = Obj::new();
        dm.insert("propertyName".to_string(), Value::from(dis.property_name.clone()));
        if !dis.mapping.is_empty() {
            let mut mm = Obj::new();
            for (k, v) in &dis.mapping {
                mm.insert(k.clone(), Value::from(v.clone()));
            }
            dm.insert("mapping".to_string(), Value::Object(mm));
        }
        put(&mut m, "discriminator", Value::Object(dm));
    }
    match &s.schema_kind {
        SchemaKind::Type(t) => type_json(&mut m, t),
        SchemaKind::AllOf(v) => put(&mut m, "allOf", Value::Array(v.iter().map(ref_json).collect())),
        SchemaKind::OneOf(v) => put(&mut m, "oneOf", Value::Array(v.iter().map(ref_json).collect())),
    }
    Value::Object(m)
}

fn field_json(xml: &[u8]) -> Value {
    let d = doc(xml);
    let types = vec![doc(xml)];
    let f = Field::try_from(None, &d, 0, &types).unwrap();
    ref_json(&f.to_schema_ref())
}

fn type_json_of(xml: &[u8]) -> Value {
    let d = doc(xml);
    let types = vec![doc(xml)];
    let t = Type::try_from(Some("test"), &d, 0, &types).unwrap();
    schema_json(&t.to_schema())
}

fn annotation(xml: &[u8]) -> Annotation {
    Annotation::try_from(&doc(xml), 0).unwrap()
}

fn ann(description: &str, required: Option<bool>, deprecated: bool, content_type: Option<&str>, removed: bool) -> Annotation {
    Annotation {
        description: Some(description.to_owned()),
        required,
        deprecated,
        content_type: content_type.map(|c| c.to_owned()),
        removed,
    }
}
#[test]
fn annotation_test_parse_annotation() {
    let xml: &[u8] = br#"
    <xs:annotation xmlns:xs="http://www.w3.org/2001/XMLSchema">
        <xs:documentation source="since">0.9</xs:documentation>
        <xs:documentation xml:lang="en">
            A base abstract &lt;b&gt;type&lt;/b&gt; for
            all the&lt;br/&gt;types.
        </xs:documentation>
    </xs:annotation>
    "#;
    assert_eq!(
        annotation(xml),
        ann("A base abstract **type** for all the  \ntypes.", None, false, None, false)
    );
}

#[test]
fn annotation_test_parse_annotation_required() {
    let xml: &[u8] = br#"
    <xs:annotation xmlns:xs="http://www.w3.org/2001/XMLSchema">
        <xs:documentation source="since">0.9</xs:documentation>
        <xs:documentation xml:lang="en">
            A field that is &lt;i&gt;required&lt;/i&gt;.
        </xs:documentation>
        <xs:documentation source="required">true</xs:documentation>
    </xs:annotation>
    "#;
    assert_eq!(annotation(xml), ann("A field that is *required*.", Some(true), false, None, false));
}

#[test]
fn annotation_test_parse_annotation_not_required() {
    let xml: &[u8] = br#"
    <xs:annotation xmlns:xs="http://www.w3.org/2001/XMLSchema">
        <xs:documentation source="since">0.9</xs:documentation>
        <xs:documentation xml:lang="en">
            A field that is &lt;i&gt;not required&lt;/i&gt;.
        </xs:documentation>
        <xs:documentation source="required">
          false
        </xs:documentation>
    </xs:annotation>
    "#;
    assert_eq!(
        annotation(xml),
        ann("A field that is *not required*.", Some(false), false, None, false)
    );
}

#[test]
fn annotation_test_parse_annotation_deprecated() {
    let xml: &[u8] = br#"
    <xs:annotation xmlns:xs="http://www.w3.org/2001/XMLSchema">
        <xs:documentation source="since">0.9</xs:documentation>
        <xs:documentation source="deprecated">34.0</xs:documentation>
        <xs:documentation xml:lang="en">
            A field that is &lt;i&gt;deprecated&lt;/i&gt;.
        </xs:documentation>
        </xs:annotation>
    "#;
    assert_eq!(annotation(xml), ann("A field that is *deprecated*.", None, true, None, false));
}

#[test]
fn test_parse_content_type() {
    let xml: &[u8] = br#"
    <xs:annotation xmlns:xs="http://www.w3.org/2001/XMLSchema" xmlns:meta="http://www.vmware.com/vcloud/meta">
        <xs:appinfo>
            <meta:content-type>
              application/vnd.ccouzens.test
            </meta:content-type>
        </xs:appinfo>
        <xs:documentation xml:lang="en">
            A type with a content type.
        </xs:documentation>
        </xs:annotation>
    "#;
    assert_eq!(
        annotation(xml),
        ann("A type with a content type.", None, false, Some("application/vnd.ccouzens.test"), false)
    );
}

#[test]
fn test_parse_annotation_inside_app_info() {
    let xml: &[u8] = br#"
    <xs:annotation xmlns:xs="http://www.w3.org/2001/XMLSchema">
      <xs:appinfo>
        <xs:documentation source="since">0.9</xs:documentation>
        <xs:documentation xml:lang="en">
            A base abstract &lt;b&gt;type&lt;/b&gt; for
            all the&lt;br/&gt;types.
        </xs:documentation>
      </xs:appinfo>
    </xs:annotation>
    "#;
    assert_eq!(
        annotation(xml),
        ann("A base abstract **type** for all the  \ntypes.", None, false, None, false)
    );
}

#[test]
fn test_annotation_indicating_removal() {
    let xml: &[u8] = br#"
    <xs:annotation xmlns:xs="http://www.w3.org/2001/XMLSchema" xmlns:meta="http://www.vmware.com/vcloud/meta">
        <xs:appinfo><meta:version removed-in="API_VERSION_POST9_1_UPDATE"/></xs:appinfo>
        <xs:documentation source="modifiable">always</xs:documentation>
        <xs:documentation xml:lang="en">
            This field has been removed
        </xs:documentation>
        <xs:documentation source="required">false</xs:documentation>
        <xs:documentation source="deprecated">6.0</xs:documentation>
        <xs:documentation source="removed-in">API_VERSION_POST9_1_UPDATE</xs:documentation>
    </xs:annotation>"#;
    assert_eq!(
        annotation(xml),
        ann("This field has been removed", Some(false), true, None, true)
    );
}

#[test]
fn test_alternative_removal_syntax() {
    let xml: &[u8] = br#"
    <xs:annotation xmlns:xs="http://www.w3.org/2001/XMLSchema" xmlns:meta="http://www.vmware.com/vcloud/meta">
        <xs:appinfo><meta:version removed-in="API_VERSION_POST9_1_UPDATE"/></xs:appinfo>
        <xs:documentation source="modifiable">always</xs:documentation>
        <xs:documentation xml:lang="en">
            This field has been removed
        </xs:documentation>
        <xs:documentation source="required">false</xs:documentation>
        <xs:documentation source="deprecated">6.0</xs:documentation>
    </xs:annotation>"#;
    assert_eq!(
        annotation(xml),
        ann("This field has been removed", Some(false), true, None, true)
    );
}

#[test]
fn annotation_that_is_not_an_annotation_is_refused() {
    let d = doc(br#"<xs:element xmlns:xs="http://www.w3.org/2001/XMLSchema" name="A"/>"#);
    assert_eq!(
        Annotation::try_from(&d, 0),
        Err(transformer::xsd::annotation::AnnotationParseError::NotAnnotationNode)
    );
}

#[test]
fn merge_keeps_what_the_first_says() {
    let a = Annotation { description: None, required: Some(true), deprecated: false, content_type: Some("a".to_owned()), removed: false };
    let b = ann("b", Some(false), true, Some("b"), false);
    assert_eq!(
        a.merge(b),
        Annotation { description: Some("b".to_owned()), required: Some(true), deprecated: true, content_type: Some("a".to_owned()), removed: false }
    );
}

#[test]
fn test_parse_field_from_required_attribute() {
    let xml: &[u8] = br#"
    <xs:attribute xmlns:xs="http://www.w3.org/2001/XMLSchema" name="requiredAttribute" type="xs:string" use="required">
        <xs:annotation>
            <xs:documentation source="modifiable">none</xs:documentation>
            <xs:documentation>
                A field that comes from an attribute.
            </xs:documentation>
            <xs:documentation source="required">true</xs:documentation>
        </xs:annotation>
    </xs:attribute>
"#;
    assert_eq!(
        field_json(xml),
        json(r##"{
            "description": "A field that comes from an attribute.",
            "type": "string"
        }"##)
    );
}

#[test]
fn test_parse_field_from_optional_attribute() {
    let xml: &[u8] = br#"
    <xs:attribute xmlns:xs="http://www.w3.org/2001/XMLSchema" name="optionalAttribute" type="xs:string">
        <xs:annotation>
            <xs:documentation source="modifiable">none</xs:documentation>
            <xs:documentation>
                A field that comes from an optional attribute.
            </xs:documentation>
            <xs:documentation source="required">false</xs:documentation>
        </xs:annotation>
    </xs:attribute>
"#;
    assert_eq!(
        field_json(xml),
        json(r##"{
            "description": "A field that comes from an optional attribute.",
            "type": "string"
        }"##)
    );
}

#[test]
fn test_field_optional_into_schema() {
    let xml: &[u8] = br#"
    <xs:element xmlns:xs="http://www.w3.org/2001/XMLSchema" name="BaseField" type="xs:string" minOccurs="0">
        <xs:annotation>
            <xs:documentation source="modifiable">always</xs:documentation>
            <xs:documentation xml:lang="en">
                A base field for the base type
            </xs:documentation>
            <xs:documentation source="required">false</xs:documentation>
        </xs:annotation>
    </xs:element>
    "#;
    assert_eq!(
        field_json(xml),
        json(r##"{
            "description": "A base field for the base type",
            "type": "string"
        }"##)
    );
}

#[test]
fn test_field_array_into_schema() {
    let xml: &[u8] = br#"
    <xs:element xmlns:xs="http://www.w3.org/2001/XMLSchema" name="BaseField" type="xs:int" minOccurs="0" maxOccurs="unbounded">
        <xs:annotation>
            <xs:documentation source="modifiable">none</xs:documentation>
            <xs:documentation xml:lang="en">
                A field that could be repeated many times in the &lt;code&gt;XML&lt;/code&gt;.
            </xs:documentation>
            <xs:documentation source="required">false</xs:documentation>
        </xs:annotation>
    </xs:element>
    "#;
    assert_eq!(
        field_json(xml),
        json(r##"{
            "description": "A field that could be repeated many times in the `XML`.",
            "type": "array",
            "items": {
                "format": "int32",
                "type": "integer"
            }
        }"##)
    );
}

#[test]
fn test_field_exactly_one_into_schema() {
    let xml: &[u8] = br#"
    <xs:element xmlns:xs="http://www.w3.org/2001/XMLSchema" name="BaseField" type="xs:boolean">
        <xs:annotation>
            <xs:documentation source="modifiable">none</xs:documentation>
            <xs:documentation xml:lang="en">
                A field that appears precisely once in the &lt;code&gt;XML&lt;/code&gt;.
            </xs:documentation>
            <xs:documentation source="required">true</xs:documentation>
        </xs:annotation>
    </xs:element>
    "#;
    assert_eq!(
        field_json(xml),
        json(r##"{
            "description": "A field that appears precisely once in the `XML`.",
            "type": "boolean"
        }"##)
    );
}

#[test]
fn field_test_anyuri_into_schema() {
    let xml: &[u8] = br#"
    <xs:element xmlns:xs="http://www.w3.org/2001/XMLSchema" name="BaseField" type="xs:anyURI">
        <xs:annotation>
            <xs:documentation source="modifiable">none</xs:documentation>
            <xs:documentation xml:lang="en">
                A field that is meant to represent a URL.
            </xs:documentation>
            <xs:documentation source="required">true</xs:documentation>
        </xs:annotation>
    </xs:element>
    "#;
    assert_eq!(
        field_json(xml),
        json(r##"{
            "description": "A field that is meant to represent a URL.",
            "format": "uri",
            "type": "string"
        }"##)
    );
}

#[test]
fn field_test_double_into_schema() {
    let xml: &[u8] = br#"
    <xs:element xmlns:xs="http://www.w3.org/2001/XMLSchema" name="BaseField" type="xs:double">
        <xs:annotation>
            <xs:documentation source="modifiable">none</xs:documentation>
            <xs:documentation xml:lang="en">
                A field that represents a double precision float
            </xs:documentation>
            <xs:documentation source="required">true</xs:documentation>
        </xs:annotation>
    </xs:element>
    "#;
    assert_eq!(
        field_json(xml),
        json(r##"{
            "description": "A field that represents a double precision float",
            "format": "double",
            "type": "number"
        }"##)
    );
}

#[test]
fn test_long_into_schema() {
    let xml: &[u8] = br#"
    <xs:element xmlns:xs="http://www.w3.org/2001/XMLSchema" name="BaseField" type="xs:long">
        <xs:annotation>
            <xs:documentation source="modifiable">none</xs:documentation>
            <xs:documentation xml:lang="en">
                A field that represents 64 bit signed integer
            </xs:documentation>
            <xs:documentation source="required">true</xs:documentation>
        </xs:annotation>
    </xs:element>
    "#;
    assert_eq!(
        field_json(xml),
        json(r##"{
            "description": "A field that represents 64 bit signed integer",
            "format": "int64",
            "type": "integer"
        }"##)
    );
}

#[test]
fn test_datetime_into_schema() {
    let xml: &[u8] = br#"
    <xs:element xmlns:xs="http://www.w3.org/2001/XMLSchema" name="BaseField" type="xs:dateTime">
        <xs:annotation>
            <xs:documentation source="modifiable">none</xs:documentation>
            <xs:documentation xml:lang="en">
                A field that represents date time in ISO 8601 which is basically RFC 3339.
            </xs:documentation>
            <xs:documentation source="required">true</xs:documentation>
        </xs:annotation>
    </xs:element>
    "#;
    assert_eq!(
        field_json(xml),
        json(r##"{
            "description": "A field that represents date time in ISO 8601 which is basically RFC 3339.",
            "format": "date-time",
            "type": "string"
        }"##)
    );
}

#[test]
fn test_base64_binary_into_schema() {
    let xml: &[u8] = br#"
    <xs:element xmlns:xs="http://www.w3.org/2001/XMLSchema" name="BaseField" type="xs:base64Binary">
        <xs:annotation>
            <xs:documentation source="modifiable">none</xs:documentation>
            <xs:documentation xml:lang="en">
                Base64 binary data
            </xs:documentation>
            <xs:documentation source="required">true</xs:documentation>
        </xs:annotation>
    </xs:element>
    "#;
    assert_eq!(
        field_json(xml),
        json(r##"{
            "description": "Base64 binary data",
            "format": "byte",
            "type": "string"
        }"##)
    );
}

#[test]
fn test_normalized_string_into_schema() {
    let xml: &[u8] = br#"
    <xs:element xmlns:xs="http://www.w3.org/2001/XMLSchema" name="BaseField" type="xs:normalizedString">
        <xs:annotation>
            <xs:documentation source="modifiable">none</xs:documentation>
            <xs:documentation xml:lang="en">
                Field that cannot contain new lines
            </xs:documentation>
            <xs:documentation source="required">true</xs:documentation>
        </xs:annotation>
    </xs:element>
    "#;
    assert_eq!(
        field_json(xml),
        json(r##"{
            "description": "Field that cannot contain new lines",
            "type": "string"
        }"##)
    );
}

#[test]
fn test_short_into_schema() {
    let xml: &[u8] = br#"
    <xs:element xmlns:xs="http://www.w3.org/2001/XMLSchema" name="BaseField" type="xs:short">
        <xs:annotation>
            <xs:documentation source="modifiable">none</xs:documentation>
            <xs:documentation xml:lang="en">
                Field that is a 16 bit signed integer
            </xs:documentation>
            <xs:documentation source="required">true</xs:documentation>
        </xs:annotation>
    </xs:element>
    "#;
    assert_eq!(
        field_json(xml),
        json(r##"{
            "description": "Field that is a 16 bit signed integer",
            "type": "integer"
        }"##)
    );
}

#[test]
fn test_decimal_into_schema() {
    let xml: &[u8] = br#"
    <xs:element xmlns:xs="http://www.w3.org/2001/XMLSchema" name="BaseField" type="xs:decimal">
        <xs:annotation>
            <xs:documentation source="modifiable">none</xs:documentation>
            <xs:documentation xml:lang="en">
                Field that is a precise decimal number
            </xs:documentation>
            <xs:documentation source="required">true</xs:documentation>
        </xs:annotation>
    </xs:element>
    "#;
    assert_eq!(
        field_json(xml),
        json(r##"{
            "description": "Field that is a precise decimal number",
            "type": "string" 
        }"##)
    );
}

#[test]
fn test_float_into_schema() {
    let xml: &[u8] = br#"
    <xs:element xmlns:xs="http://www.w3.org/2001/XMLSchema" name="BaseField" type="xs:float">
        <xs:annotation>
            <xs:documentation source="modifiable">none</xs:documentation>
            <xs:documentation xml:lang="en">
                Field that is a 32 bit signed floating point type
            </xs:documentation>
            <xs:documentation source="required">true</xs:documentation>
        </xs:annotation>
    </xs:element>
    "#;
    assert_eq!(
        field_json(xml),
        json(r##"{
            "description": "Field that is a 32 bit signed floating point type",
            "type": "number",
            "format": "float"
        }"##)
    );
}

#[test]
fn test_hex_binary_into_schema() {
    let xml: &[u8] = br#"
    <xs:element xmlns:xs="http://www.w3.org/2001/XMLSchema" name="BaseField" type="xs:hexBinary">
        <xs:annotation>
            <xs:documentation source="modifiable">none</xs:documentation>
            <xs:documentation xml:lang="en">
                Hexadecimal binary data
            </xs:documentation>
            <xs:documentation source="required">true</xs:documentation>
        </xs:annotation>
    </xs:element>
    "#;
    assert_eq!(
        field_json(xml),
        json(r##"{
            "description": "Hexadecimal binary data",
            "type": "string"
        }"##)
    );
}

#[test]
fn test_integer_into_schema() {
    let xml: &[u8] = br#"
    <xs:element xmlns:xs="http://www.w3.org/2001/XMLSchema" name="BaseField" type="xs:integer">
        <xs:annotation>
            <xs:documentation source="modifiable">none</xs:documentation>
            <xs:documentation xml:lang="en">
                Unbounded signed integer
            </xs:documentation>
            <xs:documentation source="required">true</xs:documentation>
        </xs:annotation>
    </xs:element>
    "#;
    assert_eq!(
        field_json(xml),
        json(r##"{
            "description": "Unbounded signed integer",
            "type": "integer"
        }"##)
    );
}

#[test]
fn test_any_type_into_schema() {
    let xml: &[u8] = br#"
    <xs:element xmlns:xs="http://www.w3.org/2001/XMLSchema" name="BaseField" type="xs:anyType">
        <xs:annotation>
            <xs:documentation source="modifiable">none</xs:documentation>
            <xs:documentation xml:lang="en">
                A field that could be anything
            </xs:documentation>
            <xs:documentation source="required">true</xs:documentation>
        </xs:annotation>
    </xs:element>
    "#;
    assert_eq!(
        field_json(xml),
        json(r##"{
            "description": "A field that could be anything",
            "type": "string"
        }"##)
    );
}

#[test]
fn test_element_with_simple_type() {
    let xml: &[u8] = br#"
    <xs:element xmlns:xs="http://www.w3.org/2001/XMLSchema" name="BaseField">
        <xs:annotation>
            <xs:documentation source="modifiable">none</xs:documentation>
            <xs:documentation xml:lang="en">
                String with pattern
            </xs:documentation>
            <xs:documentation source="required">true</xs:documentation>
        </xs:annotation>
        <xs:simpleType>
            <xs:restriction base="xs:string">
                <xs:pattern value="pattern"/>
            </xs:restriction>
        </xs:simpleType>
    </xs:element>
    "#;
    assert_eq!(
        field_json(xml),
        json(r##"{
            "description": "String with pattern",
            "type": "string",
            "pattern": "pattern"
        }"##)
    );
}

#[test]
fn test_attribute_with_simple_type() {
    let xml: &[u8] = br#"
    <xs:attribute xmlns:xs="http://www.w3.org/2001/XMLSchema" name="robotName" use="required">
        <xs:simpleType>
            <xs:restriction base="xs:string">
                <xs:pattern value="[A-Z]-?[0-9]-?[A-Z]-?[0-9]"/>
            </xs:restriction>
        </xs:simpleType>
    </xs:attribute>
    "#;
    assert_eq!(
        field_json(xml),
        json(r##"{
            "type": "string",
            "pattern": "[A-Z]-?[0-9]-?[A-Z]-?[0-9]"
        }"##)
    );
}

#[test]
fn type_parse_type_wth_parent_test() {
    let xml: &[u8] = br#"
    <xs:complexType xmlns:xs="http://www.w3.org/2001/XMLSchema" xmlns:meta="http://www.vmware.com/vcloud/meta" name="TestType">
        <xs:annotation>
            <xs:appinfo>
                <meta:content-type>application/vnd.ccouzens.test</meta:content-type>
            </xs:appinfo>
            <xs:documentation source="since">0.9</xs:documentation>
            <xs:documentation xml:lang="en">
                A simple type to test the parser
            </xs:documentation>
        </xs:annotation>
        <xs:complexContent>
            <xs:extension base="BaseType">
                <xs:sequence>
                    <xs:element name="OptionalString" type="xs:string" minOccurs="0">
                        <xs:annotation>
                            <xs:documentation source="modifiable">always</xs:documentation>
                            <xs:documentation xml:lang="en">
                                String that may or may not be here
                            </xs:documentation>
                            <xs:documentation source="required">false</xs:documentation>
                        </xs:annotation>
                    </xs:element>
                    <xs:element name="RequiredString" type="xs:string" minOccurs="1">
                        <xs:annotation>
                            <xs:documentation source="modifiable">always</xs:documentation>
                            <xs:documentation xml:lang="en">
                                String that will be here
                            </xs:documentation>
                            <xs:documentation source="required">true</xs:documentation>
                        </xs:annotation>
                    </xs:element>
                </xs:sequence>
            </xs:extension>
        </xs:complexContent>
    </xs:complexType>
    "#;
    assert_eq!(
        type_json_of(xml),
        json(r##"{
          "title": "test_TestType",
          "description": "A simple type to test the parser",
          "allOf": [
            {
              "$ref": "#/components/schemas/test_BaseType"
            },
            {
              "type": "object",
              "properties": {
                "optionalString": {
                  "description": "String that may or may not be here",
                  "type": "string"
                },
                "requiredString": {
                  "description": "String that will be here",
                  "type": "string"
                }
              },
              "required": [
                "requiredString"
              ],
              "additionalProperties": false
            }
          ]
        }"##)
    );
}

#[test]
fn parse_type_that_is_attribute_test() {
    let xml: &[u8] = br#"
    <xs:complexType xmlns:xs="http://www.w3.org/2001/XMLSchema" xmlns:meta="http://www.vmware.com/vcloud/meta" name="TestType">
        <xs:annotation>
            <xs:appinfo>
                <meta:content-type>application/vnd.ccouzens.test</meta:content-type>
            </xs:appinfo>
            <xs:documentation source="since">0.9</xs:documentation>
            <xs:documentation xml:lang="en">
                A simple type to test the parser
            </xs:documentation>
        </xs:annotation>
        <xs:complexContent>
            <xs:extension base="BaseType">
                <xs:attribute name="requiredAttribute" type="xs:string" use="required">
                    <xs:annotation>
                        <xs:documentation source="modifiable">none</xs:documentation>
                        <xs:documentation>
                            A field that comes from an attribute.
                        </xs:documentation>
                        <xs:documentation source="required">true</xs:documentation>
                    </xs:annotation>
                </xs:attribute>
            </xs:extension>
        </xs:complexContent>
    </xs:complexType>
    "#;
    assert_eq!(
        type_json_of(xml),
        json(r##"{
          "title": "test_TestType",
          "description": "A simple type to test the parser",
          "allOf": [
            {
              "$ref": "#/components/schemas/test_BaseType"
            },
            {
              "type": "object",
              "properties": {
                "requiredAttribute": {
                  "description": "A field that comes from an attribute.",
                  "type": "string"
                }
              },
              "required": [
                "requiredAttribute"
              ],
              "additionalProperties": false
            }
          ]
        }"##)
    );
}

#[test]
fn parse_type_that_is_attribute_but_not_required_test() {
    let xml: &[u8] = br#"
    <xs:complexType xmlns:xs="http://www.w3.org/2001/XMLSchema" xmlns:meta="http://www.vmware.com/vcloud/meta" name="TestType">
        <xs:complexContent>
            <xs:extension base="BaseType">
                <xs:attribute name="optionalAttribute" type="xs:string">
                    <xs:annotation>
                        <xs:documentation source="modifiable">none</xs:documentation>
                        <xs:documentation>
                            A field that comes from an attribute.
                        </xs:documentation>
                    </xs:annotation>
                </xs:attribute>
            </xs:extension>
        </xs:complexContent>
    </xs:complexType>
    "#;
    assert_eq!(
        type_json_of(xml),
        json(r##"{
          "title": "test_TestType",
          "allOf": [
            {
              "$ref": "#/components/schemas/test_BaseType"
            },
            {
              "type": "object",
              "properties": {
                "optionalAttribute": {
                  "description": "A field that comes from an attribute.",
                  "type": "string"
                }
              },
              "additionalProperties": false
            }
          ]
        }"##)
    );
}

#[test]
fn parse_type_that_is_attribute_but_not_extension_test() {
    let xml: &[u8] = br#"
    <xs:complexType xmlns:xs="http://www.w3.org/2001/XMLSchema" xmlns:meta="http://www.vmware.com/vcloud/meta" name="TestType">
        <xs:annotation>
            <xs:appinfo>
                <meta:content-type>application/vnd.ccouzens.test</meta:content-type>
            </xs:appinfo>
            <xs:documentation source="since">0.9</xs:documentation>
            <xs:documentation xml:lang="en">
                A simple type to test the parser
            </xs:documentation>
        </xs:annotation>
        <xs:attribute name="requiredAttribute" type="xs:string" use="required">
            <xs:annotation>
                <xs:documentation source="modifiable">none</xs:documentation>
                <xs:documentation>
                    A field that comes from an attribute.
                </xs:documentation>
                <xs:documentation source="required">true</xs:documentation>
            </xs:annotation>
        </xs:attribute>
    </xs:complexType>
    "#;
    assert_eq!(
        type_json_of(xml),
        json(r##"{
          "title": "test_TestType",
          "description": "A simple type to test the parser",
          "type": "object",
          "properties": {
            "requiredAttribute": {
              "description": "A field that comes from an attribute.",
              "type": "string"
            }
          },
          "required": [
            "requiredAttribute"
          ],
          "additionalProperties": false
        }"##)
    );
}

#[test]
fn simple_type_into_schema_test() {
    let xml: &[u8] = br#"
    <xs:simpleType name="CoinType" xmlns:xs="http://www.w3.org/2001/XMLSchema" xmlns:meta="http://www.vmware.com/vcloud/meta">
        <xs:annotation>
            <xs:appinfo><meta:version added-in="5.6"/></xs:appinfo>
            <xs:documentation source="since">5.6</xs:documentation>
            <xs:documentation xml:lang="en">
                An enumeration of the sides of a coin
            </xs:documentation>
        </xs:annotation>
        <xs:restriction base="xs:string">
            <xs:enumeration value="Heads"/>
            <xs:enumeration value="Tails"/>
        </xs:restriction>
    </xs:simpleType>
    "#;
    assert_eq!(
        type_json_of(xml),
        json(r##"{
            "description": "An enumeration of the sides of a coin",
            "type": "string",
            "enum": ["Heads", "Tails"],
            "title": "test_CoinType"
        }"##)
    );
}

#[test]
fn simple_type_with_pattern_into_schema_test() {
    let xml: &[u8] = br#"
    <xs:simpleType name="HttpsType" xmlns:xs="http://www.w3.org/2001/XMLSchema">
        <xs:restriction base="xs:anyURI">
            <xs:pattern value="https://.+"/>
        </xs:restriction>
    </xs:simpleType>
    "#;
    assert_eq!(
        type_json_of(xml),
        json(r##"{
            "type": "string",
            "format": "uri",
            "pattern": "https://.+",
            "title": "test_HttpsType"
        }"##)
    );
}

#[test]
fn simple_type_with_min_inclusive_into_schema_test() {
    let xml: &[u8] = br#"
    <xs:simpleType name="DaysInMonth" xmlns:xs="http://www.w3.org/2001/XMLSchema">
        <xs:restriction base="xs:int">
            <xs:minInclusive value="28"/>
        </xs:restriction>
    </xs:simpleType>
    "#;
    assert_eq!(
        type_json_of(xml),
        json(r##"{
            "type": "integer",
            "format": "int32",
            "minimum": 28,
            "title": "test_DaysInMonth"
        }"##)
    );
}

#[test]
fn simple_type_with_list_into_schema_test() {
    let xml: &[u8] = br#"
    <xs:simpleType name="FavouriteFoods" xmlns:xs="http://www.w3.org/2001/XMLSchema">
        <xs:list itemType="xs:string"/>
    </xs:simpleType>
    "#;
    assert_eq!(
        type_json_of(xml),
        json(r##"{
            "type": "array",
            "items": { "type": "string" },
            "title": "test_FavouriteFoods"
        }"##)
    );
}

#[test]
fn simplest_simple_type_into_schema_test() {
    let xml: &[u8] = br#"
    <xs:simpleType xmlns:xs="http://www.w3.org/2001/XMLSchema">
        <xs:restriction base="xs:string">
        </xs:restriction>
    </xs:simpleType>
    "#;
    assert_eq!(
        type_json_of(xml),
        json(r##"{"type": "string"}"##)
    );
}

#[test]
fn base_type_into_schema_test() {
    let xml: &[u8] = br#"
    <xs:complexType xmlns:xs="http://www.w3.org/2001/XMLSchema" abstract="true" name="BaseType">
        <xs:annotation>
            <xs:documentation source="since">0.9</xs:documentation>
            <xs:documentation xml:lang="en">
                A base abstract type for all the types.
            </xs:documentation>
        </xs:annotation>

        <xs:sequence>
            <xs:element name="BaseField" type="xs:string" minOccurs="0">
                <xs:annotation>
                    <xs:documentation source="modifiable">always</xs:documentation>
                    <xs:documentation xml:lang="en">
                        A base field for the base type
                    </xs:documentation>
                    <xs:documentation source="required">false</xs:documentation>
                </xs:annotation>
            </xs:element>
        </xs:sequence>
    </xs:complexType>
    "#;
    assert_eq!(
        type_json_of(xml),
        json(r##"{
            "additionalProperties": false,
            "description": "A base abstract type for all the types.",
            "properties": {
                "baseField": {
                    "description": "A base field for the base type",
                    "type": "string"
                }
            },
            "title": "test_BaseType",
            "type": "object"
        }"##)
    );
}

#[test]
fn parent_type_into_schema_test() {
    let xml: &[u8] = br#"
    <xs:complexType xmlns:xs="http://www.w3.org/2001/XMLSchema" xmlns:meta="http://www.vmware.com/vcloud/meta" name="TestType">
        <xs:annotation>
            <xs:appinfo>
                <meta:content-type>application/vnd.ccouzens.test</meta:content-type>
            </xs:appinfo>
            <xs:documentation source="since">0.9</xs:documentation>
            <xs:documentation xml:lang="en">
                A simple type to test the parser
            </xs:documentation>
        </xs:annotation>
        <xs:complexContent>
            <xs:extension base="BaseType">
                <xs:sequence>
                    <xs:element name="OptionalString" type="xs:string" minOccurs="0">
                        <xs:annotation>
                            <xs:documentation source="modifiable">always</xs:documentation>
                            <xs:documentation xml:lang="en">
                                String that may or may not be here
                            </xs:documentation>
                            <xs:documentation source="required">false</xs:documentation>
                        </xs:annotation>
                    </xs:element>
                    <xs:element name="RequiredString" type="xs:string" minOccurs="1">
                        <xs:annotation>
                            <xs:documentation source="modifiable">always</xs:documentation>
                            <xs:documentation xml:lang="en">
                                String that will be here
                            </xs:documentation>
                            <xs:documentation source="required">true</xs:documentation>
                        </xs:annotation>
                    </xs:element>
                </xs:sequence>
            </xs:extension>
        </xs:complexContent>
    </xs:complexType>
    "#;
    assert_eq!(
        type_json_of(xml),
        json(r##"{
            "description": "A simple type to test the parser",
            "allOf": [
                {
                    "$ref": "#/components/schemas/test_BaseType"
                },
                {
                  "additionalProperties": false,
                  "properties": {
                    "optionalString": {
                        "description": "String that may or may not be here",
                        "type": "string"
                    },
                    "requiredString": {
                        "description": "String that will be here",
                        "type": "string"
                    }
                  },
                  "required": ["requiredString"],
                  "type": "object"
              }
            ],
            "title": "test_TestType"
        }"##)
    );
}

#[test]
fn parse_group_test() {
    let xml: &[u8] = br#"
    <xs:group xmlns:xs="http://www.w3.org/2001/XMLSchema" xmlns:meta="http://www.vmware.com/vcloud/meta" name="SimpleGroup">
        <xs:sequence>
            <xs:element name="Field1" type="xs:int" minOccurs="1" maxOccurs="1">
                <xs:annotation>
                    <xs:documentation source="modifiable">always</xs:documentation>
                    <xs:documentation xml:lang="en">
                        The first field in the group.
                    </xs:documentation>
                    <xs:documentation source="required">true</xs:documentation>
                </xs:annotation>
            </xs:element>
            <xs:element name="Field2" type="xs:string" minOccurs="0" maxOccurs="1">
                <xs:annotation>
                    <xs:documentation source="modifiable">always</xs:documentation>
                    <xs:documentation xml:lang="en">
                        The second field in the group.
                    </xs:documentation>
                    <xs:documentation source="required">false</xs:documentation>
                </xs:annotation>
            </xs:element>
        </xs:sequence>
    </xs:group>
    "#;
    assert_eq!(
        type_json_of(xml),
        json(r##"{
          "title": "test_SimpleGroup",
          "type": "object",
          "properties": {
            "field1": {
              "description": "The first field in the group.",
              "type": "integer",
              "format": "int32"
            },
            "field2": {
              "description": "The second field in the group.",
              "type": "string"
            }
          },
          "required": [
            "field1"
          ],
          "additionalProperties": false
        }"##)
    );
}

#[test]
fn parse_group_ref_test() {
    let xml: &[u8] = br#"
    <xs:complexType name="ObjectWithTwoBases" xmlns:xs="http://www.w3.org/2001/XMLSchema" xmlns:meta="http://www.vmware.com/vcloud/meta">
        <xs:annotation>
            <xs:documentation xml:lang="en">
                Object with 2 bases
            </xs:documentation>
        </xs:annotation>
        <xs:complexContent>
            <xs:extension base="Base1">
                <xs:sequence>
                    <xs:group ref="Base2"/>
                </xs:sequence>
            </xs:extension>
        </xs:complexContent>
    </xs:complexType>
    "#;
    assert_eq!(
        type_json_of(xml),
        json(r##"{
            "title": "test_ObjectWithTwoBases",
            "description": "Object with 2 bases",
            "allOf": [
                {
                    "$ref": "#/components/schemas/test_Base1"
                },
                {
                    "$ref": "#/components/schemas/test_Base2"
                },
                {
                    "type": "object",
                    "additionalProperties": false
                }
            ]
        }"##)
    );
}

#[test]
fn parse_group_ref_no_sequence_test() {
    let xml: &[u8] = br#"
    <xs:complexType name="ObjectWithTwoBases" xmlns:xs="http://www.w3.org/2001/XMLSchema" xmlns:meta="http://www.vmware.com/vcloud/meta">
        <xs:annotation>
            <xs:documentation xml:lang="en">
                Object with 2 bases
            </xs:documentation>
        </xs:annotation>
        <xs:complexContent>
            <xs:extension base="Base1">
                <xs:group ref="Base2"/>
            </xs:extension>
        </xs:complexContent>
    </xs:complexType>
    "#;
    assert_eq!(
        type_json_of(xml),
        json(r##"{
            "title": "test_ObjectWithTwoBases",
            "description": "Object with 2 bases",
            "allOf": [
                {
                    "$ref": "#/components/schemas/test_Base1"
                },
                {
                    "$ref": "#/components/schemas/test_Base2"
                },
                {
                    "type": "object",
                    "additionalProperties": false
                }
            ]
        }"##)
    );
}

#[test]
fn parse_group_ref_one_parent_test() {
    let xml: &[u8] = br#"
    <xs:complexType name="ObjectWithOneBase" xmlns:xs="http://www.w3.org/2001/XMLSchema" xmlns:meta="http://www.vmware.com/vcloud/meta">
        <xs:annotation>
            <xs:documentation xml:lang="en">
                Object with 1 base
            </xs:documentation>
        </xs:annotation>
        <xs:sequence>
            <xs:group ref="Base1"/>
        </xs:sequence>
    </xs:complexType>
    "#;
    assert_eq!(
        type_json_of(xml),
        json(r##"{
            "title": "test_ObjectWithOneBase",
            "description": "Object with 1 base",
            "allOf": [
                {
                    "$ref": "#/components/schemas/test_Base1"
                },
                {
                    "type": "object",
                    "additionalProperties": false
                }
            ]
        }"##)
    );
}

#[test]
fn parse_complex_simple_extension_type() {
    let xml: &[u8] = br###"
    <xs:complexType name="ExtendedString" xmlns:xs="http://www.w3.org/2001/XMLSchema" xmlns:meta="http://www.vmware.com/vcloud/meta">
      <xs:annotation>
        <xs:appinfo><meta:version added-in="5.1"/></xs:appinfo>
        <xs:documentation xml:lang="en">
           Base shows up as value
        </xs:documentation>
      </xs:annotation>
      <xs:simpleContent>
        <xs:extension base="xs:string">
            <xs:attribute name="field" type="xs:string" use="required">
                <xs:annotation>
                    <xs:appinfo><meta:version added-in="5.1"/></xs:appinfo>
                    <xs:documentation source="required">true</xs:documentation>
                    <xs:documentation xml:lang="en">
                        field shows up as itself
                    </xs:documentation>
                </xs:annotation>
            </xs:attribute>
        </xs:extension>
      </xs:simpleContent>
    </xs:complexType>
        "###;
    assert_eq!(
        type_json_of(xml),
        json(r##"{
          "title": "test_ExtendedString",
          "description": "Base shows up as value",
          "type": "object",
          "properties": {
            "field": {
              "description": "field shows up as itself",
              "type": "string"
            },
            "value": {
              "type": "string"
            }
          },
          "required": [
            "field",
            "value"
          ],
          "additionalProperties": false
        }"##)
    );
}

#[test]
fn parse_attribute_group_test() {
    let xml: &[u8] = br#"
<xs:attributeGroup name="CommonAttributes" xmlns:xs="http://www.w3.org/2001/XMLSchema" xmlns:meta="http://www.vmware.com/vcloud/meta">
    <xs:attribute name="name" type="xs:string" use="required">
        <xs:annotation>
            <xs:documentation source="modifiable">
                always
            </xs:documentation>
            <xs:documentation xml:lang="en">
                The name that people should call you.
            </xs:documentation>
            <xs:documentation source="required">
                true
            </xs:documentation>
        </xs:annotation>
    </xs:attribute>
    <xs:attribute name="age" type="xs:int" use="required">
        <xs:annotation>
            <xs:documentation source="modifiable">
                none
            </xs:documentation>
            <xs:documentation xml:lang="en">
                Your age in years.
            </xs:documentation>
            <xs:documentation source="required">
                true
            </xs:documentation>
        </xs:annotation>
    </xs:attribute>
</xs:attributeGroup>
"#;
    assert_eq!(
        type_json_of(xml),
        json(r##"{
              "title": "test_CommonAttributes",
              "type": "object",
              "properties": {
                "name": {
                  "description": "The name that people should call you.",
                  "type": "string"
                },
                "age": {
                  "description": "Your age in years.",
                  "format": "int32",
                  "type": "integer"
                }
              },
              "required": [
                "name",
                "age"
              ],
              "additionalProperties": false
            }"##)
    );
}

#[test]
fn parse_attribute_group_ref_test() {
    let xml: &[u8] = br#"
    <xs:complexType xmlns:xs="http://www.w3.org/2001/XMLSchema" xmlns:meta="http://www.vmware.com/vcloud/meta" name="TestType">
        <xs:complexContent>
            <xs:extension base="BaseType">
                <xs:attributeGroup ref="GroupReference"/>
                <xs:attribute name="optionalAttribute" type="xs:string">
                    <xs:annotation>
                        <xs:documentation source="modifiable">none</xs:documentation>
                        <xs:documentation>
                            A field that comes from an attribute.
                        </xs:documentation>
                    </xs:annotation>
                </xs:attribute>
            </xs:extension>
        </xs:complexContent>
    </xs:complexType>
    "#;
    assert_eq!(
        type_json_of(xml),
        json(r##"{
          "title": "test_TestType",
          "allOf": [
            {
              "$ref": "#/components/schemas/test_BaseType"
            },
            {
              "$ref": "#/components/schemas/test_GroupReference"
            },
            {
              "type": "object",
              "properties": {
                "optionalAttribute": {
                  "description": "A field that comes from an attribute.",
                  "type": "string"
                }
              },
              "additionalProperties": false
            }
          ]
        }"##)
    );
}

#[test]
fn parse_annotation_inside_complex_content_test() {
    let xml: &[u8] = br#"
    <xs:complexType xmlns:xs="http://www.w3.org/2001/XMLSchema" xmlns:meta="http://www.vmware.com/vcloud/meta" name="TestType">
        <xs:complexContent>
            <xs:annotation>
                <xs:appinfo>
                    <meta:content-type>application/vnd.ccouzens.test</meta:content-type>
                </xs:appinfo>
                <xs:documentation source="since">0.9</xs:documentation>
                <xs:documentation xml:lang="en">
                    A simple type to test the parser
                </xs:documentation>
            </xs:annotation>

            <xs:extension base="BaseType">
                <xs:attribute name="requiredAttribute" type="xs:string" use="required">
                    <xs:annotation>
                        <xs:documentation source="modifiable">none</xs:documentation>
                        <xs:documentation>
                            A field that comes from an attribute.
                        </xs:documentation>
                        <xs:documentation source="required">true</xs:documentation>
                    </xs:annotation>
                </xs:attribute>
            </xs:extension>
        </xs:complexContent>
    </xs:complexType>
    "#;
    assert_eq!(
        type_json_of(xml),
        json(r##"{
          "title": "test_TestType",
          "description": "A simple type to test the parser",
          "allOf": [
            {
              "$ref": "#/components/schemas/test_BaseType"
            },
            {
              "type": "object",
              "properties": {
                "requiredAttribute": {
                  "description": "A field that comes from an attribute.",
                  "type": "string"
                }
              },
              "required": [
                "requiredAttribute"
              ],
              "additionalProperties": false
            }
          ]
        }"##)
    );
}

#[test]
fn removed_field_test() {
    let xml: &[u8] = br#"
    <xs:complexType xmlns:xs="http://www.w3.org/2001/XMLSchema" xmlns:meta="http://www.vmware.com/vcloud/meta" abstract="true" name="BaseType">
        <xs:annotation>
            <xs:documentation source="since">0.9</xs:documentation>
            <xs:documentation xml:lang="en">
                A base abstract type for all the types.
            </xs:documentation>
        </xs:annotation>

        <xs:sequence>
            <xs:element name="FieldA" type="xs:string" minOccurs="0">
                <xs:annotation>
                    <xs:appinfo><meta:version added-in="1.0" removed-in="5.1"/></xs:appinfo>
                    <xs:documentation source="modifiable">always</xs:documentation>
                    <xs:documentation xml:lang="en">
                        A field that has been removed
                    </xs:documentation>
                    <xs:documentation source="required">false</xs:documentation>
                </xs:annotation>
            </xs:element>
            <xs:element name="FieldB" type="xs:string" minOccurs="0">
            <xs:annotation>
                <xs:documentation source="modifiable">always</xs:documentation>
                <xs:documentation xml:lang="en">
                    A field that has not been removed
                </xs:documentation>
                <xs:documentation source="required">false</xs:documentation>
            </xs:annotation>
        </xs:element>

        </xs:sequence>
    </xs:complexType>
    "#;
    assert_eq!(
        type_json_of(xml),
        json(r##"{
          "title": "test_BaseType",
          "description": "A base abstract type for all the types.",
          "type": "object",
          "properties": {
            "fieldB": {
              "description": "A field that has not been removed",
              "type": "string"
            }
          },
          "additionalProperties": false
        }"##)
    );
}


const SCHEMA: &[u8] = br#"<xs:schema xmlns:xs="http://www.w3.org/2001/XMLSchema" xmlns:meta="http://www.vmware.com/vcloud/meta" targetNamespace="http://www.vmware.com/vcloud/v1.5">
  <xs:include schemaLocation="base.xsd"/>
  <xs:complexType name="TestType">
    <xs:annotation><xs:appinfo><meta:content-type>application/vnd.ccouzens.test</meta:content-type></xs:appinfo></xs:annotation>
    <xs:sequence><xs:element name="Count" type="xs:int"/></xs:sequence>
  </xs:complexType>
  <xs:simpleType name="CoinType"><xs:restriction base="xs:string"><xs:enumeration value="Heads"/></xs:restriction></xs:simpleType>
</xs:schema>"#;

#[test]
fn schema_from_bytes_reads_its_types() {
    let types = vec![doc(SCHEMA)];
    let s = Xsd::from_bytes(Some("vcloud"), SCHEMA, &types).unwrap();
    assert_eq!(s.includes, vec!["base.xsd".to_string()]);
    let schemas: Vec<Value> = s.to_schemas().iter().map(schema_json).collect();
    assert_eq!(
        schemas,
        vec![
            json(r#"{"title": "vcloud_TestType", "type": "object", "properties": {"count": {"type": "integer", "format": "int32"}}, "additionalProperties": false}"#),
            json(r#"{"title": "vcloud_CoinType", "type": "string", "enum": ["Heads"]}"#),
        ]
    );
    assert_eq!(
        s.content_types_names(),
        vec![("application/vnd.ccouzens.test".to_string(), "vcloud_TestType".to_string())]
    );
}

#[test]
fn schema_from_bytes_refuses_what_is_not_a_schema() {
    assert!(matches!(Xsd::from_bytes(None, b"<a><b></a>", &vec![]), Err(SchemaFromBytesError::XmlParse(_))));
    let other: &[u8] = br#"<xs:element xmlns:xs="http://www.w3.org/2001/XMLSchema" name="A"/>"#;
    assert!(matches!(
        Xsd::from_bytes(None, other, &vec![]),
        Err(SchemaFromBytesError::XsdParse(SchemaParseError::NotSchemaNode))
    ));
}

#[test]
fn namespace_prefixes_and_schema_files() {
    assert_eq!(namespace_prefix("http://schemas.dmtf.org/ovf/envelope/1"), "ovf");
    assert_eq!(namespace_prefix("http://www.vmware.com/vcloud/extension/v1.5"), "vcloud-ext");
    assert_eq!(namespace_prefix("http://www.vmware.com/vcloud/versions"), "versioning");
    assert_eq!(namespace_prefix("http://example.com/other"), "vcloud");
    assert!(is_schema_file("doc/etc/schemas/master/types.xsd"));
    assert!(!is_schema_file("doc/etc/schemas/external/xml.xsd"));
    assert!(!is_schema_file("doc/etc/etc/snapshot/a.xsd"));
    assert!(!is_schema_file("doc/types/a.html"));
    assert!(!is_schema_file("doc/etc/a.xs"));
}

#[test]
fn primitive_types_by_name() {
    assert_eq!(PrimitiveType::from_str("xs:int"), Ok(PrimitiveType::Int));
    assert_eq!(PrimitiveType::from_str("xs:anySimpleType"), Ok(PrimitiveType::AnyType));
    assert_eq!(PrimitiveType::from_str("xs:unsignedLong"), Ok(PrimitiveType::UnsignedLong));
    assert_eq!(
        PrimitiveType::from_str("int"),
        Err(ParsePrimitiveTypeError::NoMatch("int".to_string()))
    );
}

#[test]
fn field_names_and_occurrences() {
    assert_eq!(decapitalize("BaseField"), "baseField");
    assert_eq!(decapitalize("Émile"), "émile");
    assert_eq!(decapitalize(""), "");
    let occ = |xml: &[u8]| get_occurrences(&doc(xml).nodes[0].data);
    assert_eq!(occ(br#"<e minOccurs="0" maxOccurs="1"/>"#), Occurrences::Optional);
    assert_eq!(occ(br#"<e minOccurs="0"/>"#), Occurrences::Optional);
    assert_eq!(occ(br#"<e maxOccurs="unbounded"/>"#), Occurrences::Array);
    assert_eq!(occ(br#"<e minOccurs="2"/>"#), Occurrences::Array);
    assert_eq!(occ(br#"<e minOccurs="1" maxOccurs="5"/>"#), Occurrences::Array);
    assert_eq!(occ(br#"<e minOccurs="1" maxOccurs="1"/>"#), Occurrences::One);
    assert_eq!(occ(br#"<e/>"#), Occurrences::One);
}

#[test]
fn names_in_a_namespace() {
    assert_eq!(prefix_name(Some("vcloud"), "VAppType"), "vcloud_VAppType");
    assert_eq!(prefix_name(None, "VAppType"), "VAppType");
}

#[test]
fn field_from_a_node_that_is_not_a_field_is_refused() {
    let d = doc(br#"<xs:sequence xmlns:xs="http://www.w3.org/2001/XMLSchema"/>"#);
    assert!(Field::try_from(None, &d, 0, &vec![]).is_err());
}

#[test]
fn numerals_as_std_reads_them() {
    assert_eq!(parse_i64("28"), Some(28));
    assert_eq!(parse_i64("-9223372036854775808"), Some(i64::MIN));
    assert_eq!(parse_i64("+7"), Some(7));
    assert_eq!(parse_i64("9223372036854775808"), None);
    assert_eq!(parse_i64(""), None);
    assert_eq!(parse_i64("1.5"), None);
    assert_eq!(parse_u32("4294967295"), Some(u32::MAX));
    assert_eq!(parse_u32("4294967296"), None);
    assert_eq!(parse_u32("-1"), None);
}

#[test]
fn merging_annotations_is_associative_and_idempotent() {
    let a = || Annotation { description: None, required: Some(true), deprecated: false, content_type: None, removed: true };
    let b = || ann("b", None, true, None, false);
    let c = || ann("c", Some(false), false, Some("c"), false);
    assert_eq!(a().merge(b()).merge(c()), a().merge(b().merge(c())));
    assert_eq!(b().merge(b()), b());
}

fn full(description: &str, required: Option<bool>, content_type: Option<&str>) -> Annotation {
    ann(description, required, false, content_type, false)
}

fn element(annotation: Annotation, modifiable: Modifiable, name: &str, element_type: &str, occurrences: Occurrences) -> SequenceElement {
    SequenceElement {
        annotation: Some(annotation),
        modifiable: Some(modifiable),
        name: name.to_owned(),
        element_type: element_type.to_owned(),
        occurrences,
    }
}

#[test]
fn test_parse_sequence_element_optional() {
    let xml: &[u8] = br#"
    <xs:element xmlns:xs="http://www.w3.org/2001/XMLSchema" name="BaseField" type="xs:string" minOccurs="0">
        <xs:annotation>
            <xs:documentation source="modifiable">always</xs:documentation>
            <xs:documentation xml:lang="en">
                A base field for the base type
            </xs:documentation>
            <xs:documentation source="required">false</xs:documentation>
        </xs:annotation>
    </xs:element>
    "#;
    assert_eq!(
        SequenceElement::try_from(&doc(xml), 0),
        Ok(element(full("A base field for the base type", Some(false), None), Modifiable::Always, "baseField", "xs:string", Occurrences::Optional))
    );
}

#[test]
fn test_parse_sequence_element_array() {
    let xml: &[u8] = br#"
    <xs:element xmlns:xs="http://www.w3.org/2001/XMLSchema" name="BaseField" type="xs:int" minOccurs="0" maxOccurs="unbounded">
        <xs:annotation>
            <xs:documentation source="modifiable">none</xs:documentation>
            <xs:documentation xml:lang="en">
                A field that could be repeated many times in the &lt;code&gt;XML&lt;/code&gt;.
            </xs:documentation>
            <xs:documentation source="required">false</xs:documentation>
        </xs:annotation>
    </xs:element>
    "#;
    assert_eq!(
        SequenceElement::try_from(&doc(xml), 0),
        Ok(element(
            full("A field that could be repeated many times in the `XML`.", Some(false), None),
            Modifiable::Never,
            "baseField",
            "xs:int",
            Occurrences::Array
        ))
    );
}

#[test]
fn test_parse_sequence_element_exactly_one() {
    let xml: &[u8] = br#"
    <xs:element xmlns:xs="http://www.w3.org/2001/XMLSchema" name="BaseField" type="xs:boolean">
        <xs:annotation>
            <xs:documentation source="modifiable">none</xs:documentation>
            <xs:documentation xml:lang="en">
                A field that appears precisely once in the &lt;code&gt;XML&lt;/code&gt;.
            </xs:documentation>
            <xs:documentation source="required">true</xs:documentation>
        </xs:annotation>
    </xs:element>
    "#;
    assert_eq!(
        SequenceElement::try_from(&doc(xml), 0),
        Ok(element(
            full("A field that appears precisely once in the `XML`.", Some(true), None),
            Modifiable::Never,
            "baseField",
            "xs:boolean",
            Occurrences::One
        ))
    );
}

fn element_schema_json(xml: &[u8]) -> Value {
    let e = SequenceElement::try_from(&doc(xml), 0).unwrap();
    schema_json(&e.to_schema())
}

#[test]
fn test_sequence_element_optional_into_schema() {
    let xml: &[u8] = br#"
    <xs:element xmlns:xs="http://www.w3.org/2001/XMLSchema" name="BaseField" type="xs:string" minOccurs="0">
        <xs:annotation>
            <xs:documentation source="modifiable">always</xs:documentation>
            <xs:documentation xml:lang="en">
                A base field for the base type
            </xs:documentation>
            <xs:documentation source="required">false</xs:documentation>
        </xs:annotation>
    </xs:element>
    "#;
    assert_eq!(
        element_schema_json(xml),
        json(r#"{
            "description": "A base field for the base type",
            "nullable": true,
            "type": "string"
        }"#)
    );
}

#[test]
fn test_sequence_element_array_into_schema() {
    let xml: &[u8] = br#"
    <xs:element xmlns:xs="http://www.w3.org/2001/XMLSchema" name="BaseField" type="xs:int" minOccurs="0" maxOccurs="unbounded">
        <xs:annotation>
            <xs:documentation source="modifiable">none</xs:documentation>
            <xs:documentation xml:lang="en">
                A field that could be repeated many times in the &lt;code&gt;XML&lt;/code&gt;.
            </xs:documentation>
            <xs:documentation source="required">false</xs:documentation>
        </xs:annotation>
    </xs:element>
    "#;
    assert_eq!(
        element_schema_json(xml),
        json(r#"{
            "description": "A field that could be repeated many times in the `XML`.",
            "type": "array",
            "readOnly": true,
            "items": {
                "format": "int32",
                "type": "integer"
            }
        }"#)
    );
}

#[test]
fn test_sequence_element_exactly_one_into_schema() {
    let xml: &[u8] = br#"
    <xs:element xmlns:xs="http://www.w3.org/2001/XMLSchema" name="BaseField" type="xs:boolean">
        <xs:annotation>
            <xs:documentation source="modifiable">none</xs:documentation>
            <xs:documentation xml:lang="en">
                A field that appears precisely once in the &lt;code&gt;XML&lt;/code&gt;.
            </xs:documentation>
            <xs:documentation source="required">true</xs:documentation>
        </xs:annotation>
    </xs:element>
    "#;
    assert_eq!(
        element_schema_json(xml),
        json(r#"{
            "description": "A field that appears precisely once in the `XML`.",
            "type": "boolean",
            "readOnly": true
        }"#)
    );
}

#[test]
fn sequence_element_test_anyuri_into_schema() {
    let xml: &[u8] = br#"
    <xs:element xmlns:xs="http://www.w3.org/2001/XMLSchema" name="BaseField" type="xs:anyURI">
        <xs:annotation>
            <xs:documentation source="modifiable">none</xs:documentation>
            <xs:documentation xml:lang="en">
                A field that is meant to represent a URL.
            </xs:documentation>
            <xs:documentation source="required">true</xs:documentation>
        </xs:annotation>
    </xs:element>
    "#;
    assert_eq!(
        element_schema_json(xml),
        json(r#"{
            "description": "A field that is meant to represent a URL.",
            "format": "uri",
            "type": "string",
            "readOnly": true
        }"#)
    );
}

#[test]
fn sequence_element_test_double_into_schema() {
    let xml: &[u8] = br#"
    <xs:element xmlns:xs="http://www.w3.org/2001/XMLSchema" name="BaseField" type="xs:double">
        <xs:annotation>
            <xs:documentation source="modifiable">none</xs:documentation>
            <xs:documentation xml:lang="en">
                A field that represents a double precision float
            </xs:documentation>
            <xs:documentation source="required">true</xs:documentation>
        </xs:annotation>
    </xs:element>
    "#;
    assert_eq!(
        element_schema_json(xml),
        json(r#"{
            "description": "A field that represents a double precision float",
            "format": "double",
            "type": "number",
            "readOnly": true
        }"#)
    );
}

#[test]
fn sequence_element_of_a_named_type_into_schema() {
    let one: &[u8] = br#"<xs:element xmlns:xs="http://www.w3.org/2001/XMLSchema" name="Link" type="LinkType"/>"#;
    assert_eq!(
        element_schema_json(one),
        json(r##"{ "allOf": [ { "$ref": "#/components/schemas/LinkType" } ] }"##)
    );
    let many: &[u8] = br#"<xs:element xmlns:xs="http://www.w3.org/2001/XMLSchema" name="Link" type="LinkType" maxOccurs="unbounded">
        <xs:annotation>
            <xs:documentation source="modifiable">create</xs:documentation>
            <xs:documentation source="deprecated">1.0</xs:documentation>
        </xs:annotation>
    </xs:element>"#;
    let e = SequenceElement::try_from(&doc(many), 0).unwrap();
    assert_eq!(e.modifiable, Some(Modifiable::Create));
    assert_eq!(
        schema_json(&e.to_schema()),
        json(r##"{ "deprecated": true, "type": "array", "items": { "$ref": "#/components/schemas/LinkType" } }"##)
    );
}

#[test]
fn sequence_element_errors() {
    let e = |xml: &[u8]| SequenceElement::try_from(&doc(xml), 0);
    assert_eq!(
        e(br#"<xs:element xmlns:xs="http://www.w3.org/2001/XMLSchema" type="xs:int"/>"#),
        Err(SequenceElementParseError::MissingName)
    );
    assert_eq!(
        e(br#"<xs:element xmlns:xs="http://www.w3.org/2001/XMLSchema" name="A"/>"#),
        Err(SequenceElementParseError::MissingType)
    );
    assert_eq!(
        e(br#"<xs:attribute xmlns:xs="http://www.w3.org/2001/XMLSchema" name="A" type="xs:int"/>"#),
        Err(SequenceElementParseError::NotSequenceElementNode)
    );
    let plain = e(r#"<xs:element xmlns:xs="http://www.w3.org/2001/XMLSchema" name="Élan" type="T" maxOccurs="unbounded" minOccurs="0"/>"#.as_bytes()).unwrap();
    assert_eq!(plain.name, "Élan");
    assert_eq!(plain.annotation, None);
    assert_eq!(plain.modifiable, None);
    assert_eq!(plain.occurrences, Occurrences::Array);
}

#[test]
fn parse_base_type_test() {
    let xml: &[u8] = br#"
    <xs:complexType xmlns:xs="http://www.w3.org/2001/XMLSchema" abstract="true" name="BaseType">
        <xs:annotation>
            <xs:documentation source="since">0.9</xs:documentation>
            <xs:documentation xml:lang="en">
                A base abstract type for all the types.
            </xs:documentation>
        </xs:annotation>

        <xs:sequence>
            <xs:element name="BaseField" type="xs:string" minOccurs="0">
                <xs:annotation>
                    <xs:documentation source="modifiable">always</xs:documentation>
                    <xs:documentation xml:lang="en">
                        A base field for the base type
                    </xs:documentation>
                    <xs:documentation source="required">false</xs:documentation>
                </xs:annotation>
            </xs:element>
        </xs:sequence>
    </xs:complexType>
    "#;
    assert_eq!(
        ComplexType::try_from(&doc(xml), 0),
        Ok(ComplexType {
            annotation: full("A base abstract type for all the types.", None, None),
            name: "BaseType".to_owned(),
            sequence_elements: vec![element(
                full("A base field for the base type", Some(false), None),
                Modifiable::Always,
                "baseField",
                "xs:string",
                Occurrences::Optional
            )],
            parent: None
        })
    );
}

#[test]
fn complex_type_parse_type_wth_parent_test() {
    let xml: &[u8] = br#"
    <xs:complexType xmlns:xs="http://www.w3.org/2001/XMLSchema" xmlns:meta="http://www.vmware.com/vcloud/meta" name="TestType">
        <xs:annotation>
            <xs:appinfo>
                <meta:content-type>application/vnd.ccouzens.test</meta:content-type>
            </xs:appinfo>
            <xs:documentation source="since">0.9</xs:documentation>
            <xs:documentation xml:lang="en">
                A simple type to test the parser
            </xs:documentation>
        </xs:annotation>
        <xs:complexContent>
            <xs:extension base="BaseType">
                <xs:sequence>
                    <xs:element name="OptionalString" type="xs:string" minOccurs="0">
                        <xs:annotation>
                            <xs:documentation source="modifiable">always</xs:documentation>
                            <xs:documentation xml:lang="en">
                                String that may or may not be here
                            </xs:documentation>
                            <xs:documentation source="required">false</xs:documentation>
                        </xs:annotation>
                    </xs:element>
                    <xs:element name="RequiredString" type="xs:string" minOccurs="1">
                        <xs:annotation>
                            <xs:documentation source="modifiable">always</xs:documentation>
                            <xs:documentation xml:lang="en">
                                String that will be here
                            </xs:documentation>
                            <xs:documentation source="required">true</xs:documentation>
                        </xs:annotation>
                    </xs:element>
                </xs:sequence>
            </xs:extension>
        </xs:complexContent>
    </xs:complexType>    "#;
    assert_eq!(
        ComplexType::try_from(&doc(xml), 0),
        Ok(ComplexType {
            annotation: full("A simple type to test the parser", None, Some("application/vnd.ccouzens.test")),
            name: "TestType".to_owned(),
            sequence_elements: vec![
                element(full("String that may or may not be here", Some(false), None), Modifiable::Always, "optionalString", "xs:string", Occurrences::Optional),
                element(full("String that will be here", Some(true), None), Modifiable::Always, "requiredString", "xs:string", Occurrences::One),
            ],
            parent: Some("BaseType".to_owned())
        })
    );
}

#[test]
fn complex_type_errors() {
    let t = |xml: &[u8]| ComplexType::try_from(&doc(xml), 0);
    assert_eq!(
        t(br#"<xs:simpleType xmlns:xs="http://www.w3.org/2001/XMLSchema" name="A"/>"#),
        Err(ComplexTypeParseError::NotComplexTypeNode)
    );
    assert_eq!(
        t(br#"<xs:complexType xmlns:xs="http://www.w3.org/2001/XMLSchema"><xs:annotation/></xs:complexType>"#),
        Err(ComplexTypeParseError::MissingName)
    );
    assert_eq!(
        t(br#"<xs:complexType xmlns:xs="http://www.w3.org/2001/XMLSchema" name="A"/>"#),
        Err(ComplexTypeParseError::MissingAnnotation)
    );
}

#[test]
fn gen_xsd_test_parse_annotation() {
    let xml: &[u8] = br#"
    <xs:annotation xmlns:xs="http://www.w3.org/2001/XMLSchema">
        <xs:documentation source="since">0.9</xs:documentation>
        <xs:documentation xml:lang="en">
            A base abstract &lt;b&gt;type&lt;/b&gt; for
            all the&lt;br/&gt;types.
        </xs:documentation>
    </xs:annotation>
    "#;
    assert_eq!(
        parse_annotation(&doc(xml), 0),
        Some(ShortAnnotation {
            description: "A base abstract **type** for all the  \ntypes.".to_owned(),
            required: None,
            deprecated: false
        })
    );
}

#[test]
fn gen_xsd_test_parse_annotation_required() {
    let xml: &[u8] = br#"
    <xs:annotation xmlns:xs="http://www.w3.org/2001/XMLSchema">
        <xs:documentation source="since">0.9</xs:documentation>
        <xs:documentation xml:lang="en">
            A field that is &lt;i&gt;required&lt;/i&gt;.
        </xs:documentation>
        <xs:documentation source="required">true</xs:documentation>
    </xs:annotation>
    "#;
    assert_eq!(
        parse_annotation(&doc(xml), 0),
        Some(ShortAnnotation {
            description: "A field that is *required*.".to_owned(),
            required: Some(true),
            deprecated: false
        })
    );
}

#[test]
fn gen_xsd_test_parse_annotation_not_required() {
    let xml: &[u8] = br#"
    <xs:annotation xmlns:xs="http://www.w3.org/2001/XMLSchema">
        <xs:documentation source="since">0.9</xs:documentation>
        <xs:documentation xml:lang="en">
            A field that is &lt;i&gt;not required&lt;/i&gt;.
        </xs:documentation>
        <xs:documentation source="required">false</xs:documentation>
    </xs:annotation>
    "#;
    assert_eq!(
        parse_annotation(&doc(xml), 0),
        Some(ShortAnnotation {
            description: "A field that is *not required*.".to_owned(),
            required: Some(false),
            deprecated: false
        })
    );
}

#[test]
fn gen_xsd_test_parse_annotation_deprecated() {
    let xml: &[u8] = br#"
    <xs:annotation xmlns:xs="http://www.w3.org/2001/XMLSchema">
        <xs:documentation source="since">0.9</xs:documentation>
        <xs:documentation source="deprecated">34.0</xs:documentation>
        <xs:documentation xml:lang="en">
            A field that is &lt;i&gt;deprecated&lt;/i&gt;.
        </xs:documentation>
        </xs:annotation>
    "#;
    assert_eq!(
        parse_annotation(&doc(xml), 0),
        Some(ShortAnnotation {
            description: "A field that is *deprecated*.".to_owned(),
            required: None,
            deprecated: true
        })
    );
}

#[test]
fn short_annotation_needs_english_documentation() {
    let xml: &[u8] = br#"<xs:annotation xmlns:xs="http://www.w3.org/2001/XMLSchema"><xs:documentation>No language</xs:documentation><xs:documentation source="required"> true</xs:documentation></xs:annotation>"#;
    assert_eq!(parse_annotation(&doc(xml), 0), None);
    let xml: &[u8] = br#"<xs:annotation xmlns:xs="http://www.w3.org/2001/XMLSchema"><xs:documentation xml:lang="en">Yes</xs:documentation><xs:documentation source="required"> true</xs:documentation></xs:annotation>"#;
    assert_eq!(
        parse_annotation(&doc(xml), 0),
        Some(ShortAnnotation { description: "Yes".to_owned(), required: None, deprecated: false })
    );
    let other: &[u8] = br#"<xs:element xmlns:xs="http://www.w3.org/2001/XMLSchema" name="A"/>"#;
    assert_eq!(parse_annotation(&doc(other), 0), None);
}

const TEST_BASE_XSD: &[u8] = br#"<?xml version="1.0" encoding="UTF-8"?>
<xs:schema xmlns:xs="http://www.w3.org/2001/XMLSchema" elementFormDefault="qualified">
    <xs:complexType name="BaseType" abstract="true">
        <xs:annotation>
            <xs:documentation source="since">0.9</xs:documentation>
            <xs:documentation xml:lang="en">
                A base abstract type for all the types.
            </xs:documentation>
        </xs:annotation>
        <xs:sequence>
            <xs:element name="BaseField" type="xs:string" minOccurs="0">
                <xs:annotation>
                    <xs:documentation source="modifiable">always</xs:documentation>
                    <xs:documentation xml:lang="en">
                        A base field for the base type
                    </xs:documentation>
                    <xs:documentation source="required">false</xs:documentation>
                </xs:annotation>
            </xs:element>
        </xs:sequence>
    </xs:complexType>
</xs:schema>
"#;

const XML_SCHEMA_NS: &str = "http://www.w3.org/2001/XMLSchema";

#[test]
fn basic() {
    let tree = parse_xml(TEST_BASE_XSD);
    match tree {
        Ok(d) if d.nodes[0].data.namespace.as_deref() == Some(XML_SCHEMA_NS) && d.nodes[0].data.name == "schema" => {
            for child in d.children(0) {
                let c = &d.nodes[child].data;
                let named = c.attrs.iter().any(|(k, _)| k == "name");
                if c.namespace.as_deref() == Some(XML_SCHEMA_NS) && c.name == "complexType" && named {
                    let first = d.children(child).first().map(|k| &d.nodes[*k].data);
                    match first {
                        Some(a) if a.name == "annotation" && a.namespace.as_deref() == Some(XML_SCHEMA_NS) => {}
                        _ => panic!("no annotations"),
                    }
                } else {
                    panic!("not matched");
                }
            }
        }
        _ => panic!("didn't match"),
    }
}

#[test]
fn base_schema_into_schemas_test() {
    let s = Xsd::from_bytes(None, TEST_BASE_XSD, &vec![doc(TEST_BASE_XSD)]).unwrap();
    let value: Vec<Value> = s.to_schemas().iter().map(schema_json).collect();
    assert_eq!(
        Value::Array(value),
        json(r#"[
            {
                "title": "BaseType",
                "description": "A base abstract type for all the types.",
                "type": "object",
                "properties": {
                    "baseField": {
                        "description": "A base field for the base type",
                        "type": "string"
                    }
                },
                "additionalProperties": false
            }
        ]"#)
    );
}
