//! The built-in types of XML Schema, and the OpenAPI types they become.
use vstd::prelude::*;

use crate::numeral::{parse_i64, parse_i64_spec};
use crate::openapi::{
    opt_str, opt_strs_view, strs_view, IntegerFormat, IntegerType, NumberFormat, NumberType,
    SchemaType, SchemaTypeV, StringFormat, StringType, StringTypeV, type_view,
};
use crate::text::str_eq;

verus! {

/// A built-in type of XML Schema.
#[derive(Debug, PartialEq, Eq, Structural, Clone, Copy)]
pub enum PrimitiveType {
    AnyType,
    AnyUri,
    Base64Binary,
    Boolean,
    Byte,
    DateTime,
    Decimal,
    Double,
    Float,
    HexBinary,
    Int,
    Integer,
    Long,
    NormalizedString,
    Short,
    UnsignedShort,
    String,
    UnsignedByte,
    UnsignedInt,
    UnsignedLong,
}

/// Why a name is not one of a built-in type.
#[derive(Debug, PartialEq)]
pub enum ParsePrimitiveTypeError {
    NoMatch(String),
}

/// The built-in type that a qualified name names.
pub open spec fn primitive_of(s: Seq<char>) -> Option<PrimitiveType> {
    if s == "xs:anyType"@ || s == "xs:anySimpleType"@ {
        Some(PrimitiveType::AnyType)
    } else if s == "xs:anyURI"@ {
        Some(PrimitiveType::AnyUri)
    } else if s == "xs:base64Binary"@ {
        Some(PrimitiveType::Base64Binary)
    } else if s == "xs:boolean"@ {
        Some(PrimitiveType::Boolean)
    } else if s == "xs:byte"@ {
        Some(PrimitiveType::Byte)
    } else if s == "xs:unsignedByte"@ {
        Some(PrimitiveType::UnsignedByte)
    } else if s == "xs:dateTime"@ {
        Some(PrimitiveType::DateTime)
    } else if s == "xs:decimal"@ {
        Some(PrimitiveType::Decimal)
    } else if s == "xs:double"@ {
        Some(PrimitiveType::Double)
    } else if s == "xs:float"@ {
        Some(PrimitiveType::Float)
    } else if s == "xs:hexBinary"@ {
        Some(PrimitiveType::HexBinary)
    } else if s == "xs:int"@ {
        Some(PrimitiveType::Int)
    } else if s == "xs:integer"@ {
        Some(PrimitiveType::Integer)
    } else if s == "xs:unsignedInt"@ {
        Some(PrimitiveType::UnsignedInt)
    } else if s == "xs:long"@ {
        Some(PrimitiveType::Long)
    } else if s == "xs:unsignedLong"@ {
        Some(PrimitiveType::UnsignedLong)
    } else if s == "xs:normalizedString"@ {
        Some(PrimitiveType::NormalizedString)
    } else if s == "xs:short"@ {
        Some(PrimitiveType::Short)
    } else if s == "xs:unsignedShort"@ {
        Some(PrimitiveType::UnsignedShort)
    } else if s == "xs:string"@ {
        Some(PrimitiveType::String)
    } else {
        None
    }
}

impl PrimitiveType {
    /// The built-in type that `s` names.
    pub fn from_str(s: &str) -> (r: Result<PrimitiveType, ParsePrimitiveTypeError>)
        ensures
            match r {
                Ok(p) => primitive_of(s@) == Some(p),
                Err(ParsePrimitiveTypeError::NoMatch(n)) => primitive_of(s@) is None && n@ == s@,
            },
    {
        if str_eq(s, "xs:anyType") || str_eq(s, "xs:anySimpleType") {
            Ok(PrimitiveType::AnyType)
        } else if str_eq(s, "xs:anyURI") {
            Ok(PrimitiveType::AnyUri)
        } else if str_eq(s, "xs:base64Binary") {
            Ok(PrimitiveType::Base64Binary)
        } else if str_eq(s, "xs:boolean") {
            Ok(PrimitiveType::Boolean)
        } else if str_eq(s, "xs:byte") {
            Ok(PrimitiveType::Byte)
        } else if str_eq(s, "xs:unsignedByte") {
            Ok(PrimitiveType::UnsignedByte)
        } else if str_eq(s, "xs:dateTime") {
            Ok(PrimitiveType::DateTime)
        } else if str_eq(s, "xs:decimal") {
            Ok(PrimitiveType::Decimal)
        } else if str_eq(s, "xs:double") {
            Ok(PrimitiveType::Double)
        } else if str_eq(s, "xs:float") {
            Ok(PrimitiveType::Float)
        } else if str_eq(s, "xs:hexBinary") {
            Ok(PrimitiveType::HexBinary)
        } else if str_eq(s, "xs:int") {
            Ok(PrimitiveType::Int)
        } else if str_eq(s, "xs:integer") {
            Ok(PrimitiveType::Integer)
        } else if str_eq(s, "xs:unsignedInt") {
            Ok(PrimitiveType::UnsignedInt)
        } else if str_eq(s, "xs:long") {
            Ok(PrimitiveType::Long)
        } else if str_eq(s, "xs:unsignedLong") {
            Ok(PrimitiveType::UnsignedLong)
        } else if str_eq(s, "xs:normalizedString") {
            Ok(PrimitiveType::NormalizedString)
        } else if str_eq(s, "xs:short") {
            Ok(PrimitiveType::Short)
        } else if str_eq(s, "xs:unsignedShort") {
            Ok(PrimitiveType::UnsignedShort)
        } else if str_eq(s, "xs:string") {
            Ok(PrimitiveType::String)
        } else {
            Err(ParsePrimitiveTypeError::NoMatch(String::from_str(s)))
        }
    }
}

/// A built-in type with the restrictions that a simple type puts on it.
pub struct RestrictedPrimitiveType<'a> {
    pub primitive: PrimitiveType,
    pub pattern: &'a Option<String>,
    pub enumeration: &'a Vec<Option<String>>,
    pub min_inclusive: &'a Option<String>,
}

/// The values that are given, in order.
pub open spec fn given(e: Seq<Option<Seq<char>>>) -> Seq<Seq<char>>
    decreases e.len(),
{
    if e.len() == 0 {
        Seq::empty()
    } else {
        let r = given(e.drop_last());
        match e.last() {
            Some(v) => r.push(v),
            None => r,
        }
    }
}

/// An integer schema of a built-in type: its bound and its values read as
/// 64 bit integers.
pub open spec fn integer_v(
    format: IntegerFormat,
    enumeration: Seq<Option<Seq<char>>>,
    min_inclusive: Option<Seq<char>>,
) -> SchemaTypeV {
    SchemaTypeV::Integer {
        format,
        minimum: match min_inclusive {
            Some(m) => parse_i64_spec(m),
            None => None,
        },
        maximum: None,
        enumeration: given(enumeration).map_values(|v: Seq<char>| parse_i64_spec(v)),
    }
}

/// A string schema of a built-in type.
pub open spec fn string_v(
    format: StringFormat,
    pattern: Option<Seq<char>>,
    enumeration: Seq<Option<Seq<char>>>,
) -> SchemaTypeV {
    SchemaTypeV::String(StringTypeV { format, pattern, enumeration })
}

/// The OpenAPI type of a restricted built-in type, as plain sequences.
pub open spec fn primitive_type_v(
    t: PrimitiveType,
    pattern: Option<Seq<char>>,
    enumeration: Seq<Option<Seq<char>>>,
    min_inclusive: Option<Seq<char>>,
) -> SchemaTypeV {
    match t {
        PrimitiveType::AnyType | PrimitiveType::Decimal | PrimitiveType::HexBinary
        | PrimitiveType::NormalizedString | PrimitiveType::String => string_v(
            StringFormat::Empty,
            pattern,
            enumeration,
        ),
        PrimitiveType::AnyUri => string_v(StringFormat::Uri, pattern, enumeration),
        PrimitiveType::Base64Binary | PrimitiveType::Byte | PrimitiveType::UnsignedByte => string_v(
            StringFormat::Byte,
            pattern,
            enumeration,
        ),
        PrimitiveType::Boolean => SchemaTypeV::Boolean,
        PrimitiveType::DateTime => string_v(StringFormat::DateTime, pattern, enumeration),
        PrimitiveType::Double => SchemaTypeV::Number {
            format: NumberFormat::Double,
            minimum: min_inclusive,
            enumeration: given(enumeration),
        },
        PrimitiveType::Float => SchemaTypeV::Number {
            format: NumberFormat::Float,
            minimum: min_inclusive,
            enumeration: given(enumeration),
        },
        PrimitiveType::Int => integer_v(IntegerFormat::Int32, enumeration, min_inclusive),
        PrimitiveType::Integer | PrimitiveType::UnsignedInt | PrimitiveType::Short
        | PrimitiveType::UnsignedShort => integer_v(IntegerFormat::Empty, enumeration, min_inclusive),
        PrimitiveType::Long | PrimitiveType::UnsignedLong => integer_v(
            IntegerFormat::Int64,
            enumeration,
            min_inclusive,
        ),
    }
}

pub(crate) fn clone_opt(o: &Option<String>) -> (r: Option<String>)
    ensures
        opt_str(r) == opt_str(*o),
{
    match o {
        Some(s) => Some(s.clone()),
        None => None,
    }
}

pub(crate) fn clone_opts(v: &Vec<Option<String>>) -> (r: Vec<Option<String>>)
    ensures
        opt_strs_view(r@) == opt_strs_view(v@),
{
    let mut r: Vec<Option<String>> = Vec::new();
    let mut k: usize = 0;
    while k < v.len()
        invariant
            k <= v@.len(),
            opt_strs_view(r@) == opt_strs_view(v@.take(k as int)),
        decreases v@.len() - k,
    {
        let c = clone_opt(&v[k]);
        proof {
            assert(opt_strs_view(r@.push(c)) =~= opt_strs_view(r@).push(opt_str(c)));
            assert(v@.take(k + 1) =~= v@.take(k as int).push(v@[k as int]));
            assert(opt_strs_view(v@.take(k + 1)) =~= opt_strs_view(v@.take(k as int)).push(
                opt_str(v@[k as int]),
            ));
        }
        r.push(c);
        k = k + 1;
    }
    assert(v@.take(v@.len() as int) =~= v@);
    r
}

/// The values that are given, in order.
fn given_values(v: &Vec<Option<String>>) -> (r: Vec<String>)
    ensures
        strs_view(r@) == given(opt_strs_view(v@)),
{
    let mut r: Vec<String> = Vec::new();
    let mut k: usize = 0;
    while k < v.len()
        invariant
            k <= v@.len(),
            strs_view(r@) == given(opt_strs_view(v@.take(k as int))),
        decreases v@.len() - k,
    {
        proof {
            assert(opt_strs_view(v@.take(k + 1)).drop_last() =~= opt_strs_view(v@.take(k as int)));
        }
        match &v[k] {
            Some(s) => {
                let c = s.clone();
                proof {
                    assert(strs_view(r@.push(c)) =~= strs_view(r@).push(c@));
                }
                r.push(c);
            },
            None => {},
        }
        k = k + 1;
    }
    assert(v@.take(v@.len() as int) =~= v@);
    r
}

/// The given values read as 64 bit integers.
fn integer_values(v: &Vec<Option<String>>) -> (r: Vec<Option<i64>>)
    ensures
        r@ == given(opt_strs_view(v@)).map_values(|s: Seq<char>| parse_i64_spec(s)),
{
    let g = given_values(v);
    let mut r: Vec<Option<i64>> = Vec::new();
    let mut k: usize = 0;
    while k < g.len()
        invariant
            k <= g@.len(),
            strs_view(g@) == given(opt_strs_view(v@)),
            r@ == strs_view(g@).take(k as int).map_values(|s: Seq<char>| parse_i64_spec(s)),
        decreases g@.len() - k,
    {
        let x = parse_i64(g[k].as_str());
        proof {
            assert(r@.push(x) =~= strs_view(g@).take(k + 1).map_values(
                |s: Seq<char>| parse_i64_spec(s),
            ));
        }
        r.push(x);
        k = k + 1;
    }
    assert(strs_view(g@).take(g@.len() as int) =~= strs_view(g@));
    r
}

fn integer_type(
    format: IntegerFormat,
    enumeration: &Vec<Option<String>>,
    min_inclusive: &Option<String>,
) -> (r: SchemaType)
    ensures
        type_view(r) == integer_v(format, opt_strs_view(enumeration@), opt_str(*min_inclusive)),
{
    let minimum = match min_inclusive {
        Some(m) => parse_i64(m.as_str()),
        None => None,
    };
    SchemaType::Integer(
        IntegerType { format, minimum, maximum: None, enumeration: integer_values(enumeration) },
    )
}

fn string_type(format: StringFormat, pattern: &Option<String>, enumeration: &Vec<Option<String>>) -> (r:
    SchemaType)
    ensures
        type_view(r) == string_v(format, opt_str(*pattern), opt_strs_view(enumeration@)),
{
    SchemaType::String(
        StringType { format, pattern: clone_opt(pattern), enumeration: clone_opts(enumeration) },
    )
}

impl<'a> RestrictedPrimitiveType<'a> {
    /// The OpenAPI type of this restricted built-in type. Number bounds and
    /// values stay decimal text.
    pub fn to_schema_type(&self) -> (r: SchemaType)
        ensures
            type_view(r) == primitive_type_v(
                self.primitive,
                opt_str(*self.pattern),
                opt_strs_view(self.enumeration@),
                opt_str(*self.min_inclusive),
            ),
    {
        match self.primitive {
            PrimitiveType::AnyType | PrimitiveType::Decimal | PrimitiveType::HexBinary
            | PrimitiveType::NormalizedString | PrimitiveType::String => string_type(
                StringFormat::Empty,
                self.pattern,
                self.enumeration,
            ),
            PrimitiveType::AnyUri => string_type(StringFormat::Uri, self.pattern, self.enumeration),
            PrimitiveType::Base64Binary | PrimitiveType::Byte | PrimitiveType::UnsignedByte =>
                string_type(StringFormat::Byte, self.pattern, self.enumeration),
            PrimitiveType::Boolean => SchemaType::Boolean,
            PrimitiveType::DateTime => string_type(
                StringFormat::DateTime,
                self.pattern,
                self.enumeration,
            ),
            PrimitiveType::Double => SchemaType::Number(
                NumberType {
                    format: NumberFormat::Double,
                    minimum: clone_opt(self.min_inclusive),
                    enumeration: given_values(self.enumeration),
                },
            ),
            PrimitiveType::Float => SchemaType::Number(
                NumberType {
                    format: NumberFormat::Float,
                    minimum: clone_opt(self.min_inclusive),
                    enumeration: given_values(self.enumeration),
                },
            ),
            PrimitiveType::Int => integer_type(
                IntegerFormat::Int32,
                self.enumeration,
                self.min_inclusive,
            ),
            PrimitiveType::Integer | PrimitiveType::UnsignedInt | PrimitiveType::Short
            | PrimitiveType::UnsignedShort => integer_type(
                IntegerFormat::Empty,
                self.enumeration,
                self.min_inclusive,
            ),
            PrimitiveType::Long | PrimitiveType::UnsignedLong => integer_type(
                IntegerFormat::Int64,
                self.enumeration,
                self.min_inclusive,
            ),
        }
    }
}

} // verus!
