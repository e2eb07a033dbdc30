//! The named types of an XML Schema: object types and simple types.
use vstd::prelude::*;

use crate::openapi::{schema_view, Schema};
use crate::tree::{Document, Node};
use crate::xsd::object_type::{
    docs_view, object_schema_v, object_type_of, object_view, ObjectType, ObjectTypeV,
};
use crate::xsd::primitive_type::ParsePrimitiveTypeError;
use crate::xsd::simple_type::{
    ns_view, simple_schema_v, simple_type_of, simple_view, SimpleType, SimpleTypeV,
};

verus! {

/// Why a node is not a type, or not one that can be read.
#[derive(Debug, PartialEq)]
pub enum TypeParseError {
    NotTypeNode,
    MissingName,
    PrimitiveTypeParseError(ParsePrimitiveTypeError),
    MissingBase,
    MissingItemTypeValue,
}

/// Why a node is not a type, as plain sequences.
pub enum TypeErrV {
    NotTypeNode,
    MissingName,
    NoMatch(Seq<char>),
    MissingBase,
    MissingItemTypeValue,
}

pub open spec fn type_err_view(e: TypeParseError) -> TypeErrV {
    match e {
        TypeParseError::NotTypeNode => TypeErrV::NotTypeNode,
        TypeParseError::MissingName => TypeErrV::MissingName,
        TypeParseError::PrimitiveTypeParseError(ParsePrimitiveTypeError::NoMatch(s)) => TypeErrV::NoMatch(s@),
        TypeParseError::MissingBase => TypeErrV::MissingBase,
        TypeParseError::MissingItemTypeValue => TypeErrV::MissingItemTypeValue,
    }
}


/// A named type of a schema.
#[derive(Debug, PartialEq)]
pub enum Type {
    ObjectType(ObjectType),
    SimpleType(SimpleType),
}

/// A named type as plain sequences.
pub enum TypeV {
    Object(ObjectTypeV),
    Simple(SimpleTypeV),
}

pub open spec fn type_view(t: Type) -> TypeV {
    match t {
        Type::ObjectType(o) => TypeV::Object(object_view(o)),
        Type::SimpleType(s) => TypeV::Simple(simple_view(s)),
    }
}

/// The type that node `i` is: an object type, or else a simple type.
pub open spec fn type_of(nsp: Option<Seq<char>>, ns: Seq<Node>, i: int, types: Seq<Seq<Node>>) -> Result<
    TypeV,
    TypeErrV,
> {
    match object_type_of(nsp, ns, i, types) {
        None => match simple_type_of(nsp, ns, i) {
            Ok(t) => Ok(TypeV::Simple(t)),
            Err(e) => Err(e),
        },
        Some(Ok(o)) => Ok(TypeV::Object(o)),
        Some(Err(e)) => Err(type_err_view(e)),
    }
}

/// The OpenAPI schema of a named type.
pub open spec fn type_schema_v(t: TypeV) -> crate::openapi::SchemaV {
    match t {
        TypeV::Object(o) => object_schema_v(o),
        TypeV::Simple(s) => simple_schema_v(s),
    }
}

/// The content type of a named type, when its annotation names one.
pub open spec fn content_type_of(t: TypeV) -> Option<Seq<char>> {
    match t {
        TypeV::Object(o) => match o.annotation {
            Some(a) => a.content_type,
            None => None,
        },
        TypeV::Simple(s) => match s.annotation {
            Some(a) => a.content_type,
            None => None,
        },
    }
}

/// The name of a named type, when it has one.
pub open spec fn name_of(t: TypeV) -> Option<Seq<char>> {
    match t {
        TypeV::Object(o) => Some(o.name),
        TypeV::Simple(s) => s.name,
    }
}

impl Type {
    /// The content type of this type, when its annotation names one.
    pub fn content_type(&self) -> (r: Option<&str>)
        ensures
            match r {
                Some(c) => content_type_of(type_view(*self)) == Some(c@),
                None => content_type_of(type_view(*self)) is None,
            },
    {
        let a = match self {
            Type::ObjectType(o) => &o.annotation,
            Type::SimpleType(s) => &s.annotation,
        };
        match a {
            Some(a) => match &a.content_type {
                Some(c) => Some(c.as_str()),
                None => None,
            },
            None => None,
        }
    }

    /// The name of this type, when it has one.
    pub fn name(&self) -> (r: Option<&str>)
        ensures
            match r {
                Some(n) => name_of(type_view(*self)) == Some(n@),
                None => name_of(type_view(*self)) is None,
            },
    {
        match self {
            Type::ObjectType(o) => Some(o.name.as_str()),
            Type::SimpleType(s) => match &s.name {
                Some(n) => Some(n.as_str()),
                None => None,
            },
        }
    }

    /// Reads the type of node `i`: an object type, or else a simple type,
    /// named in the namespace `ns`, with the schemas `types`.
    pub fn try_from(ns: Option<&str>, doc: &Document, i: usize, types: &Vec<Document>) -> (r: Result<
        Type,
        TypeParseError,
    >)
        requires
            i < doc.nodes@.len(),
        ensures
            match r {
                Ok(t) => type_of(ns_view(ns), doc.nodes@, i as int, docs_view(types@)) == Ok::<TypeV, TypeErrV>(type_view(t)),
                Err(e) => type_of(ns_view(ns), doc.nodes@, i as int, docs_view(types@)) == Err::<TypeV, TypeErrV>(type_err_view(e)),
            },
    {
        match ObjectType::try_from(ns, doc, i, types) {
            Err(TypeParseError::NotTypeNode) => match SimpleType::try_from(ns, doc, i) {
                Ok(s) => Ok(Type::SimpleType(s)),
                Err(e) => Err(e),
            },
            Ok(o) => Ok(Type::ObjectType(o)),
            Err(e) => Err(e),
        }
    }

    /// The OpenAPI schema of this type.
    pub fn to_schema(&self) -> (r: Schema)
        ensures
            schema_view(r) == type_schema_v(type_view(*self)),
    {
        match self {
            Type::ObjectType(o) => o.to_schema(),
            Type::SimpleType(s) => s.to_schema(),
        }
    }
}

} // verus!
