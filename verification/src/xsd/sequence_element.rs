//! The elements of a sequence, read on their own: name, type and how many
//! times they occur, with their annotation.
use vstd::prelude::*;

use crate::openapi::{
    data_view, empty_data_v, opt_str, schema_view, type_view, IntegerFormat, IntegerType,
    NumberFormat, NumberType, Schema, SchemaData, SchemaDataV, SchemaKind, SchemaKindV, SchemaRef,
    SchemaRefV, SchemaType, SchemaTypeV, SchemaV, StringFormat, StringType, StringTypeV,
};
use crate::text::{ascii_lower, concat, str_eq, trim, trim_str};
use crate::tree::{attr, attr_of, children, Document, Node, NodeData};
use crate::xsd::annotation::{annotation_of, annotation_view, attr_equals, attr_is, Annotation, AnnotationV};
use crate::xsd::field::Occurrences;
use crate::xsd::{
    first_child_text, first_child_text_of, first_some, ints, is_in_ns, is_xs, lemma_first_some_hit,
    lemma_first_some_step, lemma_subrange_ends, node_is_in_ns, node_is_xs,
};

verus! {

/// How an item may be changed, as the `modifiable` documentation of its
/// annotation says: always, on creation, on update, or never (`none`).
#[derive(Debug, PartialEq, Eq, Structural, Clone, Copy)]
pub enum Modifiable {
    Always,
    Create,
    Update,
    Never,
}

/// An element of a sequence, with how its annotation says it may be changed.
#[derive(Debug, PartialEq)]
pub struct SequenceElement {
    pub annotation: Option<Annotation>,
    pub modifiable: Option<Modifiable>,
    pub name: String,
    pub element_type: String,
    pub occurrences: Occurrences,
}

/// Why a node is not an element of a sequence.
#[derive(Debug, PartialEq)]
pub enum SequenceElementParseError {
    MissingName,
    MissingType,
    NotSequenceElementNode,
}

/// An element of a sequence as plain sequences.
pub struct SequenceElementV {
    pub annotation: Option<AnnotationV>,
    pub modifiable: Option<Modifiable>,
    pub name: Seq<char>,
    pub element_type: Seq<char>,
    pub occurrences: Occurrences,
}

pub open spec fn sequence_element_view(e: SequenceElement) -> SequenceElementV {
    SequenceElementV {
        annotation: match e.annotation {
            Some(a) => Some(annotation_view(a)),
            None => None,
        },
        modifiable: e.modifiable,
        name: e.name@,
        element_type: e.element_type@,
        occurrences: e.occurrences,
    }
}

/// The way of changing an item that a word names.
pub open spec fn modifiable_word(w: Seq<char>) -> Option<Modifiable> {
    if w == "always"@ {
        Some(Modifiable::Always)
    } else if w == "create"@ {
        Some(Modifiable::Create)
    } else if w == "update"@ {
        Some(Modifiable::Update)
    } else if w == "none"@ {
        Some(Modifiable::Never)
    } else {
        None
    }
}

/// How node `c` says the item may be changed, when it is a `documentation`
/// with the source `modifiable`.
pub open spec fn modifiable_documentation(ns: Seq<Node>, c: int) -> Option<Modifiable> {
    let d = ns[c].data;
    if is_in_ns(d, "documentation"@) && attr_is(d, "source"@, "modifiable"@) {
        match first_child_text(ns, c) {
            Some(t) => modifiable_word(trim(t)),
            None => None,
        }
    } else {
        None
    }
}

/// How the item that annotation node `a` annotates may be changed: what the
/// first of its `modifiable` documentations says.
pub open spec fn annotation_modifiable(ns: Seq<Node>, a: int) -> Option<Modifiable> {
    first_some(children(ns, a), |c: int| modifiable_documentation(ns, c))
}

/// What child `c` of an element says of how the element may be changed,
/// when `c` is an annotation.
pub open spec fn annotation_child_modifiable(ns: Seq<Node>, c: int) -> Option<Option<Modifiable>> {
    if annotation_of(ns, c) is Some {
        Some(annotation_modifiable(ns, c))
    } else {
        None
    }
}

/// How the element of node `i` may be changed, as its first annotation says.
pub open spec fn element_modifiable(ns: Seq<Node>, i: int) -> Option<Modifiable> {
    match first_some(children(ns, i), |c: int| annotation_child_modifiable(ns, c)) {
        Some(m) => m,
        None => None,
    }
}

/// `s` with its first character, when it is an ASCII capital, in lower
/// case.
pub open spec fn ascii_decapitalized(s: Seq<char>) -> Seq<char> {
    if s.len() == 0 {
        s
    } else {
        seq![ascii_lower(s[0]) as char] + s.drop_first()
    }
}

/// How many times element `d` occurs: `minOccurs` and `maxOccurs` are 1
/// where they are not given; an unbounded maximum makes an array, a
/// minimum of 0 an optional element.
pub open spec fn sequence_occurrences(d: NodeData) -> Occurrences {
    let min = match opt_str(attr_of(d, "minOccurs"@)) {
        Some(m) => m,
        None => "1"@,
    };
    let max = match opt_str(attr_of(d, "maxOccurs"@)) {
        Some(m) => m,
        None => "1"@,
    };
    if max == "unbounded"@ {
        Occurrences::Array
    } else if min == "0"@ {
        Occurrences::Optional
    } else {
        Occurrences::One
    }
}

/// The element of a sequence that node `i` is.
pub open spec fn sequence_element_of(ns: Seq<Node>, i: int) -> Result<SequenceElementV, SequenceElementParseError> {
    if !is_xs(ns[i].data, "element"@) {
        Err(SequenceElementParseError::NotSequenceElementNode)
    } else {
        match attr_of(ns[i].data, "name"@) {
            None => Err(SequenceElementParseError::MissingName),
            Some(n) => match attr_of(ns[i].data, "type"@) {
                None => Err(SequenceElementParseError::MissingType),
                Some(t) => Ok(
                    SequenceElementV {
                        annotation: first_some(children(ns, i), |c: int| annotation_of(ns, c)),
                        modifiable: element_modifiable(ns, i),
                        name: ascii_decapitalized(n@),
                        element_type: t@,
                        occurrences: sequence_occurrences(ns[i].data),
                    },
                ),
            },
        }
    }
}

/// `s` with its first character in ASCII lower case.
fn ascii_decapitalize(s: &str) -> (r: String)
    ensures
        r@ == ascii_decapitalized(s@),
{
    let n = s.unicode_len();
    if n == 0 {
        return String::new();
    }
    let x = s.get_char(0) as u32;
    let rest = s.substring_char(1, n);
    assert(rest@ =~= s@.drop_first());
    if 65 <= x && x <= 90 {
        let letters = "abcdefghijklmnopqrstuvwxyz";
        proof {
            reveal_strlit("abcdefghijklmnopqrstuvwxyz");
        }
        let k = (x - 65) as usize;
        let head = letters.substring_char(k, k + 1);
        assert(head@ =~= seq![letters@[k as int]]);
        assert(letters@[k as int] as u32 == x + 32);
        concat(head, rest)
    } else {
        let head = s.substring_char(0, 1);
        assert(head@ =~= seq![s@[0]]);
        concat(head, rest)
    }
}

/// How many times the element of node data `d` occurs.
fn occurrences_of_element(d: &NodeData) -> (r: Occurrences)
    ensures
        r == sequence_occurrences(*d),
{
    let max_unbounded = match attr(d, "maxOccurs") {
        Some(m) => crate::text::str_eq(m.as_str(), "unbounded"),
        None => false,
    };
    let min_zero = match attr(d, "minOccurs") {
        Some(m) => crate::text::str_eq(m.as_str(), "0"),
        None => false,
    };
    proof {
        reveal_strlit("1");
        reveal_strlit("0");
        reveal_strlit("unbounded");
        assert("1"@ != "unbounded"@) by {
            assert("1"@.len() != "unbounded"@.len());
        }
        assert("1"@ != "0"@) by {
            assert("1"@[0] != "0"@[0]);
        }
    }
    if max_unbounded {
        Occurrences::Array
    } else if min_zero {
        Occurrences::Optional
    } else {
        Occurrences::One
    }
}

/// The way of changing an item that `w` names.
fn modifiable_word_of(w: &str) -> (r: Option<Modifiable>)
    ensures
        r == modifiable_word(w@),
{
    if str_eq(w, "always") {
        Some(Modifiable::Always)
    } else if str_eq(w, "create") {
        Some(Modifiable::Create)
    } else if str_eq(w, "update") {
        Some(Modifiable::Update)
    } else if str_eq(w, "none") {
        Some(Modifiable::Never)
    } else {
        None
    }
}

fn modifiable_documentation_of(doc: &Document, c: usize) -> (r: Option<Modifiable>)
    requires
        c < doc.nodes@.len(),
    ensures
        r == modifiable_documentation(doc.nodes@, c as int),
{
    let d = &doc.nodes[c].data;
    if node_is_in_ns(d, "documentation") && attr_equals(d, "source", "modifiable") {
        match first_child_text_of(doc, c) {
            Some(t) => modifiable_word_of(trim_str(t.as_str()).as_str()),
            None => None,
        }
    } else {
        None
    }
}

/// How the item that annotation node `a` annotates may be changed.
fn annotation_modifiable_of(doc: &Document, a: usize) -> (r: Option<Modifiable>)
    requires
        a < doc.nodes@.len(),
    ensures
        r == annotation_modifiable(doc.nodes@, a as int),
{
    let ghost ns = doc.nodes@;
    let kids = doc.children(a);
    let ghost cs = ints(kids@);
    let ghost f = |c: int| modifiable_documentation(ns, c);
    proof {
        lemma_subrange_ends(cs);
    }
    let mut k: usize = 0;
    while k < kids.len()
        invariant
            ns == doc.nodes@,
            cs == ints(kids@),
            cs == children(ns, a as int),
            f == (|c: int| modifiable_documentation(ns, c)),
            forall|j: int| 0 <= j < kids@.len() ==> #[trigger] kids@[j] < ns.len(),
            k <= kids@.len(),
            first_some(cs, f) == first_some(cs.subrange(k as int, cs.len() as int), f),
        decreases kids@.len() - k,
    {
        let c = kids[k];
        assert(cs[k as int] == c as int);
        match modifiable_documentation_of(doc, c) {
            Some(m) => {
                proof {
                    lemma_first_some_hit(cs, f, k as int);
                }
                return Some(m);
            },
            None => {
                proof {
                    lemma_first_some_step(cs, f, k as int);
                }
            },
        }
        k = k + 1;
    }
    None
}

/// The first annotation among the children of node `i`, with how it says
/// the element may be changed.
fn first_child_annotation(doc: &Document, i: usize) -> (r: (Option<Annotation>, Option<Modifiable>))
    requires
        i < doc.nodes@.len(),
    ensures
        match r.0 {
            Some(a) => first_some(children(doc.nodes@, i as int), |c: int| annotation_of(doc.nodes@, c))
                == Some(annotation_view(a)),
            None => first_some(children(doc.nodes@, i as int), |c: int| annotation_of(doc.nodes@, c)) is None,
        },
        r.1 == element_modifiable(doc.nodes@, i as int),
{
    let ghost ns = doc.nodes@;
    let kids = doc.children(i);
    let ghost cs = ints(kids@);
    let ghost f = |c: int| annotation_of(ns, c);
    let ghost g = |c: int| annotation_child_modifiable(ns, c);
    proof {
        lemma_subrange_ends(cs);
    }
    let mut k: usize = 0;
    while k < kids.len()
        invariant
            ns == doc.nodes@,
            cs == ints(kids@),
            cs == children(ns, i as int),
            f == (|c: int| annotation_of(ns, c)),
            g == (|c: int| annotation_child_modifiable(ns, c)),
            forall|j: int| 0 <= j < kids@.len() ==> #[trigger] kids@[j] < ns.len(),
            k <= kids@.len(),
            first_some(cs, f) == first_some(cs.subrange(k as int, cs.len() as int), f),
            first_some(cs, g) == first_some(cs.subrange(k as int, cs.len() as int), g),
        decreases kids@.len() - k,
    {
        let c = kids[k];
        assert(cs[k as int] == c as int);
        match Annotation::try_from(doc, c) {
            Ok(a) => {
                let m = annotation_modifiable_of(doc, c);
                proof {
                    lemma_first_some_hit(cs, f, k as int);
                    lemma_first_some_hit(cs, g, k as int);
                }
                return (Some(a), m);
            },
            Err(_) => {
                proof {
                    lemma_first_some_step(cs, f, k as int);
                    lemma_first_some_step(cs, g, k as int);
                }
            },
        }
        k = k + 1;
    }
    (None, None)
}

impl SequenceElement {
    /// Reads the element of a sequence that node `i` is.
    pub fn try_from(doc: &Document, i: usize) -> (r: Result<SequenceElement, SequenceElementParseError>)
        requires
            i < doc.nodes@.len(),
        ensures
            match r {
                Ok(e) => sequence_element_of(doc.nodes@, i as int) == Ok::<
                    SequenceElementV,
                    SequenceElementParseError,
                >(sequence_element_view(e)),
                Err(e) => sequence_element_of(doc.nodes@, i as int) == Err::<
                    SequenceElementV,
                    SequenceElementParseError,
                >(e),
            },
    {
        let d = &doc.nodes[i].data;
        if !node_is_xs(d, "element") {
            return Err(SequenceElementParseError::NotSequenceElementNode);
        }
        let name = match attr(d, "name") {
            Some(n) => ascii_decapitalize(n.as_str()),
            None => {
                return Err(SequenceElementParseError::MissingName);
            },
        };
        let element_type = match attr(d, "type") {
            Some(t) => t.clone(),
            None => {
                return Err(SequenceElementParseError::MissingType);
            },
        };
        let occurrences = occurrences_of_element(d);
        let (annotation, modifiable) = first_child_annotation(doc, i);
        Ok(SequenceElement { annotation, modifiable, name, element_type, occurrences })
    }
}

// ----- the schema of an element -----
/// The schema type that a built-in element type names: `xs:anyURI`,
/// `xs:boolean`, `xs:double`, `xs:int` and `xs:string`; nothing for any
/// other type, which is referred to by its name.
pub open spec fn element_type_v(t: Seq<char>) -> Option<SchemaTypeV> {
    if t == "xs:anyURI"@ {
        Some(SchemaTypeV::String(StringTypeV { format: StringFormat::Uri, pattern: None, enumeration: Seq::empty() }))
    } else if t == "xs:boolean"@ {
        Some(SchemaTypeV::Boolean)
    } else if t == "xs:double"@ {
        Some(SchemaTypeV::Number { format: NumberFormat::Double, minimum: None, enumeration: Seq::empty() })
    } else if t == "xs:int"@ {
        Some(
            SchemaTypeV::Integer {
                format: IntegerFormat::Int32,
                minimum: None,
                maximum: None,
                enumeration: Seq::empty(),
            },
        )
    } else if t == "xs:string"@ {
        Some(SchemaTypeV::String(StringTypeV { format: StringFormat::Empty, pattern: None, enumeration: Seq::empty() }))
    } else {
        None
    }
}

/// The reference to the schema named `name`.
pub open spec fn components_reference(name: Seq<char>) -> Seq<char> {
    "#/components/schemas/"@ + name
}

/// The schema of an element of a sequence: nullable when it is optional,
/// read-only when it may never be changed, deprecated and described as its
/// annotation says; of its built-in type, or else all of the type it names;
/// an array of either when it may repeat.
pub open spec fn element_schema_v(e: SequenceElementV) -> SchemaV {
    SchemaV {
        data: SchemaDataV {
            nullable: e.occurrences == Occurrences::Optional,
            read_only: e.modifiable == Some(Modifiable::Never),
            deprecated: e.annotation matches Some(a) && a.deprecated,
            title: None,
            description: match e.annotation {
                Some(a) => a.description,
                None => None,
            },
            discriminator: None,
        },
        kind: match element_type_v(e.element_type) {
            Some(t) => if e.occurrences == Occurrences::Array {
                SchemaKindV::Type(
                    SchemaTypeV::Array(
                        Some(Box::new(SchemaRefV::Item(Box::new(SchemaV { data: empty_data_v(), kind: SchemaKindV::Type(t) })))),
                    ),
                )
            } else {
                SchemaKindV::Type(t)
            },
            None => if e.occurrences == Occurrences::Array {
                SchemaKindV::Type(
                    SchemaTypeV::Array(Some(Box::new(SchemaRefV::Reference(components_reference(e.element_type))))),
                )
            } else {
                SchemaKindV::AllOf(seq![SchemaRefV::Reference(components_reference(e.element_type))])
            },
        },
    }
}

/// The schema type that the built-in element type `t` names.
fn element_type_of(t: &str) -> (r: Option<SchemaType>)
    ensures
        match r {
            Some(x) => element_type_v(t@) == Some(type_view(x)),
            None => element_type_v(t@) is None,
        },
{
    if str_eq(t, "xs:anyURI") {
        let st = StringType { format: StringFormat::Uri, pattern: None, enumeration: Vec::new() };
        assert(crate::openapi::opt_strs_view(st.enumeration@) =~= Seq::empty());
        Some(SchemaType::String(st))
    } else if str_eq(t, "xs:boolean") {
        Some(SchemaType::Boolean)
    } else if str_eq(t, "xs:double") {
        let n = NumberType { format: NumberFormat::Double, minimum: None, enumeration: Vec::new() };
        assert(crate::openapi::strs_view(n.enumeration@) =~= Seq::empty());
        Some(SchemaType::Number(n))
    } else if str_eq(t, "xs:int") {
        let i = IntegerType { format: IntegerFormat::Int32, minimum: None, maximum: None, enumeration: Vec::new() };
        Some(SchemaType::Integer(i))
    } else if str_eq(t, "xs:string") {
        Some(SchemaType::String(StringType::plain()))
    } else {
        None
    }
}

impl SequenceElement {
    /// The schema of the element.
    pub fn to_schema(&self) -> (r: Schema)
        ensures
            schema_view(r) == element_schema_v(sequence_element_view(*self)),
    {
        let nullable = match self.occurrences {
            Occurrences::Optional => true,
            _ => false,
        };
        let read_only = match self.modifiable {
            Some(Modifiable::Never) => true,
            _ => false,
        };
        let (deprecated, description) = match &self.annotation {
            Some(a) => (a.deprecated, a.description.clone()),
            None => (false, None),
        };
        let schema_data = SchemaData {
            nullable,
            read_only,
            deprecated,
            title: None,
            description,
            discriminator: None,
        };
        let array = match self.occurrences {
            Occurrences::Array => true,
            _ => false,
        };
        let schema_kind = match element_type_of(self.element_type.as_str()) {
            Some(t) => if array {
                SchemaKind::Type(SchemaType::Array(Some(Box::new(SchemaRef::Item(Box::new(Schema::of_type(t)))))))
            } else {
                SchemaKind::Type(t)
            },
            None => {
                let reference = concat("#/components/schemas/", self.element_type.as_str());
                if array {
                    SchemaKind::Type(SchemaType::Array(Some(Box::new(SchemaRef::Reference(reference)))))
                } else {
                    let all_of = vec![SchemaRef::Reference(reference)];
                    proof {
                        assert(crate::openapi::refs_view(all_of@) =~= seq![SchemaRefV::Reference(components_reference(self.element_type@))]) by {
                            crate::openapi::lemma_refs_view_index(all_of@);
                        }
                    }
                    SchemaKind::AllOf(all_of)
                }
            },
        };
        Schema { schema_data, schema_kind }
    }
}

} // verus!
