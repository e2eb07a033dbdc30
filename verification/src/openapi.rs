//! The part of the OpenAPI 3 object model that the generated description
//! uses: schemas and operations, with plain values in place of the
//! `openapiv3` crate's types. Each type has a view made of sequences, in
//! which the contracts of the library are stated.
use vstd::prelude::*;

use indexmap::IndexMap;

verus! {

// ----- schemas -----
/// The `format` of a string schema.
#[derive(Debug, PartialEq, Eq, Structural, Clone, Copy)]
pub enum StringFormat {
    Empty,
    Uri,
    Byte,
    DateTime,
}

/// The `format` of a number schema.
#[derive(Debug, PartialEq, Eq, Structural, Clone, Copy)]
pub enum NumberFormat {
    Empty,
    Float,
    Double,
}

/// The `format` of an integer schema.
#[derive(Debug, PartialEq, Eq, Structural, Clone, Copy)]
pub enum IntegerFormat {
    Empty,
    Int32,
    Int64,
}

/// A string schema.
#[derive(Debug, PartialEq)]
pub struct StringType {
    pub format: StringFormat,
    pub pattern: Option<String>,
    pub enumeration: Vec<Option<String>>,
}

/// A number schema. Its bound and its values are kept as the decimal text
/// that the XML Schema gives for them.
#[derive(Debug, PartialEq)]
pub struct NumberType {
    pub format: NumberFormat,
    pub minimum: Option<String>,
    pub enumeration: Vec<String>,
}

/// An integer schema.
#[derive(Debug, PartialEq)]
pub struct IntegerType {
    pub format: IntegerFormat,
    pub minimum: Option<i64>,
    pub maximum: Option<i64>,
    pub enumeration: Vec<Option<i64>>,
}

/// The properties of an object schema: an `indexmap::IndexMap` from names to
/// schemas, in insertion order, held out of sight of the verifier. What it
/// holds is `property_items`.
#[verifier::external_body]
#[derive(Debug, PartialEq)]
pub struct Properties {
    map: IndexMap<String, SchemaRef>,
}

/// An object schema: its properties in order, each name once.
#[derive(Debug, PartialEq)]
pub struct ObjectType {
    pub properties: Properties,
    pub required: Vec<String>,
    pub additional_properties: Option<bool>,
}

/// The type of a schema.
#[derive(Debug, PartialEq)]
pub enum SchemaType {
    String(StringType),
    Number(NumberType),
    Integer(IntegerType),
    Object(ObjectType),
    Array(Option<Box<SchemaRef>>),
    Boolean,
}

/// The discriminator of a polymorphic schema.
#[derive(Debug, PartialEq)]
pub struct Discriminator {
    pub property_name: String,
    pub mapping: Vec<(String, String)>,
}

/// What every schema may carry besides its kind.
#[derive(Debug, PartialEq)]
pub struct SchemaData {
    pub nullable: bool,
    pub read_only: bool,
    pub deprecated: bool,
    pub title: Option<String>,
    pub description: Option<String>,
    pub discriminator: Option<Discriminator>,
}

/// What a schema is: a type, or a combination of schemas.
#[derive(Debug, PartialEq)]
pub enum SchemaKind {
    Type(SchemaType),
    AllOf(Vec<SchemaRef>),
    OneOf(Vec<SchemaRef>),
}

/// A schema.
#[derive(Debug, PartialEq)]
pub struct Schema {
    pub schema_data: SchemaData,
    pub schema_kind: SchemaKind,
}

/// A schema, or a reference to one.
#[derive(Debug, PartialEq)]
pub enum SchemaRef {
    Reference(String),
    Item(Box<Schema>),
}

// ----- the views -----
/// A string schema as plain sequences.
pub struct StringTypeV {
    pub format: StringFormat,
    pub pattern: Option<Seq<char>>,
    pub enumeration: Seq<Option<Seq<char>>>,
}

/// The type of a schema as plain sequences.
pub enum SchemaTypeV {
    String(StringTypeV),
    Number { format: NumberFormat, minimum: Option<Seq<char>>, enumeration: Seq<Seq<char>> },
    Integer {
        format: IntegerFormat,
        minimum: Option<i64>,
        maximum: Option<i64>,
        enumeration: Seq<Option<i64>>,
    },
    Object {
        properties: Seq<(Seq<char>, SchemaRefV)>,
        required: Seq<Seq<char>>,
        additional_properties: Option<bool>,
    },
    Array(Option<Box<SchemaRefV>>),
    Boolean,
}

/// The data of a schema as plain sequences.
pub struct SchemaDataV {
    pub nullable: bool,
    pub read_only: bool,
    pub deprecated: bool,
    pub title: Option<Seq<char>>,
    pub description: Option<Seq<char>>,
    pub discriminator: Option<(Seq<char>, Seq<(Seq<char>, Seq<char>)>)>,
}

/// The kind of a schema as plain sequences.
pub enum SchemaKindV {
    Type(SchemaTypeV),
    AllOf(Seq<SchemaRefV>),
    OneOf(Seq<SchemaRefV>),
}

/// A schema as plain sequences.
pub struct SchemaV {
    pub data: SchemaDataV,
    pub kind: SchemaKindV,
}

/// A schema or a reference as plain sequences.
pub enum SchemaRefV {
    Reference(Seq<char>),
    Item(Box<SchemaV>),
}

/// An optional string as an optional sequence.
pub open spec fn opt_str(o: Option<String>) -> Option<Seq<char>> {
    match o {
        Some(s) => Some(s@),
        None => None,
    }
}

/// Strings as sequences.
pub open spec fn strs_view(v: Seq<String>) -> Seq<Seq<char>> {
    v.map_values(|s: String| s@)
}

/// Optional strings as optional sequences.
pub open spec fn opt_strs_view(v: Seq<Option<String>>) -> Seq<Option<Seq<char>>> {
    v.map_values(|o: Option<String>| opt_str(o))
}

/// Pairs of strings as pairs of sequences.
pub open spec fn pairs_view(v: Seq<(String, String)>) -> Seq<(Seq<char>, Seq<char>)> {
    v.map_values(|p: (String, String)| (p.0@, p.1@))
}

pub open spec fn string_type_view(t: StringType) -> StringTypeV {
    StringTypeV {
        format: t.format,
        pattern: opt_str(t.pattern),
        enumeration: opt_strs_view(t.enumeration@),
    }
}

pub open spec fn data_view(d: SchemaData) -> SchemaDataV {
    SchemaDataV {
        nullable: d.nullable,
        read_only: d.read_only,
        deprecated: d.deprecated,
        title: opt_str(d.title),
        description: opt_str(d.description),
        discriminator: match d.discriminator {
            Some(x) => Some((x.property_name@, pairs_view(x.mapping@))),
            None => None,
        },
    }
}

pub open spec fn refs_view(rs: Seq<SchemaRef>) -> Seq<SchemaRefV>
    decreases rs,
{
    if rs.len() == 0 {
        Seq::empty()
    } else {
        refs_view(rs.subrange(0, rs.len() - 1)).push(ref_view(rs[rs.len() - 1]))
    }
}

/// The properties that `p` holds, in insertion order, as plain sequences.
pub uninterp spec fn property_items(p: Properties) -> Seq<(Seq<char>, SchemaRefV)>;

pub open spec fn type_view(t: SchemaType) -> SchemaTypeV
    decreases t,
{
    match t {
        SchemaType::String(s) => SchemaTypeV::String(string_type_view(s)),
        SchemaType::Number(n) => SchemaTypeV::Number {
            format: n.format,
            minimum: opt_str(n.minimum),
            enumeration: strs_view(n.enumeration@),
        },
        SchemaType::Integer(i) => SchemaTypeV::Integer {
            format: i.format,
            minimum: i.minimum,
            maximum: i.maximum,
            enumeration: i.enumeration@,
        },
        SchemaType::Object(o) => SchemaTypeV::Object {
            properties: property_items(o.properties),
            required: strs_view(o.required@),
            additional_properties: o.additional_properties,
        },
        SchemaType::Array(items) => SchemaTypeV::Array(
            match items {
                Some(b) => Some(Box::new(ref_view(*b))),
                None => None,
            },
        ),
        SchemaType::Boolean => SchemaTypeV::Boolean,
    }
}

pub open spec fn kind_view(k: SchemaKind) -> SchemaKindV
    decreases k,
{
    match k {
        SchemaKind::Type(t) => SchemaKindV::Type(type_view(t)),
        SchemaKind::AllOf(v) => SchemaKindV::AllOf(refs_view(v@)),
        SchemaKind::OneOf(v) => SchemaKindV::OneOf(refs_view(v@)),
    }
}

pub open spec fn schema_view(s: Schema) -> SchemaV
    decreases s,
{
    SchemaV { data: data_view(s.schema_data), kind: kind_view(s.schema_kind) }
}

pub open spec fn ref_view(r: SchemaRef) -> SchemaRefV
    decreases r,
{
    match r {
        SchemaRef::Reference(s) => SchemaRefV::Reference(s@),
        SchemaRef::Item(b) => SchemaRefV::Item(Box::new(schema_view(*b))),
    }
}

/// Data with nothing set.
pub open spec fn empty_data_v() -> SchemaDataV {
    SchemaDataV {
        nullable: false,
        read_only: false,
        deprecated: false,
        title: None,
        description: None,
        discriminator: None,
    }
}

/// A string schema with nothing set, as plain sequences.
pub open spec fn plain_string_v() -> SchemaTypeV {
    SchemaTypeV::String(StringTypeV { format: StringFormat::Empty, pattern: None, enumeration: Seq::empty() })
}

pub proof fn lemma_refs_view_push(rs: Seq<SchemaRef>, r: SchemaRef)
    ensures
        refs_view(rs.push(r)) == refs_view(rs).push(ref_view(r)),
{
    assert(rs.push(r).subrange(0, rs.len() as int) =~= rs);
}

pub proof fn lemma_refs_view_index(rs: Seq<SchemaRef>)
    ensures
        refs_view(rs).len() == rs.len(),
        forall|i: int| 0 <= i < rs.len() ==> #[trigger] refs_view(rs)[i] == ref_view(rs[i]),
    decreases rs.len(),
{
    if rs.len() > 0 {
        lemma_refs_view_index(rs.subrange(0, rs.len() - 1));
    }
}

impl SchemaData {
    /// Data with nothing set.
    pub fn empty() -> (r: SchemaData)
        ensures
            data_view(r) == empty_data_v(),
    {
        SchemaData {
            nullable: false,
            read_only: false,
            deprecated: false,
            title: None,
            description: None,
            discriminator: None,
        }
    }
}

impl Schema {
    /// A schema of the given type with no data.
    pub fn of_type(t: SchemaType) -> (r: Schema)
        ensures
            schema_view(r) == (SchemaV { data: empty_data_v(), kind: SchemaKindV::Type(type_view(t)) }),
    {
        Schema { schema_data: SchemaData::empty(), schema_kind: SchemaKind::Type(t) }
    }
}

impl StringType {
    /// A string type with nothing set.
    pub fn plain() -> (r: StringType)
        ensures
            string_type_view(r) == (StringTypeV { format: StringFormat::Empty, pattern: None, enumeration: Seq::empty() }),
    {
        let r = StringType { format: StringFormat::Empty, pattern: None, enumeration: Vec::new() };
        assert(opt_strs_view(r.enumeration@) =~= Seq::empty());
        r
    }
}


// ----- the properties of an object schema -----
/// `IndexMap::new`: no properties.
#[verifier::external_body]
fn properties_new() -> (r: Properties)
    ensures
        property_items(r) == Seq::<(Seq<char>, SchemaRefV)>::empty(),
{
    Properties { map: IndexMap::new() }
}

/// `IndexMap::insert`: a name already held keeps its place and takes the new
/// schema; a new name goes last with its schema.
#[verifier::external_body]
fn properties_insert(p: &mut Properties, k: String, v: SchemaRef)
    ensures
        property_items(*final(p)) == view_insert(property_items(*old(p)), k@, ref_view(v)),
{
    p.map.insert(k, v);
}

/// `IndexMap::len`: the number of properties.
#[verifier::external_body]
fn properties_len(p: &Properties) -> (r: usize)
    ensures
        r == property_items(*p).len(),
{
    p.map.len()
}

/// `IndexMap::get_index`: the property at an index, among properties whose
/// names are all distinct (a map holds no key twice).
#[verifier::external_body]
fn properties_get_index(p: &Properties, i: usize) -> (r: Option<(&String, &SchemaRef)>)
    ensures
        match r {
            Some((k, v)) => {
                &&& i < property_items(*p).len()
                &&& property_items(*p)[i as int] == (k@, ref_view(*v))
                &&& view_keys_distinct(property_items(*p))
            },
            None => i >= property_items(*p).len() && view_keys_distinct(property_items(*p)),
        },
{
    p.map.get_index(i)
}

/// `IndexMap::get_index_of`: the index of the property named `k`. The keys
/// of an `IndexMap` are distinct, so it is the first index with that name.
#[verifier::external_body]
fn properties_index_of(p: &Properties, k: &str) -> (r: Option<usize>)
    ensures
        crate::tree::opt_int(r) == view_key_index(property_items(*p), k@, 0),
{
    p.map.get_index_of(k)
}

/// `IndexMap::get_index_mut` with `std::mem::replace`: puts `v` in place of
/// the schema at index `i` and returns the schema that was there.
#[verifier::external_body]
fn properties_replace_at(p: &mut Properties, i: usize, v: SchemaRef) -> (r: SchemaRef)
    requires
        i < property_items(*old(p)).len(),
    ensures
        ref_view(r) == property_items(*old(p))[i as int].1,
        property_items(*final(p)) == property_items(*old(p)).update(
            i as int,
            (property_items(*old(p))[i as int].0, ref_view(v)),
        ),
{
    std::mem::replace(p.map.get_index_mut(i).unwrap().1, v)
}

/// `IndexMap::into_iter`: the properties, in insertion order.
#[verifier::external_body]
fn properties_into_entries(p: Properties) -> (r: Vec<(String, SchemaRef)>)
    ensures
        r@.map_values(|e: (String, SchemaRef)| (e.0@, ref_view(e.1))) == property_items(p),
{
    p.map.into_iter().collect()
}

impl Properties {
    /// The properties, in order, each name with its schema.
    pub fn into_entries(self) -> (r: Vec<(String, SchemaRef)>)
        ensures
            r@.map_values(|e: (String, SchemaRef)| (e.0@, ref_view(e.1))) == property_items(self),
    {
        properties_into_entries(self)
    }

    /// No properties.
    pub fn new() -> (r: Properties)
        ensures
            property_items(r) == Seq::<(Seq<char>, SchemaRefV)>::empty(),
    {
        properties_new()
    }

    /// Adds the property `k` with the schema `v`: a name already held keeps
    /// its place and takes the new schema; a new name goes last.
    pub fn insert(&mut self, k: String, v: SchemaRef)
        ensures
            property_items(*final(self)) == view_insert(property_items(*old(self)), k@, ref_view(v)),
    {
        properties_insert(self, k, v)
    }

    /// The number of properties.
    pub fn len(&self) -> (r: usize)
        ensures
            r == property_items(*self).len(),
    {
        properties_len(self)
    }

    /// The name and schema of the property at index `i`.
    pub fn get_index(&self, i: usize) -> (r: Option<(&String, &SchemaRef)>)
        ensures
            match r {
                Some((k, v)) => i < property_items(*self).len() && property_items(*self)[i as int] == (
                    k@,
                    ref_view(*v),
                ),
                None => i >= property_items(*self).len(),
            },
    {
        properties_get_index(self, i)
    }

    /// The index of the property named `k`.
    pub fn index_of(&self, k: &str) -> (r: Option<usize>)
        ensures
            crate::tree::opt_int(r) == view_key_index(property_items(*self), k@, 0),
    {
        properties_index_of(self, k)
    }

    /// Takes the schema of the property at index `i` out, leaving `v` in its
    /// place.
    pub fn replace_at(&mut self, i: usize, v: SchemaRef) -> (r: SchemaRef)
        requires
            i < property_items(*old(self)).len(),
        ensures
            ref_view(r) == property_items(*old(self))[i as int].1,
            property_items(*final(self)) == property_items(*old(self)).update(
                i as int,
                (property_items(*old(self))[i as int].0, ref_view(v)),
            ),
    {
        properties_replace_at(self, i, v)
    }

    /// The properties given, each added in turn.
    pub fn from_entries(entries: Vec<(String, SchemaRef)>) -> (r: Properties)
        ensures
            property_items(r) == entries_view_insert(
                entries@.map_values(|e: (String, SchemaRef)| (e.0@, ref_view(e.1))),
                entries@.len() as int,
            ),
    {
        let ghost ev = entries@.map_values(|e: (String, SchemaRef)| (e.0@, ref_view(e.1)));
        let mut r = Properties::new();
        for e in it: entries
            invariant
                ev == it.seq().map_values(|e: (String, SchemaRef)| (e.0@, ref_view(e.1))),
                property_items(r) == entries_view_insert(ev, it.index() as int),
        {
            proof {
                assert(ev[it.index() as int] == (e.0@, ref_view(e.1)));
            }
            let (k, v) = e;
            r.insert(k, v);
        }
        r
    }
}

/// The first `n` entries of `es` inserted in turn into an empty map.
pub open spec fn entries_view_insert<V>(es: Seq<(Seq<char>, V)>, n: int) -> Seq<(Seq<char>, V)>
    decreases n,
{
    if n <= 0 || n > es.len() {
        Seq::empty()
    } else {
        view_insert(entries_view_insert(es, n - 1), es[n - 1].0, es[n - 1].1)
    }
}

// ----- maps kept as lists of entries -----
/// The first index from `i` on whose key is `k`.
pub open spec fn key_index<V>(s: Seq<(String, V)>, k: Seq<char>, i: int) -> Option<int>
    decreases s.len() - i,
{
    if i < 0 || i >= s.len() {
        None
    } else if s[i].0@ == k {
        Some(i)
    } else {
        key_index(s, k, i + 1)
    }
}

/// Inserting into a map kept as a list of entries, as `IndexMap::insert`
/// does: an existing key keeps its place and takes the new value; a new key
/// goes last.
pub open spec fn map_insert<V>(s: Seq<(String, V)>, k: String, v: V) -> Seq<(String, V)> {
    match key_index(s, k@, 0) {
        Some(j) => s.update(j, (s[j].0, v)),
        None => s.push((k, v)),
    }
}

pub proof fn lemma_key_index_bound<V>(s: Seq<(String, V)>, k: Seq<char>, i: int)
    requires
        0 <= i,
    ensures
        key_index(s, k, i) matches Some(j) ==> i <= j < s.len() && s[j].0@ == k,
        key_index(s, k, i) is None ==> forall|j: int| i <= j < s.len() ==> #[trigger] s[j].0@ != k,
    decreases s.len() - i,
{
    if 0 <= i < s.len() && s[i].0@ != k {
        lemma_key_index_bound(s, k, i + 1);
    }
}

/// Inserts an entry into a map kept as a list of entries.
pub fn entries_insert<V>(m: &mut Vec<(String, V)>, k: String, v: V)
    ensures
        final(m)@ == map_insert(old(m)@, k, v),
{
    let n = m.len();
    let mut i: usize = 0;
    while i < n
        invariant
            m@ == old(m)@,
            n == m@.len(),
            i <= n,
            key_index(m@, k@, 0) == key_index(m@, k@, i as int),
        decreases n - i,
    {
        if crate::text::str_eq(m[i].0.as_str(), k.as_str()) {
            let old_entry = m.remove(i);
            m.insert(i, (old_entry.0, v));
            proof {
                assert(m@ =~= map_insert(old(m)@, k, v));
            }
            return;
        }
        i = i + 1;
    }
    m.push((k, v));
}

/// Whether the keys of a list of entries are distinct.
pub open spec fn keys_distinct<V>(s: Seq<(String, V)>) -> bool {
    forall|i: int, j: int| 0 <= i < j < s.len() ==> #[trigger] s[i].0@ != #[trigger] s[j].0@
}

/// Inserting keeps the keys of a map distinct, and the key inserted is then
/// in it with the value inserted.
pub proof fn lemma_map_insert<V>(s: Seq<(String, V)>, k: String, v: V)
    requires
        keys_distinct(s),
    ensures
        keys_distinct(map_insert(s, k, v)),
        key_index(map_insert(s, k, v), k@, 0) matches Some(j) && map_insert(s, k, v)[j].1 == v,
{
    lemma_key_index_bound(s, k@, 0);
    let r = map_insert(s, k, v);
    match key_index(s, k@, 0) {
        Some(j) => {
            assert forall|a: int, b: int| 0 <= a < b < r.len() implies #[trigger] r[a].0@ != #[trigger] r[b].0@ by {
                assert(r[a].0 == s[a].0 && r[b].0 == s[b].0);
            }
            lemma_key_index_first(r, k@, j);
        },
        None => {
            assert forall|a: int, b: int| 0 <= a < b < r.len() implies #[trigger] r[a].0@ != #[trigger] r[b].0@ by {
                if b < s.len() {
                    assert(r[a] == s[a] && r[b] == s[b]);
                } else {
                    assert(r[a] == s[a]);
                }
            }
            lemma_key_index_first(r, k@, s.len() as int);
        },
    }
}

/// When `j` is the only index whose key is `k`, the search finds it.
pub proof fn lemma_key_index_first<V>(s: Seq<(String, V)>, k: Seq<char>, j: int)
    requires
        0 <= j < s.len(),
        s[j].0@ == k,
        forall|a: int| 0 <= a < j ==> #[trigger] s[a].0@ != k,
    ensures
        key_index(s, k, 0) == Some(j),
{
    lemma_key_index_from(s, k, j, 0);
}

proof fn lemma_key_index_from<V>(s: Seq<(String, V)>, k: Seq<char>, j: int, i: int)
    requires
        0 <= i <= j < s.len(),
        s[j].0@ == k,
        forall|a: int| 0 <= a < j ==> #[trigger] s[a].0@ != k,
    ensures
        key_index(s, k, i) == Some(j),
    decreases j - i,
{
    if i < j {
        lemma_key_index_from(s, k, j, i + 1);
    }
}


// ----- operations -----
/// A query parameter of an operation: its name, its description and the
/// reference to its schema.
#[derive(Debug, PartialEq)]
pub struct QueryParam {
    pub name: String,
    pub description: Option<String>,
    pub schema_reference: String,
}

/// An operation: its description, its tags, its one response (for any
/// 2XX status) with the media types it may come in, its request body (when
/// it has one, required), the security scheme it uses, whether it is
/// deprecated, and its query parameters. Each content is a list of media
/// types, each with the reference to its schema.
#[derive(Debug, PartialEq)]
pub struct ApiOperation {
    pub description: String,
    pub tags: Vec<String>,
    pub response_description: String,
    pub response_content: Vec<(String, String)>,
    pub request_content: Option<Vec<(String, String)>>,
    pub security: String,
    pub deprecated: bool,
    pub parameters: Vec<QueryParam>,
}


/// The first index from `i` on of an entry whose key is `k`, in a map kept
/// as a list of entries of plain sequences.
pub open spec fn view_key_index<V>(m: Seq<(Seq<char>, V)>, k: Seq<char>, i: int) -> Option<int>
    decreases m.len() - i,
{
    if i < 0 || i >= m.len() {
        None
    } else if m[i].0 == k {
        Some(i)
    } else {
        view_key_index(m, k, i + 1)
    }
}

/// Inserting into a map kept as a list of entries of plain sequences: an
/// existing key takes the new value in its place, a new one goes last.
pub open spec fn view_insert<V>(m: Seq<(Seq<char>, V)>, k: Seq<char>, v: V) -> Seq<(Seq<char>, V)> {
    match view_key_index(m, k, 0) {
        Some(j) => m.update(j, (k, v)),
        None => m.push((k, v)),
    }
}

pub proof fn lemma_pairs_key_index(ps: Seq<(String, String)>, k: Seq<char>, i: int)
    ensures
        key_index(ps, k, i) == view_key_index(pairs_view(ps), k, i),
    decreases ps.len() - i,
{
    if 0 <= i < ps.len() {
        lemma_pairs_key_index(ps, k, i + 1);
    }
}

/// Inserting a pair of strings, seen as plain sequences.
pub proof fn lemma_pairs_insert(ps: Seq<(String, String)>, k: String, v: String)
    ensures
        pairs_view(map_insert(ps, k, v)) == view_insert(pairs_view(ps), k@, v@),
{
    lemma_pairs_key_index(ps, k@, 0);
    lemma_key_index_bound(ps, k@, 0);
    assert(pairs_view(map_insert(ps, k, v)) =~= view_insert(pairs_view(ps), k@, v@));
}

/// Whether a list of entries has the key `k`.
pub fn has_key<V>(m: &Vec<(String, V)>, k: &str) -> (r: bool)
    ensures
        r == key_index(m@, k@, 0) is Some,
{
    let mut i: usize = 0;
    while i < m.len()
        invariant
            i <= m@.len(),
            key_index(m@, k@, 0) == key_index(m@, k@, i as int),
        decreases m@.len() - i,
    {
        if crate::text::str_eq(m[i].0.as_str(), k) {
            return true;
        }
        i = i + 1;
    }
    false
}


/// The index of the first entry whose key is `k`.
pub fn key_position<V>(m: &Vec<(String, V)>, k: &str) -> (r: Option<usize>)
    ensures
        crate::tree::opt_int(r) == key_index(m@, k@, 0),
        r matches Some(i) ==> i < m@.len(),
{
    let mut i: usize = 0;
    while i < m.len()
        invariant
            i <= m@.len(),
            key_index(m@, k@, 0) == key_index(m@, k@, i as int),
        decreases m@.len() - i,
    {
        if crate::text::str_eq(m[i].0.as_str(), k) {
            return Some(i);
        }
        i = i + 1;
    }
    None
}

/// Changing one schema, seen as plain sequences.
pub proof fn lemma_refs_view_update(rs: Seq<SchemaRef>, i: int, r: SchemaRef)
    requires
        0 <= i < rs.len(),
    ensures
        refs_view(rs.update(i, r)) == refs_view(rs).update(i, ref_view(r)),
{
    lemma_refs_view_index(rs);
    lemma_refs_view_index(rs.update(i, r));
    assert(refs_view(rs.update(i, r)) =~= refs_view(rs).update(i, ref_view(r)));
}


pub proof fn lemma_view_key_index_bound<V>(m: Seq<(Seq<char>, V)>, k: Seq<char>, i: int)
    requires
        0 <= i,
    ensures
        view_key_index(m, k, i) matches Some(j) ==> i <= j < m.len() && m[j].0 == k
            && forall|a: int| i <= a < j ==> #[trigger] m[a].0 != k,
    decreases m.len() - i,
{
    if 0 <= i < m.len() && m[i].0 != k {
        lemma_view_key_index_bound(m, k, i + 1);
    }
}


// ----- laws of maps kept as lists of entries -----
/// Whether the keys of a list of entries of plain sequences are distinct.
pub open spec fn view_keys_distinct<V>(m: Seq<(Seq<char>, V)>) -> bool {
    forall|i: int, j: int| 0 <= i < j < m.len() ==> #[trigger] m[i].0 != #[trigger] m[j].0
}

proof fn lemma_view_key_index_none<V>(m: Seq<(Seq<char>, V)>, k: Seq<char>, i: int)
    requires
        0 <= i,
        view_key_index(m, k, i) is None,
    ensures
        forall|j: int| i <= j < m.len() ==> #[trigger] m[j].0 != k,
    decreases m.len() - i,
{
    if i < m.len() {
        lemma_view_key_index_none(m, k, i + 1);
    }
}

proof fn lemma_view_key_index_first<V>(m: Seq<(Seq<char>, V)>, k: Seq<char>, j: int, i: int)
    requires
        0 <= i <= j < m.len(),
        m[j].0 == k,
        forall|a: int| i <= a < j ==> #[trigger] m[a].0 != k,
    ensures
        view_key_index(m, k, i) == Some(j),
    decreases j - i,
{
    if i < j {
        lemma_view_key_index_first(m, k, j, i + 1);
    }
}

/// What a read gives back of a write: after inserting `v` under `k`, the
/// entry found under `k` holds `v`; the entries under other keys are as they
/// were, and the map grows by one entry exactly when `k` was new.
pub proof fn lemma_insert_then_lookup<V>(m: Seq<(Seq<char>, V)>, k: Seq<char>, v: V, other: Seq<char>)
    requires
        other != k,
    ensures
        view_key_index(view_insert(m, k, v), k, 0) matches Some(j) && view_insert(m, k, v)[j] == (k, v),
        view_key_index(view_insert(m, k, v), other, 0) == view_key_index(m, other, 0),
        view_key_index(m, other, 0) matches Some(j) ==> view_insert(m, k, v)[j] == m[j],
        view_insert(m, k, v).len() == if view_key_index(m, k, 0) is Some {
            m.len()
        } else {
            m.len() + 1
        },
{
    lemma_view_key_index_bound(m, k, 0);
    lemma_view_key_index_bound(m, other, 0);
    let r = view_insert(m, k, v);
    match view_key_index(m, k, 0) {
        Some(j) => {
            assert forall|a: int| 0 <= a < j implies #[trigger] r[a].0 != k by {
                assert(r[a] == m[a]);
            }
            lemma_view_key_index_first(r, k, j, 0);
        },
        None => {
            lemma_view_key_index_none(m, k, 0);
            lemma_view_key_index_first(r, k, m.len() as int, 0);
        },
    }
    match view_key_index(m, other, 0) {
        Some(j) => {
            assert forall|a: int| 0 <= a < j implies #[trigger] r[a].0 != other by {
                if a < m.len() {
                    assert(m[a].0 != other);
                }
            }
            lemma_view_key_index_first(r, other, j, 0);
        },
        None => {
            lemma_view_key_index_none(m, other, 0);
            assert forall|a: int| 0 <= a < r.len() implies #[trigger] r[a].0 != other by {
            }
            if view_key_index(r, other, 0) is Some {
                lemma_view_key_index_bound(r, other, 0);
            }
        },
    }
}

/// Inserting keeps the keys of a map distinct.
pub proof fn lemma_insert_keeps_keys_distinct<V>(m: Seq<(Seq<char>, V)>, k: Seq<char>, v: V)
    requires
        view_keys_distinct(m),
    ensures
        view_keys_distinct(view_insert(m, k, v)),
{
    lemma_view_key_index_bound(m, k, 0);
    let r = view_insert(m, k, v);
    match view_key_index(m, k, 0) {
        Some(j) => {
            assert forall|a: int, b: int| 0 <= a < b < r.len() implies #[trigger] r[a].0 != #[trigger] r[b].0 by {
                assert(r[a].0 == m[a].0 && r[b].0 == m[b].0);
            }
        },
        None => {
            lemma_view_key_index_none(m, k, 0);
            assert forall|a: int, b: int| 0 <= a < b < r.len() implies #[trigger] r[a].0 != #[trigger] r[b].0 by {
                if b < m.len() {
                    assert(r[a] == m[a] && r[b] == m[b]);
                } else {
                    assert(r[a] == m[a]);
                }
            }
        },
    }
}

/// Inserting what a map already holds under a key changes nothing.
pub proof fn lemma_insert_same<V>(m: Seq<(Seq<char>, V)>, k: Seq<char>, v: V)
    requires
        view_key_index(m, k, 0) matches Some(j) && m[j] == (k, v),
    ensures
        view_insert(m, k, v) == m,
{
    lemma_view_key_index_bound(m, k, 0);
    assert(view_insert(m, k, v) =~= m);
}

} // verus!
