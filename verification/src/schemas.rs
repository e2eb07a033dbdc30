//! The schemas of the components, from the XML Schema files of the
//! documentation: each file that is XML is read in the namespace its target
//! namespace names, the files sorted by that namespace, and every type with
//! a title becomes a schema; the types that name a content type give the
//! mapping from content types to schema names.
use vstd::prelude::*;

use indexmap::IndexMap;

use crate::openapi::{
    data_view, entries_insert, key_index, lemma_key_index_bound, map_insert, pairs_view,
    ref_view, schema_view, view_insert, view_key_index, Schema as OpenApiSchema, SchemaRef,
    SchemaRefV,
};
use crate::order::{lemma_sort_map, map_named, named_view, sort_by_name, sorted_by_name};
use crate::schema_map::{schema_map_items, schemas_insert};
use crate::schema_tweaks::insert_all;
use crate::tree::{attr, attr_of, Document, Node};
use crate::xml::{parse_xml, xml_document_nodes};
use crate::xsd::object_type::docs_view;
use crate::xsd::schema::{
    content_types_of, namespace_prefix, namespace_prefix_of, schema_of, types_view, Schema,
    SchemaParseError,
};
use crate::xsd::schema_type::{type_schema_v, TypeV};
use crate::xsd::simple_type::ns_view;

verus! {

/// The short name of the namespace of a document: from the target
/// namespace of its root, when it names one.
pub open spec fn doc_prefix(ns: Seq<Node>) -> Option<Seq<char>> {
    if ns.len() > 0 {
        match attr_of(ns[0].data, "targetNamespace"@) {
            Some(t) => Some(namespace_prefix_of(t@)),
            None => None,
        }
    } else {
        None
    }
}

/// The key by which the documents are sorted: the short name of their
/// namespace, or nothing.
pub open spec fn prefix_key(p: Option<Seq<char>>) -> Seq<char> {
    match p {
        Some(x) => x,
        None => Seq::empty(),
    }
}

/// A read document: the name of its file, its namespace and its nodes.
pub type ReadDoc = (Seq<char>, Option<Seq<char>>, Seq<Node>);

/// The files (name, bytes) that are XML, each read, under its key.
pub open spec fn readable_files(files: Seq<(Seq<char>, Seq<u8>)>) -> Seq<(Seq<char>, ReadDoc)>
    decreases files.len(),
{
    if files.len() == 0 {
        Seq::empty()
    } else {
        let r = readable_files(files.drop_last());
        let f = files.last();
        match xml_document_nodes(f.1) {
            Some(ns) => r.push((prefix_key(doc_prefix(ns)), (f.0, doc_prefix(ns), ns))),
            None => r,
        }
    }
}

/// The schemas of the types that have a title, each under its title.
pub open spec fn titled_schemas(ts: Seq<TypeV>) -> Seq<(Seq<char>, SchemaRefV)>
    decreases ts.len(),
{
    if ts.len() == 0 {
        Seq::empty()
    } else {
        let r = titled_schemas(ts.drop_last());
        let s = type_schema_v(ts.last());
        match s.data.title {
            Some(t) => r.push((t, SchemaRefV::Item(Box::new(s)))),
            None => r,
        }
    }
}

/// A map of strings with the pairs `ps` inserted one after the other.
pub open spec fn insert_pairs(m: Seq<(Seq<char>, Seq<char>)>, ps: Seq<(Seq<char>, Seq<char>)>) -> Seq<
    (Seq<char>, Seq<char>),
>
    decreases ps.len(),
{
    if ps.len() == 0 {
        m
    } else {
        view_insert(insert_pairs(m, ps.drop_last()), ps.last().0, ps.last().1)
    }
}

/// What reading the document `d` gives after the schemas `it` and the
/// mapping `mp`, with the documents `all`: both with its schemas and pairs
/// added; or the name of its file, with `it`, when it is no schema.
pub open spec fn schema_step(
    it: Seq<(Seq<char>, SchemaRefV)>,
    mp: Seq<(Seq<char>, Seq<char>)>,
    d: ReadDoc,
    all: Seq<Seq<Node>>,
) -> Result<(Seq<(Seq<char>, SchemaRefV)>, Seq<(Seq<char>, Seq<char>)>), (Seq<char>, Seq<(Seq<char>, SchemaRefV)>)> {
    if d.2.len() == 0 {
        Err((d.0, it))
    } else {
        match schema_of(d.1, d.2, 0, all) {
            None => Err((d.0, it)),
            Some((_, ts)) => Ok((insert_all(it, titled_schemas(ts)), insert_pairs(mp, content_types_of(ts)))),
        }
    }
}

/// What reading the first `n` documents gives, from the schemas `items0`:
/// the schemas and the mapping from content types to names; or the name of
/// the first file that is no schema, with the schemas read before it.
pub open spec fn schemas_upto(
    items0: Seq<(Seq<char>, SchemaRefV)>,
    docs: Seq<(Seq<char>, ReadDoc)>,
    n: int,
) -> Result<(Seq<(Seq<char>, SchemaRefV)>, Seq<(Seq<char>, Seq<char>)>), (Seq<char>, Seq<(Seq<char>, SchemaRefV)>)>
    decreases n,
{
    if n <= 0 {
        Ok((items0, Seq::empty()))
    } else {
        match schemas_upto(items0, docs, n - 1) {
            Err(e) => Err(e),
            Ok((it, mp)) => schema_step(it, mp, docs[n - 1].1, docs.map_values(|e: (Seq<char>, ReadDoc)| e.1.2)),
        }
    }
}

/// What reading the schema files (name, bytes) gives, from the schemas
/// `items0`.
pub open spec fn schemas_outcome(items0: Seq<(Seq<char>, SchemaRefV)>, files: Seq<(Seq<char>, Seq<u8>)>) -> Result<
    (Seq<(Seq<char>, SchemaRefV)>, Seq<(Seq<char>, Seq<char>)>),
    (Seq<char>, Seq<(Seq<char>, SchemaRefV)>),
> {
    let docs = sorted_by_name(readable_files(files));
    schemas_upto(items0, docs, docs.len() as int)
}

/// Once a file is no schema, reading more files gives the same.
proof fn lemma_upto_err(
    items0: Seq<(Seq<char>, SchemaRefV)>,
    docs: Seq<(Seq<char>, ReadDoc)>,
    m: int,
    n: int,
)
    requires
        0 <= m <= n,
        schemas_upto(items0, docs, m) is Err,
    ensures
        schemas_upto(items0, docs, n) == schemas_upto(items0, docs, m),
    decreases n,
{
    if n > m {
        lemma_upto_err(items0, docs, m, n - 1);
    }
}

pub open spec fn files_view(v: Seq<(String, Vec<u8>)>) -> Seq<(Seq<char>, Seq<u8>)> {
    v.map_values(|f: (String, Vec<u8>)| (f.0@, f.1@))
}

pub open spec fn opt_static(p: Option<&'static str>) -> Option<Seq<char>> {
    match p {
        Some(s) => Some(s@),
        None => None,
    }
}

pub open spec fn read_view(d: (String, Option<&'static str>, Document)) -> ReadDoc {
    (d.0@, opt_static(d.1), d.2.nodes@)
}

/// Why the schemas could not be read: a file, named, is no schema.
#[derive(Debug)]
pub struct SchemasError {
    pub file: String,
    pub error: SchemaParseError,
}

/// Reads the files that are XML, each with its namespace, under its key.
fn read_files(files: Vec<(String, Vec<u8>)>) -> (r: Vec<(String, (String, Option<&'static str>, Document))>)
    ensures
        map_named(named_view(r@), |d: (String, Option<&'static str>, Document)| read_view(d))
            == readable_files(files_view(files@)),
{
    let ghost fv = files_view(files@);
    let ghost g = |d: (String, Option<&'static str>, Document)| read_view(d);
    let mut r: Vec<(String, (String, Option<&'static str>, Document))> = Vec::new();
    proof {
        assert(map_named(named_view(r@), g) =~= readable_files(fv.take(0)));
    }
    for f in it: files
        invariant
            fv == files_view(it.seq()),
            g == (|d: (String, Option<&'static str>, Document)| read_view(d)),
            map_named(named_view(r@), g) == readable_files(fv.take(it.index() as int)),
    {
        proof {
            assert(fv.take(it.index() + 1).drop_last() =~= fv.take(it.index() as int));
            assert(fv.take(it.index() + 1).last() == (f.0@, f.1@));
        }
        let (name, bytes) = f;
        match parse_xml(bytes.as_slice()) {
            Ok(doc) => {
                let prefix: Option<&'static str> = if doc.nodes.len() > 0 {
                    match attr(&doc.nodes[0].data, "targetNamespace") {
                        Some(t) => Some(namespace_prefix(t.as_str())),
                        None => None,
                    }
                } else {
                    None
                };
                let key = match prefix {
                    Some(p) => String::from_str(p),
                    None => String::new(),
                };
                let ghost ns = doc.nodes@;
                assert(opt_static(prefix) == doc_prefix(ns));
                assert(key@ == prefix_key(doc_prefix(ns)));
                let e = (key, (name, prefix, doc));
                proof {
                    assert(map_named(named_view(r@.push(e)), g) =~= map_named(named_view(r@), g).push(
                        (e.0@, read_view(e.1)),
                    ));
                }
                r.push(e);
            },
            Err(_) => {},
        }
    }
    proof {
        assert(fv.take(fv.len() as int) =~= fv);
    }
    r
}

proof fn lemma_pairs_key_index(ps: Seq<(String, String)>, k: Seq<char>, i: int)
    ensures
        key_index(ps, k, i) == view_key_index(pairs_view(ps), k, i),
    decreases ps.len() - i,
{
    if 0 <= i < ps.len() {
        lemma_pairs_key_index(ps, k, i + 1);
    }
}

proof fn lemma_pairs_insert(ps: Seq<(String, String)>, k: String, v: String)
    ensures
        pairs_view(map_insert(ps, k, v)) == view_insert(pairs_view(ps), k@, v@),
{
    lemma_pairs_key_index(ps, k@, 0);
    lemma_key_index_bound(ps, k@, 0);
    assert(pairs_view(map_insert(ps, k, v)) =~= view_insert(pairs_view(ps), k@, v@));
}

/// Adds the schemas of the types of `s` that have a title to `output`, and
/// the pairs of content type and name to `mapping`.
fn add_schema(output: &mut IndexMap<String, SchemaRef>, mapping: &mut Vec<(String, String)>, s: &Schema)
    ensures
        schema_map_items(*final(output)) == insert_all(
            schema_map_items(*old(output)),
            titled_schemas(types_view(s.types@)),
        ),
        pairs_view(final(mapping)@) == insert_pairs(pairs_view(old(mapping)@), content_types_of(types_view(s.types@))),
{
    let ghost tv = types_view(s.types@);
    let ghost sv = tv.map_values(|t: TypeV| type_schema_v(t));
    let ghost items0 = schema_map_items(*output);
    let schemas = s.to_schemas();
    assert(schemas@.map_values(|x: OpenApiSchema| schema_view(x)) == sv);
    proof {
        assert(titled_schemas(tv.take(0)) =~= Seq::<(Seq<char>, SchemaRefV)>::empty());
    }
    assert(schemas@.len() == tv.len());
    for x in it: schemas
        invariant
            it.seq().len() == tv.len(),
            tv == types_view(s.types@),
            sv == tv.map_values(|t: TypeV| type_schema_v(t)),
            it.seq().map_values(|x: OpenApiSchema| schema_view(x)) == sv,
            schema_map_items(*output) == insert_all(items0, titled_schemas(tv.take(it.index() as int))),
    {
        proof {
            assert(tv.take(it.index() + 1).drop_last() =~= tv.take(it.index() as int));
            assert(tv.take(it.index() + 1).last() == tv[it.index() as int]);
            assert(schema_view(x) == sv[it.index() as int]);
            assert(sv[it.index() as int] == type_schema_v(tv[it.index() as int]));
        }
        let ghost es = titled_schemas(tv.take(it.index() as int));
        let ghost sx = type_schema_v(tv[it.index() as int]);
        match &x.schema_data.title {
            Some(t) => {
                let title = t.clone();
                assert(sx.data.title == Some(title@));
                let v = SchemaRef::Item(Box::new(x));
                assert(ref_view(v) == SchemaRefV::Item(Box::new(sx)));
                proof {
                    let e = (title@, SchemaRefV::Item(Box::new(sx)));
                    assert(titled_schemas(tv.take(it.index() + 1)) == es.push(e));
                    assert(es.push(e).drop_last() =~= es);
                }
                schemas_insert(output, title, v);
            },
            None => {
                assert(sx.data.title is None);
                assert(titled_schemas(tv.take(it.index() + 1)) == es);
            },
        }
    }
    proof {
        assert(tv.take(tv.len() as int) =~= tv);
    }
    let pairs = s.content_types_names();
    let ghost pv = pairs_view(pairs@);
    let ghost m0 = pairs_view(mapping@);
    proof {
        assert(pv.take(0) =~= Seq::<(Seq<char>, Seq<char>)>::empty());
    }
    for p in it: pairs
        invariant
            pv == pairs_view(it.seq()),
            pv == content_types_of(tv),
            pairs_view(mapping@) == insert_pairs(m0, pv.take(it.index() as int)),
    {
        proof {
            assert(pv.take(it.index() + 1).drop_last() =~= pv.take(it.index() as int));
            assert(pv.take(it.index() + 1).last() == (p.0@, p.1@));
            lemma_pairs_insert(mapping@, p.0, p.1);
        }
        let (c, nm) = p;
        entries_insert(mapping, c, nm);
    }
    proof {
        assert(pv.take(pv.len() as int) =~= pv);
    }
}

/// Reads the document `d` of the file `name` in the namespace `ns`, with
/// the documents `all`, into `output` and `mapping`; false, with nothing
/// changed, when it is no schema.
fn read_schema(
    output: &mut IndexMap<String, SchemaRef>,
    mapping: &mut Vec<(String, String)>,
    name: &String,
    ns: Option<&str>,
    d: &Document,
    all: &Vec<Document>,
) -> (r: bool)
    ensures
        r ==> schema_step(
            schema_map_items(*old(output)),
            pairs_view(old(mapping)@),
            (name@, ns_view(ns), d.nodes@),
            docs_view(all@),
        ) == Ok::<
            (Seq<(Seq<char>, SchemaRefV)>, Seq<(Seq<char>, Seq<char>)>),
            (Seq<char>, Seq<(Seq<char>, SchemaRefV)>),
        >((schema_map_items(*final(output)), pairs_view(final(mapping)@))),
        !r ==> schema_step(
            schema_map_items(*old(output)),
            pairs_view(old(mapping)@),
            (name@, ns_view(ns), d.nodes@),
            docs_view(all@),
        ) == Err::<
            (Seq<(Seq<char>, SchemaRefV)>, Seq<(Seq<char>, Seq<char>)>),
            (Seq<char>, Seq<(Seq<char>, SchemaRefV)>),
        >((name@, schema_map_items(*old(output)))) && *final(output) == *old(output),
{
    if d.nodes.len() == 0 {
        return false;
    }
    match Schema::try_from(ns, d, 0, all) {
        Ok(s) => {
            add_schema(output, mapping, &s);
            true
        },
        Err(_) => false,
    }
}

/// Reads the schema files (name, bytes) into `output`: the files that are
/// XML, sorted by the short name of their namespace (files of the same
/// namespace in the order given), each read in that namespace with all of
/// them as the schemas it may refer to; each type with a title becomes a
/// schema under its title. Gives the mapping from content types to schema
/// names, or the first file that is no schema.
pub fn schemas(output: &mut IndexMap<String, SchemaRef>, files: Vec<(String, Vec<u8>)>) -> (r: Result<
    Vec<(String, String)>,
    SchemasError,
>)
    ensures
        match r {
            Ok(m) => schemas_outcome(schema_map_items(*old(output)), files_view(files@)) == Ok::<
                (Seq<(Seq<char>, SchemaRefV)>, Seq<(Seq<char>, Seq<char>)>),
                (Seq<char>, Seq<(Seq<char>, SchemaRefV)>),
            >((schema_map_items(*final(output)), pairs_view(m@))),
            Err(e) => e.error == SchemaParseError::NotSchemaNode && schemas_outcome(
                schema_map_items(*old(output)),
                files_view(files@),
            ) == Err::<
                (Seq<(Seq<char>, SchemaRefV)>, Seq<(Seq<char>, Seq<char>)>),
                (Seq<char>, Seq<(Seq<char>, SchemaRefV)>),
            >((e.file@, schema_map_items(*final(output)))),
        },
{
    let ghost items0 = schema_map_items(*output);
    let ghost g = |d: (String, Option<&'static str>, Document)| read_view(d);
    let read = read_files(files);
    let sorted = sort_by_name(read);
    let ghost docs = map_named(named_view(sorted@), g);
    proof {
        lemma_sort_map(named_view(read@), g);
        assert(docs == sorted_by_name(readable_files(files_view(files@))));
    }
    let mut metas: Vec<(String, Option<&'static str>)> = Vec::new();
    let mut all: Vec<Document> = Vec::new();
    for e in it: sorted
        invariant
            g == (|d: (String, Option<&'static str>, Document)| read_view(d)),
            docs == map_named(named_view(it.seq()), g),
            metas@.len() == it.index(),
            all@.len() == it.index(),
            forall|j: int| 0 <= j < it.index() ==> (#[trigger] metas@[j]).0@ == docs[j].1.0,
            forall|j: int| 0 <= j < it.index() ==> opt_static((#[trigger] metas@[j]).1) == docs[j].1.1,
            forall|j: int| 0 <= j < it.index() ==> (#[trigger] all@[j]).nodes@ == docs[j].1.2,
    {
        let (_, (name, prefix, doc)) = e;
        metas.push((name, prefix));
        all.push(doc);
    }
    let ghost alls = docs.map_values(|e: (Seq<char>, ReadDoc)| e.1.2);
    proof {
        assert(all@.len() == docs.len());
        assert forall|j: int| 0 <= j < docs.len() implies #[trigger] docs_view(all@)[j] == alls[j] by {
            assert(all@[j].nodes@ == docs[j].1.2);
        }
        assert(docs_view(all@) =~= alls);
    }
    let mut mapping: Vec<(String, String)> = Vec::new();
    assert(pairs_view(mapping@) =~= Seq::<(Seq<char>, Seq<char>)>::empty());
    let mut k: usize = 0;
    while k < all.len()
        invariant
            items0 == schema_map_items(*old(output)),
            docs == sorted_by_name(readable_files(files_view(files@))),
            docs.len() == all@.len(),
            metas@.len() == all@.len(),
            alls == docs.map_values(|e: (Seq<char>, ReadDoc)| e.1.2),
            docs_view(all@) == alls,
            forall|j: int| 0 <= j < docs.len() ==> (#[trigger] metas@[j]).0@ == docs[j].1.0,
            forall|j: int| 0 <= j < docs.len() ==> opt_static((#[trigger] metas@[j]).1) == docs[j].1.1,
            forall|j: int| 0 <= j < docs.len() ==> (#[trigger] all@[j]).nodes@ == docs[j].1.2,
            k <= all@.len(),
            schemas_upto(items0, docs, k as int) == Ok::<
                (Seq<(Seq<char>, SchemaRefV)>, Seq<(Seq<char>, Seq<char>)>),
                (Seq<char>, Seq<(Seq<char>, SchemaRefV)>),
            >((schema_map_items(*output), pairs_view(mapping@))),
        decreases all@.len() - k,
    {
        let ns: Option<&str> = metas[k].1;
        proof {
            let j = k as int;
            assert((metas@[j].0@, ns_view(ns), all@[j].nodes@) == docs[j].1);
        }
        if !read_schema(output, &mut mapping, &metas[k].0, ns, &all[k], &all) {
            proof {
                lemma_upto_err(items0, docs, k + 1, docs.len() as int);
            }
            let file = metas[k].0.clone();
            return Err(SchemasError { file, error: SchemaParseError::NotSchemaNode });
        }
        k = k + 1;
    }
    Ok(mapping)
}

} // verus!
