//! An XML Schema document: the schemas it includes and the types it names.
use vstd::prelude::*;

use crate::openapi::{opt_str, schema_view, Schema as OpenApiSchema, SchemaV};
use crate::text::{ends_with, starts_with, str_eq};
use crate::tree::{attr, attr_of, children, Document, Node};
use crate::xml::{parse_xml, xml_document_nodes};
use crate::xsd::object_type::docs_view;
use crate::xsd::schema_type::{
    content_type_of, name_of, type_of, type_schema_v, type_view, Type, TypeV,
};
use crate::xsd::simple_type::ns_view;
use crate::xsd::{
    all_some, ints, is_xs, lemma_all_some_step, lemma_subrange_ends, node_is_xs,
};

verus! {

/// An XML Schema document: the locations of the schemas it includes, and
/// its types.
#[derive(Debug, PartialEq)]
pub struct Schema {
    pub includes: Vec<String>,
    pub types: Vec<Type>,
}

/// Why a node is not a schema.
#[derive(Debug, PartialEq)]
pub enum SchemaParseError {
    NotSchemaNode,
}

/// Why bytes are not a schema.
#[derive(Debug)]
pub enum SchemaFromBytesError {
    XmlParse(xmltree::ParseError),
    XsdParse(SchemaParseError),
}

/// The location that node `c` includes, when it is an `include` that names
/// one.
pub open spec fn include_location(ns: Seq<Node>, c: int) -> Option<Seq<char>> {
    if is_xs(ns[c].data, "include"@) {
        opt_str(attr_of(ns[c].data, "schemaLocation"@))
    } else {
        None
    }
}

/// The type that node `c` is, when it is one that can be read.
pub open spec fn type_ok(nsp: Option<Seq<char>>, ns: Seq<Node>, c: int, types: Seq<Seq<Node>>) -> Option<TypeV> {
    match type_of(nsp, ns, c, types) {
        Ok(t) => Some(t),
        Err(_) => None,
    }
}

/// The includes and the types of the schema node `i`; nothing when it is
/// no schema.
pub open spec fn schema_of(nsp: Option<Seq<char>>, ns: Seq<Node>, i: int, types: Seq<Seq<Node>>) -> Option<
    (Seq<Seq<char>>, Seq<TypeV>),
> {
    if is_xs(ns[i].data, "schema"@) {
        Some(
            (
                all_some(children(ns, i), |c: int| include_location(ns, c)),
                all_some(children(ns, i), |c: int| type_ok(nsp, ns, c, types)),
            ),
        )
    } else {
        None
    }
}

/// The pairs of content type and type name of the types `ts` that have
/// both, in order.
pub open spec fn content_types_of(ts: Seq<TypeV>) -> Seq<(Seq<char>, Seq<char>)>
    decreases ts.len(),
{
    if ts.len() == 0 {
        Seq::empty()
    } else {
        let r = content_types_of(ts.drop_last());
        match (content_type_of(ts.last()), name_of(ts.last())) {
            (Some(c), Some(n)) => r.push((c, n)),
            _ => r,
        }
    }
}

pub open spec fn types_view(ts: Seq<Type>) -> Seq<TypeV> {
    ts.map_values(|t: Type| type_view(t))
}

/// The short name of the namespace of a schema, by its target namespace.
pub open spec fn namespace_prefix_of(t: Seq<char>) -> Seq<char> {
    if t == "http://schemas.dmtf.org/ovf/envelope/1"@ {
        "ovf"@
    } else if t == "http://schemas.dmtf.org/ovf/environment/1"@ {
        "ovfenv"@
    } else if t == "http://schemas.dmtf.org/wbem/wscim/1/cim-schema/2/CIM_ResourceAllocationSettingData"@ {
        "rasd"@
    } else if t == "http://schemas.dmtf.org/wbem/wscim/1/cim-schema/2/CIM_VirtualSystemSettingData"@ {
        "vssd"@
    } else if t == "http://schemas.dmtf.org/wbem/wscim/1/common"@ {
        "cim"@
    } else if t == "http://www.vmware.com/vcloud/meta"@ {
        "meta"@
    } else if t == "http://www.vmware.com/schema/ovf"@ {
        "vmw"@
    } else if t == "http://www.vmware.com/vcloud/extension/v1.5"@ {
        "vcloud-ext"@
    } else if t == "http://www.vmware.com/vcloud/v1.5"@ {
        "vcloud"@
    } else if t == "http://www.vmware.com/vcloud/versions"@ {
        "versioning"@
    } else {
        "vcloud"@
    }
}

/// The target namespaces of the schemas of the documentation, each with the
/// prefix by which the types it declares are named (and by which the
/// schemas refer to them, as in `rasd:X` for `rasd_X`).
pub open spec fn known_namespaces() -> Seq<(Seq<char>, Seq<char>)> {
    seq![
        ("http://schemas.dmtf.org/ovf/envelope/1"@, "ovf"@),
        ("http://schemas.dmtf.org/ovf/environment/1"@, "ovfenv"@),
        ("http://schemas.dmtf.org/wbem/wscim/1/cim-schema/2/CIM_ResourceAllocationSettingData"@, "rasd"@),
        ("http://schemas.dmtf.org/wbem/wscim/1/cim-schema/2/CIM_VirtualSystemSettingData"@, "vssd"@),
        ("http://schemas.dmtf.org/wbem/wscim/1/common"@, "cim"@),
        ("http://www.vmware.com/vcloud/meta"@, "meta"@),
        ("http://www.vmware.com/schema/ovf"@, "vmw"@),
        ("http://www.vmware.com/vcloud/extension/v1.5"@, "vcloud-ext"@),
        ("http://www.vmware.com/vcloud/v1.5"@, "vcloud"@),
        ("http://www.vmware.com/vcloud/versions"@, "versioning"@),
    ]
}

/// Each known target namespace gets its own prefix, distinct known
/// namespaces get distinct prefixes, and any other namespace is named as
/// the `vcloud` one.
pub proof fn lemma_namespace_prefixes()
    ensures
        forall|i: int|
            0 <= i < known_namespaces().len() ==> #[trigger] namespace_prefix_of(known_namespaces()[i].0)
                == known_namespaces()[i].1,
        forall|i: int, j: int|
            0 <= i < j < known_namespaces().len() ==> #[trigger] namespace_prefix_of(known_namespaces()[i].0)
                != #[trigger] namespace_prefix_of(known_namespaces()[j].0),
        forall|t: Seq<char>|
            (forall|i: int| 0 <= i < known_namespaces().len() ==> #[trigger] known_namespaces()[i].0 != t)
                ==> namespace_prefix_of(t) == "vcloud"@,
{
    reveal_strlit("http://schemas.dmtf.org/ovf/envelope/1");
    reveal_strlit("ovf");
    reveal_strlit("http://schemas.dmtf.org/ovf/environment/1");
    reveal_strlit("ovfenv");
    reveal_strlit("http://schemas.dmtf.org/wbem/wscim/1/cim-schema/2/CIM_ResourceAllocationSettingData");
    reveal_strlit("rasd");
    reveal_strlit("http://schemas.dmtf.org/wbem/wscim/1/cim-schema/2/CIM_VirtualSystemSettingData");
    reveal_strlit("vssd");
    reveal_strlit("http://schemas.dmtf.org/wbem/wscim/1/common");
    reveal_strlit("cim");
    reveal_strlit("http://www.vmware.com/vcloud/meta");
    reveal_strlit("meta");
    reveal_strlit("http://www.vmware.com/schema/ovf");
    reveal_strlit("vmw");
    reveal_strlit("http://www.vmware.com/vcloud/extension/v1.5");
    reveal_strlit("vcloud-ext");
    reveal_strlit("http://www.vmware.com/vcloud/v1.5");
    reveal_strlit("vcloud");
    reveal_strlit("http://www.vmware.com/vcloud/versions");
    reveal_strlit("versioning");
    let ks = known_namespaces();
    assert(ks.len() == 10);
    assert(ks[0].0[31] != ks[1].0[31]);
    assert(ks[0].0[24] != ks[2].0[24]);
    assert(ks[0].0[24] != ks[3].0[24]);
    assert(ks[0].0[24] != ks[4].0[24]);
    assert(ks[0].0[7] != ks[5].0[7]);
    assert(ks[0].0[7] != ks[6].0[7]);
    assert(ks[0].0[7] != ks[7].0[7]);
    assert(ks[0].0[7] != ks[8].0[7]);
    assert(ks[0].0[7] != ks[9].0[7]);
    assert(ks[1].0[24] != ks[2].0[24]);
    assert(ks[1].0[24] != ks[3].0[24]);
    assert(ks[1].0[24] != ks[4].0[24]);
    assert(ks[1].0[7] != ks[5].0[7]);
    assert(ks[1].0[7] != ks[6].0[7]);
    assert(ks[1].0[7] != ks[7].0[7]);
    assert(ks[1].0[7] != ks[8].0[7]);
    assert(ks[1].0[7] != ks[9].0[7]);
    assert(ks[2].0[54] != ks[3].0[54]);
    assert(ks[2].0[38] != ks[4].0[38]);
    assert(ks[2].0[7] != ks[5].0[7]);
    assert(ks[2].0[7] != ks[6].0[7]);
    assert(ks[2].0[7] != ks[7].0[7]);
    assert(ks[2].0[7] != ks[8].0[7]);
    assert(ks[2].0[7] != ks[9].0[7]);
    assert(ks[3].0[38] != ks[4].0[38]);
    assert(ks[3].0[7] != ks[5].0[7]);
    assert(ks[3].0[7] != ks[6].0[7]);
    assert(ks[3].0[7] != ks[7].0[7]);
    assert(ks[3].0[7] != ks[8].0[7]);
    assert(ks[3].0[7] != ks[9].0[7]);
    assert(ks[4].0[7] != ks[5].0[7]);
    assert(ks[4].0[7] != ks[6].0[7]);
    assert(ks[4].0[7] != ks[7].0[7]);
    assert(ks[4].0[7] != ks[8].0[7]);
    assert(ks[4].0[7] != ks[9].0[7]);
    assert(ks[5].0[22] != ks[6].0[22]);
    assert(ks[5].0[29] != ks[7].0[29]);
    assert(ks[5].0[29] != ks[8].0[29]);
    assert(ks[5].0[29] != ks[9].0[29]);
    assert(ks[6].0[22] != ks[7].0[22]);
    assert(ks[6].0[22] != ks[8].0[22]);
    assert(ks[6].0[22] != ks[9].0[22]);
    assert(ks[7].0[29] != ks[8].0[29]);
    assert(ks[7].0[29] != ks[9].0[29]);
    assert(ks[8].0[30] != ks[9].0[30]);
    assert(ks[0].1[0] != ks[4].1[0]);
    assert(ks[0].1[0] != ks[6].1[0]);
    assert(ks[1].1[0] != ks[8].1[0]);
    assert(ks[2].1[0] != ks[3].1[0]);
    assert(ks[2].1[0] != ks[5].1[0]);
    assert(ks[3].1[0] != ks[5].1[0]);
    assert(ks[4].1[0] != ks[6].1[0]);
    assert(ks[7].1[1] != ks[9].1[1]);
    assert(namespace_prefix_of(ks[0].0) == ks[0].1);
    assert(namespace_prefix_of(ks[1].0) == ks[1].1);
    assert(namespace_prefix_of(ks[2].0) == ks[2].1);
    assert(namespace_prefix_of(ks[3].0) == ks[3].1);
    assert(namespace_prefix_of(ks[4].0) == ks[4].1);
    assert(namespace_prefix_of(ks[5].0) == ks[5].1);
    assert(namespace_prefix_of(ks[6].0) == ks[6].1);
    assert(namespace_prefix_of(ks[7].0) == ks[7].1);
    assert(namespace_prefix_of(ks[8].0) == ks[8].1);
    assert(namespace_prefix_of(ks[9].0) == ks[9].1);
    assert forall|i: int| 0 <= i < ks.len() implies #[trigger] namespace_prefix_of(ks[i].0) == ks[i].1 by {
        if i == 0 {} else if i == 1 {} else if i == 2 {} else if i == 3 {} else if i == 4 {} else if i == 5 {} else if i == 6 {} else if i == 7 {} else if i == 8 {} else if i == 9 {}
    }
    assert forall|i: int, j: int| 0 <= i < j < ks.len() implies #[trigger] namespace_prefix_of(ks[i].0)
        != #[trigger] namespace_prefix_of(ks[j].0) by {
        assert(namespace_prefix_of(ks[i].0) == ks[i].1);
        assert(namespace_prefix_of(ks[j].0) == ks[j].1);
        if i == 0 {} else if i == 1 {} else if i == 2 {} else if i == 3 {} else if i == 4 {} else if i == 5 {} else if i == 6 {} else if i == 7 {} else if i == 8 {} else if i == 9 {}
    }
    assert forall|t: Seq<char>|
        (forall|i: int| 0 <= i < ks.len() ==> #[trigger] ks[i].0 != t) implies namespace_prefix_of(t) == "vcloud"@ by {
        assert(ks[0].0 != t);
        assert(ks[1].0 != t);
        assert(ks[2].0 != t);
        assert(ks[3].0 != t);
        assert(ks[4].0 != t);
        assert(ks[5].0 != t);
        assert(ks[6].0 != t);
        assert(ks[7].0 != t);
        assert(ks[8].0 != t);
        assert(ks[9].0 != t);
    }
}

/// The short name of the namespace of a schema, by its target namespace.
pub fn namespace_prefix(t: &str) -> (r: &'static str)
    ensures
        r@ == namespace_prefix_of(t@),
{
    if str_eq(t, "http://schemas.dmtf.org/ovf/envelope/1") {
        "ovf"
    } else if str_eq(t, "http://schemas.dmtf.org/ovf/environment/1") {
        "ovfenv"
    } else if str_eq(
        t,
        "http://schemas.dmtf.org/wbem/wscim/1/cim-schema/2/CIM_ResourceAllocationSettingData",
    ) {
        "rasd"
    } else if str_eq(
        t,
        "http://schemas.dmtf.org/wbem/wscim/1/cim-schema/2/CIM_VirtualSystemSettingData",
    ) {
        "vssd"
    } else if str_eq(t, "http://schemas.dmtf.org/wbem/wscim/1/common") {
        "cim"
    } else if str_eq(t, "http://www.vmware.com/vcloud/meta") {
        "meta"
    } else if str_eq(t, "http://www.vmware.com/schema/ovf") {
        "vmw"
    } else if str_eq(t, "http://www.vmware.com/vcloud/extension/v1.5") {
        "vcloud-ext"
    } else if str_eq(t, "http://www.vmware.com/vcloud/v1.5") {
        "vcloud"
    } else if str_eq(t, "http://www.vmware.com/vcloud/versions") {
        "versioning"
    } else {
        "vcloud"
    }
}

/// Whether a file of the documentation archive is one of the schemas to
/// read: an `.xsd` under `doc/etc/`, but not a snapshot nor the schema of
/// XML itself.
pub open spec fn is_schema_file_name(n: Seq<char>) -> bool {
    &&& "doc/etc/"@.is_prefix_of(n)
    &&& crate::text::is_suffix(".xsd"@, n)
    &&& !"doc/etc/etc/snapshot"@.is_prefix_of(n)
    &&& n != "doc/etc/schemas/external/xml.xsd"@
    &&& n != "doc/etc/etc/schemas/external/xml.xsd"@
}

/// Whether a file of the documentation archive is one of the schemas to
/// read.
pub fn is_schema_file(n: &str) -> (r: bool)
    ensures
        r == is_schema_file_name(n@),
{
    starts_with(n, "doc/etc/") && ends_with(n, ".xsd") && !starts_with(n, "doc/etc/etc/snapshot")
        && !str_eq(n, "doc/etc/schemas/external/xml.xsd") && !str_eq(
        n,
        "doc/etc/etc/schemas/external/xml.xsd",
    )
}

impl Schema {
    /// Reads the schema of node `i`: the locations it includes and the types
    /// among its children that can be read, named in the namespace `ns`,
    /// with the schemas `types`.
    pub fn try_from(ns: Option<&str>, doc: &Document, i: usize, types: &Vec<Document>) -> (r: Result<
        Schema,
        SchemaParseError,
    >)
        requires
            i < doc.nodes@.len(),
        ensures
            match r {
                Ok(s) => schema_of(ns_view(ns), doc.nodes@, i as int, docs_view(types@)) == Some(
                    (s.includes@.map_values(|x: String| x@), types_view(s.types@)),
                ),
                Err(_) => schema_of(ns_view(ns), doc.nodes@, i as int, docs_view(types@)) is None,
            },
    {
        if !node_is_xs(&doc.nodes[i].data, "schema") {
            return Err(SchemaParseError::NotSchemaNode);
        }
        let ghost nodes = doc.nodes@;
        let ghost tv = docs_view(types@);
        let kids = doc.children(i);
        let ghost cs = ints(kids@);
        let ghost fi = |c: int| include_location(nodes, c);
        let ghost ft = |c: int| type_ok(ns_view(ns), nodes, c, tv);
        proof {
            lemma_subrange_ends(cs);
        }
        let mut includes: Vec<String> = Vec::new();
        let mut ts: Vec<Type> = Vec::new();
        let mut k: usize = 0;
        while k < kids.len()
            invariant
                nodes == doc.nodes@,
                tv == docs_view(types@),
                cs == ints(kids@),
                cs == children(nodes, i as int),
                fi == (|c: int| include_location(nodes, c)),
                ft == (|c: int| type_ok(ns_view(ns), nodes, c, tv)),
                forall|j: int| 0 <= j < kids@.len() ==> #[trigger] kids@[j] < nodes.len(),
                k <= kids@.len(),
                all_some(cs, fi) == includes@.map_values(|x: String| x@) + all_some(cs.subrange(k as int, cs.len() as int), fi),
                all_some(cs, ft) == types_view(ts@) + all_some(cs.subrange(k as int, cs.len() as int), ft),
            decreases kids@.len() - k,
        {
            let c = kids[k];
            assert(cs[k as int] == c as int);
            proof {
                lemma_all_some_step(cs, fi, k as int);
                lemma_all_some_step(cs, ft, k as int);
            }
            match Type::try_from(ns, doc, c, types) {
                Ok(t) => {
                    proof {
                        assert(types_view(ts@.push(t)) =~= types_view(ts@) + seq![type_view(t)]);
                        assert(types_view(ts@) + seq![type_view(t)] + all_some(cs.subrange(k + 1, cs.len() as int), ft) =~= types_view(ts@) + (seq![type_view(t)] + all_some(cs.subrange(k + 1, cs.len() as int), ft)));
                    }
                    ts.push(t);
                },
                Err(_) => {},
            }
            let d = &doc.nodes[c].data;
            if node_is_xs(d, "include") {
                match attr(d, "schemaLocation") {
                    Some(l) => {
                        let l = l.clone();
                        proof {
                            assert(includes@.push(l).map_values(|x: String| x@) =~= includes@.map_values(|x: String| x@) + seq![l@]);
                            assert(includes@.map_values(|x: String| x@) + seq![l@] + all_some(cs.subrange(k + 1, cs.len() as int), fi) =~= includes@.map_values(|x: String| x@) + (seq![l@] + all_some(cs.subrange(k + 1, cs.len() as int), fi)));
                        }
                        includes.push(l);
                    },
                    None => {},
                }
            }
            k = k + 1;
        }
        proof {
            assert(includes@.map_values(|x: String| x@) + Seq::<Seq<char>>::empty() =~= includes@.map_values(|x: String| x@));
            assert(types_view(ts@) + Seq::<TypeV>::empty() =~= types_view(ts@));
        }
        Ok(Schema { includes, types: ts })
    }

    /// Reads the schema that the XML `bytes` hold, in the namespace `ns`,
    /// with the schemas `types`.
    pub fn from_bytes(ns: Option<&str>, bytes: &[u8], types: &Vec<Document>) -> (r: Result<
        Schema,
        SchemaFromBytesError,
    >)
        ensures
            match xml_document_nodes(bytes@) {
                None => r matches Err(SchemaFromBytesError::XmlParse(_)),
                Some(nodes) => match r {
                    Ok(s) => nodes.len() > 0 && schema_of(ns_view(ns), nodes, 0, docs_view(types@)) == Some(
                        (s.includes@.map_values(|x: String| x@), types_view(s.types@)),
                    ),
                    Err(SchemaFromBytesError::XsdParse(_)) => nodes.len() == 0 || schema_of(ns_view(ns), nodes, 0, docs_view(types@)) is None,
                    Err(SchemaFromBytesError::XmlParse(_)) => false,
                },
            },
    {
        let doc = match parse_xml(bytes) {
            Ok(d) => d,
            Err(e) => {
                return Err(SchemaFromBytesError::XmlParse(e));
            },
        };
        if doc.nodes.len() == 0 {
            return Err(SchemaFromBytesError::XsdParse(SchemaParseError::NotSchemaNode));
        }
        match Schema::try_from(ns, &doc, 0, types) {
            Ok(s) => Ok(s),
            Err(e) => Err(SchemaFromBytesError::XsdParse(e)),
        }
    }

    /// The OpenAPI schemas of the types, in order.
    pub fn to_schemas(&self) -> (r: Vec<OpenApiSchema>)
        ensures
            r@.map_values(|s: OpenApiSchema| schema_view(s)) == types_view(self.types@).map_values(
                |t: TypeV| type_schema_v(t),
            ),
    {
        let mut r: Vec<OpenApiSchema> = Vec::new();
        let mut k: usize = 0;
        while k < self.types.len()
            invariant
                k <= self.types@.len(),
                r@.map_values(|s: OpenApiSchema| schema_view(s)) == types_view(self.types@).take(k as int).map_values(
                    |t: TypeV| type_schema_v(t),
                ),
            decreases self.types@.len() - k,
        {
            let s = self.types[k].to_schema();
            proof {
                assert(r@.push(s).map_values(|x: OpenApiSchema| schema_view(x)) =~= r@.map_values(|x: OpenApiSchema| schema_view(x)).push(schema_view(s)));
                assert(types_view(self.types@).take(k + 1).map_values(|t: TypeV| type_schema_v(t)) =~= types_view(self.types@).take(k as int).map_values(|t: TypeV| type_schema_v(t)).push(type_schema_v(type_view(self.types@[k as int]))));
                assert(types_view(self.types@)[k as int] == type_view(self.types@[k as int]));
                assert(types_view(self.types@).take(k + 1) =~= types_view(self.types@).take(k as int).push(type_view(self.types@[k as int])));
                assert(r@.push(s).map_values(|s: OpenApiSchema| schema_view(s)) =~= types_view(self.types@).take(k + 1).map_values(
                    |t: TypeV| type_schema_v(t),
                ));
            }
            r.push(s);
            k = k + 1;
        }
        assert(types_view(self.types@).take(self.types@.len() as int) =~= types_view(self.types@));
        r
    }

    /// The content type of each type that names one, with the type's name.
    pub fn content_types_names(&self) -> (r: Vec<(String, String)>)
        ensures
            crate::openapi::pairs_view(r@) == content_types_of(types_view(self.types@)),
    {
        let ghost tv = types_view(self.types@);
        let mut r: Vec<(String, String)> = Vec::new();
        let mut k: usize = 0;
        while k < self.types.len()
            invariant
                tv == types_view(self.types@),
                k <= self.types@.len(),
                crate::openapi::pairs_view(r@) == content_types_of(tv.take(k as int)),
            decreases self.types@.len() - k,
        {
            let t = &self.types[k];
            proof {
                assert(tv.take(k + 1).drop_last() =~= tv.take(k as int));
                assert(tv.take(k + 1).last() == type_view(*t));
            }
            match (t.content_type(), t.name()) {
                (Some(c), Some(n)) => {
                    let p = (String::from_str(c), String::from_str(n));
                    proof {
                        assert(crate::openapi::pairs_view(r@.push(p)) =~= crate::openapi::pairs_view(r@).push((c@, n@)));
                    }
                    r.push(p);
                },
                _ => {},
            }
            k = k + 1;
        }
        assert(tv.take(tv.len() as int) =~= tv);
        r
    }
}

} // verus!
