use indexmap::IndexMap;
use transformer::about::AboutInfo;
use transformer::archive::{files_in, schema_files};
use transformer::info::{api_version, info, tags, CommonRes};
use transformer::openapi::{ApiOperation, SchemaRef};
use transformer::operation::{Method, OperationParseError};
use transformer::order::{sort_by_name, str_lt};
use transformer::paths::{operations, paths, paths_of};
use transformer::queries::queries;
use transformer::schemas::schemas;
use transformer::types::{element_mapping, types};

fn page(h1: &str, entries: &str) -> String {
    format!(
        "<!DOCTYPE html><html><head><title>VMware Cloud Director API - Test</title></head><body><h1>{}</h1><dl>{}</dl></body></html>",
        h1, entries
    )
}

fn strings(v: &[&str]) -> Vec<String> {
    v.iter().map(|s| s.to_string()).collect()
}

fn api(description: &str) -> ApiOperation {
    ApiOperation {
        description: description.to_string(),
        tags: vec!["user".to_string()],
        response_description: "success".to_string(),
        response_content: vec![],
        request_content: None,
        security: "bearerAuth".to_string(),
        deprecated: false,
        parameters: vec![],
    }
}

#[test]
fn strings_are_ordered_character_by_character() {
    assert!(str_lt("a", "b"));
    assert!(str_lt("a", "ab"));
    assert!(!str_lt("ab", "a"));
    assert!(!str_lt("a", "a"));
    assert!(str_lt("", "a"));
    assert!(str_lt("Z", "a"));
    assert!(str_lt("z", "é"));
    assert_eq!(str_lt("doc/b", "doc/a"), "doc/b" < "doc/a");
}

#[test]
fn sorting_by_name_keeps_the_order_of_equal_names() {
    let v = vec![("b".to_string(), 1), ("a".to_string(), 2), ("b".to_string(), 3), ("".to_string(), 4)];
    let r = sort_by_name(v);
    assert_eq!(
        r,
        vec![("".to_string(), 4), ("a".to_string(), 2), ("b".to_string(), 1), ("b".to_string(), 3)]
    );
}

#[test]
fn files_of_a_directory_are_listed_in_order() {
    let names = strings(&[
        "doc/operations/b.html",
        "doc/operations/a.html",
        "doc/types/x.html",
        "doc/operations/c.txt",
        "doc/operations/sub/d.html",
    ]);
    assert_eq!(
        files_in(&names, "doc/operations/", ".html"),
        strings(&["doc/operations/a.html", "doc/operations/b.html", "doc/operations/sub/d.html"])
    );
    let schema_names = strings(&[
        "doc/etc/schemas/v1.5/b.xsd",
        "doc/etc/etc/snapshot/a.xsd",
        "doc/etc/schemas/external/xml.xsd",
        "doc/etc/schemas/v1.5/a.xsd",
        "about.html",
    ]);
    assert_eq!(
        schema_files(&schema_names),
        strings(&["doc/etc/schemas/v1.5/a.xsd", "doc/etc/schemas/v1.5/b.xsd"])
    );
}

#[test]
fn operations_are_gathered_by_path() {
    let ops = vec![
        (Method::Get, "/a/{id}/b/{name}".to_string(), api("get")),
        (Method::Put, "/a/{id}/b/{name}".to_string(), api("put")),
        (Method::Get, "relative".to_string(), api("left out")),
        (Method::Get, "/x/{}/{y{z}".to_string(), api("x")),
        (Method::Get, "/a/{id}/b/{name}".to_string(), api("get again")),
    ];
    let ps = paths_of(ops);
    assert_eq!(ps.len(), 2);
    assert_eq!(ps[0].0, "/a/{id}/b/{name}");
    assert_eq!(ps[0].1.parameters, strings(&["id", "name"]));
    assert_eq!(ps[0].1.get, Some(api("get again")));
    assert_eq!(ps[0].1.put, Some(api("put")));
    assert_eq!(ps[0].1.post, None);
    assert_eq!(ps[0].1.delete, None);
    assert_eq!(ps[1].0, "/x/{}/{y{z}");
    assert_eq!(ps[1].1.parameters, strings(&["y{z"]));
}

const PUT_TEST_ENTRIES: &str = r#"<dt>Operation:</dt><dd>PUT /admin/test/{id}</dd><dt>Description:</dt><dd>Update a test.</dd><dt>Since:</dt><dd>0.9</dd><dt>Input parameters</dt><dd><dl><dt>Consume media type(s):</dt><dd>application/vnd.vmware.admin.test+xml<br>application/vnd.vmware.admin.test+json<br></dd><dt>Input type:</dt><dd><a href="..//types/AdminTestType.html">AdminTestType</a></dd></dl></dd><dt>Output parameters</dt><dd><dl><dt>Produce media type(s):</dt><dd>application/vnd.vmware.admin.testo+xml<br>application/vnd.vmware.admin.testo+json<br></dd><dt>Output type:</dt><dd><a href="..//types/AdminTestTypeO.html">AdminTestTypeO</a></dd></dl></dd><dt>Examples</dt><dd><dl></dl></dd>"#;

#[test]
fn paths_from_operation_pages() {
    let pages = vec![
        ("doc/operations/PUT-Test.html".to_string(), page("PUT /admin/test/{id}", PUT_TEST_ENTRIES)),
        (
            "doc/operations/GET-Test.html".to_string(),
            page("GET /admin/test/{id}", "<dt>Description:</dt><dd>Get a test.</dd>"),
        ),
    ];
    let tm = vec![("application/vnd.vmware.admin.test".to_string(), "MyType".to_string())];
    let em = vec![("AdminTestTypeO".to_string(), "MyTypeO".to_string())];
    let ps = paths(&pages, "32.0", &tm, &em).unwrap();
    assert_eq!(ps.len(), 1);
    assert_eq!(ps[0].0, "/admin/test/{id}");
    assert_eq!(ps[0].1.parameters, strings(&["id"]));
    let put = ps[0].1.put.as_ref().unwrap();
    assert_eq!(put.description, "Update a test.");
    assert_eq!(put.tags, strings(&["admin"]));
    assert_eq!(
        put.request_content,
        Some(vec![(
            "application/vnd.vmware.admin.test+json;version=32.0".to_string(),
            "#/components/schemas/MyType".to_string()
        )])
    );
    assert_eq!(ps[0].1.get.as_ref().unwrap().description, "Get a test.");
}

#[test]
fn a_page_that_is_no_operation_stops_the_paths() {
    let pages = vec![
        ("a.html".to_string(), page("GET /a", "<dt>Description:</dt><dd>A.</dd>")),
        ("b.html".to_string(), page("FETCH /b", "<dt>Description:</dt><dd>B.</dd>")),
        ("c.html".to_string(), page("GET /c", "")),
    ];
    let e = operations(&pages, "1.0", &vec![], &vec![]).unwrap_err();
    assert_eq!(e.file, "b.html");
    assert!(matches!(e.error, OperationParseError::MethodParseError(_)));
    let e = paths(&pages[2..].to_vec(), "1.0", &vec![], &vec![]).unwrap_err();
    assert_eq!(e.file, "c.html");
    assert!(matches!(e.error, OperationParseError::CannotFindDescriptionError));
}

#[test]
fn queries_are_read_in_order() {
    let pages = vec![
        ("q1.html".to_string(), page("adminVApp", "<dt>Type Name:</dt><dd>adminVApp</dd>")),
        ("q2.html".to_string(), page("user", "<dt>Type Name:</dt><dd>user</dd>")),
    ];
    let q = queries(&pages).unwrap();
    assert_eq!(q.iter().map(|q| q.name.clone()).collect::<Vec<_>>(), strings(&["adminVApp", "user"]));
    let mut bad = pages.clone();
    bad.insert(1, ("bad.html".to_string(), page("x", "<dt>Other:</dt><dd>x</dd>")));
    let e = queries(&bad).unwrap_err();
    assert_eq!(e.file, "bad.html");
}

#[test]
fn types_are_kept_by_name_and_give_the_element_mapping() {
    let t = |h1: &str, elements: &str| page(h1, &format!("<dt>Element:</dt><dd>{}</dd>", elements));
    let pages = vec![
        ("1.html".to_string(), t("VAppType", "VApp")),
        ("2.html".to_string(), page("NoElements", "<dt>Other:</dt><dd>x</dd>")),
        ("3.html".to_string(), t("AType", "A, Shared")),
        ("4.html".to_string(), t("VAppType", "VApp, Shared")),
    ];
    let ts = types(&pages);
    assert_eq!(ts.iter().map(|t| t.0.clone()).collect::<Vec<_>>(), strings(&["AType", "VAppType"]));
    assert_eq!(ts[1].1.elements.len(), 2);
    let m = element_mapping(&ts);
    assert_eq!(
        m,
        vec![
            ("A".to_string(), "AType".to_string()),
            ("Shared".to_string(), "VAppType".to_string()),
            ("VApp".to_string(), "VAppType".to_string()),
        ]
    );
}

const VCLOUD: &str = r#"<xs:schema xmlns:xs="http://www.w3.org/2001/XMLSchema" xmlns:meta="http://www.vmware.com/vcloud/meta" targetNamespace="http://www.vmware.com/vcloud/v1.5">
  <xs:complexType name="TestType">
    <xs:annotation><xs:appinfo><meta:content-type>application/vnd.ccouzens.test</meta:content-type></xs:appinfo></xs:annotation>
    <xs:sequence><xs:element name="Count" type="xs:int"/></xs:sequence>
  </xs:complexType>
</xs:schema>"#;

const OVF: &str = r#"<xs:schema xmlns:xs="http://www.w3.org/2001/XMLSchema" targetNamespace="http://schemas.dmtf.org/ovf/envelope/1">
  <xs:simpleType name="CoinType"><xs:restriction base="xs:string"><xs:enumeration value="Heads"/></xs:restriction></xs:simpleType>
  <xs:simpleType><xs:restriction base="xs:string"/></xs:simpleType>
</xs:schema>"#;

#[test]
fn schemas_are_read_by_namespace() {
    let mut output: IndexMap<String, SchemaRef> = IndexMap::new();
    output.insert("first".to_string(), SchemaRef::Reference("#/x".to_string()));
    let files = vec![
        ("a.xsd".to_string(), VCLOUD.as_bytes().to_vec()),
        ("b.xsd".to_string(), b"not xml <".to_vec()),
        ("c.xsd".to_string(), OVF.as_bytes().to_vec()),
    ];
    let mapping = schemas(&mut output, files).unwrap();
    assert_eq!(
        output.keys().cloned().collect::<Vec<_>>(),
        strings(&["first", "ovf_CoinType", "vcloud_TestType"])
    );
    assert_eq!(mapping, vec![("application/vnd.ccouzens.test".to_string(), "vcloud_TestType".to_string())]);
}

#[test]
fn a_file_that_is_no_schema_stops_the_schemas() {
    let mut output: IndexMap<String, SchemaRef> = IndexMap::new();
    let files = vec![
        ("a.xsd".to_string(), VCLOUD.as_bytes().to_vec()),
        ("b.xsd".to_string(), br#"<xs:element xmlns:xs="http://www.w3.org/2001/XMLSchema" name="A"/>"#.to_vec()),
    ];
    let e = schemas(&mut output, files).unwrap_err();
    assert_eq!(e.file, "b.xsd");
}

#[test]
fn the_api_is_described() {
    assert_eq!(api_version("Version 34.0"), Some("34.0".to_string()));
    assert_eq!(api_version("  \t "), None);
    let c = CommonRes::from_html("<b>Version</b> 34.0", "&copy; VMware");
    assert_eq!(c.version_information, "**Version** 34.0");
    let i = info("VMware Cloud Director".to_string(), c);
    assert_eq!(i.title, "VMware Cloud Director");
    assert_eq!(i.version, "**Version** 34.0");
    let about = AboutInfo {
        prodname: "p".to_string(),
        version: "v".to_string(),
        user_tag: "For <i>users</i>".to_string(),
        admin_tag: "For admins".to_string(),
        extension_tag: "For the system".to_string(),
    };
    assert_eq!(
        tags(&about),
        vec![
            ("user".to_string(), "For *users*".to_string()),
            ("admin".to_string(), "For admins".to_string()),
            ("extension".to_string(), "For the system".to_string()),
        ]
    );
}
