use transformer::about::{self, AboutInfo};
use transformer::doc_type::{html_to_mimes, Type, TypeParseError};
use transformer::landing::{HtmlParseError, LandingOperations, RouteError};
use transformer::query::{Query, QueryParseError};

fn page(h1: &str, entries: &str) -> String {
    format!(
        "<!DOCTYPE html><html><head><title>VMware Cloud Director API - {}</title></head><body><h1>{}</h1><dl>{}</dl></body></html>",
        h1, h1, entries
    )
}

#[test]
fn query_page_gives_the_type_name() {
    let html = page(
        "adminVApp",
        "<dt>Type Name:</dt><dd>adminVApp</dd><dt>Description:</dt><dd>A query.</dd>",
    );
    let q = Query::try_from(&html).unwrap();
    assert_eq!(q.name, "adminVApp");
}

#[test]
fn query_page_without_type_name_is_refused() {
    let html = page("adminVApp", "<dt>Description:</dt><dd>A query.</dd>");
    assert!(matches!(Query::try_from(&html), Err(QueryParseError::CannotFindTypeName)));
}

#[test]
fn query_from_a_page_that_is_not_a_detail_page_is_refused() {
    assert!(matches!(
        Query::try_from("<html><body><p>nothing</p></body></html>"),
        Err(QueryParseError::DetailPageParseError(_))
    ));
}

#[test]
fn type_page_is_read() {
    let html = page(
        "VAppType",
        &["<dt>Element:</dt><dd>VApp, VAppTemplate ,VApp</dd>", "<dt>Type:</dt><dd>VAppType</dd>", "<dt>Namespace:</dt><dd><a href=\"x\">http://www.vmware.com/vcloud/v1.5</a></dd>", "<dt>Description:</dt><dd>Represents a <b>vApp</b>.</dd>", "<dt>Media type(s):</dt><dd>application/vnd.vmware.vcloud.vApp+xml<br>None<br>application/vnd.vmware.vcloud.vApp+xml<br></dd>", "<dt>Extends:</dt><dd><a href=\"../types/ResourceEntityType.html\">ResourceEntityType</a></dd>"].concat(),
    );
    let t = Type::try_from(&html).unwrap();
    assert_eq!(t.type_label, "VAppType");
    assert_eq!(t.name, "vcloud_VAppType");
    assert_eq!(
        t.elements.iter().cloned().collect::<Vec<String>>(),
        vec!["VApp".to_string(), "VAppTemplate".to_string()]
    );
    assert_eq!(t.namespace, "http://www.vmware.com/vcloud/v1.5");
    assert_eq!(t.description, "Represents a <b>vApp</b>.");
    assert_eq!(
        t.media_types.unwrap().iter().cloned().collect::<Vec<String>>(),
        vec!["application/vnd.vmware.vcloud.vApp+xml".to_string()]
    );
    assert_eq!(t.extends, "ResourceEntityType");
}

#[test]
fn type_page_with_elements_and_other_namespaces() {
    let html = page(
        "EnvelopeType",
        &["<dt>Elements:</dt><dd>Envelope</dd>", "<dt>Namespace:</dt><dd>http://schemas.dmtf.org/ovf/envelope/1</dd>"].concat(),
    );
    let t = Type::try_from(&html).unwrap();
    assert_eq!(t.name, "ovf_EnvelopeType");
    assert_eq!(t.media_types, None);
    assert_eq!(t.extends, "");
    assert_eq!(t.description, "");
    let plain = Type::try_from(&page("XType", "<dt>Element:</dt><dd>X</dd>")).unwrap();
    assert_eq!(plain.name, "XType");
    let ext = Type::try_from(&page(
        "YType",
        "<dt>Element:</dt><dd>Y</dd><dt>Namespace:</dt><dd>http://www.vmware.com/vcloud/extension/v1.5</dd>",
    ))
    .unwrap();
    assert_eq!(ext.name, "vcloud-ext_YType");
    let ver = Type::try_from(&page(
        "ZType",
        "<dt>Element:</dt><dd>Z</dd><dt>Namespace:</dt><dd>http://www.vmware.com/vcloud/versions</dd>",
    ))
    .unwrap();
    assert_eq!(ver.name, "versioning_ZType");
}

#[test]
fn type_page_without_elements_is_refused() {
    let html = page("VAppType", "<dt>Namespace:</dt><dd>n</dd>");
    assert!(matches!(Type::try_from(&html), Err(TypeParseError::CannotFindElementsError)));
}

#[test]
fn mimes_leave_out_empty_lines_and_none() {
    assert_eq!(
        html_to_mimes("a+xml<br>None<br><br>b+json<br>"),
        vec!["a+xml".to_string(), "b+json".to_string()]
    );
    assert_eq!(html_to_mimes(""), Vec::<String>::new());
}

const LANDING: &str = r#"<html><head><title>Operations</title></head><body>
<h2>  All Operations </h2>
<table>
<tr><th>Operation</th><th>Description</th></tr>
<tr><td><a href=" operations/GET-Test.html ">GET /test/{id}</a></td><td>Get a <i>test</i>.</td></tr>
<tr><td><a href="operations/PUT-Test.html">PUT   /admin/test/{id}</a></td><td>Update a test.</td></tr>
</table></body></html>"#;

#[test]
fn landing_page_lists_its_operations() {
    let l = LandingOperations::parse(LANDING).unwrap();
    assert_eq!(l.subtitle, "All Operations");
    assert_eq!(l.raws.len(), 2);
    assert_eq!(l.raws[0].href, "operations/GET-Test.html");
    assert_eq!(l.raws[0].route, "GET /test/{id}");
    assert_eq!(l.raws[0].description, "Get atest.");
    assert_eq!(l.raws[0].method(), Ok("GET".to_string()));
    assert_eq!(l.raws[0].path(), Ok("/test/{id}".to_string()));
    assert_eq!(l.raws[1].method(), Ok("PUT".to_string()));
    assert_eq!(l.raws[1].path(), Ok("/admin/test/{id}".to_string()));
}

#[test]
fn landing_page_without_heading_is_refused() {
    let html = LANDING.replace("<h2>  All Operations </h2>", "");
    assert_eq!(LandingOperations::parse(&html).err(), Some(HtmlParseError::NotFound));
}

#[test]
fn route_without_path_or_method() {
    let html = LANDING.replace("PUT   /admin/test/{id}", "PUT");
    let l = LandingOperations::parse(&html).unwrap();
    assert_eq!(l.raws[1].method(), Ok("PUT".to_string()));
    assert_eq!(l.raws[1].path(), Err(RouteError::FailedToGetPath));
    let html = LANDING.replace("PUT   /admin/test/{id}", "  ");
    let l = LandingOperations::parse(&html).unwrap();
    assert_eq!(l.raws[1].method(), Err(RouteError::FailedToGetMethod));
}

const ABOUT: &str = r#"<html><head>
<meta name="prodname" content="VMware Cloud Director">
<meta name="version" content="API 34.0">
</head><body><div class="section"><table class="DefinitionList">
<tr><td class="ddterm">User</td><td class="dddef">Operations for <b>users</b></td></tr>
<tr><td class="ddterm">Admin</td><td class="dddef">Operations for admins</td></tr>
<tr><td class="ddterm">Extension</td><td class="dddef">Operations for the system</td></tr>
</table></div></body></html>"#;

#[test]
fn about_page_is_read() {
    let a: AboutInfo = about::parse(ABOUT).unwrap();
    assert_eq!(a.prodname, "VMware Cloud Director");
    assert_eq!(a.version, "API 34.0");
    assert_eq!(a.user_tag, "Operations forusers");
    assert_eq!(a.admin_tag, "Operations for admins");
    assert_eq!(a.extension_tag, "Operations for the system");
}

#[test]
fn about_page_without_version_is_refused() {
    let html = ABOUT.replace(r#"<meta name="version" content="API 34.0">"#, "");
    assert!(matches!(about::parse(&html), Err(HtmlParseError::NotFound)));
}
