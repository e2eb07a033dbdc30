use indexmap::IndexSet;
use transformer::operation::{
    get_content_element, get_content_media_type, merge_mimes, Method, MethodParseError,
    Operation, OperationParseError, QueryParameter,
};

fn page(h1: &str, entries: &str) -> String {
    format!(
        "<!DOCTYPE html><html><head><title>VMware Cloud Director API - Test</title></head><body><h1>{}</h1><dl>{}</dl></body></html>",
        h1, entries
    )
}

const PUT_TEST_ENTRIES: &str = r#"<dt>Operation:</dt><dd>PUT /admin/test/{id}</dd><dt>Description:</dt><dd>Update a test.</dd><dt>Since:</dt><dd>0.9</dd><dt>Input parameters</dt><dd><dl><dt>Consume media type(s):</dt><dd>application/vnd.vmware.admin.test+xml<br>application/vnd.vmware.admin.test+json<br></dd><dt>Input type:</dt><dd><a href="..//types/AdminTestType.html">AdminTestType</a></dd></dl></dd><dt>Query parameters</dt><dd><dl><dt>Parameter</dt><dd>force</dd><dt>Documentation</dt><dd>Documentation for force</dd><dt>Parameter</dt><dd>recursive</dd><dt>Documentation</dt><dd></dd></dl></dd><dt>Output parameters</dt><dd>AdminTestType<br><br>Extended description<dl><dt>Produce media type(s):</dt><dd>application/vnd.vmware.admin.testo+xml<br>application/vnd.vmware.admin.testo+json<br></dd><dt>Output type:</dt><dd><a href="..//types/AdminTestTypeO.html">AdminTestTypeO</a></dd></dl></dd><dt>Examples</dt><dd><dl></dl></dd>"#;

fn pairs(v: &[(&str, &str)]) -> IndexSet<(String, String)> {
    v.iter().map(|(a, b)| (a.to_string(), b.to_string())).collect()
}

#[test]
fn capture_content_multiple_media_types() {
    let actual = get_content_media_type("Content-Type:&nbsp;application/*+xml;version=5.5");
    assert_eq!(actual, Some("application/*+xml".to_string()));
}

#[test]
fn capture_content_vendor_specific_media_type() {
    let actual = get_content_media_type(
        "Content-Type:&nbsp;application/vnd.vmware.vcloud.query.querylist+xml;version=5.5",
    );
    assert_eq!(
        actual,
        Some("application/vnd.vmware.vcloud.query.querylist+xml".to_string())
    );
}

#[test]
fn merge_mimes_test() {
    let first_mimes: IndexSet<String> = [
        "application/vnd.vmware.vcloud.query.records+xml",
        "application/vnd.vmware.vcloud.query.records+json",
        "application/vnd.vmware.vcloud.query.idrecords+xml",
        "application/vnd.vmware.vcloud.query.idrecords+json",
        "application/vnd.vmware.vcloud.query.references+xml",
        "application/vnd.vmware.vcloud.query.references+json",
        "application/vnd.vmware.vcloud.query.queryList+xml",
        "application/vnd.vmware.vcloud.query.queryList+json",
    ]
    .iter()
    .map(|s| s.to_string())
    .collect();
    let second_mimes = pairs(&[
        ("application/vnd.vmware.vcloud.query.records+xml", "QueryResultRecords"),
        ("application/vnd.vmware.vcloud.query.idrecords+xml", "QueryResultRecords"),
        ("application/vnd.vmware.vcloud.query.references+xml", "VMReferences"),
        ("application/vnd.vmware.vcloud.query.queryList+xml", "QueryList"),
    ]);
    let actual = merge_mimes(&first_mimes, &second_mimes);
    assert_eq!(
        actual,
        pairs(&[
            ("application/vnd.vmware.vcloud.query.records+xml", "QueryResultRecords"),
            ("application/vnd.vmware.vcloud.query.records+json", ""),
            ("application/vnd.vmware.vcloud.query.idrecords+xml", "QueryResultRecords"),
            ("application/vnd.vmware.vcloud.query.idrecords+json", ""),
            ("application/vnd.vmware.vcloud.query.references+xml", "VMReferences"),
            ("application/vnd.vmware.vcloud.query.references+json", ""),
            ("application/vnd.vmware.vcloud.query.queryList+xml", "QueryList"),
            ("application/vnd.vmware.vcloud.query.queryList+json", ""),
        ])
    )
}

#[test]
fn merge_mimes_ignores_ascii_case_and_keeps_the_first_order() {
    let first: IndexSet<String> = ["b+xml", "A+XML"].iter().map(|s| s.to_string()).collect();
    let second = pairs(&[("a+xml", "ElementA"), ("B+XML", "ElementB")]);
    assert_eq!(
        merge_mimes(&first, &second),
        pairs(&[("b+xml", "ElementB"), ("A+XML", "ElementA")])
    );
    let empty: IndexSet<String> = IndexSet::new();
    assert!(merge_mimes(&empty, &second).is_empty());
}

#[test]
fn operation_parse_operation_test() {
    let actual = Operation::try_from(page("PUT /admin/test/{id}", PUT_TEST_ENTRIES).as_str()).unwrap();
    assert_eq!(
        actual,
        Operation {
            method: Method::Put,
            path: "/admin/test/{id}".into(),
            description: "Update a test.".into(),
            tag: "admin",
            request_contents: pairs(&[
                ("application/vnd.vmware.admin.test+xml", ""),
                ("application/vnd.vmware.admin.test+json", "")
            ]),
            response_description: Some("AdminTestType  \n\nExtended description".into()),
            response_contents: pairs(&[
                ("application/vnd.vmware.admin.testo+xml", ""),
                ("application/vnd.vmware.admin.testo+json", "")
            ]),
            basic_auth: false,
            deprecated: false,
            query_parameters: vec![
                QueryParameter {
                    name: "force".into(),
                    description: Some("Documentation for force".into())
                },
                QueryParameter {
                    name: "recursive".into(),
                    description: None
                }
            ]
        }
    )
}

const POST_LOGIN_ENTRIES: &str = r#"<dt>Operation:</dt><dd>POST /sessions</dd><dt>Description:</dt><dd>Log in.</dd><dt>Since:</dt><dd>1.5</dd><dt>Deprecated:</dt><dd>9.0</dd><dt>Output parameters</dt><dd><dl><dt>Produce media type(s):</dt><dd>application/vnd.vmware.vcloud.session+xml<br></dd><dt>Output type:</dt><dd><a href="..//types/SessionType.html">SessionType</a></dd></dl></dd><dt>Examples</dt><dd><dl><dt>Request</dt><dd>POST /sessions<br>Authorization:&nbsp;Basic dXNlckBvcmc6cGFzc3dvcmQ=<br></dd></dl></dd>"#;

#[test]
fn generate_schema_test_for_basic_auth() {
    let op = Operation::try_from(page("POST /sessions", POST_LOGIN_ENTRIES).as_str()).unwrap();
    let api = op.to_openapi("32.0", &vec![], &vec![]);
    assert_eq!(api.tags, vec!["user".to_string()]);
    assert_eq!(api.description, "Log in.");
    assert_eq!(api.response_description, "success");
    assert!(api.response_content.is_empty());
    assert_eq!(api.request_content, None);
    assert!(api.deprecated);
    assert_eq!(api.security, "basicAuth");
    assert!(api.parameters.is_empty());
}

const EXAMPLE_ENTRIES: &str = r#"<dt>Description:</dt><dd>Log in.</dd><dt>Deprecated:</dt><dd>9.0</dd><dt>Input parameters</dt><dd><dl><dt>Consume media type(s):</dt><dd>application/vnd.vmware.vcloud.session+xml<br>None<br></dd></dl></dd><dt>Output parameters</dt><dd>The session.</dd><dt>Examples</dt><dd><dl><dt>Request</dt><dd><pre>POST /sessions<br>Authorization:&nbsp;Basic abc<br>Content-Type:&nbsp;application/vnd.vmware.vcloud.session+xml;version=5.5</pre><div id="request-body-div"><span class="xml_bracket">&lt;</span><span class="xml_tag_name other">Session</span></div></dd><dt>Response</dt><dd>Content-Type:&nbsp;application/vnd.vmware.vcloud.session+xml<div id="response-body-div"><span class="xml_tag_name">SessionType</span></div></dd></dl></dd>"#;

#[test]
fn operation_with_examples_deprecation_and_basic_auth() {
    let op = Operation::try_from(page("POST /sessions", EXAMPLE_ENTRIES).as_str()).unwrap();
    assert_eq!(op.method, Method::Post);
    assert_eq!(op.tag, "user");
    assert!(op.basic_auth);
    assert!(op.deprecated);
    assert_eq!(op.description, "Log in.");
    assert_eq!(op.response_description, Some("The session.".to_string()));
    assert_eq!(
        op.request_contents,
        pairs(&[("application/vnd.vmware.vcloud.session+xml", "Session")])
    );
    assert!(op.response_contents.is_empty());
    assert!(op.query_parameters.is_empty());
}

#[test]
fn content_element_of_an_example() {
    assert_eq!(
        get_content_element(r#"<div id="response-body-div"><span class="a xml_tag_name">Name</span></div>"#),
        Some("Name".to_string())
    );
    assert_eq!(
        get_content_element(r#"<div id="other"><span class="xml_tag_name">Name</span></div>"#),
        None
    );
    assert_eq!(get_content_media_type("no media type here"), None);
}

#[test]
fn extension_paths_are_tagged_extension() {
    let op = Operation::try_from(page("GET /admin/extension/thing", "<dt>Description:</dt><dd>A thing.</dd>").as_str()).unwrap();
    assert_eq!(op.tag, "extension");
    assert_eq!(op.method, Method::Get);
    assert!(op.request_contents.is_empty());
}

#[test]
fn operation_errors() {
    let missing_method = Operation::try_from(page("", "<dt>Description:</dt><dd>d</dd>").as_str());
    assert!(matches!(missing_method, Err(OperationParseError::CannotFindMethodError)));
    let unknown = Operation::try_from(page("FETCH /x", "<dt>Description:</dt><dd>d</dd>").as_str());
    match unknown {
        Err(OperationParseError::MethodParseError(MethodParseError::UnknownMethodError(m))) => assert_eq!(m, "FETCH"),
        other => panic!("unexpected {:?}", other),
    }
    let no_path = Operation::try_from(page("DELETE", "<dt>Description:</dt><dd>d</dd>").as_str());
    assert!(matches!(no_path, Err(OperationParseError::CannotFindPathError)));
    let no_description = Operation::try_from(page("GET /x", "<dt>Since:</dt><dd>1</dd>").as_str());
    assert!(matches!(no_description, Err(OperationParseError::CannotFindDescriptionError)));
    let not_a_page = Operation::try_from("<html></html>");
    assert!(matches!(not_a_page, Err(OperationParseError::DetailPageParseError(_))));
}

#[test]
fn method_names() {
    assert_eq!(Method::from_str("GET").unwrap(), Method::Get);
    assert_eq!(Method::from_str("DELETE").unwrap(), Method::Delete);
    assert!(Method::from_str("get").is_err());
}

#[test]
fn generate_schema_test() {
    let op = Operation::try_from(page("PUT /admin/test/{id}", PUT_TEST_ENTRIES).as_str()).unwrap();
    let mapping = vec![
        ("application/vnd.vmware.admin.test".to_string(), "MyType".to_string()),
        ("application/vnd.vmware.admin.testo".to_string(), "MyTypeO".to_string()),
    ];
    let api = op.to_openapi("32.0", &mapping, &mapping);
    assert_eq!(api.tags, vec!["admin".to_string()]);
    assert_eq!(api.description, "Update a test.");
    assert_eq!(api.response_description, "AdminTestType  \n\nExtended description");
    assert_eq!(
        api.request_content,
        Some(vec![(
            "application/vnd.vmware.admin.test+json;version=32.0".to_string(),
            "#/components/schemas/MyType".to_string()
        )])
    );
    assert_eq!(
        api.response_content,
        vec![(
            "application/vnd.vmware.admin.testo+json;version=32.0".to_string(),
            "#/components/schemas/MyTypeO".to_string()
        )]
    );
    assert_eq!(api.security, "bearerAuth");
    assert!(!api.deprecated);
    assert_eq!(api.parameters.len(), 2);
    assert_eq!(api.parameters[0].name, "force");
    assert_eq!(api.parameters[0].description, Some("Documentation for force".to_string()));
    assert_eq!(api.parameters[0].schema_reference, "#/components/schemas/query-parameter_force");
    assert_eq!(api.parameters[1].description, None);
}

#[test]
fn operation_without_mappings_has_no_request_body() {
    let op = Operation::try_from(page("POST /sessions", EXAMPLE_ENTRIES).as_str()).unwrap();
    let api = op.to_openapi("32.0", &vec![], &vec![]);
    assert_eq!(api.request_content, None);
    assert!(api.response_content.is_empty());
    assert_eq!(api.response_description, "The session.");
    assert_eq!(api.security, "basicAuth");
    assert!(api.deprecated);
    let elements = vec![("Session".to_string(), "SessionType".to_string())];
    let op = Operation::try_from(page("POST /sessions", EXAMPLE_ENTRIES).as_str()).unwrap();
    let api = op.to_openapi("5.5", &vec![], &elements);
    assert_eq!(
        api.request_content,
        Some(vec![(
            "application/vnd.vmware.vcloud.session+json;version=5.5".to_string(),
            "#/components/schemas/SessionType".to_string()
        )])
    );
}

