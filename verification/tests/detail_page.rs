use transformer::detail_page::{
    DefinitionList, DefinitionListFromElError, DefinitionListValue, DetailPage,
    DetailPageFromStrError,
};

const PUT_TEST_HTML: &str = r#"<!DOCTYPE html><html><head><title>VMware Cloud Director API - PUT-Test</title></head><body><h1>PUT /admin/test/{id}</h1><dl><dt>Operation:</dt><dd>PUT /admin/test/{id}</dd><dt>Description:</dt><dd>Update a test.</dd><dt>Since:</dt><dd>0.9</dd><dt>Input parameters</dt><dd><dl><dt>Consume media type(s):</dt><dd>application/vnd.vmware.admin.test+xml<br>application/vnd.vmware.admin.test+json<br></dd><dt>Input type:</dt><dd><a href="..//types/AdminTestType.html">AdminTestType</a></dd></dl></dd><dt>Query parameters</dt><dd><dl><dt>Parameter</dt><dd>force</dd><dt>Documentation</dt><dd>Documentation for force</dd><dt>Parameter</dt><dd>recursive</dd><dt>Documentation</dt><dd></dd></dl></dd><dt>Output parameters</dt><dd>AdminTestType<br><br>Extended description<dl><dt>Produce media type(s):</dt><dd>application/vnd.vmware.admin.testo+xml<br>application/vnd.vmware.admin.testo+json<br></dd><dt>Output type:</dt><dd><a href="..//types/AdminTestTypeO.html">AdminTestTypeO</a></dd></dl></dd><dt>Examples</dt><dd><dl></dl></dd></dl></body></html>"#;

fn text(s: &str) -> DefinitionListValue {
    DefinitionListValue::Text(s.to_string())
}

fn sub(entries: Vec<(&str, DefinitionListValue)>) -> DefinitionListValue {
    DefinitionListValue::SubList(Box::new(DefinitionList(
        entries.into_iter().map(|(k, v)| (k.to_string(), v)).collect(),
    )))
}

#[test]
fn detail_page_parse_operation_test() {
    let actual = DetailPage::try_from(PUT_TEST_HTML).unwrap();
    assert_eq!(
        actual,
        DetailPage {
            title: "VMware Cloud Director API - PUT-Test".into(),
            h1: "PUT /admin/test/{id}".into(),
            definition_list: DefinitionList(vec![
                ("Operation:".into(), text("PUT /admin/test/{id}")),
                ("Description:".into(), text("Update a test.")),
                ("Since:".into(), text("0.9")),
                (
                    "Input parameters".into(),
                    sub(vec![
                        (
                            "Consume media type(s):",
                            text("application/vnd.vmware.admin.test+xml<br>application/vnd.vmware.admin.test+json<br>")
                        ),
                        (
                            "Input type:",
                            text("<a href=\"..//types/AdminTestType.html\">AdminTestType</a>")
                        ),
                    ])
                ),
                (
                    "Query parameters".into(),
                    sub(vec![
                        ("Parameter", text("force")),
                        ("Documentation", text("Documentation for force")),
                        ("Parameter", text("recursive")),
                        ("Documentation", text("")),
                    ])
                ),
                (
                    "Output parameters".into(),
                    sub(vec![
                        (
                            "Produce media type(s):",
                            text("application/vnd.vmware.admin.testo+xml<br>application/vnd.vmware.admin.testo+json<br>")
                        ),
                        (
                            "Output type:",
                            text("<a href=\"..//types/AdminTestTypeO.html\">AdminTestTypeO</a>")
                        ),
                    ])
                ),
                ("Examples".into(), sub(vec![])),
            ])
        }
    )
}

#[test]
fn find_gives_the_first_value_under_a_key() {
    let page = DetailPage::try_from(PUT_TEST_HTML).unwrap();
    let qp = page.definition_list.find("Query parameters").unwrap().as_sublist().unwrap();
    assert_eq!(qp.find("Parameter").unwrap().as_text(), Some("force"));
    assert!(page.definition_list.find("Nothing:").is_none());
    assert_eq!(page.definition_list.find("Since:").unwrap().as_text(), Some("0.9"));
    assert!(page.definition_list.find("Since:").unwrap().as_sublist().is_none());
}

#[test]
fn filter_gives_every_value_under_a_key() {
    let page = DetailPage::try_from(PUT_TEST_HTML).unwrap();
    let qp = page.definition_list.find("Query parameters").unwrap().as_sublist().unwrap();
    let docs = qp.filter("Documentation");
    assert_eq!(docs.len(), 2);
    assert_eq!(docs[0].as_text(), Some("Documentation for force"));
    assert_eq!(docs[1].as_text(), Some(""));
    assert!(qp.filter("Missing").is_empty());
}

#[test]
fn value_text_as_markdown_and_inner_text() {
    let v = DefinitionListValue::Text("<b>bold</b> text".to_string());
    assert_eq!(v.text_to_markdown(), Some("**bold** text".to_string()));
    assert_eq!(v.to_inner_text(), Some("bold text".to_string()));
    let l = DefinitionListValue::SubList(Box::new(DefinitionList(vec![])));
    assert_eq!(l.text_to_markdown(), None);
    assert_eq!(l.to_inner_text(), None);
}

#[test]
fn page_without_title_is_refused() {
    let r = DetailPage::try_from("<html><body><h1>x</h1><dl></dl></body></html>");
    assert!(matches!(r, Err(DetailPageFromStrError::TitleNotFound)));
}

#[test]
fn page_without_heading_is_refused() {
    let r = DetailPage::try_from("<html><head><title>t</title></head><body><dl></dl></body></html>");
    assert!(matches!(r, Err(DetailPageFromStrError::H1NotFound)));
}

#[test]
fn page_without_list_is_refused() {
    let r = DetailPage::try_from("<html><head><title>t</title></head><body><h1>x</h1><p>no list</p></body></html>");
    assert!(matches!(r, Err(DetailPageFromStrError::DlNotFound)));
}

#[test]
fn value_without_title_is_refused() {
    let r = DetailPage::try_from(
        "<html><head><title>t</title></head><body><h1>x</h1><dl><dd>orphan</dd></dl></body></html>",
    );
    assert!(matches!(
        r,
        Err(DetailPageFromStrError::DefinitionListParseError(DefinitionListFromElError::UnexpectedEntry))
    ));
}

#[test]
fn nested_list_under_metadata_type() {
    let page = DetailPage::try_from(
        "<html><head><title>t</title></head><body><h1>x</h1><dl><dt>Meta</dt><dd><MetadataType><dl><dt>a</dt><dd>b</dd></dl></MetadataType></dd></dl></body></html>",
    )
    .unwrap();
    assert_eq!(
        page.definition_list,
        DefinitionList(vec![("Meta".to_string(), sub(vec![("a", text("b"))]))])
    );
}

#[test]
fn filter_over_two_lists_joined() {
    let a = || vec![("k".to_string(), text("1")), ("x".to_string(), text("2"))];
    let b = || vec![("k".to_string(), text("3")), ("k".to_string(), text("4"))];
    let mut both = a();
    both.extend(b());
    let joined = DefinitionList(both);
    let la = DefinitionList(a());
    let lb = DefinitionList(b());
    let mut apart: Vec<&DefinitionListValue> = la.filter("k");
    apart.extend(lb.filter("k"));
    assert_eq!(joined.filter("k"), apart);
    assert_eq!(joined.filter("k").len(), 3);
}

#[test]
fn find_is_the_first_that_filter_gives() {
    let l = DefinitionList(vec![
        ("a".to_string(), text("1")),
        ("k".to_string(), text("2")),
        ("k".to_string(), text("3")),
    ]);
    assert_eq!(l.find("k"), l.filter("k").first().copied());
    assert_eq!(l.find("k"), Some(&text("2")));
    assert_eq!(l.find("missing"), None);
    assert!(l.filter("missing").is_empty());
}
