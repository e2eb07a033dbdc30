//! The operation pages of the documentation: one REST operation each.
use vstd::prelude::*;

use indexmap::IndexSet;

use crate::detail_page::{
    detail_page_of, entries_view, page_section, page_section_node, find_view, lemma_entries_view_index, lemma_find_view,
    list_under, text_under, value_view, DefinitionList, DefinitionListValue, DetailPage,
    DetailPageFromStrError, DlValueView,
};
use crate::doc_type::{html_to_mimes, mimes_of};
use crate::html::{
    css_select_fragment, html_document_nodes, html_fragment_nodes, html_to_markdown, markdown_of,
    parse_document, parse_fragment, select_fragment,
};
use crate::index_set::{
    dedup, pair_set_from, pair_set_get, pair_set_items, pair_set_len, pair_set_new, string_set_from, string_set_get, string_set_items,
    string_set_len,
};
use crate::text::{
    contains_seq, contains_str, eq_ignore_ascii_case, find_seq_from, find_str, split_words,
    str_eq, str_eq_ignore_ascii_case, trim, trim_str, words,
};
use crate::openapi::{entries_insert, map_insert, pairs_view, opt_str, strs_view, ApiOperation, QueryParam};
use crate::tree::{attr, attr_of, opt_int, subtree_end, Document, Node, NodeData, NodeKind};

verus! {

/// An HTTP method of an operation.
#[derive(Debug, PartialEq, Eq, Structural, Clone, Copy)]
pub enum Method {
    Get,
    Post,
    Put,
    Delete,
}

/// Why a word is not an HTTP method.
#[derive(Debug)]
pub enum MethodParseError {
    UnknownMethodError(String),
}

/// The method that a word names.
pub open spec fn method_of(w: Seq<char>) -> Option<Method> {
    if w == "GET"@ {
        Some(Method::Get)
    } else if w == "POST"@ {
        Some(Method::Post)
    } else if w == "PUT"@ {
        Some(Method::Put)
    } else if w == "DELETE"@ {
        Some(Method::Delete)
    } else {
        None
    }
}

impl Method {
    /// The method that `s` names.
    pub fn from_str(s: &str) -> (r: Result<Method, MethodParseError>)
        ensures
            match r {
                Ok(m) => method_of(s@) == Some(m),
                Err(MethodParseError::UnknownMethodError(w)) => method_of(s@) is None && w@ == s@,
            },
    {
        if str_eq(s, "GET") {
            Ok(Method::Get)
        } else if str_eq(s, "POST") {
            Ok(Method::Post)
        } else if str_eq(s, "PUT") {
            Ok(Method::Put)
        } else if str_eq(s, "DELETE") {
            Ok(Method::Delete)
        } else {
            Err(MethodParseError::UnknownMethodError(String::from_str(s)))
        }
    }
}

/// A query parameter of an operation.
#[derive(Debug, PartialEq)]
pub struct QueryParameter {
    pub name: String,
    pub description: Option<String>,
}

/// A query parameter as plain sequences.
pub open spec fn query_parameter_view(q: QueryParameter) -> (Seq<char>, Option<Seq<char>>) {
    (
        q.name@,
        match q.description {
            Some(d) => Some(d@),
            None => None,
        },
    )
}

/// An operation as its documentation page describes it.
#[derive(Debug, PartialEq)]
pub struct Operation {
    pub method: Method,
    pub path: String,
    pub description: String,
    pub tag: &'static str,
    pub request_contents: IndexSet<(String, String)>,
    pub response_description: Option<String>,
    pub response_contents: IndexSet<(String, String)>,
    pub basic_auth: bool,
    pub deprecated: bool,
    pub query_parameters: Vec<QueryParameter>,
}

/// Why a page does not describe an operation.
#[derive(Debug)]
pub enum OperationParseError {
    DetailPageParseError(DetailPageFromStrError),
    CannotFindMethodError,
    MethodParseError(MethodParseError),
    CannotFindPathError,
    CannotFindDescriptionError,
}

// ----- what an operation page says -----
/// The first word of the heading, which names the method.
pub open spec fn method_word(h1: Seq<char>) -> Option<Seq<char>> {
    if words(h1).len() > 0 {
        Some(words(h1)[0])
    } else {
        None
    }
}

/// The path: what follows the first space of the heading.
pub open spec fn path_of(h1: Seq<char>) -> Option<Seq<char>> {
    match find_seq_from(h1, " "@, 0) {
        Some(i) => Some(h1.subrange(i + 1, h1.len() as int)),
        None => None,
    }
}

/// The description: the HTML under "Description:" as trimmed Markdown.
pub open spec fn description_of(es: Seq<(Seq<char>, DlValueView)>) -> Option<Seq<char>> {
    match text_under(es, "Description:"@) {
        Some(h) => Some(trim(markdown_of(h))),
        None => None,
    }
}

/// The tag of an operation on `path`.
pub open spec fn tag_of(path: Seq<char>) -> Seq<char> {
    if "/admin/extension"@.is_prefix_of(path) {
        "extension"@
    } else if "/admin"@.is_prefix_of(path) {
        "admin"@
    } else {
        "user"@
    }
}

/// The first text node in `[k, hi)`.
pub open spec fn first_text_from(ns: Seq<Node>, k: int, hi: int) -> Option<int>
    decreases hi - k,
{
    if k < 0 || k >= hi || k >= ns.len() {
        None
    } else if ns[k].data.kind == NodeKind::Text {
        Some(k)
    } else {
        first_text_from(ns, k + 1, hi)
    }
}

/// The first text below one of the elements `ks` from the `m`th on, taking
/// them in turn.
pub open spec fn first_text_among(ns: Seq<Node>, ks: Seq<int>, m: int) -> Option<Seq<char>>
    decreases ks.len() - m,
{
    if m < 0 || m >= ks.len() {
        None
    } else {
        match first_text_from(ns, ks[m] + 1, subtree_end(ns, ks[m])) {
            Some(t) => Some(ns[t].data.content@),
            None => first_text_among(ns, ks, m + 1),
        }
    }
}

/// The element that an example's body names: the first text below the
/// elements that `#response-body-div .xml_tag_name, #request-body-div
/// .xml_tag_name` selects in it.
pub open spec fn content_element_of(html: Seq<char>) -> Option<Seq<char>> {
    first_text_among(
        html_fragment_nodes(html),
        css_select_fragment(html, "#response-body-div .xml_tag_name, #request-body-div .xml_tag_name"@),
        0,
    )
}

/// What `regex::Regex::captures` matches in `text` for the pattern
/// `(application/(\*|(vnd\.vmware\.(?P<type>.+)))\+(xml|json))`: the whole
/// match.
pub uninterp spec fn media_type_match(text: Seq<char>) -> Option<Seq<char>>;

/// The media type and element of the examples under `key` (from the first
/// `hi` entries of the examples).
pub open spec fn example_pairs(ex: Seq<(Seq<char>, DlValueView)>, key: Seq<char>, hi: int) -> Seq<
    (Seq<char>, Seq<char>),
>
    decreases hi,
{
    if hi <= 0 || hi > ex.len() {
        Seq::empty()
    } else {
        let r = example_pairs(ex, key, hi - 1);
        let (k, v) = ex[hi - 1];
        if k == key && (k == "Request"@ || k == "Response"@) {
            match v {
                DlValueView::Text(l) => match (media_type_match(l), content_element_of(l)) {
                    (Some(m), Some(e)) => r.push((m, e)),
                    _ => r,
                },
                DlValueView::SubList(_) => r,
            }
        } else {
            r
        }
    }
}

/// The media types and elements of the examples under `key`, each once, when
/// the page has examples.
pub open spec fn examples_contents(es: Seq<(Seq<char>, DlValueView)>, key: Seq<char>) -> Option<
    Seq<(Seq<char>, Seq<char>)>,
> {
    match list_under(es, "Examples"@) {
        Some(ex) => Some(dedup(example_pairs(ex, key, ex.len() as int))),
        None => None,
    }
}

/// The element that the first media type of `second` equal to `mime`
/// (ignoring ASCII case) names, from index `k` on; empty when there is none.
pub open spec fn element_for(second: Seq<(Seq<char>, Seq<char>)>, mime: Seq<char>, k: int) -> Seq<
    char,
>
    decreases second.len() - k,
{
    if k < 0 || k >= second.len() {
        Seq::empty()
    } else if eq_ignore_ascii_case(mime, second[k].0) {
        second[k].1
    } else {
        element_for(second, mime, k + 1)
    }
}

/// Each media type of `first`, in order, with the element that `second`
/// names for it.
pub open spec fn merged(first: Seq<Seq<char>>, second: Seq<(Seq<char>, Seq<char>)>) -> Seq<
    (Seq<char>, Seq<char>),
> {
    first.map_values(|m: Seq<char>| (m, element_for(second, m, 0)))
}

/// The contents of a request or response: the media types listed under
/// `key` in the `section` list, each with the element that the examples
/// under `example_key` name for it; nothing when either part is missing.
pub open spec fn contents_of(
    es: Seq<(Seq<char>, DlValueView)>,
    section: Seq<char>,
    key: Seq<char>,
    example_key: Seq<char>,
) -> Seq<(Seq<char>, Seq<char>)> {
    match list_under(es, section) {
        Some(l) => match text_under(l, key) {
            Some(t) => match examples_contents(es, example_key) {
                Some(ex) => merged(dedup(mimes_of(t)), ex),
                None => Seq::empty(),
            },
            None => Seq::empty(),
        },
        None => Seq::empty(),
    }
}

/// The HTML of a section that comes before the list nested in it: the part
/// of its inner HTML `h` before the first `<dl`.
pub open spec fn lead_html(h: Seq<char>) -> Seq<char> {
    match find_seq_from(h, "<dl"@, 0) {
        Some(i) => h.subrange(0, i),
        None => h,
    }
}

/// The HTML that the output section of page `html` holds before the list
/// nested in it.
pub open spec fn output_lead_of(html: Seq<char>) -> Option<Seq<char>> {
    let ns = html_document_nodes(html);
    match page_section_node(html, "Output parameters"@) {
        Some(j) => if 0 <= j < ns.len() {
            Some(lead_html(ns[j].data.content@))
        } else {
            None
        },
        None => None,
    }
}

/// The description of the response, read from the section "Output
/// parameters" as trimmed Markdown: its HTML when it holds no nested list;
/// when it nests one, the HTML `lead` that comes before that list, and
/// nothing when that is empty.
pub open spec fn response_description_of(
    es: Seq<(Seq<char>, DlValueView)>,
    lead: Option<Seq<char>>,
) -> Option<Seq<char>> {
    match find_view(es, "Output parameters"@, 0) {
        Some(DlValueView::Text(h)) => Some(trim(markdown_of(h))),
        Some(DlValueView::SubList(_)) => match lead {
            Some(l) => if trim(markdown_of(l)).len() > 0 {
                Some(trim(markdown_of(l)))
            } else {
                None
            },
            None => None,
        },
        None => None,
    }
}

/// Whether the request example authenticates with HTTP basic authentication.
pub open spec fn basic_auth_of(es: Seq<(Seq<char>, DlValueView)>) -> bool {
    match list_under(es, "Examples"@) {
        Some(ex) => match text_under(ex, "Request"@) {
            Some(t) => contains_seq(t, "Authorization:&nbsp;Basic"@),
            None => false,
        },
        None => false,
    }
}

/// The state of the walk over the first `hi` entries of the query
/// parameters list: the name waiting for its documentation, and the
/// parameters so far.
pub open spec fn query_walk(qs: Seq<(Seq<char>, DlValueView)>, hi: int) -> (
    Option<Seq<char>>,
    Seq<(Seq<char>, Option<Seq<char>>)>,
)
    decreases hi,
{
    if hi <= 0 || hi > qs.len() {
        (None, Seq::empty())
    } else {
        let (name, acc) = query_walk(qs, hi - 1);
        let (k, v) = qs[hi - 1];
        match v {
            DlValueView::Text(t) => if k == "Parameter"@ {
                (Some(t), acc)
            } else if k == "Documentation"@ && name is Some {
                (
                    None,
                    acc.push(
                        (name.unwrap(), if t.len() == 0 {
                            None
                        } else {
                            Some(markdown_of(t))
                        }),
                    ),
                )
            } else {
                (name, acc)
            },
            DlValueView::SubList(_) => (name, acc),
        }
    }
}

/// The query parameters: each "Parameter" entry with the "Documentation"
/// entry that follows it.
pub open spec fn query_parameters_of(es: Seq<(Seq<char>, DlValueView)>) -> Seq<
    (Seq<char>, Option<Seq<char>>),
> {
    match list_under(es, "Query parameters"@) {
        Some(qs) => query_walk(qs, qs.len() as int).1,
        None => Seq::empty(),
    }
}

/// The parts of an operation that every page gives, whatever it holds.
pub open spec fn operation_parts(
    o: Operation,
    es: Seq<(Seq<char>, DlValueView)>,
    lead: Option<Seq<char>>,
) -> bool {
    &&& o.tag@ == tag_of(o.path@)
    &&& pair_set_items(o.request_contents) == contents_of(
        es,
        "Input parameters"@,
        "Consume media type(s):"@,
        "Request"@,
    )
    &&& match o.response_description {
        Some(d) => response_description_of(es, lead) == Some(d@),
        None => response_description_of(es, lead) is None,
    }
    &&& pair_set_items(o.response_contents) == contents_of(
        es,
        "Output parameters"@,
        "Produce media type(s):"@,
        "Response"@,
    )
    &&& o.basic_auth == basic_auth_of(es)
    &&& o.deprecated == find_view(es, "Deprecated:"@, 0) is Some
    &&& o.query_parameters@.map_values(|q: QueryParameter| query_parameter_view(q))
        == query_parameters_of(es)
}

/// Whether `r` is what the page with heading `h1` and definition list `es`
/// gives, `lead` being the HTML before the list nested in its output
/// section: the operation it describes, or the first thing it lacks.
pub open spec fn operation_outcome(
    h1: Seq<char>,
    es: Seq<(Seq<char>, DlValueView)>,
    lead: Option<Seq<char>>,
    r: Result<Operation, OperationParseError>,
) -> bool {
    match r {
        Ok(o) => {
            &&& method_word(h1) matches Some(w) && method_of(w) == Some(o.method)
            &&& path_of(h1) == Some(o.path@)
            &&& description_of(es) == Some(o.description@)
            &&& operation_parts(o, es, lead)
        },
        Err(OperationParseError::CannotFindMethodError) => method_word(h1) is None,
        Err(OperationParseError::MethodParseError(MethodParseError::UnknownMethodError(w))) => {
            method_word(h1) == Some(w@) && method_of(w@) is None
        },
        Err(OperationParseError::CannotFindPathError) => {
            &&& method_word(h1) matches Some(w) && method_of(w) is Some
            &&& path_of(h1) is None
        },
        Err(OperationParseError::CannotFindDescriptionError) => {
            &&& method_word(h1) matches Some(w) && method_of(w) is Some
            &&& path_of(h1) is Some
            &&& description_of(es) is None
        },
        Err(OperationParseError::DetailPageParseError(_)) => false,
    }
}

// ----- reading the parts -----
/// Runs `regex::Regex::captures` with the pattern
/// `(application/(\*|(vnd\.vmware\.(?P<type>.+)))\+(xml|json))` on `text`
/// and returns the whole match. The contract claims that the result depends
/// on `text` alone; what the pattern matches is left to the name.
#[verifier::external_body]
fn regex_media_type(text: &str) -> (r: Option<String>)
    ensures
        match r {
            Some(m) => media_type_match(text@) == Some(m@),
            None => media_type_match(text@) is None,
        },
{
    let re = regex::Regex::new(r"(application/(\*|(vnd\.vmware\.(?P<type>.+)))\+(xml|json))").unwrap();
    re.captures(text).and_then(|c| c.get(0).map(|m| m.as_str().to_string()))
}

/// The media type that an example's text declares.
pub fn get_content_media_type(text: &str) -> (r: Option<String>)
    ensures
        match r {
            Some(m) => media_type_match(text@) == Some(m@),
            None => media_type_match(text@) is None,
        },
{
    regex_media_type(text)
}

/// The first text node in `[k, hi)`.
fn first_text(doc: &Document, k: usize, hi: usize) -> (r: Option<usize>)
    requires
        hi <= doc.nodes@.len(),
    ensures
        opt_int(r) == first_text_from(doc.nodes@, k as int, hi as int),
        r matches Some(t) ==> k <= t < hi,
{
    let mut j = k;
    while j < hi
        invariant
            k <= j,
            hi <= doc.nodes@.len(),
            first_text_from(doc.nodes@, k as int, hi as int) == first_text_from(
                doc.nodes@,
                j as int,
                hi as int,
            ),
        decreases hi - j,
    {
        match doc.nodes[j].data.kind {
            NodeKind::Text => {
                return Some(j);
            },
            _ => {},
        }
        j = j + 1;
    }
    None
}

/// The element that an example's body names: the first text below the
/// XML tag names of its request or response body.
pub fn get_content_element(text: &str) -> (r: Option<String>)
    ensures
        match r {
            Some(e) => content_element_of(text@) == Some(e@),
            None => content_element_of(text@) is None,
        },
{
    let doc = parse_fragment(text);
    let ghost ns = doc.nodes@;
    let ks = select_fragment(text, "#response-body-div .xml_tag_name, #request-body-div .xml_tag_name");
    let ghost kv = ks@.map_values(|x: usize| x as int);
    let mut m: usize = 0;
    while m < ks.len()
        invariant
            ns == doc.nodes@,
            ns == html_fragment_nodes(text@),
            kv == ks@.map_values(|x: usize| x as int),
            kv == css_select_fragment(text@, "#response-body-div .xml_tag_name, #request-body-div .xml_tag_name"@),
            forall|j: int| 0 <= j < ks@.len() ==> #[trigger] ks@[j] < ns.len(),
            m <= ks@.len(),
            first_text_among(ns, kv, 0) == first_text_among(ns, kv, m as int),
        decreases ks@.len() - m,
    {
        let k = ks[m];
        assert(kv[m as int] == k as int);
        let end = doc.subtree_end(k);
        match first_text(&doc, k + 1, end) {
            Some(t) => {
                return Some(doc.nodes[t].data.content.clone());
            },
            None => {},
        }
        m = m + 1;
    }
    None
}

/// The media types and elements of the examples under `definition_key`, when
/// the page has examples.
fn get_content_media_types_from_examples(list: &DefinitionList, definition_key: &str) -> (r: Option<
    IndexSet<(String, String)>,
>)
    ensures
        match r {
            Some(s) => examples_contents(list.view(), definition_key@) == Some(pair_set_items(s)),
            None => examples_contents(list.view(), definition_key@) is None,
        },
{
    proof {
        lemma_find_view(list.0@, "Examples"@, 0);
    }
    let ex = match list.find("Examples") {
        Some(v) => match v.as_sublist() {
            Some(e) => e,
            None => {
                return None;
            },
        },
        None => {
            return None;
        },
    };
    let ghost exv = ex.view();
    proof {
        lemma_entries_view_index(ex.0@);
        reveal_strlit("Request");
        reveal_strlit("Response");
    }
    let mut pairs: Vec<(String, String)> = Vec::new();
    let mut k: usize = 0;
    while k < ex.0.len()
        invariant
            exv == ex.view(),
            exv.len() == ex.0@.len(),
            forall|j: int|
                0 <= j < ex.0@.len() ==> #[trigger] exv[j] == (ex.0@[j].0@, value_view(ex.0@[j].1)),
            k <= ex.0@.len(),
            pairs@.map_values(|x: (String, String)| (x.0@, x.1@)) == example_pairs(
                exv,
                definition_key@,
                k as int,
            ),
        decreases ex.0@.len() - k,
    {
        let key = &ex.0[k].0;
        let value = &ex.0[k].1;
        assert(exv[k as int] == (key@, value_view(*value)));
        if str_eq(key.as_str(), definition_key) && (str_eq(key.as_str(), "Request") || str_eq(
            key.as_str(),
            "Response",
        )) {
            match value.as_text() {
                Some(l) => {
                    let m = get_content_media_type(l);
                    let e = get_content_element(l);
                    match (m, e) {
                        (Some(m), Some(e)) => {
                            proof {
                                assert(pairs@.push((m, e)).map_values(
                                    |x: (String, String)| (x.0@, x.1@),
                                ) =~= pairs@.map_values(|x: (String, String)| (x.0@, x.1@)).push(
                                    (m@, e@),
                                ));
                            }
                            pairs.push((m, e));
                        },
                        _ => {},
                    }
                },
                None => {},
            }
        }
        k = k + 1;
    }
    Some(pair_set_from(pairs))
}

/// The element that the first pair of `second` whose media type equals
/// `mime` (ignoring ASCII case) names; empty when there is none.
fn element_for_mime(second: &IndexSet<(String, String)>, mime: &str) -> (r: String)
    ensures
        r@ == element_for(pair_set_items(*second), mime@, 0),
{
    let ghost items = pair_set_items(*second);
    let m = pair_set_len(second);
    let mut j: usize = 0;
    while j < m
        invariant
            items == pair_set_items(*second),
            m == items.len(),
            j <= m,
            element_for(items, mime@, 0) == element_for(items, mime@, j as int),
        decreases m - j,
    {
        match pair_set_get(second, j) {
            Some(pair) => {
                if str_eq_ignore_ascii_case(mime, pair.0.as_str()) {
                    return pair.1.clone();
                }
            },
            None => {},
        }
        j = j + 1;
    }
    String::new()
}

/// Pairs each media type of `first_mimes`, in order, with the element that
/// the first pair of `second_mimes` with the same media type (ignoring ASCII
/// case) names, or with an empty element.
pub fn merge_mimes(first_mimes: &IndexSet<String>, second_mimes: &IndexSet<(String, String)>) -> (r:
    IndexSet<(String, String)>)
    ensures
        pair_set_items(r) == merged(string_set_items(*first_mimes), pair_set_items(*second_mimes)),
        pair_set_items(r).len() == string_set_items(*first_mimes).len(),
{
    let ghost first = string_set_items(*first_mimes);
    let ghost second = pair_set_items(*second_mimes);
    let n = string_set_len(first_mimes);
    let mut out: Vec<(String, String)> = Vec::new();
    let mut i: usize = 0;
    while i < n
        invariant
            first == string_set_items(*first_mimes),
            second == pair_set_items(*second_mimes),
            n == first.len(),
            i <= n,
            out@.map_values(|x: (String, String)| (x.0@, x.1@)) == merged(first, second).take(
                i as int,
            ),
            i > 0 ==> first.no_duplicates(),
        decreases n - i,
    {
        match string_set_get(first_mimes, i) {
            Some(mime) => {
                let e = element_for_mime(second_mimes, mime.as_str());
                let m = mime.clone();
                proof {
                    assert(m@ == first[i as int]);
                    assert(merged(first, second)[i as int] == (m@, e@));
                    assert(out@.push((m, e)).map_values(|x: (String, String)| (x.0@, x.1@))
                        =~= out@.map_values(|x: (String, String)| (x.0@, x.1@)).push((m@, e@)));
                    assert(out@.push((m, e)).map_values(
                        |x: (String, String)| (x.0@, x.1@),
                    ) =~= merged(first, second).take(i + 1));
                }
                out.push((m, e));
            },
            None => {},
        }
        i = i + 1;
    }
    assert(merged(first, second).take(n as int) =~= merged(first, second));
    proof {
        if n == 0 {
            assert(first.no_duplicates());
        }
        lemma_merge_keeps_mimes(first, second);
    }
    pair_set_from(out)
}

/// The contents of a request or response, as `contents_of` says.
fn contents(list: &DefinitionList, section: &str, key: &str, example_key: &str) -> (r: IndexSet<
    (String, String),
>)
    ensures
        pair_set_items(r) == contents_of(list.view(), section@, key@, example_key@),
{
    proof {
        lemma_find_view(list.0@, section@, 0);
    }
    let l = match list.find(section) {
        Some(v) => match v.as_sublist() {
            Some(l) => l,
            None => {
                return pair_set_new();
            },
        },
        None => {
            return pair_set_new();
        },
    };
    proof {
        lemma_find_view(l.0@, key@, 0);
    }
    let t = match l.find(key) {
        Some(v) => match v.as_text() {
            Some(t) => t,
            None => {
                return pair_set_new();
            },
        },
        None => {
            return pair_set_new();
        },
    };
    let mimes = string_set_from(html_to_mimes(t));
    match get_content_media_types_from_examples(list, example_key) {
        Some(ex) => merge_mimes(&mimes, &ex),
        None => pair_set_new(),
    }
}

/// The query parameters of a page, as `query_parameters_of` says.
fn query_parameters(list: &DefinitionList) -> (r: Vec<QueryParameter>)
    ensures
        r@.map_values(|q: QueryParameter| query_parameter_view(q)) == query_parameters_of(
            list.view(),
        ),
{
    proof {
        lemma_find_view(list.0@, "Query parameters"@, 0);
    }
    let qs = match list.find("Query parameters") {
        Some(v) => match v.as_sublist() {
            Some(q) => q,
            None => {
                return Vec::new();
            },
        },
        None => {
            return Vec::new();
        },
    };
    let ghost qv = qs.view();
    proof {
        lemma_entries_view_index(qs.0@);
    }
    let mut name: Option<String> = None;
    let mut acc: Vec<QueryParameter> = Vec::new();
    let mut k: usize = 0;
    while k < qs.0.len()
        invariant
            qv == qs.view(),
            qv.len() == qs.0@.len(),
            forall|j: int|
                0 <= j < qs.0@.len() ==> #[trigger] qv[j] == (qs.0@[j].0@, value_view(qs.0@[j].1)),
            k <= qs.0@.len(),
            query_walk(qv, k as int) == (
                match name {
                    Some(n) => Some(n@),
                    None => None,
                },
                acc@.map_values(|q: QueryParameter| query_parameter_view(q)),
            ),
        decreases qs.0@.len() - k,
    {
        let key = &qs.0[k].0;
        let value = &qs.0[k].1;
        assert(qv[k as int] == (key@, value_view(*value)));
        match value.as_text() {
            Some(v) => {
                if str_eq(key.as_str(), "Parameter") {
                    name = Some(String::from_str(v));
                } else if str_eq(key.as_str(), "Documentation") {
                    match name {
                        Some(nm) => {
                            let description = if v.unicode_len() == 0 {
                                None
                            } else {
                                Some(html_to_markdown(v))
                            };
                            let q = QueryParameter { name: nm, description };
                            proof {
                                assert(acc@.push(q).map_values(
                                    |q: QueryParameter| query_parameter_view(q),
                                ) =~= acc@.map_values(
                                    |q: QueryParameter| query_parameter_view(q),
                                ).push(query_parameter_view(q)));
                            }
                            acc.push(q);
                            name = None;
                        },
                        None => {},
                    }
                }
            },
            None => {},
        }
        k = k + 1;
    }
    acc
}

/// Whether the request example authenticates with HTTP basic authentication.
fn basic_auth(list: &DefinitionList) -> (r: bool)
    ensures
        r == basic_auth_of(list.view()),
{
    proof {
        lemma_find_view(list.0@, "Examples"@, 0);
    }
    match list.find("Examples") {
        Some(v) => match v.as_sublist() {
            Some(d) => {
                proof {
                    lemma_find_view(d.0@, "Request"@, 0);
                }
                match d.find("Request") {
                    Some(x) => match x.as_text() {
                        Some(t) => contains_str(t, "Authorization:&nbsp;Basic"),
                        None => false,
                    },
                    None => false,
                }
            },
            None => false,
        },
        None => false,
    }
}

/// The HTML that the output section of page `html`, whose nodes `doc`
/// holds, holds before the list nested in it.
fn output_lead(html: &str, doc: &Document) -> (r: Option<String>)
    requires
        doc.nodes@ == html_document_nodes(html@),
    ensures
        opt_str(r) == output_lead_of(html@),
{
    match page_section(html, doc, "Output parameters") {
        Some(j) => {
            let h = doc.nodes[j].data.content.as_str();
            match find_str(h, "<dl") {
                Some(i) => {
                    proof {
                        reveal_strlit("<dl");
                        crate::text::lemma_find_bound(h@, "<dl"@, 0);
                    }
                    Some(String::from_str(h.substring_char(0, i)))
                },
                None => Some(String::from_str(h)),
            }
        },
        None => None,
    }
}

impl Operation {
    /// Reads an operation from its detail page: the method and the path from
    /// the heading, the rest from the definition list. A detail page keeps of
    /// a section that nests a list only that list, so an output section that
    /// nests one gives no description here; `try_from` reads it from the HTML.
    pub fn from_page(p: DetailPage) -> (r: Result<Operation, OperationParseError>)
        ensures
            operation_outcome(p.h1@, p.definition_list.view(), None, r),
    {
        Operation::from_parts(p, None)
    }

    /// Reads an operation from its detail page and `output_lead`, the HTML
    /// before the list nested in its output section.
    pub fn from_parts(p: DetailPage, output_lead: Option<String>) -> (r: Result<
        Operation,
        OperationParseError,
    >)
        ensures
            operation_outcome(p.h1@, p.definition_list.view(), opt_str(output_lead), r),
    {
        let ghost es = p.definition_list.view();
        let ws = split_words(p.h1.as_str());
        if ws.len() == 0 {
            return Err(OperationParseError::CannotFindMethodError);
        }
        assert(ws@.map_values(|x: String| x@)[0] == ws@[0]@);
        let method = match Method::from_str(ws[0].as_str()) {
            Ok(m) => m,
            Err(e) => {
                return Err(OperationParseError::MethodParseError(e));
            },
        };
        let n = p.h1.as_str().unicode_len();
        let path = match find_str(p.h1.as_str(), " ") {
            Some(i) => {
                proof {
                    reveal_strlit(" ");
                    crate::text::lemma_find_bound(p.h1@, " "@, 0);
                }
                String::from_str(p.h1.as_str().substring_char(i + 1, n))
            },
            None => {
                return Err(OperationParseError::CannotFindPathError);
            },
        };
        proof {
            lemma_find_view(p.definition_list.0@, "Description:"@, 0);
            lemma_find_view(p.definition_list.0@, "Output parameters"@, 0);
            lemma_find_view(p.definition_list.0@, "Deprecated:"@, 0);
        }
        let description = match p.definition_list.find("Description:") {
            Some(v) => match v.text_to_markdown() {
                Some(d) => d,
                None => {
                    return Err(OperationParseError::CannotFindDescriptionError);
                },
            },
            None => {
                return Err(OperationParseError::CannotFindDescriptionError);
            },
        };
        let tag = if crate::text::starts_with(path.as_str(), "/admin/extension") {
            "extension"
        } else if crate::text::starts_with(path.as_str(), "/admin") {
            "admin"
        } else {
            "user"
        };
        let request_contents = contents(
            &p.definition_list,
            "Input parameters",
            "Consume media type(s):",
            "Request",
        );
        let response_description = match p.definition_list.find("Output parameters") {
            Some(v) => match v {
                DefinitionListValue::Text(_) => v.text_to_markdown(),
                DefinitionListValue::SubList(_) => match output_lead {
                    Some(l) => {
                        let m = trim_str(html_to_markdown(l.as_str()).as_str());
                        if m.as_str().unicode_len() > 0 {
                            Some(m)
                        } else {
                            None
                        }
                    },
                    None => None,
                },
            },
            None => None,
        };
        let response_contents = contents(
            &p.definition_list,
            "Output parameters",
            "Produce media type(s):",
            "Response",
        );
        let basic_auth = basic_auth(&p.definition_list);
        let deprecated = p.definition_list.find("Deprecated:").is_some();
        let query_parameters = query_parameters(&p.definition_list);
        Ok(Operation {
            method,
            path,
            description,
            tag,
            request_contents,
            response_description,
            response_contents,
            basic_auth,
            deprecated,
            query_parameters,
        })
    }

    /// Reads an operation from the HTML of its detail page.
    pub fn try_from(html: &str) -> (r: Result<Operation, OperationParseError>)
        ensures
            match detail_page_of(html@) {
                Err(e) => r matches Err(OperationParseError::DetailPageParseError(e2)) && e2 == e,
                Ok((_, h1, es)) => operation_outcome(
                    h1,
                    es,
                    output_lead_of(html@),
                    r,
                ),
            },
    {
        let doc = parse_document(html);
        match DetailPage::from_document(html, &doc) {
            Ok(p) => {
                let lead = output_lead(html, &doc);
                Operation::from_parts(p, lead)
            },
            Err(e) => Err(OperationParseError::DetailPageParseError(e)),
        }
    }
}


/// Merging media types keeps the media types of the first list, each once and
/// in their order: the merged list is the first list with an element beside
/// each media type.
pub proof fn lemma_merge_keeps_mimes(first: Seq<Seq<char>>, second: Seq<(Seq<char>, Seq<char>)>)
    requires
        first.no_duplicates(),
    ensures
        dedup(merged(first, second)) == merged(first, second),
        merged(first, second).map_values(|p: (Seq<char>, Seq<char>)| p.0) == first,
{
    let m = merged(first, second);
    assert forall|i: int, j: int| 0 <= i < m.len() && 0 <= j < m.len() && i != j implies m[i] != m[j] by {
        assert(first[i] != first[j]);
    }
    crate::index_set::lemma_dedup_distinct(m);
    assert(m.map_values(|p: (Seq<char>, Seq<char>)| p.0) =~= first);
}


// ----- the operation in OpenAPI terms -----
/// `s` without the copies of `p` at its end (`str::trim_end_matches`).
pub open spec fn trim_end_all(s: Seq<char>, p: Seq<char>) -> Seq<char>
    decreases s.len(),
{
    if p.len() > 0 && crate::text::is_suffix(p, s) {
        trim_end_all(s.subrange(0, s.len() - p.len()), p)
    } else {
        s
    }
}

/// A media type without its `+json` and `+xml` endings.
pub open spec fn without_format(mime: Seq<char>) -> Seq<char> {
    trim_end_all(trim_end_all(mime, "+json"@), "+xml"@)
}

/// The value of the first entry of `m` whose key is `k`.
pub open spec fn lookup(m: Seq<(Seq<char>, Seq<char>)>, k: Seq<char>) -> Option<Seq<char>>
    decreases m.len(),
{
    if m.len() == 0 {
        None
    } else if m[0].0 == k {
        Some(m[0].1)
    } else {
        lookup(m.drop_first(), k)
    }
}

/// The JSON media type of `mime` at an API version.
pub open spec fn json_media_type(mime: Seq<char>, api_version: Seq<char>) -> Seq<char> {
    without_format(mime) + "+json;version="@ + api_version
}

/// The reference to a schema of the components.
pub open spec fn schema_reference(name: Seq<char>) -> Seq<char> {
    "#/components/schemas/"@ + name
}

/// The first index from `i` on of an entry whose key is `k`.
pub open spec fn first_key(m: Seq<(Seq<char>, Seq<char>)>, k: Seq<char>, i: int) -> Option<int>
    decreases m.len() - i,
{
    if i < 0 || i >= m.len() {
        None
    } else if m[i].0 == k {
        Some(i)
    } else {
        first_key(m, k, i + 1)
    }
}

/// Inserting into a map of media types, as plain sequences: an existing
/// media type takes the new schema in its place, a new one goes last.
pub open spec fn content_insert(m: Seq<(Seq<char>, Seq<char>)>, k: Seq<char>, v: Seq<char>) -> Seq<
    (Seq<char>, Seq<char>),
> {
    match first_key(m, k, 0) {
        Some(j) => m.update(j, (k, v)),
        None => m.push((k, v)),
    }
}

proof fn lemma_first_key(m: Seq<(String, String)>, k: Seq<char>, i: int)
    ensures
        crate::openapi::key_index(m, k, i) == first_key(pairs_view(m), k, i),
    decreases m.len() - i,
{
    if 0 <= i < m.len() {
        lemma_first_key(m, k, i + 1);
    }
}

/// The content entries of the media types `mimes` (the first `hi` of them):
/// those whose media type, without its format, `type_mapping` maps to a
/// schema, and then those whose element `element_mapping` maps to a schema.
pub open spec fn content_by_type(
    mimes: Seq<(Seq<char>, Seq<char>)>,
    hi: int,
    api_version: Seq<char>,
    type_mapping: Seq<(Seq<char>, Seq<char>)>,
    acc: Seq<(Seq<char>, Seq<char>)>,
) -> Seq<(Seq<char>, Seq<char>)>
    decreases hi,
{
    if hi <= 0 || hi > mimes.len() {
        acc
    } else {
        let r = content_by_type(mimes, hi - 1, api_version, type_mapping, acc);
        let mime = mimes[hi - 1].0;
        match lookup(type_mapping, without_format(mime)) {
            Some(t) => content_insert(r, json_media_type(mime, api_version), schema_reference(t)),
            None => r,
        }
    }
}

/// The content entries of the media types `mimes` (the first `hi` of them)
/// whose element `element_mapping` maps to a schema.
pub open spec fn content_by_element(
    mimes: Seq<(Seq<char>, Seq<char>)>,
    hi: int,
    api_version: Seq<char>,
    element_mapping: Seq<(Seq<char>, Seq<char>)>,
    acc: Seq<(Seq<char>, Seq<char>)>,
) -> Seq<(Seq<char>, Seq<char>)>
    decreases hi,
{
    if hi <= 0 || hi > mimes.len() {
        acc
    } else {
        let r = content_by_element(mimes, hi - 1, api_version, element_mapping, acc);
        let (mime, element) = mimes[hi - 1];
        match lookup(element_mapping, element) {
            Some(t) => content_insert(r, json_media_type(mime, api_version), schema_reference(t)),
            None => r,
        }
    }
}

/// The content of a request or response with the media types `mimes`.
pub open spec fn content_of(
    mimes: Seq<(Seq<char>, Seq<char>)>,
    api_version: Seq<char>,
    type_mapping: Seq<(Seq<char>, Seq<char>)>,
    element_mapping: Seq<(Seq<char>, Seq<char>)>,
) -> Seq<(Seq<char>, Seq<char>)> {
    let by_type = content_by_type(mimes, mimes.len() as int, api_version, type_mapping, Seq::empty());
    content_by_element(mimes, mimes.len() as int, api_version, element_mapping, by_type)
}

/// Whether the first entry of `m` with key `k` is `(k, v)`.
pub open spec fn content_holds(m: Seq<(Seq<char>, Seq<char>)>, k: Seq<char>, v: Seq<char>) -> bool {
    first_key(m, k, 0) matches Some(j) && m[j] == (k, v)
}

proof fn lemma_first_key_char(m: Seq<(Seq<char>, Seq<char>)>, k: Seq<char>, i: int)
    requires
        0 <= i,
    ensures
        first_key(m, k, i) matches Some(j) ==> i <= j < m.len() && m[j].0 == k && forall|a: int|
            i <= a < j ==> #[trigger] m[a].0 != k,
        first_key(m, k, i) is None ==> forall|a: int| i <= a < m.len() ==> #[trigger] m[a].0 != k,
    decreases m.len() - i,
{
    if 0 <= i < m.len() && m[i].0 != k {
        lemma_first_key_char(m, k, i + 1);
    }
}

proof fn lemma_first_key_at(m: Seq<(Seq<char>, Seq<char>)>, k: Seq<char>, i: int, j: int)
    requires
        0 <= i <= j < m.len(),
        m[j].0 == k,
        forall|a: int| i <= a < j ==> #[trigger] m[a].0 != k,
    ensures
        first_key(m, k, i) == Some(j),
    decreases j - i,
{
    if i < j {
        lemma_first_key_at(m, k, i + 1, j);
    }
}

/// Inserting `(k, v)` leaves `(k, v)` as the first entry with key `k`.
proof fn lemma_content_insert_holds(m: Seq<(Seq<char>, Seq<char>)>, k: Seq<char>, v: Seq<char>)
    ensures
        content_holds(content_insert(m, k, v), k, v),
{
    lemma_first_key_char(m, k, 0);
    let r = content_insert(m, k, v);
    match first_key(m, k, 0) {
        Some(j) => {
            assert forall|a: int| 0 <= a < j implies #[trigger] r[a].0 != k by {
                assert(r[a] == m[a]);
            }
            lemma_first_key_at(r, k, 0, j);
        },
        None => {
            assert forall|a: int| 0 <= a < m.len() implies #[trigger] r[a].0 != k by {
                assert(r[a] == m[a]);
            }
            lemma_first_key_at(r, k, 0, m.len() as int);
        },
    }
}

/// Inserting under another key keeps the first entry with key `k`.
proof fn lemma_content_insert_keeps(
    m: Seq<(Seq<char>, Seq<char>)>,
    k: Seq<char>,
    v: Seq<char>,
    k2: Seq<char>,
    v2: Seq<char>,
)
    requires
        k2 != k,
        content_holds(m, k, v),
    ensures
        content_holds(content_insert(m, k2, v2), k, v),
{
    lemma_first_key_char(m, k, 0);
    lemma_first_key_char(m, k2, 0);
    let j = first_key(m, k, 0).unwrap();
    let r = content_insert(m, k2, v2);
    assert(r[j] == m[j]);
    assert forall|a: int| 0 <= a < j implies #[trigger] r[a].0 != k by {
        if first_key(m, k2, 0) == Some(a) {
            assert(r[a].0 == k2);
        } else {
            assert(r[a] == m[a]);
        }
    }
    lemma_first_key_at(r, k, 0, j);
}

proof fn lemma_append_cancel(a: Seq<char>, b: Seq<char>, c: Seq<char>)
    requires
        a + c == b + c,
    ensures
        a == b,
{
    assert((a + c).len() == (b + c).len());
    assert(a =~= (a + c).subrange(0, a.len() as int));
    assert(b =~= (b + c).subrange(0, b.len() as int));
}

/// Each media type that the type mapping names, without its format, has
/// its content entry among the content by type: its JSON media type, with
/// the schema the mapping names.
proof fn lemma_content_by_type_holds(
    mimes: Seq<(Seq<char>, Seq<char>)>,
    hi: int,
    api_version: Seq<char>,
    type_mapping: Seq<(Seq<char>, Seq<char>)>,
    acc: Seq<(Seq<char>, Seq<char>)>,
    i: int,
)
    requires
        0 <= i < hi <= mimes.len(),
        lookup(type_mapping, without_format(mimes[i].0)) is Some,
    ensures
        content_holds(
            content_by_type(mimes, hi, api_version, type_mapping, acc),
            json_media_type(mimes[i].0, api_version),
            schema_reference(lookup(type_mapping, without_format(mimes[i].0)).unwrap()),
        ),
    decreases hi,
{
    let prev = content_by_type(mimes, hi - 1, api_version, type_mapping, acc);
    let k = json_media_type(mimes[i].0, api_version);
    let v = schema_reference(lookup(type_mapping, without_format(mimes[i].0)).unwrap());
    if i == hi - 1 {
        lemma_content_insert_holds(prev, k, v);
    } else {
        lemma_content_by_type_holds(mimes, hi - 1, api_version, type_mapping, acc, i);
        let m2 = mimes[hi - 1].0;
        match lookup(type_mapping, without_format(m2)) {
            Some(t2) => {
                let k2 = json_media_type(m2, api_version);
                if k2 == k {
                    lemma_append_cancel(
                        without_format(m2) + "+json;version="@,
                        without_format(mimes[i].0) + "+json;version="@,
                        api_version,
                    );
                    lemma_append_cancel(without_format(m2), without_format(mimes[i].0), "+json;version="@);
                    lemma_content_insert_holds(prev, k, v);
                } else {
                    lemma_content_insert_keeps(prev, k, v, k2, schema_reference(t2));
                }
            },
            None => {},
        }
    }
}

/// A media type ending in `+xml` (once), without its format, is what comes
/// before that ending.
proof fn lemma_without_format_xml(base: Seq<char>)
    requires
        !crate::text::is_suffix("+xml"@, base),
    ensures
        without_format(base + "+xml"@) == base,
{
    reveal_strlit("+xml");
    reveal_strlit("+json");
    let s = base + "+xml"@;
    assert(s[s.len() - 1] == 'l');
    if crate::text::is_suffix("+json"@, s) {
        assert(s.subrange(s.len() - 5, s.len() as int)[4] == s[s.len() - 1]);
        assert("+json"@[4] == 'n');
    }
    assert(trim_end_all(s, "+json"@) == s);
    assert(s.subrange(s.len() - 4, s.len() as int) =~= "+xml"@);
    assert(s.subrange(0, s.len() - 4) =~= base);
    assert(trim_end_all(base, "+xml"@) == base);
    assert(trim_end_all(s, "+xml"@) == trim_end_all(base, "+xml"@));
}

/// A media type `base+xml` whose `base` the type mapping maps to a schema
/// gets a content entry by type: the JSON media type `base+json;version=`
/// and the API version, referring to that schema. The mapping is looked up
/// without the format, so the XML and the JSON forms of a media type find
/// the same schema.
pub proof fn lemma_xml_media_type_content(
    mimes: Seq<(Seq<char>, Seq<char>)>,
    hi: int,
    api_version: Seq<char>,
    type_mapping: Seq<(Seq<char>, Seq<char>)>,
    acc: Seq<(Seq<char>, Seq<char>)>,
    i: int,
    base: Seq<char>,
    t: Seq<char>,
)
    requires
        0 <= i < hi <= mimes.len(),
        mimes[i].0 == base + "+xml"@,
        !crate::text::is_suffix("+xml"@, base),
        lookup(type_mapping, base) == Some(t),
    ensures
        content_holds(
            content_by_type(mimes, hi, api_version, type_mapping, acc),
            base + "+json;version="@ + api_version,
            "#/components/schemas/"@ + t,
        ),
{
    lemma_without_format_xml(base);
    lemma_content_by_type_holds(mimes, hi, api_version, type_mapping, acc, i);
}

proof fn lemma_content_by_no_element(
    mimes: Seq<(Seq<char>, Seq<char>)>,
    hi: int,
    api_version: Seq<char>,
    element_mapping: Seq<(Seq<char>, Seq<char>)>,
    acc: Seq<(Seq<char>, Seq<char>)>,
)
    requires
        element_mapping.len() == 0,
    ensures
        content_by_element(mimes, hi, api_version, element_mapping, acc) == acc,
    decreases hi,
{
    if 0 < hi <= mimes.len() {
        lemma_content_by_no_element(mimes, hi - 1, api_version, element_mapping, acc);
    }
}

/// With no element mapping, the content of a request or response that
/// lists a media type `base+xml` whose `base` the type mapping maps to a
/// schema holds the JSON media type of `base` at the API version, referring
/// to that schema.
pub proof fn lemma_xml_media_type_in_content(
    mimes: Seq<(Seq<char>, Seq<char>)>,
    api_version: Seq<char>,
    type_mapping: Seq<(Seq<char>, Seq<char>)>,
    element_mapping: Seq<(Seq<char>, Seq<char>)>,
    i: int,
    base: Seq<char>,
    t: Seq<char>,
)
    requires
        0 <= i < mimes.len(),
        mimes[i].0 == base + "+xml"@,
        !crate::text::is_suffix("+xml"@, base),
        lookup(type_mapping, base) == Some(t),
        element_mapping.len() == 0,
    ensures
        content_holds(
            content_of(mimes, api_version, type_mapping, element_mapping),
            base + "+json;version="@ + api_version,
            "#/components/schemas/"@ + t,
        ),
{
    let by_type = content_by_type(mimes, mimes.len() as int, api_version, type_mapping, Seq::empty());
    lemma_content_by_no_element(mimes, mimes.len() as int, api_version, element_mapping, by_type);
    lemma_xml_media_type_content(mimes, mimes.len() as int, api_version, type_mapping, Seq::empty(), i, base, t);
}

/// The OpenAPI query parameter of a query parameter, as plain sequences:
/// its name, its description and the reference to its schema.
pub open spec fn param_of(q: QueryParameter) -> (Seq<char>, Option<Seq<char>>, Seq<char>) {
    (q.name@, opt_str(q.description), schema_reference("query-parameter_"@ + q.name@))
}

/// A query parameter of the OpenAPI operation as plain sequences.
pub open spec fn query_param_view(q: QueryParam) -> (Seq<char>, Option<Seq<char>>, Seq<char>) {
    (q.name@, opt_str(q.description), q.schema_reference@)
}

/// `s` without the copies of `p` at its end.
fn trim_end_matching(s: &str, p: &str) -> (r: String)
    requires
        p@.len() > 0,
    ensures
        r@ == trim_end_all(s@, p@),
{
    let mut cur = String::from_str(s);
    while crate::text::ends_with(cur.as_str(), p)
        invariant
            p@.len() > 0,
            trim_end_all(cur@, p@) == trim_end_all(s@, p@),
        decreases cur@.len(),
    {
        let n = cur.as_str().unicode_len();
        let m = p.unicode_len();
        cur = String::from_str(cur.as_str().substring_char(0, n - m));
    }
    cur
}

/// The value that `m` maps `k` to.
fn lookup_entry(m: &Vec<(String, String)>, k: &str) -> (r: Option<String>)
    ensures
        opt_str(r) == lookup(pairs_view(m@), k@),
{
    let ghost mv = pairs_view(m@);
    assert(mv.subrange(0, mv.len() as int) =~= mv);
    let mut i: usize = 0;
    while i < m.len()
        invariant
            mv == pairs_view(m@),
            i <= m@.len(),
            lookup(mv, k@) == lookup(mv.subrange(i as int, mv.len() as int), k@),
        decreases m@.len() - i,
    {
        assert(mv.subrange(i as int, mv.len() as int).drop_first() =~= mv.subrange(
            i + 1,
            mv.len() as int,
        ));
        if str_eq(m[i].0.as_str(), k) {
            return Some(m[i].1.clone());
        }
        i = i + 1;
    }
    assert(mv.subrange(i as int, mv.len() as int) =~= Seq::<(Seq<char>, Seq<char>)>::empty());
    None
}

/// The content entry of a media type mapped to the schema `t`.
fn content_entry(mime: &str, api_version: &str, t: &str) -> (r: (String, String))
    ensures
        r.0@ == json_media_type(mime@, api_version@),
        r.1@ == schema_reference(t@),
{
    proof {
        reveal_strlit("+json");
        reveal_strlit("+xml");
    }
    let a = trim_end_matching(mime, "+json");
    let b = trim_end_matching(a.as_str(), "+xml");
    let c = crate::text::concat(b.as_str(), "+json;version=");
    (crate::text::concat(c.as_str(), api_version), crate::text::concat("#/components/schemas/", t))
}

proof fn lemma_content_insert(m: Seq<(String, String)>, k: String, v: String)
    ensures
        pairs_view(map_insert(m, k, v)) == content_insert(pairs_view(m), k@, v@),
{
    lemma_first_key(m, k@, 0);
    crate::openapi::lemma_key_index_bound(m, k@, 0);
    assert(pairs_view(map_insert(m, k, v)) =~= content_insert(pairs_view(m), k@, v@));
}

/// The content of a request or response with the media types `mimes`.
fn content(
    mimes: &IndexSet<(String, String)>,
    api_version: &str,
    type_mapping: &Vec<(String, String)>,
    element_mapping: &Vec<(String, String)>,
) -> (r: Vec<(String, String)>)
    ensures
        pairs_view(r@) == content_of(
            pair_set_items(*mimes),
            api_version@,
            pairs_view(type_mapping@),
            pairs_view(element_mapping@),
        ),
{
    let ghost items = pair_set_items(*mimes);
    let ghost tm = pairs_view(type_mapping@);
    let ghost em = pairs_view(element_mapping@);
    proof {
        reveal_strlit("+json");
        reveal_strlit("+xml");
    }
    let n = pair_set_len(mimes);
    let mut out: Vec<(String, String)> = Vec::new();
    let mut i: usize = 0;
    while i < n
        invariant
            items == pair_set_items(*mimes),
            tm == pairs_view(type_mapping@),
            n == items.len(),
            i <= n,
            pairs_view(out@) == content_by_type(items, i as int, api_version@, tm, Seq::empty()),
        decreases n - i,
    {
        proof {
            reveal_strlit("+json");
            reveal_strlit("+xml");
        }
        match pair_set_get(mimes, i) {
            Some(pair) => {
                let a = trim_end_matching(pair.0.as_str(), "+json");
                let b = trim_end_matching(a.as_str(), "+xml");
                match lookup_entry(type_mapping, b.as_str()) {
                    Some(t) => {
                        let (k, v) = content_entry(pair.0.as_str(), api_version, t.as_str());
                        proof {
                            lemma_content_insert(out@, k, v);
                        }
                        entries_insert(&mut out, k, v);
                    },
                    None => {},
                }
            },
            None => {},
        }
        i = i + 1;
    }
    let ghost by_type = pairs_view(out@);
    let mut i: usize = 0;
    while i < n
        invariant
            items == pair_set_items(*mimes),
            em == pairs_view(element_mapping@),
            n == items.len(),
            i <= n,
            pairs_view(out@) == content_by_element(items, i as int, api_version@, em, by_type),
        decreases n - i,
    {
        match pair_set_get(mimes, i) {
            Some(pair) => {
                match lookup_entry(element_mapping, pair.1.as_str()) {
                    Some(t) => {
                        let (k, v) = content_entry(pair.0.as_str(), api_version, t.as_str());
                        proof {
                            lemma_content_insert(out@, k, v);
                        }
                        entries_insert(&mut out, k, v);
                    },
                    None => {},
                }
            },
            None => {},
        }
        i = i + 1;
    }
    out
}

/// The OpenAPI operation of `o`, as plain sequences: whether `r` is it.
pub open spec fn is_api_operation(
    o: Operation,
    api_version: Seq<char>,
    tm: Seq<(Seq<char>, Seq<char>)>,
    em: Seq<(Seq<char>, Seq<char>)>,
    r: ApiOperation,
) -> bool {
    let request = content_of(pair_set_items(o.request_contents), api_version, tm, em);
    &&& r.description@ == o.description@
    &&& strs_view(r.tags@) == seq![o.tag@]
    &&& r.response_description@ == match o.response_description {
        Some(d) => d@,
        None => "success"@,
    }
    &&& pairs_view(r.response_content@) == content_of(
        pair_set_items(o.response_contents),
        api_version,
        tm,
        em,
    )
    &&& match r.request_content {
        Some(c) => request.len() > 0 && pairs_view(c@) == request,
        None => request.len() == 0,
    }
    &&& r.security@ == if o.basic_auth {
        "basicAuth"@
    } else {
        "bearerAuth"@
    }
    &&& r.deprecated == o.deprecated
    &&& r.parameters@.map_values(|q: QueryParam| query_param_view(q))
        == o.query_parameters@.map_values(|q: QueryParameter| param_of(q))
}

impl Operation {
    /// The OpenAPI operation of this operation at an API version: the media
    /// types of its request and response become JSON media types of that
    /// version, each referring to the schema that `type_mapping` (by media
    /// type) or `element_mapping` (by element) names.
    pub fn to_openapi(
        self,
        api_version: &str,
        type_mapping: &Vec<(String, String)>,
        element_mapping: &Vec<(String, String)>,
    ) -> (r: ApiOperation)
        ensures
            is_api_operation(
                self,
                api_version@,
                pairs_view(type_mapping@),
                pairs_view(element_mapping@),
                r,
            ),
    {
        let request = content(&self.request_contents, api_version, type_mapping, element_mapping);
        let response_content = content(
            &self.response_contents,
            api_version,
            type_mapping,
            element_mapping,
        );
        let request_content = if request.len() == 0 {
            None
        } else {
            Some(request)
        };
        let response_description = match self.response_description {
            Some(d) => d,
            None => String::from_str("success"),
        };
        let security = if self.basic_auth {
            String::from_str("basicAuth")
        } else {
            String::from_str("bearerAuth")
        };
        let mut tags: Vec<String> = Vec::new();
        tags.push(String::from_str(self.tag));
        proof {
            assert(strs_view(tags@) =~= seq![self.tag@]);
        }
        let ghost qs = self.query_parameters@;
        let mut parameters: Vec<QueryParam> = Vec::new();
        let mut k: usize = 0;
        let n = self.query_parameters.len();
        let qps = self.query_parameters;
        for qp in it: qps
            invariant
                qs == it.seq(),
                parameters@.map_values(|q: QueryParam| query_param_view(q)) == qs.take(
                    it.index() as int,
                ).map_values(|q: QueryParameter| param_of(q)),
        {
            let r0 = crate::text::concat("query-parameter_", qp.name.as_str());
            let r1 = crate::text::concat("#/components/schemas/", r0.as_str());
            let ghost pv = param_of(qp);
            let p = QueryParam { name: qp.name, description: qp.description, schema_reference: r1 };
            proof {
                assert(query_param_view(p) == pv);
                assert(qs.take(it.index() + 1) =~= qs.take(it.index() as int).push(qs[it.index() as int]));
                assert(qs[it.index() as int] == qp);
                assert(qs.take(it.index() + 1).map_values(|q: QueryParameter| param_of(q)) =~= qs.take(
                    it.index() as int,
                ).map_values(|q: QueryParameter| param_of(q)).push(pv));
                assert(parameters@.push(p).map_values(|q: QueryParam| query_param_view(q)) =~= qs.take(
                    it.index() + 1,
                ).map_values(|q: QueryParameter| param_of(q)));
            }
            parameters.push(p);
        }
        proof {
            assert(qs.take(qs.len() as int) =~= qs);
        }
        ApiOperation {
            description: self.description,
            tags,
            response_description,
            response_content,
            request_content,
            security,
            deprecated: self.deprecated,
            parameters,
        }
    }
}

} // verus!
