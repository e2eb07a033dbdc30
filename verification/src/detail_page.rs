//! The detail pages of the documentation: a title, a heading and a
//! definition list (`dl`) whose values are HTML or nested definition lists.
use vstd::prelude::*;

use crate::html::{
    css_select_document, css_select_within, html_document_nodes, html_fragment_nodes,
    html_to_markdown, markdown_of, parse_document, parse_fragment, select_document, select_within,
};
use crate::text::{trim, trim_str, str_eq};
use crate::tree::{Document, Node, opt_int, is_element_named, node_text, subtree_end};

verus! {

/// A definition list: its entries in order, each a title and a value.
#[derive(Debug, PartialEq)]
pub struct DefinitionList(pub Vec<(String, DefinitionListValue)>);

/// Why a `dl` element is not a definition list.
#[derive(Debug)]
pub enum DefinitionListFromElError {
    SelectorParseError(String),
    UnexpectedEntry,
    DefinitionListValueError(DefinitionListValueFromElError),
}

/// The value of an entry of a definition list: the inner HTML of its `dd`,
/// or the definition list nested in it.
#[derive(Debug, PartialEq)]
pub enum DefinitionListValue {
    Text(String),
    SubList(Box<DefinitionList>),
}

/// Why a `dd` element holds no value.
#[derive(Debug)]
pub enum DefinitionListValueFromElError {
    SelectorParseError(String),
    DefinitionListParseError(Box<DefinitionListFromElError>),
    MissingHrefError,
}

/// A detail page: the text of its `title`, the text of its first `h1` and
/// its definition list.
#[derive(Debug, PartialEq)]
pub struct DetailPage {
    pub title: String,
    pub h1: String,
    pub definition_list: DefinitionList,
}

/// Why a page is not a detail page.
#[derive(Debug)]
pub enum DetailPageFromStrError {
    SelectorParseError(String),
    TitleNotFound,
    H1NotFound,
    DlNotFound,
    DefinitionListParseError(DefinitionListFromElError),
}

// ----- the model of a definition list -----
/// A definition list value as plain sequences.
pub enum DlValueView {
    Text(Seq<char>),
    SubList(Seq<(Seq<char>, DlValueView)>),
}

/// The entries of a definition list as plain sequences.
pub open spec fn entries_view(es: Seq<(String, DefinitionListValue)>) -> Seq<(Seq<char>, DlValueView)>
    decreases es,
{
    if es.len() == 0 {
        Seq::empty()
    } else {
        let last = es[es.len() - 1];
        entries_view(es.subrange(0, es.len() - 1)).push((last.0@, value_view(last.1)))
    }
}

/// A definition list value as plain sequences.
pub open spec fn value_view(v: DefinitionListValue) -> DlValueView
    decreases v,
{
    match v {
        DefinitionListValue::Text(s) => DlValueView::Text(s@),
        DefinitionListValue::SubList(b) => DlValueView::SubList(entries_view(b.0@)),
    }
}

impl DefinitionList {
    pub open spec fn view(&self) -> Seq<(Seq<char>, DlValueView)> {
        entries_view(self.0@)
    }
}

// ----- reading definition lists from a page -----
/// The walk over the first `m` of the elements `ks` that the definition
/// list of element `i` of page `html` is read from (its `dt` and `dd`
/// children): the title waiting for its `dd`, and the entries so far.
pub open spec fn dl_walk(html: Seq<char>, i: int, ks: Seq<int>, m: int) -> Result<
    (Option<Seq<char>>, Seq<(Seq<char>, DlValueView)>),
    DefinitionListFromElError,
>
    decreases html_document_nodes(html).len() - i, m,
{
    let ns = html_document_nodes(html);
    if m <= 0 || m > ks.len() {
        Ok((None, Seq::empty()))
    } else {
        match dl_walk(html, i, ks, m - 1) {
            Err(e) => Err(e),
            Ok((title, acc)) => {
                let k = ks[m - 1];
                if 0 <= i < k < ns.len() && is_element_named(ns[k], "dt"@) {
                    Ok((Some(node_text(ns, k)), acc))
                } else if 0 <= i < k < ns.len() && is_element_named(ns[k], "dd"@) && title is Some {
                    match dd_value(html, k) {
                        Ok(v) => Ok((None, acc.push((title.unwrap(), v)))),
                        Err(e) => Err(DefinitionListFromElError::DefinitionListValueError(e)),
                    }
                } else {
                    Err(DefinitionListFromElError::UnexpectedEntry)
                }
            },
        }
    }
}

/// The value of `dd` element `j` of page `html`: the definition list of the
/// first element that `:scope > dl, :scope > MetadataType > dl` selects below
/// it, when that is a `dl`; else its inner HTML.
pub open spec fn dd_value(html: Seq<char>, j: int) -> Result<DlValueView, DefinitionListValueFromElError>
    decreases html_document_nodes(html).len() - j, 0int,
{
    let ns = html_document_nodes(html);
    let ks = css_select_within(html, j, ":scope > dl, :scope > MetadataType > dl"@);
    if ks.len() > 0 && 0 <= j < ks[0] < ns.len() && is_element_named(ns[ks[0]], "dl"@) {
        match dl_of(html, ks[0]) {
            Ok(l) => Ok(DlValueView::SubList(l)),
            Err(e) => Err(DefinitionListValueFromElError::DefinitionListParseError(Box::new(e))),
        }
    } else {
        Ok(DlValueView::Text(ns[j].data.content@))
    }
}

/// The entries of the definition list of `dl` element `i` of page `html`,
/// read from what `:scope > dt, :scope > dd` selects below it.
pub open spec fn dl_of(html: Seq<char>, i: int) -> Result<Seq<(Seq<char>, DlValueView)>, DefinitionListFromElError>
    decreases html_document_nodes(html).len() - i, css_select_within(html, i, ":scope > dt, :scope > dd"@).len() + 1,
{
    let ks = css_select_within(html, i, ":scope > dt, :scope > dd"@);
    match dl_walk(html, i, ks, ks.len() as int) {
        Ok((_, acc)) => Ok(acc),
        Err(e) => Err(e),
    }
}

/// The detail page of `html`: the text of the first element that `title`
/// selects, that of the first that `h1` selects, and the definition list of
/// the first that `body > dl` selects.
pub open spec fn detail_page_of(html: Seq<char>) -> Result<
    (Seq<char>, Seq<char>, Seq<(Seq<char>, DlValueView)>),
    DetailPageFromStrError,
> {
    let ns = html_document_nodes(html);
    let ts = css_select_document(html, "title"@);
    let hs = css_select_document(html, "h1"@);
    let ds = css_select_document(html, "body > dl"@);
    if ts.len() == 0 {
        Err(DetailPageFromStrError::TitleNotFound)
    } else if hs.len() == 0 {
        Err(DetailPageFromStrError::H1NotFound)
    } else if ds.len() == 0 {
        Err(DetailPageFromStrError::DlNotFound)
    } else {
        match dl_of(html, ds[0]) {
            Ok(l) => Ok((node_text(ns, ts[0]), node_text(ns, hs[0]), l)),
            Err(e) => Err(DetailPageFromStrError::DefinitionListParseError(e)),
        }
    }
}

/// The walk over the first `m` of the elements `ks` of a definition list in
/// search of the `dd` of the first entry titled `key`: the title waiting for
/// its `dd`, and that `dd` once found.
pub open spec fn section_walk(ns: Seq<Node>, ks: Seq<int>, m: int, key: Seq<char>) -> (
    Option<Seq<char>>,
    Option<int>,
)
    decreases m,
{
    if m <= 0 || m > ks.len() {
        (None, None)
    } else {
        let (title, found) = section_walk(ns, ks, m - 1, key);
        let k = ks[m - 1];
        if is_element_named(ns[k], "dt"@) {
            (Some(node_text(ns, k)), found)
        } else if is_element_named(ns[k], "dd"@) {
            match title {
                Some(t) => (None, if found is None && t == key {
                    Some(k)
                } else {
                    found
                }),
                None => (None, found),
            }
        } else {
            (title, found)
        }
    }
}

/// The `dd` element of the first entry titled `key` in the definition list
/// of page `html`.
pub open spec fn page_section_node(html: Seq<char>, key: Seq<char>) -> Option<int> {
    let ds = css_select_document(html, "body > dl"@);
    if ds.len() > 0 {
        let ks = css_select_within(html, ds[0], ":scope > dt, :scope > dd"@);
        section_walk(html_document_nodes(html), ks, ks.len() as int, key).1
    } else {
        None
    }
}

/// A detail page as plain sequences.
pub open spec fn page_view(r: Result<DetailPage, DetailPageFromStrError>) -> Result<
    (Seq<char>, Seq<char>, Seq<(Seq<char>, DlValueView)>),
    DetailPageFromStrError,
> {
    match r {
        Ok(p) => Ok((p.title@, p.h1@, p.definition_list.view())),
        Err(e) => Err(e),
    }
}

proof fn lemma_entries_view_push(es: Seq<(String, DefinitionListValue)>, e: (String, DefinitionListValue))
    ensures
        entries_view(es.push(e)) == entries_view(es).push((e.0@, value_view(e.1))),
{
    assert(es.push(e).subrange(0, es.len() as int) =~= es);
}

proof fn lemma_walk_err(html: Seq<char>, i: int, ks: Seq<int>, m: int, hi: int)
    requires
        0 <= m <= hi <= ks.len(),
        dl_walk(html, i, ks, m) is Err,
    ensures
        dl_walk(html, i, ks, hi) == dl_walk(html, i, ks, m),
    decreases hi - m,
{
    if hi > m {
        lemma_walk_err(html, i, ks, m, hi - 1);
    }
}

impl DefinitionListValue {
    /// Reads the value of `dd` element `j` of page `html`, whose nodes `doc`
    /// holds.
    pub fn from_node(html: &str, doc: &Document, j: usize) -> (r: Result<DefinitionListValue, DefinitionListValueFromElError>)
        requires
            doc.nodes@ == html_document_nodes(html@),
            j < doc.nodes@.len(),
        ensures
            match r {
                Ok(v) => dd_value(html@, j as int) == Ok::<DlValueView, DefinitionListValueFromElError>(value_view(v)),
                Err(e) => dd_value(html@, j as int) == Err::<DlValueView, DefinitionListValueFromElError>(e),
            },
        decreases doc.nodes@.len() - j, 0int,
    {
        let ks = select_within(html, j, ":scope > dl, :scope > MetadataType > dl");
        proof {
            assert(ks@.len() > 0 ==> ks@.map_values(|x: usize| x as int)[0] == ks@[0] as int);
            if ks@.len() > 0 {
                assert(ks@[0] < subtree_end(doc.nodes@, j as int));
                crate::tree::lemma_subtree_end_bound(doc.nodes@, j as int);
            }
        }
        if ks.len() > 0 && doc.is_named(ks[0], "dl") {
            match DefinitionList::from_node(html, doc, ks[0]) {
                Ok(l) => Ok(DefinitionListValue::SubList(Box::new(l))),
                Err(e) => Err(
                    DefinitionListValueFromElError::DefinitionListParseError(Box::new(e)),
                ),
            }
        } else {
            Ok(DefinitionListValue::Text(doc.nodes[j].data.content.clone()))
        }
    }

    /// The value as Markdown, when it is HTML.
    pub fn text_to_markdown(&self) -> (r: Option<String>)
        ensures
            match self {
                DefinitionListValue::Text(h) => r is Some && r.unwrap()@ == trim(markdown_of(h@)),
                DefinitionListValue::SubList(_) => r is None,
            },
    {
        match self.as_text() {
            Some(h) => Some(trim_str(html_to_markdown(h).as_str())),
            None => None,
        }
    }

    /// The text of the value, when it is HTML: the text of its fragment.
    pub fn to_inner_text(&self) -> (r: Option<String>)
        ensures
            match self {
                DefinitionListValue::Text(h) => r is Some && r.unwrap()@ == fragment_text(h@),
                DefinitionListValue::SubList(_) => r is None,
            },
    {
        match self {
            DefinitionListValue::Text(h) => {
                let doc = parse_fragment(h.as_str());
                if doc.nodes.len() > 0 {
                    Some(doc.text(0))
                } else {
                    Some(String::new())
                }
            },
            DefinitionListValue::SubList(_) => None,
        }
    }

    /// The value, when it is HTML.
    pub fn as_text(&self) -> (r: Option<&str>)
        ensures
            match self {
                DefinitionListValue::Text(h) => r is Some && r.unwrap()@ == h@,
                DefinitionListValue::SubList(_) => r is None,
            },
    {
        match self {
            DefinitionListValue::Text(html) => Some(html.as_str()),
            DefinitionListValue::SubList(_) => None,
        }
    }

    /// The value, when it is a nested list.
    pub fn as_sublist(&self) -> (r: Option<&DefinitionList>)
        ensures
            match self {
                DefinitionListValue::Text(_) => r is None,
                DefinitionListValue::SubList(b) => r == Some(&**b),
            },
    {
        match self {
            DefinitionListValue::Text(_) => None,
            DefinitionListValue::SubList(b) => Some(&**b),
        }
    }
}

/// The first value under `key` among the entries from `k` on.
pub open spec fn find_from(es: Seq<(String, DefinitionListValue)>, key: Seq<char>, k: int) -> Option<
    DefinitionListValue,
>
    decreases es.len() - k,
{
    if k < 0 || k >= es.len() {
        None
    } else if es[k].0@ == key {
        Some(es[k].1)
    } else {
        find_from(es, key, k + 1)
    }
}

/// The values under `key` among the first `hi` entries, in order.
pub open spec fn filter_upto(es: Seq<(String, DefinitionListValue)>, key: Seq<char>, hi: int) -> Seq<
    DefinitionListValue,
>
    decreases hi,
{
    if hi <= 0 {
        Seq::empty()
    } else {
        let r = filter_upto(es, key, hi - 1);
        if es[hi - 1].0@ == key {
            r.push(es[hi - 1].1)
        } else {
            r
        }
    }
}

/// The text of an HTML fragment.
pub open spec fn fragment_text(h: Seq<char>) -> Seq<char> {
    let ns = html_fragment_nodes(h);
    if ns.len() > 0 {
        node_text(ns, 0)
    } else {
        Seq::empty()
    }
}

/// The first value under `key` among the entries from `k` on, as plain
/// sequences.
pub open spec fn find_view(es: Seq<(Seq<char>, DlValueView)>, key: Seq<char>, k: int) -> Option<
    DlValueView,
>
    decreases es.len() - k,
{
    if k < 0 || k >= es.len() {
        None
    } else if es[k].0 == key {
        Some(es[k].1)
    } else {
        find_view(es, key, k + 1)
    }
}

/// The HTML under `key`, when the first value under it is HTML.
pub open spec fn text_under(es: Seq<(Seq<char>, DlValueView)>, key: Seq<char>) -> Option<Seq<char>> {
    match find_view(es, key, 0) {
        Some(DlValueView::Text(h)) => Some(h),
        _ => None,
    }
}

/// The nested list under `key`, when the first value under it is a list.
pub open spec fn list_under(es: Seq<(Seq<char>, DlValueView)>, key: Seq<char>) -> Option<
    Seq<(Seq<char>, DlValueView)>,
> {
    match find_view(es, key, 0) {
        Some(DlValueView::SubList(l)) => Some(l),
        _ => None,
    }
}

pub proof fn lemma_entries_view_index(es: Seq<(String, DefinitionListValue)>)
    ensures
        entries_view(es).len() == es.len(),
        forall|k: int|
            0 <= k < es.len() ==> #[trigger] entries_view(es)[k] == (es[k].0@, value_view(es[k].1)),
    decreases es.len(),
{
    if es.len() > 0 {
        lemma_entries_view_index(es.subrange(0, es.len() - 1));
    }
}

/// Searching the entries and then viewing the value is searching the view.
pub proof fn lemma_find_view(es: Seq<(String, DefinitionListValue)>, key: Seq<char>, k: int)
    ensures
        match find_from(es, key, k) {
            Some(v) => find_view(entries_view(es), key, k) == Some(value_view(v)),
            None => find_view(entries_view(es), key, k) is None,
        },
    decreases es.len() - k,
{
    lemma_entries_view_index(es);
    if 0 <= k < es.len() && es[k].0@ != key {
        lemma_find_view(es, key, k + 1);
    }
}

proof fn lemma_filter_prefix(a: Seq<(String, DefinitionListValue)>, b: Seq<(String, DefinitionListValue)>, key: Seq<char>, i: int)
    requires
        0 <= i <= a.len(),
    ensures
        filter_upto(a + b, key, i) == filter_upto(a, key, i),
    decreases i,
{
    if i > 0 {
        lemma_filter_prefix(a, b, key, i - 1);
        assert((a + b)[i - 1] == a[i - 1]);
    }
}

proof fn lemma_filter_suffix(a: Seq<(String, DefinitionListValue)>, b: Seq<(String, DefinitionListValue)>, key: Seq<char>, j: int)
    requires
        0 <= j <= b.len(),
    ensures
        filter_upto(a + b, key, a.len() + j) == filter_upto(a, key, a.len() as int) + filter_upto(b, key, j),
    decreases j,
{
    if j == 0 {
        lemma_filter_prefix(a, b, key, a.len() as int);
        assert(filter_upto(a, key, a.len() as int) + filter_upto(b, key, 0) =~= filter_upto(a, key, a.len() as int));
    } else {
        lemma_filter_suffix(a, b, key, j - 1);
        assert((a + b)[a.len() + j - 1] == b[j - 1]);
        let x = filter_upto(a, key, a.len() as int);
        let y = filter_upto(b, key, j - 1);
        assert((x + y).push(b[j - 1].1) =~= x + y.push(b[j - 1].1));
    }
}

/// Filtering a list made of two lists gives what filtering each gives, the
/// values of the first list before those of the second.
pub proof fn lemma_filter_concat(a: DefinitionList, b: DefinitionList, key: Seq<char>)
    ensures
        filter_upto(a.0@ + b.0@, key, (a.0@ + b.0@).len() as int) == filter_upto(
            a.0@,
            key,
            a.0@.len() as int,
        ) + filter_upto(b.0@, key, b.0@.len() as int),
{
    lemma_filter_suffix(a.0@, b.0@, key, b.0@.len() as int);
}

proof fn lemma_find_none(es: Seq<(String, DefinitionListValue)>, key: Seq<char>, k: int)
    requires
        0 <= k,
    ensures
        find_from(es, key, k) is None <==> forall|i: int| k <= i < es.len() ==> es[i].0@ != key,
    decreases es.len() - k,
{
    if k < es.len() {
        lemma_find_none(es, key, k + 1);
    }
}

proof fn lemma_find_at(es: Seq<(String, DefinitionListValue)>, key: Seq<char>, k: int, m: int)
    requires
        0 <= k <= m < es.len(),
        es[m].0@ == key,
        forall|j: int| k <= j < m ==> es[j].0@ != key,
    ensures
        find_from(es, key, k) == Some(es[m].1),
    decreases m - k,
{
    if k < m {
        lemma_find_at(es, key, k + 1, m);
    }
}

proof fn lemma_filter_first(es: Seq<(String, DefinitionListValue)>, key: Seq<char>, hi: int)
    requires
        0 <= hi <= es.len(),
    ensures
        filter_upto(es, key, hi).len() == 0 <==> forall|i: int| 0 <= i < hi ==> es[i].0@ != key,
        filter_upto(es, key, hi).len() > 0 ==> find_from(es, key, 0) == Some(filter_upto(es, key, hi)[0]),
    decreases hi,
{
    if hi > 0 {
        lemma_filter_first(es, key, hi - 1);
        let r = filter_upto(es, key, hi - 1);
        if r.len() == 0 && es[hi - 1].0@ == key {
            lemma_find_at(es, key, 0, hi - 1);
        }
        if r.len() == 0 && es[hi - 1].0@ != key {
            assert forall|i: int| 0 <= i < hi implies es[i].0@ != key by {
                if i < hi - 1 {
                    assert(0 <= i < hi - 1);
                }
            }
        }
    }
}

/// `find` gives the first value that `filter` gives, and nothing exactly
/// when no entry has the key.
pub proof fn lemma_find_first_of_filter(l: DefinitionList, key: Seq<char>)
    ensures
        find_from(l.0@, key, 0) == if filter_upto(l.0@, key, l.0@.len() as int).len() > 0 {
            Some(filter_upto(l.0@, key, l.0@.len() as int)[0])
        } else {
            None::<DefinitionListValue>
        },
        find_from(l.0@, key, 0) is None <==> forall|i: int| 0 <= i < l.0@.len() ==> l.0@[i].0@ != key,
{
    lemma_filter_first(l.0@, key, l.0@.len() as int);
    lemma_find_none(l.0@, key, 0);
}

impl DefinitionList {
    /// The first value under `search_key`.
    pub fn find<'a>(&'a self, search_key: &str) -> (r: Option<&'a DefinitionListValue>)
        ensures
            match r {
                Some(v) => find_from(self.0@, search_key@, 0) == Some(*v),
                None => find_from(self.0@, search_key@, 0) is None,
            },
    {
        let mut k: usize = 0;
        while k < self.0.len()
            invariant
                k <= self.0@.len(),
                find_from(self.0@, search_key@, 0) == find_from(self.0@, search_key@, k as int),
            decreases self.0@.len() - k,
        {
            if str_eq(search_key, self.0[k].0.as_str()) {
                return Some(&self.0[k].1);
            }
            k = k + 1;
        }
        None
    }

    /// The values under `search_key`, in order.
    pub fn filter<'a>(&'a self, search_key: &str) -> (r: Vec<&'a DefinitionListValue>)
        ensures
            r@.len() == filter_upto(self.0@, search_key@, self.0@.len() as int).len(),
            forall|j: int|
                0 <= j < r@.len() ==> *r@[j] == #[trigger] filter_upto(
                    self.0@,
                    search_key@,
                    self.0@.len() as int,
                )[j],
    {
        let mut r: Vec<&'a DefinitionListValue> = Vec::new();
        let mut k: usize = 0;
        while k < self.0.len()
            invariant
                k <= self.0@.len(),
                r@.len() == filter_upto(self.0@, search_key@, k as int).len(),
                forall|j: int|
                    0 <= j < r@.len() ==> *r@[j] == #[trigger] filter_upto(
                        self.0@,
                        search_key@,
                        k as int,
                    )[j],
            decreases self.0@.len() - k,
        {
            if str_eq(search_key, self.0[k].0.as_str()) {
                r.push(&self.0[k].1);
            }
            k = k + 1;
        }
        r
    }

    /// Reads the definition list of `dl` element `i` of page `html`, whose
    /// nodes `doc` holds: what `:scope > dt, :scope > dd` selects below it, in
    /// order, each `dt` giving the title of the `dd` that follows it.
    pub fn from_node(html: &str, doc: &Document, i: usize) -> (r: Result<DefinitionList, DefinitionListFromElError>)
        requires
            doc.nodes@ == html_document_nodes(html@),
            i < doc.nodes@.len(),
        ensures
            match r {
                Ok(l) => dl_of(html@, i as int) == Ok::<Seq<(Seq<char>, DlValueView)>, DefinitionListFromElError>(l.view()),
                Err(e) => dl_of(html@, i as int) == Err::<Seq<(Seq<char>, DlValueView)>, DefinitionListFromElError>(e),
            },
        decreases doc.nodes@.len() - i, 1int,
    {
        let ghost ns = doc.nodes@;
        let ks = select_within(html, i, ":scope > dt, :scope > dd");
        let ghost kv = ks@.map_values(|x: usize| x as int);
        proof {
            crate::tree::lemma_subtree_end_bound(ns, i as int);
        }
        let mut title: Option<String> = None;
        let mut acc: Vec<(String, DefinitionListValue)> = Vec::new();
        let mut m: usize = 0;
        while m < ks.len()
            invariant
                ns == doc.nodes@,
                ns == html_document_nodes(html@),
                i < ns.len(),
                kv == ks@.map_values(|x: usize| x as int),
                kv == css_select_within(html@, i as int, ":scope > dt, :scope > dd"@),
                forall|j: int| 0 <= j < ks@.len() ==> i < #[trigger] ks@[j] < subtree_end(ns, i as int),
                subtree_end(ns, i as int) <= ns.len(),
                m <= ks@.len(),
                dl_walk(html@, i as int, kv, m as int) == Ok::<
                    (Option<Seq<char>>, Seq<(Seq<char>, DlValueView)>),
                    DefinitionListFromElError,
                >((
                    match title {
                        Some(t) => Some(t@),
                        None => None,
                    },
                    entries_view(acc@),
                )),
            decreases ks@.len() - m,
        {
            let k = ks[m];
            assert(kv[m as int] == k as int);
            if doc.is_named(k, "dt") {
                title = Some(doc.text(k));
            } else if doc.is_named(k, "dd") && title.is_some() {
                let t = title.unwrap();
                match DefinitionListValue::from_node(html, doc, k) {
                    Ok(v) => {
                        proof {
                            lemma_entries_view_push(acc@, (t, v));
                        }
                        acc.push((t, v));
                        title = None;
                    },
                    Err(e) => {
                        proof {
                            lemma_walk_err(html@, i as int, kv, m + 1, kv.len() as int);
                        }
                        return Err(DefinitionListFromElError::DefinitionListValueError(e));
                    },
                }
            } else {
                proof {
                    lemma_walk_err(html@, i as int, kv, m + 1, kv.len() as int);
                }
                return Err(DefinitionListFromElError::UnexpectedEntry);
            }
            m = m + 1;
        }
        Ok(DefinitionList(acc))
    }
}

/// The `dd` element of the first entry titled `key` among the elements `ks`
/// of a definition list.
fn section_dd(doc: &Document, ks: &Vec<usize>, key: &str) -> (r: Option<usize>)
    requires
        forall|j: int| 0 <= j < ks@.len() ==> #[trigger] ks@[j] < doc.nodes@.len(),
    ensures
        opt_int(r) == section_walk(doc.nodes@, ks@.map_values(|x: usize| x as int), ks@.len() as int, key@).1,
        r matches Some(j) ==> j < doc.nodes@.len(),
{
    let ghost ns = doc.nodes@;
    let ghost kv = ks@.map_values(|x: usize| x as int);
    let mut title: Option<String> = None;
    let mut found: Option<usize> = None;
    let mut m: usize = 0;
    while m < ks.len()
        invariant
            ns == doc.nodes@,
            kv == ks@.map_values(|x: usize| x as int),
            forall|j: int| 0 <= j < ks@.len() ==> #[trigger] ks@[j] < ns.len(),
            m <= ks@.len(),
            section_walk(ns, kv, m as int, key@) == (
                match title {
                    Some(t) => Some(t@),
                    None => None,
                },
                opt_int(found),
            ),
            found matches Some(j) ==> j < ns.len(),
        decreases ks@.len() - m,
    {
        let k = ks[m];
        assert(kv[m as int] == k as int);
        if doc.is_named(k, "dt") {
            title = Some(doc.text(k));
        } else if doc.is_named(k, "dd") {
            match title {
                Some(t) => {
                    if found.is_none() && str_eq(t.as_str(), key) {
                        found = Some(k);
                    }
                },
                None => {},
            }
            title = None;
        }
        m = m + 1;
    }
    found
}

/// The `dd` element of the first entry titled `key` in the definition list
/// of page `html`, whose nodes `doc` holds.
pub fn page_section(html: &str, doc: &Document, key: &str) -> (r: Option<usize>)
    requires
        doc.nodes@ == html_document_nodes(html@),
    ensures
        opt_int(r) == page_section_node(html@, key@),
        r matches Some(j) ==> j < doc.nodes@.len(),
{
    let ds = select_document(html, "body > dl");
    if ds.len() > 0 {
        assert(ds@.map_values(|x: usize| x as int)[0] == ds@[0] as int);
        let ks = select_within(html, ds[0], ":scope > dt, :scope > dd");
        proof {
            crate::tree::lemma_subtree_end_bound(doc.nodes@, ds@[0] as int);
            assert forall|j: int| 0 <= j < ks@.len() implies #[trigger] ks@[j] < doc.nodes@.len() by {
                assert(ks@[j] < subtree_end(doc.nodes@, ds@[0] as int));
            }
        }
        section_dd(doc, &ks, key)
    } else {
        None
    }
}

impl DetailPage {
    /// Reads the detail page of `html`, whose nodes `doc` holds.
    pub fn from_document(html: &str, doc: &Document) -> (r: Result<DetailPage, DetailPageFromStrError>)
        requires
            doc.nodes@ == html_document_nodes(html@),
        ensures
            page_view(r) == detail_page_of(html@),
    {
        let ts = select_document(html, "title");
        if ts.len() == 0 {
            return Err(DetailPageFromStrError::TitleNotFound);
        }
        let hs = select_document(html, "h1");
        if hs.len() == 0 {
            return Err(DetailPageFromStrError::H1NotFound);
        }
        let ds = select_document(html, "body > dl");
        if ds.len() == 0 {
            return Err(DetailPageFromStrError::DlNotFound);
        }
        proof {
            assert(ts@.map_values(|x: usize| x as int)[0] == ts@[0] as int);
            assert(hs@.map_values(|x: usize| x as int)[0] == hs@[0] as int);
            assert(ds@.map_values(|x: usize| x as int)[0] == ds@[0] as int);
        }
        let definition_list = match DefinitionList::from_node(html, doc, ds[0]) {
            Ok(l) => l,
            Err(e) => {
                return Err(DetailPageFromStrError::DefinitionListParseError(e));
            },
        };
        Ok(DetailPage { title: doc.text(ts[0]), h1: doc.text(hs[0]), definition_list })
    }

    /// Parses a detail page from its HTML.
    pub fn try_from(html: &str) -> (r: Result<DetailPage, DetailPageFromStrError>)
        ensures
            page_view(r) == detail_page_of(html@),
    {
        let doc = parse_document(html);
        DetailPage::from_document(html, &doc)
    }
}

} // verus!
