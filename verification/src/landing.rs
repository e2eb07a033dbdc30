//! The landing page of the operations: a heading and a table with a row
//! per operation.
use vstd::prelude::*;

use crate::html::{css_select_within, html_document_nodes, parse_document, select_within};
use crate::openapi::opt_str;
use crate::select::{opt_int_of, root_from, root_of, trimmed_text, trimmed_text_of};
use crate::text::{split_words, trim, trim_str, words};
use crate::tree::{attr, attr_of, subtree_end, Document, Node};

verus! {

/// An operation as the landing page lists it: the link to its page, its
/// route (method and path) and its description.
#[derive(Debug)]
pub struct RawOperation {
    pub href: String,
    pub route: String,
    pub description: String,
}

/// The landing page of the operations.
#[derive(Debug)]
pub struct LandingOperations {
    pub subtitle: String,
    pub raws: Vec<RawOperation>,
}

/// Why a page does not hold what is read from it: an element or an
/// attribute is missing.
#[derive(Debug, PartialEq)]
pub enum HtmlParseError {
    NotFound,
}

/// Why a route has no method or no path.
#[derive(Debug, PartialEq)]
pub enum RouteError {
    FailedToGetMethod,
    FailedToGetPath,
}

/// A row `t` of the table of operations of page `html`, as plain
/// sequences: the link of the first that `td:first-child > a` selects in it,
/// the text of the first that `td:first-child` selects (the route), and that
/// of the first that `td:nth-child(2)` selects (the description).
pub open spec fn raw_of(html: Seq<char>, t: int) -> Option<(Seq<char>, Seq<char>, Seq<char>)> {
    let ns = html_document_nodes(html);
    let links = css_select_within(html, t, "td:first-child > a"@);
    let firsts = css_select_within(html, t, "td:first-child"@);
    let seconds = css_select_within(html, t, "td:nth-child(2)"@);
    if links.len() == 0 {
        None
    } else {
        match attr_of(ns[links[0]].data, "href"@) {
            None => None,
            Some(h) => if firsts.len() == 0 || seconds.len() == 0 {
                None
            } else {
                Some((trim(h@), trimmed_text(ns, firsts[0]), trimmed_text(ns, seconds[0])))
            },
        }
    }
}

/// The rows `rows` of page `html`, each read, when all can be.
pub open spec fn raws_of(html: Seq<char>, rows: Seq<int>) -> Option<Seq<(Seq<char>, Seq<char>, Seq<char>)>>
    decreases rows.len(),
{
    if rows.len() == 0 {
        Some(Seq::empty())
    } else {
        match (raws_of(html, rows.drop_last()), raw_of(html, rows.last())) {
            (Some(r), Some(x)) => Some(r.push(x)),
            _ => None,
        }
    }
}

/// The landing page that `html` is: below its root element, the text of the
/// first that `h2` selects, and each row that `tr + tr` selects.
pub open spec fn landing_of(html: Seq<char>) -> Option<(Seq<char>, Seq<(Seq<char>, Seq<char>, Seq<char>)>)> {
    let ns = html_document_nodes(html);
    match root_from(ns, 0) {
        None => None,
        Some(r) => {
            let hs = css_select_within(html, r, "h2"@);
            if hs.len() == 0 {
                None
            } else {
                match raws_of(html, css_select_within(html, r, "tr + tr"@)) {
                    Some(rs) => Some((trimmed_text(ns, hs[0]), rs)),
                    None => None,
                }
            }
        },
    }
}

pub open spec fn raw_view(r: RawOperation) -> (Seq<char>, Seq<char>, Seq<char>) {
    (r.href@, r.route@, r.description@)
}

/// The first word of a route, which names the method.
pub open spec fn route_method(route: Seq<char>) -> Option<Seq<char>> {
    if words(route).len() > 0 {
        Some(words(route)[0])
    } else {
        None
    }
}

/// The second word of a route, which is the path.
pub open spec fn route_path(route: Seq<char>) -> Option<Seq<char>> {
    if words(route).len() > 1 {
        Some(words(route)[1])
    } else {
        None
    }
}

impl RawOperation {
    /// Reads the row `t` of the table of operations of page `html`, whose
    /// nodes `doc` holds.
    fn from_row(html: &str, doc: &Document, t: usize) -> (r: Result<RawOperation, HtmlParseError>)
        requires
            doc.nodes@ == html_document_nodes(html@),
            t < doc.nodes@.len(),
        ensures
            match r {
                Ok(x) => raw_of(html@, t as int) == Some(raw_view(x)),
                Err(_) => raw_of(html@, t as int) is None,
            },
    {
        proof {
            crate::tree::lemma_subtree_end_bound(doc.nodes@, t as int);
        }
        let links = select_within(html, t, "td:first-child > a");
        let firsts = select_within(html, t, "td:first-child");
        let seconds = select_within(html, t, "td:nth-child(2)");
        if links.len() == 0 {
            return Err(HtmlParseError::NotFound);
        }
        assert(links@.map_values(|x: usize| x as int)[0] == links@[0] as int);
        let href = match attr(&doc.nodes[links[0]].data, "href") {
            Some(h) => trim_str(h.as_str()),
            None => {
                return Err(HtmlParseError::NotFound);
            },
        };
        if firsts.len() == 0 || seconds.len() == 0 {
            return Err(HtmlParseError::NotFound);
        }
        assert(firsts@.map_values(|x: usize| x as int)[0] == firsts@[0] as int);
        assert(seconds@.map_values(|x: usize| x as int)[0] == seconds@[0] as int);
        Ok(
            RawOperation {
                href,
                route: trimmed_text_of(doc, firsts[0]),
                description: trimmed_text_of(doc, seconds[0]),
            },
        )
    }

    /// The method of the operation: the first word of its route.
    pub fn method(&self) -> (r: Result<String, RouteError>)
        ensures
            match r {
                Ok(m) => route_method(self.route@) == Some(m@),
                Err(e) => route_method(self.route@) is None && e == RouteError::FailedToGetMethod,
            },
    {
        let ws = split_words(self.route.as_str());
        if ws.len() > 0 {
            assert(ws@.map_values(|x: String| x@)[0] == ws@[0]@);
            Ok(ws[0].clone())
        } else {
            Err(RouteError::FailedToGetMethod)
        }
    }

    /// The path of the operation: the second word of its route.
    pub fn path(&self) -> (r: Result<String, RouteError>)
        ensures
            match r {
                Ok(p) => route_path(self.route@) == Some(p@),
                Err(e) => route_path(self.route@) is None && e == RouteError::FailedToGetPath,
            },
    {
        let ws = split_words(self.route.as_str());
        if ws.len() > 1 {
            assert(ws@.map_values(|x: String| x@)[1] == ws@[1]@);
            Ok(ws[1].clone())
        } else {
            Err(RouteError::FailedToGetPath)
        }
    }
}

impl LandingOperations {
    /// Reads the landing page `html`, whose nodes `doc` holds.
    pub fn from_document(html: &str, doc: &Document) -> (r: Result<LandingOperations, HtmlParseError>)
        requires
            doc.nodes@ == html_document_nodes(html@),
        ensures
            match r {
                Ok(l) => landing_of(html@) == Some((l.subtitle@, l.raws@.map_values(|x: RawOperation| raw_view(x)))),
                Err(_) => landing_of(html@) is None,
            },
    {
        let root = match root_of(doc) {
            Some(r) => r,
            None => {
                return Err(HtmlParseError::NotFound);
            },
        };
        proof {
            crate::tree::lemma_subtree_end_bound(doc.nodes@, root as int);
        }
        let hs = select_within(html, root, "h2");
        if hs.len() == 0 {
            return Err(HtmlParseError::NotFound);
        }
        assert(hs@.map_values(|x: usize| x as int)[0] == hs@[0] as int);
        let subtitle = trimmed_text_of(doc, hs[0]);
        let rows = select_within(html, root, "tr + tr");
        let ghost rv = rows@.map_values(|k: usize| k as int);
        let mut raws: Vec<RawOperation> = Vec::new();
        let mut k: usize = 0;
        while k < rows.len()
            invariant
                doc.nodes@ == html_document_nodes(html@),
                opt_int_of(Some(root)) == root_from(doc.nodes@, 0),
                hs@.map_values(|x: usize| x as int) == css_select_within(html@, root as int, "h2"@),
                hs@.len() > 0,
                hs@.map_values(|x: usize| x as int)[0] == hs@[0] as int,
                subtitle@ == trimmed_text(doc.nodes@, hs@[0] as int),
                rv == rows@.map_values(|x: usize| x as int),
                rv == css_select_within(html@, root as int, "tr + tr"@),
                forall|j: int| 0 <= j < rows@.len() ==> root < #[trigger] rows@[j] < subtree_end(doc.nodes@, root as int),
                subtree_end(doc.nodes@, root as int) <= doc.nodes@.len(),
                k <= rows@.len(),
                raws_of(html@, rv.take(k as int)) == Some(raws@.map_values(|x: RawOperation| raw_view(x))),
            decreases rows@.len() - k,
        {
            proof {
                assert(rv.take(k + 1).drop_last() =~= rv.take(k as int));
                assert(rv.take(k + 1).last() == rows@[k as int] as int);
            }
            match RawOperation::from_row(html, doc, rows[k]) {
                Ok(x) => {
                    proof {
                        assert(raws@.push(x).map_values(|x: RawOperation| raw_view(x)) =~= raws@.map_values(|x: RawOperation| raw_view(x)).push(raw_view(x)));
                    }
                    raws.push(x);
                },
                Err(e) => {
                    proof {
                        lemma_raws_none(html@, rv, k as int + 1);
                    }
                    return Err(e);
                },
            }
            k = k + 1;
        }
        assert(rv.take(rv.len() as int) =~= rv);
        Ok(LandingOperations { subtitle, raws })
    }

    /// Reads the landing page of the operations from its HTML.
    pub fn parse(html: &str) -> (r: Result<LandingOperations, HtmlParseError>)
        ensures
            match r {
                Ok(l) => landing_of(html@) == Some((l.subtitle@, l.raws@.map_values(|x: RawOperation| raw_view(x)))),
                Err(_) => landing_of(html@) is None,
            },
    {
        let doc = parse_document(html);
        LandingOperations::from_document(html, &doc)
    }
}

/// Once a row cannot be read, the rows cannot.
proof fn lemma_raws_none(html: Seq<char>, rows: Seq<int>, k: int)
    requires
        0 < k <= rows.len(),
        raws_of(html, rows.take(k)) is None,
    ensures
        raws_of(html, rows) is None,
    decreases rows.len() - k,
{
    if k < rows.len() {
        assert(rows.take(k + 1).drop_last() =~= rows.take(k));
        lemma_raws_none(html, rows, k + 1);
    } else {
        assert(rows.take(k) =~= rows);
    }
}

} // verus!
