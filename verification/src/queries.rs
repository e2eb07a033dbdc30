//! The queries of the API, read from their pages.
use vstd::prelude::*;

use crate::query::{query_of_html, Query, QueryParseError};

verus! {

/// Why the queries could not be read: a query page, named, could not be
/// read.
#[derive(Debug)]
pub struct QueriesError {
    pub file: String,
    pub error: QueryParseError,
}

/// Whether the query page `html` can be read.
pub open spec fn query_page_reads(html: Seq<char>) -> bool {
    query_of_html(html) is Ok
}

/// Reads the query pages (name, HTML) in order; stops at the first page that
/// cannot be read.
pub fn queries(pages: &Vec<(String, String)>) -> (r: Result<Vec<Query>, QueriesError>)
    ensures
        match r {
            Ok(v) => v@.len() == pages@.len() && forall|k: int|
                0 <= k < v@.len() ==> query_of_html(#[trigger] pages@[k].1@) == Ok::<
                    Seq<char>,
                    QueryParseError,
                >(v@[k].name@),
            Err(e) => exists|k: int|
                0 <= k < pages@.len() && pages@[k].0@ == e.file@ && query_of_html(#[trigger] pages@[k].1@)
                    == Err::<Seq<char>, QueryParseError>(e.error) && forall|j: int|
                    0 <= j < k ==> query_page_reads(#[trigger] pages@[j].1@),
        },
{
    let mut v: Vec<Query> = Vec::new();
    let mut k: usize = 0;
    while k < pages.len()
        invariant
            k <= pages@.len(),
            v@.len() == k,
            forall|j: int|
                0 <= j < k ==> query_of_html(#[trigger] pages@[j].1@) == Ok::<Seq<char>, QueryParseError>(
                    v@[j].name@,
                ),
        decreases pages@.len() - k,
    {
        let page = &pages[k];
        match Query::try_from(page.1.as_str()) {
            Ok(q) => {
                v.push(q);
            },
            Err(error) => {
                let e = QueriesError { file: page.0.clone(), error };
                assert forall|j: int| 0 <= j < k implies query_page_reads(#[trigger] pages@[j].1@) by {
                    assert(query_of_html(pages@[j].1@) is Ok);
                }
                return Err(e);
            },
        }
        k = k + 1;
    }
    Ok(v)
}

} // verus!
