//! The query pages of the documentation.
use vstd::prelude::*;

use crate::detail_page::{
    detail_page_of, lemma_find_view, page_view, text_under, DetailPage, DetailPageFromStrError,
    DlValueView,
};

verus! {

/// Why a page does not describe a query.
#[derive(Debug)]
pub enum QueryParseError {
    DetailPageParseError(DetailPageFromStrError),
    CannotFindTypeName,
}

/// A query: the type name it is queried by.
#[derive(Debug)]
pub struct Query {
    pub name: String,
}

/// The query that a detail page (as plain sequences) describes: its name is
/// the HTML under "Type Name:".
pub open spec fn query_of(es: Seq<(Seq<char>, DlValueView)>) -> Option<Seq<char>> {
    text_under(es, "Type Name:"@)
}

/// The query that the HTML of a detail page describes.
pub open spec fn query_of_html(html: Seq<char>) -> Result<Seq<char>, QueryParseError> {
    match detail_page_of(html) {
        Err(e) => Err(QueryParseError::DetailPageParseError(e)),
        Ok((_, _, es)) => match query_of(es) {
            Some(n) => Ok(n),
            None => Err(QueryParseError::CannotFindTypeName),
        },
    }
}

impl Query {
    /// Reads a query from its detail page.
    pub fn from_page(p: DetailPage) -> (r: Result<Query, QueryParseError>)
        ensures
            match r {
                Ok(q) => query_of(p.definition_list.view()) == Some(q.name@),
                Err(e) => query_of(p.definition_list.view()) is None && e is CannotFindTypeName,
            },
    {
        proof {
            lemma_find_view(p.definition_list.0@, "Type Name:"@, 0);
        }
        match p.definition_list.find("Type Name:") {
            Some(v) => match v.as_text() {
                Some(t) => Ok(Query { name: String::from_str(t) }),
                None => Err(QueryParseError::CannotFindTypeName),
            },
            None => Err(QueryParseError::CannotFindTypeName),
        }
    }

    /// Reads a query from the HTML of its detail page.
    pub fn try_from(html: &str) -> (r: Result<Query, QueryParseError>)
        ensures
            match r {
                Ok(q) => query_of_html(html@) == Ok::<Seq<char>, QueryParseError>(q.name@),
                Err(e) => query_of_html(html@) == Err::<Seq<char>, QueryParseError>(e),
            },
    {
        match DetailPage::try_from(html) {
            Ok(p) => Query::from_page(p),
            Err(e) => Err(QueryParseError::DetailPageParseError(e)),
        }
    }
}

} // verus!
