//! The type pages of the documentation.
use vstd::prelude::*;

use indexmap::IndexSet;

use crate::detail_page::{
    detail_page_of, find_view, fragment_text, lemma_find_view, text_under, DetailPage,
    DetailPageFromStrError, DlValueView,
};
use crate::index_set::{dedup, string_set_from, string_set_items};
use crate::text::{concat, split_seq, split_str, str_eq, trim, trim_str};

verus! {

/// A type as its documentation page describes it.
#[derive(Debug, PartialEq)]
pub struct Type {
    pub type_label: String,
    pub name: String,
    pub elements: IndexSet<String>,
    pub namespace: String,
    pub description: String,
    pub media_types: Option<IndexSet<String>>,
    pub extends: String,
}

/// Why a page does not describe a type.
#[derive(Debug)]
pub enum TypeParseError {
    DetailPageParseError(DetailPageFromStrError),
    CannotFindElementsError,
}

/// The pieces of `pieces` that are media types: not empty and not "None".
pub open spec fn keep_mimes(pieces: Seq<Seq<char>>) -> Seq<Seq<char>>
    decreases pieces.len(),
{
    if pieces.len() == 0 {
        Seq::empty()
    } else {
        let r = keep_mimes(pieces.drop_last());
        let t = pieces.last();
        if t.len() == 0 || t == "None"@ {
            r
        } else {
            r.push(t)
        }
    }
}

/// The media types that HTML lists, one per line (`<br>`), leaving out empty
/// lines and "None".
pub open spec fn mimes_of(html: Seq<char>) -> Seq<Seq<char>> {
    keep_mimes(split_seq(html, "<br>"@))
}

/// The media types that HTML lists, one per line.
pub fn html_to_mimes(html: &str) -> (r: Vec<String>)
    ensures
        r@.map_values(|x: String| x@) == mimes_of(html@),
{
    proof {
        reveal_strlit("<br>");
    }
    let pieces = split_str(html, "<br>");
    let ghost all = pieces@.map_values(|x: String| x@);
    let mut r: Vec<String> = Vec::new();
    for t in it: pieces
        invariant
            all == it.seq().map_values(|x: String| x@),
            r@.map_values(|x: String| x@) == keep_mimes(all.take(it.index() as int)),
    {
        proof {
            assert(all.take(it.index() + 1).drop_last() =~= all.take(it.index() as int));
        }
        if !(t.as_str().unicode_len() == 0 || str_eq(t.as_str(), "None")) {
            proof {
                assert(r@.push(t).map_values(|x: String| x@) =~= r@.map_values(|x: String| x@).push(
                    t@,
                ));
            }
            r.push(t);
        }
    }
    assert(all.take(all.len() as int) =~= all);
    r
}

/// The element names that HTML lists, separated by commas, each trimmed.
pub open spec fn element_names(h: Seq<char>) -> Seq<Seq<char>> {
    dedup(split_seq(h, ","@).map_values(|e: Seq<char>| trim(e)))
}

/// The HTML that lists the elements of a type: under "Element:" or, when
/// there is no such entry, under "Elements:".
pub open spec fn elements_html(es: Seq<(Seq<char>, DlValueView)>) -> Option<Seq<char>> {
    match find_view(es, "Element:"@, 0) {
        Some(DlValueView::Text(h)) => Some(h),
        Some(DlValueView::SubList(_)) => None,
        None => text_under(es, "Elements:"@),
    }
}

/// The text under `key`, or nothing.
pub open spec fn inner_text_under(es: Seq<(Seq<char>, DlValueView)>, key: Seq<char>) -> Seq<char> {
    match text_under(es, key) {
        Some(h) => fragment_text(h),
        None => Seq::empty(),
    }
}

/// The HTML under `key`, or nothing.
pub open spec fn html_under(es: Seq<(Seq<char>, DlValueView)>, key: Seq<char>) -> Seq<char> {
    match text_under(es, key) {
        Some(h) => h,
        None => Seq::empty(),
    }
}

/// The name of a type in the schema: its type name, prefixed for the
/// namespaces that have a prefix.
pub open spec fn qualified_type_label(namespace: Seq<char>, t: Seq<char>) -> Seq<char> {
    if namespace == "http://www.vmware.com/vcloud/extension/v1.5"@ {
        "vcloud-ext_"@ + t
    } else if namespace == "http://www.vmware.com/vcloud/versions"@ {
        "versioning_"@ + t
    } else if namespace == "http://www.vmware.com/vcloud/v1.5"@ {
        "vcloud_"@ + t
    } else if namespace == "http://schemas.dmtf.org/ovf/envelope/1"@ {
        "ovf_"@ + t
    } else {
        t
    }
}

/// Whether `t` is the type that the definition list `es` under the heading
/// `h1` describes.
pub open spec fn describes(t: Type, h1: Seq<char>, es: Seq<(Seq<char>, DlValueView)>) -> bool {
    &&& elements_html(es) matches Some(h) && string_set_items(t.elements) == element_names(h)
    &&& t.type_label@ == h1
    &&& t.namespace@ == inner_text_under(es, "Namespace:"@)
    &&& t.description@ == html_under(es, "Description:"@)
    &&& match text_under(es, "Media type(s):"@) {
        Some(h) => t.media_types matches Some(m) && string_set_items(m) == dedup(mimes_of(h)),
        None => t.media_types is None,
    }
    &&& t.extends@ == inner_text_under(es, "Extends:"@)
    &&& t.name@ == qualified_type_label(t.namespace@, h1)
}

/// The name of a type in the schema.
fn schema_name_for(namespace: &str, t: &str) -> (r: String)
    ensures
        r@ == qualified_type_label(namespace@, t@),
{
    if str_eq(namespace, "http://www.vmware.com/vcloud/extension/v1.5") {
        concat("vcloud-ext_", t)
    } else if str_eq(namespace, "http://www.vmware.com/vcloud/versions") {
        concat("versioning_", t)
    } else if str_eq(namespace, "http://www.vmware.com/vcloud/v1.5") {
        concat("vcloud_", t)
    } else if str_eq(namespace, "http://schemas.dmtf.org/ovf/envelope/1") {
        concat("ovf_", t)
    } else {
        String::from_str(t)
    }
}

impl Type {
    /// Reads a type from its detail page.
    pub fn from_page(p: DetailPage) -> (r: Result<Type, TypeParseError>)
        ensures
            match r {
                Ok(t) => describes(t, p.h1@, p.definition_list.view()),
                Err(e) => elements_html(p.definition_list.view()) is None
                    && e is CannotFindElementsError,
            },
    {
        let ghost es = p.definition_list.0@;
        proof {
            lemma_find_view(es, "Element:"@, 0);
            lemma_find_view(es, "Elements:"@, 0);
            lemma_find_view(es, "Namespace:"@, 0);
            lemma_find_view(es, "Description:"@, 0);
            lemma_find_view(es, "Media type(s):"@, 0);
            lemma_find_view(es, "Extends:"@, 0);
        }
        let list = &p.definition_list;
        let found = match list.find("Element:") {
            Some(v) => Some(v),
            None => list.find("Elements:"),
        };
        let elements_text = match found {
            Some(v) => v.as_text(),
            None => None,
        };
        let elements = match elements_text {
            Some(h) => {
                proof {
                    reveal_strlit(",");
                }
                let pieces = split_str(h, ",");
                let mut trimmed: Vec<String> = Vec::new();
                let mut k: usize = 0;
                while k < pieces.len()
                    invariant
                        k <= pieces@.len(),
                        trimmed@.len() == k,
                        forall|j: int|
                            0 <= j < k ==> #[trigger] trimmed@[j]@ == trim(pieces@[j]@),
                    decreases pieces@.len() - k,
                {
                    trimmed.push(trim_str(pieces[k].as_str()));
                    k = k + 1;
                }
                proof {
                    assert(trimmed@.map_values(|x: String| x@) =~= split_seq(
                        h@,
                        ","@,
                    ).map_values(|e: Seq<char>| trim(e)));
                }
                string_set_from(trimmed)
            },
            None => {
                return Err(TypeParseError::CannotFindElementsError);
            },
        };
        let namespace = match list.find("Namespace:") {
            Some(v) => match v.to_inner_text() {
                Some(t) => t,
                None => String::new(),
            },
            None => String::new(),
        };
        let description = match list.find("Description:") {
            Some(v) => match v.as_text() {
                Some(t) => String::from_str(t),
                None => String::new(),
            },
            None => String::new(),
        };
        let media_types = match list.find("Media type(s):") {
            Some(v) => match v.as_text() {
                Some(t) => Some(string_set_from(html_to_mimes(t))),
                None => None,
            },
            None => None,
        };
        let extends = match list.find("Extends:") {
            Some(v) => match v.to_inner_text() {
                Some(t) => t,
                None => String::new(),
            },
            None => String::new(),
        };
        let name = schema_name_for(namespace.as_str(), p.h1.as_str());
        Ok(Type {
            type_label: p.h1,
            name,
            elements,
            namespace,
            description,
            media_types,
            extends,
        })
    }

    /// Reads a type from the HTML of its detail page.
    pub fn try_from(html: &str) -> (r: Result<Type, TypeParseError>)
        ensures
            match detail_page_of(html@) {
                Err(e) => r matches Err(TypeParseError::DetailPageParseError(e2)) && e2 == e,
                Ok((_, h1, es)) => match r {
                    Ok(t) => describes(t, h1, es),
                    Err(e) => elements_html(es) is None && e is CannotFindElementsError,
                },
            },
    {
        match DetailPage::try_from(html) {
            Ok(p) => Type::from_page(p),
            Err(e) => Err(TypeParseError::DetailPageParseError(e)),
        }
    }
}

} // verus!
