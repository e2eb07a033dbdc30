//! The about page of the documentation: the product, its version, and the
//! descriptions of the three groups of operations.
use vstd::prelude::*;

use crate::html::{css_select_within, html_document_nodes, parse_document, select_within};
use crate::landing::HtmlParseError;
use crate::select::{root_from, root_of, trimmed_text, trimmed_text_of};
use crate::text::{trim, trim_str};
use crate::tree::{attr, attr_of, subtree_end, Document, Node};

verus! {

/// What the about page says.
#[derive(Debug)]
pub struct AboutInfo {
    pub prodname: String,
    pub version: String,
    pub user_tag: String,
    pub admin_tag: String,
    pub extension_tag: String,
}

/// The `content` of the first element that `selector` selects below element
/// `r` of page `html`, trimmed.
pub open spec fn content_of(html: Seq<char>, r: int, selector: Seq<char>) -> Option<Seq<char>> {
    let ks = css_select_within(html, r, selector);
    if ks.len() > 0 {
        match attr_of(html_document_nodes(html)[ks[0]].data, "content"@) {
            Some(c) => Some(trim(c@)),
            None => None,
        }
    } else {
        None
    }
}

/// The text of the first element that `selector` selects below element `r`
/// of page `html`.
pub open spec fn text_of(html: Seq<char>, r: int, selector: Seq<char>) -> Option<Seq<char>> {
    let ks = css_select_within(html, r, selector);
    if ks.len() > 0 {
        Some(trimmed_text(html_document_nodes(html), ks[0]))
    } else {
        None
    }
}

/// What page `html` says as an about page, below its root element: the
/// product name and version from its `meta` elements, and the cells of the
/// definition list (the first, and those of its second and third rows).
pub open spec fn about_of(html: Seq<char>) -> Option<(Seq<char>, Seq<char>, Seq<char>, Seq<char>, Seq<char>)> {
    match root_from(html_document_nodes(html), 0) {
        None => None,
        Some(r) => match (
            content_of(html, r, "meta[name='prodname']"@),
            content_of(html, r, "meta[name='version']"@),
            text_of(html, r, "div.section > table.DefinitionList > tbody > tr > td.dddef"@),
            text_of(html, r, "div.section > table.DefinitionList > tbody > tr:nth-child(2) > td.dddef"@),
            text_of(html, r, "div.section > table.DefinitionList > tbody > tr:nth-child(3) > td.dddef"@),
        ) {
            (Some(p), Some(v), Some(u), Some(a), Some(e)) => Some((p, v, u, a, e)),
            _ => None,
        },
    }
}

fn content_in(html: &str, doc: &Document, r: usize, selector: &str) -> (res: Option<String>)
    requires
        doc.nodes@ == html_document_nodes(html@),
        r < doc.nodes@.len(),
    ensures
        crate::openapi::opt_str(res) == content_of(html@, r as int, selector@),
{
    proof {
        crate::tree::lemma_subtree_end_bound(doc.nodes@, r as int);
    }
    let ks = select_within(html, r, selector);
    if ks.len() > 0 {
        assert(ks@.map_values(|x: usize| x as int)[0] == ks@[0] as int);
        match attr(&doc.nodes[ks[0]].data, "content") {
            Some(c) => Some(trim_str(c.as_str())),
            None => None,
        }
    } else {
        None
    }
}

fn text_in(html: &str, doc: &Document, r: usize, selector: &str) -> (res: Option<String>)
    requires
        doc.nodes@ == html_document_nodes(html@),
        r < doc.nodes@.len(),
    ensures
        crate::openapi::opt_str(res) == text_of(html@, r as int, selector@),
{
    proof {
        crate::tree::lemma_subtree_end_bound(doc.nodes@, r as int);
    }
    let ks = select_within(html, r, selector);
    if ks.len() > 0 {
        assert(ks@.map_values(|x: usize| x as int)[0] == ks@[0] as int);
        Some(trimmed_text_of(doc, ks[0]))
    } else {
        None
    }
}

impl AboutInfo {
    /// Reads the about page `html`, whose nodes `doc` holds.
    pub fn from_document(html: &str, doc: &Document) -> (r: Result<AboutInfo, HtmlParseError>)
        requires
            doc.nodes@ == html_document_nodes(html@),
        ensures
            match r {
                Ok(a) => about_of(html@) == Some(
                    (a.prodname@, a.version@, a.user_tag@, a.admin_tag@, a.extension_tag@),
                ),
                Err(_) => about_of(html@) is None,
            },
    {
        let root = match root_of(doc) {
            Some(r) => r,
            None => {
                return Err(HtmlParseError::NotFound);
            },
        };
        let p = content_in(html, doc, root, "meta[name='prodname']");
        let v = content_in(html, doc, root, "meta[name='version']");
        let u = text_in(html, doc, root, "div.section > table.DefinitionList > tbody > tr > td.dddef");
        let a = text_in(html, doc, root, "div.section > table.DefinitionList > tbody > tr:nth-child(2) > td.dddef");
        let e = text_in(html, doc, root, "div.section > table.DefinitionList > tbody > tr:nth-child(3) > td.dddef");
        match (p, v, u, a, e) {
            (Some(prodname), Some(version), Some(user_tag), Some(admin_tag), Some(extension_tag)) => Ok(
                AboutInfo { prodname, version, user_tag, admin_tag, extension_tag },
            ),
            _ => Err(HtmlParseError::NotFound),
        }
    }
}

/// Reads the about page from its HTML.
pub fn parse(html: &str) -> (r: Result<AboutInfo, HtmlParseError>)
    ensures
        match r {
            Ok(a) => about_of(html@) == Some(
                (a.prodname@, a.version@, a.user_tag@, a.admin_tag@, a.extension_tag@),
            ),
            Err(_) => about_of(html@) is None,
        },
{
    let doc = parse_document(html);
    AboutInfo::from_document(html, &doc)
}

} // verus!
