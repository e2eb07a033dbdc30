//! The description of the API: its title, version and license, from the
//! about page and from what the script of the documentation's common
//! resources sets; the API version; and the tags of the operations.
use vstd::prelude::*;

use crate::about::AboutInfo;
use crate::html::{html_to_markdown, markdown_of};
use crate::openapi::pairs_view;
use crate::text::{split_words, words};

verus! {

/// What the script of the common resources sets: the version information
/// and the copyright, as Markdown.
#[derive(Debug)]
pub struct CommonRes {
    pub version_information: String,
    pub copyright: String,
}

impl CommonRes {
    /// The common resources from the HTML of the version information and
    /// of the copyright that the script sets.
    pub fn from_html(version_html: &str, copyright_html: &str) -> (r: CommonRes)
        ensures
            r.version_information@ == markdown_of(version_html@),
            r.copyright@ == markdown_of(copyright_html@),
    {
        CommonRes {
            version_information: html_to_markdown(version_html),
            copyright: html_to_markdown(copyright_html),
        }
    }
}

/// The description of the API: its title, its version, and the name of its
/// license.
#[derive(Debug)]
pub struct ApiInfo {
    pub title: String,
    pub version: String,
    pub license: String,
}

/// The description of the API with the title `title`: the version
/// information as its version and the copyright as its license.
pub fn info(title: String, common_res: CommonRes) -> (r: ApiInfo)
    ensures
        r.title == title,
        r.version == common_res.version_information,
        r.license == common_res.copyright,
{
    ApiInfo { title, version: common_res.version_information, license: common_res.copyright }
}

/// The API version: the last word of the version information.
pub fn api_version(version: &str) -> (r: Option<String>)
    ensures
        match r {
            Some(v) => words(version@).len() > 0 && v@ == words(version@).last(),
            None => words(version@).len() == 0,
        },
{
    let ws = split_words(version);
    let n = ws.len();
    if n == 0 {
        None
    } else {
        assert(ws@.map_values(|x: String| x@)[n - 1] == ws@[n - 1]@);
        Some(ws[n - 1].clone())
    }
}

/// The tags of the operations, each with its description from the about
/// page as Markdown: `user`, `admin` and `extension`.
pub fn tags(about: &AboutInfo) -> (r: Vec<(String, String)>)
    ensures
        pairs_view(r@) == seq![
            ("user"@, markdown_of(about.user_tag@)),
            ("admin"@, markdown_of(about.admin_tag@)),
            ("extension"@, markdown_of(about.extension_tag@)),
        ],
{
    let mut r: Vec<(String, String)> = Vec::new();
    r.push((String::from_str("user"), html_to_markdown(about.user_tag.as_str())));
    r.push((String::from_str("admin"), html_to_markdown(about.admin_tag.as_str())));
    r.push((String::from_str("extension"), html_to_markdown(about.extension_tag.as_str())));
    assert(pairs_view(r@) =~= seq![
        ("user"@, markdown_of(about.user_tag@)),
        ("admin"@, markdown_of(about.admin_tag@)),
        ("extension"@, markdown_of(about.extension_tag@)),
    ]);
    r
}

} // verus!
