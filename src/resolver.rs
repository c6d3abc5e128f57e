//! The request-time consumer of the pipeline: from a logical page name to
//! a content file, and from that file to a page or a typed failure.
use vstd::prelude::*;
use crate::text::{chars_of, contains, find_token, lemma_find_result};
use crate::front_matter::{ContentParts, MetadataFields, split_content, split_spec};
use crate::page::{entry_html, render_entry};

verus! {

/// The directory that holds the content files, with its separator.
pub open spec fn content_dir() -> Seq<char> {
    seq!['r', 'o', 'u', 't', 'e', 's', '/']
}

/// The extension of a content file.
pub open spec fn markdown_ext() -> Seq<char> {
    seq!['.', 'm', 'd']
}

/// The path of the content file for the logical name `name`.
pub open spec fn content_path_spec(name: Seq<char>) -> Seq<char> {
    content_dir() + name + markdown_ext()
}

/// A logical name that may be looked up: not empty, and with no path
/// separator and no parent-directory sequence in it.
pub open spec fn safe_name(name: Seq<char>) -> bool {
    &&& name.len() > 0
    &&& !contains(name, seq!['/'])
    &&& !contains(name, seq!['\\'])
    &&& !contains(name, seq!['.', '.'])
}

/// Why a page could not be served. Each carries the content file's path.
#[derive(PartialEq, Eq, Debug)]
pub enum PageError {
    /// No content file can be read for the logical name.
    NotFound(String),
    /// The content file does not split into metadata and body, or its
    /// metadata lacks a required field.
    InvalidFormat(String),
}

/// The logical name of the home page.
pub fn root_name() -> (r: &'static str)
    ensures
        r@ == seq!['i', 'n', 'd', 'e', 'x'],
{
    proof {
        reveal_strlit("index");
    }
    "index"
}

/// Whether the text `t` holds `pat`.
fn holds(t: &Vec<char>, pat: &str) -> (r: bool)
    requires
        pat@.len() > 0,
    ensures
        r == contains(t@, pat@),
{
    let pv = chars_of(pat);
    let found = find_token(t, &pv, 0);
    proof {
        lemma_find_result(t@, pv@, 0);
    }
    found.is_some()
}

/// Whether a logical name may be looked up.
pub fn is_safe_name(name: &str) -> (r: bool)
    ensures
        r == safe_name(name@),
{
    proof {
        reveal_strlit("/");
        reveal_strlit("\\");
        reveal_strlit("..");
        assert("/"@ =~= seq!['/']);
        assert("\\"@ =~= seq!['\\']);
        assert(".."@ =~= seq!['.', '.']);
    }
    let nv = chars_of(name);
    nv.len() > 0 && !holds(&nv, "/") && !holds(&nv, "\\") && !holds(&nv, "..")
}

/// Maps a logical name to its content file's path; a name that could leave
/// the content directory is not found.
pub fn locate(name: &str) -> (r: Result<String, PageError>)
    ensures
        match r {
            Ok(path) => safe_name(name@) && path@ == content_path_spec(name@),
            Err(PageError::NotFound(path)) => !safe_name(name@) && path@ == content_path_spec(
                name@,
            ),
            Err(PageError::InvalidFormat(_)) => false,
        },
{
    proof {
        reveal_strlit("routes/");
        reveal_strlit(".md");
    }
    let mut path = "routes/".to_string();
    path.append(name);
    path.append(".md");
    if is_safe_name(name) {
        Ok(path)
    } else {
        Err(PageError::NotFound(path))
    }
}

/// Reads a content file's text, `None` when it could not be read, as far as
/// the front matter: a missing file is not found, one without a metadata
/// block has an invalid format.
pub fn open_page(path: &str, source: Option<&str>) -> (r: Result<ContentParts, PageError>)
    ensures
        match source {
            None => r matches Err(PageError::NotFound(p)) && p@ == path@,
            Some(raw) => match split_spec(raw@) {
                None => r matches Err(PageError::InvalidFormat(p)) && p@ == path@,
                Some((m, b)) => r matches Ok(p) && p.metadata@ == m && p.body@ == b,
            },
        },
{
    match source {
        None => Err(PageError::NotFound(path.to_string())),
        Some(raw) => match split_content(raw) {
            Ok(parts) => Ok(parts),
            Err(_) => Err(PageError::InvalidFormat(path.to_string())),
        },
    }
}

/// Finishes a page once its metadata block has been decoded into `fields`.
pub fn finish_page(path: &str, template: &str, parts: &ContentParts, fields: MetadataFields) -> (r:
    Result<String, PageError>)
    ensures
        match entry_html(template@, fields, parts.body@) {
            Some(html) => r matches Ok(h) && h@ == html,
            None => r matches Err(PageError::InvalidFormat(p)) && p@ == path@,
        },
{
    match render_entry(template, parts, fields) {
        Ok(html) => Ok(html),
        Err(_) => Err(PageError::InvalidFormat(path.to_string())),
    }
}

impl PageError {
    /// The path of the content file concerned.
    pub fn path(&self) -> (r: &str)
        ensures
            r@ == match self {
                PageError::NotFound(p) => p@,
                PageError::InvalidFormat(p) => p@,
            },
    {
        match self {
            PageError::NotFound(p) => p.as_str(),
            PageError::InvalidFormat(p) => p.as_str(),
        }
    }

    /// The human-readable explanation shown to the visitor.
    pub fn message(&self) -> (r: String)
        ensures
            r@ == match self {
                PageError::NotFound(p) => "Page not found: "@ + p@,
                PageError::InvalidFormat(p) => "Invalid Markdown file format: "@ + p@,
            },
    {
        match self {
            PageError::NotFound(p) => {
                let mut m = "Page not found: ".to_string();
                m.append(p.as_str());
                m
            },
            PageError::InvalidFormat(p) => {
                let mut m = "Invalid Markdown file format: ".to_string();
                m.append(p.as_str());
                m
            },
        }
    }
}

} // verus!
