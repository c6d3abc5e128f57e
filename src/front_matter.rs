//! Front matter: splitting a content file into its metadata block and its
//! markdown body, and the rule on which metadata fields a page must have.
use vstd::prelude::*;
use crate::text::{chars_of, find_token, find_from, count_from, lemma_count_find};

verus! {

/// The token that opens and closes the metadata block.
pub open spec fn delimiter() -> Seq<char> {
    seq!['-', '-', '-']
}

/// What splitting `raw` on the delimiter into at most three pieces yields,
/// when it yields three: the metadata block (second piece) and the body
/// (third piece, which may itself hold the delimiter). `None` when fewer
/// than three pieces come out.
pub open spec fn split_spec(raw: Seq<char>) -> Option<(Seq<char>, Seq<char>)> {
    match find_from(raw, delimiter(), 0) {
        None => None,
        Some(a) => match find_from(raw, delimiter(), a + 3) {
            None => None,
            Some(b) => Some((raw.subrange(a + 3, b), raw.subrange(b + 3, raw.len() as int))),
        },
    }
}

/// How many delimiters a left-to-right scan of `raw` finds.
pub open spec fn delimiter_count(raw: Seq<char>) -> nat {
    count_from(raw, delimiter(), 0)
}

/// A content file is rejected exactly when a scan finds fewer than two
/// delimiters in it; with two or more it splits, and any further delimiter
/// stays in the body.
pub proof fn lemma_split_fails_iff_fewer_than_two(raw: Seq<char>)
    ensures
        split_spec(raw) is None <==> delimiter_count(raw) < 2,
{
    lemma_count_find(raw, delimiter(), 0);
    match find_from(raw, delimiter(), 0) {
        None => {},
        Some(a) => {
            crate::text::lemma_find_result(raw, delimiter(), 0);
            lemma_count_find(raw, delimiter(), a + 3);
        },
    }
}

/// A content file cut at its first two delimiters.
pub struct ContentParts {
    /// The text between the first two delimiters.
    pub metadata: String,
    /// Everything after the second delimiter.
    pub body: String,
}

/// The metadata of a page once decoded: `title` and `slug` are required,
/// the other three may be absent.
pub struct FrontMatter {
    pub title: String,
    pub slug: String,
    pub description: Option<String>,
    pub keywords: Option<String>,
    pub author: Option<String>,
}

/// The metadata fields as read from the block, before the rule on
/// required fields is applied. A field is `None` when the block lacks it.
pub struct MetadataFields {
    pub title: Option<String>,
    pub slug: Option<String>,
    pub description: Option<String>,
    pub keywords: Option<String>,
    pub author: Option<String>,
}

/// Why a content file could not be read as a page.
#[derive(PartialEq, Eq, Structural, Debug, Clone, Copy)]
pub enum FormatError {
    /// The file does not hold a metadata block between two delimiters.
    MissingDelimiters,
    /// The metadata lacks `title`.
    MissingTitle,
    /// The metadata lacks `slug`.
    MissingSlug,
}

/// An optional field's value, or the empty text when it is absent.
pub open spec fn or_empty(v: Option<String>) -> Seq<char> {
    match v {
        Some(s) => s@,
        None => Seq::empty(),
    }
}

/// Splits a content file on the delimiter into at most three pieces; the
/// file is well formed exactly when three come out.
pub fn split_content(raw: &str) -> (r: Result<ContentParts, FormatError>)
    ensures
        match r {
            Ok(p) => split_spec(raw@) == Some((p.metadata@, p.body@)),
            Err(e) => split_spec(raw@) is None && e == FormatError::MissingDelimiters,
        },
{
    let sv = chars_of(raw);
    let dv = chars_of("---");
    proof {
        reveal_strlit("---");
        assert(dv@ =~= delimiter());
    }
    let n = sv.len();
    match find_token(&sv, &dv, 0) {
        None => Err(FormatError::MissingDelimiters),
        Some(a) => {
            proof {
                crate::text::lemma_find_result(sv@, dv@, 0);
            }
            match find_token(&sv, &dv, a + 3) {
                None => Err(FormatError::MissingDelimiters),
                Some(b) => {
                    proof {
                        crate::text::lemma_find_result(sv@, dv@, a + 3);
                    }
                    let metadata = raw.substring_char(a + 3, b).to_string();
                    let body = raw.substring_char(b + 3, n).to_string();
                    Ok(ContentParts { metadata, body })
                },
            }
        },
    }
}

/// The text of an optional field, or the empty text when it is absent.
pub fn text_or_empty(v: &Option<String>) -> (r: &str)
    ensures
        r@ == or_empty(*v),
{
    match v {
        Some(s) => s.as_str(),
        None => {
            proof {
                reveal_strlit("");
            }
            ""
        },
    }
}

impl FrontMatter {
    /// Applies the rule on required fields: a page needs a `title` and a
    /// `slug`; the optional fields are kept as they are.
    pub fn from_fields(fields: MetadataFields) -> (r: Result<FrontMatter, FormatError>)
        ensures
            fields.title is None ==> r == Err::<FrontMatter, FormatError>(FormatError::MissingTitle),
            fields.title is Some && fields.slug is None ==> r == Err::<FrontMatter, FormatError>(
                FormatError::MissingSlug,
            ),
            fields.title is Some && fields.slug is Some ==> (r matches Ok(fm) && fm.title
                == fields.title->0 && fm.slug == fields.slug->0 && fm.description
                == fields.description && fm.keywords == fields.keywords && fm.author
                == fields.author),
    {
        match (fields.title, fields.slug) {
            (None, _) => Err(FormatError::MissingTitle),
            (Some(_), None) => Err(FormatError::MissingSlug),
            (Some(title), Some(slug)) => Ok(
                FrontMatter {
                    title,
                    slug,
                    description: fields.description,
                    keywords: fields.keywords,
                    author: fields.author,
                },
            ),
        }
    }
}

} // verus!
