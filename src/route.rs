//! Route identity: the URL-safe logical name of a page and the name of the
//! content file that holds it.
use vstd::prelude::*;
use crate::resolver::markdown_ext;

verus! {

/// The slug that the `slug` crate makes of a text.
pub uninterp spec fn slug_of(title: Seq<char>) -> Seq<char>;

/// Lower-case ASCII letters, digits and single hyphens, with no hyphen at
/// either end.
pub open spec fn is_slug(s: Seq<char>) -> bool {
    &&& forall|i: int|
        0 <= i < s.len() ==> (('a' <= #[trigger] s[i] && s[i] <= 'z') || ('0' <= s[i] && s[i]
            <= '9') || s[i] == '-')
    &&& s.len() > 0 ==> s[0] != '-' && s[s.len() - 1] != '-'
    &&& forall|i: int| 0 <= i < s.len() - 1 ==> !(#[trigger] s[i] == '-' && s[i + 1] == '-')
}

/// Relies on slug::slugify: the slug depends on the text alone, and is made
/// of a-z, 0-9 and '-', never with two '-' in a row nor one at either end.
#[verifier::external_body]
pub fn slugify_title(title: &str) -> (r: String)
    ensures
        r@ == slug_of(title@),
        is_slug(r@),
{
    slug::slugify(title)
}

/// The name of the content file for a page titled `title`.
pub fn route_file_name(title: &str) -> (r: String)
    ensures
        r@ == slug_of(title@) + markdown_ext(),
        is_slug(slug_of(title@)),
{
    proof {
        reveal_strlit(".md");
    }
    let mut name = slugify_title(title);
    name.append(".md");
    name
}

} // verus!
