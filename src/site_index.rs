//! The public URL of each page, for the site map.
use vstd::prelude::*;
use crate::builder::{is_markdown_file, is_markdown_name, join, join_path, names_view, stem};

verus! {

/// The serialization that the `url` crate gives of a text it parses as a
/// URL; `None` when it does not parse.
pub uninterp spec fn url_text(s: Seq<char>) -> Option<Seq<char>>;

/// Relies on url::Url::parse and url::Url::as_str: whether the text parses,
/// and the serialized URL, depend on the text alone.
#[verifier::external_body]
fn parse_url(s: &str) -> (r: Option<String>)
    ensures
        match r {
            Some(u) => url_text(s@) == Some(u@),
            None => url_text(s@) is None,
        },
{
    match url::Url::parse(s) {
        Ok(u) => Some(u.as_str().to_string()),
        Err(_) => None,
    }
}

/// The page addresses, before parsing, for the markdown files among
/// `names`, in order: `site/stem`.
pub open spec fn page_addresses(site: Seq<char>, names: Seq<Seq<char>>) -> Seq<Seq<char>>
    decreases names.len(),
{
    if names.len() == 0 {
        Seq::empty()
    } else {
        let rest = page_addresses(site, names.drop_last());
        let f = names.last();
        if is_markdown_file(f) {
            rest.push(join(site, stem(f)))
        } else {
            rest
        }
    }
}

/// The URL of the page built from the content file `name` under `site`:
/// `None` when the file is not markdown or the address does not parse.
pub fn page_url(site: &str, name: &str) -> (r: Option<String>)
    ensures
        !is_markdown_file(name@) ==> r is None,
        is_markdown_file(name@) ==> match url_text(join(site@, stem(name@))) {
            Some(u) => r matches Some(x) && x@ == u,
            None => r is None,
        },
{
    if !is_markdown_name(name) {
        return None;
    }
    let n = name.unicode_len();
    let address = join_path(site, name.substring_char(0, n - 3));
    parse_url(address.as_str())
}

/// The URLs of all pages for the content listing `names`, in order; `None`
/// when one of their addresses does not parse.
pub fn page_urls(site: &str, names: &Vec<String>) -> (r: Option<Vec<String>>)
    ensures
        match r {
            Some(v) => v@.len() == page_addresses(site@, names_view(names@)).len() && forall|k: int|
                0 <= k < v@.len() ==> url_text(page_addresses(site@, names_view(names@))[k])
                    == Some(#[trigger] v@[k]@),
            None => exists|k: int|
                0 <= k < page_addresses(site@, names_view(names@)).len() && #[trigger] url_text(
                    page_addresses(site@, names_view(names@))[k],
                ) is None,
        },
{
    let mut urls: Vec<String> = Vec::new();
    for i in 0..names.len()
        invariant
            urls@.len() == page_addresses(site@, names_view(names@.take(i as int))).len(),
            forall|k: int|
                0 <= k < urls@.len() ==> url_text(
                    page_addresses(site@, names_view(names@.take(i as int)))[k],
                ) == Some(#[trigger] urls@[k]@),
    {
        let name = names[i].as_str();
        let ghost before = names_view(names@.take(i as int));
        let ghost prefix = names_view(names@.take(i + 1));
        proof {
            assert(names@.take(i + 1) =~= names@.take(i as int).push(names@[i as int]));
            assert(prefix.drop_last() =~= before);
            assert(prefix.last() == name@);
        }
        if is_markdown_name(name) {
            match page_url(site, name) {
                Some(u) => {
                    urls.push(u);
                    assert forall|k: int| 0 <= k < urls@.len() implies url_text(
                        page_addresses(site@, prefix)[k],
                    ) == Some(#[trigger] urls@[k]@) by {
                        if k < urls@.len() - 1 {
                            assert(page_addresses(site@, prefix)[k] == page_addresses(site@, before)[k]);
                        }
                    }
                },
                None => {
                    proof {
                        let all = names_view(names@);
                        lemma_addresses_prefix(site@, all, i + 1);
                        assert(prefix =~= all.take(i + 1));
                        let k = page_addresses(site@, prefix).len() - 1;
                        assert(page_addresses(site@, prefix)[k] == join(site@, stem(name@)));
                        assert(page_addresses(site@, all.take(i + 1))[k] == page_addresses(site@, all)[k]);
                        assert(url_text(page_addresses(site@, all)[k]) is None);
                    }
                    return None;
                },
            }
        } else {
            assert(page_addresses(site@, prefix) == page_addresses(site@, before));
        }
    }
    proof {
        assert(names@.take(names@.len() as int) =~= names@);
    }
    Some(urls)
}

/// The addresses of a prefix of a listing are a prefix of its addresses.
proof fn lemma_addresses_prefix(site: Seq<char>, names: Seq<Seq<char>>, j: int)
    requires
        0 <= j <= names.len(),
    ensures
        page_addresses(site, names.take(j)).len() <= page_addresses(site, names).len(),
        forall|k: int|
            0 <= k < page_addresses(site, names.take(j)).len() ==> #[trigger] page_addresses(
                site,
                names.take(j),
            )[k] == page_addresses(site, names)[k],
    decreases names.len() - j,
{
    if j < names.len() {
        lemma_addresses_prefix(site, names, j + 1);
        assert(names.take(j + 1).drop_last() =~= names.take(j));
        let short = page_addresses(site, names.take(j));
        let long = page_addresses(site, names.take(j + 1));
        assert forall|k: int| 0 <= k < short.len() implies #[trigger] short[k] == page_addresses(
            site,
            names,
        )[k] by {
            assert(short[k] == long[k]);
        }
    } else {
        assert(names.take(j) =~= names);
    }
}

} // verus!
