//! The template compositor: literal substitution of the six placeholders
//! of a page template.
use vstd::prelude::*;
use crate::text::{contains, occurs_at, replace_all, replace_from, replace_token};

verus! {

/// The placeholder token for the field called `name`: `{{name}}`.
pub open spec fn token(name: Seq<char>) -> Seq<char> {
    seq!['{', '{'] + name + seq!['}', '}']
}

pub open spec fn title_name() -> Seq<char> {
    seq!['t', 'i', 't', 'l', 'e']
}

pub open spec fn slug_name() -> Seq<char> {
    seq!['s', 'l', 'u', 'g']
}

pub open spec fn description_name() -> Seq<char> {
    seq!['d', 'e', 's', 'c', 'r', 'i', 'p', 't', 'i', 'o', 'n']
}

pub open spec fn keywords_name() -> Seq<char> {
    seq!['k', 'e', 'y', 'w', 'o', 'r', 'd', 's']
}

pub open spec fn author_name() -> Seq<char> {
    seq!['a', 'u', 't', 'h', 'o', 'r']
}

pub open spec fn content_name() -> Seq<char> {
    seq!['c', 'o', 'n', 't', 'e', 'n', 't']
}

/// The values put in place of the six placeholders.
pub struct PageFields {
    pub title: String,
    pub slug: String,
    pub description: String,
    pub keywords: String,
    pub author: String,
    /// The rendered markdown body.
    pub content: String,
}

/// The template with every occurrence of each placeholder replaced by its
/// field: first the five metadata fields, then `content` last, so that the
/// rendered body is never searched for placeholders.
pub open spec fn compose_spec(
    template: Seq<char>,
    title: Seq<char>,
    slug: Seq<char>,
    description: Seq<char>,
    keywords: Seq<char>,
    author: Seq<char>,
    content: Seq<char>,
) -> Seq<char> {
    let t1 = replace_all(template, token(title_name()), title);
    let t2 = replace_all(t1, token(slug_name()), slug);
    let t3 = replace_all(t2, token(description_name()), description);
    let t4 = replace_all(t3, token(keywords_name()), keywords);
    let t5 = replace_all(t4, token(author_name()), author);
    replace_all(t5, token(content_name()), content)
}

/// `compose_spec` over the views of a `PageFields`.
pub open spec fn compose_fields(template: Seq<char>, f: PageFields) -> Seq<char> {
    compose_spec(template, f.title@, f.slug@, f.description@, f.keywords@, f.author@, f.content@)
}

/// Text with no brace in it.
pub open spec fn brace_free(s: Seq<char>) -> bool {
    forall|i: int| 0 <= i < s.len() ==> s[i] != '{' && s[i] != '}'
}

/// `{{name}}` for some non-empty brace-free name.
pub open spec fn is_token(p: Seq<char>) -> bool {
    &&& p.len() >= 5
    &&& p[0] == '{'
    &&& p[1] == '{'
    &&& p[p.len() - 2] == '}'
    &&& p[p.len() - 1] == '}'
    &&& brace_free(p.subrange(2, p.len() - 2))
}

/// The pieces of a template laid end to end.
pub open spec fn flatten(parts: Seq<Seq<char>>) -> Seq<char>
    decreases parts.len(),
{
    if parts.len() == 0 {
        Seq::empty()
    } else {
        parts[0] + flatten(parts.subrange(1, parts.len() as int))
    }
}

/// A piece, with the value `v` in place of it if it is the token `t`.
pub open spec fn subst(p: Seq<char>, t: Seq<char>, v: Seq<char>) -> Seq<char> {
    if p == t {
        v
    } else {
        p
    }
}

pub open spec fn subst_all(parts: Seq<Seq<char>>, t: Seq<char>, v: Seq<char>) -> Seq<Seq<char>> {
    parts.map_values(|p: Seq<char>| subst(p, t, v))
}

/// One of the six placeholder tokens.
pub open spec fn is_placeholder(p: Seq<char>) -> bool {
    ||| p == token(title_name())
    ||| p == token(slug_name())
    ||| p == token(description_name())
    ||| p == token(keywords_name())
    ||| p == token(author_name())
    ||| p == token(content_name())
}

/// The scan from position `a.len() + k` of `a + b` is the scan of `b` from `k`.
proof fn lemma_replace_shift(a: Seq<char>, b: Seq<char>, pat: Seq<char>, rep: Seq<char>, k: int)
    requires
        0 <= k,
        pat.len() > 0,
    ensures
        replace_from(a + b, pat, rep, a.len() + k) == replace_from(b, pat, rep, k),
    decreases b.len() - k,
{
    let s = a + b;
    if k >= b.len() {
        assert(replace_from(s, pat, rep, a.len() + k) =~= Seq::<char>::empty());
        assert(replace_from(b, pat, rep, k) =~= Seq::<char>::empty());
    } else {
        if k + pat.len() <= b.len() {
            assert(s.subrange(a.len() + k, a.len() + k + pat.len()) =~= b.subrange(k, k + pat.len()));
        }
        assert(occurs_at(s, pat, a.len() + k) == occurs_at(b, pat, k));
        if occurs_at(b, pat, k) {
            lemma_replace_shift(a, b, pat, rep, k + pat.len());
            assert(a.len() + k + pat.len() == a.len() + (k + pat.len()));
        } else {
            lemma_replace_shift(a, b, pat, rep, k + 1);
            assert(s[a.len() + k] == b[k]);
        }
    }
}

/// Where no occurrence starts in `[i, j)`, the scan copies that stretch.
proof fn lemma_replace_skip(s: Seq<char>, pat: Seq<char>, rep: Seq<char>, i: int, j: int)
    requires
        0 <= i <= j <= s.len(),
        pat.len() > 0,
        forall|k: int| i <= k < j ==> !occurs_at(s, pat, k),
    ensures
        replace_from(s, pat, rep, i) == s.subrange(i, j) + replace_from(s, pat, rep, j),
    decreases j - i,
{
    if i < j {
        lemma_replace_skip(s, pat, rep, i + 1, j);
        assert(s.subrange(i, j) =~= seq![s[i]] + s.subrange(i + 1, j));
    } else {
        assert(s.subrange(i, j) =~= Seq::<char>::empty());
    }
}

/// No token starts inside a brace-free piece or inside another token.
proof fn lemma_no_token_inside(p: Seq<char>, rest: Seq<char>, t: Seq<char>, k: int)
    requires
        is_token(t),
        brace_free(p) || is_token(p),
        p != t,
        0 <= k < p.len(),
    ensures
        !occurs_at(p + rest, t, k),
{
    let s = p + rest;
    if occurs_at(s, t, k) {
        assert(s.subrange(k, k + t.len())[0] == t[0]);
        assert(s[k] == '{');
        if !brace_free(p) {
            let m = p.subrange(2, p.len() - 2);
            let n = t.subrange(2, t.len() - 2);
            assert(brace_free(m));
            assert(brace_free(n));
            if k >= 2 {
                if k < p.len() - 2 {
                    assert(p[k] == m[k - 2]);
                }
            } else if k == 1 {
                assert(s.subrange(k, k + t.len())[1] == t[1]);
                assert(p[2] == m[0]);
            } else {
                let w = s.subrange(0, t.len() as int);
                if t.len() < p.len() {
                    assert(w[t.len() - 2] == '}');
                    assert(p[t.len() - 2] == m[t.len() - 4]);
                } else if t.len() > p.len() {
                    assert(w[p.len() - 2] == t[p.len() - 2]);
                    assert(t[p.len() - 2] == n[p.len() - 4]);
                } else {
                    assert(w =~= p);
                }
            }
        }
    }
}

/// Replacing the token `t` in a piece followed by more text replaces it in
/// the piece, then goes on with the rest.
proof fn lemma_replace_piece(p: Seq<char>, rest: Seq<char>, t: Seq<char>, v: Seq<char>)
    requires
        is_token(t),
        brace_free(p) || is_token(p),
    ensures
        replace_all(p + rest, t, v) == subst(p, t, v) + replace_all(rest, t, v),
{
    let s = p + rest;
    lemma_replace_shift(p, rest, t, v, 0);
    if p == t {
        assert(s.subrange(0, t.len() as int) =~= t);
        assert(occurs_at(s, t, 0));
    } else {
        assert forall|k: int| 0 <= k < p.len() implies !occurs_at(s, t, k) by {
            lemma_no_token_inside(p, rest, t, k);
        }
        lemma_replace_skip(s, t, v, 0, p.len() as int);
        assert(s.subrange(0, p.len() as int) =~= p);
    }
}

/// Replacing a token in a template made of brace-free pieces and tokens
/// replaces exactly the pieces that are that token.
proof fn lemma_replace_flatten(parts: Seq<Seq<char>>, t: Seq<char>, v: Seq<char>)
    requires
        is_token(t),
        forall|i: int| 0 <= i < parts.len() ==> brace_free(#[trigger] parts[i]) || is_token(parts[i]),
    ensures
        replace_all(flatten(parts), t, v) == flatten(subst_all(parts, t, v)),
    decreases parts.len(),
{
    if parts.len() == 0 {
        assert(replace_all(Seq::<char>::empty(), t, v) =~= Seq::<char>::empty());
    } else {
        let rest = parts.subrange(1, parts.len() as int);
        assert forall|i: int| 0 <= i < rest.len() implies brace_free(#[trigger] rest[i]) || is_token(
            rest[i],
        ) by {
            assert(rest[i] == parts[i + 1]);
        }
        lemma_replace_flatten(rest, t, v);
        lemma_replace_piece(parts[0], flatten(rest), t, v);
        assert(subst_all(parts, t, v).subrange(1, parts.len() as int) =~= subst_all(rest, t, v));
    }
}

/// Pieces that are all brace-free make brace-free text.
proof fn lemma_flatten_brace_free(parts: Seq<Seq<char>>)
    requires
        forall|i: int| 0 <= i < parts.len() ==> brace_free(#[trigger] parts[i]),
    ensures
        brace_free(flatten(parts)),
    decreases parts.len(),
{
    if parts.len() > 0 {
        let rest = parts.subrange(1, parts.len() as int);
        assert forall|i: int| 0 <= i < rest.len() implies brace_free(#[trigger] rest[i]) by {
            assert(rest[i] == parts[i + 1]);
        }
        lemma_flatten_brace_free(rest);
        let f = flatten(parts);
        assert forall|i: int| 0 <= i < f.len() implies f[i] != '{' && f[i] != '}' by {
            if i >= parts[0].len() {
                assert(f[i] == flatten(rest)[i - parts[0].len()]);
            }
        }
    }
}

/// The six placeholder tokens are tokens.
proof fn lemma_placeholders_are_tokens()
    ensures
        is_token(token(title_name())),
        is_token(token(slug_name())),
        is_token(token(description_name())),
        is_token(token(keywords_name())),
        is_token(token(author_name())),
        is_token(token(content_name())),
{
    assert(token(title_name()).subrange(2, 7) =~= title_name());
    assert(token(slug_name()).subrange(2, 6) =~= slug_name());
    assert(token(description_name()).subrange(2, 13) =~= description_name());
    assert(token(keywords_name()).subrange(2, 10) =~= keywords_name());
    assert(token(author_name()).subrange(2, 8) =~= author_name());
    assert(token(content_name()).subrange(2, 9) =~= content_name());
}

/// One step of composition: after replacing `t` by the brace-free `v`,
/// every piece is brace-free or one of the tokens `rest` still allows.
proof fn lemma_step(
    parts: Seq<Seq<char>>,
    t: Seq<char>,
    v: Seq<char>,
    allowed: spec_fn(Seq<char>) -> bool,
    rest: spec_fn(Seq<char>) -> bool,
)
    requires
        is_token(t),
        brace_free(v),
        forall|p: Seq<char>| #[trigger] allowed(p) ==> is_token(p) && (p == t || rest(p)),
        forall|i: int| 0 <= i < parts.len() ==> brace_free(#[trigger] parts[i]) || allowed(parts[i]),
    ensures
        replace_all(flatten(parts), t, v) == flatten(subst_all(parts, t, v)),
        forall|i: int|
            0 <= i < parts.len() ==> brace_free(#[trigger] subst_all(parts, t, v)[i]) || rest(
                subst_all(parts, t, v)[i],
            ),
{
    assert forall|i: int| 0 <= i < parts.len() implies brace_free(#[trigger] parts[i]) || is_token(
        parts[i],
    ) by {
        if !brace_free(parts[i]) {
            assert(allowed(parts[i]));
        }
    }
    lemma_replace_flatten(parts, t, v);
    assert forall|i: int| 0 <= i < parts.len() implies brace_free(
        #[trigger] subst_all(parts, t, v)[i],
    ) || rest(subst_all(parts, t, v)[i]) by {
        if !brace_free(parts[i]) {
            assert(allowed(parts[i]));
        }
    }
}

/// Every placeholder of a template is replaced. Take a template made of
/// brace-free text and the six placeholder tokens, and field values with no
/// brace in them (the empty value included): composing replaces each token
/// by its value, so the page holds no brace and no placeholder token at all.
pub proof fn lemma_compose_replaces_every_placeholder(
    parts: Seq<Seq<char>>,
    title: Seq<char>,
    slug: Seq<char>,
    description: Seq<char>,
    keywords: Seq<char>,
    author: Seq<char>,
    content: Seq<char>,
)
    requires
        forall|i: int| 0 <= i < parts.len() ==> brace_free(#[trigger] parts[i]) || is_placeholder(parts[i]),
        brace_free(title),
        brace_free(slug),
        brace_free(description),
        brace_free(keywords),
        brace_free(author),
        brace_free(content),
    ensures
        brace_free(compose_spec(flatten(parts), title, slug, description, keywords, author, content)),
        forall|p: Seq<char>|
            #[trigger] is_placeholder(p) ==> !contains(
                compose_spec(flatten(parts), title, slug, description, keywords, author, content),
                p,
            ),
{
    lemma_placeholders_are_tokens();
    let t1 = token(title_name());
    let t2 = token(slug_name());
    let t3 = token(description_name());
    let t4 = token(keywords_name());
    let t5 = token(author_name());
    let t6 = token(content_name());
    let a1 = |p: Seq<char>| is_placeholder(p);
    let a2 = |p: Seq<char>| p == t2 || p == t3 || p == t4 || p == t5 || p == t6;
    let a3 = |p: Seq<char>| p == t3 || p == t4 || p == t5 || p == t6;
    let a4 = |p: Seq<char>| p == t4 || p == t5 || p == t6;
    let a5 = |p: Seq<char>| p == t5 || p == t6;
    let a6 = |p: Seq<char>| p == t6;
    let a7 = |p: Seq<char>| false;
    assert forall|i: int| 0 <= i < parts.len() implies brace_free(#[trigger] parts[i]) || a1(parts[i]) by {}
    let p1 = subst_all(parts, t1, title);
    lemma_step(parts, t1, title, a1, a2);
    let p2 = subst_all(p1, t2, slug);
    lemma_step(p1, t2, slug, a2, a3);
    let p3 = subst_all(p2, t3, description);
    lemma_step(p2, t3, description, a3, a4);
    let p4 = subst_all(p3, t4, keywords);
    lemma_step(p3, t4, keywords, a4, a5);
    let p5 = subst_all(p4, t5, author);
    lemma_step(p4, t5, author, a5, a6);
    let p6 = subst_all(p5, t6, content);
    lemma_step(p5, t6, content, a6, a7);
    assert forall|i: int| 0 <= i < p6.len() implies brace_free(#[trigger] p6[i]) by {}
    lemma_flatten_brace_free(p6);
    let out = compose_spec(flatten(parts), title, slug, description, keywords, author, content);
    assert(out == flatten(p6));
    assert forall|p: Seq<char>| #[trigger] is_placeholder(p) implies !contains(out, p) by {
        if contains(out, p) {
            let i = choose|i: int| occurs_at(out, p, i);
            assert(out.subrange(i, i + p.len())[0] == p[0]);
        }
    }
}

/// Substitutes the six placeholders of `template` with the given fields.
pub fn compose(template: &str, fields: &PageFields) -> (r: String)
    ensures
        r@ == compose_fields(template@, *fields),
{
    proof {
        reveal_strlit("{{title}}");
        reveal_strlit("{{slug}}");
        reveal_strlit("{{description}}");
        reveal_strlit("{{keywords}}");
        reveal_strlit("{{author}}");
        reveal_strlit("{{content}}");
        assert("{{title}}"@ =~= token(title_name()));
        assert("{{slug}}"@ =~= token(slug_name()));
        assert("{{description}}"@ =~= token(description_name()));
        assert("{{keywords}}"@ =~= token(keywords_name()));
        assert("{{author}}"@ =~= token(author_name()));
        assert("{{content}}"@ =~= token(content_name()));
    }
    let t1 = replace_token(template, "{{title}}", fields.title.as_str());
    let t2 = replace_token(t1.as_str(), "{{slug}}", fields.slug.as_str());
    let t3 = replace_token(t2.as_str(), "{{description}}", fields.description.as_str());
    let t4 = replace_token(t3.as_str(), "{{keywords}}", fields.keywords.as_str());
    let t5 = replace_token(t4.as_str(), "{{author}}", fields.author.as_str());
    replace_token(t5.as_str(), "{{content}}", fields.content.as_str())
}

} // verus!
