//! Character-level text operations on which the content pipeline is built:
//! searching for a literal token and replacing every occurrence of it.
use vstd::prelude::*;

verus! {

/// `pat` occurs in `s` starting at position `i`.
pub open spec fn occurs_at(s: Seq<char>, pat: Seq<char>, i: int) -> bool {
    &&& 0 <= i
    &&& i + pat.len() <= s.len()
    &&& s.subrange(i, i + pat.len()) == pat
}

/// The leftmost position at or after `from` where `pat` occurs in `s`.
pub open spec fn find_from(s: Seq<char>, pat: Seq<char>, from: int) -> Option<int>
    decreases s.len() - from,
{
    if from < 0 || from >= s.len() || from + pat.len() > s.len() {
        None
    } else if occurs_at(s, pat, from) {
        Some(from)
    } else {
        find_from(s, pat, from + 1)
    }
}

/// How many non-overlapping occurrences of `pat` a left-to-right scan of `s`
/// finds from position `i` on.
pub open spec fn count_from(s: Seq<char>, pat: Seq<char>, i: int) -> nat
    decreases s.len() - i,
{
    if i < 0 || i >= s.len() || pat.len() == 0 {
        0
    } else if occurs_at(s, pat, i) {
        1 + count_from(s, pat, i + pat.len())
    } else {
        count_from(s, pat, i + 1)
    }
}

/// `s` from position `i` on, with every non-overlapping occurrence of `pat`
/// (scanned left to right) replaced by `rep`.
pub open spec fn replace_from(s: Seq<char>, pat: Seq<char>, rep: Seq<char>, i: int) -> Seq<char>
    decreases s.len() - i,
{
    if i < 0 || i >= s.len() || pat.len() == 0 {
        s.subrange(if 0 <= i <= s.len() { i } else { s.len() as int }, s.len() as int)
    } else if occurs_at(s, pat, i) {
        rep + replace_from(s, pat, rep, i + pat.len())
    } else {
        seq![s[i]] + replace_from(s, pat, rep, i + 1)
    }
}

/// `s` with every non-overlapping occurrence of `pat` replaced by `rep`.
pub open spec fn replace_all(s: Seq<char>, pat: Seq<char>, rep: Seq<char>) -> Seq<char> {
    replace_from(s, pat, rep, 0)
}

/// `t` holds `pat` somewhere.
pub open spec fn contains(t: Seq<char>, pat: Seq<char>) -> bool {
    exists|i: int| occurs_at(t, pat, i)
}

/// A search that finds nothing leaves nothing to count; one that finds an
/// occurrence counts it and goes on after it.
pub proof fn lemma_count_find(s: Seq<char>, pat: Seq<char>, i: int)
    requires
        0 <= i,
        pat.len() > 0,
    ensures
        match find_from(s, pat, i) {
            None => count_from(s, pat, i) == 0,
            Some(a) => count_from(s, pat, i) == 1 + count_from(s, pat, a + pat.len()),
        },
    decreases s.len() - i,
{
    if i >= s.len() {
    } else if i + pat.len() > s.len() {
        lemma_count_find(s, pat, i + 1);
        lemma_find_past_end(s, pat, i + 1);
    } else if occurs_at(s, pat, i) {
    } else {
        lemma_count_find(s, pat, i + 1);
    }
}

/// Copies the characters of `s` into a vector, in order.
pub fn chars_of(s: &str) -> (r: Vec<char>)
    ensures
        r@ == s@,
{
    let mut r: Vec<char> = Vec::new();
    for c in it: s.chars()
        invariant
            it.seq() == s@,
            r@ == s@.take(it.index() as int),
    {
        r.push(c);
        assert(r@ =~= s@.take(it.index() as int + 1));
    }
    assert(r@ =~= s@);
    r
}

/// Whether `pat` occurs in `s` at position `i`.
pub fn matches_at(s: &Vec<char>, pat: &Vec<char>, i: usize) -> (r: bool)
    ensures
        r == occurs_at(s@, pat@, i as int),
{
    if i > s.len() || pat.len() > s.len() - i {
        return false;
    }
    let mut k: usize = 0;
    while k < pat.len()
        invariant
            i + pat@.len() <= s@.len(),
            s@.len() <= usize::MAX,
            k <= pat@.len(),
            forall|j: int| 0 <= j < k ==> s@[i + j] == pat@[j],
        decreases pat@.len() - k,
    {
        assert(i + k < s@.len());
        if s[i + k] != pat[k] {
            assert(s@.subrange(i as int, i + pat@.len())[k as int] != pat@[k as int]);
            return false;
        }
        k = k + 1;
    }
    assert(s@.subrange(i as int, i + pat@.len()) =~= pat@);
    true
}

/// With no occurrence of `pat` in `[from, i)`, the search from `from` is the
/// search from `i`.
pub proof fn lemma_find_skip(s: Seq<char>, pat: Seq<char>, from: int, i: int)
    requires
        0 <= from <= i,
        forall|j: int| from <= j < i ==> !occurs_at(s, pat, j),
    ensures
        find_from(s, pat, from) == find_from(s, pat, i),
    decreases i - from,
{
    if from < i {
        lemma_find_skip(s, pat, from + 1, i);
        if from >= s.len() || from + pat.len() > s.len() {
            assert(find_from(s, pat, i) is None) by {
                lemma_find_past_end(s, pat, i);
            }
        }
    }
}

/// No search starts once fewer than `pat.len()` characters are left.
pub proof fn lemma_find_past_end(s: Seq<char>, pat: Seq<char>, i: int)
    requires
        i >= s.len() || i + pat.len() > s.len(),
    ensures
        find_from(s, pat, i) is None,
{
}

/// What a search finds is an occurrence, and nothing earlier is one.
pub proof fn lemma_find_result(s: Seq<char>, pat: Seq<char>, from: int)
    requires
        0 <= from,
        pat.len() > 0,
    ensures
        match find_from(s, pat, from) {
            Some(p) => from <= p && occurs_at(s, pat, p) && forall|j: int|
                from <= j < p ==> !occurs_at(s, pat, j),
            None => forall|j: int| from <= j ==> !occurs_at(s, pat, j),
        },
    decreases s.len() - from,
{
    if from >= s.len() || from + pat.len() > s.len() {
    } else if occurs_at(s, pat, from) {
    } else {
        lemma_find_result(s, pat, from + 1);
    }
}

/// The leftmost occurrence of `pat` in `s` at or after `from`.
pub fn find_token(s: &Vec<char>, pat: &Vec<char>, from: usize) -> (r: Option<usize>)
    ensures
        match r {
            Some(p) => find_from(s@, pat@, from as int) == Some(p as int),
            None => find_from(s@, pat@, from as int) is None,
        },
{
    let mut i: usize = from;
    while i < s.len()
        invariant
            from <= i,
            i == from || i <= s@.len(),
            forall|j: int| from <= j < i ==> !occurs_at(s@, pat@, j),
        decreases s@.len() - i,
    {
        if matches_at(s, pat, i) {
            proof {
                lemma_find_skip(s@, pat@, from as int, i as int);
            }
            return Some(i);
        }
        i = i + 1;
    }
    proof {
        if from >= s@.len() {
            lemma_find_past_end(s@, pat@, from as int);
        } else {
            lemma_find_skip(s@, pat@, from as int, i as int);
            lemma_find_past_end(s@, pat@, i as int);
        }
    }
    None
}

/// Every occurrence of `pat` in `s` replaced by `rep`, scanning left to
/// right and never looking into text already put in place.
pub fn replace_token(s: &str, pat: &str, rep: &str) -> (r: String)
    requires
        pat@.len() > 0,
    ensures
        r@ == replace_all(s@, pat@, rep@),
{
    let sv = chars_of(s);
    let pv = chars_of(pat);
    let n = sv.len();
    let mut out = String::new();
    let mut start: usize = 0;
    let mut i: usize = 0;
    while i < n
        invariant
            sv@ == s@,
            pv@ == pat@,
            n == s@.len(),
            pat@.len() > 0,
            start <= i <= n,
            out@ + replace_from(s@, pat@, rep@, start as int) == replace_all(s@, pat@, rep@),
            s@.subrange(start as int, i as int) + replace_from(s@, pat@, rep@, i as int)
                == replace_from(s@, pat@, rep@, start as int),
        decreases n - i,
    {
        if matches_at(&sv, &pv, i) {
            let lit = s.substring_char(start, i);
            out.append(lit);
            out.append(rep);
            proof {
                assert(out@ + replace_from(s@, pat@, rep@, i + pat@.len()) =~= out@.subrange(
                    0,
                    out@.len() - lit@.len() - rep@.len(),
                ) + (lit@ + (rep@ + replace_from(s@, pat@, rep@, i + pat@.len()))));
            }
            i = i + pv.len();
            start = i;
            assert(s@.subrange(start as int, i as int) =~= Seq::<char>::empty());
        } else {
            proof {
                assert(s@.subrange(start as int, i + 1) =~= s@.subrange(start as int, i as int)
                    + seq![s@[i as int]]);
            }
            i = i + 1;
        }
    }
    let lit = s.substring_char(start, n);
    out.append(lit);
    proof {
        assert(replace_from(s@, pat@, rep@, n as int) =~= Seq::<char>::empty());
    }
    out
}

} // verus!
