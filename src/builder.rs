//! The ahead-of-time consumer of the pipeline: which files a build copies
//! and which it renders, and under which names.
use vstd::prelude::*;
use crate::text::chars_of;
use crate::resolver::{content_path_spec, markdown_ext};

verus! {

/// `dir/name`.
pub open spec fn join(dir: Seq<char>, name: Seq<char>) -> Seq<char> {
    dir + seq!['/'] + name
}

/// A file name with a non-empty stem and the markdown extension.
pub open spec fn is_markdown_file(name: Seq<char>) -> bool {
    name.len() > 3 && name.subrange(name.len() - 3, name.len() as int) == markdown_ext()
}

/// A markdown file name without its extension.
pub open spec fn stem(name: Seq<char>) -> Seq<char> {
    name.subrange(0, name.len() - 3)
}

/// The name of the page built from the markdown file `name`.
pub open spec fn html_name(name: Seq<char>) -> Seq<char> {
    stem(name) + seq!['.', 'h', 't', 'm', 'l']
}

/// One file the build reads and the file it writes.
pub struct FileJob {
    pub source: String,
    pub target: String,
}

/// What a build does: copy each static asset, then render each content file.
pub struct BuildPlan {
    pub assets: Vec<FileJob>,
    pub pages: Vec<FileJob>,
}

pub open spec fn job_view(j: FileJob) -> (Seq<char>, Seq<char>) {
    (j.source@, j.target@)
}

pub open spec fn names_view(v: Seq<String>) -> Seq<Seq<char>> {
    v.map_values(|s: String| s@)
}

/// The copies of the assets `names`, from `static_root` to `out_root`.
pub open spec fn asset_jobs(static_root: Seq<char>, out_root: Seq<char>, names: Seq<Seq<char>>) -> Seq<
    (Seq<char>, Seq<char>),
> {
    names.map_values(|n: Seq<char>| (join(static_root, n), join(out_root, n)))
}

/// The pages built from the markdown files among `names`, in order; other
/// files are left out.
pub open spec fn page_jobs(content_root: Seq<char>, out_root: Seq<char>, names: Seq<Seq<char>>) -> Seq<
    (Seq<char>, Seq<char>),
>
    decreases names.len(),
{
    if names.len() == 0 {
        Seq::empty()
    } else {
        let rest = page_jobs(content_root, out_root, names.drop_last());
        let f = names.last();
        if is_markdown_file(f) {
            rest.push((join(content_root, f), join(out_root, html_name(f))))
        } else {
            rest
        }
    }
}

/// The plan of a build, over the two directory listings.
pub open spec fn plan_spec(
    content_root: Seq<char>,
    out_root: Seq<char>,
    static_root: Seq<char>,
    content_names: Seq<Seq<char>>,
    asset_names: Seq<Seq<char>>,
) -> (Seq<(Seq<char>, Seq<char>)>, Seq<(Seq<char>, Seq<char>)>) {
    (
        asset_jobs(static_root, out_root, asset_names),
        page_jobs(content_root, out_root, content_names),
    )
}

/// The directory the request-time resolver reads content files from.
pub open spec fn routes_dir() -> Seq<char> {
    seq!['r', 'o', 'u', 't', 'e', 's']
}

/// Distinct markdown files are built into distinct pages.
pub proof fn lemma_html_name_injective(out_root: Seq<char>, f: Seq<char>, g: Seq<char>)
    requires
        is_markdown_file(f),
        is_markdown_file(g),
        join(out_root, html_name(f)) == join(out_root, html_name(g)),
    ensures
        f == g,
{
    let jf = join(out_root, html_name(f));
    let k: int = out_root.len() as int + 1;
    assert(jf.subrange(k, jf.len() as int) =~= html_name(f));
    assert(jf.subrange(k, jf.len() as int) =~= html_name(g));
    assert(stem(f) =~= html_name(f).subrange(0, html_name(f).len() - 5));
    assert(stem(g) =~= html_name(g).subrange(0, html_name(g).len() - 5));
    assert(f =~= stem(f) + markdown_ext());
    assert(g =~= stem(g) + markdown_ext());
}

/// Building N markdown files with distinct names plans exactly N pages, one
/// for each file in order, all written to distinct files.
pub proof fn lemma_one_page_per_file(content_root: Seq<char>, out_root: Seq<char>, names: Seq<Seq<char>>)
    requires
        forall|i: int| 0 <= i < names.len() ==> is_markdown_file(#[trigger] names[i]),
        forall|i: int, j: int| 0 <= i < j < names.len() ==> names[i] != names[j],
    ensures
        page_jobs(content_root, out_root, names).len() == names.len(),
        forall|i: int|
            0 <= i < names.len() ==> #[trigger] page_jobs(content_root, out_root, names)[i] == (
                join(content_root, names[i]),
                join(out_root, html_name(names[i])),
            ),
        forall|i: int, j: int|
            0 <= i < j < names.len() ==> page_jobs(content_root, out_root, names)[i].1
                != page_jobs(content_root, out_root, names)[j].1,
    decreases names.len(),
{
    if names.len() > 0 {
        let rest = names.drop_last();
        lemma_one_page_per_file(content_root, out_root, rest);
        let jobs = page_jobs(content_root, out_root, names);
        assert forall|i: int, j: int| 0 <= i < j < names.len() implies jobs[i].1 != jobs[j].1 by {
            if jobs[i].1 == jobs[j].1 {
                lemma_html_name_injective(out_root, names[i], names[j]);
            }
        }
    }
}

/// A page built from the markdown file `f` of the content directory is
/// read from the very file that the resolver reads for the logical name
/// `stem(f)`, and is written under that name with the `.html` extension;
/// both then run the same pipeline (`entry_html`).
pub proof fn lemma_build_matches_resolve(f: Seq<char>)
    requires
        is_markdown_file(f),
    ensures
        join(routes_dir(), f) == content_path_spec(stem(f)),
        html_name(f) == stem(f) + seq!['.', 'h', 't', 'm', 'l'],
{
    assert(f =~= stem(f) + markdown_ext());
    assert(join(routes_dir(), f) =~= content_path_spec(stem(f)));
}

/// Planning a build twice on the same listings gives the same plan, so the
/// same files are copied and rendered to the same targets both times.
pub proof fn lemma_build_idempotent(
    content_root: Seq<char>,
    out_root: Seq<char>,
    static_root: Seq<char>,
    content_names1: Seq<Seq<char>>,
    asset_names1: Seq<Seq<char>>,
    content_names2: Seq<Seq<char>>,
    asset_names2: Seq<Seq<char>>,
)
    requires
        content_names1 == content_names2,
        asset_names1 == asset_names2,
    ensures
        plan_spec(content_root, out_root, static_root, content_names1, asset_names1) == plan_spec(
            content_root,
            out_root,
            static_root,
            content_names2,
            asset_names2,
        ),
{
}

/// `dir/name` as a string.
pub fn join_path(dir: &str, name: &str) -> (r: String)
    ensures
        r@ == join(dir@, name@),
{
    proof {
        reveal_strlit("/");
    }
    let mut p = dir.to_string();
    p.append("/");
    p.append(name);
    p
}

/// Whether `name` is a markdown file name with a non-empty stem.
pub fn is_markdown_name(name: &str) -> (r: bool)
    ensures
        r == is_markdown_file(name@),
{
    let v = chars_of(name);
    let n = v.len();
    if n <= 3 {
        return false;
    }
    let r = v[n - 3] == '.' && v[n - 2] == 'm' && v[n - 1] == 'd';
    proof {
        let tail = name@.subrange(n - 3, n as int);
        if r {
            assert(tail =~= markdown_ext());
        } else if tail == markdown_ext() {
            assert(tail[0] == '.' && tail[1] == 'm' && tail[2] == 'd');
        }
    }
    r
}

/// The name of the page built from a content file, `None` for a file that
/// is not markdown.
pub fn output_name(name: &str) -> (r: Option<String>)
    ensures
        match r {
            Some(o) => is_markdown_file(name@) && o@ == html_name(name@),
            None => !is_markdown_file(name@),
        },
{
    if is_markdown_name(name) {
        proof {
            reveal_strlit(".html");
            assert(".html"@ =~= seq!['.', 'h', 't', 'm', 'l']);
        }
        let n = name.unicode_len();
        let mut o = name.substring_char(0, n - 3).to_string();
        o.append(".html");
        Some(o)
    } else {
        None
    }
}

/// Plans a build: every listed asset is copied flat into `out_root`, and
/// every markdown file of `content_root` becomes one page of `out_root`.
pub fn plan_build(
    content_root: &str,
    out_root: &str,
    static_root: &str,
    content_names: &Vec<String>,
    asset_names: &Vec<String>,
) -> (r: BuildPlan)
    ensures
        (r.assets@.map_values(|j: FileJob| job_view(j)), r.pages@.map_values(
            |j: FileJob| job_view(j),
        )) == plan_spec(
            content_root@,
            out_root@,
            static_root@,
            names_view(content_names@),
            names_view(asset_names@),
        ),
{
    let mut assets: Vec<FileJob> = Vec::new();
    for i in 0..asset_names.len()
        invariant
            assets@.len() == i,
            forall|k: int|
                0 <= k < i ==> #[trigger] job_view(assets@[k]) == (
                    join(static_root@, asset_names@[k]@),
                    join(out_root@, asset_names@[k]@),
                ),
    {
        let name = asset_names[i].as_str();
        assets.push(
            FileJob { source: join_path(static_root, name), target: join_path(out_root, name) },
        );
    }
    assert(assets@.map_values(|j: FileJob| job_view(j)) =~= asset_jobs(
        static_root@,
        out_root@,
        names_view(asset_names@),
    ));
    let mut pages: Vec<FileJob> = Vec::new();
    for i in 0..content_names.len()
        invariant
            pages@.map_values(|j: FileJob| job_view(j)) == page_jobs(
                content_root@,
                out_root@,
                names_view(content_names@.take(i as int)),
            ),
    {
        let name = content_names[i].as_str();
        let ghost prefix = names_view(content_names@.take(i + 1));
        proof {
            assert(content_names@.take(i + 1) =~= content_names@.take(i as int).push(content_names@[i as int]));
            assert(prefix.drop_last() =~= names_view(content_names@.take(i as int)));
            assert(prefix.last() == name@);
        }
        match output_name(name) {
            Some(o) => {
                pages.push(
                    FileJob { source: join_path(content_root, name), target: join_path(out_root, o.as_str()) },
                );
                assert(pages@.map_values(|j: FileJob| job_view(j)) =~= page_jobs(
                    content_root@,
                    out_root@,
                    prefix,
                ));
            },
            None => {},
        }
    }
    proof {
        assert(content_names@.take(content_names@.len() as int) =~= content_names@);
    }
    BuildPlan { assets, pages }
}

} // verus!
