use zipity::builder::{is_markdown_name, output_name, plan_build};
use zipity::front_matter::{split_content, FormatError, FrontMatter, MetadataFields};
use zipity::page::{render_entry, render_markdown, render_page};
use zipity::resolver::{finish_page, is_safe_name, locate, open_page, root_name, PageError};
use zipity::route::{route_file_name, slugify_title};
use zipity::site_index::{page_url, page_urls};
use zipity::template::{compose, PageFields};
use zipity::text::replace_token;

fn yaml_field(meta: &str, key: &str) -> Option<String> {
    let v: serde_yaml::Value = serde_yaml::from_str(meta).unwrap();
    v.get(key).and_then(|x| x.as_str()).map(|s| s.to_string())
}

fn decode(meta: &str) -> MetadataFields {
    MetadataFields {
        title: yaml_field(meta, "title"),
        slug: yaml_field(meta, "slug"),
        description: yaml_field(meta, "description"),
        keywords: yaml_field(meta, "keywords"),
        author: yaml_field(meta, "author"),
    }
}

fn fields(title: &str, slug: &str) -> MetadataFields {
    MetadataFields {
        title: Some(title.to_string()),
        slug: Some(slug.to_string()),
        description: None,
        keywords: None,
        author: None,
    }
}

#[test]
fn scenario_a_renders_heading_into_template() {
    let raw = "---\ntitle: \"Hi\"\nslug: \"hi\"\n---\n# Hello";
    let template = "<h1>{{title}}</h1><body>{{content}}</body>";
    let parts = split_content(raw).unwrap();
    assert_eq!(parts.metadata, "\ntitle: \"Hi\"\nslug: \"hi\"\n");
    assert_eq!(parts.body, "\n# Hello");
    let html = render_entry(template, &parts, decode(&parts.metadata)).unwrap();
    assert_eq!(html, "<h1>Hi</h1><body><h1>Hello</h1>\n</body>");
}

#[test]
fn scenario_b_missing_closing_delimiter_is_invalid() {
    let raw = "---\ntitle: \"Hi\"\nslug: \"hi\"\n# Hello";
    assert_eq!(split_content(raw).err(), Some(FormatError::MissingDelimiters));
    let r = open_page("routes/hi.md", Some(raw));
    assert_eq!(r.err(), Some(PageError::InvalidFormat("routes/hi.md".to_string())));
}

#[test]
fn scenario_c_missing_page_is_not_found() {
    let path = locate("missing-page").unwrap();
    assert_eq!(path, "routes/missing-page.md");
    let err = open_page(&path, None).err().unwrap();
    assert_eq!(err, PageError::NotFound("routes/missing-page.md".to_string()));
    assert!(err.message().contains("missing-page"));
    assert_eq!(err.message(), "Page not found: routes/missing-page.md");
}

#[test]
fn scenario_d_static_asset_copied_to_output_root() {
    let plan = plan_build("routes", "out", "static", &vec![], &vec!["style.css".to_string()]);
    assert_eq!(plan.assets.len(), 1);
    assert_eq!(plan.assets[0].source, "static/style.css");
    assert_eq!(plan.assets[0].target, "out/style.css");
    assert!(plan.pages.is_empty());
}

#[test]
fn pipeline_is_deterministic() {
    let raw = "---\ntitle: T\nslug: t\nauthor: A\n---\nSome *text* and ~~old~~.\n";
    let template = "<title>{{title}}</title><meta name=\"author\" content=\"{{author}}\">{{content}}";
    let p1 = split_content(raw).unwrap();
    let p2 = split_content(raw).unwrap();
    let h1 = render_entry(template, &p1, decode(&p1.metadata)).unwrap();
    let h2 = render_entry(template, &p2, decode(&p2.metadata)).unwrap();
    assert_eq!(h1, h2);
    assert_eq!(
        h1,
        "<title>T</title><meta name=\"author\" content=\"A\"><p>Some <em>text</em> and <del>old</del>.</p>\n"
    );
}

#[test]
fn fewer_than_two_delimiters_is_invalid() {
    assert_eq!(split_content("").err(), Some(FormatError::MissingDelimiters));
    assert_eq!(split_content("no metadata at all").err(), Some(FormatError::MissingDelimiters));
    assert_eq!(split_content("title: x\n---\nbody").err(), Some(FormatError::MissingDelimiters));
    assert_eq!(split_content("--- -- -").err(), Some(FormatError::MissingDelimiters));
}

#[test]
fn third_delimiter_stays_in_body() {
    let parts = split_content("---\ntitle: x\n---\nabove\n---\nbelow").unwrap();
    assert_eq!(parts.metadata, "\ntitle: x\n");
    assert_eq!(parts.body, "\nabove\n---\nbelow");
}

#[test]
fn four_dashes_split_after_first_three() {
    let parts = split_content("----a---b").unwrap();
    assert_eq!(parts.metadata, "-a");
    assert_eq!(parts.body, "b");
}

#[test]
fn every_placeholder_replaced_even_by_empty_fields() {
    let template = "{{title}}|{{slug}}|{{description}}|{{keywords}}|{{author}}|{{content}}|{{title}}";
    let f = PageFields {
        title: String::new(),
        slug: String::new(),
        description: String::new(),
        keywords: String::new(),
        author: String::new(),
        content: String::new(),
    };
    let out = compose(template, &f);
    assert_eq!(out, "||||||");
    assert!(!out.contains("{{"));
}

#[test]
fn content_is_not_searched_for_placeholders() {
    let template = "<h1>{{title}}</h1>{{content}}";
    let f = PageFields {
        title: "T".to_string(),
        slug: "t".to_string(),
        description: String::new(),
        keywords: String::new(),
        author: String::new(),
        content: "{{title}}".to_string(),
    };
    assert_eq!(compose(template, &f), "<h1>T</h1>{{title}}");
}

#[test]
fn replace_scans_left_to_right_without_overlap() {
    assert_eq!(replace_token("aaaa", "aa", "b"), "bb");
    assert_eq!(replace_token("aaa", "aa", "b"), "ba");
    assert_eq!(replace_token("abc", "x", "y"), "abc");
    assert_eq!(replace_token("", "x", "y"), "");
    assert_eq!(replace_token("xax", "x", "xx"), "xxaxx");
}

#[test]
fn optional_fields_default_to_empty() {
    let fm = FrontMatter::from_fields(fields("A", "a")).ok().unwrap();
    let html = render_page("[{{description}}][{{keywords}}][{{author}}][{{slug}}]", &fm, "");
    assert_eq!(html, "[][][][a]");
}

#[test]
fn missing_required_fields_are_rejected() {
    let mut f = fields("A", "a");
    f.title = None;
    assert_eq!(FrontMatter::from_fields(f).err(), Some(FormatError::MissingTitle));
    let mut g = fields("A", "a");
    g.slug = None;
    assert_eq!(FrontMatter::from_fields(g).err(), Some(FormatError::MissingSlug));
    let parts = split_content("---\nslug: s\n---\nbody").unwrap();
    let r = finish_page("routes/s.md", "{{content}}", &parts, decode(&parts.metadata));
    assert_eq!(r.err(), Some(PageError::InvalidFormat("routes/s.md".to_string())));
}

#[test]
fn invalid_format_message_names_file() {
    let e = PageError::InvalidFormat("routes/x.md".to_string());
    assert_eq!(e.message(), "Invalid Markdown file format: routes/x.md");
    assert_eq!(e.path(), "routes/x.md");
}

#[test]
fn unsafe_names_are_not_found() {
    assert!(is_safe_name("about"));
    assert!(!is_safe_name(""));
    assert!(!is_safe_name("../secret"));
    assert!(!is_safe_name("a/b"));
    assert!(!is_safe_name("a\\b"));
    assert_eq!(
        locate("../secret").err(),
        Some(PageError::NotFound("routes/../secret.md".to_string()))
    );
}

#[test]
fn root_resolves_index() {
    assert_eq!(root_name(), "index");
    assert_eq!(locate(root_name()).unwrap(), "routes/index.md");
}

#[test]
fn markdown_file_names() {
    assert!(is_markdown_name("a.md"));
    assert!(!is_markdown_name(".md"));
    assert!(!is_markdown_name("a.txt"));
    assert_eq!(output_name("about.md"), Some("about.html".to_string()));
    assert_eq!(output_name("v1.2.md"), Some("v1.2.html".to_string()));
    assert_eq!(output_name("notes.txt"), None);
}

#[test]
fn build_plans_one_page_per_markdown_file() {
    let names = vec!["index.md".to_string(), "logo.png".to_string(), "about.md".to_string()];
    let plan = plan_build("routes", "out", "static", &names, &vec![]);
    assert_eq!(plan.pages.len(), 2);
    assert_eq!(plan.pages[0].source, "routes/index.md");
    assert_eq!(plan.pages[0].target, "out/index.html");
    assert_eq!(plan.pages[1].source, "routes/about.md");
    assert_eq!(plan.pages[1].target, "out/about.html");
}

#[test]
fn build_plan_is_repeatable() {
    let names = vec!["a.md".to_string(), "b.md".to_string()];
    let assets = vec!["style.css".to_string()];
    let p1 = plan_build("routes", "out", "static", &names, &assets);
    let p2 = plan_build("routes", "out", "static", &names, &assets);
    let v1: Vec<(String, String)> = p1.pages.iter().map(|j| (j.source.clone(), j.target.clone())).collect();
    let v2: Vec<(String, String)> = p2.pages.iter().map(|j| (j.source.clone(), j.target.clone())).collect();
    assert_eq!(v1, v2);
    assert_eq!(p1.assets[0].target, p2.assets[0].target);
}

#[test]
fn build_and_resolve_give_same_page() {
    let raw = "---\ntitle: About\nslug: about\n---\n## About us";
    let template = "<title>{{title}}</title>{{content}}";
    let plan = plan_build("routes", "out", "static", &vec!["about.md".to_string()], &vec![]);
    let path = locate("about").unwrap();
    assert_eq!(plan.pages[0].source, path);
    let parts = open_page(&path, Some(raw)).ok().unwrap();
    let served = finish_page(&path, template, &parts, decode(&parts.metadata)).ok().unwrap();
    let built = render_entry(template, &split_content(raw).ok().unwrap(), decode(&parts.metadata)).unwrap();
    assert_eq!(served, built);
    assert_eq!(built, "<title>About</title><h2>About us</h2>\n");
}

#[test]
fn markdown_renders_strikethrough_and_raw_html() {
    assert_eq!(render_markdown("~~gone~~"), "<p><del>gone</del></p>\n");
    assert_eq!(render_markdown("<div>x</div>\n"), "<div>x</div>\n");
    assert_eq!(render_markdown(""), "");
}

#[test]
fn route_names_are_slugs() {
    assert_eq!(slugify_title("My Test String!!!1!1"), "my-test-string-1-1");
    assert_eq!(route_file_name("Index"), "index.md");
    assert_eq!(route_file_name("You & Me"), "you-me.md");
}

#[test]
fn page_urls_follow_file_names() {
    let site = "http://127.0.0.1:8080";
    assert_eq!(page_url(site, "about.md"), Some("http://127.0.0.1:8080/about".to_string()));
    assert_eq!(page_url(site, "logo.png"), None);
    assert_eq!(page_url("HTTP://Example.COM", "about.md"), Some("http://example.com/about".to_string()));
    assert_eq!(page_url("not a url", "about.md"), None);
    let names = vec!["index.md".to_string(), "notes.txt".to_string(), "blog.md".to_string()];
    assert_eq!(
        page_urls(site, &names),
        Some(vec!["http://127.0.0.1:8080/index".to_string(), "http://127.0.0.1:8080/blog".to_string()])
    );
    assert_eq!(page_urls("not a url", &names), None);
    assert_eq!(page_urls(site, &vec![]), Some(vec![]));
}
