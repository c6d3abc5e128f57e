//! The content pipeline shared by the request-time resolver and the batch
//! builder: front matter, then markdown, then the template, in that order.
use vstd::prelude::*;
use crate::front_matter::{
    ContentParts, FormatError, FrontMatter, MetadataFields, or_empty, split_spec, text_or_empty,
};
use crate::template::{PageFields, compose, compose_spec};

verus! {

/// The HTML that pulldown-cmark renders for a markdown text, with
/// strikethrough enabled besides CommonMark.
pub uninterp spec fn markdown_html(body: Seq<char>) -> Seq<char>;

/// Relies on pulldown_cmark::Parser::new_ext and pulldown_cmark::html::push_html:
/// the HTML is a function of the markdown text and the options alone.
#[verifier::external_body]
pub fn render_markdown(body: &str) -> (r: String)
    ensures
        r@ == markdown_html(body@),
{
    let mut options = pulldown_cmark::Options::empty();
    options.insert(pulldown_cmark::Options::ENABLE_STRIKETHROUGH);
    let parser = pulldown_cmark::Parser::new_ext(body, options);
    let mut html = String::new();
    pulldown_cmark::html::push_html(&mut html, parser);
    html
}

/// The page for the metadata `fm` and the already rendered body `content`.
pub open spec fn page_html(template: Seq<char>, fm: FrontMatter, content: Seq<char>) -> Seq<char> {
    compose_spec(
        template,
        fm.title@,
        fm.slug@,
        or_empty(fm.description),
        or_empty(fm.keywords),
        or_empty(fm.author),
        content,
    )
}

/// The page for a content file whose metadata decodes to `fields` and
/// whose body is `body`: `None` when a required field is missing.
pub open spec fn entry_html(template: Seq<char>, fields: MetadataFields, body: Seq<char>) -> Option<
    Seq<char>,
> {
    match (fields.title, fields.slug) {
        (Some(title), Some(slug)) => Some(
            compose_spec(
                template,
                title@,
                slug@,
                or_empty(fields.description),
                or_empty(fields.keywords),
                or_empty(fields.author),
                markdown_html(body),
            ),
        ),
        _ => None,
    }
}

/// The pipeline is deterministic: the same content file, decoded to the
/// same metadata, put into the same template, gives the same page.
pub proof fn lemma_pipeline_deterministic(
    template1: Seq<char>,
    template2: Seq<char>,
    raw1: Seq<char>,
    raw2: Seq<char>,
    fields1: MetadataFields,
    fields2: MetadataFields,
)
    requires
        template1 == template2,
        raw1 == raw2,
        fields1 == fields2,
        split_spec(raw1) is Some,
    ensures
        split_spec(raw1) == split_spec(raw2),
        entry_html(template1, fields1, (split_spec(raw1)->0).1) == entry_html(
            template2,
            fields2,
            (split_spec(raw2)->0).1,
        ),
{
}

/// Puts the metadata and an already rendered body into a template.
pub fn compose_page(template: &str, fm: &FrontMatter, content: String) -> (r: String)
    ensures
        r@ == page_html(template@, *fm, content@),
{
    let fields = PageFields {
        title: fm.title.clone(),
        slug: fm.slug.clone(),
        description: text_or_empty(&fm.description).to_string(),
        keywords: text_or_empty(&fm.keywords).to_string(),
        author: text_or_empty(&fm.author).to_string(),
        content,
    };
    compose(template, &fields)
}

/// Renders a markdown body and puts it, with the metadata, into a template.
pub fn render_page(template: &str, fm: &FrontMatter, body: &str) -> (r: String)
    ensures
        r@ == page_html(template@, *fm, markdown_html(body@)),
{
    let content = render_markdown(body);
    compose_page(template, fm, content)
}

/// The whole pipeline after the metadata block has been decoded: the
/// required-field rule, markdown, then the template.
pub fn render_entry(template: &str, parts: &ContentParts, fields: MetadataFields) -> (r: Result<
    String,
    FormatError,
>)
    ensures
        match r {
            Ok(html) => entry_html(template@, fields, parts.body@) == Some(html@),
            Err(e) => entry_html(template@, fields, parts.body@) is None && (fields.title is None
                ==> e == FormatError::MissingTitle) && (fields.title is Some ==> e
                == FormatError::MissingSlug),
        },
{
    match FrontMatter::from_fields(fields) {
        Ok(fm) => Ok(render_page(template, &fm, parts.body.as_str())),
        Err(e) => Err(e),
    }
}

} // verus!
