//! The rendering pipeline: markdown in, a full HTML page out. Pure
//! and deterministic; no I/O. The markdown renderer performs no
//! sanitization of its own: raw HTML embedded in the input passes
//! through into the page, a documented, accepted risk of this design.

use vstd::prelude::*;
use vstd::string::StringExecFns;

verus! {

/// The shared stylesheet, inlined into every page.
pub const STYLES: &'static str = "body{margin:2rem auto;max-width:46rem;padding:0 1rem;font-family:sans-serif}textarea{width:100%;min-height:16rem}pre.source{background:#f4f4f4;padding:1rem;overflow-x:auto}";

/// The submission page up to the style block.
pub const FORM_HEAD: &'static str = "<!DOCTYPE html><html><head><title>paste</title><style>";

/// The submission page after the style block: the form itself.
pub const FORM_TAIL: &'static str = "</style></head><body><h1>New paste</h1><form action=\"/\" method=\"post\"><textarea name=\"content\" required></textarea><p><label>Expires: <select name=\"expiration\"><option value=\"\">never</option><option value=\"10m\">10 minutes</option><option value=\"1h\">1 hour</option><option value=\"1d\">1 day</option><option value=\"1w\">1 week</option></select></label> <label>Max views: <input name=\"max_views\" type=\"text\"></label> <button type=\"submit\">Create</button></p></form></body></html>";

/// The view page up to the style block.
pub const PAGE_HEAD: &'static str = "<!DOCTYPE html><html><head><title>paste</title><style>";

/// The view page between the style block and the rendered body.
pub const PAGE_MID: &'static str = "</style></head><body><main>";

/// The view page between the rendered body and the raw source.
pub const PAGE_RAW: &'static str = "</main><h2>Source</h2><pre class=\"source\">";

/// The view page after the raw source.
pub const PAGE_TAIL: &'static str = "</pre></body></html>";

/// What the markdown renderer produces for a given input. With the
/// fixed option set used here (tables, strikethrough, task lists) the
/// produced HTML is a function of the input text alone, so the result
/// can be named even though stating it in full would take pages.
pub uninterp spec fn markdown_html_of(s: Seq<char>) -> Seq<char>;

/// Relies on pulldown_cmark::Parser::new_ext and html::push_html:
/// parsing and rendering are deterministic in the input text and the
/// option set, and an empty input emits no events, hence no output.
#[verifier::external_body]
fn markdown_to_html(content: &str) -> (r: String)
    ensures
        r@ == markdown_html_of(content@),
        content@.len() == 0 ==> r@.len() == 0,
{
    let mut options = pulldown_cmark::Options::empty();
    options.insert(pulldown_cmark::Options::ENABLE_STRIKETHROUGH);
    options.insert(pulldown_cmark::Options::ENABLE_TABLES);
    options.insert(pulldown_cmark::Options::ENABLE_TASKLISTS);
    let parser = pulldown_cmark::Parser::new_ext(content, options);
    let mut html_output = String::new();
    pulldown_cmark::html::push_html(&mut html_output, parser);
    html_output
}

/// The submission page.
pub open spec fn form_page_spec() -> Seq<char> {
    FORM_HEAD@ + STYLES@ + FORM_TAIL@
}

/// The full view page for a paste: the stylesheet, then the rendered
/// HTML of the content, then the raw source for copying.
pub open spec fn render_page_spec(content: Seq<char>) -> Seq<char> {
    PAGE_HEAD@ + STYLES@ + PAGE_MID@ + markdown_html_of(content) + PAGE_RAW@ + content
        + PAGE_TAIL@
}

/// Builds the static submission page.
pub fn render_form() -> (r: String)
    ensures
        r@ == form_page_spec(),
{
    let mut page = FORM_HEAD.to_owned();
    page.append(STYLES);
    page.append(FORM_TAIL);
    page
}

/// Renders a paste's markdown into the full view page.
pub fn render_paste(content: &str) -> (r: String)
    ensures
        r@ == render_page_spec(content@),
{
    let body = markdown_to_html(content);
    let mut page = PAGE_HEAD.to_owned();
    page.append(STYLES);
    page.append(PAGE_MID);
    page.append(body.as_str());
    page.append(PAGE_RAW);
    page.append(content);
    page.append(PAGE_TAIL);
    page
}

/// Rendering is deterministic: equal markdown inputs always yield the
/// same page, byte for byte.
pub proof fn lemma_render_deterministic(a: Seq<char>, b: Seq<char>)
    requires
        a == b,
    ensures
        render_page_spec(a) == render_page_spec(b),
{
}

/// The view page always carries the markdown-rendered form of the
/// submitted content: it splits into a prefix, the renderer's output
/// for the content, and a suffix.
pub proof fn lemma_render_contains_body(content: Seq<char>)
    ensures
        exists|pre: Seq<char>, post: Seq<char>|
            render_page_spec(content) == pre + markdown_html_of(content) + post,
{
    let pre = PAGE_HEAD@ + STYLES@ + PAGE_MID@;
    let post = PAGE_RAW@ + content + PAGE_TAIL@;
    assert(render_page_spec(content) =~= pre + markdown_html_of(content) + post);
}

} // verus!
