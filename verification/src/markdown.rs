//! Markdown rendering and the HTML documents that wrap rendered pages.
use vstd::prelude::*;

verus! {

/// What comrak's `markdown_to_html`, with its default options, renders from `markdown`.
pub uninterp spec fn commonmark_html(markdown: Seq<char>) -> Seq<char>;

/// comrak's `markdown_to_html` with `Options::default()`: CommonMark rendered to an
/// HTML fragment. The rendering takes pages to describe, so the contract only
/// names it: the result is `commonmark_html` of the Markdown text, and depends on
/// nothing else.
#[verifier::external_body]
pub(crate) fn render_markdown(markdown: &str) -> (html: String)
    ensures
        html@ == commonmark_html(markdown@),
{
    comrak::markdown_to_html(markdown, &comrak::Options::default())
}

/// The start of the document that wraps a page's rendered Markdown.
pub const PAGE_HEAD: &'static str = "<!doctype html>\n             <html lang=\"zh-CN\">\n             <head>\n                 <meta charset=\"UTF-8\">\n                 <meta name=\"viewport\" content=\"width=device-width, initial-scale=1\">\n                 <link rel=\"stylesheet\" href=\"/test/style.css\">\n             </head>\n             <body>\n                 <main class=\"markdown-body\">";

/// The end of the document that wraps a page's rendered Markdown.
pub const PAGE_TAIL: &'static str = "</main>\n             </body>\n             </html>";

/// The start of the single-line document used for test pages.
pub const TEST_PAGE_HEAD: &'static str = "<!doctype html><html lang=\"zh-CN\"><head><meta charset=\"UTF-8\"><meta name=\"viewport\" content=\"width=device-width, initial-scale=1\"><link rel=\"stylesheet\" href=\"/test/style.css\"></head><body><main class=\"markdown-body\">";

/// The end of the single-line document used for test pages.
pub const TEST_PAGE_TAIL: &'static str = "</main></body></html>";

/// The full HTML document of a page whose rendered Markdown is `body`.
pub open spec fn page_document(body: Seq<char>) -> Seq<char> {
    PAGE_HEAD@ + body + PAGE_TAIL@
}

/// The full HTML document of a test page whose rendered Markdown is `body`.
pub open spec fn test_page_document(body: Seq<char>) -> Seq<char> {
    TEST_PAGE_HEAD@ + body + TEST_PAGE_TAIL@
}

/// `head`, then `body`, then `tail`, as one string.
fn surround(head: &str, body: &str, tail: &str) -> (r: String)
    ensures
        r@ == head@ + body@ + tail@,
{
    let mut r = String::from_str(head);
    r.append(body);
    r.append(tail);
    r
}

/// The page document around the rendered Markdown `body_html`.
pub fn page_html_document(body_html: &str) -> (html: String)
    ensures
        html@ == page_document(body_html@),
{
    surround(PAGE_HEAD, body_html, PAGE_TAIL)
}

/// The test-page document around the rendered Markdown `body_html`.
pub fn test_page_html_document(body_html: &str) -> (html: String)
    ensures
        html@ == test_page_document(body_html@),
{
    surround(TEST_PAGE_HEAD, body_html, TEST_PAGE_TAIL)
}

/// The page document for the Markdown text `markdown`.
pub fn build_html(markdown: &str) -> (html: String)
    ensures
        html@ == page_document(commonmark_html(markdown@)),
{
    let body = render_markdown(markdown);
    page_html_document(body.as_str())
}

/// The test-page document for the Markdown text `markdown`.
pub fn build_test_html(markdown: &str) -> (html: String)
    ensures
        html@ == test_page_document(commonmark_html(markdown@)),
{
    let body = render_markdown(markdown);
    test_page_html_document(body.as_str())
}

} // verus!
