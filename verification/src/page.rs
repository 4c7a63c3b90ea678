//! Pages: how a Markdown source becomes a routed HTML page, and the HTTP reply
//! that a page is served with.
use vstd::prelude::*;

use crate::markdown::{build_html, commonmark_html, page_document, PAGE_HEAD, PAGE_TAIL};
use crate::text::{
    chars_of, find, find_from, first_occurrence, first_occurrence_from, has_prefix, has_suffix,
    law_trim_prefix_all_leaves_no_prefix, law_trim_prefix_all_removes_copies,
    law_trim_suffix_all_leaves_no_suffix, law_trim_suffix_all_removes_copies, repeat,
    lemma_first_occurrence_occurs, lemma_suffix_of_end, same_chars, starts_with, substring,
    trim_prefix_all, trim_prefix_start, trim_suffix_all, trim_suffix_end,
};

verus! {

/// Opens a configuration block at the very start of a page source.
pub const COMMENT_OPEN: &'static str = "<!--";

/// Closes a configuration block.
pub const COMMENT_CLOSE: &'static str = "-->";

/// A page source whose first line starts with this key holds its configuration
/// on that line.
pub const CONFIG_LINE_KEY: &'static str = "uri_path:";

/// Ends the configuration line.
pub const LINE_BREAK: &'static str = "\n";

/// The extension of Markdown page files.
pub const MARKDOWN_EXTENSION: &'static str = ".md";

/// The error text of a page whose configuration block is never closed.
pub const UNCLOSED_COMMENT_MESSAGE: &'static str = "未闭合的html注释内容！";

/// The content type of every HTML reply.
pub const HTML_CONTENT_TYPE: &'static str = "text/html; charset=utf-8";

/// The body of the reply for a route that no page serves.
pub const NOT_FOUND_BODY: &'static str = "<!doctype html><html lang=\"zh-CN\"><head><meta charset=\"UTF-8\"></head><body><h3>404_没有这个页面</h3></body></html>";

/// The body of the reply that stands in for a reply that cannot be built.
pub const INTERNAL_ERROR_BODY: &'static str = "<!doctype html><html lang=\"zh-CN\"><head><meta charset=\"UTF-8\"></head><body><h3>500_未知的服务器错误</h3></body></html>";

/// HTTP status: OK.
pub const STATUS_OK: u16 = 200;

/// HTTP status: Not Found.
pub const STATUS_NOT_FOUND: u16 = 404;

/// HTTP status: Internal Server Error.
pub const STATUS_INTERNAL_SERVER_ERROR: u16 = 500;

/// The settings a page source may carry; today only the route it is served at.
pub struct PageConfig {
    pub uri_path: Option<String>,
}

/// How a page source is laid out: plain Markdown, a configuration block that is
/// never closed, or configuration text followed by the Markdown.
pub enum SourceFrame {
    Plain,
    UnclosedComment,
    Configured { yaml: String, markdown: String },
}

/// What was found when a page's file was read, with its configuration already
/// parsed where it has one.
pub enum PageSource {
    /// The file could not be read; the text describes why.
    Unreadable(String),
    /// The file is Markdown without configuration.
    Markdown(String),
    /// The file opens a configuration block and never closes it.
    UnclosedComment,
    /// The file carries configuration (parsed, or the parse error) and Markdown.
    Configured { config: Result<PageConfig, String>, markdown: String },
}

/// A page: the file it comes from, the route it is served at, and either its
/// HTML document with the status to serve it with, or an error status and text.
pub struct Page {
    pub file_path: String,
    pub uri_path: String,
    pub html: Result<(u16, String), (u16, String)>,
}

/// The parts of an HTTP reply.
pub struct HttpReply {
    pub status: u16,
    pub content_type: String,
    pub cache_control: Option<String>,
    pub body: String,
}

/// The route a file is served at when its source does not name one: the path
/// without its trailing `.md` extensions and without the leading copies of the
/// content root.
pub open spec fn default_route(file_path: Seq<char>, root_path: Seq<char>) -> Seq<char> {
    trim_prefix_all(trim_suffix_all(file_path, MARKDOWN_EXTENSION@), root_path)
}

/// Routes that belong to the server itself and are never given to a page.
pub open spec fn is_reserved(route: Seq<char>) -> bool {
    ||| route == "/admin"@
    ||| route == "/api"@
    ||| has_prefix(route, "/admin/"@)
    ||| has_prefix(route, "/api/"@)
}

/// `frame` is the layout of the page source `text`.
pub open spec fn frames(text: Seq<char>, frame: SourceFrame) -> bool {
    if has_prefix(text, COMMENT_OPEN@) {
        match first_occurrence_from(text, COMMENT_CLOSE@, COMMENT_OPEN@.len() as int) {
            None => frame is UnclosedComment,
            Some(i) => frame matches SourceFrame::Configured { yaml, markdown } && yaml@
                == text.subrange(COMMENT_OPEN@.len() as int, i) && markdown@ == text.subrange(
                i + COMMENT_CLOSE@.len(),
                text.len() as int,
            ),
        }
    } else if has_prefix(text, CONFIG_LINE_KEY@) {
        match first_occurrence(text, LINE_BREAK@) {
            None => frame matches SourceFrame::Configured { yaml, markdown } && yaml@ == text
                && markdown@ == Seq::<char>::empty(),
            Some(j) => frame matches SourceFrame::Configured { yaml, markdown } && yaml@
                == text.subrange(0, j) && markdown@ == text.subrange(
                j + LINE_BREAK@.len(),
                text.len() as int,
            ),
        }
    } else {
        frame is Plain
    }
}

/// The route of the page built from `source` for the file `file_path` under `root_path`.
pub open spec fn page_route(
    file_path: Seq<char>,
    root_path: Seq<char>,
    source: PageSource,
) -> Seq<char> {
    match source {
        PageSource::Configured { config: Ok(cfg), markdown: _ } => match cfg.uri_path {
            Some(route) => route@,
            None => default_route(file_path, root_path),
        },
        _ => default_route(file_path, root_path),
    }
}

/// The document (or error) of the page built from `source`.
pub open spec fn page_content(source: PageSource) -> Result<(u16, Seq<char>), (u16, Seq<char>)> {
    match source {
        PageSource::Unreadable(e) => Err((STATUS_INTERNAL_SERVER_ERROR, e@)),
        PageSource::Markdown(md) => Ok((STATUS_OK, page_document(commonmark_html(md@)))),
        PageSource::UnclosedComment => Err(
            (STATUS_INTERNAL_SERVER_ERROR, UNCLOSED_COMMENT_MESSAGE@),
        ),
        PageSource::Configured { config: Ok(_), markdown } => Ok(
            (STATUS_OK, page_document(commonmark_html(markdown@))),
        ),
        PageSource::Configured { config: Err(e), markdown: _ } => Err(
            (STATUS_INTERNAL_SERVER_ERROR, e@),
        ),
    }
}

/// A page's document or error, with the strings taken by their views.
pub open spec fn content_view(html: Result<(u16, String), (u16, String)>) -> Result<
    (u16, Seq<char>),
    (u16, Seq<char>),
> {
    match html {
        Ok((code, body)) => Ok((code, body@)),
        Err((code, reason)) => Err((code, reason@)),
    }
}

/// `page` is the page built from `source` for the file `file_path` under `root_path`.
pub open spec fn is_page_of(
    page: Page,
    file_path: Seq<char>,
    root_path: Seq<char>,
    source: PageSource,
) -> bool {
    &&& page.file_path@ == file_path
    &&& page.uri_path@ == page_route(file_path, root_path, source)
    &&& content_view(page.html) == page_content(source)
}

/// `reply` serves `page`: its status and document, or its error status and
/// text, as HTML; the generic server error where that status cannot be sent.
pub open spec fn is_page_reply(reply: HttpReply, page: Page) -> bool {
    let (code, body) = match content_view(page.html) {
        Ok((code, body)) => (code, body),
        Err((code, reason)) => (code, reason),
    };
    if is_valid_status(code) {
        is_html_reply(reply, code, body)
    } else {
        is_html_reply(reply, STATUS_INTERNAL_SERVER_ERROR, INTERNAL_ERROR_BODY@)
    }
}

/// A status code that an HTTP response can carry.
pub open spec fn is_valid_status(code: u16) -> bool {
    100 <= code <= 999
}

/// `reply` carries `status`, an HTML content type, no caching directive and `body`.
pub open spec fn is_html_reply(reply: HttpReply, status: u16, body: Seq<char>) -> bool {
    &&& reply.status == status
    &&& reply.content_type@ == HTML_CONTENT_TYPE@
    &&& reply.cache_control is None
    &&& reply.body@ == body
}

/// The route of `file_path` when its source names none: `file_path` without its
/// trailing `.md` extensions and then without its leading copies of `root_path`.
pub fn file_path_into_uri_path(file_path: &str, root_path: &str) -> (route: String)
    ensures
        route@ == default_route(file_path@, root_path@),
{
    let path = chars_of(file_path);
    let extension = chars_of(MARKDOWN_EXTENSION);
    let root = chars_of(root_path);
    let end = trim_suffix_end(&path, path.len(), &extension);
    let start = trim_prefix_start(&path, 0, end, &root);
    assert(path@.subrange(0, path.len() as int) =~= path@);
    substring(file_path, start, end)
}

/// Whether `route` is reserved for the server: `/admin`, `/api`, or below either.
pub fn is_reserved_route(route: &str) -> (reserved: bool)
    ensures
        reserved == is_reserved(route@),
{
    let r = chars_of(route);
    same_chars(&r, &chars_of("/admin")) || same_chars(&r, &chars_of("/api")) || starts_with(
        &r,
        &chars_of("/admin/"),
    ) || starts_with(&r, &chars_of("/api/"))
}

/// The layout of the page source `text`. A source that starts with `<!--` keeps
/// its configuration up to the first `-->` after that opening (a `-->` that
/// overlaps the `<!--` does not close it) and its Markdown after it; one that
/// starts with `uri_path:` keeps its configuration on its first line; any other
/// source is plain Markdown.
pub fn frame_source(text: &str) -> (frame: SourceFrame)
    ensures
        frames(text@, frame),
{
    let t = chars_of(text);
    let open = chars_of(COMMENT_OPEN);
    if starts_with(&t, &open) {
        let close = chars_of(COMMENT_CLOSE);
        match find_from(&t, &close, open.len()) {
            Some(i) => {
                proof {
                    lemma_first_occurrence_occurs(t@, close@, open.len() as int);
                    assert(i + close.len() <= t.len());
                }
                let yaml = substring(text, open.len(), i);
                let markdown = substring(text, i + close.len(), t.len());
                SourceFrame::Configured { yaml, markdown }
            },
            None => SourceFrame::UnclosedComment,
        }
    } else if starts_with(&t, &chars_of(CONFIG_LINE_KEY)) {
        let line_break = chars_of(LINE_BREAK);
        match find(&t, &line_break) {
            Some(j) => {
                proof {
                    lemma_first_occurrence_occurs(t@, line_break@, 0);
                    assert(j + line_break.len() <= t.len());
                }
                let yaml = substring(text, 0, j);
                let markdown = substring(text, j + line_break.len(), t.len());
                SourceFrame::Configured { yaml, markdown }
            },
            None => {
                let yaml = substring(text, 0, t.len());
                assert(t@.subrange(0, t.len() as int) =~= t@);
                SourceFrame::Configured { yaml, markdown: String::new() }
            },
        }
    } else {
        SourceFrame::Plain
    }
}

/// The default route is what is left of the file path once some copies of the
/// content root are taken off its start and some copies of `.md` off its end,
/// and nothing else: the path is those root copies, the route, then those `.md`
/// copies.
pub proof fn law_default_route_reconstructs_path(file_path: Seq<char>, root_path: Seq<char>)
    ensures
        exists|k: nat, n: nat|
            file_path == #[trigger] repeat(root_path, k) + default_route(file_path, root_path)
                + #[trigger] repeat(MARKDOWN_EXTENSION@, n),
{
    let trimmed = trim_suffix_all(file_path, MARKDOWN_EXTENSION@);
    law_trim_suffix_all_removes_copies(file_path, MARKDOWN_EXTENSION@);
    let n = choose|n: nat| file_path == trimmed + #[trigger] repeat(MARKDOWN_EXTENSION@, n);
    law_trim_prefix_all_removes_copies(trimmed, root_path);
    let k = choose|k: nat| trimmed == #[trigger] repeat(root_path, k) + trim_prefix_all(trimmed, root_path);
    let route = default_route(file_path, root_path);
    assert(file_path =~= repeat(root_path, k) + route + repeat(MARKDOWN_EXTENSION@, n));
}

/// The routes reserved for the server are exactly `/admin`, `/api`, and every
/// route below either of them, however deep.
pub proof fn law_reserved_routes(route: Seq<char>, below: Seq<char>)
    ensures
        is_reserved("/admin"@),
        is_reserved("/api"@),
        is_reserved("/admin/"@ + below),
        is_reserved("/api/"@ + below),
        is_reserved(route) ==> route == "/admin"@ || route == "/api"@ || has_prefix(route, "/admin/"@)
            || has_prefix(route, "/api/"@),
{
    assert(("/admin/"@ + below).subrange(0, "/admin/"@.len() as int) =~= "/admin/"@);
    assert(("/api/"@ + below).subrange(0, "/api/"@.len() as int) =~= "/api/"@);
}

/// A page built from a source with Markdown (configured or not) holds the page
/// template around the rendered Markdown, with status 200; a configured route is
/// used as given, and otherwise the route comes from the file path. A source that
/// could not be read, whose block is never closed, or whose configuration does
/// not parse gives status 500 with the error text, at the file path's route.
pub proof fn law_page_holds_templated_markdown(
    page: Page,
    file_path: Seq<char>,
    root_path: Seq<char>,
    source: PageSource,
)
    requires
        is_page_of(page, file_path, root_path, source),
    ensures
        page.file_path@ == file_path,
        match source {
            PageSource::Markdown(markdown) => {
                &&& page.html matches Ok((code, document)) && code == 200 && document@ == PAGE_HEAD@
                    + commonmark_html(markdown@) + PAGE_TAIL@
                &&& page.uri_path@ == default_route(file_path, root_path)
            },
            PageSource::Configured { config: Ok(config), markdown } => {
                &&& page.html matches Ok((code, document)) && code == 200 && document@ == PAGE_HEAD@
                    + commonmark_html(markdown@) + PAGE_TAIL@
                &&& config.uri_path matches Some(route) ==> page.uri_path@ == route@
                &&& config.uri_path is None ==> page.uri_path@ == default_route(file_path, root_path)
            },
            PageSource::Configured { config: Err(message), markdown: _ } => {
                &&& page.html matches Err((code, text)) && code == 500 && text@ == message@
                &&& page.uri_path@ == default_route(file_path, root_path)
            },
            PageSource::Unreadable(message) => {
                &&& page.html matches Err((code, text)) && code == 500 && text@ == message@
                &&& page.uri_path@ == default_route(file_path, root_path)
            },
            PageSource::UnclosedComment => {
                &&& page.html matches Err((code, text)) && code == 500 && text@
                    == UNCLOSED_COMMENT_MESSAGE@
                &&& page.uri_path@ == default_route(file_path, root_path)
            },
        },
{
}

/// A default route never ends in `.md`, and never starts with a (non-empty)
/// content root.
pub proof fn law_default_route_shape(file_path: Seq<char>, root_path: Seq<char>)
    ensures
        !has_suffix(default_route(file_path, root_path), MARKDOWN_EXTENSION@),
        root_path.len() > 0 ==> !has_prefix(default_route(file_path, root_path), root_path),
{
    reveal_strlit(".md");
    let trimmed = trim_suffix_all(file_path, MARKDOWN_EXTENSION@);
    law_trim_suffix_all_leaves_no_suffix(file_path, MARKDOWN_EXTENSION@);
    if root_path.len() > 0 {
        law_trim_prefix_all_leaves_no_prefix(trimmed, root_path);
        let k = choose|k: int|
            0 <= k <= trimmed.len() && trim_prefix_all(trimmed, root_path) == trimmed.subrange(
                k,
                trimmed.len() as int,
            );
        lemma_suffix_of_end(trimmed, k, MARKDOWN_EXTENSION@);
    }
}

/// Framing loses nothing of the source: a configuration block is the text
/// between `<!--` and the first `-->` after it, and the Markdown is all that follows it;
/// a configuration line is the text before the first line break, and the
/// Markdown is all after it.
pub proof fn law_framing_keeps_the_source(text: Seq<char>, frame: SourceFrame)
    requires
        frames(text, frame),
    ensures
        frame matches SourceFrame::Configured { yaml, markdown } ==> if has_prefix(
            text,
            COMMENT_OPEN@,
        ) {
            text == COMMENT_OPEN@ + yaml@ + COMMENT_CLOSE@ + markdown@
        } else {
            ||| text == yaml@ + LINE_BREAK@ + markdown@
            ||| text == yaml@ && markdown@.len() == 0
        },
        frame is Plain ==> !has_prefix(text, COMMENT_OPEN@) && !has_prefix(text, CONFIG_LINE_KEY@),
{
    if has_prefix(text, COMMENT_OPEN@) {
        lemma_first_occurrence_occurs(text, COMMENT_CLOSE@, COMMENT_OPEN@.len() as int);
        if let Some(i) = first_occurrence_from(text, COMMENT_CLOSE@, COMMENT_OPEN@.len() as int) {
            if let SourceFrame::Configured { yaml, markdown } = frame {
                assert(text =~= COMMENT_OPEN@ + yaml@ + COMMENT_CLOSE@ + markdown@);
            }
        }
    } else if has_prefix(text, CONFIG_LINE_KEY@) {
        lemma_first_occurrence_occurs(text, LINE_BREAK@, 0);
        if let Some(j) = first_occurrence(text, LINE_BREAK@) {
            if let SourceFrame::Configured { yaml, markdown } = frame {
                assert(text =~= yaml@ + LINE_BREAK@ + markdown@);
            }
        }
    }
}

impl Page {
    /// The page for the file `file_path` under `root_path`, made from what was
    /// found in the file. Errors are kept in the page as an error status and text.
    fn new(file_path: &str, root_path: &str, source: PageSource) -> (page: Page)
        ensures
            is_page_of(page, file_path@, root_path@, source),
    {
        let ghost original = source;
        match source {
            PageSource::Unreadable(message) => Page {
                file_path: String::from_str(file_path),
                uri_path: file_path_into_uri_path(file_path, root_path),
                html: Err((STATUS_INTERNAL_SERVER_ERROR, message)),
            },
            PageSource::Markdown(markdown) => Page {
                file_path: String::from_str(file_path),
                uri_path: file_path_into_uri_path(file_path, root_path),
                html: Ok((STATUS_OK, build_html(markdown.as_str()))),
            },
            PageSource::UnclosedComment => Page {
                file_path: String::from_str(file_path),
                uri_path: file_path_into_uri_path(file_path, root_path),
                html: Err(
                    (STATUS_INTERNAL_SERVER_ERROR, String::from_str(UNCLOSED_COMMENT_MESSAGE)),
                ),
            },
            PageSource::Configured { config: Ok(config), markdown } => Page {
                file_path: String::from_str(file_path),
                uri_path: match config.uri_path {
                    Some(route) => route,
                    None => file_path_into_uri_path(file_path, root_path),
                },
                html: Ok((STATUS_OK, build_html(markdown.as_str()))),
            },
            PageSource::Configured { config: Err(message), markdown: _ } => Page {
                file_path: String::from_str(file_path),
                uri_path: file_path_into_uri_path(file_path, root_path),
                html: Err((STATUS_INTERNAL_SERVER_ERROR, message)),
            },
        }
    }

    /// The page for the file `file_path` under `root_path`, made from what was
    /// found in the file; or, where its route is reserved for the server, that route.
    pub fn build(file_path: &str, root_path: &str, source: PageSource) -> (result: Result<
        Page,
        String,
    >)
        ensures
            is_reserved(page_route(file_path@, root_path@, source)) ==> (result matches Err(
                route,
            ) && route@ == page_route(file_path@, root_path@, source)),
            !is_reserved(page_route(file_path@, root_path@, source)) ==> (result matches Ok(
                page,
            ) && is_page_of(page, file_path@, root_path@, source)),
    {
        let page = Self::new(file_path, root_path, source);
        if is_reserved_route(page.uri_path.as_str()) {
            Err(page.uri_path)
        } else {
            Ok(page)
        }
    }

    /// The reply that serves this page: its status and document, or its error
    /// status and text, as HTML; the generic server error where the status
    /// cannot be sent.
    pub fn build_response(&self) -> (reply: HttpReply)
        ensures
            is_page_reply(reply, *self),
    {
        let (code, body) = match &self.html {
            Ok((code, body)) => (*code, body),
            Err((code, reason)) => (*code, reason),
        };
        if 100 <= code && code <= 999 {
            html_reply(code, body.as_str())
        } else {
            Self::build_500_response()
        }
    }

    /// The generic server-error reply.
    pub fn build_500_response() -> (reply: HttpReply)
        ensures
            is_html_reply(reply, STATUS_INTERNAL_SERVER_ERROR, INTERNAL_ERROR_BODY@),
    {
        html_reply(STATUS_INTERNAL_SERVER_ERROR, INTERNAL_ERROR_BODY)
    }

    /// The reply for a route that no page serves.
    pub fn build_404_response() -> (reply: HttpReply)
        ensures
            is_html_reply(reply, STATUS_NOT_FOUND, NOT_FOUND_BODY@),
    {
        html_reply(STATUS_NOT_FOUND, NOT_FOUND_BODY)
    }
}

/// An HTML reply with `status` and `body`.
pub fn html_reply(status: u16, body: &str) -> (reply: HttpReply)
    ensures
        is_html_reply(reply, status, body@),
{
    HttpReply {
        status,
        content_type: String::from_str(HTML_CONTENT_TYPE),
        cache_control: None,
        body: String::from_str(body),
    }
}

} // verus!
