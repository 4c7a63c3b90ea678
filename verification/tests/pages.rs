use md2blog::markdown::{build_html, page_html_document, test_page_html_document, PAGE_HEAD, PAGE_TAIL};
use md2blog::page::{
    file_path_into_uri_path, frame_source, is_reserved_route, HttpReply, Page,
    PageConfig, PageSource, SourceFrame,
};

fn configured(route: Option<&str>, markdown: &str) -> PageSource {
    PageSource::Configured {
        config: Ok(PageConfig { uri_path: route.map(|r| r.to_string()) }),
        markdown: markdown.to_string(),
    }
}

fn assert_html_reply(reply: &HttpReply, status: u16, body: &str) {
    assert_eq!(reply.status, status);
    assert_eq!(reply.content_type, "text/html; charset=utf-8");
    assert!(reply.cache_control.is_none());
    assert_eq!(reply.body, body);
}

#[test]
fn default_route_drops_extension_and_root() {
    assert_eq!(file_path_into_uri_path("/srv/blog/posts/hello.md", "/srv/blog"), "/posts/hello");
    assert_eq!(file_path_into_uri_path("/srv/blog/index.md", "/srv/blog"), "/index");
}

#[test]
fn default_route_trims_repeated_extensions_and_roots() {
    assert_eq!(file_path_into_uri_path("/r/x.md.md", "/r"), "/x");
    assert_eq!(file_path_into_uri_path("/r/r/x.md", "/r"), "/x");
    assert_eq!(file_path_into_uri_path("notes.txt", "/r"), "notes.txt");
}

#[test]
fn default_route_with_empty_root_keeps_the_path() {
    assert_eq!(file_path_into_uri_path("/a/b.md", ""), "/a/b");
    assert_eq!(file_path_into_uri_path(".md", "/r"), "");
}

#[test]
fn reserved_routes() {
    assert!(is_reserved_route("/admin"));
    assert!(is_reserved_route("/api"));
    assert!(is_reserved_route("/admin/users"));
    assert!(is_reserved_route("/api/"));
    assert!(!is_reserved_route("/administrator"));
    assert!(!is_reserved_route("/apis"));
    assert!(!is_reserved_route("/blog/admin"));
    assert!(!is_reserved_route(""));
}

#[test]
fn frame_comment_block() {
    match frame_source("<!--uri_path: /x-->\n# Hi") {
        SourceFrame::Configured { yaml, markdown } => {
            assert_eq!(yaml, "uri_path: /x");
            assert_eq!(markdown, "\n# Hi");
        }
        _ => panic!("expected a configuration block"),
    }
}

#[test]
fn frame_comment_block_uses_first_close() {
    match frame_source("<!-- a --> b --> c") {
        SourceFrame::Configured { yaml, markdown } => {
            assert_eq!(yaml, " a ");
            assert_eq!(markdown, " b --> c");
        }
        _ => panic!("expected a configuration block"),
    }
}

#[test]
fn frame_unclosed_comment() {
    assert!(matches!(frame_source("<!-- never closed\n# x"), SourceFrame::UnclosedComment));
}

#[test]
fn frame_plain_markdown() {
    assert!(matches!(frame_source("# Title\nuri_path: /no"), SourceFrame::Plain));
    assert!(matches!(frame_source(""), SourceFrame::Plain));
    assert!(matches!(frame_source(" <!-- x -->"), SourceFrame::Plain));
}

#[test]
fn frame_configuration_line() {
    match frame_source("uri_path: /old\n# a.md") {
        SourceFrame::Configured { yaml, markdown } => {
            assert_eq!(yaml, "uri_path: /old");
            assert_eq!(markdown, "# a.md");
        }
        _ => panic!("expected a configuration line"),
    }
    match frame_source("uri_path: /only") {
        SourceFrame::Configured { yaml, markdown } => {
            assert_eq!(yaml, "uri_path: /only");
            assert_eq!(markdown, "");
        }
        _ => panic!("expected a configuration line"),
    }
}

#[test]
fn overlapping_comment_marks_do_not_close() {
    assert!(matches!(frame_source("<!-->"), SourceFrame::UnclosedComment));
    assert!(matches!(frame_source("<!--->x"), SourceFrame::UnclosedComment));
    match frame_source("<!---->") {
        SourceFrame::Configured { yaml, markdown } => {
            assert_eq!(yaml, "");
            assert_eq!(markdown, "");
        }
        _ => panic!("expected a configuration block"),
    }
    match frame_source("<!-->a-->b") {
        SourceFrame::Configured { yaml, markdown } => {
            assert_eq!(yaml, ">a");
            assert_eq!(markdown, "b");
        }
        _ => panic!("expected a configuration block"),
    }
}

#[test]
fn page_document_wraps_rendered_markdown() {
    let html = build_html("# Hi");
    assert!(html.starts_with(PAGE_HEAD));
    assert!(html.ends_with(PAGE_TAIL));
    assert_eq!(&html[PAGE_HEAD.len()..html.len() - PAGE_TAIL.len()], "<h1>Hi</h1>\n");
    assert!(PAGE_HEAD.starts_with("<!doctype html>\n             <html lang=\"zh-CN\">"));
}

#[test]
fn build_markdown_page() {
    let page = Page::build("/srv/blog/post.md", "/srv/blog", PageSource::Markdown("*x*".to_string())).unwrap();
    assert_eq!(page.file_path, "/srv/blog/post.md");
    assert_eq!(page.uri_path, "/post");
    let (status, body) = page.html.as_ref().unwrap();
    assert_eq!(*status, 200);
    assert_eq!(*body, format!("{PAGE_HEAD}<p><em>x</em></p>\n{PAGE_TAIL}"));
}

#[test]
fn build_configured_page_uses_its_route() {
    let page = Page::build("/srv/blog/a.md", "/srv/blog", configured(Some("/about"), "hello")).unwrap();
    assert_eq!(page.uri_path, "/about");
    assert!(page.html.as_ref().unwrap().1.contains("<p>hello</p>"));
    let page = Page::build("/srv/blog/a.md", "/srv/blog", configured(None, "hello")).unwrap();
    assert_eq!(page.uri_path, "/a");
}

#[test]
fn build_unreadable_page() {
    let page = Page::build("/srv/blog/a.md", "/srv/blog", PageSource::Unreadable("denied".to_string())).unwrap();
    assert_eq!(page.uri_path, "/a");
    assert_eq!(page.html.as_ref().unwrap_err(), &(500, "denied".to_string()));
}

#[test]
fn build_unclosed_comment_page() {
    let page = Page::build("/srv/blog/a.md", "/srv/blog", PageSource::UnclosedComment).unwrap();
    assert_eq!(page.uri_path, "/a");
    assert_eq!(page.html.as_ref().unwrap_err(), &(500, "未闭合的html注释内容！".to_string()));
}

#[test]
fn build_page_with_bad_configuration() {
    let source = PageSource::Configured { config: Err("bad yaml".to_string()), markdown: "x".to_string() };
    let page = Page::build("/srv/blog/a.md", "/srv/blog", source).unwrap();
    assert_eq!(page.uri_path, "/a");
    assert_eq!(page.html.as_ref().unwrap_err(), &(500, "bad yaml".to_string()));
}

#[test]
fn build_refuses_reserved_routes() {
    match Page::build("/srv/blog/a.md", "/srv/blog", configured(Some("/api/posts"), "x")) {
        Err(route) => assert_eq!(route, "/api/posts"),
        Ok(_) => panic!("reserved route accepted"),
    }
    match Page::build("/srv/blog/admin.md", "/srv/blog", PageSource::Markdown("x".to_string())) {
        Err(route) => assert_eq!(route, "/admin"),
        Ok(_) => panic!("reserved route accepted"),
    }
}

#[test]
fn page_replies() {
    let page = Page::build("/r/a.md", "/r", PageSource::Markdown("x".to_string())).unwrap();
    let reply = page.build_response();
    assert_html_reply(&reply, 200, &format!("{PAGE_HEAD}<p>x</p>\n{PAGE_TAIL}"));
    let page = Page::build("/r/a.md", "/r", PageSource::Unreadable("gone".to_string())).unwrap();
    assert_html_reply(&page.build_response(), 500, "gone");
}

#[test]
fn page_reply_with_unsendable_status_is_server_error() {
    let page = Page { file_path: "/r/a.md".to_string(), uri_path: "/a".to_string(), html: Ok((42, "x".to_string())) };
    assert_html_reply(
        &page.build_response(),
        500,
        "<!doctype html><html lang=\"zh-CN\"><head><meta charset=\"UTF-8\"></head><body><h3>500_未知的服务器错误</h3></body></html>",
    );
}

#[test]
fn not_found_reply() {
    assert_html_reply(
        &Page::build_404_response(),
        404,
        "<!doctype html><html lang=\"zh-CN\"><head><meta charset=\"UTF-8\"></head><body><h3>404_没有这个页面</h3></body></html>",
    );
}

#[test]
fn framing_keeps_the_source() {
    let text = "<!--\nuri_path: /about\n-->\n# About\n";
    match frame_source(text) {
        SourceFrame::Configured { yaml, markdown } => {
            assert_eq!(format!("<!--{yaml}-->{markdown}"), text);
        }
        _ => panic!("expected a configuration block"),
    }
    let text = "uri_path: /x\r\nbody\nmore";
    match frame_source(text) {
        SourceFrame::Configured { yaml, markdown } => {
            assert_eq!(yaml, "uri_path: /x\r");
            assert_eq!(format!("{yaml}\n{markdown}"), text);
        }
        _ => panic!("expected a configuration line"),
    }
}

#[test]
fn document_wrappers() {
    assert_eq!(page_html_document("<p>x</p>"), format!("{PAGE_HEAD}<p>x</p>{PAGE_TAIL}"));
    assert_eq!(
        test_page_html_document(""),
        "<!doctype html><html lang=\"zh-CN\"><head><meta charset=\"UTF-8\"><meta name=\"viewport\" content=\"width=device-width, initial-scale=1\"><link rel=\"stylesheet\" href=\"/test/style.css\"></head><body><main class=\"markdown-body\"></main></body></html>"
    );
}
