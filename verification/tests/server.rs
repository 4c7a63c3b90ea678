use std::sync::Arc;

use md2blog::command::{parse_command, Command};
use md2blog::config::Config;
use md2blog::dual_hashmap::DualHashmap;
use md2blog::page::Page;
use md2blog::runner::{handle_fallback, handle_request};
use md2blog::test::{md_source_to_html, Test};
use md2blog::text::{chars_of, find, normalize_separators, starts_with, substring};

const NOT_FOUND: &str = "<!doctype html><html lang=\"zh-CN\"><head><meta charset=\"UTF-8\"></head><body><h3>404_没有这个页面</h3></body></html>";

fn index_with(route: &str, body: &str) -> DualHashmap {
    let mut index = DualHashmap::new();
    index
        .insert_by_page(Arc::new(Page {
            file_path: "/r/x.md".to_string(),
            uri_path: route.to_string(),
            html: Ok((200, body.to_string())),
        }))
        .unwrap();
    index
}

#[test]
fn commands() {
    assert!(matches!(parse_command("reload /r/a.md"), Command::Reload(p) if p == "/r/a.md"));
    assert!(matches!(parse_command("reload "), Command::Reload(p) if p.is_empty()));
    assert!(matches!(parse_command("refresh"), Command::Refresh));
    assert!(matches!(parse_command("exit"), Command::Exit));
    assert!(matches!(parse_command("reload"), Command::Unknown));
    assert!(matches!(parse_command("exit now"), Command::Unknown));
    assert!(matches!(parse_command(""), Command::Unknown));
}

#[test]
fn style_sheet_request() {
    let index = DualHashmap::new();
    let reply = handle_request(&index, &Ok("body{}".to_string()), "/test/style.css");
    assert_eq!(reply.status, 200);
    assert_eq!(reply.content_type, "text/css; charset=utf-8");
    assert_eq!(reply.cache_control.as_deref(), Some("no-store"));
    assert_eq!(reply.body, "body{}");
    let reply = handle_request(&index, &Err((500, "missing".to_string())), "/test/style.css");
    assert_eq!(reply.status, 500);
    assert_eq!(reply.content_type, "text/plain; charset=utf-8");
    assert!(reply.cache_control.is_none());
    assert_eq!(reply.body, "missing");
}

#[test]
fn page_request() {
    let index = index_with("/posts/a", "<p>a</p>");
    let reply = handle_request(&index, &Ok(String::new()), "/posts/a");
    assert_eq!(reply.status, 200);
    assert_eq!(reply.body, "<p>a</p>");
    let reply = handle_request(&index, &Ok(String::new()), "/posts/b");
    assert_eq!(reply.status, 404);
    assert_eq!(reply.body, NOT_FOUND);
}

#[test]
fn fallback_request() {
    let reply = handle_fallback(&index_with("/", "<p>home</p>"));
    assert_eq!(reply.status, 200);
    assert_eq!(reply.body, "<p>home</p>");
    let reply = handle_fallback(&index_with("/other", "x"));
    assert_eq!(reply.status, 404);
}

#[test]
fn test_page_replies() {
    let html = md_source_to_html(Ok("# T".to_string())).unwrap();
    assert_eq!(
        html,
        "<!doctype html><html lang=\"zh-CN\"><head><meta charset=\"UTF-8\"><meta name=\"viewport\" content=\"width=device-width, initial-scale=1\"><link rel=\"stylesheet\" href=\"/test/style.css\"></head><body><main class=\"markdown-body\"><h1>T</h1>\n</main></body></html>"
    );
    let mut test = Test::new(Arc::new("test/a.md".to_string()), Ok("old".to_string()));
    assert_eq!(test.build_response(200).body, "old");
    assert_eq!(test.build_response(201).status, 201);
    assert_eq!(test.build_response(7).status, 500);
    test.update_html(md_source_to_html(Err("gone".to_string())));
    assert_eq!(test.build_response(200).body, "old");
    test.update_html(Ok("new".to_string()));
    assert_eq!(test.build_response(200).body, "new");
    let test = Test::new(Arc::new("test/b.md".to_string()), md_source_to_html(Err("gone".to_string())));
    let reply = test.build_response(200);
    assert_eq!(reply.status, 500);
    assert_eq!(reply.body, "gone");
    assert_eq!(Test::build_404_response().body, NOT_FOUND);
}

#[test]
fn config_accessors() {
    let config = Config::new("/srv/blog".to_string(), "2233".to_string());
    assert_eq!(config.get_root(), "/srv/blog");
    assert_eq!(config.get_port(), "2233");
    assert_eq!(config.clone().get_root(), "/srv/blog");
}

#[test]
fn separators_become_forward_slashes() {
    assert_eq!(normalize_separators("C:\\blog\\a.md"), "C:/blog/a.md");
    assert_eq!(normalize_separators("/already/fine"), "/already/fine");
    let once = normalize_separators("a\\\\b");
    assert_eq!(once, "a//b");
    assert_eq!(normalize_separators(&once), once);
}

#[test]
fn character_search() {
    let text = chars_of("a-->b-->");
    let close = chars_of("-->");
    assert_eq!(find(&text, &close), Some(1));
    assert_eq!(find(&text, &chars_of("x")), None);
    assert_eq!(find(&text, &chars_of("")), Some(0));
    assert!(starts_with(&text, &chars_of("a-")));
    assert_eq!(substring("héllo", 1, 4), "éll");
}
