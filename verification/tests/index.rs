use std::sync::Arc;

use md2blog::dual_hashmap::{DualHashmap, DualHashmapError};
use md2blog::page::{Page, PageSource};
use md2blog::page_manager::{markdown_glob_pattern, style_sheet_path, PageManagerError};

fn page(file_path: &str, uri_path: &str) -> Arc<Page> {
    Arc::new(Page {
        file_path: file_path.to_string(),
        uri_path: uri_path.to_string(),
        html: Ok((200, format!("<p>{file_path}</p>"))),
    })
}

#[test]
fn empty_index_finds_nothing() {
    let index = DualHashmap::new();
    assert!(index.get_page_by_uri_path("/").is_none());
    assert!(index.get_page_by_file_path("/r/a.md").is_none());
    let index = DualHashmap::default();
    assert!(index.get_page_by_uri_path("/").is_none());
}

#[test]
fn inserted_page_is_found_both_ways() {
    let mut index = DualHashmap::new();
    let a = page("/r/a.md", "/a");
    index.insert_by_page(Arc::clone(&a)).unwrap();
    assert!(Arc::ptr_eq(&a, &index.get_page_by_uri_path("/a").unwrap()));
    assert!(Arc::ptr_eq(&a, &index.get_page_by_file_path("/r/a.md").unwrap()));
    let by_uri = index.get_page_by_uri_path("/a").unwrap();
    assert!(Arc::ptr_eq(&by_uri, &index.get_page_by_file_path(&by_uri.file_path).unwrap()));
}

#[test]
fn duplicate_file_is_refused_without_change() {
    let mut index = DualHashmap::new();
    let a = page("/r/a.md", "/a");
    index.insert_by_page(Arc::clone(&a)).unwrap();
    match index.insert_by_page(page("/r/a.md", "/b")) {
        Err(DualHashmapError::DuplicateFile(f)) => assert_eq!(f, "/r/a.md"),
        other => panic!("unexpected {:?}", other),
    }
    assert!(index.get_page_by_uri_path("/b").is_none());
    assert!(Arc::ptr_eq(&a, &index.get_page_by_file_path("/r/a.md").unwrap()));
}

#[test]
fn duplicate_route_is_refused_without_change() {
    let mut index = DualHashmap::new();
    index.insert_by_page(page("/r/a.md", "/a")).unwrap();
    match index.insert_by_page(page("/r/b.md", "/a")) {
        Err(DualHashmapError::DuplicateUri { uri_path, file_path }) => {
            assert_eq!(uri_path, "/a");
            assert_eq!(file_path, "/r/a.md");
        }
        other => panic!("unexpected {:?}", other),
    }
    assert!(index.get_page_by_file_path("/r/b.md").is_none());
    assert_eq!(index.get_page_by_uri_path("/a").unwrap().file_path, "/r/a.md");
}

#[test]
fn removal_undoes_insertion() {
    let mut index = DualHashmap::new();
    index.insert_by_page(page("/r/a.md", "/a")).unwrap();
    let b = page("/r/b.md", "/b");
    index.insert_by_page(Arc::clone(&b)).unwrap();
    let removed = index.remove_by_file_path("/r/b.md").unwrap();
    assert!(Arc::ptr_eq(&b, &removed));
    assert!(index.get_page_by_uri_path("/b").is_none());
    assert!(index.get_page_by_file_path("/r/b.md").is_none());
    assert!(index.get_page_by_uri_path("/a").is_some());
    assert!(index.remove_by_file_path("/r/b.md").is_none());
    index.insert_by_page(page("/r/b.md", "/b")).unwrap();
}

#[test]
fn duplicate_holds_the_same_pages() {
    let mut index = DualHashmap::new();
    let a = page("/r/a.md", "/a");
    let b = page("/r/b.md", "/b");
    index.insert_by_page(Arc::clone(&a)).unwrap();
    index.insert_by_page(Arc::clone(&b)).unwrap();
    let mut copy = index.duplicate();
    assert!(Arc::ptr_eq(&a, &copy.get_page_by_uri_path("/a").unwrap()));
    assert!(Arc::ptr_eq(&b, &copy.get_page_by_file_path("/r/b.md").unwrap()));
    copy.remove_by_file_path("/r/a.md");
    assert!(copy.get_page_by_uri_path("/a").is_none());
    assert!(index.get_page_by_uri_path("/a").is_some());
}

#[test]
fn index_errors_become_messages() {
    match PageManagerError::from(DualHashmapError::DuplicateFile("/r/a.md".to_string())) {
        PageManagerError::Message(m) => assert_eq!(m, "文件 /r/a.md 已加载，已跳过重复加载"),
        other => panic!("unexpected {:?}", other),
    }
    let error = DualHashmapError::DuplicateUri { uri_path: "/a".to_string(), file_path: "/r/b.md".to_string() };
    match PageManagerError::from_index_error(error) {
        PageManagerError::Message(m) => assert_eq!(m, "路由 /a 已被文件 /r/b.md 占用，已拒绝加载"),
        other => panic!("unexpected {:?}", other),
    }
}

#[test]
fn add_page_reports_conflicts_as_messages() {
    let mut index = DualHashmap::new();
    index.add_page(page("/r/a.md", "/a")).unwrap();
    match index.add_page(page("/r/b.md", "/a")) {
        Err(PageManagerError::Message(m)) => assert_eq!(m, "路由 /a 已被文件 /r/a.md 占用，已拒绝加载"),
        other => panic!("unexpected {:?}", other),
    }
    match index.add_built_page(&Err("/admin".to_string())) {
        Err(PageManagerError::UriPath(r)) => assert_eq!(r, "/admin"),
        other => panic!("unexpected {:?}", other),
    }
    assert!(index.get_page_by_uri_path("/admin").is_none());
}

#[test]
fn reload_of_unknown_file_adds_it() {
    let mut index = DualHashmap::new();
    let built = Page::build("/r/new.md", "/r", PageSource::Markdown("x".to_string())).map(Arc::new);
    index.update_page_by_file_path("/r/new.md", &built).unwrap();
    assert_eq!(index.get_page_by_uri_path("/new").unwrap().file_path, "/r/new.md");
}

#[test]
fn reload_keeps_route_when_page_is_unreadable() {
    let mut index = DualHashmap::new();
    index.add_page(page("/r/a.md", "/a")).unwrap();
    let built = Page::build("/r/a.md", "/r", PageSource::Unreadable("gone".to_string())).map(Arc::new);
    index.update_page_by_file_path("/r/a.md", &built).unwrap();
    let reloaded = index.get_page_by_uri_path("/a").unwrap();
    assert_eq!(reloaded.html.as_ref().unwrap_err(), &(500, "gone".to_string()));
}

#[test]
fn load_paths() {
    assert_eq!(markdown_glob_pattern("/srv/blog"), "/srv/blog/**/*.md");
    assert_eq!(style_sheet_path("/srv/blog"), "/srv/blog/style.css");
}

#[test]
fn load_keeps_first_pages() {
    let a = page("/r/a.md", "/a");
    let b = page("/r/b.md", "/a");
    let c = page("/r/a.md", "/c");
    let d = page("/r/d.md", "/d");
    let built = vec![Ok(Arc::clone(&a)), Ok(b), Err("/api".to_string()), Ok(c), Ok(Arc::clone(&d))];
    let (index, results) = DualHashmap::from_built_pages(&built);
    assert!(Arc::ptr_eq(&a, &index.get_page_by_uri_path("/a").unwrap()));
    assert!(Arc::ptr_eq(&a, &index.get_page_by_file_path("/r/a.md").unwrap()));
    assert!(index.get_page_by_file_path("/r/b.md").is_none());
    assert!(index.get_page_by_uri_path("/c").is_none());
    assert!(Arc::ptr_eq(&d, &index.get_page_by_uri_path("/d").unwrap()));
    assert_eq!(results.len(), 5);
    assert!(results[0].is_ok() && results[4].is_ok());
    match &results[1] {
        Err(PageManagerError::Message(m)) => assert_eq!(m, "路由 /a 已被文件 /r/a.md 占用，已拒绝加载"),
        other => panic!("unexpected {:?}", other),
    }
    assert!(matches!(&results[2], Err(PageManagerError::UriPath(r)) if r == "/api"));
    match &results[3] {
        Err(PageManagerError::Message(m)) => assert_eq!(m, "文件 /r/a.md 已加载，已跳过重复加载"),
        other => panic!("unexpected {:?}", other),
    }
}
