//! A small Markdown blog server's core: turning Markdown sources into pages,
//! indexing them by file path and by route, and answering requests from that index.
pub mod command;
pub mod config;
pub mod dual_hashmap;
pub mod markdown;
pub mod page;
pub mod page_manager;
pub mod runner;
pub mod test;
pub mod text;
