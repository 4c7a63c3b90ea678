//! Answering HTTP requests from the page index.
use vstd::prelude::*;

use std::sync::Arc;

use crate::dual_hashmap::DualHashmap;
use crate::page::{
    is_html_reply, is_page_reply, HttpReply, Page, HTML_CONTENT_TYPE, NOT_FOUND_BODY,
    STATUS_NOT_FOUND, STATUS_OK,
};
use crate::text::{chars_of, same_chars};

verus! {

/// The route the shared style sheet is served at.
pub const STYLE_SHEET_ROUTE: &'static str = "/test/style.css";

/// The route served when a request matches no other route.
pub const HOME_ROUTE: &'static str = "/";

/// The content type of the style sheet.
pub const CSS_CONTENT_TYPE: &'static str = "text/css; charset=utf-8";

/// The content type of the style sheet's error text.
pub const PLAIN_CONTENT_TYPE: &'static str = "text/plain; charset=utf-8";

/// The caching directive of the style sheet.
pub const NO_STORE: &'static str = "no-store";

/// `reply` serves the style sheet as loaded (or its load error as plain text).
pub open spec fn is_style_reply(reply: HttpReply, style: Result<String, (u16, String)>) -> bool {
    match style {
        Ok(css) => {
            &&& reply.status == STATUS_OK
            &&& reply.content_type@ == CSS_CONTENT_TYPE@
            &&& reply.cache_control matches Some(c) && c@ == NO_STORE@
            &&& reply.body@ == css@
        },
        Err((code, reason)) => {
            &&& reply.status == code
            &&& reply.content_type@ == PLAIN_CONTENT_TYPE@
            &&& reply.cache_control is None
            &&& reply.body@ == reason@
        },
    }
}

/// `reply` serves the page indexed at `route`, or is the not-found reply.
pub open spec fn is_route_reply(reply: HttpReply, pages: DualHashmap, route: Seq<char>) -> bool {
    if pages.by_uri().contains_key(route) {
        is_page_reply(reply, *pages.by_uri()[route])
    } else {
        is_html_reply(reply, STATUS_NOT_FOUND, NOT_FOUND_BODY@)
    }
}

/// A route that no indexed page serves is answered with the not-found reply,
/// whatever else is indexed; a route that a page serves is answered with that
/// page's status and document (or error text), where the status can be sent.
pub proof fn law_route_reply(reply: HttpReply, pages: DualHashmap, route: Seq<char>)
    requires
        is_route_reply(reply, pages, route),
    ensures
        !pages.by_uri().contains_key(route) ==> {
            &&& reply.status == 404
            &&& reply.content_type@ == HTML_CONTENT_TYPE@
            &&& reply.body@ == NOT_FOUND_BODY@
        },
        pages.by_uri().contains_key(route) ==> match pages.by_uri()[route].html {
            Ok((code, document)) => 100 <= code <= 999 ==> reply.status == code && reply.body@
                == document@,
            Err((code, text)) => 100 <= code <= 999 ==> reply.status == code && reply.body@
                == text@,
        },
{
}

/// The reply to a request for the style sheet carries the style sheet (or its
/// load error); the reply to any other request is as `law_route_reply` says for
/// the requested route, and the fallback answers as for `/`.
pub proof fn law_requests_answer_their_route(
    reply: HttpReply,
    pages: DualHashmap,
    style: Result<String, (u16, String)>,
    path: Seq<char>,
)
    requires
        path == STYLE_SHEET_ROUTE@ ==> is_style_reply(reply, style),
        path != STYLE_SHEET_ROUTE@ ==> is_route_reply(reply, pages, path),
    ensures
        path == STYLE_SHEET_ROUTE@ ==> match style {
            Ok(css) => reply.status == 200 && reply.body@ == css@,
            Err((code, text)) => reply.status == code && reply.body@ == text@,
        },
        path != STYLE_SHEET_ROUTE@ && !pages.by_uri().contains_key(path) ==> reply.status == 404
            && reply.body@ == NOT_FOUND_BODY@,
{
    if path != STYLE_SHEET_ROUTE@ {
        law_route_reply(reply, pages, path);
    }
}

/// The reply to a request for `path`: the style sheet at its route, otherwise
/// the page indexed at `path`, or the not-found reply.
pub fn handle_request(pages: &DualHashmap, style: &Result<String, (u16, String)>, path: &str) -> (reply: HttpReply)
    ensures
        path@ == STYLE_SHEET_ROUTE@ ==> is_style_reply(reply, *style),
        path@ != STYLE_SHEET_ROUTE@ ==> is_route_reply(reply, *pages, path@),
{
    if same_chars(&chars_of(path), &chars_of(STYLE_SHEET_ROUTE)) {
        match style {
            Ok(css) => HttpReply {
                status: STATUS_OK,
                content_type: String::from_str(CSS_CONTENT_TYPE),
                cache_control: Some(String::from_str(NO_STORE)),
                body: css.clone(),
            },
            Err((code, reason)) => HttpReply {
                status: *code,
                content_type: String::from_str(PLAIN_CONTENT_TYPE),
                cache_control: None,
                body: reason.clone(),
            },
        }
    } else {
        serve_route(pages, path)
    }
}

/// The reply to a request that matches no route: the page at `/`, or the
/// not-found reply.
pub fn handle_fallback(pages: &DualHashmap) -> (reply: HttpReply)
    ensures
        is_route_reply(reply, *pages, HOME_ROUTE@),
{
    serve_route(pages, HOME_ROUTE)
}

/// The page indexed at `route`, served, or the not-found reply.
fn serve_route(pages: &DualHashmap, route: &str) -> (reply: HttpReply)
    ensures
        is_route_reply(reply, *pages, route@),
{
    match pages.get_page_by_uri_path(route) {
        Some(page) => page.build_response(),
        None => Page::build_404_response(),
    }
}

} // verus!
