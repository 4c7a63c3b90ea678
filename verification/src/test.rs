//! Test pages: a Markdown file shown as a single-line HTML document, which can be
//! rebuilt in place.
use vstd::prelude::*;

use std::sync::Arc;

use crate::markdown::{build_test_html, commonmark_html, test_page_document};
use crate::page::{
    html_reply, is_html_reply, is_valid_status, INTERNAL_ERROR_BODY, NOT_FOUND_BODY, HttpReply,
    STATUS_INTERNAL_SERVER_ERROR, STATUS_NOT_FOUND,
};

verus! {

/// A test page: the path of its file and its document, or an error status and text.
pub struct Test {
    path: Arc<String>,
    html: Result<String, (u16, String)>,
}

/// The test-page document (or error) for what reading a Markdown file gave.
pub open spec fn test_content(read: Result<String, String>) -> Result<Seq<char>, (u16, Seq<char>)> {
    match read {
        Ok(markdown) => Ok(test_page_document(commonmark_html(markdown@))),
        Err(message) => Err((STATUS_INTERNAL_SERVER_ERROR, message@)),
    }
}

/// A test page's document or error, with the strings taken by their views.
pub open spec fn test_view(html: Result<String, (u16, String)>) -> Result<Seq<char>, (u16, Seq<char>)> {
    match html {
        Ok(body) => Ok(body@),
        Err((code, reason)) => Err((code, reason@)),
    }
}

/// The test-page document for what reading a Markdown file gave: the rendered
/// document, or the read error as a server error.
pub fn md_source_to_html(read: Result<String, String>) -> (html: Result<String, (u16, String)>)
    ensures
        test_view(html) == test_content(read),
{
    match read {
        Ok(markdown) => Ok(build_test_html(markdown.as_str())),
        Err(message) => Err((STATUS_INTERNAL_SERVER_ERROR, message)),
    }
}

impl Test {
    /// The path of the page's file.
    pub closed spec fn path(&self) -> Arc<String> {
        self.path
    }

    /// The page's document or error.
    pub closed spec fn html(&self) -> Result<String, (u16, String)> {
        self.html
    }

    /// A test page for the file at `path` with the document or error `html`.
    pub fn new(path: Arc<String>, html: Result<String, (u16, String)>) -> (test: Test)
        ensures
            test.path() == path,
            test.html() == html,
    {
        Test { path, html }
    }

    /// Replaces the document with `rebuilt` when rebuilding succeeded; after a
    /// failed rebuild the page keeps what it had.
    pub fn update_html(&mut self, rebuilt: Result<String, (u16, String)>)
        ensures
            final(self).path() == old(self).path(),
            rebuilt is Ok ==> final(self).html() == rebuilt,
            rebuilt is Err ==> final(self).html() == old(self).html(),
    {
        match rebuilt {
            Ok(html) => {
                self.html = Ok(html);
            },
            Err(_) => {},
        }
    }

    /// The reply that serves the page: its document with `hope_status_code`, or
    /// its error status and text, as HTML; the generic server error where the
    /// status cannot be sent.
    pub fn build_response(&self, hope_status_code: u16) -> (reply: HttpReply)
        ensures
            match test_view(self.html()) {
                Ok(body) => if is_valid_status(hope_status_code) {
                    is_html_reply(reply, hope_status_code, body)
                } else {
                    is_html_reply(reply, STATUS_INTERNAL_SERVER_ERROR, INTERNAL_ERROR_BODY@)
                },
                Err((code, reason)) => if is_valid_status(code) {
                    is_html_reply(reply, code, reason)
                } else {
                    is_html_reply(reply, STATUS_INTERNAL_SERVER_ERROR, INTERNAL_ERROR_BODY@)
                },
            },
    {
        let (code, body) = match &self.html {
            Ok(body) => (hope_status_code, body),
            Err((code, reason)) => (*code, reason),
        };
        if 100 <= code && code <= 999 {
            html_reply(code, body.as_str())
        } else {
            Self::build_500_response()
        }
    }

    /// The generic server-error reply.
    fn build_500_response() -> (reply: HttpReply)
        ensures
            is_html_reply(reply, STATUS_INTERNAL_SERVER_ERROR, INTERNAL_ERROR_BODY@),
    {
        html_reply(STATUS_INTERNAL_SERVER_ERROR, INTERNAL_ERROR_BODY)
    }

    /// The reply for a route that no page serves.
    pub fn build_404_response() -> (reply: HttpReply)
        ensures
            is_html_reply(reply, STATUS_NOT_FOUND, NOT_FOUND_BODY@),
    {
        html_reply(STATUS_NOT_FOUND, NOT_FOUND_BODY)
    }
}

} // verus!
