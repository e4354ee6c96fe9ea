//! HTTP replies as plain values.

use vstd::prelude::*;
use crate::error::MyError;

verus! {

/// The status of a reply that carries the page.
pub const OK: u16 = 200;

/// The status of a reply that sends the client on to another address.
pub const SEE_OTHER: u16 = 303;

/// The content type of the page.
pub const TEXT_HTML: &'static str = "text/html";

/// The address of the page, where every change sends the client back to.
pub const HOME: &'static str = "/";

/// A reply: the status, the two headers the service ever sets, and the body.
#[derive(Debug)]
pub struct Response {
    pub status: u16,
    pub content_type: Option<String>,
    pub location: Option<String>,
    pub body: String,
}

/// What a reply is, mathematically.
pub struct ResponseView {
    pub status: u16,
    pub content_type: Option<Seq<char>>,
    pub location: Option<Seq<char>>,
    pub body: Seq<char>,
}

/// The characters of a header that may be absent.
pub open spec fn header_view(header: Option<String>) -> Option<Seq<char>> {
    match header {
        Some(value) => Some(value@),
        None => None,
    }
}

impl View for Response {
    type V = ResponseView;

    open spec fn view(&self) -> ResponseView {
        ResponseView {
            status: self.status,
            content_type: header_view(self.content_type),
            location: header_view(self.location),
            body: self.body@,
        }
    }
}

/// The reply that carries a page: 200, `text/html`, the document as body.
pub open spec fn page_reply(html: Seq<char>) -> ResponseView {
    ResponseView { status: OK, content_type: Some(TEXT_HTML@), location: None, body: html }
}

/// The reply after a change: 303 with `Location: /` and no body, so that a
/// refresh of what the client then shows repeats no submission.
pub open spec fn redirect_reply() -> ResponseView {
    ResponseView { status: SEE_OTHER, content_type: None, location: Some(HOME@), body: Seq::empty() }
}

/// The reply to a failure: its status and nothing else.
pub open spec fn failure_reply(error: MyError) -> ResponseView {
    ResponseView {
        status: error.status_code(),
        content_type: None,
        location: None,
        body: Seq::empty(),
    }
}

impl Response {
    /// The reply that carries the rendered page.
    pub fn page(html: String) -> (reply: Response)
        ensures
            reply@ == page_reply(html@),
    {
        Response {
            status: OK,
            content_type: Some(TEXT_HTML.to_owned()),
            location: None,
            body: html,
        }
    }

    /// The reply that sends the client back to the page.
    pub fn see_other() -> (reply: Response)
        ensures
            reply@ == redirect_reply(),
    {
        Response {
            status: SEE_OTHER,
            content_type: None,
            location: Some(HOME.to_owned()),
            body: String::new(),
        }
    }

    /// The reply to a failure.
    pub fn failure(error: MyError) -> (reply: Response)
        ensures
            reply@ == failure_reply(error),
    {
        Response { status: error.status(), content_type: None, location: None, body: String::new() }
    }
}

} // verus!
