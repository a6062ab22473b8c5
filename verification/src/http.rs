//! Plain values for the HTTP messages that the service reads and writes.

use vstd::prelude::*;

verus! {

/// Status of a successful answer.
pub const OK: u16 = 200;

/// Status for a body that is no JSON text.
pub const BAD_REQUEST: u16 = 400;

/// Status for a path and method that no handler serves.
pub const NOT_FOUND: u16 = 404;

/// Status for a JSON body that does not hold what the handler needs.
pub const UNPROCESSABLE_ENTITY: u16 = 422;

/// Status for a store call that failed.
pub const INTERNAL_SERVER_ERROR: u16 = 500;

/// The request method. Every extension method is `Other`.
#[derive(Clone, Copy, Debug, PartialEq, Eq, Structural)]
pub enum Method {
    Get,
    Head,
    Post,
    Put,
    Delete,
    Connect,
    Options,
    Trace,
    Patch,
    Other,
}

/// What the `Content-Type` header of an answer announces.
#[derive(Clone, Copy, Debug, PartialEq, Eq, Structural)]
pub enum ContentType {
    /// `text/plain; charset=utf-8`
    Text,
    /// `application/json`
    Json,
}

/// A request as the service sees it: the method, the path that selects the
/// handler, the full request target as the client wrote it (the path and,
/// where there is one, the query) and the body. The path is the part of the
/// target that names the resource, so it occurs in the target.
#[derive(Clone, Debug, PartialEq, Eq)]
pub struct Request {
    pub method: Method,
    pub path: String,
    pub uri: String,
    pub body: Vec<u8>,
}

/// The mathematical value of a [`Request`].
pub struct RequestView {
    pub method: Method,
    pub path: Seq<char>,
    pub uri: Seq<char>,
    pub body: Seq<u8>,
}

/// Whether `part` occurs in `whole` as a run of neighbouring characters.
pub open spec fn occurs_in(part: Seq<char>, whole: Seq<char>) -> bool {
    exists|at: int|
        0 <= at && at + part.len() <= whole.len() && #[trigger] whole.subrange(
            at,
            at + part.len(),
        ) == part
}

impl RequestView {
    /// The path is part of the request target.
    pub open spec fn well_formed(self) -> bool {
        occurs_in(self.path, self.uri)
    }
}

impl View for Request {
    type V = RequestView;

    open spec fn view(&self) -> RequestView {
        RequestView { method: self.method, path: self.path@, uri: self.uri@, body: self.body@ }
    }
}

/// An answer: the status code, the content type (none where the body is
/// empty) and the body text.
#[derive(Clone, Debug, PartialEq, Eq)]
pub struct Response {
    pub status: u16,
    pub content_type: Option<ContentType>,
    pub body: String,
}

/// The mathematical value of a [`Response`].
pub struct ResponseView {
    pub status: u16,
    pub content_type: Option<ContentType>,
    pub body: Seq<char>,
}

impl View for Response {
    type V = ResponseView;

    open spec fn view(&self) -> ResponseView {
        ResponseView { status: self.status, content_type: self.content_type, body: self.body@ }
    }
}

impl ResponseView {
    /// A plain-text answer.
    pub open spec fn text(status: u16, body: Seq<char>) -> ResponseView {
        ResponseView { status, content_type: Some(ContentType::Text), body }
    }

    /// A JSON answer with status 200.
    pub open spec fn json(body: Seq<char>) -> ResponseView {
        ResponseView { status: OK, content_type: Some(ContentType::Json), body }
    }

    /// An answer that is a status code and nothing else.
    pub open spec fn bare(status: u16) -> ResponseView {
        ResponseView { status, content_type: None, body: Seq::empty() }
    }

    /// Whether the status is in the 400 class.
    pub open spec fn is_client_error(self) -> bool {
        400 <= self.status < 500
    }

    /// Whether the status is in the 500 class.
    pub open spec fn is_server_error(self) -> bool {
        500 <= self.status < 600
    }
}

impl Response {
    /// A plain-text answer with the given status and body.
    pub fn text(status: u16, body: String) -> (response: Response)
        ensures
            response@ == ResponseView::text(status, body@),
    {
        Response { status, content_type: Some(ContentType::Text), body }
    }

    /// A JSON answer with status 200 and the given body.
    pub fn json(body: String) -> (response: Response)
        ensures
            response@ == ResponseView::json(body@),
    {
        Response { status: OK, content_type: Some(ContentType::Json), body }
    }

    /// An answer that carries the status code alone.
    pub fn bare(status: u16) -> (response: Response)
        ensures
            response@ == ResponseView::bare(status),
    {
        Response { status, content_type: None, body: String::new() }
    }
}

} // verus!
