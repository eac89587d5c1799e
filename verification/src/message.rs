//! Requests and responses as the router sees them: plain values, free of any
//! transport.

use vstd::prelude::*;

verus! {

/// Status of a response that carries what was asked for.
pub const OK: u16 = 200;

/// Status of a response to a request that the server could not read.
pub const BAD_REQUEST: u16 = 400;

/// Status of a response to a request for something that is not there.
pub const NOT_FOUND: u16 = 404;

/// Status of a response to a request that failed on the server's side.
pub const INTERNAL_SERVER_ERROR: u16 = 500;

/// The method of a request. The router tells `GET` and `POST` from each other
/// and from all the rest.
#[derive(Clone, Copy, Debug, PartialEq, Eq, Structural)]
pub enum Method {
    Get,
    Post,
    Other,
}

/// One header line: a name and its value.
#[derive(Debug, PartialEq, Eq)]
pub struct Header {
    pub name: String,
    pub value: String,
}

/// A header as a pair of character sequences.
pub struct HeaderView {
    pub name: Seq<char>,
    pub value: Seq<char>,
}

impl View for Header {
    type V = HeaderView;

    open spec fn view(&self) -> HeaderView {
        HeaderView { name: self.name@, value: self.value@ }
    }
}

/// A request: method, path, header lines in the order they arrived, and the
/// whole body.
#[derive(Debug, PartialEq, Eq)]
pub struct Request {
    pub method: Method,
    pub path: String,
    pub headers: Vec<Header>,
    pub body: Vec<u8>,
}

/// A response: status code, header lines, and body.
#[derive(Debug, PartialEq, Eq)]
pub struct Response {
    pub status: u16,
    pub headers: Vec<Header>,
    pub body: Vec<u8>,
}

/// A response as mathematical values.
pub struct ResponseView {
    pub status: u16,
    pub headers: Seq<HeaderView>,
    pub body: Seq<u8>,
}

impl View for Response {
    type V = ResponseView;

    open spec fn view(&self) -> ResponseView {
        ResponseView {
            status: self.status,
            headers: Seq::new(self.headers@.len(), |i: int| self.headers@[i]@),
            body: self.body@,
        }
    }
}

/// The response with the given status and body, and no header.
pub open spec fn plain(status: u16, body: Seq<u8>) -> ResponseView {
    ResponseView { status, headers: seq![], body }
}

/// The response with the given status, body and one header.
pub open spec fn with_header(
    status: u16,
    name: Seq<char>,
    value: Seq<char>,
    body: Seq<u8>,
) -> ResponseView {
    ResponseView { status, headers: seq![HeaderView { name, value }], body }
}

impl Response {
    /// A response with the given status and body, and no header.
    pub fn new(status: u16, body: Vec<u8>) -> (r: Response)
        ensures
            r@ == plain(status, body@),
    {
        let r = Response { status, headers: Vec::new(), body };
        assert(r@.headers =~= seq![]);
        r
    }

    /// A response with the given status, and neither header nor body.
    pub fn empty(status: u16) -> (r: Response)
        ensures
            r@ == plain(status, seq![]),
    {
        Response::new(status, Vec::new())
    }

    /// A response with the given status, body and one header.
    pub fn with_header(status: u16, name: &str, value: &str, body: Vec<u8>) -> (r: Response)
        ensures
            r@ == with_header(status, name@, value@, body@),
    {
        let mut headers: Vec<Header> = Vec::new();
        headers.push(Header { name: name.to_owned(), value: value.to_owned() });
        let r = Response { status, headers, body };
        assert(r@.headers =~= seq![HeaderView { name: name@, value: value@ }]);
        r
    }
}

} // verus!
