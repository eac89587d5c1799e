//! The router: which handler a request goes to, and what that handler
//! replies. Reading files is left to the caller: where a reply needs one, the
//! router says which, and finishes the reply from what the caller found.

use vstd::prelude::*;
use vstd::string::*;
use vstd::utf8::{decode_utf8, encode_utf8, valid_utf8};
use crate::chars::{chars_of, lemma_trimmed_keeps, same_chars, trim, trimmed};
use crate::decimal::{decimal, lemma_parsed_rejects, parse_u32, parsed};
use crate::fib::{fib, fibonacci_numeral};
use crate::message::{
    plain,
    with_header,
    Method,
    Request,
    Response,
    ResponseView,
    BAD_REQUEST,
    INTERNAL_SERVER_ERROR,
    NOT_FOUND,
    OK,
};
use crate::mime::{content_type, content_type_of};
use crate::path::{file_like, is_file_like};
use crate::text::{decode, replacement};

verus! {

/// The body of the reply to `GET /`.
pub const GREETING: &'static str = "Hello world from Rust with wasm!";

/// The file whose contents are the reply to `GET /index`.
pub const INDEX_PATH: &'static str = "/index.html";

/// The name of the header that carries a file's MIME type.
pub const CONTENT_TYPE: &'static str = "Content-type";

/// The handler that answers a request.
#[derive(Clone, Copy, Debug, PartialEq, Eq, Structural)]
pub enum Route {
    /// Serve the file that the path names.
    StaticFile,
    /// Greet.
    Greeting,
    /// Reply with nothing.
    Noop,
    /// Reply with the request's body.
    Echo,
    /// Serve the file at `INDEX_PATH`.
    Index,
    /// Reply with the Fibonacci number at the index in the body.
    Fib,
    /// Reply that there is no such thing.
    NotFound,
}

/// The handler for `method` and `path`. A `GET` whose path looks like a file
/// name asks for that file, whatever else the path might mean; after that
/// the fixed paths are matched exactly.
pub open spec fn route_for(method: Method, path: Seq<char>) -> Route {
    match method {
        Method::Get => {
            if file_like(path) {
                Route::StaticFile
            } else if path == "/"@ {
                Route::Greeting
            } else if path == "/noop"@ {
                Route::Noop
            } else if path == "/echo"@ {
                Route::Echo
            } else if path == "/index"@ {
                Route::Index
            } else {
                Route::NotFound
            }
        },
        Method::Post => {
            if path == "/fib"@ {
                Route::Fib
            } else {
                Route::NotFound
            }
        },
        Method::Other => Route::NotFound,
    }
}

/// Picks the handler for `method` and `path`.
pub fn route(method: Method, path: &str) -> (r: Route)
    ensures
        r == route_for(method, path@),
{
    let chars = chars_of(path);
    let p = chars.as_slice();
    match method {
        Method::Get => {
            if is_file_like(p) {
                Route::StaticFile
            } else if same_chars(p, "/") {
                Route::Greeting
            } else if same_chars(p, "/noop") {
                Route::Noop
            } else if same_chars(p, "/echo") {
                Route::Echo
            } else if same_chars(p, "/index") {
                Route::Index
            } else {
                Route::NotFound
            }
        },
        Method::Post => {
            if same_chars(p, "/fib") {
                Route::Fib
            } else {
                Route::NotFound
            }
        },
        Method::Other => Route::NotFound,
    }
}

/// What the router does with a request: it replies, or it names what must
/// happen before it can.
#[derive(Debug, PartialEq, Eq)]
pub enum Step {
    /// Send this response.
    Reply(Response),
    /// Look for the file at `path`, then reply with `static_file_response`.
    /// The path is the request's own, unchanged: the router does nothing to
    /// keep a request from naming a file outside the directory that is
    /// served.
    ServeFile { path: String },
    /// Read the file at `INDEX_PATH`, then reply with `index_response`.
    ServeIndex,
}

/// A step as mathematical values.
pub enum StepView {
    Reply(ResponseView),
    ServeFile { path: Seq<char> },
    ServeIndex,
}

impl View for Step {
    type V = StepView;

    open spec fn view(&self) -> StepView {
        match self {
            Step::Reply(response) => StepView::Reply(response@),
            Step::ServeFile { path } => StepView::ServeFile { path: path@ },
            Step::ServeIndex => StepView::ServeIndex,
        }
    }
}

/// The bytes of the greeting.
pub open spec fn greeting_body() -> Seq<u8> {
    encode_utf8(GREETING@)
}

/// The index that `text` asks for: the number it writes, the white space
/// around it apart.
pub open spec fn index_in(text: Seq<char>) -> Option<u32> {
    parsed(trimmed(text))
}

/// The index that the body of a request asks for. The body is decoded as
/// UTF-8, with a replacement character for each invalid sequence, then
/// trimmed and read as a numeral. The replacement character is no part of a
/// numeral, so a body that is not valid UTF-8 asks for no index.
pub open spec fn requested_index(body: Seq<u8>) -> Option<u32> {
    if valid_utf8(body) {
        index_in(decode_utf8(body))
    } else {
        None
    }
}

/// The reply of the Fibonacci handler to a request that asks for `index`. A
/// request that asks for none is a bad request; any other is answered with
/// the Fibonacci number at its index, in decimal.
pub open spec fn fib_reply(index: Option<u32>) -> ResponseView {
    match index {
        None => plain(BAD_REQUEST, seq![]),
        Some(index) => plain(OK, decimal(fib(index as nat))),
    }
}

/// The step for a request with the given method, path and body. The headers
/// of a request have no part in it.
pub open spec fn step_for(method: Method, path: Seq<char>, body: Seq<u8>) -> StepView {
    match route_for(method, path) {
        Route::StaticFile => StepView::ServeFile { path },
        Route::Greeting => StepView::Reply(plain(OK, greeting_body())),
        Route::Noop => StepView::Reply(plain(OK, seq![])),
        Route::Echo => StepView::Reply(plain(OK, body)),
        Route::Index => StepView::ServeIndex,
        Route::Fib => StepView::Reply(fib_reply(requested_index(body))),
        Route::NotFound => StepView::Reply(plain(NOT_FOUND, seq![])),
    }
}

/// Reads the index that `text` asks for.
pub fn parse_index(text: &[char]) -> (index: Option<u32>)
    ensures
        index == index_in(text@),
{
    parse_u32(trim(text))
}

/// Reads the index that the body of a request asks for.
pub fn read_index(body: &[u8]) -> (index: Option<u32>)
    ensures
        index == requested_index(body@),
{
    let text = decode(body);
    proof {
        if !valid_utf8(body@) {
            lemma_trimmed_keeps(text@, replacement());
            lemma_parsed_rejects(trimmed(text@), replacement());
        }
    }
    parse_index(text.as_slice())
}

/// Answers a request to the Fibonacci handler with the given body. The time
/// this takes grows exponentially with the index that the body asks for.
pub fn fib_response(body: &[u8]) -> (r: Response)
    ensures
        r@ == fib_reply(requested_index(body@)),
{
    match read_index(body) {
        None => Response::empty(BAD_REQUEST),
        Some(index) => Response::new(OK, fibonacci_numeral(index)),
    }
}

/// Routes `request` and answers it as far as that takes no file.
pub fn dispatch(request: Request) -> (step: Step)
    ensures
        step@ == step_for(request.method, request.path@, request.body@),
{
    match route(request.method, request.path.as_str()) {
        Route::StaticFile => Step::ServeFile { path: request.path },
        Route::Greeting => Step::Reply(Response::new(OK, GREETING.as_bytes_vec())),
        Route::Noop => Step::Reply(Response::empty(OK)),
        Route::Echo => Step::Reply(Response::new(OK, request.body)),
        Route::Index => Step::ServeIndex,
        Route::Fib => Step::Reply(fib_response(request.body.as_slice())),
        Route::NotFound => Step::Reply(Response::empty(NOT_FOUND)),
    }
}

/// What looking for a file came to.
#[derive(Debug, PartialEq, Eq)]
pub enum FileProbe {
    /// There is no file at the path.
    Missing,
    /// Looking or reading failed for another reason.
    Failed,
    /// The file is there, and these are its contents.
    Found(Vec<u8>),
}

/// The reply to a request for the file at `path`, given what looking for it
/// came to: the contents under the MIME type of the extension, or an empty
/// reply whose status says that the file is missing or that looking failed.
pub open spec fn file_reply(path: Seq<char>, probe: FileProbe) -> ResponseView {
    match probe {
        FileProbe::Missing => plain(NOT_FOUND, seq![]),
        FileProbe::Failed => plain(INTERNAL_SERVER_ERROR, seq![]),
        FileProbe::Found(contents) => with_header(
            OK,
            CONTENT_TYPE@,
            content_type_of(path),
            contents@,
        ),
    }
}

/// Finishes the reply to a request for the file at `path`.
pub fn static_file_response(path: &str, probe: FileProbe) -> (r: Response)
    ensures
        r@ == file_reply(path@, probe),
{
    match probe {
        FileProbe::Missing => Response::empty(NOT_FOUND),
        FileProbe::Failed => Response::empty(INTERNAL_SERVER_ERROR),
        FileProbe::Found(contents) => {
            let chars = chars_of(path);
            let mime = content_type(chars.as_slice());
            Response::with_header(OK, CONTENT_TYPE, mime, contents)
        },
    }
}

/// Finishes the reply to `GET /index` from the contents of the file at
/// `INDEX_PATH`.
pub fn index_response(contents: Vec<u8>) -> (r: Response)
    ensures
        r@ == plain(OK, contents@),
{
    Response::new(OK, contents)
}

} // verus!
