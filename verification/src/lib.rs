//! Request routing for a small HTTP server: which handler answers a request,
//! and what each handler replies. The library works on plain values and does
//! no input or output of its own; a transport hands it requests, reads the
//! files it asks for, and sends its responses.

pub mod chars;
pub mod decimal;
pub mod fib;
pub mod laws;
pub mod message;
pub mod mime;
pub mod path;
pub mod router;
pub mod text;

pub use crate::fib::fibonacci;
pub use crate::message::{Header, Method, Request, Response};
pub use crate::router::{
    dispatch, index_response, route, static_file_response, FileProbe, Route, Step,
};
