//! The table from file extensions to MIME types.

use vstd::prelude::*;
use crate::chars::{lowercase, same_chars, to_lowercase};
use crate::path::{extension, extension_of};

verus! {

/// The MIME type of a file whose extension the table does not hold, or that
/// has none.
pub open spec fn default_mime() -> Seq<char> {
    "application/octet-stream"@
}

/// Whether the table holds the extension `e`, written in small letters.
pub open spec fn listed(e: Seq<char>) -> bool {
    ||| e == "js"@
    ||| e == "html"@
    ||| e == "wasm"@
    ||| e == "css"@
    ||| e == "md"@
    ||| e == "ttf"@
    ||| e == "otf"@
    ||| e == "woff"@
    ||| e == "woff2"@
    ||| e == "sfnt"@
    ||| e == "rs"@
    ||| e == "toml"@
}

/// The MIME type that the table gives for the extension `ext`, written
/// without its dot and in capitals or small letters alike.
pub open spec fn mime_for(ext: Seq<char>) -> Seq<char> {
    let e = lowercase(ext);
    if e == "js"@ {
        "text/javascript"@
    } else if e == "html"@ {
        "text/html"@
    } else if e == "wasm"@ {
        "application/wasm"@
    } else if e == "css"@ {
        "text/css"@
    } else if e == "md"@ {
        "text/markdown"@
    } else if e == "ttf"@ {
        "font/ttf"@
    } else if e == "otf"@ {
        "font/otf"@
    } else if e == "woff"@ {
        "font/woff"@
    } else if e == "woff2"@ {
        "font/woff2"@
    } else if e == "sfnt"@ {
        "font/sfnt"@
    } else if e == "rs"@ {
        "text/plain"@
    } else if e == "toml"@ {
        "text/plain"@
    } else {
        default_mime()
    }
}

/// The MIME type of the file that `path` names, by its extension.
pub open spec fn content_type_of(path: Seq<char>) -> Seq<char> {
    match extension_of(path) {
        Some(ext) => mime_for(ext),
        None => default_mime(),
    }
}

/// Looks the extension `ext` up in the table.
pub fn mime_type(ext: &[char]) -> (mime: &'static str)
    ensures
        mime@ == mime_for(ext@),
{
    let lower = to_lowercase(ext);
    let e = lower.as_slice();
    if same_chars(e, "js") {
        "text/javascript"
    } else if same_chars(e, "html") {
        "text/html"
    } else if same_chars(e, "wasm") {
        "application/wasm"
    } else if same_chars(e, "css") {
        "text/css"
    } else if same_chars(e, "md") {
        "text/markdown"
    } else if same_chars(e, "ttf") {
        "font/ttf"
    } else if same_chars(e, "otf") {
        "font/otf"
    } else if same_chars(e, "woff") {
        "font/woff"
    } else if same_chars(e, "woff2") {
        "font/woff2"
    } else if same_chars(e, "sfnt") {
        "font/sfnt"
    } else if same_chars(e, "rs") {
        "text/plain"
    } else if same_chars(e, "toml") {
        "text/plain"
    } else {
        "application/octet-stream"
    }
}

/// Finds the MIME type of the file that `path` names.
pub fn content_type(path: &[char]) -> (mime: &'static str)
    ensures
        mime@ == content_type_of(path@),
{
    match extension(path) {
        Some(ext) => mime_type(ext),
        None => "application/octet-stream",
    }
}

} // verus!
