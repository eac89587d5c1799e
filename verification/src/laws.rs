//! What holds of the router for every request, proved from its definitions.

use vstd::prelude::*;
use vstd::utf8::{decode_utf8, is_ascii_chars, is_ascii_chars_encode_utf8, valid_utf8};
use crate::chars::{lowercase, trimmed};
use crate::decimal::{decimal, lemma_decimal_digits, lemma_parsed_decimal, parsed};
use crate::fib::fib;
use crate::message::{
    plain,
    with_header,
    Method,
    BAD_REQUEST,
    INTERNAL_SERVER_ERROR,
    NOT_FOUND,
    OK,
};
use crate::mime::{listed, mime_for};
use crate::path::{
    dot_between,
    extension_of,
    file_like,
    final_segment,
    last_position,
    lemma_last_position,
};
use crate::router::{
    file_reply,
    greeting_body,
    requested_index,
    route_for,
    step_for,
    FileProbe,
    Route,
    StepView,
    CONTENT_TYPE,
    GREETING,
};
use crate::text::lemma_decoded_ascii;

verus! {

/// None of the fixed paths looks like a file name: the two kinds of route
/// never compete for a request.
pub proof fn law_fixed_paths_are_not_file_like()
    ensures
        !file_like("/"@),
        !file_like("/noop"@),
        !file_like("/echo"@),
        !file_like("/index"@),
        !file_like("/fib"@),
{
    reveal_strlit("/");
    reveal_strlit("/noop");
    reveal_strlit("/echo");
    reveal_strlit("/index");
    reveal_strlit("/fib");
    assert forall|i: int| !dot_between("/"@, i) by {}
    assert forall|i: int| !dot_between("/noop"@, i) by {}
    assert forall|i: int| !dot_between("/echo"@, i) by {}
    assert forall|i: int| !dot_between("/index"@, i) by {}
    assert forall|i: int| !dot_between("/fib"@, i) by {}
}

/// The fixed paths of `GET` are four different paths.
proof fn lemma_fixed_paths_differ()
    ensures
        "/noop"@ != "/"@,
        "/echo"@ != "/"@,
        "/echo"@ != "/noop"@,
        "/index"@ != "/"@,
        "/index"@ != "/noop"@,
        "/index"@ != "/echo"@,
{
    reveal_strlit("/");
    reveal_strlit("/noop");
    reveal_strlit("/echo");
    reveal_strlit("/index");
    assert("/"@.len() == 1);
    assert("/noop"@.len() == 5 && "/noop"@[1] == 'n');
    assert("/echo"@.len() == 5 && "/echo"@[1] == 'e');
    assert("/index"@.len() == 6);
}

/// `GET /echo` is answered with the request's own body, whatever it holds.
pub proof fn law_echo(body: Seq<u8>)
    ensures
        step_for(Method::Get, "/echo"@, body) == StepView::Reply(plain(OK, body)),
{
    law_fixed_paths_are_not_file_like();
    lemma_fixed_paths_differ();
}

/// `GET /` is answered with the greeting, which is not empty, whatever the
/// request's body holds.
pub proof fn law_greeting(body: Seq<u8>)
    ensures
        step_for(Method::Get, "/"@, body) == StepView::Reply(plain(OK, greeting_body())),
        greeting_body().len() > 0,
{
    law_fixed_paths_are_not_file_like();
    reveal_strlit("Hello world from Rust with wasm!");
    assert(is_ascii_chars(GREETING@));
    is_ascii_chars_encode_utf8(GREETING@);
}

/// `GET /noop` is answered with an empty body, whatever the request's body
/// holds.
pub proof fn law_noop(body: Seq<u8>)
    ensures
        step_for(Method::Get, "/noop"@, body) == StepView::Reply(plain(OK, seq![])),
{
    law_fixed_paths_are_not_file_like();
    lemma_fixed_paths_differ();
}

/// A request that no route matches is answered with an empty 404.
pub proof fn law_unmatched(method: Method, path: Seq<char>, body: Seq<u8>)
    requires
        route_for(method, path) == Route::NotFound,
    ensures
        step_for(method, path, body) == StepView::Reply(plain(NOT_FOUND, seq![])),
{
}

/// No route matches a request whose method is neither `GET` nor `POST`,
/// whatever its path.
pub proof fn law_other_methods(path: Seq<char>, body: Seq<u8>)
    ensures
        step_for(Method::Other, path, body) == StepView::Reply(plain(NOT_FOUND, seq![])),
{
}

/// `POST /fib` with the decimal numeral of a 32-bit number `n` as its body
/// is answered with the decimal numeral of the Fibonacci number at `n`.
pub proof fn law_fib_of_numeral(n: nat)
    requires
        n <= u32::MAX,
    ensures
        requested_index(decimal(n)) == Some(n as u32),
        step_for(Method::Post, "/fib"@, decimal(n)) == StepView::Reply(
            plain(OK, decimal(fib(n))),
        ),
{
    lemma_decimal_digits(n);
    lemma_decoded_ascii(decimal(n));
    lemma_parsed_decimal(n);
}

/// `POST /fib` with a body that asks for no index is answered with an empty
/// 400: a body that is not valid UTF-8, and one whose text, trimmed, is no
/// numeral of a 32-bit number.
pub proof fn law_fib_rejects(body: Seq<u8>)
    requires
        !valid_utf8(body) || parsed(trimmed(decode_utf8(body))) is None,
    ensures
        requested_index(body) is None,
        step_for(Method::Post, "/fib"@, body) == StepView::Reply(plain(BAD_REQUEST, seq![])),
{
}

/// A `GET` for a path that looks like a file name asks for that file,
/// whatever else the request holds.
pub proof fn law_file_requested(path: Seq<char>, body: Seq<u8>)
    requires
        file_like(path),
    ensures
        step_for(Method::Get, path, body) == (StepView::ServeFile { path }),
{
}

/// Where there is no file at the path, the reply is an empty 404; where
/// looking for it failed, an empty 500.
pub proof fn law_file_not_served(path: Seq<char>)
    ensures
        file_reply(path, FileProbe::Missing) == plain(NOT_FOUND, seq![]),
        file_reply(path, FileProbe::Failed) == plain(INTERNAL_SERVER_ERROR, seq![]),
{
}

/// Each row of the table: the MIME type of each extension that it holds.
pub proof fn law_mime_table()
    ensures
        mime_for("js"@) == "text/javascript"@,
        mime_for("html"@) == "text/html"@,
        mime_for("wasm"@) == "application/wasm"@,
        mime_for("css"@) == "text/css"@,
        mime_for("md"@) == "text/markdown"@,
        mime_for("ttf"@) == "font/ttf"@,
        mime_for("otf"@) == "font/otf"@,
        mime_for("woff"@) == "font/woff"@,
        mime_for("woff2"@) == "font/woff2"@,
        mime_for("sfnt"@) == "font/sfnt"@,
        mime_for("rs"@) == "text/plain"@,
        mime_for("toml"@) == "text/plain"@,
{
    reveal_strlit("js");
    reveal_strlit("html");
    reveal_strlit("wasm");
    reveal_strlit("css");
    reveal_strlit("md");
    reveal_strlit("ttf");
    reveal_strlit("otf");
    reveal_strlit("woff");
    reveal_strlit("woff2");
    reveal_strlit("sfnt");
    reveal_strlit("rs");
    reveal_strlit("toml");
    assert("js"@.len() == 2 && "js"@[0] == 'j');
    assert("md"@.len() == 2 && "md"@[0] == 'm');
    assert("rs"@.len() == 2 && "rs"@[0] == 'r');
    assert("css"@.len() == 3 && "css"@[0] == 'c');
    assert("ttf"@.len() == 3 && "ttf"@[0] == 't');
    assert("otf"@.len() == 3 && "otf"@[0] == 'o');
    assert("html"@.len() == 4 && "html"@[0] == 'h');
    assert("wasm"@.len() == 4 && "wasm"@[0] == 'w' && "wasm"@[1] == 'a');
    assert("woff"@.len() == 4 && "woff"@[0] == 'w' && "woff"@[1] == 'o');
    assert("sfnt"@.len() == 4 && "sfnt"@[0] == 's');
    assert("toml"@.len() == 4 && "toml"@[0] == 't');
    assert("woff2"@.len() == 5);
    lemma_lowercase_fixed("js"@);
    lemma_lowercase_fixed("html"@);
    lemma_lowercase_fixed("wasm"@);
    lemma_lowercase_fixed("css"@);
    lemma_lowercase_fixed("md"@);
    lemma_lowercase_fixed("ttf"@);
    lemma_lowercase_fixed("otf"@);
    lemma_lowercase_fixed("woff"@);
    lemma_lowercase_fixed("woff2"@);
    lemma_lowercase_fixed("sfnt"@);
    lemma_lowercase_fixed("rs"@);
    lemma_lowercase_fixed("toml"@);
}

/// The table does not tell capitals from small letters: an extension has
/// the MIME type of its lower-case form.
pub proof fn law_mime_ignores_case(ext: Seq<char>)
    ensures
        mime_for(ext) == mime_for(lowercase(ext)),
{
    assert(lowercase(lowercase(ext)) =~= lowercase(ext));
}

/// A file that is found is served whole, under the MIME type that the table
/// gives for its extension.
pub proof fn law_file_served(path: Seq<char>, ext: Seq<char>, contents: Vec<u8>)
    requires
        extension_of(path) == Some(ext),
    ensures
        file_reply(path, FileProbe::Found(contents)) == with_header(
            OK,
            CONTENT_TYPE@,
            mime_for(ext),
            contents@,
        ),
{
}

/// A file that is found and whose extension is `html`, in capitals or small
/// letters, is served whole as `text/html`.
pub proof fn law_html_file_served(path: Seq<char>, ext: Seq<char>, contents: Vec<u8>)
    requires
        extension_of(path) == Some(ext),
        lowercase(ext) == "html"@,
    ensures
        file_reply(path, FileProbe::Found(contents)) == with_header(
            OK,
            CONTENT_TYPE@,
            "text/html"@,
            contents@,
        ),
{
    law_mime_table();
    law_mime_ignores_case(ext);
}

/// A file that is found and whose extension the table does not hold, or
/// that has no extension, is served whole as `application/octet-stream`.
pub proof fn law_unlisted_file_served(path: Seq<char>, contents: Vec<u8>)
    requires
        extension_of(path) matches Some(ext) ==> !listed(lowercase(ext)),
    ensures
        file_reply(path, FileProbe::Found(contents)) == with_header(
            OK,
            CONTENT_TYPE@,
            "application/octet-stream"@,
            contents@,
        ),
{
}

/// The extension of a path holds neither a dot nor a slash.
pub proof fn law_extension_is_plain(path: Seq<char>, ext: Seq<char>)
    requires
        extension_of(path) == Some(ext),
    ensures
        !ext.contains('.'),
        !ext.contains('/'),
{
    let segment = final_segment(path);
    lemma_last_position(path, '/');
    lemma_last_position(segment, '.');
    let slash = last_position(path, '/');
    let dot = last_position(segment, '.');
    assert forall|i: int| 0 <= i < ext.len() implies ext[i] != '.' && ext[i] != '/' by {
        assert(ext[i] == segment[dot + 1 + i]);
        assert(segment[dot + 1 + i] == path[slash + 1 + dot + 1 + i]);
    }
}

/// Text without capital letters is its own lower-case form.
proof fn lemma_lowercase_fixed(s: Seq<char>)
    requires
        forall|i: int| 0 <= i < s.len() ==> !('A' <= #[trigger] s[i] <= 'Z'),
    ensures
        lowercase(s) == s,
{
    assert(lowercase(s) =~= s);
}

} // verus!
