//! What one connection sends back: the decisions of the connection loop,
//! with sockets left to the caller.
use vstd::prelude::*;
use crate::text::{contains_seq, matches_at};
use crate::router::{
    Handler, Files, BodyTransform, dispatch_spec, write_spec, opt_pair_view, not_found, lookup, opt_view,
    status_response,
};
use crate::middleware::Middleware;

verus! {

/// The blank line that ends the header block.
pub open spec fn header_end() -> Seq<char> {
    "\r\n\r\n"@
}

/// What a connection sends for `request`: the table's answer, or 404 when
/// it has none.
pub open spec fn respond_spec<T: BodyTransform>(
    h: &Handler<T>,
    request: Seq<char>,
    files: Seq<(Seq<char>, Seq<char>)>,
) -> Seq<char> {
    match dispatch_spec(h, request, files) {
        Some(r) => r,
        None => not_found(),
    }
}

/// What a connection with middleware `m` sends for `request`: `before`'s
/// answer if it gives one; else the table's answer (404 when it has none),
/// replaced by `after`'s if that gives one.
pub open spec fn respond_with_spec<T: BodyTransform, M: Middleware>(
    h: &Handler<T>,
    m: &M,
    request: Seq<char>,
    files: Seq<(Seq<char>, Seq<char>)>,
) -> Seq<char> {
    match m.before_spec(request) {
        Some(early) => early,
        None => {
            let resp = match dispatch_spec(h, request, files) {
                Some(r) => r,
                None => not_found(),
            };
            match m.after_spec(resp) {
                Some(replaced) => replaced,
                None => resp,
            }
        },
    }
}

/// Whether the text read so far holds the end of the header block, so
/// that reading can stop.
pub fn request_complete(request: &str) -> (r: bool)
    ensures
        r == contains_seq(request@, header_end()),
{
    let n = request.unicode_len();
    let sep = "\r\n\r\n";
    proof {
        reveal_strlit("\r\n\r\n");
    }
    let m = sep.unicode_len();
    let mut i: usize = 0;
    while i < n
        invariant
            n == request@.len(),
            m == sep@.len(),
            i <= n,
            sep@ == header_end(),
            forall|j: int| 0 <= j < i ==> !ends_headers_at(request@, j),
        decreases n - i,
    {
        if matches_at(request, n, i, sep, m) {
            return true;
        }
        i = i + 1;
    }
    assert forall|j: int| !crate::text::occurs_at(request@, j, header_end()) by {
        if crate::text::occurs_at(request@, j, header_end()) {
            assert(!ends_headers_at(request@, j));
        }
    }
    false
}

/// Whether the end of the header block stands in `s` at position `j`.
pub open spec fn ends_headers_at(s: Seq<char>, j: int) -> bool {
    crate::text::occurs_at(s, j, header_end())
}

/// What a connection sends for `request`.
pub fn respond<T: BodyTransform>(handler: &Handler<T>, request: &str, files: &Files) -> (r: String)
    ensures
        r@ == respond_spec(handler, request@, files@),
{
    match handler.handle_request(request, files) {
        Some(r) => r,
        None => status_response(404),
    }
}

/// What a connection with middleware sends for `request`.
pub fn respond_with_middleware<T: BodyTransform, M: Middleware>(
    handler: &Handler<T>,
    middleware: &M,
    request: &str,
    files: &Files,
) -> (r: String)
    ensures
        r@ == respond_with_spec(handler, middleware, request@, files@),
{
    if let Some(early) = middleware.before(request) {
        return early;
    }
    let response = match handler.handle_request(request, files) {
        Some(r) => r,
        None => status_response(404),
    };
    match middleware.after(response.as_str()) {
        Some(replaced) => replaced,
        None => response,
    }
}

/// The file that `request` makes the DELETE route rewrite when it runs
/// behind `middleware`: none when `before` answers, else the table's.
pub fn pending_write_with_middleware<T: BodyTransform, M: Middleware>(
    handler: &Handler<T>,
    middleware: &M,
    request: &str,
    files: &Files,
) -> (r: Option<(String, String)>)
    ensures
        opt_pair_view(r) == match middleware.before_spec(request@) {
            Some(_) => None,
            None => write_spec(handler, request@, files@),
        },
{
    if middleware.before(request).is_some() {
        return None;
    }
    handler.pending_write(request, files)
}

/// The file that a static request for `path` reads: `static/<path>`.
pub open spec fn static_path_spec(path: Seq<char>) -> Seq<char> {
    "static/"@ + path
}

pub open spec fn static_spec(path: Seq<char>, files: Seq<(Seq<char>, Seq<char>)>) -> Seq<char> {
    match lookup(files, static_path_spec(path)) {
        Some(c) => "HTTP/1.1 200 OK\r\nContent-Type: text/html\r\n\r\n"@ + c,
        None => not_found(),
    }
}

/// The name of the file that serves static `path`.
pub fn static_path(path: &str) -> (r: String)
    ensures
        r@ == static_path_spec(path@),
{
    let mut p = String::from_str("static/");
    p.append(path);
    p
}

/// Serves `path` from the static directory as HTML, or 404 when the file
/// could not be read.
pub fn serve_static(path: &str, files: &Files) -> (r: Option<String>)
    ensures
        opt_view(r) == Some(static_spec(path@, files@)),
{
    let name = static_path(path);
    match files.read(name.as_str()) {
        Some(c) => {
            let mut out = String::from_str("HTTP/1.1 200 OK\r\nContent-Type: text/html\r\n\r\n");
            out.append(c.as_str());
            Some(out)
        },
        None => Some(status_response(404)),
    }
}

/// A `before` hook that answers keeps dispatch out entirely: the answer does
/// not depend on the table, and is what the connection sends.
pub proof fn law_before_short_circuits<T: BodyTransform, M: Middleware>(
    h1: &Handler<T>,
    h2: &Handler<T>,
    m: &M,
    request: Seq<char>,
    files1: Seq<(Seq<char>, Seq<char>)>,
    files2: Seq<(Seq<char>, Seq<char>)>,
)
    requires
        m.before_spec(request) is Some,
    ensures
        respond_with_spec(h1, m, request, files1) == m.before_spec(request)->0,
        respond_with_spec(h1, m, request, files1) == respond_with_spec(h2, m, request, files2),
{
}

} // verus!
