//! Routes, the dispatch table with one route per method, and the responses
//! it produces.
use vstd::prelude::*;
use crate::text::{
    split_spec, views, starts_with_spec, split, starts_with, str_eq, lemma_split_concat,
    lemma_split_without_sep,
};
use crate::template::{
    apply_params_spec, params_of, apply_params, parse_params, substitute, merged, opt_params,
    fill_form,
};
use crate::request::{
    lines_spec, path_of, query_of, body_spec, body_from, strip_cr, lines, split_target, body_of,
};
use crate::json::{json_object_parses, json_without_member, remove_json_member};

verus! {

/// The view of an optional string.
pub open spec fn opt_view(o: Option<String>) -> Option<Seq<char>> {
    match o {
        Some(s) => Some(s@),
        None => None,
    }
}

/// Where a route takes its content from: a file read at request time, or
/// text held in memory.
pub enum ContentType<'a> {
    File(&'a str),
    String(&'a str),
}

/// The contents of the files that the routes name, as read for one request.
/// A later entry for a name hides an earlier one; a name without an entry
/// could not be read.
pub struct Files {
    entries: Vec<(String, String)>,
}

/// The content of file `name` among `entries`, the latest entry first.
pub open spec fn lookup(entries: Seq<(Seq<char>, Seq<char>)>, name: Seq<char>) -> Option<Seq<char>>
    decreases entries.len(),
{
    if entries.len() == 0 {
        None
    } else if entries.last().0 == name {
        Some(entries.last().1)
    } else {
        lookup(entries.drop_last(), name)
    }
}

impl View for Files {
    type V = Seq<(Seq<char>, Seq<char>)>;

    closed spec fn view(&self) -> Seq<(Seq<char>, Seq<char>)> {
        self.entries@.map_values(|e: (String, String)| (e.0@, e.1@))
    }
}

impl Files {
    /// No file read.
    pub fn new() -> (r: Files)
        ensures
            r@ == Seq::<(Seq<char>, Seq<char>)>::empty(),
    {
        let r = Files { entries: Vec::new() };
        assert(r@ =~= Seq::<(Seq<char>, Seq<char>)>::empty());
        r
    }

    /// Records that file `name` holds `content`.
    pub fn insert(&mut self, name: String, content: String)
        ensures
            final(self)@ == old(self)@.push((name@, content@)),
    {
        self.entries.push((name, content));
        assert(final(self)@ =~= old(self)@.push((name@, content@)));
    }

    /// The content recorded for file `name`.
    pub fn read(&self, name: &str) -> (r: Option<String>)
        ensures
            opt_view(r) == lookup(self@, name@),
    {
        let mut i: usize = self.entries.len();
        assert(self@.subrange(0, i as int) =~= self@);
        while i > 0
            invariant
                i <= self.entries@.len(),
                lookup(self@, name@) == lookup(self@.subrange(0, i as int), name@),
            decreases i,
        {
            let ghost sub = self@.subrange(0, i as int);
            assert(sub.drop_last() =~= self@.subrange(0, i - 1));
            assert(sub.last() == (self.entries@[i - 1].0@, self.entries@[i - 1].1@));
            if str_eq(self.entries[i - 1].0.as_str(), name) {
                return Some(self.entries[i - 1].1.clone());
            }
            i = i - 1;
        }
        None
    }
}

/// A transformation of a file's content by a request body, for PUT routes.
pub trait BodyTransform {
    /// What `apply` returns, over views.
    spec fn transform_spec(&self, content: Seq<char>, body: Seq<char>) -> Option<Seq<char>>;

    fn apply(&self, content: &str, body: &str) -> (r: Option<String>)
        ensures
            opt_view(r) == self.transform_spec(content@, body@),
    ;
}

/// Fills the file's placeholders from the body's `k=v` pairs.
pub struct SubstituteBody;

impl BodyTransform for SubstituteBody {
    open spec fn transform_spec(&self, content: Seq<char>, body: Seq<char>) -> Option<Seq<char>> {
        Some(apply_params_spec(content, body))
    }

    fn apply(&self, content: &str, body: &str) -> (r: Option<String>) {
        Some(apply_params(content.to_owned(), body))
    }
}

/// A GET route: content from a file or from memory, with the caller's
/// header block (status line included) put before it.
pub struct GetRoute<'a> {
    pub prefix: &'a str,
    pub content: ContentType<'a>,
    pub headers: &'a str,
}

/// A POST route: a file's content with query and body parameters substituted.
pub struct PostRoute<'a> {
    pub prefix: &'a str,
    pub filename: &'a str,
    pub content_type: &'a str,
}

/// A PUT route: a file's content handed with the body to a transform.
pub struct PutRoute<'a, T> {
    pub prefix: &'a str,
    pub filename: &'a str,
    pub transform: T,
    pub content_type: &'a str,
}

/// A DELETE route: removes a top-level member from a JSON file.
pub struct DeleteRoute<'a> {
    pub prefix: &'a str,
    pub content: ContentType<'a>,
    pub default_key: &'a str,
}

/// The dispatch table: at most one route per method.
pub struct Handler<'a, T> {
    pub get_handler: Option<GetRoute<'a>>,
    pub post_handler: Option<PostRoute<'a>>,
    pub put_handler: Option<PutRoute<'a, T>>,
    pub delete_handler: Option<DeleteRoute<'a>>,
}

/// 400: the request line has no target.
pub open spec fn bad_request() -> Seq<char> {
    "HTTP/1.1 400 BAD REQUEST\r\n\r\n"@
}

/// 404: no route for the method, or the route declined.
pub open spec fn not_found() -> Seq<char> {
    "HTTP/1.1 404 NOT FOUND\r\n\r\n"@
}

/// 405: a method word the table does not know.
pub open spec fn method_not_allowed() -> Seq<char> {
    "HTTP/1.1 405 METHOD NOT ALLOWED\r\n\r\n"@
}

/// A DELETE route's file could not be read.
pub open spec fn file_not_found() -> Seq<char> {
    "HTTP/1.1 404 NOT FOUND\r\nContent-Type: text/plain\r\n\r\nFile not found."@
}

/// A DELETE route's file does not hold a JSON object.
pub open spec fn json_only() -> Seq<char> {
    "HTTP/1.1 501 NOT IMPLEMENTED\r\nContent-Type: text/plain\r\n\r\nDeletion from non-JSON content not implemented."@
}

/// A DELETE route whose content is held in memory.
pub open spec fn memory_only() -> Seq<char> {
    "HTTP/1.1 501 NOT IMPLEMENTED\r\nContent-Type: text/plain\r\n\r\nDeletion from in-memory content not implemented."@
}

/// A `200 OK` status line and a `Content-Type` header, then the blank line.
pub open spec fn ok_header(content_type: Seq<char>) -> Seq<char> {
    "HTTP/1.1 200 OK\r\nContent-Type: "@ + content_type + "\r\n\r\n"@
}

/// A DELETE that removed member `key`.
pub open spec fn removed_message(key: Seq<char>) -> Seq<char> {
    "HTTP/1.1 200 OK\r\nContent-Type: text/plain\r\n\r\nElement '"@ + key + "' removed successfully."@
}

/// `content` with the parameters of `params`, if there are any.
pub open spec fn apply_opt(content: Seq<char>, params: Option<Seq<char>>) -> Seq<char> {
    match params {
        Some(p) => apply_params_spec(content, p),
        None => content,
    }
}

/// The content a source gives: the file's, or the text itself.
pub open spec fn source_content(source: ContentType, files: Seq<(Seq<char>, Seq<char>)>) -> Option<Seq<char>> {
    match source {
        ContentType::File(f) => lookup(files, f@),
        ContentType::String(s) => Some(s@),
    }
}

pub open spec fn get_spec(
    route: GetRoute,
    path: Seq<char>,
    query: Option<Seq<char>>,
    files: Seq<(Seq<char>, Seq<char>)>,
) -> Option<Seq<char>> {
    if !starts_with_spec(path, route.prefix@) {
        None
    } else {
        match source_content(route.content, files) {
            Some(c) => Some(route.headers@ + apply_opt(c, query)),
            None => None,
        }
    }
}

pub open spec fn post_spec(
    route: PostRoute,
    path: Seq<char>,
    query: Option<Seq<char>>,
    body: Seq<char>,
    files: Seq<(Seq<char>, Seq<char>)>,
) -> Option<Seq<char>> {
    if !starts_with_spec(path, route.prefix@) {
        None
    } else {
        match lookup(files, route.filename@) {
            Some(c) => Some(
                ok_header(route.content_type@) + substitute(
                    c,
                    merged(opt_params(query), params_of(body)),
                ),
            ),
            None => None,
        }
    }
}

pub open spec fn put_spec<T: BodyTransform>(
    route: PutRoute<T>,
    path: Seq<char>,
    body: Seq<char>,
    files: Seq<(Seq<char>, Seq<char>)>,
) -> Option<Seq<char>> {
    if !starts_with_spec(path, route.prefix@) {
        None
    } else {
        match lookup(files, route.filename@) {
            Some(c) => Some(
                ok_header(route.content_type@) + match route.transform.transform_spec(c, body) {
                    Some(t) => t,
                    None => Seq::empty(),
                },
            ),
            None => None,
        }
    }
}

/// The value of the first well-formed `key=v` pair of `pairs`.
pub open spec fn key_param(pairs: Seq<(Seq<char>, Seq<char>)>) -> Option<Seq<char>>
    decreases pairs.len(),
{
    if pairs.len() == 0 {
        None
    } else if pairs[0].0 == "key"@ {
        Some(pairs[0].1)
    } else {
        key_param(pairs.subrange(1, pairs.len() as int))
    }
}

/// The member a DELETE request removes: the query's `key`, else the default.
pub open spec fn delete_key(query: Option<Seq<char>>, default_key: Seq<char>) -> Seq<char> {
    match query {
        Some(q) => match key_param(params_of(q)) {
            Some(k) => k,
            None => default_key,
        },
        None => default_key,
    }
}

pub open spec fn delete_spec(
    route: DeleteRoute,
    path: Seq<char>,
    query: Option<Seq<char>>,
    files: Seq<(Seq<char>, Seq<char>)>,
) -> Option<Seq<char>> {
    if !starts_with_spec(path, route.prefix@) {
        None
    } else {
        match route.content {
            ContentType::File(f) => match lookup(files, f@) {
                None => Some(file_not_found()),
                Some(c) => if json_object_parses(c) {
                    Some(removed_message(delete_key(query, route.default_key@)))
                } else {
                    Some(json_only())
                },
            },
            ContentType::String(_) => Some(memory_only()),
        }
    }
}

/// The file a DELETE of `path` with `query` rewrites, and its new content:
/// `Some` when the path matches, the source is a file that could be read
/// and it holds a JSON object, which loses the member the request names.
pub open spec fn rewrite_spec(
    route: DeleteRoute,
    path: Seq<char>,
    query: Option<Seq<char>>,
    files: Seq<(Seq<char>, Seq<char>)>,
) -> Option<(Seq<char>, Seq<char>)> {
    if !starts_with_spec(path, route.prefix@) {
        None
    } else {
        match route.content {
            ContentType::File(f) => match lookup(files, f@) {
                Some(c) => if json_object_parses(c) {
                    Some((f@, json_without_member(c, delete_key(query, route.default_key@))))
                } else {
                    None
                },
                None => None,
            },
            ContentType::String(_) => None,
        }
    }
}

/// The view of an optional pair of strings.
pub open spec fn opt_pair_view(o: Option<(String, String)>) -> Option<(Seq<char>, Seq<char>)> {
    match o {
        Some(p) => Some((p.0@, p.1@)),
        None => None,
    }
}

/// The file that `request` makes the table's DELETE route rewrite, with its
/// new content.
pub open spec fn write_spec<T>(
    h: &Handler<T>,
    request: Seq<char>,
    files: Seq<(Seq<char>, Seq<char>)>,
) -> Option<(Seq<char>, Seq<char>)> {
    if has_target(request) && method_of(request_method(request)) == Method::Delete {
        match h.delete_handler {
            Some(r) => rewrite_spec(
                r,
                request_path(request),
                query_of(request_words(request)[1]),
                files,
            ),
            None => None,
        }
    } else {
        None
    }
}

/// The request methods that the table knows.
pub enum Method {
    Get,
    Post,
    Put,
    Delete,
    Other,
}

pub open spec fn method_of(m: Seq<char>) -> Method {
    if m == "GET"@ {
        Method::Get
    } else if m == "POST"@ {
        Method::Post
    } else if m == "PUT"@ {
        Method::Put
    } else if m == "DELETE"@ {
        Method::Delete
    } else {
        Method::Other
    }
}

/// The words of the request line of `request`, when it has one.
pub open spec fn request_words(request: Seq<char>) -> Seq<Seq<char>> {
    split_spec(lines_spec(request)[0], ' ')
}

/// What the table answers to `request`: 400 when there is no request line
/// or it lacks a target; `None` when the method's route declines it.
pub open spec fn dispatch_spec<T: BodyTransform>(
    h: &Handler<T>,
    request: Seq<char>,
    files: Seq<(Seq<char>, Seq<char>)>,
) -> Option<Seq<char>> {
    let ls = lines_spec(request);
    if ls.len() == 0 {
        Some(bad_request())
    } else {
        let words = split_spec(ls[0], ' ');
        if words.len() < 2 {
            Some(bad_request())
        } else {
            let path = path_of(words[1]);
            let query = query_of(words[1]);
            match method_of(words[0]) {
                Method::Get => match h.get_handler {
                    Some(r) => get_spec(r, path, query, files),
                    None => Some(not_found()),
                },
                Method::Post => match h.post_handler {
                    Some(r) => post_spec(r, path, query, body_spec(ls), files),
                    None => Some(not_found()),
                },
                Method::Put => match h.put_handler {
                    Some(r) => put_spec(r, path, body_spec(ls), files),
                    None => Some(not_found()),
                },
                Method::Delete => match h.delete_handler {
                    Some(r) => delete_spec(r, path, query, files),
                    None => Some(not_found()),
                },
                Method::Other => Some(method_not_allowed()),
            }
        }
    }
}

/// The text `s` as an owned string.
fn owned(s: &str) -> (r: String)
    ensures
        r@ == s@,
{
    String::from_str(s)
}

/// The header block of a `200 OK` response with the given content type.
pub fn ok_header_text(content_type: &str) -> (r: String)
    ensures
        r@ == ok_header(content_type@),
{
    let mut h = owned("HTTP/1.1 200 OK\r\nContent-Type: ");
    h.append(content_type);
    h.append("\r\n\r\n");
    h
}

/// Which method the word `m` names.
pub fn parse_method(m: &str) -> (r: Method)
    ensures
        r == method_of(m@),
{
    if str_eq(m, "GET") {
        Method::Get
    } else if str_eq(m, "POST") {
        Method::Post
    } else if str_eq(m, "PUT") {
        Method::Put
    } else if str_eq(m, "DELETE") {
        Method::Delete
    } else {
        Method::Other
    }
}

impl<'a> ContentType<'a> {
    /// The content this source gives, if it can be read.
    pub fn load(&self, files: &Files) -> (r: Option<String>)
        ensures
            opt_view(r) == source_content(*self, files@),
    {
        match self {
            ContentType::File(f) => files.read(f),
            ContentType::String(s) => Some(owned(s)),
        }
    }
}

impl<'a> GetRoute<'a> {
    /// The response to a GET of `path` with `query`.
    pub fn respond(&self, path: &str, query: Option<&str>, files: &Files) -> (r: Option<String>)
        ensures
            opt_view(r) == get_spec(*self, path@, match query {
                Some(q) => Some(q@),
                None => None,
            }, files@),
    {
        if !starts_with(path, self.prefix) {
            return None;
        }
        let content = match self.content.load(files) {
            Some(c) => c,
            None => return None,
        };
        let content = match query {
            Some(q) => apply_params(content, q),
            None => content,
        };
        let mut out = owned(self.headers);
        out.append(content.as_str());
        Some(out)
    }
}

impl<'a> PostRoute<'a> {
    /// The response to a POST of `body` to `path` with `query`.
    pub fn respond(&self, path: &str, query: Option<&str>, body: &str, files: &Files) -> (r: Option<
        String,
    >)
        ensures
            opt_view(r) == post_spec(*self, path@, match query {
                Some(q) => Some(q@),
                None => None,
            }, body@, files@),
    {
        if !starts_with(path, self.prefix) {
            return None;
        }
        let content = match files.read(self.filename) {
            Some(c) => c,
            None => return None,
        };
        let content = fill_form(content, query, body);
        let mut out = ok_header_text(self.content_type);
        out.append(content.as_str());
        Some(out)
    }
}

impl<'a, T: BodyTransform> PutRoute<'a, T> {
    /// The response to a PUT of `body` to `path`.
    pub fn respond(&self, path: &str, body: &str, files: &Files) -> (r: Option<String>)
        ensures
            opt_view(r) == put_spec(*self, path@, body@, files@),
    {
        if !starts_with(path, self.prefix) {
            return None;
        }
        let content = match files.read(self.filename) {
            Some(c) => c,
            None => return None,
        };
        let mut out = ok_header_text(self.content_type);
        match self.transform.apply(content.as_str(), body) {
            Some(t) => out.append(t.as_str()),
            None => {},
        }
        Some(out)
    }
}

/// The value of the first `key=v` pair of `query`, else `default_key`.
pub fn resolve_delete_key(query: Option<&str>, default_key: &str) -> (r: String)
    ensures
        r@ == delete_key(match query {
            Some(q) => Some(q@),
            None => None,
        }, default_key@),
{
    let q = match query {
        None => {
            return owned(default_key);
        },
        Some(q) => q,
    };
    let pairs = parse_params(q);
    let ghost ps = params_of(q@);
    let mut i: usize = 0;
    assert(ps.subrange(0, ps.len() as int) =~= ps);
    while i < pairs.len()
        invariant
            i <= pairs@.len(),
            ps == params_of(q@),
            pairs@.len() == ps.len(),
            forall|j: int|
                0 <= j < pairs@.len() ==> (#[trigger] pairs@[j]).0@ == ps[j].0 && pairs@[j].1@
                    == ps[j].1,
            key_param(ps) == key_param(ps.subrange(i as int, ps.len() as int)),
        ensures
            i <= pairs@.len(),
            i < pairs@.len() ==> key_param(ps) == Some(ps[i as int].1),
            i == pairs@.len() ==> key_param(ps) == key_param(ps.subrange(i as int, ps.len() as int)),
        decreases pairs@.len() - i,
    {
        let ghost t = ps.subrange(i as int, ps.len() as int);
        assert(t[0] == ps[i as int]);
        if str_eq(pairs[i].0.as_str(), "key") {
            assert(key_param(t) == Some(t[0].1));
            break;
        }
        assert(t.subrange(1, t.len() as int) =~= ps.subrange(i + 1, ps.len() as int));
        i = i + 1;
    }
    if i < pairs.len() {
        assert(pairs@[i as int].1@ == ps[i as int].1);
        pairs[i].1.clone()
    } else {
        assert(ps.subrange(i as int, ps.len() as int).len() == 0);
        owned(default_key)
    }
}

impl<'a> DeleteRoute<'a> {
    /// The response to a DELETE of `path` with `query`.
    pub fn respond(&self, path: &str, query: Option<&str>, files: &Files) -> (r: Option<String>)
        ensures
            opt_view(r) == delete_spec(*self, path@, match query {
                Some(q) => Some(q@),
                None => None,
            }, files@),
    {
        if !starts_with(path, self.prefix) {
            return None;
        }
        match self.content {
            ContentType::File(f) => match files.read(f) {
                None => Some(owned(
                    "HTTP/1.1 404 NOT FOUND\r\nContent-Type: text/plain\r\n\r\nFile not found.",
                )),
                Some(c) => {
                    let key = resolve_delete_key(query, self.default_key);
                    match remove_json_member(c.as_str(), key.as_str()) {
                        Some(_) => {
                            let mut out = owned(
                                "HTTP/1.1 200 OK\r\nContent-Type: text/plain\r\n\r\nElement '",
                            );
                            out.append(key.as_str());
                            out.append("' removed successfully.");
                            Some(out)
                        },
                        None => Some(owned(
                            "HTTP/1.1 501 NOT IMPLEMENTED\r\nContent-Type: text/plain\r\n\r\nDeletion from non-JSON content not implemented.",
                        )),
                    }
                },
            },
            ContentType::String(_) => Some(owned(
                "HTTP/1.1 501 NOT IMPLEMENTED\r\nContent-Type: text/plain\r\n\r\nDeletion from in-memory content not implemented.",
            )),
        }
    }

    /// The new content of the route's file after a DELETE of `path` with
    /// `query`: `None` when the path does not match, the source is not a
    /// file, the file is missing or does not hold a JSON object.
    pub fn rewritten(&self, path: &str, query: Option<&str>, files: &Files) -> (r: Option<(String, String)>)
        ensures
            opt_pair_view(r) == rewrite_spec(*self, path@, match query {
                Some(q) => Some(q@),
                None => None,
            }, files@),
    {
        if !starts_with(path, self.prefix) {
            return None;
        }
        match self.content {
            ContentType::File(f) => match files.read(f) {
                None => None,
                Some(c) => {
                    let key = resolve_delete_key(query, self.default_key);
                    match remove_json_member(c.as_str(), key.as_str()) {
                        Some(text) => Some((owned(f), text)),
                        None => None,
                    }
                },
            },
            ContentType::String(_) => None,
        }
    }
}

/// The response text of a status that needs no header beyond the status line.
pub fn status_response(code: u16) -> (r: String)
    requires
        code == 400 || code == 404 || code == 405,
    ensures
        code == 400 ==> r@ == bad_request(),
        code == 404 ==> r@ == not_found(),
        code == 405 ==> r@ == method_not_allowed(),
{
    if code == 400 {
        owned("HTTP/1.1 400 BAD REQUEST\r\n\r\n")
    } else if code == 404 {
        owned("HTTP/1.1 404 NOT FOUND\r\n\r\n")
    } else {
        owned("HTTP/1.1 405 METHOD NOT ALLOWED\r\n\r\n")
    }
}

impl<'a, T: BodyTransform> Handler<'a, T> {
    /// The table's answer to the raw request text: its route's response,
    /// 404 when the method has no route, 405 for an unknown method, 400 when
    /// there is no request line or it lacks a target; `None` when the route
    /// declines.
    pub fn handle_request(&self, request: &str, files: &Files) -> (r: Option<String>)
        ensures
            opt_view(r) == dispatch_spec(self, request@, files@),
    {
        let ls = lines(request);
        if ls.len() == 0 {
            return Some(status_response(400));
        }
        let words = split(ls[0].as_str(), ' ');
        if words.len() < 2 {
            return Some(status_response(400));
        }
        let (path, query) = split_target(words[1].as_str());
        let q: Option<&str> = match &query {
            Some(s) => Some(s.as_str()),
            None => None,
        };
        match parse_method(words[0].as_str()) {
            Method::Get => match &self.get_handler {
                Some(route) => route.respond(path.as_str(), q, files),
                None => Some(status_response(404)),
            },
            Method::Post => match &self.post_handler {
                Some(route) => {
                    let body = body_of(&ls);
                    route.respond(path.as_str(), q, body.as_str(), files)
                },
                None => Some(status_response(404)),
            },
            Method::Put => match &self.put_handler {
                Some(route) => {
                    let body = body_of(&ls);
                    route.respond(path.as_str(), body.as_str(), files)
                },
                None => Some(status_response(404)),
            },
            Method::Delete => match &self.delete_handler {
                Some(route) => route.respond(path.as_str(), q, files),
                None => Some(status_response(404)),
            },
            Method::Other => Some(status_response(405)),
        }
    }
}

impl<'a, T: BodyTransform> Handler<'a, T> {
    /// The file that `request` makes the DELETE route rewrite, with its new
    /// content: `Some` exactly for a DELETE request that the route changes.
    pub fn pending_write(&self, request: &str, files: &Files) -> (r: Option<(String, String)>)
        ensures
            opt_pair_view(r) == write_spec(self, request@, files@),
    {
        let ls = lines(request);
        if ls.len() == 0 {
            return None;
        }
        let words = split(ls[0].as_str(), ' ');
        if words.len() < 2 {
            return None;
        }
        let (path, query) = split_target(words[1].as_str());
        let q: Option<&str> = match &query {
            Some(s) => Some(s.as_str()),
            None => None,
        };
        match parse_method(words[0].as_str()) {
            Method::Delete => match &self.delete_handler {
                Some(route) => route.rewritten(path.as_str(), q, files),
                None => None,
            },
            _ => None,
        }
    }
}

/// The method word of `request`'s request line.
pub open spec fn request_method(request: Seq<char>) -> Seq<char> {
    request_words(request)[0]
}

/// The path of `request`'s target.
pub open spec fn request_path(request: Seq<char>) -> Seq<char> {
    path_of(request_words(request)[1])
}

/// Whether `request` has a request line with a method and a target.
pub open spec fn has_target(request: Seq<char>) -> bool {
    lines_spec(request).len() > 0 && request_words(request).len() >= 2
}

/// Whether `h` has no route for method `m`.
pub open spec fn slot_empty<T>(h: &Handler<T>, m: Method) -> bool {
    match m {
        Method::Get => h.get_handler is None,
        Method::Post => h.post_handler is None,
        Method::Put => h.put_handler is None,
        Method::Delete => h.delete_handler is None,
        Method::Other => false,
    }
}

/// A method without a route is answered with 404, whatever the path.
pub proof fn law_empty_slot_not_found<T: BodyTransform>(
    h: &Handler<T>,
    request: Seq<char>,
    files: Seq<(Seq<char>, Seq<char>)>,
)
    requires
        has_target(request),
        slot_empty(h, method_of(request_method(request))),
    ensures
        dispatch_spec(h, request, files) == Some(not_found()),
{
}

/// A method word other than GET, POST, PUT and DELETE is answered with 405.
pub proof fn law_unknown_method_not_allowed<T: BodyTransform>(
    h: &Handler<T>,
    request: Seq<char>,
    files: Seq<(Seq<char>, Seq<char>)>,
)
    requires
        has_target(request),
        request_method(request) != "GET"@,
        request_method(request) != "POST"@,
        request_method(request) != "PUT"@,
        request_method(request) != "DELETE"@,
    ensures
        dispatch_spec(h, request, files) == Some(method_not_allowed()),
{
}

/// A GET whose path starts with the GET route's prefix is answered with the
/// route's header block first; with content held in memory it is always
/// answered.
pub proof fn law_get_starts_with_headers<T: BodyTransform>(
    h: &Handler<T>,
    request: Seq<char>,
    files: Seq<(Seq<char>, Seq<char>)>,
)
    requires
        has_target(request),
        request_method(request) == "GET"@,
        h.get_handler is Some,
        starts_with_spec(request_path(request), h.get_handler->0.prefix@),
    ensures
        h.get_handler->0.content is String ==> dispatch_spec(h, request, files) is Some,
        dispatch_spec(h, request, files) is Some ==> starts_with_spec(
            dispatch_spec(h, request, files)->0,
            h.get_handler->0.headers@,
        ),
{
    let route = h.get_handler->0;
    match source_content(route.content, files) {
        Some(c) => {
            let r = route.headers@ + apply_opt(c, query_of(request_words(request)[1]));
            assert(r.subrange(0, route.headers@.len() as int) =~= route.headers@);
        },
        None => {},
    }
}

/// Concatenation adds no character that neither side holds.
pub proof fn lemma_concat_lacks(a: Seq<char>, b: Seq<char>, c: char)
    requires
        !a.contains(c),
        !b.contains(c),
    ensures
        !(a + b).contains(c),
{
    if (a + b).contains(c) {
        let i = choose|i: int| 0 <= i < (a + b).len() && (a + b)[i] == c;
        if i < a.len() {
            assert(a[i] == c);
        } else {
            assert(b[i - a.len()] == c);
        }
    }
}

/// The text of a POST request with one header line and a one-line body.
pub open spec fn form_post(target: Seq<char>, header: Seq<char>, body: Seq<char>) -> Seq<char> {
    "POST "@ + target + " HTTP/1.1\r\n"@ + header + "\r\n\r\n"@ + body
}

/// A POST with one header line and a one-line body, to a path under the POST
/// route's prefix whose file could be read, is answered with a `200 OK` of
/// the route's content type and the file's content filled once from the
/// query's and the body's parameters merged, the body's value winning on a
/// shared key.
pub proof fn law_post_form<T: BodyTransform>(
    h: &Handler<T>,
    files: Seq<(Seq<char>, Seq<char>)>,
    target: Seq<char>,
    header: Seq<char>,
    body: Seq<char>,
)
    requires
        h.post_handler is Some,
        !target.contains(' '),
        !target.contains('\n'),
        !header.contains('\n'),
        header != seq!['\r'],
        !body.contains('\n'),
        body.len() > 0,
        body != seq!['\r'],
        starts_with_spec(path_of(target), h.post_handler->0.prefix@),
        lookup(files, h.post_handler->0.filename@) is Some,
    ensures
        dispatch_spec(h, form_post(target, header, body), files) == Some(
            ok_header(h.post_handler->0.content_type@) + substitute(
                lookup(files, h.post_handler->0.filename@)->0,
                merged(opt_params(query_of(target)), params_of(body)),
            ),
        ),
{
    reveal_strlit("POST ");
    reveal_strlit(" HTTP/1.1\r\n");
    reveal_strlit("\r\n\r\n");
    reveal_strlit("POST");
    reveal_strlit("GET");
    let post = seq!['P', 'O', 'S', 'T'];
    let version = seq!['H', 'T', 'T', 'P', '/', '1', '.', '1'];
    let rl = post + seq![' '] + target + seq![' '] + version;
    let a = rl + seq!['\r'];
    let b = header + seq!['\r'];
    let c = seq!['\r'];
    let req = form_post(target, header, body);
    assert(req =~= a + seq!['\n'] + (b + seq!['\n'] + (c + seq!['\n'] + body)));
    // the four pieces between line feeds
    assert(!post.contains('\n') && !post.contains(' ')) by {
        assert(forall|i: int| 0 <= i < post.len() ==> post[i] != '\n' && post[i] != ' ');
    }
    assert(!version.contains('\n') && !version.contains(' ')) by {
        assert(forall|i: int| 0 <= i < version.len() ==> version[i] != '\n' && version[i] != ' ');
    }
    assert(!seq![' '].contains('\n')) by {
        assert(seq![' '][0] != '\n');
    }
    assert(!seq!['\r'].contains('\n')) by {
        assert(seq!['\r'][0] != '\n');
    }
    lemma_concat_lacks(post, seq![' '], '\n');
    lemma_concat_lacks(post + seq![' '], target, '\n');
    lemma_concat_lacks(post + seq![' '] + target, seq![' '], '\n');
    lemma_concat_lacks(post + seq![' '] + target + seq![' '], version, '\n');
    lemma_concat_lacks(rl, seq!['\r'], '\n');
    lemma_concat_lacks(header, seq!['\r'], '\n');
    lemma_split_concat(c, body, '\n');
    lemma_split_concat(b, c + seq!['\n'] + body, '\n');
    lemma_split_concat(a, b + seq!['\n'] + (c + seq!['\n'] + body), '\n');
    lemma_split_without_sep(a, '\n');
    lemma_split_without_sep(b, '\n');
    lemma_split_without_sep(c, '\n');
    lemma_split_without_sep(body, '\n');
    let pieces = split_spec(req, '\n');
    assert(pieces =~= seq![a, b, c, body]);
    assert(strip_cr(a) =~= rl);
    assert(strip_cr(b) =~= header);
    assert(strip_cr(c) =~= Seq::<char>::empty());
    let ls = lines_spec(req);
    assert(ls =~= seq![rl, header, Seq::<char>::empty(), body]);
    // the words of the request line
    lemma_split_without_sep(post, ' ');
    lemma_split_without_sep(target, ' ');
    lemma_split_without_sep(version, ' ');
    lemma_split_concat(target, version, ' ');
    lemma_split_concat(post, target + seq![' '] + version, ' ');
    assert(rl =~= post + seq![' '] + (target + seq![' '] + version));
    let words = split_spec(rl, ' ');
    assert(words =~= seq![post, target, version]);
    assert(post =~= "POST"@);
    assert(post != "GET"@) by {
        assert(post.len() != "GET"@.len());
    }
    assert(method_of(post) == Method::Post);
    // the body: the last line before a lone carriage return
    let rest = ls.subrange(1, ls.len() as int);
    assert(rest =~= seq![header, Seq::<char>::empty(), body]);
    assert(rest.subrange(1, 3) =~= seq![Seq::<char>::empty(), body]);
    assert(seq![Seq::<char>::empty(), body].subrange(1, 2) =~= seq![body]);
    assert(seq![body].subrange(1, 1) =~= Seq::<Seq<char>>::empty());
    assert(Seq::<char>::empty() != seq!['\r']) by {
        assert(Seq::<char>::empty().len() != seq!['\r'].len());
    }
    let e = Seq::<char>::empty();
    let two = seq![e, body];
    let one = seq![body];
    assert(body_from(one.subrange(1, 1), body) == body);
    assert(one[0] == body);
    assert(body_from(one, e) == body_from(one.subrange(1, 1), body));
    assert(two[0] == e);
    assert(body_from(two, header) == body_from(two.subrange(1, 2), e));
    assert(rest[0] == header);
    assert(body_from(rest, e) == body_from(rest.subrange(1, 3), header));
    assert(body_spec(ls) == body);
}

} // verus!
