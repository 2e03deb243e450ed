//! Hooks run around dispatch: `before` may answer in the table's stead,
//! `after` may replace the table's response.
use vstd::prelude::*;
use crate::text::{views, replace_spec, replace, str_eq};
use crate::request::{lines_spec, lines};
use crate::headers::{first_with_prefix, find_line};
use crate::router::opt_view;

verus! {

/// Pre- and post-request hooks.
pub trait Middleware {
    /// What `before` returns, over views.
    spec fn before_spec(&self, request: Seq<char>) -> Option<Seq<char>>;

    /// What `after` returns, over views.
    spec fn after_spec(&self, response: Seq<char>) -> Option<Seq<char>>;

    /// A response that answers `request` without dispatch, or `None` to go on.
    fn before(&self, request: &str) -> (r: Option<String>)
        ensures
            opt_view(r) == self.before_spec(request@),
    ;

    /// A replacement for `response`, or `None` to keep it.
    fn after(&self, response: &str) -> (r: Option<String>)
        ensures
            opt_view(r) == self.after_spec(response@),
    ;
}

/// Passes every request and response through unchanged.
pub struct LoggingMiddleware;

impl Middleware for LoggingMiddleware {
    open spec fn before_spec(&self, request: Seq<char>) -> Option<Seq<char>> {
        None
    }

    open spec fn after_spec(&self, response: Seq<char>) -> Option<Seq<char>> {
        None
    }

    fn before(&self, request: &str) -> (r: Option<String>) {
        None
    }

    fn after(&self, response: &str) -> (r: Option<String>) {
        None
    }
}

/// Bearer-token authentication: requests without an accepted token are
/// answered with 401.
pub struct AuthMiddleware {
    valid_tokens: Vec<String>,
}

pub open spec fn bearer_prefix() -> Seq<char> {
    "Authorization: Bearer "@
}

pub open spec fn unauthorized() -> Seq<char> {
    "HTTP/1.1 401 Unauthorized\r\n\r\n"@
}

/// The token of the first `Authorization: Bearer ` line of `request`: the
/// line with every copy of that prefix removed.
pub open spec fn bearer_token(request: Seq<char>) -> Option<Seq<char>> {
    match first_with_prefix(lines_spec(request), bearer_prefix()) {
        Some(l) => Some(replace_spec(l, bearer_prefix(), Seq::empty())),
        None => None,
    }
}

impl AuthMiddleware {
    /// The accepted tokens.
    pub closed spec fn tokens(&self) -> Seq<Seq<char>> {
        views(self.valid_tokens@)
    }

    /// A middleware that accepts exactly the tokens of `valid_tokens`.
    pub fn new(valid_tokens: Vec<String>) -> (r: AuthMiddleware)
        ensures
            r.tokens() == views(valid_tokens@),
    {
        AuthMiddleware { valid_tokens }
    }

    /// Whether `t` is an accepted token.
    pub fn accepts(&self, t: &str) -> (r: bool)
        ensures
            r == self.tokens().contains(t@),
    {
        let mut i: usize = 0;
        while i < self.valid_tokens.len()
            invariant
                i <= self.valid_tokens@.len(),
                forall|j: int| 0 <= j < i ==> self.tokens()[j] != t@,
            decreases self.valid_tokens@.len() - i,
        {
            if str_eq(self.valid_tokens[i].as_str(), t) {
                assert(self.tokens()[i as int] == t@);
                return true;
            }
            i = i + 1;
        }
        false
    }
}

impl Middleware for AuthMiddleware {
    open spec fn before_spec(&self, request: Seq<char>) -> Option<Seq<char>> {
        match bearer_token(request) {
            Some(t) => if self.tokens().contains(t) {
                None
            } else {
                Some(unauthorized())
            },
            None => Some(unauthorized()),
        }
    }

    open spec fn after_spec(&self, response: Seq<char>) -> Option<Seq<char>> {
        None
    }

    fn before(&self, request: &str) -> (r: Option<String>) {
        let ls = lines(request);
        let denied = String::from_str("HTTP/1.1 401 Unauthorized\r\n\r\n");
        proof {
            reveal_strlit("Authorization: Bearer ");
            reveal_strlit("");
            assert(""@ =~= Seq::<char>::empty());
        }
        match find_line(&ls, "Authorization: Bearer ") {
            Some(line) => {
                let token = replace(line.as_str(), "Authorization: Bearer ", "");
                if self.accepts(token.as_str()) {
                    None
                } else {
                    Some(denied)
                }
            },
            None => Some(denied),
        }
    }

    fn after(&self, response: &str) -> (r: Option<String>) {
        None
    }
}

} // verus!
