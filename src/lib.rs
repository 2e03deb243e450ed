//! A small HTTP/1.1 toolkit: request parsing, a dispatch table with one route
//! per method, `{{ key }}` templating and a middleware hook, all verified.
//! Sockets and files are handled by the caller.
pub mod text;
pub mod template;
pub mod request;
pub mod json;
pub mod router;
pub mod headers;
pub mod middleware;
pub mod server;

pub use headers::get_cookie;
pub use json::{generate_json_response, parse_json, remove_json_member};
pub use middleware::{AuthMiddleware, LoggingMiddleware, Middleware};
pub use router::{
    BodyTransform, ContentType, DeleteRoute, Files, GetRoute, Handler, Method, PostRoute,
    PutRoute, SubstituteBody,
};
pub use server::{request_complete, respond, respond_with_middleware, serve_static, static_path};
