use minihttp::router::{DeleteRoute, GetRoute, PostRoute, PutRoute};
use minihttp::server::pending_write_with_middleware;
use minihttp::{
    respond, respond_with_middleware, AuthMiddleware, ContentType, Files, Handler,
    LoggingMiddleware, Middleware, SubstituteBody,
};

fn empty_table<'a>() -> Handler<'a, SubstituteBody> {
    Handler { get_handler: None, post_handler: None, put_handler: None, delete_handler: None }
}

fn hello_table<'a>() -> Handler<'a, SubstituteBody> {
    Handler {
        get_handler: Some(GetRoute {
            prefix: "/",
            content: ContentType::String("Hello, {{ name }}"),
            headers: "HTTP/1.1 200 OK\r\n\r\n",
        }),
        post_handler: None,
        put_handler: None,
        delete_handler: None,
    }
}

#[test]
fn get_string_route_substitutes_query() {
    let h = hello_table();
    let r = h.handle_request("GET /?name=World HTTP/1.1\r\nHost: x\r\n\r\n", &Files::new());
    assert_eq!(r, Some("HTTP/1.1 200 OK\r\n\r\nHello, World".to_string()));
}

#[test]
fn get_without_query_keeps_placeholder() {
    let h = hello_table();
    let r = h.handle_request("GET /home HTTP/1.1\r\n\r\n", &Files::new());
    assert_eq!(r, Some("HTTP/1.1 200 OK\r\n\r\nHello, {{ name }}".to_string()));
}

#[test]
fn get_prefix_mismatch_declines() {
    let h = Handler::<SubstituteBody> {
        get_handler: Some(GetRoute {
            prefix: "/foo",
            content: ContentType::String("x"),
            headers: "H\r\n\r\n",
        }),
        post_handler: None,
        put_handler: None,
        delete_handler: None,
    };
    assert_eq!(h.handle_request("GET /bar HTTP/1.1\r\n\r\n", &Files::new()), None);
    assert_eq!(
        h.handle_request("GET /foobar HTTP/1.1\r\n\r\n", &Files::new()),
        Some("H\r\n\r\nx".to_string())
    );
    assert_eq!(respond(&h, "GET /bar HTTP/1.1\r\n\r\n", &Files::new()), "HTTP/1.1 404 NOT FOUND\r\n\r\n");
}

#[test]
fn get_file_route_reads_files() {
    let h = Handler::<SubstituteBody> {
        get_handler: Some(GetRoute {
            prefix: "/",
            content: ContentType::File("index.html"),
            headers: "HTTP/1.1 200 OK\r\nContent-Type: text/html\r\n\r\n",
        }),
        post_handler: None,
        put_handler: None,
        delete_handler: None,
    };
    let mut files = Files::new();
    assert_eq!(h.handle_request("GET / HTTP/1.1\r\n\r\n", &files), None);
    files.insert("index.html".to_string(), "<p>{{ a }} {{ b }} {{ a }}</p>".to_string());
    assert_eq!(
        h.handle_request("GET /?a=1&b=2&bad&c=3=4 HTTP/1.1\r\n\r\n", &files),
        Some("HTTP/1.1 200 OK\r\nContent-Type: text/html\r\n\r\n<p>1 2 1</p>".to_string())
    );
}

#[test]
fn post_substitutes_body() {
    let h = Handler::<SubstituteBody> {
        get_handler: None,
        post_handler: Some(PostRoute {
            prefix: "/submit",
            filename: "result.html",
            content_type: "application/json",
        }),
        put_handler: None,
        delete_handler: None,
    };
    let mut files = Files::new();
    files.insert("result.html".to_string(), "{\"value\": {{ data }}}".to_string());
    let r = h.handle_request(
        "POST /submit HTTP/1.1\r\nContent-Type: application/x-www-form-urlencoded\r\n\r\ndata=42",
        &files,
    );
    assert_eq!(
        r,
        Some("HTTP/1.1 200 OK\r\nContent-Type: application/json\r\n\r\n{\"value\": 42}".to_string())
    );
}

#[test]
fn post_fills_data_placeholder() {
    let h = Handler::<SubstituteBody> {
        get_handler: None,
        post_handler: Some(PostRoute { prefix: "/submit", filename: "data.txt", content_type: "application/json" }),
        put_handler: None,
        delete_handler: None,
    };
    let mut files = Files::new();
    files.insert("data.txt".to_string(), "{{ data }}".to_string());
    assert_eq!(
        h.handle_request("POST /submit HTTP/1.1\r\n\r\ndata=42", &files),
        Some("HTTP/1.1 200 OK\r\nContent-Type: application/json\r\n\r\n42".to_string())
    );
}

#[test]
fn post_fills_each_key_once_with_body_value() {
    let h = Handler::<SubstituteBody> {
        get_handler: None,
        post_handler: Some(PostRoute { prefix: "/", filename: "f", content_type: "text/plain" }),
        put_handler: None,
        delete_handler: None,
    };
    let mut files = Files::new();
    files.insert("f".to_string(), "{{ {{ a }} }}".to_string());
    let r = h.handle_request("POST /?a=q HTTP/1.1\r\n\r\na=a", &files);
    assert_eq!(r, Some("HTTP/1.1 200 OK\r\nContent-Type: text/plain\r\n\r\n{{ a }}".to_string()));
    files.insert("f".to_string(), "{{ k }} {{ only }}".to_string());
    let r = h.handle_request("POST /?k=q&only=o HTTP/1.1\r\n\r\nk=b", &files);
    assert_eq!(r, Some("HTTP/1.1 200 OK\r\nContent-Type: text/plain\r\n\r\nb o".to_string()));
}

#[test]
fn post_body_overrides_query() {
    let h = Handler::<SubstituteBody> {
        get_handler: None,
        post_handler: Some(PostRoute { prefix: "/", filename: "f", content_type: "text/plain" }),
        put_handler: None,
        delete_handler: None,
    };
    let mut files = Files::new();
    files.insert("f".to_string(), "{{ x }}-{{ y }}".to_string());
    let r = h.handle_request("POST /?x=q HTTP/1.1\r\n\r\ny=b&x=body", &files);
    assert_eq!(r, Some("HTTP/1.1 200 OK\r\nContent-Type: text/plain\r\n\r\nbody-b".to_string()));
    assert_eq!(h.handle_request("POST / HTTP/1.1\r\n\r\n", &Files::new()), None);
}

#[test]
fn put_hands_body_to_transform() {
    let h = Handler {
        get_handler: None,
        post_handler: None,
        put_handler: Some(PutRoute {
            prefix: "/update",
            filename: "update.html",
            transform: SubstituteBody,
            content_type: "text/html",
        }),
        delete_handler: None,
    };
    let mut files = Files::new();
    files.insert("update.html".to_string(), "now {{ data }}".to_string());
    let r = h.handle_request("PUT /update HTTP/1.1\r\nHost: h\r\n\r\ndata=7", &files);
    assert_eq!(r, Some("HTTP/1.1 200 OK\r\nContent-Type: text/html\r\n\r\nnow 7".to_string()));
}

#[test]
fn missing_get_handler_is_not_found() {
    let h = empty_table();
    assert_eq!(
        h.handle_request("GET /missing HTTP/1.1\r\n\r\n", &Files::new()),
        Some("HTTP/1.1 404 NOT FOUND\r\n\r\n".to_string())
    );
}

#[test]
fn empty_slots_are_not_found_for_every_method() {
    let h = empty_table();
    for m in ["GET", "POST", "PUT", "DELETE"] {
        let req = format!("{} /any/path?x=1 HTTP/1.1\r\n\r\n", m);
        assert_eq!(h.handle_request(&req, &Files::new()), Some("HTTP/1.1 404 NOT FOUND\r\n\r\n".to_string()));
    }
}

#[test]
fn unknown_method_not_allowed() {
    let h = hello_table();
    let expected = Some("HTTP/1.1 405 METHOD NOT ALLOWED\r\n\r\n".to_string());
    assert_eq!(h.handle_request("TRACE / HTTP/1.1", &Files::new()), expected);
    assert_eq!(h.handle_request("get / HTTP/1.1\r\n\r\n", &Files::new()), expected);
}

#[test]
fn request_line_without_target_is_bad_request() {
    let h = hello_table();
    assert_eq!(
        h.handle_request("GET\r\n\r\n", &Files::new()),
        Some("HTTP/1.1 400 BAD REQUEST\r\n\r\n".to_string())
    );
    assert_eq!(
        h.handle_request("", &Files::new()),
        Some("HTTP/1.1 400 BAD REQUEST\r\n\r\n".to_string())
    );
    assert_eq!(respond(&h, "", &Files::new()), "HTTP/1.1 400 BAD REQUEST\r\n\r\n");
}

#[test]
fn delete_removes_json_member() {
    let h = Handler::<SubstituteBody> {
        get_handler: None,
        post_handler: None,
        put_handler: None,
        delete_handler: Some(DeleteRoute { prefix: "/items", content: ContentType::File("data.json"), default_key: "a" }),
    };
    let mut files = Files::new();
    files.insert("data.json".to_string(), "{\"a\":1,\"b\":2}".to_string());
    let route = h.delete_handler.as_ref().unwrap();
    assert_eq!(
        h.handle_request("DELETE /items?key=b HTTP/1.1\r\n\r\n", &files),
        Some("HTTP/1.1 200 OK\r\nContent-Type: text/plain\r\n\r\nElement 'b' removed successfully.".to_string())
    );
    let (name, text) = route.rewritten("/items", Some("key=b"), &files).unwrap();
    assert_eq!(name, "data.json");
    assert_eq!(text, "{\"a\":1}");
    let (_, text) = route.rewritten("/items", None, &files).unwrap();
    assert_eq!(text, "{\"b\":2}");
    assert_eq!(route.rewritten("/other", None, &files), None);
    assert_eq!(
        h.pending_write("DELETE /items?key=a HTTP/1.1\r\n\r\n", &files),
        Some(("data.json".to_string(), "{\"b\":2}".to_string()))
    );
    assert_eq!(h.pending_write("GET /items?key=a HTTP/1.1\r\n\r\n", &files), None);
    let deny = AuthMiddleware::new(vec![]);
    assert_eq!(pending_write_with_middleware(&h, &deny, "DELETE /items HTTP/1.1\r\n\r\n", &files), None);
    let allow = AuthMiddleware::new(vec!["t".to_string()]);
    assert_eq!(
        pending_write_with_middleware(&h, &allow, "DELETE /items HTTP/1.1\r\nAuthorization: Bearer t\r\n\r\n", &files),
        Some(("data.json".to_string(), "{\"b\":2}".to_string()))
    );
}

#[test]
fn delete_outside_json_objects_is_not_implemented() {
    let route = DeleteRoute { prefix: "/", content: ContentType::File("list.txt"), default_key: "k" };
    let mut files = Files::new();
    assert_eq!(
        route.respond("/", None, &files),
        Some("HTTP/1.1 404 NOT FOUND\r\nContent-Type: text/plain\r\n\r\nFile not found.".to_string())
    );
    files.insert("list.txt".to_string(), "[1, 2]".to_string());
    assert_eq!(
        route.respond("/", None, &files),
        Some("HTTP/1.1 501 NOT IMPLEMENTED\r\nContent-Type: text/plain\r\n\r\nDeletion from non-JSON content not implemented.".to_string())
    );
    assert_eq!(route.rewritten("/", None, &files), None);
    let mem = DeleteRoute { prefix: "/", content: ContentType::String("{}"), default_key: "k" };
    assert_eq!(
        mem.respond("/", None, &files),
        Some("HTTP/1.1 501 NOT IMPLEMENTED\r\nContent-Type: text/plain\r\n\r\nDeletion from in-memory content not implemented.".to_string())
    );
}

#[test]
fn before_short_circuits_dispatch() {
    let h = hello_table();
    let m = AuthMiddleware::new(vec!["t".to_string()]);
    let req = "GET /?name=x HTTP/1.1\r\n\r\n";
    assert_eq!(h.handle_request(req, &Files::new()), Some("HTTP/1.1 200 OK\r\n\r\nHello, x".to_string()));
    assert_eq!(respond_with_middleware(&h, &m, req, &Files::new()), "HTTP/1.1 401 Unauthorized\r\n\r\n");
}

#[test]
fn auth_middleware_checks_bearer_token() {
    let h = hello_table();
    let m = AuthMiddleware::new(vec!["secret".to_string()]);
    let ok = "GET /?name=Ann HTTP/1.1\r\nAuthorization: Bearer secret\r\n\r\n";
    assert_eq!(m.before(ok), None);
    assert_eq!(respond_with_middleware(&h, &m, ok, &Files::new()), "HTTP/1.1 200 OK\r\n\r\nHello, Ann");
    let bad = "GET / HTTP/1.1\r\nAuthorization: Bearer wrong\r\n\r\n";
    assert_eq!(respond_with_middleware(&h, &m, bad, &Files::new()), "HTTP/1.1 401 Unauthorized\r\n\r\n");
    let none = "GET / HTTP/1.1\r\n\r\n";
    assert_eq!(m.before(none), Some("HTTP/1.1 401 Unauthorized\r\n\r\n".to_string()));
    assert_eq!(m.after("x"), None);
}

#[test]
fn logging_middleware_passes_through() {
    let h = empty_table();
    let m = LoggingMiddleware;
    assert_eq!(m.before("x"), None);
    assert_eq!(
        respond_with_middleware(&h, &m, "GET / HTTP/1.1\r\n\r\n", &Files::new()),
        "HTTP/1.1 404 NOT FOUND\r\n\r\n"
    );
    assert_eq!(
        respond_with_middleware(&h, &m, "", &Files::new()),
        "HTTP/1.1 400 BAD REQUEST\r\n\r\n"
    );
    let g = hello_table();
    let declined = Handler::<SubstituteBody> {
        get_handler: Some(GetRoute { prefix: "/only", content: ContentType::File("gone.html"), headers: "H" }),
        post_handler: None,
        put_handler: None,
        delete_handler: None,
    };
    assert_eq!(
        respond_with_middleware(&declined, &m, "GET /other HTTP/1.1\r\n\r\n", &Files::new()),
        "HTTP/1.1 404 NOT FOUND\r\n\r\n"
    );
    assert_eq!(
        respond_with_middleware(&declined, &m, "GET /only HTTP/1.1\r\n\r\n", &Files::new()),
        "HTTP/1.1 404 NOT FOUND\r\n\r\n"
    );
    assert_eq!(
        respond_with_middleware(&g, &m, "GET /?name=Bo HTTP/1.1\r\n\r\n", &Files::new()),
        "HTTP/1.1 200 OK\r\n\r\nHello, Bo"
    );
}
