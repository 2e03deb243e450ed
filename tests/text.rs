use minihttp::request::{body_of, lines, split_target};
use minihttp::template::{apply_params, parse_params};
use minihttp::text::{replace, split};
use minihttp::{generate_json_response, get_cookie, parse_json, remove_json_member, request_complete, serve_static, Files};

#[test]
fn plain_content_is_unchanged() {
    let c = "no placeholders { here } at all".to_string();
    assert_eq!(apply_params(c.clone(), "a=1&b=2"), c);
}

#[test]
fn every_occurrence_is_replaced() {
    let r = apply_params("{{ k1 }}/{{ k2 }}/{{ k1 }}".to_string(), "k1=v1&k2=v2");
    assert_eq!(r, "v1/v2/v1");
}

#[test]
fn malformed_pairs_are_ignored() {
    let r = apply_params("{{ k }} {{ a }}".to_string(), "k&a=1=2&=&");
    assert_eq!(r, "{{ k }} {{ a }}");
    assert_eq!(
        apply_params("{{ a }}{{ b }}".to_string(), "k&x=1=2&a=1&&b=2&y"),
        apply_params("{{ a }}{{ b }}".to_string(), "a=1&b=2")
    );
    let pairs = parse_params("k&a=1&b=2=3&=x");
    assert_eq!(pairs, vec![("a".to_string(), "1".to_string()), ("".to_string(), "x".to_string())]);
}

#[test]
fn placeholder_needs_single_spaces() {
    assert_eq!(apply_params("{{k}} {{  k  }} {{ k }}".to_string(), "k=v"), "{{k}} {{  k  }} v");
}

#[test]
fn split_keeps_empty_pieces() {
    assert_eq!(split("a&&b&", '&'), vec!["a", "", "b", ""]);
    assert_eq!(split("", '&'), vec![""]);
}

#[test]
fn replace_is_leftmost_without_overlap() {
    assert_eq!(replace("aaaa", "aa", "b"), "bb");
    assert_eq!(replace("xaaay", "aa", "-"), "x-ay");
}

#[test]
fn lines_match_str_lines() {
    for s in ["a\r\nb\r\n\r\nc", "a\n", "", "\r", "x\r\r\n", "a\n\nb"] {
        let expected: Vec<String> = s.lines().map(|l| l.to_string()).collect();
        assert_eq!(lines(s), expected);
    }
}

#[test]
fn target_splits_at_first_question_mark() {
    assert_eq!(split_target("/p?a=1?b"), ("/p".to_string(), Some("a=1?b".to_string())));
    assert_eq!(split_target("/p"), ("/p".to_string(), None));
}

#[test]
fn body_is_last_line_before_lone_cr() {
    let ls = lines("POST / HTTP/1.1\r\nHost: h\r\n\r\nfirst\nsecond");
    assert_eq!(body_of(&ls), "second");
    let ls = vec!["POST / HTTP/1.1".to_string(), "a".to_string(), "\r".to_string(), "b".to_string()];
    assert_eq!(body_of(&ls), "a");
}

#[test]
fn cookie_lookup() {
    let req = "GET / HTTP/1.1\r\nCookie: session=abc; theme = dark ; lang=en\r\n\r\n";
    assert_eq!(get_cookie(req, "session"), Some("abc".to_string()));
    assert_eq!(get_cookie(req, "lang"), Some("en".to_string()));
    assert_eq!(get_cookie(req, "theme"), None);
    assert_eq!(get_cookie(req, "missing"), None);
    assert_eq!(get_cookie("GET / HTTP/1.1\r\n\r\n", "session"), None);
}

#[test]
fn request_completion() {
    assert!(!request_complete("GET / HTTP/1.1\r\nHost: x\r\n"));
    assert!(request_complete("GET / HTTP/1.1\r\nHost: x\r\n\r\n"));
    assert!(!request_complete(""));
}

#[test]
fn static_files() {
    let mut files = Files::new();
    assert_eq!(serve_static("a.html", &files), Some("HTTP/1.1 404 NOT FOUND\r\n\r\n".to_string()));
    files.insert("static/a.html".to_string(), "<b>hi</b>".to_string());
    assert_eq!(
        serve_static("a.html", &files),
        Some("HTTP/1.1 200 OK\r\nContent-Type: text/html\r\n\r\n<b>hi</b>".to_string())
    );
}

#[test]
fn later_file_entry_wins() {
    let mut files = Files::new();
    files.insert("f".to_string(), "old".to_string());
    files.insert("f".to_string(), "new".to_string());
    assert_eq!(files.read("f"), Some("new".to_string()));
    assert_eq!(files.read("g"), None);
}

#[test]
fn json_round_trip() {
    assert!(parse_json("not json").is_none());
    assert_eq!(parse_json(" 7 "), Some(serde_json::Value::from(7)));
    let v = parse_json("{\"x\": [1, 2]}").unwrap();
    assert_eq!(generate_json_response(v), "{\"x\":[1,2]}");
}

#[test]
fn json_member_removal() {
    assert_eq!(remove_json_member("{\"a\": 1, \"b\": {\"c\": 2}}", "a"), Some("{\"b\":{\"c\":2}}".to_string()));
    assert_eq!(remove_json_member("{\"a\": 1}", "z"), Some("{\"a\":1}".to_string()));
    assert_eq!(remove_json_member("[1]", "a"), None);
    assert_eq!(remove_json_member("{", "a"), None);
}
