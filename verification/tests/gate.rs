use cors_gate::matching::{CORS, Request};
use cors_gate::method::Method;
use cors_gate::response::Response;
use cors_gate::hooks::HandlerError;
use cors_gate::text::{split_path, decompose_pattern, eq_ignore_case};

fn seg(parts: &[&str]) -> Vec<String> {
    parts.iter().map(|p| p.to_string()).collect()
}

fn gate(rules: &[(&[Method], &str)]) -> CORS {
    CORS::new(
        rules
            .iter()
            .map(|(ms, p)| (ms.to_vec(), p.to_string()))
            .collect(),
    )
}

fn req(method: Method, parts: &[&str]) -> Request {
    Request { method, path: seg(parts) }
}

#[test]
fn wildcard_segment_matches_get() {
    let c = gate(&[(&[Method::Get], "/foo/:bar")]);
    assert!(c.is_allowed(&req(Method::Get, &["foo", "123"])));
}

#[test]
fn excluded_method_rejected_but_options_passes() {
    let c = gate(&[(&[Method::Get], "/foo/:bar")]);
    assert!(!c.is_allowed(&req(Method::Post, &["foo", "123"])));
    assert!(c.is_allowed(&req(Method::Options, &["foo", "123"])));
}

#[test]
fn segment_count_mismatch_rejected() {
    let c = gate(&[(&[Method::Get], "/foo/bar")]);
    assert!(!c.is_allowed(&req(Method::Get, &["foo", "bar", "baz"])));
    assert!(!c.is_allowed(&req(Method::Get, &["foo"])));
}

#[test]
fn literal_segment_must_equal_exactly() {
    let c = gate(&[(&[Method::Get], "/foo/bar")]);
    assert!(c.is_allowed(&req(Method::Get, &["foo", "bar"])));
    assert!(!c.is_allowed(&req(Method::Get, &["foo", "baz"])));
    // literal comparison is case-sensitive
    assert!(!c.is_allowed(&req(Method::Get, &["foo", "BAR"])));
}

#[test]
fn wildcard_accepts_any_value() {
    let c = gate(&[(&[Method::Get], "/x/:v")]);
    assert!(c.is_allowed(&req(Method::Get, &["x", "anything"])));
    assert!(c.is_allowed(&req(Method::Get, &["x", ":v"])));
    assert!(c.is_allowed(&req(Method::Get, &["x", ""])));
}

#[test]
fn empty_rule_list_never_matches() {
    let c = gate(&[]);
    assert!(!c.is_allowed(&req(Method::Get, &["foo"])));
    assert!(!c.is_allowed(&req(Method::Options, &[])));
}

#[test]
fn matching_is_deterministic() {
    let c = gate(&[(&[Method::Get], "/a/:b"), (&[Method::Put], "/c")]);
    let r = req(Method::Put, &["c"]);
    let first = c.is_allowed(&r);
    let second = c.is_allowed(&r);
    assert!(first);
    assert_eq!(first, second);
}

#[test]
fn later_rule_can_match() {
    let c = gate(&[(&[Method::Get], "/a"), (&[Method::Post], "/b")]);
    assert!(c.is_allowed(&req(Method::Post, &["b"])));
    assert!(!c.is_allowed(&req(Method::Post, &["a"])));
}

#[test]
fn trailing_slash_makes_empty_segment() {
    let c = gate(&[(&[Method::Get], "/foo/")]);
    assert!(c.is_allowed(&req(Method::Get, &["foo", ""])));
    assert!(!c.is_allowed(&req(Method::Get, &["foo"])));
}

#[test]
fn pattern_without_leading_slash() {
    let c = gate(&[(&[Method::Get], "foo/bar")]);
    assert!(c.is_allowed(&req(Method::Get, &["foo", "bar"])));
}

#[test]
fn empty_path_never_matches() {
    let c = gate(&[(&[Method::Get], "/"), (&[Method::Get], "")]);
    assert!(!c.is_allowed(&req(Method::Get, &[])));
    // both "/" and "" decompose to the single empty segment
    assert!(c.is_allowed(&req(Method::Get, &[""])));
}

#[test]
fn split_path_exact_values() {
    assert_eq!(split_path("a/b"), seg(&["a", "b"]));
    assert_eq!(split_path(""), seg(&[""]));
    assert_eq!(split_path("/x"), seg(&["", "x"]));
    assert_eq!(split_path("a//b"), seg(&["a", "", "b"]));
    assert_eq!(split_path("a/"), seg(&["a", ""]));
}

#[test]
fn decompose_pattern_strips_one_leading_slash() {
    assert_eq!(decompose_pattern("/foo/:bar"), seg(&["foo", ":bar"]));
    assert_eq!(decompose_pattern("foo"), seg(&["foo"]));
    assert_eq!(decompose_pattern("/"), seg(&[""]));
    assert_eq!(decompose_pattern("//x"), seg(&["", "x"]));
}

#[test]
fn case_insensitive_equality() {
    assert!(eq_ignore_case("Content-Type", "content-type"));
    assert!(eq_ignore_case("ACCEPT", "accept"));
    assert!(eq_ignore_case("", ""));
    assert!(!eq_ignore_case("a", "b"));
    assert!(!eq_ignore_case("a", "ab"));
    // only letters fold: '[' and '{' differ by 0x20 but stay distinct
    assert!(!eq_ignore_case("[", "{"));
}

#[test]
fn add_headers_sets_the_three_cors_headers() {
    let mut res = Response::new(204);
    CORS::add_headers(&mut res);
    assert_eq!(res.status, 204);
    assert_eq!(
        res.get_header("Access-Control-Allow-Origin"),
        Some(&seg(&["*"]))
    );
    assert_eq!(
        res.get_header("access-control-allow-headers"),
        Some(&seg(&["accept", "authorization", "content-type"]))
    );
    assert_eq!(
        res.get_header("ACCESS-CONTROL-ALLOW-METHODS"),
        Some(&seg(&["GET", "POST", "PUT", "DELETE"]))
    );
    // the allowed request headers form a case-insensitive set
    let allowed = res.get_header("access-control-allow-headers").unwrap();
    for want in ["Accept", "AUTHORIZATION", "Content-Type"] {
        assert!(allowed.iter().any(|v| eq_ignore_case(v, want)));
    }
    assert!(!allowed.iter().any(|v| eq_ignore_case(v, "Cookie")));
}

#[test]
fn add_headers_overwrites_and_preserves() {
    let mut res = Response::new(200);
    res.set_header("X-Thing".to_string(), seg(&["one"]));
    res.set_header("Access-Control-Allow-Origin".to_string(), seg(&["https://old.example"]));
    CORS::add_headers(&mut res);
    assert_eq!(res.get_header("access-control-allow-origin"), Some(&seg(&["*"])));
    assert_eq!(res.get_header("x-thing"), Some(&seg(&["one"])));
}

#[test]
fn set_header_overwrites_case_insensitively() {
    let mut res = Response::new(200);
    res.set_header("X-Mode".to_string(), seg(&["a"]));
    res.set_header("x-MODE".to_string(), seg(&["b"]));
    assert_eq!(res.get_header("X-Mode"), Some(&seg(&["b"])));
    assert_eq!(res.get_header("x-mode"), Some(&seg(&["b"])));
    assert_eq!(res.get_header("x-other"), None);
}

#[test]
fn after_preflight_replaces_response() {
    let c = gate(&[(&[Method::Get], "/foo/:bar")]);
    let mut downstream = Response::new(500);
    downstream.body = "handler failed".to_string();
    downstream.set_header("X-Trace".to_string(), seg(&["t1"]));
    let out = c.after(&req(Method::Options, &["foo", "9"]), downstream);
    assert_eq!(out.status, 200);
    assert_eq!(out.body, "");
    // the downstream response was discarded before annotation
    assert_eq!(out.get_header("X-Trace"), None);
    assert_eq!(out.get_header("access-control-allow-origin"), Some(&seg(&["*"])));
}

#[test]
fn after_matching_request_annotates_in_place() {
    let c = gate(&[(&[Method::Get], "/foo/:bar")]);
    let mut downstream = Response::new(201);
    downstream.set_header("X-Trace".to_string(), seg(&["t1"]));
    let out = c.after(&req(Method::Get, &["foo", "9"]), downstream);
    assert_eq!(out.status, 201);
    assert_eq!(out.get_header("x-trace"), Some(&seg(&["t1"])));
    assert_eq!(out.get_header("access-control-allow-origin"), Some(&seg(&["*"])));
}

#[test]
fn after_non_matching_request_is_untouched() {
    let c = gate(&[(&[Method::Get], "/foo")]);
    let out = c.after(&req(Method::Get, &["bar"]), Response::new(200));
    assert_eq!(out.status, 200);
    assert_eq!(out.get_header("access-control-allow-origin"), None);
}

#[test]
fn catch_annotates_error_response_and_propagates() {
    let c = gate(&[(&[Method::Get], "/foo")]);
    let mut inner = Response::new(403);
    inner.body = "denied".to_string();
    let out = c.catch(&req(Method::Get, &["foo"]), HandlerError { response: inner });
    // the failure payload is intact, with CORS headers added
    assert_eq!(out.response.status, 403);
    assert_eq!(out.response.body, "denied");
    assert_eq!(
        out.response.get_header("access-control-allow-origin"),
        Some(&seg(&["*"]))
    );
}

#[test]
fn catch_without_match_leaves_error_alone() {
    let c = gate(&[(&[Method::Get], "/foo")]);
    let inner = Response::new(500);
    let out = c.catch(&req(Method::Post, &["other"]), HandlerError { response: inner });
    assert_eq!(out.response.status, 500);
    assert_eq!(out.response.get_header("access-control-allow-origin"), None);
}
