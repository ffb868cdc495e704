use chill::transport::{make_url_path, parse_server_url, RevisionQueryKey};
use chill::Error;
use chill::{JsonValue, Method, Request, Revision};

fn strings(v: Vec<&str>) -> Vec<String> {
    v.into_iter().map(|s| s.to_string()).collect()
}

/// The URL of a request under a server's base URL.
fn request_url(base: &str, request: &Request) -> url::Url {
    parse_server_url(base).unwrap().request_url(request).unwrap().parse().unwrap()
}

#[test]
fn base_is_root() {
    assert_eq!("/foo/bar", make_url_path("/", &strings(vec!["foo", "bar"])));
}

#[test]
fn base_in_nonroot_without_trailing_slash() {
    assert_eq!("/foo/bar/qux", make_url_path("/foo", &strings(vec!["bar", "qux"])));
}

#[test]
fn base_in_nonroot_with_trailing_slash() {
    assert_eq!("/foo/bar/qux", make_url_path("/foo/", &strings(vec!["bar", "qux"])));
}

#[test]
fn extra_contains_percent_char() {
    assert_eq!("/foo%25bar", make_url_path("/", &strings(vec!["foo%bar"])));
}

#[test]
fn extra_contains_slash_char() {
    assert_eq!("/foo%2Fbar", make_url_path("/", &strings(vec!["foo/bar"])));
}

#[test]
fn make_request_url_empty() {
    let expected: url::Url = "http://example.com:5984/".parse().unwrap();
    let r = Request::new(Method::Get, vec![]);
    assert_eq!(expected, request_url("http://example.com:5984/", &r));
}

#[test]
fn make_request_url_normal_path() {
    let expected: url::Url = "http://example.com:5984/db/docid".parse().unwrap();
    let r = Request::new(Method::Get, vec!["db", "docid"]);
    assert_eq!(expected, request_url("http://example.com:5984/", &r));
}

#[test]
fn make_request_url_base_url_has_nonempty_path() {
    let expected: url::Url = "http://example.com:5984/foo/db/docid".parse().unwrap();
    let r = Request::new(Method::Get, vec!["db", "docid"]);
    assert_eq!(expected, request_url("http://example.com:5984/foo", &r));
}

#[test]
fn make_request_url_base_url_has_nonempty_path_with_trailing_slash() {
    let expected: url::Url = "http://example.com:5984/foo/db/docid".parse().unwrap();
    let r = Request::new(Method::Get, vec!["db", "docid"]);
    assert_eq!(expected, request_url("http://example.com:5984/foo/", &r));
}

#[test]
fn make_request_url_path_is_percent_encoded() {
    let expected: url::Url = "http://example.com:5984/foo%2F%3F%23%20%25bar".parse().unwrap();
    let r = Request::new(Method::Get, vec!["foo/?# %bar"]);
    assert_eq!(expected, request_url("http://example.com:5984/", &r));
}

#[test]
fn make_request_url_with_revision_query() {
    let expected: url::Url = "http://example.com:5984/db/doc?rev=42-1234567890abcdef1234567890abcdef".parse().unwrap();
    let rev = Revision::parse("42-1234567890abcdef1234567890abcdef").unwrap();
    let r = Request::new(Method::Get, vec!["db", "doc"]).with_query(RevisionQueryKey, &rev);
    assert_eq!(expected, request_url("http://example.com:5984/", &r));
}

#[test]
fn make_headers_default() {
    let r = Request::new(Method::Get, vec![]);
    assert!(!r.accepts_json());
    assert!(r.body().is_none());
}

#[test]
fn make_headers_with_accept_json() {
    let r = Request::new(Method::Get, vec![]).with_accept_json();
    assert!(r.accepts_json());
    assert!(r.body().is_none());
}

#[test]
fn make_headers_with_json_body() {
    let r = Request::new(Method::Get, vec![]).with_json_content(JsonValue::Object(vec![]));
    assert!(!r.accepts_json());
    assert_eq!(Some(&JsonValue::Object(vec![])), r.body());
}

#[test]
fn url_query_is_form_encoded() {
    assert_eq!(None, Request::new(Method::Get, vec!["db"]).url_query());
    let r = Request::new(Method::Get, vec!["db"])
        .with_query_literal("rev", "1-a b")
        .with_query_literal("k", "\u{e9}*&=");
    assert_eq!(Some("rev=1-a+b&k=%C3%A9*%26%3D".to_string()), r.url_query());
}

#[test]
fn server_url_parse() {
    let u = parse_server_url("http://example.com:5984/foo").unwrap();
    assert_eq!("http://example.com:5984/foo", u.as_str());
    assert_eq!("/foo", u.path());
    match parse_server_url("not a url") {
        Err(Error::Unspecified { reason }) => assert_eq!("The URL is badly formed (URL: \"not a url\")", reason),
        x => panic!("Got unexpected result {:?}", x),
    }
}

#[test]
fn request_url_appends_to_server_query() {
    let r = Request::new(Method::Get, vec!["db"]).with_query_literal("limit", "1");
    let u = parse_server_url("http://example.com:5984/?a=b").unwrap();
    assert_eq!(Some("http://example.com:5984/db?a=b&limit=1".to_string()), u.request_url(&r));
    let r = Request::new(Method::Get, vec!["db"]);
    assert_eq!(Some("http://example.com:5984/db?a=b".to_string()), u.request_url(&r));
    let u = parse_server_url("http://example.com:5984/?").unwrap();
    assert_eq!(Some("http://example.com:5984/db".to_string()), u.request_url(&r));
}
