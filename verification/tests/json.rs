use chill::transport::{check_json_content_type, make_url_path};
use chill::{Error, ErrorResponse, JsonValue, Method, Request};

fn text(s: &str) -> JsonValue {
    JsonValue::String(s.to_string())
}

fn obj(entries: Vec<(&str, JsonValue)>) -> JsonValue {
    JsonValue::Object(entries.into_iter().map(|(k, v)| (k.to_string(), v)).collect())
}

#[test]
fn json_duplicate_is_equal() {
    let v = obj(vec![
        ("a", JsonValue::Array(vec![JsonValue::Null, JsonValue::Bool(true), JsonValue::Number("1.5".to_string())])),
        ("b", obj(vec![("c", text("d"))])),
    ]);
    assert_eq!(v, v.duplicate());
    assert_eq!(v, v.clone());
}

#[test]
fn json_numbers() {
    assert_eq!(JsonValue::Number("18446744073709551615".to_string()), JsonValue::from_u64(u64::MAX));
    assert_eq!(Some(42), JsonValue::Number("42".to_string()).as_u64());
    assert_eq!(None, JsonValue::Number("4.2".to_string()).as_u64());
    assert_eq!(None, text("42").as_u64());
    assert_eq!(Some(true), JsonValue::Bool(true).as_bool());
    assert_eq!(None, JsonValue::Null.as_bool());
}

#[test]
fn error_response_deserialize_ok() {
    let got = ErrorResponse::from_json(obj(vec![("error", text("foo")), ("reason", text("bar"))])).unwrap();
    assert_eq!(ErrorResponse::new("foo", "bar"), got);
    assert_eq!("foo: bar", got.to_string());
}

#[test]
fn error_response_deserialize_nok() {
    match ErrorResponse::from_json(obj(vec![("error", text("foo"))])) {
        Err(Error::MissingField("reason")) => (),
        x => panic!("Got unexpected result {:?}", x),
    }
    match ErrorResponse::from_json(obj(vec![("reason", text("foo"))])) {
        Err(Error::MissingField("error")) => (),
        x => panic!("Got unexpected result {:?}", x),
    }
    match ErrorResponse::from_json(obj(vec![("error", text("foo")), ("other", text("x"))])) {
        Err(Error::UnknownField { name }) => assert_eq!("other", name),
        x => panic!("Got unexpected result {:?}", x),
    }
    match ErrorResponse::from_json(obj(vec![("error", JsonValue::Null)])) {
        Err(Error::InvalidType("error")) => (),
        x => panic!("Got unexpected result {:?}", x),
    }
}

#[test]
fn error_description() {
    assert_eq!("The database already exists", Error::DatabaseExists(None).description());
    assert_eq!("custom reason", Error::unspecified("custom reason").description());
}

#[test]
fn make_url_path_empty() {
    assert_eq!("", make_url_path("/", &Vec::new()));
}

#[test]
fn make_url_path_normal_path() {
    let segs = vec!["db".to_string(), "docid".to_string()];
    assert_eq!("/db/docid", make_url_path("/", &segs));
}

#[test]
fn make_url_path_base_url_has_nonempty_path() {
    let segs = vec!["db".to_string(), "docid".to_string()];
    assert_eq!("/foo/db/docid", make_url_path("/foo", &segs));
}

#[test]
fn make_url_path_base_url_has_nonempty_path_with_trailing_slash() {
    let segs = vec!["db".to_string(), "docid".to_string()];
    assert_eq!("/foo/db/docid", make_url_path("/foo/", &segs));
}

#[test]
fn make_url_path_path_is_percent_encoded() {
    let segs = vec!["foo/?# %bar".to_string()];
    assert_eq!("/foo%2F%3F%23%20%25bar", make_url_path("/", &segs));
}

#[test]
fn request_url_path() {
    let r = Request::new(Method::Get, vec!["db", "a b"]);
    assert_eq!("/couch/db/a%20b", r.url_path("/couch/"));
}

#[test]
fn content_type_json() {
    assert!(check_json_content_type(Some("application/json")).is_ok());
    assert!(check_json_content_type(Some("application/json; charset=utf-8")).is_ok());
    match check_json_content_type(Some("text/plain")) {
        Err(Error::ResponseNotJson(Some(t))) => assert_eq!("text/plain", t),
        x => panic!("Got unexpected result {:?}", x),
    }
    match check_json_content_type(Some("not a media type")) {
        Err(Error::ResponseNotJson(None)) => (),
        x => panic!("Got unexpected result {:?}", x),
    }
    match check_json_content_type(None) {
        Err(Error::ResponseNotJson(None)) => (),
        x => panic!("Got unexpected result {:?}", x),
    }
}
