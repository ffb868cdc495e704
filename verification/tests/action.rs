use chill::{
    AttachmentContent, CreateDatabase, CreateDocument, DeleteDocument, DocumentBuilder, DocumentId, Error,
    ErrorResponse, ExecuteView, JsonText, JsonValue, Method, PathParseError, ReadAllDocuments, ReadDocument,
    Request, Revision, UpdateDocument, DatabaseName, ContentType,
};

fn text(s: &str) -> JsonValue {
    JsonValue::String(s.to_string())
}

fn num(s: &str) -> JsonValue {
    JsonValue::Number(s.to_string())
}

fn obj(entries: Vec<(&str, JsonValue)>) -> JsonValue {
    JsonValue::Object(entries.into_iter().map(|(k, v)| (k.to_string(), v)).collect())
}

fn path_of(r: &Request) -> Vec<&str> {
    r.path().iter().map(|s| s.as_str()).collect()
}

fn query_of(r: &Request) -> Vec<(&str, &str)> {
    r.query().iter().map(|(k, v)| (k.as_str(), v.as_str())).collect()
}

fn error_body() -> Result<JsonValue, Error> {
    Ok(obj(vec![
        ("error", text("file_exists")),
        ("reason", text("The database could not be created, the file already exists.")),
    ]))
}

fn write_reply() -> Result<JsonValue, Error> {
    Ok(obj(vec![
        ("ok", JsonValue::Bool(true)),
        ("id", text("foo")),
        ("rev", text("1-12345678123456781234567812345678")),
    ]))
}

#[test]
fn create_database_make_request_default() {
    let r = CreateDatabase::new("/foo").make_request().unwrap();
    assert_eq!(Method::Put, r.method());
    assert_eq!(vec!["foo"], path_of(&r));
    assert!(r.accepts_json());
    assert!(r.query().is_empty());
    assert!(r.body().is_none());
}

#[test]
fn create_database_make_request_bad_path() {
    match CreateDatabase::new("foo").make_request() {
        Err(Error::PathParse { inner: PathParseError::NoLeadingSlash }) => (),
        x => panic!("Got unexpected result {:?}", x),
    }
}

#[test]
fn create_database_handle_response_created() {
    CreateDatabase::<&'static str>::handle_response(201, Ok(obj(vec![("ok", JsonValue::Bool(true))]))).unwrap();
}

#[test]
fn create_database_handle_response_precondition_failed() {
    match CreateDatabase::<&'static str>::handle_response(412, error_body()) {
        Err(Error::DatabaseExists(Some(ref e)))
            if e.error() == "file_exists"
                && e.reason() == "The database could not be created, the file already exists." => (),
        x => panic!("Got unexpected result {:?}", x),
    }
}

#[test]
fn create_database_handle_response_unauthorized() {
    let body = Ok(obj(vec![("error", text("unauthorized")), ("reason", text("Authentication required."))]));
    match CreateDatabase::<&'static str>::handle_response(401, body) {
        Err(Error::Unauthorized(Some(ref e))) if e.error() == "unauthorized" && e.reason() == "Authentication required." => (),
        x => panic!("Got unexpected result {:?}", x),
    }
}

#[test]
fn create_database_handle_response_other_status() {
    match CreateDatabase::<&'static str>::handle_response(500, Ok(text("oops"))) {
        Err(Error::NokResponse { status_code: 500, body: None }) => (),
        x => panic!("Got unexpected result {:?}", x),
    }
    match CreateDatabase::<&'static str>::handle_response(503, error_body()) {
        Err(Error::NokResponse { status_code: 503, body: Some(ref b) }) if b.error() == "file_exists" => (),
        x => panic!("Got unexpected result {:?}", x),
    }
}

#[test]
fn create_document_make_request_default() {
    let content = obj(vec![("field", num("42"))]);
    let r = CreateDocument::new("/foo", content).make_request().unwrap();
    assert_eq!(Method::Post, r.method());
    assert_eq!(vec!["foo"], path_of(&r));
    assert!(r.accepts_json());
    assert_eq!(Some(&obj(vec![("field", num("42"))])), r.body());
}

#[test]
fn create_document_make_request_with_document_id() {
    let content = obj(vec![("field", num("42"))]);
    let r = CreateDocument::new("/foo", content).with_document_id("_design/bar").make_request().unwrap();
    assert_eq!(Method::Put, r.method());
    assert_eq!(vec!["foo", "_design", "bar"], path_of(&r));
}

#[test]
fn create_document_handle_response() {
    let (id, rev) = CreateDocument::<&'static str>::handle_response(201, write_reply()).unwrap();
    assert_eq!(DocumentId::from("foo"), id);
    assert_eq!(Revision::parse("1-12345678123456781234567812345678").unwrap(), rev);
    match CreateDocument::<&'static str>::handle_response(409, error_body()) {
        Err(Error::DocumentConflict(Some(_))) => (),
        x => panic!("Got unexpected result {:?}", x),
    }
    match CreateDocument::<&'static str>::handle_response(201, Err(Error::JsonDecode { reason: "bad".to_string() })) {
        Err(Error::JsonDecode { .. }) => (),
        x => panic!("Got unexpected result {:?}", x),
    }
    match CreateDocument::<&'static str>::handle_response(201, Ok(obj(vec![("ok", JsonValue::Bool(true))]))) {
        Err(Error::MissingField("id")) => (),
        x => panic!("Got unexpected result {:?}", x),
    }
}

#[test]
fn delete_document_make_request() {
    let rev = Revision::parse("42-1234567890abcdef1234567890abcdef").unwrap();
    let r = DeleteDocument::new("/foo/bar", rev).make_request().unwrap();
    assert_eq!(Method::Delete, r.method());
    assert_eq!(vec!["foo", "bar"], path_of(&r));
    assert_eq!(vec![("rev", "42-1234567890abcdef1234567890abcdef")], query_of(&r));
}

#[test]
fn delete_document_handle_response() {
    let rev = DeleteDocument::<&'static str>::handle_response(200, write_reply()).unwrap();
    assert_eq!(1, rev.sequence_number());
    match DeleteDocument::<&'static str>::handle_response(404, error_body()) {
        Err(Error::NotFound(Some(_))) => (),
        x => panic!("Got unexpected result {:?}", x),
    }
    match DeleteDocument::<&'static str>::handle_response(409, Ok(JsonValue::Null)) {
        Err(Error::DocumentConflict(None)) => (),
        x => panic!("Got unexpected result {:?}", x),
    }
}

#[test]
fn read_document_make_request() {
    let rev = Revision::parse("42-1234567890abcdef1234567890abcdef").unwrap();
    let (r, db) = ReadDocument::new("/foo/_local/bar")
        .with_revision(rev)
        .with_attachment_content(AttachmentContent::All)
        .make_request()
        .unwrap();
    assert_eq!(DatabaseName::from("foo"), db);
    assert_eq!(Method::Get, r.method());
    assert_eq!(vec!["foo", "_local", "bar"], path_of(&r));
    assert_eq!(vec![("attachments", "true"), ("rev", "42-1234567890abcdef1234567890abcdef")], query_of(&r));
    let (r, _) = ReadDocument::new("/foo/bar").with_attachment_content(AttachmentContent::Stubs).make_request().unwrap();
    assert_eq!(vec![("attachments", "false")], query_of(&r));
}

#[test]
fn read_document_handle_response() {
    let body = Ok(obj(vec![("_id", text("bar")), ("_rev", text("1-12345678123456781234567812345678")), ("x", num("1"))]));
    let doc = ReadDocument::<&'static str>::handle_response(200, body, DatabaseName::from("foo")).unwrap();
    assert_eq!("/foo/bar", doc.path().to_string());
    assert_eq!(&obj(vec![("x", num("1"))]), doc.content());
    match ReadDocument::<&'static str>::handle_response(404, Ok(JsonValue::Null), DatabaseName::from("foo")) {
        Err(Error::NotFound(None)) => (),
        x => panic!("Got unexpected result {:?}", x),
    }
}

#[test]
fn update_document_make_request() {
    let rev = Revision::parse("42-1234567890abcdef1234567890abcdef").unwrap();
    let mut doc = DocumentBuilder::new("/foo/bar", rev).with_content(obj(vec![("field", num("1"))])).unwrap();
    doc.insert_attachment("a", ContentType::parse("text/plain").unwrap(), b"hi".to_vec());
    let r = UpdateDocument::new(&doc).make_request();
    assert_eq!(Method::Put, r.method());
    assert_eq!(vec!["foo", "bar"], path_of(&r));
    assert_eq!(vec![("rev", "42-1234567890abcdef1234567890abcdef")], query_of(&r));
    let expected = obj(vec![
        ("field", num("1")),
        ("_attachments", obj(vec![("a", obj(vec![("content_type", text("text/plain")), ("data", text("aGk="))]))])),
    ]);
    assert_eq!(Some(&expected), r.body());
}

#[test]
fn update_document_handle_response() {
    let rev = UpdateDocument::handle_response(201, write_reply()).unwrap();
    assert_eq!("1-12345678123456781234567812345678", rev.to_string());
    match UpdateDocument::handle_response(401, error_body()) {
        Err(Error::Unauthorized(Some(e))) => assert_eq!(&ErrorResponse::new("file_exists", "The database could not be created, the file already exists."), &e),
        x => panic!("Got unexpected result {:?}", x),
    }
}

#[test]
fn execute_view_make_request_default() {
    let (r, db) = ExecuteView::new("/foo/_design/bar/_view/qux").make_request().unwrap();
    assert_eq!(DatabaseName::from("foo"), db);
    assert_eq!(Method::Get, r.method());
    assert_eq!(vec!["foo", "_design", "bar", "_view", "qux"], path_of(&r));
    assert!(r.query().is_empty());
}

#[test]
fn execute_view_make_request_with_options() {
    let (r, _) = ExecuteView::new("/foo/_design/bar/_view/qux")
        .with_descending(true)
        .with_end_key_exclusive(JsonText("700".to_string()))
        .with_start_key(JsonText("\"a\"".to_string()))
        .with_limit(10)
        .with_reduce(false)
        .with_group_level(2)
        .with_documents(true)
        .make_request()
        .unwrap();
    assert_eq!(
        vec![
            ("reduce", "false"),
            ("startkey", "\"a\""),
            ("endkey", "700"),
            ("inclusive_end", "false"),
            ("limit", "10"),
            ("descending", "true"),
            ("group_level", "2"),
            ("include_docs", "true"),
        ],
        query_of(&r)
    );
    let (r, _) = ExecuteView::new("/foo/_design/bar/_view/qux")
        .with_end_key_inclusive(JsonText("1".to_string()))
        .with_exact_groups(true)
        .make_request()
        .unwrap();
    assert_eq!(vec![("endkey", "1"), ("group", "true")], query_of(&r));
}

#[test]
fn execute_view_handle_response() {
    let body = Ok(obj(vec![
        ("total_rows", num("1")),
        ("offset", num("0")),
        ("rows", JsonValue::Array(vec![obj(vec![("id", text("d")), ("key", num("1")), ("value", JsonValue::Null)])])),
    ]));
    let resp = ExecuteView::<&'static str>::handle_response(200, body, DatabaseName::from("foo")).unwrap();
    assert_eq!(Some(1), resp.total_rows());
    assert_eq!("/foo/d", resp.rows()[0].document_path().unwrap().to_string());
    match ExecuteView::<&'static str>::handle_response(404, Ok(JsonValue::Null), DatabaseName::from("foo")) {
        Err(Error::NotFound(None)) => (),
        x => panic!("Got unexpected result {:?}", x),
    }
}

#[test]
fn read_all_documents_make_request() {
    let (r, db) = ReadAllDocuments::new("/foo")
        .with_start_key(JsonText("\"a\"".to_string()))
        .with_descending(true)
        .make_request()
        .unwrap();
    assert_eq!(DatabaseName::from("foo"), db);
    assert_eq!(vec!["foo", "_all_docs"], path_of(&r));
    assert_eq!(vec![("startkey", "\"a\""), ("descending", "true")], query_of(&r));
}
