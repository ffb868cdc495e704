use chill::database::BasicDatabase;
use chill::testing::started_server_uri;
use chill::worker::{PushAction, WorkerAction, WorkerPool, MAX_IDLE_WORKERS};
use chill::{
    CreateDocumentOptions, DatabaseName, DocumentBuilder, DocumentId, Error, JsonValue, Method, NokResponse,
    PathParseError, Request, Revision, RevisionParseError,
};

fn text(s: &str) -> JsonValue {
    JsonValue::String(s.to_string())
}

fn obj(entries: Vec<(&str, JsonValue)>) -> JsonValue {
    JsonValue::Object(entries.into_iter().map(|(k, v)| (k.to_string(), v)).collect())
}

fn path_of(r: &Request) -> Vec<&str> {
    r.path().iter().map(|s| s.as_str()).collect()
}

fn query_of(r: &Request) -> Vec<(&str, &str)> {
    r.query().iter().map(|(k, v)| (k.as_str(), v.as_str())).collect()
}

#[test]
fn worker_pool_spawns_then_wakes() {
    let mut pool = WorkerPool::new(MAX_IDLE_WORKERS);
    assert_eq!(0, pool.idle_workers());
    assert_eq!(0, pool.queued());
    assert_eq!(PushAction::SpawnWorker, pool.push());
    assert_eq!(1, pool.queued());
    assert_eq!(WorkerAction::RunTask, pool.next_step());
    assert_eq!(0, pool.queued());
    assert_eq!(WorkerAction::Wait, pool.next_step());
    assert_eq!(1, pool.idle_workers());
    assert_eq!(PushAction::WakeIdleWorker, pool.push());
    pool.woken();
    assert_eq!(0, pool.idle_workers());
    assert_eq!(WorkerAction::RunTask, pool.next_step());
}

#[test]
fn worker_pool_quits_when_enough_wait() {
    let mut pool = WorkerPool::new(1);
    assert_eq!(WorkerAction::Wait, pool.next_step());
    assert_eq!(WorkerAction::Quit, pool.next_step());
    assert_eq!(1, pool.idle_workers());
}

#[test]
fn worker_pool_shutdown_makes_workers_quit() {
    let mut pool = WorkerPool::new(3);
    assert_eq!(PushAction::SpawnWorker, pool.push());
    pool.signal_shutdown();
    assert_eq!(WorkerAction::RunTask, pool.next_step());
    assert_eq!(WorkerAction::Quit, pool.next_step());
    assert_eq!(0, pool.idle_workers());
}

#[test]
fn started_line_gives_uri() {
    assert_eq!(
        Some("http://127.0.0.1:5984/".to_string()),
        started_server_uri("[info] Apache CouchDB has started on http://127.0.0.1:5984/  \n")
    );
    assert_eq!(None, started_server_uri("[info] Apache CouchDB is starting"));
    assert_eq!(None, started_server_uri(""));
}

#[test]
fn path_parse_error_text() {
    assert_eq!("Path does not begin with a slash", PathParseError::NoLeadingSlash.to_string());
    assert_eq!("Path ends with a slash", PathParseError::TrailingSlash.to_string());
    assert_eq!("Segment is bad, expected \"_design\"", PathParseError::BadSegment("_design").to_string());
    assert_eq!("Revision sequence number is zero", RevisionParseError::ZeroSequenceNumber.to_string());
}

#[test]
fn error_text_with_details() {
    let e = Error::NokResponse {
        status_code: 500,
        body: Some(NokResponse::new("oops".to_string(), "it \"broke\"".to_string())),
    };
    assert_eq!(
        "The CouchDB server responded with an error or an unknown status (status: 500, error: oops, reason: \"it \\\"broke\\\"\")",
        e.to_string()
    );
    let e = Error::NokResponse { status_code: 418, body: None };
    assert_eq!("The CouchDB server responded with an error or an unknown status (status: 418)", e.to_string());
    let e = Error::PathParse { inner: PathParseError::EmptySegment };
    assert_eq!("The CouchDB resource path is badly formed: Path segment is empty", e.to_string());
    let e = Error::RevisionParse { inner: RevisionParseError::TooFewParts };
    assert_eq!("The CouchDB document revision is badly formed: Revision has too few parts", e.to_string());
    assert_eq!("The document content is not a JSON object", Error::ContentNotAnObject.to_string());
    assert_eq!("why", Error::unspecified("why").to_string());
}

#[test]
fn database_create_document_request_sets_id() {
    let db = BasicDatabase::new(DatabaseName::from("foo"));
    assert_eq!("foo", db.name().as_str());
    let content = obj(vec![("_id", text("old")), ("a", text("b"))]);
    let opts = CreateDocumentOptions::new().with_document_id("bar");
    let r = db.create_document_request(content, &opts).unwrap();
    assert_eq!(Method::Post, r.method());
    assert_eq!(vec!["foo"], path_of(&r));
    assert!(r.accepts_json());
    assert_eq!(Some(&obj(vec![("a", text("b")), ("_id", text("bar"))])), r.body());
}

#[test]
fn database_create_document_request_keeps_content() {
    let db = BasicDatabase::new(DatabaseName::from("foo"));
    let content = obj(vec![("a", text("b"))]);
    let r = db.create_document_request(content.clone(), &CreateDocumentOptions::new()).unwrap();
    assert_eq!(Some(&content), r.body());
    match db.create_document_request(JsonValue::Null, &CreateDocumentOptions::new()) {
        Err(Error::ContentNotAnObject) => (),
        x => panic!("Got unexpected result {:?}", x),
    }
}

#[test]
fn database_read_and_update_requests() {
    let db = BasicDatabase::new(DatabaseName::from("foo"));
    let id = DocumentId::new_from_string("_design/bar".to_string());
    let r = db.read_document_request(&id);
    assert_eq!(Method::Get, r.method());
    assert_eq!(vec!["foo", "_design/bar"], path_of(&r));
    assert!(r.body().is_none());

    let rev = Revision::parse("42-1234567890abcdef1234567890abcdef").unwrap();
    let doc = DocumentBuilder::new("/foo/bar", rev).with_content(obj(vec![("a", text("b"))])).unwrap();
    let r = db.update_document_request(&doc);
    assert_eq!(Method::Put, r.method());
    assert_eq!(vec!["foo", "bar"], path_of(&r));
    assert_eq!(vec![("rev", "42-1234567890abcdef1234567890abcdef")], query_of(&r));
    assert!(r.body().is_some());
}

#[test]
fn database_handle_responses() {
    let reply = Ok(obj(vec![
        ("ok", JsonValue::Bool(true)),
        ("id", text("bar")),
        ("rev", text("1-12345678123456781234567812345678")),
    ]));
    let rev = BasicDatabase::handle_update_response(201, reply).unwrap();
    assert_eq!(Revision::parse("1-12345678123456781234567812345678").unwrap(), rev);
    match BasicDatabase::handle_update_response(409, Ok(obj(vec![("error", text("conflict")), ("reason", text("x"))]))) {
        Err(Error::DocumentConflict(Some(_))) => (),
        x => panic!("Got unexpected result {:?}", x),
    }
    match BasicDatabase::handle_update_response(404, Ok(JsonValue::Null)) {
        Err(Error::NokResponse { status_code: 404, body: None }) => (),
        x => panic!("Got unexpected result {:?}", x),
    }
    let db = BasicDatabase::new(DatabaseName::from("foo"));
    match db.handle_read_response(404, Ok(obj(vec![("error", text("not_found")), ("reason", text("missing"))]))) {
        Err(Error::NotFound(Some(_))) => (),
        x => panic!("Got unexpected result {:?}", x),
    }
}

#[test]
fn nok_response_deserialize() {
    let got = NokResponse::from_json(obj(vec![("error", text("oops")), ("extra", JsonValue::Null), ("reason", text("why"))])).unwrap();
    assert_eq!(NokResponse::new("oops".to_string(), "why".to_string()), got);
    match NokResponse::from_json(obj(vec![])) {
        Err(Error::MissingField("error")) => (),
        x => panic!("Got unexpected result {:?}", x),
    }
    match NokResponse::from_json(obj(vec![("error", text("oops"))])) {
        Err(Error::MissingField("reason")) => (),
        x => panic!("Got unexpected result {:?}", x),
    }
    match NokResponse::from_json(obj(vec![("error", text("a")), ("error", text("b"))])) {
        Err(Error::DuplicateField("error")) => (),
        x => panic!("Got unexpected result {:?}", x),
    }
    match NokResponse::from_json(obj(vec![("reason", JsonValue::Null)])) {
        Err(Error::InvalidType("reason")) => (),
        x => panic!("Got unexpected result {:?}", x),
    }
}

#[test]
fn started_line_passes_over_unicode_whitespace() {
    assert_eq!(
        Some("http://127.0.0.1:5984/".to_string()),
        started_server_uri("Apache CouchDB has started on http://127.0.0.1:5984/\u{a0}\u{3000}\t\r\n")
    );
}

#[test]
fn error_text_of_transport_and_io() {
    let e = Error::Transport { reason: "connection refused".to_string() };
    assert_eq!("The HTTP transport failed", e.description());
    assert_eq!("The HTTP transport failed: connection refused", e.to_string());
    let e = Error::Io { description: "Failed to read HTTP response body", reason: "broken pipe".to_string() };
    assert_eq!("Failed to read HTTP response body", e.description());
    assert_eq!("Failed to read HTTP response body: broken pipe", e.to_string());
}
