use chill::{
    AttachmentContent, CreateDatabase, CreateDocument, DatabaseName, DeleteDocument, Document, DocumentBuilder,
    DocumentId, Error, ExecuteView, JsonText, JsonValue, Method, ReadAllDocuments, ReadDocument, Request, Revision,
    UpdateDocument, ViewResponseBuilder,
};

fn text(s: &str) -> JsonValue {
    JsonValue::String(s.to_string())
}

fn num(s: &str) -> JsonValue {
    JsonValue::Number(s.to_string())
}

fn obj(entries: Vec<(&str, JsonValue)>) -> JsonValue {
    JsonValue::Object(entries.into_iter().map(|(k, v)| (k.to_string(), v)).collect())
}

fn error_reply(error: &str, reason: &str) -> Result<JsonValue, Error> {
    Ok(obj(vec![("error", text(error)), ("reason", text(reason))]))
}

fn assert_request(
    r: &Request,
    method: Method,
    path: Vec<&str>,
    query: Vec<(&str, &str)>,
    body: Option<&JsonValue>,
) {
    assert_eq!(method, r.method());
    let got_path: Vec<&str> = r.path().iter().map(|s| s.as_str()).collect();
    assert_eq!(path, got_path);
    let got_query: Vec<(&str, &str)> = r.query().iter().map(|(k, v)| (k.as_str(), v.as_str())).collect();
    assert_eq!(query, got_query);
    assert!(r.accepts_json());
    assert_eq!(body, r.body());
}

fn assert_same_document(expected: &Document, got: &Document) {
    assert_eq!(expected.path(), got.path());
    assert_eq!(expected.revision(), got.revision());
    assert_eq!(expected.is_deleted(), got.is_deleted());
    assert_eq!(expected.content(), got.content());
    assert_eq!(expected.attachments().len(), got.attachments().len());
}

const VIEW: &'static str = "/foo/_design/bar/_view/qux";

#[test]
fn handle_response_precondition_failed() {
    let body = error_reply("file_exists", "The database could not be created, the file already exists.");
    match CreateDatabase::<&'static str>::handle_response(412, body) {
        Err(Error::DatabaseExists(Some(ref e)))
            if e.error() == "file_exists"
                && e.reason() == "The database could not be created, the file already exists." => (),
        x => panic!("Got unexpected result {:?}", x),
    }
}

#[test]
fn make_request_with_document_id() {
    let content = obj(vec![("field", num("42"))]);
    let r = CreateDocument::new("/foo", content.clone()).with_document_id("bar").make_request().unwrap();
    assert_request(&r, Method::Put, vec!["foo", "bar"], vec![], Some(&content));
}

#[test]
fn create_document_handle_response_created() {
    let body = Ok(obj(vec![
        ("ok", JsonValue::Bool(true)),
        ("id", text("foo")),
        ("rev", text("1-1234567890abcdef1234567890abcdef")),
    ]));
    let expected = (DocumentId::from("foo"), Revision::parse("1-1234567890abcdef1234567890abcdef").unwrap());
    let got = CreateDocument::<&'static str>::handle_response(201, body).unwrap();
    assert_eq!(expected, got);
}

#[test]
fn take_response_conflict() {
    match CreateDocument::<&'static str>::handle_response(409, error_reply("conflict", "Document update conflict.")) {
        Err(Error::DocumentConflict(Some(ref e))) if e.error() == "conflict" && e.reason() == "Document update conflict." => (),
        x => panic!("Got unexpected result {:?}", x),
    }
}

#[test]
fn take_response_unauthorized() {
    match CreateDocument::<&'static str>::handle_response(401, error_reply("unauthorized", "Authentication required.")) {
        Err(Error::Unauthorized(Some(ref e))) if e.error() == "unauthorized" && e.reason() == "Authentication required." => (),
        x => panic!("Got unexpected result {:?}", x),
    }
}

#[test]
fn delete_document_make_request_default() {
    let rev = Revision::parse("1-1234567890abcdef1234567890abcdef").unwrap();
    let r = DeleteDocument::new("/foo/bar", rev).make_request().unwrap();
    assert_request(&r, Method::Delete, vec!["foo", "bar"], vec![("rev", "1-1234567890abcdef1234567890abcdef")], None);
}

#[test]
fn delete_document_handle_response_ok() {
    let body = Ok(obj(vec![
        ("ok", JsonValue::Bool(true)),
        ("id", text("bar")),
        ("rev", text("42-1234567890abcdef1234567890abcdef")),
    ]));
    let expected = Revision::parse("42-1234567890abcdef1234567890abcdef").unwrap();
    assert_eq!(expected, DeleteDocument::<&'static str>::handle_response(200, body).unwrap());
}

#[test]
fn delete_document_handle_response_conflict() {
    match DeleteDocument::<&'static str>::handle_response(409, error_reply("conflict", "Document update conflict.")) {
        Err(Error::DocumentConflict(Some(ref e))) if e.error() == "conflict" && e.reason() == "Document update conflict." => (),
        x => panic!("Got unexpected result {:?}", x),
    }
}

#[test]
fn delete_document_handle_response_not_found() {
    match DeleteDocument::<&'static str>::handle_response(404, error_reply("not_found", "no_db_file")) {
        Err(Error::NotFound(Some(ref e))) if e.error() == "not_found" && e.reason() == "no_db_file" => (),
        x => panic!("Got unexpected result {:?}", x),
    }
}

#[test]
fn delete_document_handle_response_unauthorized() {
    match DeleteDocument::<&'static str>::handle_response(401, error_reply("unauthorized", "Authentication required.")) {
        Err(Error::Unauthorized(Some(ref e))) if e.error() == "unauthorized" && e.reason() == "Authentication required." => (),
        x => panic!("Got unexpected result {:?}", x),
    }
}

fn view_path() -> Vec<&'static str> {
    vec!["foo", "_design", "bar", "_view", "qux"]
}

#[test]
fn make_request_with_descending() {
    let (r, db) = ExecuteView::new(VIEW).with_descending(true).make_request().unwrap();
    assert_eq!(DatabaseName::from("foo"), db);
    assert_request(&r, Method::Get, view_path(), vec![("descending", "true")], None);
}

#[test]
fn make_request_with_end_key_exclusive() {
    let (r, db) = ExecuteView::new(VIEW).with_end_key_exclusive(JsonText("\"my key\"".to_string())).make_request().unwrap();
    assert_eq!(DatabaseName::from("foo"), db);
    assert_request(&r, Method::Get, view_path(), vec![("endkey", "\"my key\""), ("inclusive_end", "false")], None);
}

#[test]
fn make_request_with_end_key_inclusive() {
    let (r, db) = ExecuteView::new(VIEW).with_end_key_inclusive(JsonText("\"my key\"".to_string())).make_request().unwrap();
    assert_eq!(DatabaseName::from("foo"), db);
    assert_request(&r, Method::Get, view_path(), vec![("endkey", "\"my key\"")], None);
}

#[test]
fn make_request_with_exact_groups() {
    let (r, db) = ExecuteView::new(VIEW).with_exact_groups(true).make_request().unwrap();
    assert_eq!(DatabaseName::from("foo"), db);
    assert_request(&r, Method::Get, view_path(), vec![("group", "true")], None);
}

#[test]
fn make_request_with_group_level() {
    let (r, db) = ExecuteView::new(VIEW).with_group_level(42).make_request().unwrap();
    assert_eq!(DatabaseName::from("foo"), db);
    assert_request(&r, Method::Get, view_path(), vec![("group_level", "42")], None);
}

#[test]
fn make_request_with_limit() {
    let (r, db) = ExecuteView::new(VIEW).with_limit(42).make_request().unwrap();
    assert_eq!(DatabaseName::from("foo"), db);
    assert_request(&r, Method::Get, view_path(), vec![("limit", "42")], None);
}

#[test]
fn make_request_with_reduce() {
    let (r, db) = ExecuteView::new(VIEW).with_reduce(false).make_request().unwrap();
    assert_eq!(DatabaseName::from("foo"), db);
    assert_request(&r, Method::Get, view_path(), vec![("reduce", "false")], None);
}

#[test]
fn make_request_with_start_key() {
    let (r, db) = ExecuteView::new(VIEW).with_start_key(JsonText("\"my key\"".to_string())).make_request().unwrap();
    assert_eq!(DatabaseName::from("foo"), db);
    assert_request(&r, Method::Get, view_path(), vec![("startkey", "\"my key\"")], None);
}

#[test]
fn handle_response_ok_reduced() {
    let body = Ok(obj(vec![("rows", JsonValue::Array(vec![obj(vec![("key", JsonValue::Null), ("value", num("42"))])]))]));
    let expected = ViewResponseBuilder::new_reduced(num("42")).unwrap();
    let got = ExecuteView::<&'static str>::handle_response(200, body, DatabaseName::from("baseball")).unwrap();
    assert_eq!(expected, got);
}

#[test]
fn handle_response_ok_unreduced() {
    let body = Ok(obj(vec![
        ("total_rows", num("20")),
        ("offset", num("10")),
        (
            "rows",
            JsonValue::Array(vec![
                obj(vec![("key", text("Babe Ruth")), ("value", num("714")), ("id", text("babe_ruth"))]),
                obj(vec![("key", text("Hank Aaron")), ("value", num("755")), ("id", text("hank_aaron"))]),
            ]),
        ),
    ]));
    let expected = ViewResponseBuilder::new_unreduced(DatabaseName::from("baseball"), 20, 10)
        .with_row(DocumentId::from("babe_ruth"), text("Babe Ruth"), num("714"))
        .with_row(DocumentId::from("hank_aaron"), text("Hank Aaron"), num("755"))
        .unwrap();
    let got = ExecuteView::<&'static str>::handle_response(200, body, DatabaseName::from("baseball")).unwrap();
    assert_eq!(expected, got);
}

#[test]
fn execute_view_handle_response_not_found() {
    let got = ExecuteView::<&'static str>::handle_response(
        404,
        error_reply("not_found", "missing_named_view"),
        DatabaseName::from("foo"),
    );
    match got {
        Err(Error::NotFound(Some(ref e))) if e.error() == "not_found" && e.reason() == "missing_named_view" => (),
        x => panic!("Got unexpected result {:?}", x),
    }
}

#[test]
fn execute_view_handle_response_unauthorized() {
    let got = ExecuteView::<&'static str>::handle_response(
        401,
        error_reply("unauthorized", "Authentication required."),
        DatabaseName::from("foo"),
    );
    match got {
        Err(Error::Unauthorized(Some(ref e))) if e.error() == "unauthorized" && e.reason() == "Authentication required." => (),
        x => panic!("Got unexpected result {:?}", x),
    }
}

#[test]
fn read_all_documents_make_request_default() {
    let (r, db) = ReadAllDocuments::new("/foo").make_request().unwrap();
    assert_eq!(DatabaseName::from("foo"), db);
    assert_request(&r, Method::Get, vec!["foo", "_all_docs"], vec![], None);
}

#[test]
fn read_document_make_request_default() {
    let (r, db) = ReadDocument::new("/foo/bar").make_request().unwrap();
    assert_eq!(DatabaseName::from("foo"), db);
    assert_request(&r, Method::Get, vec!["foo", "bar"], vec![], None);
}

#[test]
fn make_request_with_revision() {
    let rev = Revision::parse("1-1234567890abcdef1234567890abcdef").unwrap();
    let (r, db) = ReadDocument::new("/foo/bar").with_revision(rev).make_request().unwrap();
    assert_eq!(DatabaseName::from("foo"), db);
    assert_request(&r, Method::Get, vec!["foo", "bar"], vec![("rev", "1-1234567890abcdef1234567890abcdef")], None);
}

#[test]
fn make_request_with_attachment_content_none() {
    let (r, db) = ReadDocument::new("/foo/bar").with_attachment_content(AttachmentContent::Stubs).make_request().unwrap();
    assert_eq!(DatabaseName::from("foo"), db);
    assert_request(&r, Method::Get, vec!["foo", "bar"], vec![("attachments", "false")], None);
}

#[test]
fn make_request_with_attachment_content_all() {
    let (r, db) = ReadDocument::new("/foo/bar").with_attachment_content(AttachmentContent::All).make_request().unwrap();
    assert_eq!(DatabaseName::from("foo"), db);
    assert_request(&r, Method::Get, vec!["foo", "bar"], vec![("attachments", "true")], None);
}

#[test]
fn read_document_handle_response_ok() {
    let body = Ok(obj(vec![
        ("_id", text("bar")),
        ("_rev", text("1-1234567890abcdef1234567890abcdef")),
        ("field", num("42")),
    ]));
    let rev = Revision::parse("1-1234567890abcdef1234567890abcdef").unwrap();
    let expected = DocumentBuilder::new("/foo/bar", rev).with_content(obj(vec![("field", num("42"))])).unwrap();
    let got = ReadDocument::<&'static str>::handle_response(200, body, DatabaseName::from("foo")).unwrap();
    assert_same_document(&expected, &got);
}

#[test]
fn read_document_handle_response_not_found() {
    match ReadDocument::<&'static str>::handle_response(404, error_reply("not_found", "no_db_file"), DatabaseName::from("foo")) {
        Err(Error::NotFound(Some(ref e))) if e.error() == "not_found" && e.reason() == "no_db_file" => (),
        x => panic!("Got unexpected result {:?}", x),
    }
}

#[test]
fn read_document_handle_response_unauthorized() {
    let got = ReadDocument::<&'static str>::handle_response(
        401,
        error_reply("unauthorized", "Authentication required."),
        DatabaseName::from("foo"),
    );
    match got {
        Err(Error::Unauthorized(Some(ref e))) if e.error() == "unauthorized" && e.reason() == "Authentication required." => (),
        x => panic!("Got unexpected result {:?}", x),
    }
}

#[test]
fn update_document_make_request_default() {
    let rev = Revision::parse("1-1234567890abcdef1234567890abcdef").unwrap();
    let doc = DocumentBuilder::new("/foo/bar", rev)
        .with_content(obj(vec![("field_1", num("42")), ("field_2", text("hello"))]))
        .unwrap();
    let expected_content = obj(vec![("field_1", num("42")), ("field_2", text("hello"))]);
    let r = UpdateDocument::new(&doc).make_request();
    assert_request(
        &r,
        Method::Put,
        vec!["foo", "bar"],
        vec![("rev", "1-1234567890abcdef1234567890abcdef")],
        Some(&expected_content),
    );
}

#[test]
fn update_document_handle_response_created() {
    let body = Ok(obj(vec![
        ("ok", JsonValue::Bool(true)),
        ("id", text("bar")),
        ("rev", text("1-1234567890abcdef1234567890abcdef")),
    ]));
    let expected = Revision::parse("1-1234567890abcdef1234567890abcdef").unwrap();
    assert_eq!(expected, UpdateDocument::handle_response(201, body).unwrap());
}

#[test]
fn update_document_handle_response_conflict() {
    match UpdateDocument::handle_response(409, error_reply("conflict", "Document update conflict.")) {
        Err(Error::DocumentConflict(Some(ref e))) if e.error() == "conflict" && e.reason() == "Document update conflict." => (),
        x => panic!("Got unexpected result {:?}", x),
    }
}

#[test]
fn update_document_handle_response_not_found() {
    match UpdateDocument::handle_response(404, error_reply("not_found", "no_db_file")) {
        Err(Error::NotFound(Some(ref e))) if e.error() == "not_found" && e.reason() == "no_db_file" => (),
        x => panic!("Got unexpected result {:?}", x),
    }
}

#[test]
fn update_document_handle_response_unauthorized() {
    match UpdateDocument::handle_response(401, error_reply("unauthorized", "Authentication required.")) {
        Err(Error::Unauthorized(Some(ref e))) if e.error() == "unauthorized" && e.reason() == "Authentication required." => (),
        x => panic!("Got unexpected result {:?}", x),
    }
}
