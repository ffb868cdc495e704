use chill::database::{BasicDatabase, WriteDocumentResponse};
use chill::{
    Attachment, AttachmentBuilder, ContentType, CreateDocumentOptions, DatabaseName, Document, DocumentBuilder,
    DocumentId, DocumentPath, Error, IntoDocumentPath, JsonValue, Method, Request, Revision,
};

fn text(s: &str) -> JsonValue {
    JsonValue::String(s.to_string())
}

fn num(s: &str) -> JsonValue {
    JsonValue::Number(s.to_string())
}

fn obj(entries: Vec<(&str, JsonValue)>) -> JsonValue {
    JsonValue::Object(entries.into_iter().map(|(k, v)| (k.to_string(), v)).collect())
}

/// The entries of a JSON object, in name order: an object's meaning does
/// not depend on the order in which its entries are written.
fn sorted_entries(v: &JsonValue) -> Vec<(String, JsonValue)> {
    match v {
        JsonValue::Object(es) => {
            let mut es: Vec<(String, JsonValue)> = es.iter().map(|(k, x)| (k.clone(), x.clone())).collect();
            es.sort_by(|a, b| a.0.cmp(&b.0));
            es
        }
        x => panic!("Got unexpected value {:?}", x),
    }
}

fn new_database(name: &str) -> BasicDatabase {
    BasicDatabase::new(DatabaseName::from(name))
}

fn path_of(r: &Request) -> Vec<&str> {
    r.path().iter().map(|s| s.as_str()).collect()
}

fn query_of(r: &Request) -> Vec<(&str, &str)> {
    r.query().iter().map(|(k, v)| (k.as_str(), v.as_str())).collect()
}

fn error_reply(error: &str, reason: &str) -> Result<JsonValue, Error> {
    Ok(obj(vec![("error", text(error)), ("reason", text(reason))]))
}

fn doc_content() -> JsonValue {
    obj(vec![("field_1", num("42")), ("field_2", text("hello"))])
}

#[test]
fn create_document_ok_with_default_options() {
    let db = new_database("database_name");
    let r = db.create_document_request(doc_content(), &CreateDocumentOptions::new()).unwrap();
    assert_eq!(Method::Post, r.method());
    assert_eq!(vec!["database_name"], path_of(&r));
    assert!(r.accepts_json());
    assert_eq!(sorted_entries(&doc_content()), sorted_entries(r.body().unwrap()));

    let reply = Ok(obj(vec![
        ("ok", JsonValue::Bool(true)),
        ("id", text("17a0e088c69e0a99be6d6159b4000563")),
        ("rev", text("1-967a00dff5e02add41819138abb3284d")),
    ]));
    let (doc_id, revision) = BasicDatabase::handle_create_response(201, reply).unwrap();
    assert_eq!(DocumentId::from("17a0e088c69e0a99be6d6159b4000563"), doc_id);
    assert_eq!(Revision::parse("1-967a00dff5e02add41819138abb3284d").unwrap(), revision);
}

#[test]
fn create_document_ok_with_document_id() {
    let db = new_database("database_name");
    let options = CreateDocumentOptions::new().with_document_id("document_id");
    let r = db.create_document_request(doc_content(), &options).unwrap();
    assert_eq!(Method::Post, r.method());
    assert_eq!(vec!["database_name"], path_of(&r));
    assert!(r.accepts_json());
    let expected = obj(vec![("_id", text("document_id")), ("field_1", num("42")), ("field_2", text("hello"))]);
    assert_eq!(sorted_entries(&expected), sorted_entries(r.body().unwrap()));

    let reply = Ok(obj(vec![
        ("ok", JsonValue::Bool(true)),
        ("id", text("document_id")),
        ("rev", text("1-967a00dff5e02add41819138abb3284d")),
    ]));
    let (doc_id, revision) = BasicDatabase::handle_create_response(201, reply).unwrap();
    assert_eq!(DocumentId::from("document_id"), doc_id);
    assert_eq!(Revision::parse("1-967a00dff5e02add41819138abb3284d").unwrap(), revision);
}

#[test]
fn create_document_nok_document_conflict() {
    let db = new_database("database_name");
    let options = CreateDocumentOptions::new().with_document_id("document_id");
    assert!(db.create_document_request(obj(vec![]), &options).is_ok());
    match BasicDatabase::handle_create_response(409, error_reply("conflict", "Document update conflict.")) {
        Err(Error::DocumentConflict(Some(ref e))) if e.error() == "conflict" && e.reason() == "Document update conflict." => (),
        x => panic!("Got unexpected result {:?}", x),
    }
}

#[test]
fn create_document_nok_unauthorized() {
    let db = new_database("database_name");
    assert!(db.create_document_request(obj(vec![]), &CreateDocumentOptions::new()).is_ok());
    match BasicDatabase::handle_create_response(401, error_reply("unauthorized", "Authentication required.")) {
        Err(Error::Unauthorized(Some(ref e))) if e.error() == "unauthorized" && e.reason() == "Authentication required." => (),
        x => panic!("Got unexpected result {:?}", x),
    }
}

#[test]
fn read_document_ok_with_default_options() {
    let db = new_database("database_name");
    let r = db.read_document_request(&DocumentId::from("document_id"));
    assert_eq!(Method::Get, r.method());
    assert_eq!(vec!["database_name", "document_id"], path_of(&r));
    assert!(r.accepts_json());
    assert!(r.query().is_empty());
    assert!(r.body().is_none());

    let reply = Ok(obj(vec![
        ("_id", text("document_id")),
        ("_rev", text("1-967a00dff5e02add41819138abb3284d")),
        ("field_1", num("42")),
        ("field_2", text("hello")),
    ]));
    let expected: Document = DocumentBuilder::new(
        "/database_name/document_id",
        Revision::parse("1-967a00dff5e02add41819138abb3284d").unwrap(),
    )
    .with_content(doc_content())
    .unwrap();
    let doc = db.handle_read_response(200, reply).unwrap();
    assert_eq!(expected.path(), doc.path());
    assert_eq!(expected.revision(), doc.revision());
    assert_eq!(expected.is_deleted(), doc.is_deleted());
    assert_eq!(expected.content(), doc.content());
    assert!(doc.attachments().is_empty());
}

#[test]
fn read_document_nok_not_found() {
    let db = new_database("database_name");
    match db.handle_read_response(404, error_reply("not_found", "missing")) {
        Err(Error::NotFound(Some(ref e))) if e.error() == "not_found" && e.reason() == "missing" => (),
        x => panic!("Got unexpected result {:?}", x),
    }
}

#[test]
fn read_document_nok_unauthorized() {
    let db = new_database("database_name");
    match db.handle_read_response(401, error_reply("unauthorized", "Authentication required.")) {
        Err(Error::Unauthorized(Some(ref e))) if e.error() == "unauthorized" && e.reason() == "Authentication required." => (),
        x => panic!("Got unexpected result {:?}", x),
    }
}

#[test]
fn update_document_ok_basic() {
    let db = new_database("database_name");
    let original_revision = Revision::parse("1-1234567890abcdef1234567890abcdef").unwrap();
    let doc = DocumentBuilder::new("/database_name/document_id", original_revision).with_content(doc_content()).unwrap();
    let r = db.update_document_request(&doc);
    assert_eq!(Method::Put, r.method());
    assert_eq!(vec!["database_name", "document_id"], path_of(&r));
    assert_eq!(vec![("rev", "1-1234567890abcdef1234567890abcdef")], query_of(&r));
    assert!(r.accepts_json());
    assert_eq!(sorted_entries(&doc_content()), sorted_entries(r.body().unwrap()));

    let new_revision = Revision::parse("2-fedcba0987654321fedcba0987654321").unwrap();
    let reply = Ok(obj(vec![
        ("ok", JsonValue::Bool(true)),
        ("id", text("document_id")),
        ("rev", text(&new_revision.to_string())),
    ]));
    assert_eq!(new_revision, BasicDatabase::handle_update_response(201, reply).unwrap());
}

#[test]
fn update_document_nok_document_conflict() {
    let db = new_database("database_name");
    let doc = DocumentBuilder::new("/database_name/document_id", Revision::parse("42-1234567890abcdef1234567890abcdef").unwrap())
        .unwrap();
    let r = db.update_document_request(&doc);
    assert_eq!(Method::Put, r.method());
    match BasicDatabase::handle_update_response(409, error_reply("conflict", "Document update conflict.")) {
        Err(Error::DocumentConflict(Some(ref e))) if e.error() == "conflict" && e.reason() == "Document update conflict." => (),
        x => panic!("Got unexpected result {:?}", x),
    }
}

#[test]
fn update_document_nok_unauthorized() {
    let db = new_database("database_name");
    let doc = DocumentBuilder::new("/database_name/document_id", Revision::parse("42-1234567890abcdef1234567890abcdef").unwrap())
        .unwrap();
    let r = db.update_document_request(&doc);
    assert_eq!(Method::Put, r.method());
    match BasicDatabase::handle_update_response(401, error_reply("unauthorized", "Authentication required.")) {
        Err(Error::Unauthorized(Some(ref e))) if e.error() == "unauthorized" && e.reason() == "Authentication required." => (),
        x => panic!("Got unexpected result {:?}", x),
    }
}

#[test]
fn database_write_document_response_deserialize_ok_with_all_fields() {
    let source = obj(vec![("id", text("foo")), ("ok", JsonValue::Bool(true)), ("rev", text("1-12345678123456781234567812345678"))]);
    let got = WriteDocumentResponse::from_json(source).unwrap();
    assert!(got.ok);
    assert_eq!(DocumentId::from("foo"), got.doc_id);
    assert_eq!(Revision::parse("1-12345678123456781234567812345678").unwrap(), got.revision);
}

#[test]
fn database_write_document_response_deserialize_nok_missing_id_field() {
    let source = obj(vec![("ok", JsonValue::Bool(true)), ("rev", text("1-12345678123456781234567812345678"))]);
    match WriteDocumentResponse::from_json(source) {
        Err(Error::MissingField("id")) => (),
        x => panic!("Got unexpected result {:?}", x),
    }
}

#[test]
fn database_write_document_response_deserialize_nok_missing_ok_field() {
    let source = obj(vec![("id", text("foo")), ("rev", text("1-12345678123456781234567812345678"))]);
    match WriteDocumentResponse::from_json(source) {
        Err(Error::MissingField("ok")) => (),
        x => panic!("Got unexpected result {:?}", x),
    }
}

#[test]
fn database_write_document_response_deserialize_nok_missing_rev_field() {
    let source = obj(vec![("id", text("foo")), ("ok", JsonValue::Bool(true))]);
    match WriteDocumentResponse::from_json(source) {
        Err(Error::MissingField("rev")) => (),
        x => panic!("Got unexpected result {:?}", x),
    }
}

#[test]
fn get_attachment_exists() {
    let content_type = ContentType::parse("text/plain").unwrap();
    let attachment_1 = AttachmentBuilder::new_saved_with_content(
        content_type,
        "md5-XNdWXQ0FO9vPx7skS0GuYA==".to_string(),
        17,
        b"Blah blah blah".to_vec(),
    )
    .unwrap();
    let expected = AttachmentBuilder::new_saved_with_content(
        ContentType::parse("text/plain").unwrap(),
        "md5-XNdWXQ0FO9vPx7skS0GuYA==".to_string(),
        17,
        b"Blah blah blah".to_vec(),
    )
    .unwrap();
    let decoded = Attachment::from_json(obj(vec![
        ("content_type", text("text/plain")),
        ("data", text("QmxhaCBibGFoIGJsYWg=")),
        ("digest", text("md5-XNdWXQ0FO9vPx7skS0GuYA==")),
        ("revpos", num("17")),
    ]))
    .unwrap();
    assert_eq!(attachment_1, decoded);
    let doc = chill::JsonDecodableDocument::from_json(obj(vec![
        ("_id", text("document_id")),
        ("_rev", text("42-1234567890abcdef1234567890abcdef")),
        (
            "_attachments",
            obj(vec![(
                "attachment_1",
                obj(vec![
                    ("content_type", text("text/plain")),
                    ("data", text("QmxhaCBibGFoIGJsYWg=")),
                    ("digest", text("md5-XNdWXQ0FO9vPx7skS0GuYA==")),
                    ("revpos", num("17")),
                ]),
            )]),
        ),
    ]))
    .unwrap();
    let document = Document::new_from_decoded(DatabaseName::from("database"), doc);
    let path: DocumentPath = "/database/document_id".into_document_path().unwrap();
    assert_eq!(&path, document.path());
    assert_eq!(Some(&expected), document.get_attachment("attachment_1"));
}

#[test]
fn database_write_document_response_names_id_first() {
    match WriteDocumentResponse::from_json(obj(vec![])) {
        Err(Error::MissingField("id")) => (),
        x => panic!("Got unexpected result {:?}", x),
    }
    match BasicDatabase::handle_create_response(201, Ok(obj(vec![]))) {
        Err(Error::MissingField("id")) => (),
        x => panic!("Got unexpected result {:?}", x),
    }
}

#[test]
fn database_write_document_response_rejects_unknown_fields() {
    let source = obj(vec![
        ("id", text("foo")),
        ("ok", JsonValue::Bool(true)),
        ("rev", text("1-12345678123456781234567812345678")),
        ("extra", JsonValue::Null),
    ]);
    match WriteDocumentResponse::from_json(source) {
        Err(Error::UnknownField { name }) => assert_eq!("extra", name),
        x => panic!("Got unexpected result {:?}", x),
    }
}

#[test]
fn database_write_document_response_later_field_wins() {
    let source = obj(vec![
        ("id", text("foo")),
        ("ok", JsonValue::Bool(true)),
        ("rev", text("1-12345678123456781234567812345678")),
        ("id", text("bar")),
        ("rev", text("2-12345678123456781234567812345678")),
    ]);
    let got = WriteDocumentResponse::from_json(source).unwrap();
    assert_eq!(DocumentId::from("bar"), got.doc_id);
    assert_eq!(Revision::parse("2-12345678123456781234567812345678").unwrap(), got.revision);
    let rev = BasicDatabase::handle_update_response(
        201,
        Ok(obj(vec![
            ("rev", text("1-12345678123456781234567812345678")),
            ("ok", JsonValue::Bool(true)),
            ("id", text("foo")),
            ("rev", text("3-12345678123456781234567812345678")),
        ])),
    )
    .unwrap();
    assert_eq!(Revision::parse("3-12345678123456781234567812345678").unwrap(), rev);
}
