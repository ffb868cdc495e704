use chill::{Attachment, AttachmentBuilder, ContentType, Error, ErrorResponse, JsonValue, SavedAttachment, SerializableBase64Blob};

fn text(s: &str) -> JsonValue {
    JsonValue::String(s.to_string())
}

fn num(s: &str) -> JsonValue {
    JsonValue::Number(s.to_string())
}

fn obj(entries: Vec<(&str, JsonValue)>) -> JsonValue {
    JsonValue::Object(entries.into_iter().map(|(k, v)| (k.to_string(), v)).collect())
}

fn text_plain() -> ContentType {
    ContentType::parse("text/plain").unwrap()
}

fn stub_source(encoded: bool) -> JsonValue {
    let mut entries = vec![("content_type", text("text/plain")), ("digest", text("md5-iMaiC8wqiFlD2NjLTemvCQ=="))];
    if encoded {
        entries.push(("encoded_length", num("25")));
        entries.push(("encoding", text("gzip")));
    }
    entries.push(("length", num("5")));
    entries.push(("revpos", num("11")));
    entries.push(("stub", JsonValue::Bool(true)));
    obj(entries)
}

fn assert_stub(got: &SavedAttachment) {
    assert_eq!("text/plain", got.content_type().as_str());
    assert_eq!("md5-iMaiC8wqiFlD2NjLTemvCQ==", got.digest());
    assert_eq!(11, got.sequence_number());
    assert_eq!(5, got.content_length());
    assert_eq!(None, got.content_bytes());
}

#[test]
fn attachment_serialize_saved() {
    let attachment = AttachmentBuilder::new_saved_with_content(
        text_plain(),
        "md5-iMaiC8wqiFlD2NjLTemvCQ==".to_string(),
        17,
        b"This is the attachment.".to_vec(),
    )
    .unwrap();
    assert_eq!(obj(vec![("stub", JsonValue::Bool(true))]), attachment.to_json());
}

#[test]
fn attachment_serialize_unsaved() {
    let content = "This is the attachment.";
    let attachment = AttachmentBuilder::new_unsaved(text_plain(), content.as_bytes().to_vec()).unwrap();
    let expected = obj(vec![("content_type", text("text/plain")), ("data", text("VGhpcyBpcyB0aGUgYXR0YWNobWVudC4="))]);
    assert_eq!(expected, attachment.to_json());
}

#[test]
fn attachment_deserialize_ok() {
    let expected = AttachmentBuilder::new_saved(text_plain(), "md5-iMaiC8wqiFlD2NjLTemvCQ==".to_string(), 11, 5).unwrap();
    let got = Attachment::from_json(stub_source(false)).unwrap();
    assert_eq!(expected, got);
}

#[test]
fn saved_attachment_serialize() {
    let attachment = AttachmentBuilder::new_saved_with_content(
        text_plain(),
        "md5-iMaiC8wqiFlD2NjLTemvCQ==".to_string(),
        17,
        b"This is the attachment.".to_vec(),
    )
    .unwrap();
    match &attachment {
        Attachment::Saved(_) => (),
        x => panic!("Got unexpected attachment {:?}", x),
    }
    assert_eq!(obj(vec![("stub", JsonValue::Bool(true))]), attachment.to_json());
}

#[test]
fn saved_attachment_deserialize_ok_as_stub() {
    let got = SavedAttachment::from_json(stub_source(false)).unwrap();
    assert_stub(&got);
}

#[test]
fn saved_attachment_deserialize_ok_as_stub_with_encoding_info() {
    let got = SavedAttachment::from_json(stub_source(true)).unwrap();
    assert_stub(&got);
    assert_ne!(SavedAttachment::from_json(stub_source(false)).unwrap(), got);
    assert_eq!(SavedAttachment::from_json(stub_source(true)).unwrap(), got);
}

#[test]
fn saved_attachment_deserialize_ok_with_content_body() {
    let source = obj(vec![
        ("content_type", text("text/plain")),
        ("data", text("aGVsbG8=")),
        ("digest", text("md5-iMaiC8wqiFlD2NjLTemvCQ==")),
        ("revpos", num("11")),
    ]);
    let got = SavedAttachment::from_json(source).unwrap();
    assert_eq!("text/plain", got.content_type().as_str());
    assert_eq!("md5-iMaiC8wqiFlD2NjLTemvCQ==", got.digest());
    assert_eq!(11, got.sequence_number());
    assert_eq!(Some(&b"hello"[..]), got.content_bytes());
    assert_eq!(5, got.content_length());
}

#[test]
fn saved_attachment_deserialize_nok_missing_content_type() {
    let source = obj(vec![
        ("digest", text("md5-iMaiC8wqiFlD2NjLTemvCQ==")),
        ("length", num("5")),
        ("revpos", num("11")),
        ("stub", JsonValue::Bool(true)),
    ]);
    match SavedAttachment::from_json(source) {
        Err(Error::MissingField("content_type")) => (),
        x => panic!("Got unexpected result {:?}", x),
    }
}

#[test]
fn saved_attachment_deserialize_nok_missing_digest() {
    let source = obj(vec![
        ("content_type", text("text/plain")),
        ("length", num("5")),
        ("revpos", num("11")),
        ("stub", JsonValue::Bool(true)),
    ]);
    match SavedAttachment::from_json(source) {
        Err(Error::MissingField("digest")) => (),
        x => panic!("Got unexpected result {:?}", x),
    }
}

#[test]
fn saved_attachment_deserialize_nok_missing_revpos() {
    let source = obj(vec![
        ("content_type", text("text/plain")),
        ("digest", text("md5-iMaiC8wqiFlD2NjLTemvCQ==")),
        ("length", num("5")),
        ("stub", JsonValue::Bool(true)),
    ]);
    match SavedAttachment::from_json(source) {
        Err(Error::MissingField("revpos")) => (),
        x => panic!("Got unexpected result {:?}", x),
    }
}

#[test]
fn unsaved_attachment_serialize() {
    let content = "This is the attachment.";
    let attachment = AttachmentBuilder::new_unsaved(text_plain(), content.as_bytes().to_vec()).unwrap();
    match &attachment {
        Attachment::Unsaved(u) => assert_eq!("VGhpcyBpcyB0aGUgYXR0YWNobWVudC4=", u.content_base64()),
        x => panic!("Got unexpected attachment {:?}", x),
    }
    let expected = obj(vec![("content_type", text("text/plain")), ("data", text("VGhpcyBpcyB0aGUgYXR0YWNobWVudC4="))]);
    assert_eq!(expected, attachment.to_json());
}

#[test]
fn base64_json_encodable_serialize() {
    let blob = SerializableBase64Blob(b"Blah blah blah".to_vec());
    assert_eq!("QmxhaCBibGFoIGJsYWg=", blob.encode());
}

#[test]
fn base64_json_encodable_deserialize_ok() {
    assert_eq!(SerializableBase64Blob(b"hello".to_vec()), SerializableBase64Blob::decode("aGVsbG8=").unwrap());
}

#[test]
fn base64_json_encodable_deserialize_nok_bad_base64() {
    match SerializableBase64Blob::decode("% percent signs are invalid in base64 %") {
        Err(Error::Base64Decode) => (),
        x => panic!("Got unexpected result {:?}", x),
    }
}

#[test]
fn content_type_json_decodable_deserialize_ok() {
    assert_eq!("application/json", ContentType::parse("application/json").unwrap().as_str());
}

#[test]
fn content_type_json_decodable_deserialize_nok_bad_mime() {
    match ContentType::parse("bad mime") {
        Err(Error::ContentTypeParse) => (),
        x => panic!("Got unexpected result {:?}", x),
    }
}

#[test]
fn serializable_base64_blob_deserialize_ok() {
    assert_eq!(SerializableBase64Blob(b"hello".to_vec()), SerializableBase64Blob::decode("aGVsbG8=").unwrap());
}

#[test]
fn deserialize_nok_bad_base64() {
    match SerializableBase64Blob::decode("% percent signs are invalid in base64 %") {
        Err(Error::Base64Decode) => (),
        x => panic!("Got unexpected result {:?}", x),
    }
}

#[test]
fn serializable_content_type_deserialize_ok() {
    assert_eq!(ContentType::parse("application/json").unwrap(), ContentType::parse("application/json").unwrap());
    assert_eq!("application/json", ContentType::parse("application/json").unwrap().as_str());
}

#[test]
fn deserialize_nok_bad_mime() {
    match ContentType::parse("bad mime") {
        Err(Error::ContentTypeParse) => (),
        x => panic!("Got unexpected result {:?}", x),
    }
}

#[test]
fn error_response_display() {
    let source = ErrorResponse::new("file_exists", "The database could not be created, the file already exists.");
    let got = source.to_string();
    let error_position = got.find("file_exists").unwrap();
    let reason_position = got.find("The database could not be created, the file already exists.").unwrap();
    assert!(error_position < reason_position);
}

#[test]
fn deserialize_ok_with_all_fields() {
    let expected = ErrorResponse::new("foo", "bar");
    let got = ErrorResponse::from_json(obj(vec![("error", text("foo")), ("reason", text("bar"))])).unwrap();
    assert_eq!(expected, got);
}

#[test]
fn deserialize_with_with_no_error_field() {
    match ErrorResponse::from_json(obj(vec![("reason", text("foo"))])) {
        Err(Error::MissingField("error")) => (),
        x => panic!("Got unexpected result {:?}", x),
    }
}

#[test]
fn deserialize_nok_with_no_reason_field() {
    match ErrorResponse::from_json(obj(vec![("error", text("foo"))])) {
        Err(Error::MissingField("reason")) => (),
        x => panic!("Got unexpected result {:?}", x),
    }
}
