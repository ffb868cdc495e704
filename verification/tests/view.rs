use chill::{
    DatabaseName, DocumentId, DocumentPath, Error, IntoDocumentPath, JsonValue, ViewResponse, ViewResponseBuilder,
    ViewResponseJsonable, ViewRowJsonable,
};

fn text(s: &str) -> JsonValue {
    JsonValue::String(s.to_string())
}

fn num(s: &str) -> JsonValue {
    JsonValue::Number(s.to_string())
}

fn obj(entries: Vec<(&str, JsonValue)>) -> JsonValue {
    JsonValue::Object(entries.into_iter().map(|(k, v)| (k.to_string(), v)).collect())
}

fn arr(items: Vec<JsonValue>) -> JsonValue {
    JsonValue::Array(items)
}

#[test]
fn view_row_deserialize_ok_reduced() {
    let got = ViewRowJsonable::from_json(obj(vec![("key", JsonValue::Null), ("value", num("42"))])).unwrap();
    assert_eq!(ViewRowJsonable { id: None, key: None, value: num("42") }, got);
}

#[test]
fn view_row_deserialize_ok_unreduced() {
    let got = ViewRowJsonable::from_json(obj(vec![("id", text("foo")), ("key", text("bar")), ("value", num("42"))])).unwrap();
    let expected = ViewRowJsonable { id: Some(DocumentId::from("foo")), key: Some(text("bar")), value: num("42") };
    assert_eq!(expected, got);
}

#[test]
fn view_row_deserialize_nok_missing_value() {
    match ViewRowJsonable::from_json(obj(vec![("id", text("foo")), ("key", text("bar"))])) {
        Err(Error::MissingField("value")) => (),
        x => panic!("Got unexpected result {:?}", x),
    }
}

#[test]
fn view_row_deserialize_nok_unknown_field() {
    match ViewRowJsonable::from_json(obj(vec![("value", num("1")), ("doc", JsonValue::Null)])) {
        Err(Error::UnknownField { name }) => assert_eq!("doc", name),
        x => panic!("Got unexpected result {:?}", x),
    }
}

#[test]
fn view_response_deserialize_ok_reduced() {
    let source = obj(vec![("rows", arr(vec![obj(vec![("key", JsonValue::Null), ("value", num("42"))])]))]);
    let expected = ViewResponseJsonable {
        total_rows: None,
        offset: None,
        update_seq: None,
        rows: vec![ViewRowJsonable { id: None, key: None, value: num("42") }],
    };
    assert_eq!(expected, ViewResponseJsonable::from_json(source).unwrap());
}

#[test]
fn view_response_deserialize_ok_reduced_with_update_seq() {
    let source = obj(vec![
        ("update_seq", num("17")),
        ("rows", arr(vec![obj(vec![("key", JsonValue::Null), ("value", num("42"))])])),
    ]);
    let got = ViewResponseJsonable::from_json(source).unwrap();
    assert_eq!(Some(17), got.update_seq);
    assert_eq!(1, got.rows.len());
}

#[test]
fn view_response_deserialize_ok_reduced_grouped() {
    let source = obj(vec![(
        "rows",
        arr(vec![
            obj(vec![("key", arr(vec![num("1"), num("2")])), ("value", num("42"))]),
            obj(vec![("key", arr(vec![num("1"), num("3")])), ("value", num("43"))]),
            obj(vec![("key", arr(vec![num("2"), num("3")])), ("value", num("44"))]),
        ]),
    )]);
    let expected = ViewResponseJsonable {
        total_rows: None,
        offset: None,
        update_seq: None,
        rows: vec![
            ViewRowJsonable { id: None, key: Some(arr(vec![num("1"), num("2")])), value: num("42") },
            ViewRowJsonable { id: None, key: Some(arr(vec![num("1"), num("3")])), value: num("43") },
            ViewRowJsonable { id: None, key: Some(arr(vec![num("2"), num("3")])), value: num("44") },
        ],
    };
    assert_eq!(expected, ViewResponseJsonable::from_json(source).unwrap());
}

#[test]
fn view_response_deserialize_ok_unreduced() {
    let source = obj(vec![
        ("total_rows", num("10")),
        ("offset", num("5")),
        (
            "rows",
            arr(vec![
                obj(vec![("id", text("foo")), ("key", text("bar")), ("value", num("42"))]),
                obj(vec![("id", text("qux")), ("key", text("baz")), ("value", num("17"))]),
            ]),
        ),
    ]);
    let expected = ViewResponseJsonable {
        total_rows: Some(10),
        offset: Some(5),
        update_seq: None,
        rows: vec![
            ViewRowJsonable { id: Some(DocumentId::from("foo")), key: Some(text("bar")), value: num("42") },
            ViewRowJsonable { id: Some(DocumentId::from("qux")), key: Some(text("baz")), value: num("17") },
        ],
    };
    assert_eq!(expected, ViewResponseJsonable::from_json(source).unwrap());
}

#[test]
fn view_response_deserialize_nok() {
    match ViewResponseJsonable::from_json(obj(vec![("total_rows", num("10"))])) {
        Err(Error::MissingField("rows")) => (),
        x => panic!("Got unexpected result {:?}", x),
    }
    match ViewResponseJsonable::from_json(obj(vec![("total_rows", num("-1")), ("rows", arr(vec![]))])) {
        Err(Error::InvalidType("total_rows")) => (),
        x => panic!("Got unexpected result {:?}", x),
    }
    match ViewResponseJsonable::from_json(obj(vec![("rows", text("none"))])) {
        Err(Error::InvalidType("rows")) => (),
        x => panic!("Got unexpected result {:?}", x),
    }
}

#[test]
fn view_response_from_decoded() {
    let source = obj(vec![
        ("total_rows", num("10")),
        ("offset", num("5")),
        ("rows", arr(vec![obj(vec![("id", text("foo")), ("key", text("bar")), ("value", num("42"))])])),
    ]);
    let decoded = ViewResponseJsonable::from_json(source).unwrap();
    let got = ViewResponse::new_from_decoded(DatabaseName::from("db"), decoded);
    assert_eq!(Some(10), got.total_rows());
    assert_eq!(Some(5), got.offset());
    assert_eq!(None, got.update_sequence_number());
    let row = &got.rows()[0];
    assert_eq!(Some(&text("bar")), row.key());
    assert_eq!(&num("42"), row.value());
    assert_eq!(Some(&"/db/foo".into_document_path().unwrap()), row.document_path());
}

#[test]
fn view_response_builder_reduced() {
    let got = ViewResponseBuilder::new_reduced(num("42")).with_update_sequence_number(99).unwrap();
    assert_eq!(None, got.total_rows());
    assert_eq!(None, got.offset());
    assert_eq!(Some(99), got.update_sequence_number());
    assert_eq!(1, got.rows().len());
    assert_eq!(None, got.rows()[0].key());
    assert_eq!(&num("42"), got.rows()[0].value());
    assert_eq!(None, got.rows()[0].document_path());
}

#[test]
fn view_response_builder_reduced_empty() {
    let got = ViewResponseBuilder::new_reduced_empty().with_update_sequence_number(99).unwrap();
    assert_eq!(Some(99), got.update_sequence_number());
    assert_eq!(0, got.rows().len());
}

#[test]
fn view_response_builder_grouped() {
    let got = ViewResponseBuilder::new_grouped()
        .with_update_sequence_number(99)
        .with_row(arr(vec![num("1")]), text("alpha"))
        .with_row(arr(vec![num("2")]), text("bravo"))
        .unwrap();
    assert_eq!(Some(99), got.update_sequence_number());
    assert_eq!(2, got.rows().len());
    assert_eq!(Some(&arr(vec![num("1")])), got.rows()[0].key());
    assert_eq!(&text("bravo"), got.rows()[1].value());
}

#[test]
fn view_response_builder_unreduced() {
    let got = ViewResponseBuilder::new_unreduced(DatabaseName::from("db"), 42, 17)
        .with_update_sequence_number(99)
        .with_row(DocumentId::from("alpha"), num("1"), text("bravo"))
        .with_row(DocumentId::from("charlie"), num("2"), text("delta"))
        .unwrap();
    assert_eq!(Some(42), got.total_rows());
    assert_eq!(Some(17), got.offset());
    assert_eq!(Some(99), got.update_sequence_number());
    let expected_path: DocumentPath = "/db/charlie".into_document_path().unwrap();
    assert_eq!(Some(&expected_path), got.rows()[1].document_path());
    assert_eq!(Some(&num("2")), got.rows()[1].key());
}

#[test]
fn view_response_deserialize_ok_unreduced_with_update_seq() {
    let source = obj(vec![
        ("total_rows", num("10")),
        ("offset", num("5")),
        ("update_seq", num("17")),
        ("rows", arr(vec![obj(vec![("id", text("foo")), ("key", text("bar")), ("value", num("42"))])])),
    ]);
    let expected = ViewResponseJsonable {
        total_rows: Some(10),
        offset: Some(5),
        update_seq: Some(17),
        rows: vec![ViewRowJsonable { id: Some(DocumentId::from("foo")), key: Some(text("bar")), value: num("42") }],
    };
    assert_eq!(expected, ViewResponseJsonable::from_json(source).unwrap());
}

#[test]
fn view_row_key_ok_none() {
    let response = ViewResponseBuilder::new_reduced(num("42")).unwrap();
    let row = &response.rows()[0];
    assert_eq!(None, row.key());
    assert!(row.document_path().is_none());
}

#[test]
fn view_row_key_ok_some() {
    let response = ViewResponseBuilder::new_unreduced(DatabaseName::from("db"), 1, 0)
        .with_row(DocumentId::from("doc"), text("foo"), num("42"))
        .unwrap();
    let row = &response.rows()[0];
    assert_eq!(Some(&text("foo")), row.key());
    assert_eq!(Some(&"/db/doc".into_document_path().unwrap()), row.document_path());
}

#[test]
fn view_row_key_nok() {
    let response = ViewResponseBuilder::new_unreduced(DatabaseName::from("db"), 1, 0)
        .with_row(DocumentId::from("doc"), text("foo"), num("42"))
        .unwrap();
    let row = &response.rows()[0];
    assert_eq!(None, row.key().unwrap().as_u64());
}

#[test]
fn view_row_value_ok() {
    let response = ViewResponseBuilder::new_reduced(num("42")).unwrap();
    assert_eq!(Some(42), response.rows()[0].value().as_u64());
}

#[test]
fn view_row_value_nok() {
    let response = ViewResponseBuilder::new_reduced(num("42")).unwrap();
    match response.rows()[0].value() {
        JsonValue::String(_) => panic!("Got a string"),
        _ => (),
    }
}
