use chill::transport::make_url_path;
use chill::{
    AttachmentName, AttachmentPath, AttachmentPathRef, DatabaseName, DatabasePath, DatabasePathRef,
    DatabaseViewPath, DesignDocumentName, DesignDocumentPath, DesignDocumentPathRef, DocumentId, DocumentIdRef,
    DocumentPath, DocumentPathRef, Error, IntoAttachmentPath, IntoDatabasePath, IntoDatabaseViewPath,
    IntoDesignDocumentPath, IntoDocumentPath, IntoViewPath, PathExtractor, PathParseError, ViewName, ViewPath,
    ViewPathRef,
};

fn kind<T: std::fmt::Debug>(r: Result<T, Error>) -> PathParseError {
    match r {
        Err(Error::PathParse { inner }) => inner,
        x => panic!("Got unexpected result {:?}", x),
    }
}

fn segments_of_document(p: &DocumentPath) -> Vec<&str> {
    let mut it = p.as_ref().into_iter();
    let mut v = Vec::new();
    while let Some(x) = it.next() {
        v.push(x);
    }
    v
}

fn segments_of_attachment(p: &AttachmentPath) -> Vec<&str> {
    let mut it = p.as_ref().into_iter();
    let mut v = Vec::new();
    while let Some(x) = it.next() {
        v.push(x);
    }
    v
}

fn segments_of_design_document(p: &DesignDocumentPath) -> Vec<&str> {
    let mut it = p.as_ref().into_iter();
    let mut v = Vec::new();
    while let Some(x) = it.next() {
        v.push(x);
    }
    v
}

fn segments_of_view(p: &ViewPath) -> Vec<&str> {
    let mut it = p.as_ref().into_iter();
    let mut v = Vec::new();
    while let Some(x) = it.next() {
        v.push(x);
    }
    v
}

#[test]
fn percent_encode() {
    assert_eq!("/", make_url_path("", &vec!["".to_string()]));
    assert_eq!("/alpha", make_url_path("", &vec!["alpha".to_string()]));
    assert_eq!("/%2F%20%25%3F", make_url_path("", &vec!["/ %?".to_string()]));
}

#[test]
fn begin() {
    PathExtractor::new("").end().unwrap();
    assert_eq!(PathParseError::NoLeadingSlash, kind(PathExtractor::begin("")));
    assert_eq!(PathParseError::NoLeadingSlash, kind(PathExtractor::begin("alpha")));
    assert_eq!(PathParseError::NoLeadingSlash, kind(PathExtractor::begin("alpha/bravo")));
}

#[test]
fn end() {
    assert_eq!(PathParseError::TrailingSlash, kind(PathExtractor::new("/").end()));
    assert_eq!(PathParseError::TooManySegments, kind(PathExtractor::new("//").end()));
    assert_eq!(PathParseError::TooManySegments, kind(PathExtractor::new("/alpha").end()));
}

#[test]
fn extract_nonempty() {
    for (input, segment, remaining) in vec![("/alpha", "alpha", ""), ("/alpha/", "alpha", "/"), ("/alpha/bravo", "alpha", "/bravo")] {
        let mut p = PathExtractor::begin(input).unwrap();
        assert_eq!(segment, p.extract_nonempty().unwrap());
        assert_eq!(remaining, p.remaining());
    }
    for (input, expected) in vec![
        ("", PathParseError::TooFewSegments),
        ("/", PathParseError::TooFewSegments),
        ("//", PathParseError::EmptySegment),
        ("//alpha", PathParseError::EmptySegment),
    ] {
        let mut p = PathExtractor::new(input);
        assert_eq!(expected, kind(p.extract_nonempty()));
        assert_eq!(input, p.remaining());
    }
}

#[test]
fn extract_literal() {
    for (input, literal, remaining) in vec![("/alpha", "alpha", ""), ("/alpha/", "alpha", "/"), ("/alpha/bravo", "alpha", "/bravo")] {
        let mut p = PathExtractor::begin(input).unwrap();
        p.extract_literal(literal).unwrap();
        assert_eq!(remaining, p.remaining());
    }
    for (input, literal, expected) in vec![
        ("", "alpha", PathParseError::TooFewSegments),
        ("/", "alpha", PathParseError::TooFewSegments),
        ("//", "alpha", PathParseError::BadSegment("alpha")),
        ("//alpha", "alpha", PathParseError::BadSegment("alpha")),
        ("/alpha/bravo", "bravo", PathParseError::BadSegment("bravo")),
    ] {
        let mut p = PathExtractor::new(input);
        assert_eq!(expected, kind(p.extract_literal(literal)));
        assert_eq!(input, p.remaining());
    }
}

#[test]
fn path_static_str_ref_ok() {
    let expected = DatabasePath::from(DatabaseName::from("alpha"));
    assert_eq!(expected, "/alpha".into_database_path().unwrap());
    let expected = ViewPath::from((DatabaseName::from("alpha"), DesignDocumentName::from("bravo"), ViewName::from("charlie")));
    assert_eq!(expected, "/alpha/_design/bravo/_view/charlie".into_view_path().unwrap());
}

#[test]
fn path_static_str_ref_nok() {
    // Database paths.
    for (input, expected) in vec![
        ("", PathParseError::NoLeadingSlash),
        ("/", PathParseError::TooFewSegments),
        ("/alpha/", PathParseError::TrailingSlash),
        ("/alpha/bravo", PathParseError::TooManySegments),
    ] {
        assert_eq!(expected, kind(input.into_database_path()), "{:?}", input);
    }
    // Document paths.
    for (input, expected) in vec![
        ("", PathParseError::NoLeadingSlash),
        ("/", PathParseError::TooFewSegments),
        ("/alpha/", PathParseError::TooFewSegments),
        ("/alpha/bravo/", PathParseError::TrailingSlash),
        ("/alpha/bravo/charlie", PathParseError::TooManySegments),
        ("/alpha/_design", PathParseError::TooFewSegments),
        ("/alpha/_design/", PathParseError::TooFewSegments),
        ("/alpha/_local", PathParseError::TooFewSegments),
        ("/alpha/_local/", PathParseError::TooFewSegments),
    ] {
        assert_eq!(expected, kind(input.into_document_path()), "{:?}", input);
    }
    // Design document paths.
    for (input, expected) in vec![
        ("", PathParseError::NoLeadingSlash),
        ("alpha/_design/bravo", PathParseError::NoLeadingSlash),
        ("//alpha/_design/bravo", PathParseError::EmptySegment),
        ("/alpha//_design/bravo", PathParseError::BadSegment("_design")),
        ("/alpha/_design//bravo", PathParseError::EmptySegment),
        ("/alpha/_design/bravo/", PathParseError::TrailingSlash),
        ("/", PathParseError::TooFewSegments),
        ("/alpha", PathParseError::TooFewSegments),
        ("/alpha/_local", PathParseError::BadSegment("_design")),
        ("/alpha/_design", PathParseError::TooFewSegments),
        ("/alpha/_design/", PathParseError::TooFewSegments),
        ("/alpha/_design/bravo/charlie", PathParseError::TooManySegments),
    ] {
        assert_eq!(expected, kind(input.into_design_document_path()), "{:?}", input);
    }
    // Attachment paths.
    for (input, expected) in vec![
        ("", PathParseError::NoLeadingSlash),
        ("/", PathParseError::TooFewSegments),
        ("/alpha/", PathParseError::TooFewSegments),
        ("/alpha/bravo/", PathParseError::TooFewSegments),
        ("/alpha/bravo/charlie/", PathParseError::TrailingSlash),
        ("/alpha/bravo/charlie/delta", PathParseError::TooManySegments),
        ("/alpha/_design", PathParseError::TooFewSegments),
        ("/alpha/_design/", PathParseError::TooFewSegments),
        ("/alpha/_design/bravo", PathParseError::TooFewSegments),
        ("/alpha/_local", PathParseError::TooFewSegments),
        ("/alpha/_local/", PathParseError::TooFewSegments),
        ("/alpha/_local/bravo", PathParseError::TooFewSegments),
    ] {
        assert_eq!(expected, kind(input.into_attachment_path()), "{:?}", input);
    }
    // View paths.
    for (input, expected) in vec![
        ("", PathParseError::NoLeadingSlash),
        ("/", PathParseError::TooFewSegments),
        ("/alpha", PathParseError::TooFewSegments),
        ("/alpha/", PathParseError::TooFewSegments),
        ("/alpha/_design", PathParseError::TooFewSegments),
        ("/alpha/_design/", PathParseError::TooFewSegments),
        ("/alpha/_design/bravo", PathParseError::TooFewSegments),
        ("/alpha/_design/bravo/", PathParseError::TooFewSegments),
        ("/alpha/_design/bravo/_view", PathParseError::TooFewSegments),
        ("/alpha/_design/bravo/_view/", PathParseError::TooFewSegments),
        ("/alpha/_design/bravo/_view/charlie/", PathParseError::TrailingSlash),
        ("/alpha/_design/bravo/_view/charlie/delta", PathParseError::TooManySegments),
        ("/alpha/_local/bravo/_view/charlie/", PathParseError::BadSegment("_design")),
        ("/alpha/bravo/_view/charlie/", PathParseError::BadSegment("_design")),
        ("/alpha/_design/bravo/invalid/charlie", PathParseError::BadSegment("_view")),
        ("/alpha/_design/bravo/charlie", PathParseError::BadSegment("_view")),
    ] {
        assert_eq!(expected, kind(input.into_view_path()), "{:?}", input);
    }
}

#[test]
fn path_static_str_ref_ok_normal() {
    let expected = DocumentPath::new(DatabaseName::from("alpha"), DocumentId::from("bravo"));
    assert_eq!(expected, "/alpha/bravo".into_document_path().unwrap());
    let expected = AttachmentPath::from((DatabaseName::from("alpha"), DocumentId::from("bravo"), AttachmentName::from("charlie")));
    assert_eq!(expected, "/alpha/bravo/charlie".into_attachment_path().unwrap());
}

#[test]
fn path_static_str_ref_ok_design() {
    let expected = DocumentPath::new(DatabaseName::from("alpha"), DocumentId::from("_design/bravo"));
    assert_eq!(expected, "/alpha/_design/bravo".into_document_path().unwrap());
    let expected = AttachmentPath::from((
        DatabaseName::from("alpha"),
        DocumentId::from("_design/bravo"),
        AttachmentName::from("charlie"),
    ));
    assert_eq!(expected, "/alpha/_design/bravo/charlie".into_attachment_path().unwrap());
}

#[test]
fn path_static_str_ref_ok_local() {
    let expected = DocumentPath::new(DatabaseName::from("alpha"), DocumentId::from("_local/bravo"));
    assert_eq!(expected, "/alpha/_local/bravo".into_document_path().unwrap());
    let expected = AttachmentPath::from((
        DatabaseName::from("alpha"),
        DocumentId::from("_local/bravo"),
        AttachmentName::from("charlie"),
    ));
    assert_eq!(expected, "/alpha/_local/bravo/charlie".into_attachment_path().unwrap());
}

#[test]
fn path_from_static_str_ref_ok() {
    let expected = DesignDocumentPath::new(DatabaseName::from("alpha"), DesignDocumentName::from("bravo"));
    assert_eq!(expected, "/alpha/_design/bravo".into_design_document_path().unwrap());
}

#[test]
fn attachment_path_into_iter_normal() {
    let att_path = "/foo/bar/qux".into_attachment_path().unwrap();
    assert_eq!(vec!["foo", "bar", "qux"], segments_of_attachment(&att_path));
}

#[test]
fn attachment_path_into_iter_design() {
    let att_path = "/foo/_design/bar/qux".into_attachment_path().unwrap();
    assert_eq!(vec!["foo", "_design", "bar", "qux"], segments_of_attachment(&att_path));
}

#[test]
fn attachment_path_into_iter_local() {
    let att_path = "/foo/_local/bar/qux".into_attachment_path().unwrap();
    assert_eq!(vec!["foo", "_local", "bar", "qux"], segments_of_attachment(&att_path));
}

fn attachment_ref<'a>(db: &'a str, doc: &'a str, att: &'a str) -> AttachmentPathRef<'a> {
    AttachmentPathRef::from(DocumentPathRef::from(db, DocumentIdRef::from(doc)), att)
}

#[test]
fn attachment_path_from_static_str_ref_ok_normal() {
    let got = "/foo/bar/qux".into_attachment_path().unwrap();
    assert_eq!(attachment_ref("foo", "bar", "qux"), got.as_ref());
}

#[test]
fn attachment_path_from_static_str_ref_ok_design() {
    let got = "/foo/_design/bar/qux".into_attachment_path().unwrap();
    assert_eq!(attachment_ref("foo", "_design/bar", "qux"), got.as_ref());
}

#[test]
fn attachment_path_from_static_str_ref_ok_local() {
    let got = "/foo/_local/bar/qux".into_attachment_path().unwrap();
    assert_eq!(attachment_ref("foo", "_local/bar", "qux"), got.as_ref());
}

#[test]
fn attachment_path_from_tuple_2_of_static_str_refs() {
    let got = ("/foo/bar", "qux").into_attachment_path().unwrap();
    assert_eq!(attachment_ref("foo", "bar", "qux"), got.as_ref());
}

#[test]
fn attachment_path_from_tuple_3_of_static_str_refs() {
    let got = ("/foo", "bar", "qux").into_attachment_path().unwrap();
    assert_eq!(attachment_ref("foo", "bar", "qux"), got.as_ref());
}

#[test]
fn database_path_from_static_str_ref_ok() {
    let got = "/foo".into_database_path().unwrap();
    assert_eq!(DatabasePathRef::from("foo"), got.as_ref());
}

#[test]
fn database_view_path_into_iter() {
    let view_path: DatabaseViewPath = "/foo/_all_docs".into_database_view_path().unwrap();
    assert_eq!(vec!["foo", "_all_docs"], view_path.iter());
    let r = view_path.as_ref();
    let mut it = r.into_iter();
    let mut got = Vec::new();
    while let Some(x) = it.next() {
        got.push(x);
    }
    assert_eq!(vec!["foo", "_all_docs"], got);
}

#[test]
fn design_document_path_into_iter() {
    let ddoc_path = "/foo/_design/bar".into_design_document_path().unwrap();
    assert_eq!(vec!["foo", "_design", "bar"], segments_of_design_document(&ddoc_path));
}

#[test]
fn design_document_path_from_static_str_ref_ok() {
    let got = "/foo/_design/bar".into_design_document_path().unwrap();
    assert_eq!(DesignDocumentPathRef::from("foo", "bar"), got.as_ref());
}

#[test]
fn design_document_path_from_static_str_ref_nok_bad_design_prefix() {
    assert_eq!(PathParseError::BadSegment("_design"), kind("/foo/invalid/bar".into_design_document_path()));
}

#[test]
fn design_document_path_from_tuple_of_static_str_refs() {
    let got = ("/foo", "bar").into_design_document_path().unwrap();
    assert_eq!(DesignDocumentPathRef::from("foo", "bar"), got.as_ref());
}

#[test]
fn document_id_ref_from_str_ref_normal() {
    assert_eq!(DocumentIdRef::Normal("foo"), DocumentIdRef::from("foo"));
}

#[test]
fn document_id_ref_from_str_ref_design() {
    assert_eq!(DocumentIdRef::Design("foo"), DocumentIdRef::from("_design/foo"));
}

#[test]
fn document_id_ref_from_str_ref_local() {
    assert_eq!(DocumentIdRef::Local("foo"), DocumentIdRef::from("_local/foo"));
}

#[test]
fn document_id_ref_from_str_ref_invalid() {
    assert_eq!(DocumentIdRef::Normal("_design"), DocumentIdRef::from("_design"));
}

#[test]
fn document_path_into_iter_normal() {
    let doc_path = "/foo/bar".into_document_path().unwrap();
    assert_eq!(vec!["foo", "bar"], segments_of_document(&doc_path));
}

#[test]
fn document_path_into_iter_design() {
    let doc_path = "/foo/_design/bar".into_document_path().unwrap();
    assert_eq!(vec!["foo", "_design", "bar"], segments_of_document(&doc_path));
}

#[test]
fn document_path_into_iter_local() {
    let doc_path = "/foo/_local/bar".into_document_path().unwrap();
    assert_eq!(vec!["foo", "_local", "bar"], segments_of_document(&doc_path));
}

#[test]
fn document_path_from_static_str_ref_ok_normal() {
    let got = "/foo/bar".into_document_path().unwrap();
    assert_eq!(DocumentPathRef::from("foo", DocumentIdRef::from("bar")), got.as_ref());
}

#[test]
fn document_path_from_static_str_ref_ok_design() {
    let got = "/foo/_design/bar".into_document_path().unwrap();
    assert_eq!(DocumentPathRef::from("foo", DocumentIdRef::from("_design/bar")), got.as_ref());
}

#[test]
fn document_path_from_static_str_ref_ok_local() {
    let got = "/foo/_local/bar".into_document_path().unwrap();
    assert_eq!(DocumentPathRef::from("foo", DocumentIdRef::from("_local/bar")), got.as_ref());
}

#[test]
fn from_static_str_ref_nok_with_unexpected_prefix() {
    assert_eq!(PathParseError::TooManySegments, kind("/foo/_bad_prefix/bar".into_document_path()));
}

#[test]
fn document_path_from_tuple_of_static_str_refs() {
    let got = ("/foo", "_design/bar").into_document_path().unwrap();
    assert_eq!(DocumentPathRef::from("foo", DocumentIdRef::from("_design/bar")), got.as_ref());
}

#[test]
fn nonfinal_nok_is_empty_string() {
    assert_eq!(PathParseError::NoLeadingSlash, kind(PathExtractor::new("").extract_nonfinal()));
}

#[test]
fn nonfinal_nok_has_no_leading_slash() {
    assert_eq!(PathParseError::NoLeadingSlash, kind(PathExtractor::new("foo/bar").extract_nonfinal()));
}

#[test]
fn nonfinal_nok_is_final() {
    assert_eq!(PathParseError::TooFewSegments, kind(PathExtractor::new("/foo").extract_nonfinal()));
}

#[test]
fn nonfinal_nok_is_empty_segment() {
    assert_eq!(PathParseError::EmptySegment, kind(PathExtractor::new("//foo").extract_nonfinal()));
}

#[test]
fn final_nok_is_empty_string() {
    assert_eq!(PathParseError::NoLeadingSlash, kind(PathExtractor::new("").extract_final()));
}

#[test]
fn final_nok_is_empty_segment() {
    assert_eq!(PathParseError::EmptySegment, kind(PathExtractor::new("/").extract_final()));
}

#[test]
fn final_nok_has_extra_segment() {
    assert_eq!(PathParseError::TooManySegments, kind(PathExtractor::new("/foo/bar").extract_final()));
}

#[test]
fn final_nok_has_trailing_slash() {
    assert_eq!(PathParseError::TrailingSlash, kind(PathExtractor::new("/foo/").extract_final()));
}

#[test]
fn view_path_into_iter() {
    let view_path = "/foo/_design/bar/_view/qux".into_view_path().unwrap();
    assert_eq!(vec!["foo", "_design", "bar", "_view", "qux"], segments_of_view(&view_path));
}

fn view_ref<'a>(db: &'a str, ddoc: &'a str, view: &'a str) -> ViewPathRef<'a> {
    ViewPathRef::from(DesignDocumentPathRef::from(db, ddoc), view)
}

#[test]
fn view_path_from_static_str_ref_ok() {
    let got = "/foo/_design/bar/_view/qux".into_view_path().unwrap();
    assert_eq!(view_ref("foo", "bar", "qux"), got.as_ref());
}

#[test]
fn view_path_from_static_str_ref_nok_bad_design_prefix() {
    assert_eq!(PathParseError::BadSegment("_design"), kind("/foo/invalid/bar/_view/qux".into_view_path()));
}

#[test]
fn from_static_str_ref_nok_bad_view_prefix() {
    assert_eq!(PathParseError::BadSegment("_view"), kind("/foo/_design/bar/invalid/qux".into_view_path()));
}

#[test]
fn view_path_from_tuple_2_of_static_str_refs() {
    let got = ("/foo/_design/bar", "qux").into_view_path().unwrap();
    assert_eq!(view_ref("foo", "bar", "qux"), got.as_ref());
}

#[test]
fn view_path_from_tuple_3_of_static_str_refs() {
    let got = ("/foo", "bar", "qux").into_view_path().unwrap();
    assert_eq!(view_ref("foo", "bar", "qux"), got.as_ref());
}
