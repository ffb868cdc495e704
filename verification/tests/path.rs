use chill::{
    AttachmentName, AttachmentPath, DatabaseName, DatabasePath, DatabasePathRef, DatabaseViewPath,
    DesignDocumentName, DesignDocumentPath, DocumentId, DocumentIdRef, DocumentPath, Error, IntoDatabasePath, IntoDatabaseViewPath,
    IntoDocumentPath, IntoViewPath, LocalDocumentName, NormalDocumentName, PathExtraction, PathExtractor,
    PathParseError, ViewName, ViewPath,
};

fn parse_error_kind<T: std::fmt::Debug>(r: Result<T, Error>) -> PathParseError {
    match r {
        Err(Error::PathParse { inner }) => inner,
        x => panic!("Got unexpected result {:?}", x),
    }
}

#[test]
fn from_normal() {
    let expected = DocumentId::Normal(NormalDocumentName::from("alpha"));
    let got = DocumentId::from("alpha");
    assert_eq!(expected, got);
}

#[test]
fn from_design() {
    let expected = DocumentId::Design(DesignDocumentName::from("alpha"));
    let got = DocumentId::from("_design/alpha");
    assert_eq!(expected, got);
}

#[test]
fn from_local() {
    let expected = DocumentId::Local(LocalDocumentName::from("alpha"));
    let got = DocumentId::from("_local/alpha");
    assert_eq!(expected, got);
}

#[test]
fn prefix_normal() {
    assert_eq!(None, DocumentId::from("alpha").prefix());
}

#[test]
fn prefix_design() {
    assert_eq!(Some("_design"), DocumentId::from("_design/alpha").prefix());
}

#[test]
fn prefix_local() {
    assert_eq!(Some("_local"), DocumentId::from("_local/alpha").prefix());
}

#[test]
fn display_normal() {
    let expected = "alpha";
    let got = DocumentId::from("alpha").to_string();
    assert_eq!(expected, got);
}

#[test]
fn display_design() {
    let expected = "_design/alpha";
    let got = DocumentId::from("_design/alpha").to_string();
    assert_eq!(expected, got);
}

#[test]
fn display_local() {
    let expected = "_local/alpha";
    let got = DocumentId::from("_local/alpha").to_string();
    assert_eq!(expected, got);
}

#[test]
fn percent_encoded_normal() {
    let expected = "alpha%2F%25%20bravo";
    let got = DocumentId::from("alpha/% bravo").percent_encoded();
    assert_eq!(expected, got);
}

#[test]
fn percent_encoded_design() {
    let expected = "_design/alpha%2F%25%20bravo";
    let got = DocumentId::from("_design/alpha/% bravo").percent_encoded();
    assert_eq!(expected, got);
}

#[test]
fn percent_encoded_local() {
    let expected = "_local/alpha%2F%25%20bravo";
    let got = DocumentId::from("_local/alpha/% bravo").percent_encoded();
    assert_eq!(expected, got);
}

#[test]
fn path_iter() {
    let db_path = DatabasePath::from(DatabaseName::from("alpha"));
    let expected = vec!["alpha"];
    assert_eq!(expected, db_path.iter());
}

#[test]
fn path_display() {
    let expected = "/alpha%2F%25%20bravo";
    let got = DatabasePath::from(DatabaseName::from("alpha/% bravo")).to_string();
    assert_eq!(expected, got);
}

#[test]
fn path_iter_normal() {
    let doc_path = DocumentPath::new(DatabaseName::from("alpha"), DocumentId::from("bravo"));
    let expected = vec!["alpha", "bravo"];
    assert_eq!(expected, doc_path.iter());
}

#[test]
fn path_iter_design() {
    let doc_path = DocumentPath::new(DatabaseName::from("alpha"), DocumentId::from("_design/bravo"));
    let expected = vec!["alpha", "_design", "bravo"];
    assert_eq!(expected, doc_path.iter());
}

#[test]
fn path_iter_local() {
    let doc_path = DocumentPath::new(DatabaseName::from("alpha"), DocumentId::from("_local/bravo"));
    let expected = vec!["alpha", "_local", "bravo"];
    assert_eq!(expected, doc_path.iter());
}

#[test]
fn document_path_display() {
    let expected = "/alpha%2F%25%20bravo/_design/charlie%2F%25%20delta";
    let doc_path = DocumentPath::from((
        DatabaseName::from("alpha/% bravo"),
        DocumentId::from("_design/charlie/% delta"),
    ));
    assert_eq!(expected, doc_path.to_string());
}

#[test]
fn design_document_path_iter() {
    let ddoc_path = DesignDocumentPath::new(DatabaseName::from("alpha"), DesignDocumentName::from("bravo"));
    let expected = vec!["alpha", "_design", "bravo"];
    assert_eq!(expected, ddoc_path.iter());
}

#[test]
fn design_document_path_display() {
    let expected = "/alpha%2F%25%20bravo/_design/charlie%2F%25%20delta";
    let ddoc_path = DesignDocumentPath::from((
        DatabaseName::from("alpha/% bravo"),
        DesignDocumentName::from("charlie/% delta"),
    ));
    assert_eq!(expected, ddoc_path.to_string());
}

#[test]
fn attachment_path_iter_normal() {
    let att_path = AttachmentPath::from((
        DatabaseName::from("alpha"),
        DocumentId::Normal(NormalDocumentName::from("bravo")),
        AttachmentName::from("charlie"),
    ));
    let expected = vec!["alpha", "bravo", "charlie"];
    assert_eq!(expected, att_path.iter());
}

#[test]
fn attachment_path_iter_design() {
    let att_path = AttachmentPath::from((
        DatabaseName::from("alpha"),
        DocumentId::Design(DesignDocumentName::from("bravo")),
        AttachmentName::from("charlie"),
    ));
    let expected = vec!["alpha", "_design", "bravo", "charlie"];
    assert_eq!(expected, att_path.iter());
}

#[test]
fn attachment_path_iter_local() {
    let att_path = AttachmentPath::from((
        DatabaseName::from("alpha"),
        DocumentId::Local(LocalDocumentName::from("bravo")),
        AttachmentName::from("charlie"),
    ));
    let expected = vec!["alpha", "_local", "bravo", "charlie"];
    assert_eq!(expected, att_path.iter());
}

#[test]
fn attachment_path_display() {
    let expected = "/alpha%2F%25%20bravo/_design/charlie%2F%25%20delta/echo%2F%25%20foxtrot";
    let att_path = AttachmentPath::from((
        DatabaseName::from("alpha/% bravo"),
        DocumentId::from("_design/charlie/% delta"),
        AttachmentName::from("echo/% foxtrot"),
    ));
    assert_eq!(expected, att_path.to_string());
}

#[test]
fn view_path_iter() {
    let view_path = ViewPath::from((
        DatabaseName::from("alpha"),
        DesignDocumentName::from("bravo"),
        ViewName::from("charlie"),
    ));
    let expected = vec!["alpha", "_design", "bravo", "_view", "charlie"];
    assert_eq!(expected, view_path.iter());
}

#[test]
fn view_path_display() {
    let expected = "/alpha%2F%25%20bravo/_design/charlie%2F%25%20delta/echo%2F%25%20foxtrot";
    let view_path = ViewPath::from((
        DatabaseName::from("alpha/% bravo"),
        DesignDocumentName::from("charlie/% delta"),
        ViewName::from("echo/% foxtrot"),
    ));
    assert_eq!(expected, view_path.to_string());
}

#[test]
fn database_path_into_iter() {
    let db_path = DatabasePathRef::from("foo");
    let expected = vec!["foo"];
    let mut it = db_path.into_iter();
    let mut got = Vec::new();
    while let Some(x) = it.next() {
        got.push(x);
    }
    assert_eq!(expected, got);
}

#[test]
fn any_ok() {
    let p = PathExtractor::new("/foo/bar/qux");
    let p = match p.extract_any() {
        Ok(PathExtraction::Nonfinal(p, "foo")) => p,
        x => panic!("Got unexpected result {:?}", x),
    };
    let p = match p.extract_any() {
        Ok(PathExtraction::Nonfinal(p, "bar")) => p,
        x => panic!("Got unexpected result {:?}", x),
    };
    match p.extract_any() {
        Ok(PathExtraction::Final("qux")) => (),
        x => panic!("Got unexpected result {:?}", x),
    }
}

#[test]
fn final_and_nonfinal_ok() {
    let mut p = PathExtractor::new("/foo/bar/qux");
    assert_eq!("foo", p.extract_nonfinal().unwrap());
    assert_eq!("bar", p.extract_nonfinal().unwrap());
    assert_eq!("qux", p.extract_final().unwrap());
}

#[test]
fn extract_final_errors() {
    assert_eq!(PathParseError::NoLeadingSlash, parse_error_kind(PathExtractor::new("foo").extract_final()));
    assert_eq!(PathParseError::TrailingSlash, parse_error_kind(PathExtractor::new("/foo/").extract_final()));
    assert_eq!(PathParseError::TooManySegments, parse_error_kind(PathExtractor::new("/foo/bar").extract_final()));
    assert_eq!(PathParseError::EmptySegment, parse_error_kind(PathExtractor::new("/").extract_final()));
}

#[test]
fn extract_nonfinal_errors() {
    assert_eq!(PathParseError::NoLeadingSlash, parse_error_kind(PathExtractor::new("foo/bar").extract_nonfinal()));
    assert_eq!(PathParseError::TooFewSegments, parse_error_kind(PathExtractor::new("/foo").extract_nonfinal()));
    assert_eq!(PathParseError::EmptySegment, parse_error_kind(PathExtractor::new("//foo").extract_nonfinal()));
}

#[test]
fn database_path_parse() {
    let p = "/foo".into_database_path().unwrap();
    assert_eq!("foo", p.database_name().as_str());
    assert_eq!(PathParseError::NoLeadingSlash, parse_error_kind("foo".into_database_path()));
    assert_eq!(PathParseError::TooManySegments, parse_error_kind("/foo/bar".into_database_path()));
    assert_eq!(PathParseError::TrailingSlash, parse_error_kind("/foo/".into_database_path()));
}

#[test]
fn document_path_parse() {
    let p = "/foo/_design/bar".into_document_path().unwrap();
    assert_eq!("foo", p.database_name().as_str());
    assert_eq!("_design/bar", p.document_id().to_string());
    let p = "/foo/bar".into_document_path().unwrap();
    assert_eq!(DocumentId::from("bar"), *p.document_id());
    assert_eq!(PathParseError::TooFewSegments, parse_error_kind("/foo".into_document_path()));
    assert_eq!(PathParseError::TooManySegments, parse_error_kind("/foo/bar/qux".into_document_path()));
}

#[test]
fn document_path_from_parts() {
    let p = ("/foo", "bar/qux").into_document_path().unwrap();
    assert_eq!("/foo/bar%2Fqux", p.to_string());
}

#[test]
fn view_path_parse() {
    let p = "/foo/_design/bar/_view/qux".into_view_path().unwrap();
    assert_eq!("foo", p.database_name().as_str());
    assert_eq!("bar", p.design_document_name().as_str());
    assert_eq!("qux", p.view_name().as_str());
    match "/foo/_design/bar/_show/qux".into_view_path() {
        Err(Error::PathParse { inner: PathParseError::BadSegment("_view") }) => (),
        x => panic!("Got unexpected result {:?}", x),
    }
}

#[test]
fn database_view_path_parse_and_iter() {
    let p = DatabaseViewPath::parse("/foo/_all_docs").unwrap();
    assert_eq!(vec!["foo", "_all_docs"], p.iter());
    let mut it = p.as_ref().into_iter();
    assert_eq!(Some("foo"), it.next());
    assert_eq!(Some("_all_docs"), it.next());
    assert_eq!(None, it.next());
    assert_eq!(PathParseError::TooFewSegments, parse_error_kind(DatabaseViewPath::parse("/foo")));
}

#[test]
fn document_id_ref_from_str() {
    assert_eq!(DocumentIdRef::Normal("foo"), DocumentIdRef::from("foo"));
    assert_eq!(DocumentIdRef::Design("foo"), DocumentIdRef::from("_design/foo"));
    assert_eq!(DocumentIdRef::Local("foo"), DocumentIdRef::from("_local/foo"));
    assert_eq!(DocumentIdRef::Normal("_design"), DocumentIdRef::from("_design"));
    assert_eq!(DocumentId::from("_local/foo"), DocumentIdRef::from("_local/foo").into_owned());
}

#[test]
fn document_path_ref_walk() {
    let doc_path = DocumentPath::new(DatabaseName::from("alpha"), DocumentId::from("_design/bravo"));
    let mut it = doc_path.as_ref().into_iter();
    assert_eq!(Some("alpha"), it.next());
    assert_eq!(Some("_design"), it.next());
    assert_eq!(Some("bravo"), it.next());
    assert_eq!(None, it.next());
    assert_eq!(None, it.next());
}

#[test]
fn attachment_path_ref_walk() {
    let att_path = AttachmentPath::from((
        DatabaseName::from("alpha"),
        DocumentId::from("bravo"),
        AttachmentName::from("charlie"),
    ));
    let r = att_path.as_ref();
    assert_eq!(DocumentIdRef::Normal("bravo"), r.document_id());
    let mut it = r.into_iter();
    assert_eq!(Some("alpha"), it.next());
    assert_eq!(Some("bravo"), it.next());
    assert_eq!(Some("charlie"), it.next());
    assert_eq!(None, it.next());
}

#[test]
fn view_path_ref_walk() {
    let view_path = ViewPath::from((
        DatabaseName::from("alpha"),
        DesignDocumentName::from("bravo"),
        ViewName::from("charlie"),
    ));
    let mut it = view_path.as_ref().into_iter();
    let mut got = Vec::new();
    while let Some(x) = it.next() {
        got.push(x);
    }
    assert_eq!(vec!["alpha", "_design", "bravo", "_view", "charlie"], got);
}

#[test]
fn design_document_path_ref_walk() {
    let p = DesignDocumentPath::new(DatabaseName::from("alpha"), DesignDocumentName::from("bravo"));
    let r = p.as_ref();
    assert_eq!("alpha", r.database_name());
    assert_eq!("bravo", r.design_document_name());
    let mut it = r.into_iter();
    assert_eq!(Some("alpha"), it.next());
    assert_eq!(Some("_design"), it.next());
    assert_eq!(Some("bravo"), it.next());
    assert_eq!(None, it.next());
}

#[test]
fn database_view_path_from_static_str_ref_ok() {
    let expected = DatabaseViewPath::new(DatabaseName::from("foo"), ViewName::from("_all_docs"));
    assert_eq!(expected, "/foo/_all_docs".into_database_view_path().unwrap());
    assert_eq!(PathParseError::TrailingSlash, parse_error_kind("/foo/_all_docs/".into_database_view_path()));
}

#[test]
fn database_view_path_from_tuple_of_static_str_refs() {
    let expected = DatabaseViewPath::new(DatabaseName::from("foo"), ViewName::from("_all_docs"));
    assert_eq!(expected, ("/foo", "_all_docs").into_database_view_path().unwrap());
    assert_eq!(PathParseError::NoLeadingSlash, parse_error_kind(("foo", "_all_docs").into_database_view_path()));
}
