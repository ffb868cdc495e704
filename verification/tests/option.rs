use chill::{CreateDocumentOptions, DocumentId};

#[test]
fn create_document_with_document_id() {
    let expected = Some(DocumentId::from("document_id"));
    let got = CreateDocumentOptions::new().with_document_id("document_id");
    assert_eq!(&expected, got.document_id());
}
