//! Options for actions on documents and databases.
use vstd::prelude::*;
use crate::path::{DocumentId, DocumentIdKind, IntoDocumentId};

verus! {

/// Options for creating a database. There are none yet.
#[derive(Debug, PartialEq)]
pub struct CreateDatabaseOptions;

impl Default for CreateDatabaseOptions {
    fn default() -> (r: Self) {
        CreateDatabaseOptions
    }
}

/// Options for creating a document: the document id to use, if the server
/// is not to choose one.
#[derive(Debug, PartialEq)]
pub struct CreateDocumentOptions {
    doc_id: Option<DocumentId>,
}

impl View for CreateDocumentOptions {
    type V = Option<(DocumentIdKind, Seq<char>)>;

    closed spec fn view(&self) -> Option<(DocumentIdKind, Seq<char>)> {
        match self.doc_id {
            Some(id) => Some(id@),
            None => None,
        }
    }
}

impl Default for CreateDocumentOptions {
    fn default() -> (r: Self)
        ensures
            r@ is None,
    {
        CreateDocumentOptions { doc_id: None }
    }
}

impl CreateDocumentOptions {
    /// Constructs options that leave the document id to the server.
    pub fn new() -> (r: Self)
        ensures
            r@ is None,
    {
        CreateDocumentOptions { doc_id: None }
    }

    /// Sets the document id to use.
    pub fn with_document_id<D: IntoDocumentId>(self, doc_id: D) -> (r: Self)
        ensures
            r@ == Some(doc_id.document_id_view()),
    {
        CreateDocumentOptions { doc_id: Some(doc_id.into_document_id()) }
    }

    /// Returns the document id to use, if any.
    pub fn document_id(&self) -> (r: &Option<DocumentId>)
        ensures
            match r {
                Some(id) => self@ == Some(id@),
                None => self@ is None,
            },
    {
        &self.doc_id
    }
}

/// Options for deleting a document. There are none yet.
#[derive(Debug, PartialEq)]
pub struct DeleteDocumentOptions;

impl Default for DeleteDocumentOptions {
    fn default() -> (r: Self) {
        DeleteDocumentOptions
    }
}

/// Options for reading a document. There are none yet.
#[derive(Debug, PartialEq)]
pub struct ReadDocumentOptions;

impl Default for ReadDocumentOptions {
    fn default() -> (r: Self) {
        ReadDocumentOptions
    }
}

/// Options for updating a document. There are none yet.
#[derive(Debug, PartialEq)]
pub struct UpdateDocumentOptions;

impl Default for UpdateDocumentOptions {
    fn default() -> (r: Self) {
        UpdateDocumentOptions
    }
}

} // verus!
