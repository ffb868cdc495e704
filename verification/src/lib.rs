mod error;
mod outside;
pub mod json;
pub mod path;
pub mod path_ref;
pub mod revision;
pub mod option;
pub mod attachment;
pub mod document;
pub mod view;
pub mod transport;
pub mod action;
pub mod worker;
pub mod database;
pub mod testing;

pub use error::{Error, ErrorResponse, NokResponse, PathParseError, RevisionParseError};
pub use revision::Revision;
pub use json::JsonValue;
pub use path::{
    AttachmentName, AttachmentPath, DatabaseName, DatabasePath, DatabaseViewPath, DesignDocumentName,
    DesignDocumentPath, DocumentId, DocumentIdKind, DocumentPath, IntoAttachmentName, IntoAttachmentPath,
    IntoDatabasePath, IntoDesignDocumentName, IntoDesignDocumentPath, IntoDocumentId, IntoDocumentPath,
    IntoDatabaseViewPath, IntoViewName, IntoViewPath, LocalDocumentName, NormalDocumentName, PathExtraction, PathExtractor, ViewName,
    ViewPath,
};
pub use path_ref::{
    AttachmentPathIter, AttachmentPathRef, DatabasePathIter, DatabasePathRef, DatabaseViewPathIter,
    DatabaseViewPathRef, DesignDocumentPathIter, DesignDocumentPathRef, DocumentIdRef, DocumentPathIter,
    DocumentPathRef, ViewPathIter, ViewPathRef,
};
pub use option::{
    CreateDatabaseOptions, CreateDocumentOptions, DeleteDocumentOptions, ReadDocumentOptions,
    UpdateDocumentOptions,
};
pub use attachment::{
    Attachment, AttachmentBuilder, AttachmentIsSaved, AttachmentIsUnsaved, ContentType, SavedAttachment,
    SerializableBase64Blob, UnsavedAttachment,
};
pub use document::{Document, DocumentBuilder, JsonDecodableDocument, WriteDocumentResponse};
pub use view::{
    IsGrouped, IsReduced, IsUnreduced, ViewResponse, ViewResponseBuilder, ViewResponseJsonable, ViewRow,
    ViewRowJsonable,
};
pub use transport::{AsQueryKey, AsQueryValue, JsonText, Method, Request};
pub use action::{
    AttachmentContent, CreateDatabase, CreateDocument, DeleteDocument, ExecuteView, GroupLevel, ReadAllDocuments,
    ReadDocument, UpdateDocument, ViewOptions,
};
