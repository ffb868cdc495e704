//! The actions that a client performs on a CouchDB server. Each action
//! makes the request to send, and reads the server's response: its status
//! and its JSON content (or why that content could not be read as JSON).
use vstd::prelude::*;
use crate::document::{
    Document, DocumentModel, JsonDecodableDocument, WriteDocumentResponse, attachment_map, decoded_document_matches,
    document_json_matches, document_of_json, write_response_of_json,
};
use crate::error::{Error, ErrorResponse};
use crate::json::{JsonModel, JsonValue, entries_model, json_model};
use crate::path::{
    DatabaseName, DatabasePath, DatabaseViewPath, DocumentId, DocumentIdKind, DocumentPath, IntoDatabasePath, IntoDocumentId, ViewName,
    IntoDocumentPath, IntoViewPath, database_path_segments, database_view_path_segments, document_path_segments,
    parse_error, view_path_segments,
};
use crate::revision::{Revision, revision_text};
use crate::transport::{
    AttachmentsQueryKey, DescendingQueryKey, EndKeyQueryKey, GroupLevelQueryKey, GroupQueryKey,
    IncludeDocsQueryKey, InclusiveEndQueryKey, JsonText, LimitQueryKey, Method, ReduceQueryKey, Request,
    RequestModel, RevisionQueryKey, STATUS_CONFLICT, STATUS_CREATED, STATUS_NOT_FOUND, STATUS_OK,
    STATUS_PRECONDITION_FAILED, STATUS_UNAUTHORIZED, StartKeyQueryKey, bool_text, error_body_matches,
    is_server_error, server_error, decode_error_body,
};
use crate::revision::decimal_text;
use crate::view::{
    ResponseFields, RowFields, ViewResponse, ViewResponseJsonable, ViewResponseModel, ViewRowModel, response_of_json,
};

verus! {

/// A request asking for JSON, of a method to a path, with the given query
/// pairs and content.
pub open spec fn json_request(
    method: Method,
    path: Seq<Seq<char>>,
    query: Seq<(Seq<char>, Seq<char>)>,
    body: Option<JsonModel>,
) -> RequestModel {
    RequestModel { method: method, path: path, query: query, accept_json: true, body: body }
}

// ------------------------------------------------------------------------
// Creating a database

/// Creates a database.
pub struct CreateDatabase<P: IntoDatabasePath> {
    db_path: P,
}

impl<P: IntoDatabasePath> CreateDatabase<P> {
    /// The path of the database to create.
    pub closed spec fn target(&self) -> P {
        self.db_path
    }

    /// Starts the action of creating the database at a path.
    pub fn new(db_path: P) -> (r: Self)
        ensures
            r.target() == db_path,
    {
        CreateDatabase { db_path }
    }

    /// Makes the request: a `PUT` to the database path.
    pub fn make_request(self) -> (r: Result<Request, Error>)
        ensures
            match self.target().database_path_result() {
                Ok(p) => r matches Ok(q) && q@ == json_request(Method::Put, database_path_segments(p), Seq::empty(), None),
                Err(k) => r matches Err(e) && e == parse_error(k),
            },
    {
        let db_path = self.db_path.into_database_path()?;
        let r = Request::new(Method::Put, db_path.iter()).with_accept_json();
        assert(r@ == json_request(Method::Put, database_path_segments(db_path@), Seq::empty(), None));
        Ok(r)
    }

    /// Reads the response: `201 Created` means the database was created, and
    /// `412 Precondition Failed` that it already exists.
    pub fn handle_response(status: u16, body: Result<JsonValue, Error>) -> (r: Result<(), Error>)
        ensures
            status == STATUS_CREATED ==> r is Ok,
            status == STATUS_PRECONDITION_FAILED ==> (r matches Err(Error::DatabaseExists(x)) && error_body_matches(x, body)),
            status == STATUS_UNAUTHORIZED ==> (r matches Err(Error::Unauthorized(x)) && error_body_matches(x, body)),
            status != STATUS_CREATED && status != STATUS_PRECONDITION_FAILED && status != STATUS_UNAUTHORIZED
                ==> (r matches Err(e) && is_server_error(e, status, body)),
    {
        if status == STATUS_CREATED {
            Ok(())
        } else if status == STATUS_PRECONDITION_FAILED {
            Err(Error::DatabaseExists(decode_error_body(body)))
        } else if status == STATUS_UNAUTHORIZED {
            Err(Error::Unauthorized(decode_error_body(body)))
        } else {
            Err(server_error(status, body))
        }
    }
}

// ------------------------------------------------------------------------
// Replies to writes

/// What the content of a reply to a write gives: the document id and the new
/// revision, or why the content does not hold them.
pub open spec fn write_outcome(r: Result<(DocumentId, Revision), Error>, body: Result<JsonValue, Error>) -> bool {
    match body {
        Err(e) => r matches Err(x) && x == e,
        Ok(v) => match write_response_of_json(v) {
            Ok(w) => r matches Ok((i, rv)) && i@ == w.1 && rv@ == w.2,
            Err(e) => r matches Err(x) && x == e,
        },
    }
}

/// Reads the content of a reply to a write.
fn read_write_reply(body: Result<JsonValue, Error>) -> (r: Result<(DocumentId, Revision), Error>)
    ensures
        write_outcome(r, body),
{
    let v = body?;
    let w = WriteDocumentResponse::from_json(v)?;
    Ok((w.id, w.rev))
}

/// What the content of a reply to a write gives of the new revision.
pub open spec fn revision_outcome(r: Result<Revision, Error>, body: Result<JsonValue, Error>) -> bool {
    match body {
        Err(e) => r matches Err(x) && x == e,
        Ok(v) => match write_response_of_json(v) {
            Ok(w) => r matches Ok(rv) && rv@ == w.2,
            Err(e) => r matches Err(x) && x == e,
        },
    }
}

/// Reads the new revision from the content of a reply to a write.
fn read_revision_reply(body: Result<JsonValue, Error>) -> (r: Result<Revision, Error>)
    ensures
        revision_outcome(r, body),
{
    let (_, rev) = read_write_reply(body)?;
    Ok(rev)
}

// ------------------------------------------------------------------------
// Creating a document

/// Creates a document.
pub struct CreateDocument<P: IntoDatabasePath> {
    db_path: P,
    content: JsonValue,
    doc_id: Option<DocumentId>,
}

impl<P: IntoDatabasePath> CreateDocument<P> {
    /// The path of the database in which to create the document.
    pub closed spec fn target(&self) -> P {
        self.db_path
    }

    /// The content of the document.
    pub closed spec fn content(&self) -> JsonModel {
        json_model(self.content)
    }

    /// The id that the document is to have, if the application chose one.
    pub closed spec fn chosen_id(&self) -> Option<(DocumentIdKind, Seq<char>)> {
        match self.doc_id {
            Some(d) => Some(d@),
            None => None,
        }
    }

    /// Starts the action of creating a document of the given content in the
    /// database at a path; the server chooses its id.
    pub fn new(db_path: P, content: JsonValue) -> (r: Self)
        ensures
            r.target() == db_path,
            r.content() == json_model(content),
            r.chosen_id() is None,
    {
        CreateDocument { db_path, content, doc_id: None }
    }

    /// Chooses the id of the document.
    pub fn with_document_id<D: IntoDocumentId>(self, doc_id: D) -> (r: Self)
        ensures
            r.target() == self.target(),
            r.content() == self.content(),
            r.chosen_id() == Some(doc_id.document_id_view()),
    {
        CreateDocument { db_path: self.db_path, content: self.content, doc_id: Some(doc_id.into_document_id()) }
    }

    /// Makes the request: a `POST` of the content to the database path, or,
    /// where the application chose the id, a `PUT` to the document path.
    pub fn make_request(self) -> (r: Result<Request, Error>)
        ensures
            match self.target().database_path_result() {
                Ok(p) => r matches Ok(q) && q@ == match self.chosen_id() {
                    None => json_request(Method::Post, database_path_segments(p), Seq::empty(), Some(self.content())),
                    Some(id) => json_request(Method::Put, document_path_segments((p, id)), Seq::empty(), Some(self.content())),
                },
                Err(k) => r matches Err(e) && e == parse_error(k),
            },
    {
        let CreateDocument { db_path, content, doc_id } = self;
        let db_path = db_path.into_database_path()?;
        let request = match doc_id {
            None => Request::new(Method::Post, db_path.iter()),
            Some(id) => {
                let doc_path = DocumentPath::new(db_path.database_name().clone(), id);
                Request::new(Method::Put, doc_path.iter())
            },
        };
        Ok(request.with_accept_json().with_json_content(content))
    }

    /// Reads the response: `201 Created` gives the id and the revision of
    /// the new document, and `409 Conflict` means that a document of the
    /// chosen id exists.
    pub fn handle_response(status: u16, body: Result<JsonValue, Error>) -> (r: Result<(DocumentId, Revision), Error>)
        ensures
            status == STATUS_CREATED ==> write_outcome(r, body),
            status == STATUS_CONFLICT ==> (r matches Err(Error::DocumentConflict(x)) && error_body_matches(x, body)),
            status == STATUS_UNAUTHORIZED ==> (r matches Err(Error::Unauthorized(x)) && error_body_matches(x, body)),
            status != STATUS_CREATED && status != STATUS_CONFLICT && status != STATUS_UNAUTHORIZED
                ==> (r matches Err(e) && is_server_error(e, status, body)),
    {
        if status == STATUS_CREATED {
            read_write_reply(body)
        } else if status == STATUS_CONFLICT {
            Err(Error::DocumentConflict(decode_error_body(body)))
        } else if status == STATUS_UNAUTHORIZED {
            Err(Error::Unauthorized(decode_error_body(body)))
        } else {
            Err(server_error(status, body))
        }
    }
}

// ------------------------------------------------------------------------
// Deleting a document

/// Deletes a document.
pub struct DeleteDocument<P: IntoDocumentPath> {
    doc_path: P,
    revision: Revision,
}

impl<P: IntoDocumentPath> DeleteDocument<P> {
    /// The path of the document to delete.
    pub closed spec fn target(&self) -> P {
        self.doc_path
    }

    /// The revision of the document to delete.
    pub closed spec fn revision(&self) -> (u64, u128) {
        self.revision@
    }

    /// Starts the action of deleting the document at a path, which must be
    /// at the given revision.
    pub fn new(doc_path: P, revision: Revision) -> (r: Self)
        ensures
            r.target() == doc_path,
            r.revision() == revision@,
    {
        DeleteDocument { doc_path, revision }
    }

    /// Makes the request: a `DELETE` of the document path with the revision
    /// in the query.
    pub fn make_request(self) -> (r: Result<Request, Error>)
        ensures
            match self.target().document_path_result() {
                Ok(p) => r matches Ok(q) && q@ == json_request(
                    Method::Delete,
                    document_path_segments(p),
                    seq![("rev"@, revision_text(self.revision()))],
                    None,
                ),
                Err(k) => r matches Err(e) && e == parse_error(k),
            },
    {
        let DeleteDocument { doc_path, revision } = self;
        let doc_path = doc_path.into_document_path()?;
        let r = Request::new(Method::Delete, doc_path.iter()).with_accept_json().with_query(RevisionQueryKey, &revision);
        assert(r@.query =~= seq![("rev"@, revision_text(revision@))]);
        Ok(r)
    }

    /// Reads the response: `200 OK` gives the revision that marks the
    /// deletion.
    pub fn handle_response(status: u16, body: Result<JsonValue, Error>) -> (r: Result<Revision, Error>)
        ensures
            status == STATUS_OK ==> revision_outcome(r, body),
            status == STATUS_CONFLICT ==> (r matches Err(Error::DocumentConflict(x)) && error_body_matches(x, body)),
            status == STATUS_NOT_FOUND ==> (r matches Err(Error::NotFound(x)) && error_body_matches(x, body)),
            status == STATUS_UNAUTHORIZED ==> (r matches Err(Error::Unauthorized(x)) && error_body_matches(x, body)),
            status != STATUS_OK && status != STATUS_CONFLICT && status != STATUS_NOT_FOUND && status
                != STATUS_UNAUTHORIZED ==> (r matches Err(e) && is_server_error(e, status, body)),
    {
        if status == STATUS_OK {
            read_revision_reply(body)
        } else if status == STATUS_CONFLICT {
            Err(Error::DocumentConflict(decode_error_body(body)))
        } else if status == STATUS_NOT_FOUND {
            Err(Error::NotFound(decode_error_body(body)))
        } else if status == STATUS_UNAUTHORIZED {
            Err(Error::Unauthorized(decode_error_body(body)))
        } else {
            Err(server_error(status, body))
        }
    }
}

// ------------------------------------------------------------------------
// Reading a document

/// Which attachment content the server sends with a document.
#[derive(Clone, Copy, Debug, PartialEq, Eq, Structural)]
pub enum AttachmentContent {
    /// No content: stubs only.
    Stubs,
    /// The content of every attachment.
    All,
}

/// Reads a document.
pub struct ReadDocument<P: IntoDocumentPath> {
    doc_path: P,
    revision: Option<Revision>,
    attachment_content: Option<AttachmentContent>,
}

/// The query of a request to read a document: whether to send attachment
/// content, then the revision, as far as they were chosen.
pub open spec fn read_query(a: Option<AttachmentContent>, rev: Option<(u64, u128)>) -> Seq<(Seq<char>, Seq<char>)> {
    let first = match a {
        None => Seq::empty(),
        Some(AttachmentContent::Stubs) => seq![("attachments"@, bool_text(false))],
        Some(AttachmentContent::All) => seq![("attachments"@, bool_text(true))],
    };
    match rev {
        None => first,
        Some(x) => first.push(("rev"@, revision_text(x))),
    }
}

/// The query of a read asks for attachment content with `attachments=true`
/// exactly when all content was chosen, and for stubs with
/// `attachments=false`; a chosen revision follows as `rev`. With nothing
/// chosen the query is empty.
pub proof fn lemma_read_query_holds_options(a: Option<AttachmentContent>, rev: Option<(u64, u128)>)
    ensures
        a == Some(AttachmentContent::All) ==> read_query(a, rev)[0] == ("attachments"@, "true"@),
        a == Some(AttachmentContent::Stubs) ==> read_query(a, rev)[0] == ("attachments"@, "false"@),
        rev matches Some(x) ==> read_query(a, rev).last() == ("rev"@, revision_text(x)),
        read_query(a, rev).len() == (if a is Some { 1int } else { 0int }) + (if rev is Some { 1int } else { 0int }),
{
}

impl<P: IntoDocumentPath> ReadDocument<P> {
    /// The path of the document to read.
    pub closed spec fn target(&self) -> P {
        self.doc_path
    }

    /// The revision to read, if one was chosen.
    pub closed spec fn revision(&self) -> Option<(u64, u128)> {
        match self.revision {
            Some(x) => Some(x@),
            None => None,
        }
    }

    /// Which attachment content to read, if that was chosen.
    pub closed spec fn attachment_content(&self) -> Option<AttachmentContent> {
        self.attachment_content
    }

    /// Starts the action of reading the document at a path, at its latest
    /// revision.
    pub fn new(doc_path: P) -> (r: Self)
        ensures
            r.target() == doc_path,
            r.revision() is None,
            r.attachment_content() is None,
    {
        ReadDocument { doc_path, revision: None, attachment_content: None }
    }

    /// Chooses the revision to read.
    pub fn with_revision(self, revision: Revision) -> (r: Self)
        ensures
            r.target() == self.target(),
            r.revision() == Some(revision@),
            r.attachment_content() == self.attachment_content(),
    {
        ReadDocument { doc_path: self.doc_path, revision: Some(revision), attachment_content: self.attachment_content }
    }

    /// Chooses which attachment content the server sends.
    pub fn with_attachment_content(self, attachment_content: AttachmentContent) -> (r: Self)
        ensures
            r.target() == self.target(),
            r.revision() == self.revision(),
            r.attachment_content() == Some(attachment_content),
    {
        ReadDocument { doc_path: self.doc_path, revision: self.revision, attachment_content: Some(attachment_content) }
    }

    /// Makes the request, a `GET` of the document path, and returns it with
    /// the name of the database, which reading the response needs.
    pub fn make_request(self) -> (r: Result<(Request, DatabaseName), Error>)
        ensures
            match self.target().document_path_result() {
                Ok(p) => r matches Ok((q, db)) && db@ == p.0 && q@ == json_request(
                    Method::Get,
                    document_path_segments(p),
                    read_query(self.attachment_content(), self.revision()),
                    None,
                ),
                Err(k) => r matches Err(e) && e == parse_error(k),
            },
    {
        let ReadDocument { doc_path, revision, attachment_content } = self;
        let doc_path = doc_path.into_document_path()?;
        let db_name = doc_path.database_name().clone();
        let request = Request::new(Method::Get, doc_path.iter()).with_accept_json();
        let ghost q0 = request@.query;
        let request = match attachment_content {
            None => request,
            Some(AttachmentContent::Stubs) => request.with_query(AttachmentsQueryKey, &false),
            Some(AttachmentContent::All) => request.with_query(AttachmentsQueryKey, &true),
        };
        let ghost q1 = request@.query;
        let request = match revision {
            None => request,
            Some(rev) => request.with_query(RevisionQueryKey, &rev),
        };
        assert(request@.query =~= read_query(attachment_content, match revision {
            Some(x) => Some(x@),
            None => None,
        }));
        Ok((request, db_name))
    }

    /// Reads the response: `200 OK` gives the document.
    pub fn handle_response(status: u16, body: Result<JsonValue, Error>, db_name: DatabaseName) -> (r: Result<Document, Error>)
        ensures
            status == STATUS_OK ==> read_outcome(r, body, db_name@),
            status == STATUS_NOT_FOUND ==> (r matches Err(Error::NotFound(x)) && error_body_matches(x, body)),
            status == STATUS_UNAUTHORIZED ==> (r matches Err(Error::Unauthorized(x)) && error_body_matches(x, body)),
            status != STATUS_OK && status != STATUS_NOT_FOUND && status != STATUS_UNAUTHORIZED
                ==> (r matches Err(e) && is_server_error(e, status, body)),
    {
        if status == STATUS_OK {
            let v = body?;
            let d = JsonDecodableDocument::from_json(v)?;
            Ok(Document::new_from_decoded(db_name, d))
        } else if status == STATUS_NOT_FOUND {
            Err(Error::NotFound(decode_error_body(body)))
        } else if status == STATUS_UNAUTHORIZED {
            Err(Error::Unauthorized(decode_error_body(body)))
        } else {
            Err(server_error(status, body))
        }
    }
}

/// What the content of a response to a read gives: the document, in the
/// database, or why the content does not hold one.
pub open spec fn read_outcome(r: Result<Document, Error>, body: Result<JsonValue, Error>, db: Seq<char>) -> bool {
    match body {
        Err(e) => r matches Err(x) && x == e,
        Ok(v) => match document_of_json(v) {
            Ok(d) => r matches Ok(doc) && {
                let m = doc@;
                &&& m.path == (db, d.id)
                &&& m.revision == d.revision
                &&& m.deleted == d.deleted
                &&& m.attachments == d.attachments
                &&& m.content matches JsonValue::Object(c) && c@ == d.content
            },
            Err(e) => r matches Err(x) && x == e,
        },
    }
}

// ------------------------------------------------------------------------
// Updating a document

/// Updates a document: sends its content and attachments as they stand in
/// memory.
pub struct UpdateDocument<'a> {
    doc: &'a Document,
}

impl<'a> UpdateDocument<'a> {
    /// The document to send.
    pub closed spec fn document(&self) -> DocumentModel {
        self.doc@
    }

    /// Starts the action of updating a document.
    pub fn new(doc: &'a Document) -> (r: Self)
        ensures
            r.document() == doc@,
    {
        UpdateDocument { doc }
    }

    /// Makes the request: a `PUT` of the document's JSON to its path, with
    /// its revision in the query. The content must be a JSON object.
    pub fn make_request(self) -> (r: Request)
        requires
            self.document().content is Object,
        ensures
            r@.method == Method::Put,
            r@.path == document_path_segments(self.document().path),
            r@.query == seq![("rev"@, revision_text(self.document().revision))],
            r@.accept_json,
            r@.body matches Some(b) && document_json_matches(
                b,
                entries_model(self.document().content->Object_0@),
                self.document().attachments,
            ),
    {
        let doc = self.doc;
        let r = Request::new(Method::Put, doc.path().iter()).with_accept_json().with_query(
            RevisionQueryKey,
            doc.revision(),
        ).with_json_content(doc.to_json());
        assert(r@.query =~= seq![("rev"@, revision_text(doc@.revision))]);
        r
    }

    /// Reads the response: `201 Created` gives the new revision.
    pub fn handle_response(status: u16, body: Result<JsonValue, Error>) -> (r: Result<Revision, Error>)
        ensures
            status == STATUS_CREATED ==> revision_outcome(r, body),
            status == STATUS_CONFLICT ==> (r matches Err(Error::DocumentConflict(x)) && error_body_matches(x, body)),
            status == STATUS_NOT_FOUND ==> (r matches Err(Error::NotFound(x)) && error_body_matches(x, body)),
            status == STATUS_UNAUTHORIZED ==> (r matches Err(Error::Unauthorized(x)) && error_body_matches(x, body)),
            status != STATUS_CREATED && status != STATUS_CONFLICT && status != STATUS_NOT_FOUND && status
                != STATUS_UNAUTHORIZED ==> (r matches Err(e) && is_server_error(e, status, body)),
    {
        if status == STATUS_CREATED {
            read_revision_reply(body)
        } else if status == STATUS_CONFLICT {
            Err(Error::DocumentConflict(decode_error_body(body)))
        } else if status == STATUS_NOT_FOUND {
            Err(Error::NotFound(decode_error_body(body)))
        } else if status == STATUS_UNAUTHORIZED {
            Err(Error::Unauthorized(decode_error_body(body)))
        } else {
            Err(server_error(status, body))
        }
    }
}

// ------------------------------------------------------------------------
// Executing views

/// How a reduced view is grouped: by exact key, or by a prefix of the key
/// of a given length.
#[derive(Clone, Copy, Debug, PartialEq, Eq, Structural)]
pub enum GroupLevel {
    Exact(bool),
    Number(u32),
}

/// The query options of a view request, each as far as it was chosen.
#[derive(Debug)]
pub struct ViewOptions {
    pub reduce: Option<bool>,
    pub start_key: Option<JsonText>,
    /// The end key, and whether rows of that key are included.
    pub end_key: Option<(JsonText, bool)>,
    pub limit: Option<u64>,
    pub descending: Option<bool>,
    pub group_level: Option<GroupLevel>,
    pub include_docs: Option<bool>,
}

/// No options chosen.
pub open spec fn no_view_options(o: ViewOptions) -> bool {
    &&& o.reduce is None
    &&& o.start_key is None
    &&& o.end_key is None
    &&& o.limit is None
    &&& o.descending is None
    &&& o.group_level is None
    &&& o.include_docs is None
}

/// The query pair of an option, if it was chosen.
pub open spec fn opt_pair(key: Seq<char>, value: Option<Seq<char>>) -> Seq<(Seq<char>, Seq<char>)> {
    match value {
        Some(v) => seq![(key, v)],
        None => Seq::empty(),
    }
}

/// The `reduce` pair of a view query, if chosen.
pub open spec fn reduce_part(o: ViewOptions) -> Seq<(Seq<char>, Seq<char>)> {
    opt_pair("reduce"@, match o.reduce {
        Some(b) => Some(bool_text(b)),
        None => None,
    })
}

/// The `startkey` pair of a view query, if chosen.
pub open spec fn start_part(o: ViewOptions) -> Seq<(Seq<char>, Seq<char>)> {
    opt_pair("startkey"@, match o.start_key {
        Some(k) => Some(k.0@),
        None => None,
    })
}

/// The `endkey` pair of a view query, followed by `inclusive_end=false`
/// for an exclusive end, if chosen.
pub open spec fn end_part(o: ViewOptions) -> Seq<(Seq<char>, Seq<char>)> {
    match o.end_key {
        Some((k, true)) => seq![("endkey"@, k.0@)],
        Some((k, false)) => seq![("endkey"@, k.0@), ("inclusive_end"@, bool_text(false))],
        None => Seq::empty(),
    }
}

/// The `limit` pair of a view query, if chosen.
pub open spec fn limit_part(o: ViewOptions) -> Seq<(Seq<char>, Seq<char>)> {
    opt_pair("limit"@, match o.limit {
        Some(n) => Some(decimal_text(n as nat)),
        None => None,
    })
}

/// The `descending` pair of a view query, if chosen.
pub open spec fn descending_part(o: ViewOptions) -> Seq<(Seq<char>, Seq<char>)> {
    opt_pair("descending"@, match o.descending {
        Some(b) => Some(bool_text(b)),
        None => None,
    })
}

/// The `group` or `group_level` pair of a view query, if chosen.
pub open spec fn group_part(o: ViewOptions) -> Seq<(Seq<char>, Seq<char>)> {
    match o.group_level {
        Some(GroupLevel::Exact(b)) => seq![("group"@, bool_text(b))],
        Some(GroupLevel::Number(n)) => seq![("group_level"@, decimal_text(n as nat))],
        None => Seq::empty(),
    }
}

/// The `include_docs` pair of a view query, if chosen.
pub open spec fn docs_part(o: ViewOptions) -> Seq<(Seq<char>, Seq<char>)> {
    opt_pair("include_docs"@, match o.include_docs {
        Some(b) => Some(bool_text(b)),
        None => None,
    })
}

/// The query of a view request: `reduce`, `startkey`, `endkey` (with
/// `inclusive_end=false` for an exclusive end), `limit`, `descending`,
/// `group` or `group_level`, and `include_docs`, as far as they were chosen.
pub open spec fn view_query(o: ViewOptions) -> Seq<(Seq<char>, Seq<char>)> {
    reduce_part(o) + start_part(o) + end_part(o) + limit_part(o) + descending_part(o) + group_part(o) + docs_part(o)
}

proof fn lemma_concat_contains(a: Seq<(Seq<char>, Seq<char>)>, b: Seq<(Seq<char>, Seq<char>)>, x: (Seq<char>, Seq<char>))
    ensures
        a.contains(x) ==> (a + b).contains(x),
        b.contains(x) ==> (a + b).contains(x),
{
    if a.contains(x) {
        let i = choose|i: int| 0 <= i < a.len() && a[i] == x;
        assert((a + b)[i] == x);
    }
    if b.contains(x) {
        let i = choose|i: int| 0 <= i < b.len() && b[i] == x;
        assert((a + b)[a.len() + i] == x);
    }
}

/// Every option that was chosen stands in the query of a view request,
/// with the value chosen: `reduce`, `descending` and `include_docs` as
/// `true` or `false`, `limit` and `group_level` as decimal numbers, the
/// keys as their JSON text, and `inclusive_end=false` for an exclusive end
/// key; `reduce` comes first. With no option chosen the query is empty.
pub proof fn lemma_view_query_holds_options(o: ViewOptions)
    ensures
        o.reduce matches Some(b) ==> view_query(o)[0] == ("reduce"@, if b { "true"@ } else { "false"@ }),
        o.reduce matches Some(b) ==> view_query(o).contains(("reduce"@, if b { "true"@ } else { "false"@ })),
        o.start_key matches Some(k) ==> view_query(o).contains(("startkey"@, k.0@)),
        o.end_key matches Some((k, _)) ==> view_query(o).contains(("endkey"@, k.0@)),
        o.end_key matches Some((_, false)) ==> view_query(o).contains(("inclusive_end"@, "false"@)),
        o.limit matches Some(n) ==> view_query(o).contains(("limit"@, decimal_text(n as nat))),
        o.descending matches Some(b) ==> view_query(o).contains(("descending"@, if b { "true"@ } else { "false"@ })),
        o.group_level matches Some(GroupLevel::Exact(b)) ==> view_query(o).contains(("group"@, if b { "true"@ } else { "false"@ })),
        o.group_level matches Some(GroupLevel::Number(n)) ==> view_query(o).contains(("group_level"@, decimal_text(n as nat))),
        o.include_docs matches Some(b) ==> view_query(o).contains(("include_docs"@, if b { "true"@ } else { "false"@ })),
        no_view_options(o) ==> view_query(o).len() == 0,
{
    let r = reduce_part(o);
    let st = start_part(o);
    let e = end_part(o);
    let l = limit_part(o);
    let d = descending_part(o);
    let g = group_part(o);
    let dc = docs_part(o);
    let q1 = r + st;
    let q2 = q1 + e;
    let q3 = q2 + l;
    let q4 = q3 + d;
    let q5 = q4 + g;
    assert(view_query(o) == q5 + dc);
    if let Some(b) = o.reduce {
        assert(r[0] == ("reduce"@, if b { "true"@ } else { "false"@ }));
        assert(r.contains(r[0]));
        assert(view_query(o)[0] == r[0]);
    }
    if let Some((k, incl)) = o.end_key {
        assert(e[0] == ("endkey"@, k.0@));
        assert(e.contains(e[0]));
        if !incl {
            assert(e[1] == ("inclusive_end"@, "false"@));
            assert(e.contains(e[1]));
        }
    }
    if let Some(k) = o.start_key {
        assert(st.contains(st[0]));
    }
    if let Some(n) = o.limit {
        assert(l.contains(l[0]));
    }
    if let Some(b) = o.descending {
        assert(d.contains(d[0]));
    }
    if let Some(x) = o.group_level {
        assert(g.contains(g[0]));
    }
    if let Some(b) = o.include_docs {
        assert(dc.contains(dc[0]));
    }
    assert forall|x: (Seq<char>, Seq<char>)| #![trigger view_query(o).contains(x)]
        r.contains(x) || st.contains(x) || e.contains(x) || l.contains(x) || d.contains(x) || g.contains(x)
            || dc.contains(x) implies view_query(o).contains(x) by {
        lemma_concat_contains(r, st, x);
        lemma_concat_contains(q1, e, x);
        lemma_concat_contains(q2, l, x);
        lemma_concat_contains(q3, d, x);
        lemma_concat_contains(q4, g, x);
        lemma_concat_contains(q5, dc, x);
    }
}

proof fn lemma_add_assoc(a: Seq<(Seq<char>, Seq<char>)>, b: Seq<(Seq<char>, Seq<char>)>, c: Seq<(Seq<char>, Seq<char>)>)
    ensures
        a + b + c == a + (b + c),
{
    assert(a + b + c =~= a + (b + c));
}

/// A request with more query pairs.
pub open spec fn with_pairs(m: RequestModel, pairs: Seq<(Seq<char>, Seq<char>)>) -> RequestModel {
    RequestModel { query: m.query + pairs, ..m }
}

impl ViewOptions {
    /// No options chosen.
    pub fn new() -> (r: Self)
        ensures
            no_view_options(r),
    {
        ViewOptions {
            reduce: None,
            start_key: None,
            end_key: None,
            limit: None,
            descending: None,
            group_level: None,
            include_docs: None,
        }
    }

    fn add_reduce(&self, request: Request) -> (r: Request)
        ensures
            r@ == with_pairs(request@, reduce_part(*self)),
    {
        match self.reduce {
            Some(b) => {
                let r = request.with_query(ReduceQueryKey, &b);
                assert(r@.query =~= request@.query + reduce_part(*self));
                r
            },
            None => {
                assert(request@.query + Seq::empty() =~= request@.query);
                request
            },
        }
    }

    fn add_start(&self, request: Request) -> (r: Request)
        ensures
            r@ == with_pairs(request@, start_part(*self)),
    {
        match &self.start_key {
            Some(k) => {
                let r = request.with_query(StartKeyQueryKey, k);
                assert(r@.query =~= request@.query + start_part(*self));
                r
            },
            None => {
                assert(request@.query + Seq::empty() =~= request@.query);
                request
            },
        }
    }

    fn add_end(&self, request: Request) -> (r: Request)
        ensures
            r@ == with_pairs(request@, end_part(*self)),
    {
        match &self.end_key {
            Some((k, true)) => {
                let r = request.with_query(EndKeyQueryKey, k);
                assert(r@.query =~= request@.query + end_part(*self));
                r
            },
            Some((k, false)) => {
                let r = request.with_query(EndKeyQueryKey, k).with_query(InclusiveEndQueryKey, &false);
                assert(r@.query =~= request@.query + end_part(*self));
                r
            },
            None => {
                assert(request@.query + Seq::empty() =~= request@.query);
                request
            },
        }
    }

    fn add_limit(&self, request: Request) -> (r: Request)
        ensures
            r@ == with_pairs(request@, limit_part(*self)),
    {
        match self.limit {
            Some(n) => {
                let r = request.with_query(LimitQueryKey, &n);
                assert(r@.query =~= request@.query + limit_part(*self));
                r
            },
            None => {
                assert(request@.query + Seq::empty() =~= request@.query);
                request
            },
        }
    }

    fn add_descending(&self, request: Request) -> (r: Request)
        ensures
            r@ == with_pairs(request@, descending_part(*self)),
    {
        match self.descending {
            Some(b) => {
                let r = request.with_query(DescendingQueryKey, &b);
                assert(r@.query =~= request@.query + descending_part(*self));
                r
            },
            None => {
                assert(request@.query + Seq::empty() =~= request@.query);
                request
            },
        }
    }

    fn add_group(&self, request: Request) -> (r: Request)
        ensures
            r@ == with_pairs(request@, group_part(*self)),
    {
        match self.group_level {
            Some(GroupLevel::Exact(b)) => {
                let r = request.with_query(GroupQueryKey, &b);
                assert(r@.query =~= request@.query + group_part(*self));
                r
            },
            Some(GroupLevel::Number(n)) => {
                let r = request.with_query(GroupLevelQueryKey, &n);
                assert(r@.query =~= request@.query + group_part(*self));
                r
            },
            None => {
                assert(request@.query + Seq::empty() =~= request@.query);
                request
            },
        }
    }

    fn add_docs(&self, request: Request) -> (r: Request)
        ensures
            r@ == with_pairs(request@, docs_part(*self)),
    {
        match self.include_docs {
            Some(b) => {
                let r = request.with_query(IncludeDocsQueryKey, &b);
                assert(r@.query =~= request@.query + docs_part(*self));
                r
            },
            None => {
                assert(request@.query + Seq::empty() =~= request@.query);
                request
            },
        }
    }

    /// Adds the query pairs of the options to a request.
    pub fn add_to(&self, request: Request) -> (r: Request)
        ensures
            r@ == with_pairs(request@, view_query(*self)),
    {
        let ghost q = request@.query;
        let ghost o = *self;
        let r = self.add_reduce(request);
        let r = self.add_start(r);
        proof {
            lemma_add_assoc(q, reduce_part(o), start_part(o));
        }
        let r = self.add_end(r);
        proof {
            lemma_add_assoc(q, reduce_part(o) + start_part(o), end_part(o));
        }
        let r = self.add_limit(r);
        proof {
            lemma_add_assoc(q, reduce_part(o) + start_part(o) + end_part(o), limit_part(o));
        }
        let r = self.add_descending(r);
        proof {
            lemma_add_assoc(q, reduce_part(o) + start_part(o) + end_part(o) + limit_part(o), descending_part(o));
        }
        let r = self.add_group(r);
        proof {
            lemma_add_assoc(
                q,
                reduce_part(o) + start_part(o) + end_part(o) + limit_part(o) + descending_part(o),
                group_part(o),
            );
        }
        let r = self.add_docs(r);
        proof {
            lemma_add_assoc(
                q,
                reduce_part(o) + start_part(o) + end_part(o) + limit_part(o) + descending_part(o) + group_part(o),
                docs_part(o),
            );
        }
        r
    }
}

/// The row that decoded fields make in a database.
pub open spec fn row_of_fields(db: Seq<char>, f: RowFields) -> ViewRowModel {
    ViewRowModel {
        key: f.key,
        value: f.value->0,
        doc_path: match f.id {
            Some(id) => Some((db, id)),
            None => None,
        },
    }
}

/// What the content of a response to a view gives: the view response, its
/// rows in the database, or why the content does not hold one.
pub open spec fn view_outcome(r: Result<ViewResponse, Error>, body: Result<JsonValue, Error>, db: Seq<char>) -> bool {
    match body {
        Err(e) => r matches Err(x) && x == e,
        Ok(v) => match response_of_json(v) {
            Ok(f) => r matches Ok(resp) && view_response_of_fields(resp@, f, db),
            Err(e) => r matches Err(x) && x == e,
        },
    }
}

/// Whether a view response holds what decoded fields give.
pub open spec fn view_response_of_fields(m: ViewResponseModel, f: ResponseFields, db: Seq<char>) -> bool {
    &&& m.total_rows == f.total_rows
    &&& m.offset == f.offset
    &&& m.update_seq == f.update_seq
    &&& f.rows matches Some(rows) && m.rows.len() == rows.len() && forall|i: int|
        0 <= i < rows.len() ==> #[trigger] m.rows[i] == row_of_fields(db, rows[i])
}

/// Reads the response to a view request: `200 OK` gives the view response.
fn read_view_response(status: u16, body: Result<JsonValue, Error>, db_name: DatabaseName) -> (r: Result<ViewResponse, Error>)
    ensures
        status == STATUS_OK ==> view_outcome(r, body, db_name@),
        status == STATUS_NOT_FOUND ==> (r matches Err(Error::NotFound(x)) && error_body_matches(x, body)),
        status == STATUS_UNAUTHORIZED ==> (r matches Err(Error::Unauthorized(x)) && error_body_matches(x, body)),
        status != STATUS_OK && status != STATUS_NOT_FOUND && status != STATUS_UNAUTHORIZED
            ==> (r matches Err(e) && is_server_error(e, status, body)),
{
    if status == STATUS_OK {
        let v = body?;
        let decoded = ViewResponseJsonable::from_json(v)?;
        let r = ViewResponse::new_from_decoded(db_name, decoded);
        Ok(r)
    } else if status == STATUS_NOT_FOUND {
        Err(Error::NotFound(decode_error_body(body)))
    } else if status == STATUS_UNAUTHORIZED {
        Err(Error::Unauthorized(decode_error_body(body)))
    } else {
        Err(server_error(status, body))
    }
}

/// Executes a view of a design document.
pub struct ExecuteView<P: IntoViewPath> {
    view_path: P,
    options: ViewOptions,
}

impl<P: IntoViewPath> ExecuteView<P> {
    /// The path of the view to execute.
    pub closed spec fn target(&self) -> P {
        self.view_path
    }

    /// The options chosen.
    pub closed spec fn options(&self) -> ViewOptions {
        self.options
    }

    /// Starts the action of executing the view at a path, with no options.
    pub fn new(view_path: P) -> (r: Self)
        ensures
            r.target() == view_path,
            no_view_options(r.options()),
    {
        ExecuteView { view_path, options: ViewOptions::new() }
    }

    /// Reduces the view, or does not, whatever it holds.
    pub fn with_reduce(self, reduce: bool) -> (r: Self)
        ensures
            r.target() == self.target(),
            r.options() == (ViewOptions { reduce: Some(reduce), ..self.options() }),
    {
        let mut r = self;
        r.options.reduce = Some(reduce);
        r
    }

    /// Sends at most a given number of rows.
    pub fn with_limit(self, limit: u64) -> (r: Self)
        ensures
            r.target() == self.target(),
            r.options() == (ViewOptions { limit: Some(limit), ..self.options() }),
    {
        let mut r = self;
        r.options.limit = Some(limit);
        r
    }

    /// Sends the rows in descending order of key, or not.
    pub fn with_descending(self, descending: bool) -> (r: Self)
        ensures
            r.target() == self.target(),
            r.options() == (ViewOptions { descending: Some(descending), ..self.options() }),
    {
        let mut r = self;
        r.options.descending = Some(descending);
        r
    }

    /// Groups a reduced view by exact key, or not.
    pub fn with_exact_groups(self, yes_or_no: bool) -> (r: Self)
        ensures
            r.target() == self.target(),
            r.options() == (ViewOptions { group_level: Some(GroupLevel::Exact(yes_or_no)), ..self.options() }),
    {
        let mut r = self;
        r.options.group_level = Some(GroupLevel::Exact(yes_or_no));
        r
    }

    /// Groups a reduced view by a prefix of the key of a given length.
    pub fn with_group_level(self, group_level: u32) -> (r: Self)
        ensures
            r.target() == self.target(),
            r.options() == (ViewOptions { group_level: Some(GroupLevel::Number(group_level)), ..self.options() }),
    {
        let mut r = self;
        r.options.group_level = Some(GroupLevel::Number(group_level));
        r
    }

    /// Sends each row's document with it, or not.
    pub fn with_documents(self, yes_or_no: bool) -> (r: Self)
        ensures
            r.target() == self.target(),
            r.options() == (ViewOptions { include_docs: Some(yes_or_no), ..self.options() }),
    {
        let mut r = self;
        r.options.include_docs = Some(yes_or_no);
        r
    }

    /// Sends only rows of a key at or after the given one, written as JSON.
    pub fn with_start_key(self, start_key: JsonText) -> (r: Self)
        ensures
            r.target() == self.target(),
            r.options() == (ViewOptions { start_key: Some(start_key), ..self.options() }),
    {
        let mut r = self;
        r.options.start_key = Some(start_key);
        r
    }

    /// Sends only rows of a key at or before the given one, written as JSON.
    pub fn with_end_key_inclusive(self, end_key: JsonText) -> (r: Self)
        ensures
            r.target() == self.target(),
            r.options() == (ViewOptions { end_key: Some((end_key, true)), ..self.options() }),
    {
        let mut r = self;
        r.options.end_key = Some((end_key, true));
        r
    }

    /// Sends only rows of a key before the given one, written as JSON.
    pub fn with_end_key_exclusive(self, end_key: JsonText) -> (r: Self)
        ensures
            r.target() == self.target(),
            r.options() == (ViewOptions { end_key: Some((end_key, false)), ..self.options() }),
    {
        let mut r = self;
        r.options.end_key = Some((end_key, false));
        r
    }

    /// Makes the request, a `GET` of the view path with the options in the
    /// query, and returns it with the name of the database, which reading the
    /// response needs.
    pub fn make_request(self) -> (r: Result<(Request, DatabaseName), Error>)
        ensures
            match self.target().view_path_result() {
                Ok(p) => r matches Ok((q, db)) && db@ == p.0 && q@ == json_request(
                    Method::Get,
                    view_path_segments(p),
                    view_query(self.options()),
                    None,
                ),
                Err(k) => r matches Err(e) && e == parse_error(k),
            },
    {
        let ExecuteView { view_path, options } = self;
        let view_path = view_path.into_view_path()?;
        let db_name = view_path.database_name().clone();
        let request = options.add_to(Request::new(Method::Get, view_path.iter()).with_accept_json());
        assert(Seq::<(Seq<char>, Seq<char>)>::empty() + view_query(options) =~= view_query(options));
        Ok((request, db_name))
    }

    /// Reads the response: `200 OK` gives the view response.
    pub fn handle_response(status: u16, body: Result<JsonValue, Error>, db_name: DatabaseName) -> (r: Result<ViewResponse, Error>)
        ensures
            status == STATUS_OK ==> view_outcome(r, body, db_name@),
            status == STATUS_NOT_FOUND ==> (r matches Err(Error::NotFound(x)) && error_body_matches(x, body)),
            status == STATUS_UNAUTHORIZED ==> (r matches Err(Error::Unauthorized(x)) && error_body_matches(x, body)),
            status != STATUS_OK && status != STATUS_NOT_FOUND && status != STATUS_UNAUTHORIZED
                ==> (r matches Err(e) && is_server_error(e, status, body)),
    {
        read_view_response(status, body, db_name)
    }
}

/// The name of the view that lists all documents of a database.
pub open spec fn all_docs_text() -> Seq<char> {
    "_all_docs"@
}

/// Reads all documents of a database, through its `_all_docs` view.
pub struct ReadAllDocuments<P: IntoDatabasePath> {
    db_path: P,
    options: ViewOptions,
}

impl<P: IntoDatabasePath> ReadAllDocuments<P> {
    /// The path of the database.
    pub closed spec fn target(&self) -> P {
        self.db_path
    }

    /// The options chosen.
    pub closed spec fn options(&self) -> ViewOptions {
        self.options
    }

    /// Starts the action of reading all documents of the database at a path.
    pub fn new(db_path: P) -> (r: Self)
        ensures
            r.target() == db_path,
            no_view_options(r.options()),
    {
        ReadAllDocuments { db_path, options: ViewOptions::new() }
    }

    /// Sends only documents of an id at or after the given one, written as
    /// JSON.
    pub fn with_start_key(self, start_key: JsonText) -> (r: Self)
        ensures
            r.target() == self.target(),
            r.options() == (ViewOptions { start_key: Some(start_key), ..self.options() }),
    {
        let mut r = self;
        r.options.start_key = Some(start_key);
        r
    }

    /// Sends only documents of an id at or before the given one, written as
    /// JSON.
    pub fn with_end_key_inclusive(self, end_key: JsonText) -> (r: Self)
        ensures
            r.target() == self.target(),
            r.options() == (ViewOptions { end_key: Some((end_key, true)), ..self.options() }),
    {
        let mut r = self;
        r.options.end_key = Some((end_key, true));
        r
    }

    /// Sends only documents of an id before the given one, written as JSON.
    pub fn with_end_key_exclusive(self, end_key: JsonText) -> (r: Self)
        ensures
            r.target() == self.target(),
            r.options() == (ViewOptions { end_key: Some((end_key, false)), ..self.options() }),
    {
        let mut r = self;
        r.options.end_key = Some((end_key, false));
        r
    }

    /// Sends the documents in descending order of id, or not.
    pub fn with_descending(self, descending: bool) -> (r: Self)
        ensures
            r.target() == self.target(),
            r.options() == (ViewOptions { descending: Some(descending), ..self.options() }),
    {
        let mut r = self;
        r.options.descending = Some(descending);
        r
    }

    /// Makes the request, a `GET` of the database's `_all_docs` view with
    /// the options in the query, and returns it with the name of the
    /// database.
    pub fn make_request(self) -> (r: Result<(Request, DatabaseName), Error>)
        ensures
            match self.target().database_path_result() {
                Ok(p) => r matches Ok((q, db)) && db@ == p && q@ == json_request(
                    Method::Get,
                    database_view_path_segments((p, all_docs_text())),
                    view_query(self.options()),
                    None,
                ),
                Err(k) => r matches Err(e) && e == parse_error(k),
            },
    {
        let ReadAllDocuments { db_path, options } = self;
        let db_path = db_path.into_database_path()?;
        let db_name = db_path.database_name().clone();
        let view_path = DatabaseViewPath::new(db_path.database_name().clone(), ViewName::from("_all_docs"));
        let request = options.add_to(Request::new(Method::Get, view_path.iter()).with_accept_json());
        assert(Seq::<(Seq<char>, Seq<char>)>::empty() + view_query(options) =~= view_query(options));
        Ok((request, db_name))
    }

    /// Reads the response: `200 OK` gives the view response.
    pub fn handle_response(status: u16, body: Result<JsonValue, Error>, db_name: DatabaseName) -> (r: Result<ViewResponse, Error>)
        ensures
            status == STATUS_OK ==> view_outcome(r, body, db_name@),
            status == STATUS_NOT_FOUND ==> (r matches Err(Error::NotFound(x)) && error_body_matches(x, body)),
            status == STATUS_UNAUTHORIZED ==> (r matches Err(Error::Unauthorized(x)) && error_body_matches(x, body)),
            status != STATUS_OK && status != STATUS_NOT_FOUND && status != STATUS_UNAUTHORIZED
                ==> (r matches Err(e) && is_server_error(e, status, body)),
    {
        read_view_response(status, body, db_name)
    }
}

} // verus!
