//! Borrowing counterparts of document ids and paths, and the step-by-step
//! walk over the segments of a path.
use vstd::prelude::*;
use crate::path::{
    AttachmentName, AttachmentPath, DatabaseName, DatabasePath, DatabaseViewPath, DesignDocumentName,
    DesignDocumentPath, DocumentId, DocumentIdKind, DocumentPath,
    ViewName, ViewPath, attachment_path_segments, database_path_segments, database_view_path_segments,
    design_document_path_segments, design_prefix, design_prefix_text, document_id_of_text,
    document_id_segments, document_id_text, document_path_segments, kind_prefix_text, local_prefix,
    local_prefix_text, str_starts_with, view_path_segments, view_prefix, view_prefix_text,
};

verus! {

// ------------------------------------------------------------------------
// Borrowed document ids

/// Borrows a document id: its kind and its name.
#[derive(Clone, Copy, Debug, PartialEq, Eq, Hash)]
pub enum DocumentIdRef<'a> {
    Normal(&'a str),
    Design(&'a str),
    Local(&'a str),
}

impl<'a> View for DocumentIdRef<'a> {
    type V = (DocumentIdKind, Seq<char>);

    closed spec fn view(&self) -> (DocumentIdKind, Seq<char>) {
        match self {
            DocumentIdRef::Normal(x) => (DocumentIdKind::Normal, x@),
            DocumentIdRef::Design(x) => (DocumentIdKind::Design, x@),
            DocumentIdRef::Local(x) => (DocumentIdKind::Local, x@),
        }
    }
}

impl<'a> DocumentIdRef<'a> {
    /// Borrows the document id that a string denotes: `_design/` and
    /// `_local/` mark design and local documents, anything else names a
    /// normal document.
    pub fn from(s: &'a str) -> (r: Self)
        ensures
            r@ == document_id_of_text(s@),
    {
        let design = design_prefix().to_owned().concat("/");
        let local = local_prefix().to_owned().concat("/");
        proof {
            reveal_strlit("/");
        }
        assert(design@ =~= design_prefix_text().push('/'));
        assert(local@ =~= local_prefix_text().push('/'));
        let n = s.unicode_len();
        if str_starts_with(s, design.as_str()) {
            DocumentIdRef::Design(s.substring_char(8, n))
        } else if str_starts_with(s, local.as_str()) {
            DocumentIdRef::Local(s.substring_char(7, n))
        } else {
            DocumentIdRef::Normal(s)
        }
    }

    /// Returns the path segment that precedes the document name, if any.
    pub fn prefix(&self) -> (r: Option<&'static str>)
        ensures
            match r {
                None => kind_prefix_text(self@.0) is None,
                Some(p) => kind_prefix_text(self@.0) == Some(p@),
            },
    {
        match self {
            DocumentIdRef::Normal(_) => None,
            DocumentIdRef::Design(_) => Some(design_prefix()),
            DocumentIdRef::Local(_) => Some(local_prefix()),
        }
    }

    /// Returns the document name, without any prefix.
    pub fn name_as_str(&self) -> (r: &'a str)
        ensures
            r@ == self@.1,
    {
        match *self {
            DocumentIdRef::Normal(x) => x,
            DocumentIdRef::Design(x) => x,
            DocumentIdRef::Local(x) => x,
        }
    }

    /// Returns the text of the document id, e.g. `_design/foo`.
    pub fn to_string(&self) -> (r: String)
        ensures
            r@ == document_id_text(self@),
    {
        proof {
            reveal_strlit("/");
        }
        match self.prefix() {
            None => self.name_as_str().to_owned(),
            Some(p) => p.to_owned().concat("/").concat(self.name_as_str()),
        }
    }

    /// Makes an owning copy of the document id.
    pub fn into_owned(self) -> (r: DocumentId)
        ensures
            r@ == self@,
    {
        match self {
            DocumentIdRef::Normal(x) => DocumentId::from_kind_and_name(DocumentIdKind::Normal, x),
            DocumentIdRef::Design(x) => DocumentId::from_kind_and_name(DocumentIdKind::Design, x),
            DocumentIdRef::Local(x) => DocumentId::from_kind_and_name(DocumentIdKind::Local, x),
        }
    }
}

impl DocumentId {
    /// Borrows the document id.
    pub fn as_ref(&self) -> (r: DocumentIdRef<'_>)
        ensures
            r@ == self@,
    {
        let name = self.name_as_str();
        match self.kind() {
            DocumentIdKind::Normal => DocumentIdRef::Normal(name),
            DocumentIdKind::Design => DocumentIdRef::Design(name),
            DocumentIdKind::Local => DocumentIdRef::Local(name),
        }
    }
}

/// What one step of a walk over path segments does: with segments left, it
/// hands out the first and drops it; with none left, it hands out nothing.
pub open spec fn segment_step(before: Seq<Seq<char>>, r: Option<&str>, after: Seq<Seq<char>>) -> bool {
    if before.len() == 0 {
        r is None && after.len() == 0
    } else {
        r matches Some(x) && x@ == before[0] && after == before.drop_first()
    }
}

// ------------------------------------------------------------------------
// Database paths

/// Borrows the path of a database.
#[derive(Clone, Copy, Debug, PartialEq, Eq, Hash)]
pub struct DatabasePathRef<'a> {
    db_name: &'a str,
}

impl<'a> View for DatabasePathRef<'a> {
    type V = Seq<char>;

    closed spec fn view(&self) -> Seq<char> {
        self.db_name@
    }
}

impl<'a> DatabasePathRef<'a> {
    /// Borrows the path of the named database.
    pub fn from(db_name: &'a str) -> (r: Self)
        ensures
            r@ == db_name@,
    {
        DatabasePathRef { db_name }
    }

    /// Returns the database name.
    pub fn database_name(&self) -> (r: &'a str)
        ensures
            r@ == self@,
    {
        self.db_name
    }

    /// Starts a walk over the path segments.
    pub fn into_iter(self) -> (r: DatabasePathIter<'a>)
        ensures
            r.remaining() == database_path_segments(self@),
    {
        DatabasePathIter::DatabaseName(self)
    }

    /// Makes an owning copy of the path.
    pub fn into_owned(self) -> (r: DatabasePath)
        ensures
            r@ == self@,
    {
        DatabasePath::from(DatabaseName::from(self.db_name))
    }
}

impl DatabasePath {
    /// Borrows the path.
    pub fn as_ref(&self) -> (r: DatabasePathRef<'_>)
        ensures
            r@ == self@,
    {
        DatabasePathRef { db_name: self.database_name().as_str() }
    }
}

/// A walk over the segments of a database path.
pub enum DatabasePathIter<'a> {
    DatabaseName(DatabasePathRef<'a>),
    Done,
}

impl<'a> DatabasePathIter<'a> {
    /// The segments that the walk has yet to hand out.
    pub closed spec fn remaining(&self) -> Seq<Seq<char>> {
        match self {
            DatabasePathIter::DatabaseName(p) => database_path_segments(p@),
            DatabasePathIter::Done => Seq::empty(),
        }
    }

    /// Hands out the next segment, if any.
    pub fn next(&mut self) -> (r: Option<&'a str>)
        ensures
            segment_step(old(self).remaining(), r, final(self).remaining()),
    {
        let (item, next) = match *self {
            DatabasePathIter::DatabaseName(p) => (Some(p.db_name), DatabasePathIter::Done),
            DatabasePathIter::Done => (None, DatabasePathIter::Done),
        };
        *self = next;
        proof {
            assert(old(self).remaining().len() > 0 ==> old(self).remaining().drop_first() =~= Seq::<Seq<char>>::empty());
        }
        item
    }
}

// ------------------------------------------------------------------------
// Document paths

/// Borrows the path of a document.
#[derive(Clone, Copy, Debug, PartialEq, Eq, Hash)]
pub struct DocumentPathRef<'a> {
    db_name: &'a str,
    doc_id: DocumentIdRef<'a>,
}

impl<'a> View for DocumentPathRef<'a> {
    type V = (Seq<char>, (DocumentIdKind, Seq<char>));

    closed spec fn view(&self) -> (Seq<char>, (DocumentIdKind, Seq<char>)) {
        (self.db_name@, self.doc_id@)
    }
}

impl<'a> DocumentPathRef<'a> {
    /// Borrows the path of a document from its database name and id.
    pub fn from(db_name: &'a str, doc_id: DocumentIdRef<'a>) -> (r: Self)
        ensures
            r@ == (db_name@, doc_id@),
    {
        DocumentPathRef { db_name, doc_id }
    }

    /// Returns the database name.
    pub fn database_name(&self) -> (r: &'a str)
        ensures
            r@ == self@.0,
    {
        self.db_name
    }

    /// Returns the document id.
    pub fn document_id(&self) -> (r: DocumentIdRef<'a>)
        ensures
            r@ == self@.1,
    {
        self.doc_id
    }

    /// Starts a walk over the path segments.
    pub fn into_iter(self) -> (r: DocumentPathIter<'a>)
        ensures
            r.remaining() == document_path_segments(self@),
    {
        DocumentPathIter::DatabaseName(self)
    }

    /// Makes an owning copy of the path.
    pub fn into_owned(self) -> (r: DocumentPath)
        ensures
            r@ == self@,
    {
        DocumentPath::new(DatabaseName::from(self.db_name), self.doc_id.into_owned())
    }
}

impl DocumentPath {
    /// Borrows the path.
    pub fn as_ref(&self) -> (r: DocumentPathRef<'_>)
        ensures
            r@ == self@,
    {
        DocumentPathRef { db_name: self.database_name().as_str(), doc_id: self.document_id().as_ref() }
    }
}

/// A walk over the segments of a document path.
pub enum DocumentPathIter<'a> {
    DatabaseName(DocumentPathRef<'a>),
    DocumentPrefix(DocumentPathRef<'a>),
    DocumentName(DocumentPathRef<'a>),
    Done,
}

impl<'a> DocumentPathIter<'a> {
    /// The segments that the walk has yet to hand out.
    pub closed spec fn remaining(&self) -> Seq<Seq<char>> {
        match self {
            DocumentPathIter::DatabaseName(p) => document_path_segments(p@),
            DocumentPathIter::DocumentPrefix(p) => document_id_segments(p@.1),
            DocumentPathIter::DocumentName(p) => seq![p@.1.1],
            DocumentPathIter::Done => Seq::empty(),
        }
    }

    /// Hands out the next segment, if any.
    pub fn next(&mut self) -> (r: Option<&'a str>)
        ensures
            segment_step(old(self).remaining(), r, final(self).remaining()),
    {
        let (item, next) = match *self {
            DocumentPathIter::DatabaseName(p) => (Some(p.db_name), DocumentPathIter::DocumentPrefix(p)),
            DocumentPathIter::DocumentPrefix(p) => match p.doc_id.prefix() {
                Some(x) => (Some(x), DocumentPathIter::DocumentName(p)),
                None => (Some(p.doc_id.name_as_str()), DocumentPathIter::Done),
            },
            DocumentPathIter::DocumentName(p) => (Some(p.doc_id.name_as_str()), DocumentPathIter::Done),
            DocumentPathIter::Done => (None, DocumentPathIter::Done),
        };
        *self = next;
        proof {
            let b = old(self).remaining();
            if b.len() > 0 {
                assert(b.drop_first() =~= final(self).remaining());
            }
        }
        item
    }
}

// ------------------------------------------------------------------------
// Design document paths

/// Borrows the path of a design document.
#[derive(Clone, Copy, Debug, PartialEq, Eq, Hash)]
pub struct DesignDocumentPathRef<'a> {
    db_name: &'a str,
    ddoc_name: &'a str,
}

impl<'a> View for DesignDocumentPathRef<'a> {
    type V = (Seq<char>, Seq<char>);

    closed spec fn view(&self) -> (Seq<char>, Seq<char>) {
        (self.db_name@, self.ddoc_name@)
    }
}

impl<'a> DesignDocumentPathRef<'a> {
    /// Borrows the path of a design document from its database and document
    /// names.
    pub fn from(db_name: &'a str, ddoc_name: &'a str) -> (r: Self)
        ensures
            r@ == (db_name@, ddoc_name@),
    {
        DesignDocumentPathRef { db_name, ddoc_name }
    }

    /// Returns the database name.
    pub fn database_name(&self) -> (r: &'a str)
        ensures
            r@ == self@.0,
    {
        self.db_name
    }

    /// Returns the design document name.
    pub fn design_document_name(&self) -> (r: &'a str)
        ensures
            r@ == self@.1,
    {
        self.ddoc_name
    }

    /// Starts a walk over the path segments.
    pub fn into_iter(self) -> (r: DesignDocumentPathIter<'a>)
        ensures
            r.remaining() == design_document_path_segments(self@),
    {
        DesignDocumentPathIter::DatabaseName(self)
    }

    /// Makes an owning copy of the path.
    pub fn into_owned(self) -> (r: DesignDocumentPath)
        ensures
            r@ == self@,
    {
        DesignDocumentPath::new(DatabaseName::from(self.db_name), DesignDocumentName::from(self.ddoc_name))
    }
}

impl DesignDocumentPath {
    /// Borrows the path.
    pub fn as_ref(&self) -> (r: DesignDocumentPathRef<'_>)
        ensures
            r@ == self@,
    {
        DesignDocumentPathRef {
            db_name: self.database_name().as_str(),
            ddoc_name: self.design_document_name().as_str(),
        }
    }
}

/// A walk over the segments of a design document path.
pub enum DesignDocumentPathIter<'a> {
    DatabaseName(DesignDocumentPathRef<'a>),
    DocumentPrefix(DesignDocumentPathRef<'a>),
    DocumentName(DesignDocumentPathRef<'a>),
    Done,
}

impl<'a> DesignDocumentPathIter<'a> {
    /// The segments that the walk has yet to hand out.
    pub closed spec fn remaining(&self) -> Seq<Seq<char>> {
        match self {
            DesignDocumentPathIter::DatabaseName(p) => design_document_path_segments(p@),
            DesignDocumentPathIter::DocumentPrefix(p) => seq![design_prefix_text(), p@.1],
            DesignDocumentPathIter::DocumentName(p) => seq![p@.1],
            DesignDocumentPathIter::Done => Seq::empty(),
        }
    }

    /// Hands out the next segment, if any.
    pub fn next(&mut self) -> (r: Option<&'a str>)
        ensures
            segment_step(old(self).remaining(), r, final(self).remaining()),
    {
        let (item, next) = match *self {
            DesignDocumentPathIter::DatabaseName(p) => (Some(p.db_name), DesignDocumentPathIter::DocumentPrefix(p)),
            DesignDocumentPathIter::DocumentPrefix(p) => (Some(design_prefix()), DesignDocumentPathIter::DocumentName(p)),
            DesignDocumentPathIter::DocumentName(p) => (Some(p.ddoc_name), DesignDocumentPathIter::Done),
            DesignDocumentPathIter::Done => (None, DesignDocumentPathIter::Done),
        };
        *self = next;
        proof {
            let b = old(self).remaining();
            if b.len() > 0 {
                assert(b.drop_first() =~= final(self).remaining());
            }
        }
        item
    }
}

// ------------------------------------------------------------------------
// Attachment paths

/// Borrows the path of an attachment.
#[derive(Clone, Copy, Debug, PartialEq, Eq, Hash)]
pub struct AttachmentPathRef<'a> {
    db_name: &'a str,
    doc_id: DocumentIdRef<'a>,
    att_name: &'a str,
}

impl<'a> View for AttachmentPathRef<'a> {
    type V = (Seq<char>, (DocumentIdKind, Seq<char>), Seq<char>);

    closed spec fn view(&self) -> (Seq<char>, (DocumentIdKind, Seq<char>), Seq<char>) {
        (self.db_name@, self.doc_id@, self.att_name@)
    }
}

impl<'a> AttachmentPathRef<'a> {
    /// Borrows the path of an attachment from the path of its document and
    /// its name.
    pub fn from(doc_path: DocumentPathRef<'a>, att_name: &'a str) -> (r: Self)
        ensures
            r@ == (doc_path@.0, doc_path@.1, att_name@),
    {
        AttachmentPathRef { db_name: doc_path.db_name, doc_id: doc_path.doc_id, att_name }
    }

    /// Returns the database name.
    pub fn database_name(&self) -> (r: &'a str)
        ensures
            r@ == self@.0,
    {
        self.db_name
    }

    /// Returns the document id.
    pub fn document_id(&self) -> (r: DocumentIdRef<'a>)
        ensures
            r@ == self@.1,
    {
        self.doc_id
    }

    /// Returns the attachment name.
    pub fn attachment_name(&self) -> (r: &'a str)
        ensures
            r@ == self@.2,
    {
        self.att_name
    }

    /// Starts a walk over the path segments.
    pub fn into_iter(self) -> (r: AttachmentPathIter<'a>)
        ensures
            r.remaining() == attachment_path_segments(self@),
    {
        AttachmentPathIter::DatabaseName(self)
    }

    /// Makes an owning copy of the path.
    pub fn into_owned(self) -> (r: AttachmentPath)
        ensures
            r@ == self@,
    {
        AttachmentPath::from((DatabaseName::from(self.db_name), self.doc_id.into_owned(), AttachmentName::from(self.att_name)))
    }
}

impl AttachmentPath {
    /// Borrows the path.
    pub fn as_ref(&self) -> (r: AttachmentPathRef<'_>)
        ensures
            r@ == self@,
    {
        AttachmentPathRef {
            db_name: self.database_name().as_str(),
            doc_id: self.document_id().as_ref(),
            att_name: self.attachment_name().as_str(),
        }
    }
}

/// A walk over the segments of an attachment path.
pub enum AttachmentPathIter<'a> {
    DatabaseName(AttachmentPathRef<'a>),
    DocumentPrefix(AttachmentPathRef<'a>),
    DocumentName(AttachmentPathRef<'a>),
    AttachmentName(AttachmentPathRef<'a>),
    Done,
}

impl<'a> AttachmentPathIter<'a> {
    /// The segments that the walk has yet to hand out.
    pub closed spec fn remaining(&self) -> Seq<Seq<char>> {
        match self {
            AttachmentPathIter::DatabaseName(p) => attachment_path_segments(p@),
            AttachmentPathIter::DocumentPrefix(p) => document_id_segments(p@.1).push(p@.2),
            AttachmentPathIter::DocumentName(p) => seq![p@.1.1, p@.2],
            AttachmentPathIter::AttachmentName(p) => seq![p@.2],
            AttachmentPathIter::Done => Seq::empty(),
        }
    }

    /// Hands out the next segment, if any.
    pub fn next(&mut self) -> (r: Option<&'a str>)
        ensures
            segment_step(old(self).remaining(), r, final(self).remaining()),
    {
        let (item, next) = match *self {
            AttachmentPathIter::DatabaseName(p) => (Some(p.db_name), AttachmentPathIter::DocumentPrefix(p)),
            AttachmentPathIter::DocumentPrefix(p) => match p.doc_id.prefix() {
                Some(x) => (Some(x), AttachmentPathIter::DocumentName(p)),
                None => (Some(p.doc_id.name_as_str()), AttachmentPathIter::AttachmentName(p)),
            },
            AttachmentPathIter::DocumentName(p) => (Some(p.doc_id.name_as_str()), AttachmentPathIter::AttachmentName(p)),
            AttachmentPathIter::AttachmentName(p) => (Some(p.att_name), AttachmentPathIter::Done),
            AttachmentPathIter::Done => (None, AttachmentPathIter::Done),
        };
        *self = next;
        proof {
            let b = old(self).remaining();
            if b.len() > 0 {
                assert(b.drop_first() =~= final(self).remaining());
            }
        }
        item
    }
}

// ------------------------------------------------------------------------
// View paths

/// Borrows the path of a view.
#[derive(Clone, Copy, Debug, PartialEq, Eq, Hash)]
pub struct ViewPathRef<'a> {
    db_name: &'a str,
    ddoc_name: &'a str,
    view_name: &'a str,
}

impl<'a> View for ViewPathRef<'a> {
    type V = (Seq<char>, Seq<char>, Seq<char>);

    closed spec fn view(&self) -> (Seq<char>, Seq<char>, Seq<char>) {
        (self.db_name@, self.ddoc_name@, self.view_name@)
    }
}

impl<'a> ViewPathRef<'a> {
    /// Borrows the path of a view from the path of its design document and
    /// its name.
    pub fn from(ddoc_path: DesignDocumentPathRef<'a>, view_name: &'a str) -> (r: Self)
        ensures
            r@ == (ddoc_path@.0, ddoc_path@.1, view_name@),
    {
        ViewPathRef { db_name: ddoc_path.db_name, ddoc_name: ddoc_path.ddoc_name, view_name }
    }

    /// Returns the database name.
    pub fn database_name(&self) -> (r: &'a str)
        ensures
            r@ == self@.0,
    {
        self.db_name
    }

    /// Returns the design document name.
    pub fn design_document_name(&self) -> (r: &'a str)
        ensures
            r@ == self@.1,
    {
        self.ddoc_name
    }

    /// Returns the view name.
    pub fn view_name(&self) -> (r: &'a str)
        ensures
            r@ == self@.2,
    {
        self.view_name
    }

    /// Starts a walk over the path segments.
    pub fn into_iter(self) -> (r: ViewPathIter<'a>)
        ensures
            r.remaining() == view_path_segments(self@),
    {
        ViewPathIter::DatabaseName(self)
    }

    /// Makes an owning copy of the path.
    pub fn into_owned(self) -> (r: ViewPath)
        ensures
            r@ == self@,
    {
        ViewPath::from((
            DatabaseName::from(self.db_name),
            DesignDocumentName::from(self.ddoc_name),
            ViewName::from(self.view_name),
        ))
    }
}

impl ViewPath {
    /// Borrows the path.
    pub fn as_ref(&self) -> (r: ViewPathRef<'_>)
        ensures
            r@ == self@,
    {
        ViewPathRef {
            db_name: self.database_name().as_str(),
            ddoc_name: self.design_document_name().as_str(),
            view_name: self.view_name().as_str(),
        }
    }
}

/// A walk over the segments of a view path.
pub enum ViewPathIter<'a> {
    DatabaseName(ViewPathRef<'a>),
    DesignPrefix(ViewPathRef<'a>),
    DocumentName(ViewPathRef<'a>),
    ViewPrefix(ViewPathRef<'a>),
    ViewName(ViewPathRef<'a>),
    Done,
}

impl<'a> ViewPathIter<'a> {
    /// The segments that the walk has yet to hand out.
    pub closed spec fn remaining(&self) -> Seq<Seq<char>> {
        match self {
            ViewPathIter::DatabaseName(p) => view_path_segments(p@),
            ViewPathIter::DesignPrefix(p) => seq![design_prefix_text(), p@.1, view_prefix_text(), p@.2],
            ViewPathIter::DocumentName(p) => seq![p@.1, view_prefix_text(), p@.2],
            ViewPathIter::ViewPrefix(p) => seq![view_prefix_text(), p@.2],
            ViewPathIter::ViewName(p) => seq![p@.2],
            ViewPathIter::Done => Seq::empty(),
        }
    }

    /// Hands out the next segment, if any.
    pub fn next(&mut self) -> (r: Option<&'a str>)
        ensures
            segment_step(old(self).remaining(), r, final(self).remaining()),
    {
        let (item, next) = match *self {
            ViewPathIter::DatabaseName(p) => (Some(p.db_name), ViewPathIter::DesignPrefix(p)),
            ViewPathIter::DesignPrefix(p) => (Some(design_prefix()), ViewPathIter::DocumentName(p)),
            ViewPathIter::DocumentName(p) => (Some(p.ddoc_name), ViewPathIter::ViewPrefix(p)),
            ViewPathIter::ViewPrefix(p) => (Some(view_prefix()), ViewPathIter::ViewName(p)),
            ViewPathIter::ViewName(p) => (Some(p.view_name), ViewPathIter::Done),
            ViewPathIter::Done => (None, ViewPathIter::Done),
        };
        *self = next;
        proof {
            let b = old(self).remaining();
            if b.len() > 0 {
                assert(b.drop_first() =~= final(self).remaining());
            }
        }
        item
    }
}

// ------------------------------------------------------------------------
// Database view paths

/// Borrows the path of a database view.
#[derive(Clone, Copy, Debug, PartialEq, Eq, Hash)]
pub struct DatabaseViewPathRef<'a> {
    db_name: &'a str,
    view_name: &'a str,
}

impl<'a> View for DatabaseViewPathRef<'a> {
    type V = (Seq<char>, Seq<char>);

    closed spec fn view(&self) -> (Seq<char>, Seq<char>) {
        (self.db_name@, self.view_name@)
    }
}

impl<'a> DatabaseViewPathRef<'a> {
    /// Borrows the path of a database view from the path of its database and
    /// its name.
    pub fn from(db_path: DatabasePathRef<'a>, view_name: &'a str) -> (r: Self)
        ensures
            r@ == (db_path@, view_name@),
    {
        DatabaseViewPathRef { db_name: db_path.db_name, view_name }
    }

    /// Returns the database name.
    pub fn database_name(&self) -> (r: &'a str)
        ensures
            r@ == self@.0,
    {
        self.db_name
    }

    /// Returns the view name.
    pub fn view_name(&self) -> (r: &'a str)
        ensures
            r@ == self@.1,
    {
        self.view_name
    }

    /// Starts a walk over the path segments.
    pub fn into_iter(self) -> (r: DatabaseViewPathIter<'a>)
        ensures
            r.remaining() == database_view_path_segments(self@),
    {
        DatabaseViewPathIter::DatabaseName(self)
    }

    /// Makes an owning copy of the path.
    pub fn into_owned(self) -> (r: DatabaseViewPath)
        ensures
            r@ == self@,
    {
        DatabaseViewPath::new(DatabaseName::from(self.db_name), ViewName::from(self.view_name))
    }
}

impl DatabaseViewPath {
    /// Borrows the path.
    pub fn as_ref(&self) -> (r: DatabaseViewPathRef<'_>)
        ensures
            r@ == self@,
    {
        DatabaseViewPathRef { db_name: self.database_name().as_str(), view_name: self.view_name().as_str() }
    }
}

/// A walk over the segments of a database view path.
pub enum DatabaseViewPathIter<'a> {
    DatabaseName(DatabaseViewPathRef<'a>),
    ViewName(DatabaseViewPathRef<'a>),
    Done,
}

impl<'a> DatabaseViewPathIter<'a> {
    /// The segments that the walk has yet to hand out.
    pub closed spec fn remaining(&self) -> Seq<Seq<char>> {
        match self {
            DatabaseViewPathIter::DatabaseName(p) => database_view_path_segments(p@),
            DatabaseViewPathIter::ViewName(p) => seq![p@.1],
            DatabaseViewPathIter::Done => Seq::empty(),
        }
    }

    /// Hands out the next segment, if any.
    pub fn next(&mut self) -> (r: Option<&'a str>)
        ensures
            segment_step(old(self).remaining(), r, final(self).remaining()),
    {
        let (item, next) = match *self {
            DatabaseViewPathIter::DatabaseName(p) => (Some(p.db_name), DatabaseViewPathIter::ViewName(p)),
            DatabaseViewPathIter::ViewName(p) => (Some(p.view_name), DatabaseViewPathIter::Done),
            DatabaseViewPathIter::Done => (None, DatabaseViewPathIter::Done),
        };
        *self = next;
        proof {
            let b = old(self).remaining();
            if b.len() > 0 {
                assert(b.drop_first() =~= final(self).remaining());
            }
        }
        item
    }
}

} // verus!
