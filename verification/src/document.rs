//! Documents: one version of a CouchDB document, with its content,
//! attachments and meta-information.
use vstd::prelude::*;
use crate::attachment::{
    Attachment, AttachmentBuilder, AttachmentModel, ContentType, attachment_json_model, saved_attachment_of_json,
    unsaved_model,
};
use crate::error::{Error, RevisionParseError};
use crate::json::{
    JsonModel, JsonValue, decode_fold, entries_model, has_no_entry_named, json_bool, json_model, json_text,
    lemma_decode_fold_step, lemma_decode_fold_stops, lemma_object_model, same_text,
};
use crate::path::{
    AttachmentName, AttachmentPath, DatabaseName, DocumentId, DocumentIdKind, DocumentPath, IntoAttachmentName,
    IntoDocumentPath, document_id_of_text,
};
use crate::revision::{Revision, parse_revision_text};

verus! {

// ------------------------------------------------------------------------
// Lists of named attachments

/// Whether entry `i` is the last entry of the list under the name `k`.
pub open spec fn is_last_named(v: Seq<(AttachmentName, Attachment)>, k: Seq<char>, i: int) -> bool {
    &&& 0 <= i < v.len()
    &&& v[i].0@ == k
    &&& forall|j: int| i < j < v.len() ==> v[j].0@ != k
}

/// The attachments that a list holds, by name; where a name occurs more
/// than once, the last entry counts.
pub open spec fn attachment_map(v: Seq<(AttachmentName, Attachment)>) -> Map<Seq<char>, AttachmentModel> {
    Map::new(
        |k: Seq<char>| exists|i: int| 0 <= i < v.len() && v[i].0@ == k,
        |k: Seq<char>| v[choose|i: int| is_last_named(v, k, i)].1@,
    )
}

/// Whether no name occurs twice in the list.
pub open spec fn names_distinct(v: Seq<(AttachmentName, Attachment)>) -> bool {
    forall|i: int, j: int| 0 <= i < v.len() && 0 <= j < v.len() && i != j ==> v[i].0@ != v[j].0@
}

proof fn lemma_last_named_exists(v: Seq<(AttachmentName, Attachment)>, k: Seq<char>, i0: int)
    requires
        0 <= i0 < v.len(),
        v[i0].0@ == k,
    ensures
        exists|i: int| is_last_named(v, k, i),
    decreases v.len(),
{
    let n = v.len() - 1;
    if v[n].0@ == k {
        assert(is_last_named(v, k, n));
    } else {
        let w = v.drop_last();
        assert(w[i0] == v[i0]);
        lemma_last_named_exists(w, k, i0);
        let i = choose|i: int| is_last_named(w, k, i);
        assert(is_last_named(v, k, i)) by {
            assert forall|j: int| i < j < v.len() implies v[j].0@ != k by {
                if j < n {
                    assert(w[j] == v[j]);
                }
            }
        }
    }
}

proof fn lemma_last_named_unique(v: Seq<(AttachmentName, Attachment)>, k: Seq<char>, i: int, j: int)
    requires
        is_last_named(v, k, i),
        is_last_named(v, k, j),
    ensures
        i == j,
{
}

/// In a list without repeated names, each entry is the last under its name,
/// and gives the attachment that the list holds under that name.
proof fn lemma_map_of_distinct(v: Seq<(AttachmentName, Attachment)>, i: int)
    requires
        names_distinct(v),
        0 <= i < v.len(),
    ensures
        is_last_named(v, v[i].0@, i),
        attachment_map(v).dom().contains(v[i].0@),
        attachment_map(v)[v[i].0@] == v[i].1@,
{
    let k = v[i].0@;
    assert(is_last_named(v, k, i));
    let c = choose|c: int| is_last_named(v, k, c);
    lemma_last_named_unique(v, k, i, c);
}

/// Appending an entry puts its attachment under its name.
proof fn lemma_map_push(v: Seq<(AttachmentName, Attachment)>, e: (AttachmentName, Attachment))
    ensures
        attachment_map(v.push(e)) == attachment_map(v).insert(e.0@, e.1@),
{
    let w = v.push(e);
    let n = v.len() as int;
    let a = attachment_map(w);
    let b = attachment_map(v).insert(e.0@, e.1@);
    assert(w[n] == e);
    assert forall|k: Seq<char>| a.dom().contains(k) <==> b.dom().contains(k) by {
        if a.dom().contains(k) {
            let i = choose|i: int| 0 <= i < w.len() && w[i].0@ == k;
            if i < n {
                assert(w[i] == v[i]);
            }
        }
        if b.dom().contains(k) && k != e.0@ {
            let i = choose|i: int| 0 <= i < v.len() && v[i].0@ == k;
            assert(w[i] == v[i]);
        }
    }
    assert forall|k: Seq<char>| a.dom().contains(k) implies a[k] == b[k] by {
        if k == e.0@ {
            assert(is_last_named(w, k, n));
            let c = choose|c: int| is_last_named(w, k, c);
            lemma_last_named_unique(w, k, n, c);
        } else {
            let i0 = choose|i: int| 0 <= i < w.len() && w[i].0@ == k;
            assert(i0 < n);
            assert(v[i0] == w[i0]);
            lemma_last_named_exists(v, k, i0);
            let i = choose|i: int| is_last_named(v, k, i);
            assert(is_last_named(w, k, i)) by {
                assert(w[i] == v[i]);
                assert forall|j: int| i < j < w.len() implies w[j].0@ != k by {
                    if j < n {
                        assert(w[j] == v[j]);
                    }
                }
            }
            let c = choose|c: int| is_last_named(w, k, c);
            lemma_last_named_unique(w, k, i, c);
            assert(w[i] == v[i]);
        }
    }
    assert(a =~= b);
}

/// Replacing the entry of a name puts the new attachment under that name.
proof fn lemma_map_update(v: Seq<(AttachmentName, Attachment)>, j: int, e: (AttachmentName, Attachment))
    requires
        names_distinct(v),
        0 <= j < v.len(),
        v[j].0@ == e.0@,
    ensures
        names_distinct(v.update(j, e)),
        attachment_map(v.update(j, e)) == attachment_map(v).insert(e.0@, e.1@),
{
    let w = v.update(j, e);
    assert(names_distinct(w)) by {
        assert forall|p: int, q: int| 0 <= p < w.len() && 0 <= q < w.len() && p != q implies w[p].0@ != w[q].0@ by {
            assert(w[p].0@ == v[p].0@);
            assert(w[q].0@ == v[q].0@);
        }
    }
    let a = attachment_map(w);
    let b = attachment_map(v).insert(e.0@, e.1@);
    assert forall|k: Seq<char>| a.dom().contains(k) <==> b.dom().contains(k) by {
        if a.dom().contains(k) {
            let i = choose|i: int| 0 <= i < w.len() && w[i].0@ == k;
            assert(v[i].0@ == k);
        }
        if b.dom().contains(k) {
            if k == e.0@ {
                assert(w[j].0@ == k);
            } else {
                let i = choose|i: int| 0 <= i < v.len() && v[i].0@ == k;
                assert(w[i].0@ == k);
            }
        }
    }
    assert forall|k: Seq<char>| a.dom().contains(k) implies a[k] == b[k] by {
        let i = choose|i: int| 0 <= i < w.len() && w[i].0@ == k;
        lemma_map_of_distinct(w, i);
        lemma_map_of_distinct(v, i);
    }
    assert(a =~= b);
}

/// Removing the entry of a name takes that name out.
proof fn lemma_map_remove(v: Seq<(AttachmentName, Attachment)>, j: int)
    requires
        names_distinct(v),
        0 <= j < v.len(),
    ensures
        names_distinct(v.remove(j)),
        attachment_map(v.remove(j)) == attachment_map(v).remove(v[j].0@),
{
    let w = v.remove(j);
    let gone = v[j].0@;
    assert forall|p: int| 0 <= p < w.len() implies w[p] == v[if p < j { p } else { p + 1 }] by {}
    assert(names_distinct(w)) by {
        assert forall|p: int, q: int| 0 <= p < w.len() && 0 <= q < w.len() && p != q implies w[p].0@ != w[q].0@ by {
            assert(w[p] == v[if p < j { p } else { p + 1 }]);
            assert(w[q] == v[if q < j { q } else { q + 1 }]);
        }
    }
    let a = attachment_map(w);
    let b = attachment_map(v).remove(gone);
    assert forall|k: Seq<char>| a.dom().contains(k) <==> b.dom().contains(k) by {
        if a.dom().contains(k) {
            let p = choose|p: int| 0 <= p < w.len() && w[p].0@ == k;
            let q = if p < j { p } else { p + 1 };
            assert(w[p] == v[q]);
            assert(k != gone);
        }
        if b.dom().contains(k) {
            let q = choose|q: int| 0 <= q < v.len() && v[q].0@ == k;
            assert(q != j);
            let p = if q < j { q } else { q - 1 };
            assert(w[p] == v[q]);
        }
    }
    assert forall|k: Seq<char>| a.dom().contains(k) implies a[k] == b[k] by {
        let p = choose|p: int| 0 <= p < w.len() && w[p].0@ == k;
        let q = if p < j { p } else { p + 1 };
        assert(w[p] == v[q]);
        lemma_map_of_distinct(w, p);
        lemma_map_of_distinct(v, q);
    }
    assert(a =~= b);
}

/// Finds the entry of a name.
fn find_named(v: &Vec<(AttachmentName, Attachment)>, name: &str) -> (r: Option<usize>)
    ensures
        match r {
            Some(j) => j < v@.len() && v@[j as int].0@ == name@,
            None => forall|i: int| 0 <= i < v@.len() ==> v@[i].0@ != name@,
        },
{
    let mut i: usize = 0;
    while i < v.len()
        invariant
            i <= v@.len(),
            forall|p: int| 0 <= p < i ==> v@[p].0@ != name@,
        decreases v@.len() - i,
    {
        if crate::path::str_equal(v[i].0.as_str(), name) {
            return Some(i);
        }
        i = i + 1;
    }
    None
}

/// Puts an attachment under a name, replacing one that stands there.
fn put_named(v: &mut Vec<(AttachmentName, Attachment)>, name: AttachmentName, att: Attachment)
    requires
        names_distinct(old(v)@),
    ensures
        names_distinct(final(v)@),
        attachment_map(final(v)@) == attachment_map(old(v)@).insert(name@, att@),
{
    match find_named(v, name.as_str()) {
        Some(j) => {
            proof {
                lemma_map_update(v@, j as int, (name, att));
            }
            v.set(j, (name, att));
        },
        None => {
            proof {
                lemma_map_push(v@, (name, att));
                let w = v@.push((name, att));
                assert(names_distinct(w)) by {
                    assert forall|p: int, q: int| 0 <= p < w.len() && 0 <= q < w.len() && p != q implies w[p].0@ != w[q].0@ by {
                        if p < v@.len() {
                            assert(w[p] == v@[p]);
                        }
                        if q < v@.len() {
                            assert(w[q] == v@[q]);
                        }
                    }
                }
            }
            v.push((name, att));
        },
    }
}

/// Takes out the attachment under a name, if one stands there.
fn remove_named(v: &mut Vec<(AttachmentName, Attachment)>, name: &str)
    requires
        names_distinct(old(v)@),
    ensures
        names_distinct(final(v)@),
        attachment_map(final(v)@) == attachment_map(old(v)@).remove(name@),
{
    match find_named(v, name) {
        Some(j) => {
            proof {
                lemma_map_remove(v@, j as int);
            }
            v.remove(j);
        },
        None => {
            assert(attachment_map(v@) =~= attachment_map(v@).remove(name@));
        },
    }
}

// ------------------------------------------------------------------------
// Documents

/// What a document is, abstractly.
pub struct DocumentModel {
    /// The database name and the document id.
    pub path: (Seq<char>, (DocumentIdKind, Seq<char>)),
    /// The sequence number and digest of the revision.
    pub revision: (u64, u128),
    pub deleted: bool,
    /// The attachments, by name.
    pub attachments: Map<Seq<char>, AttachmentModel>,
    pub content: JsonValue,
}

/// Contains a specific version of a document: its content, attachments and
/// meta-information. A document may be of any kind: normal, design or local.
#[derive(Debug)]
pub struct Document {
    doc_path: DocumentPath,
    revision: Revision,
    deleted: bool,
    attachments: Vec<(AttachmentName, Attachment)>,
    content: JsonValue,
}

impl View for Document {
    type V = DocumentModel;

    closed spec fn view(&self) -> DocumentModel {
        DocumentModel {
            path: self.doc_path@,
            revision: self.revision@,
            deleted: self.deleted,
            attachments: attachment_map(self.attachments@),
            content: self.content,
        }
    }
}

/// Whether `r` lists the attachments `m` of the document at `path`, each
/// once, with its path and the attachment itself, in some order.
pub open spec fn lists_attachments(
    r: Seq<(AttachmentPath, &Attachment)>,
    path: (Seq<char>, (DocumentIdKind, Seq<char>)),
    m: Map<Seq<char>, AttachmentModel>,
) -> bool {
    &&& forall|i: int| 0 <= i < r.len() ==> {
        let p = #[trigger] r[i].0@;
        &&& p.0 == path.0
        &&& p.1 == path.1
        &&& m.dom().contains(p.2)
        &&& r[i].1@ == m[p.2]
    }
    &&& forall|k: Seq<char>| m.dom().contains(k) ==> exists|i: int| 0 <= i < r.len() && (#[trigger] r[i].0@).2 == k
    &&& forall|i: int, j: int| 0 <= i < r.len() && 0 <= j < r.len() && i != j ==> r[i].0@.2 != r[j].0@.2
}

impl Document {
    #[verifier::type_invariant]
    closed spec fn wf(self) -> bool {
        names_distinct(self.attachments@)
    }

    /// Returns the path of the document.
    pub fn path(&self) -> (r: &DocumentPath)
        ensures
            r@ == self@.path,
    {
        &self.doc_path
    }

    /// Returns the revision of the document.
    pub fn revision(&self) -> (r: &Revision)
        ensures
            r@ == self@.revision,
    {
        &self.revision
    }

    /// Returns `true` if and only if the document is deleted. A deleted
    /// document comes back only where the revision asked for is the one at
    /// which it was deleted.
    pub fn is_deleted(&self) -> (r: bool)
        ensures
            r == self@.deleted,
    {
        self.deleted
    }

    /// Returns the content of the document, a JSON object.
    pub fn content(&self) -> (r: &JsonValue)
        ensures
            *r == self@.content,
    {
        &self.content
    }

    /// Replaces the content of the document. This changes the document in
    /// memory only; the server learns of it when the document is updated.
    pub fn set_content(&mut self, new_content: JsonValue)
        ensures
            final(self)@ == (DocumentModel { content: new_content, ..old(self)@ }),
    {
        proof {
            use_type_invariant(&*self);
        }
        self.content = new_content;
    }

    /// Returns the attachment of a given name, if the document has one.
    pub fn get_attachment<A: IntoAttachmentName>(&self, att_name: A) -> (r: Option<&Attachment>)
        ensures
            match r {
                Some(a) => self@.attachments.dom().contains(att_name.attachment_name_view())
                    && a@ == self@.attachments[att_name.attachment_name_view()],
                None => !self@.attachments.dom().contains(att_name.attachment_name_view()),
            },
    {
        proof {
            use_type_invariant(self);
        }
        let name = att_name.into_attachment_name();
        match find_named(&self.attachments, name.as_str()) {
            Some(j) => {
                proof {
                    lemma_map_of_distinct(self.attachments@, j as int);
                }
                Some(&self.attachments[j].1)
            },
            None => None,
        }
    }

    /// Creates or replaces the attachment of a given name, as an unsaved
    /// attachment of the given media type and content. This changes the
    /// document in memory only; the server learns of it when the document is
    /// updated.
    pub fn insert_attachment<A: IntoAttachmentName>(&mut self, att_name: A, content_type: ContentType, content: Vec<u8>)
        ensures
            final(self)@ == (DocumentModel {
                attachments: old(self)@.attachments.insert(
                    att_name.attachment_name_view(),
                    unsaved_model(content_type@, content@),
                ),
                ..old(self)@
            }),
    {
        proof {
            use_type_invariant(&*self);
        }
        let name = att_name.into_attachment_name();
        let att = AttachmentBuilder::new_unsaved(content_type, content).unwrap();
        let mut list: Vec<(AttachmentName, Attachment)> = Vec::new();
        std::mem::swap(&mut list, &mut self.attachments);
        put_named(&mut list, name, att);
        self.attachments = list;
    }

    /// Deletes the attachment of a given name, if the document has one. This
    /// changes the document in memory only; the server learns of it when the
    /// document is updated.
    pub fn remove_attachment<A: IntoAttachmentName>(&mut self, att_name: A)
        ensures
            final(self)@ == (DocumentModel {
                attachments: old(self)@.attachments.remove(att_name.attachment_name_view()),
                ..old(self)@
            }),
    {
        proof {
            use_type_invariant(&*self);
        }
        let name = att_name.into_attachment_name();
        let mut list: Vec<(AttachmentName, Attachment)> = Vec::new();
        std::mem::swap(&mut list, &mut self.attachments);
        remove_named(&mut list, name.as_str());
        self.attachments = list;
    }

    /// Returns all attachments of the document, each with its path.
    pub fn attachments(&self) -> (r: Vec<(AttachmentPath, &Attachment)>)
        ensures
            lists_attachments(r@, self@.path, self@.attachments),
    {
        proof {
            use_type_invariant(self);
        }
        let v = &self.attachments;
        let mut r: Vec<(AttachmentPath, &Attachment)> = Vec::new();
        let mut i: usize = 0;
        while i < v.len()
            invariant
                i <= v@.len(),
                names_distinct(v@),
                v == &self.attachments,
                r@.len() == i,
                forall|p: int| 0 <= p < i ==> {
                    let q = #[trigger] r@[p].0@;
                    &&& q == (self.doc_path@.0, self.doc_path@.1, v@[p].0@)
                    &&& r@[p].1 == &v@[p].1
                },
            decreases v@.len() - i,
        {
            let path = AttachmentPath::new(self.doc_path.clone(), v[i].0.clone());
            r.push((path, &v[i].1));
            i = i + 1;
        }
        proof {
            let m = attachment_map(v@);
            assert forall|p: int| 0 <= p < r@.len() implies {
                let q = #[trigger] r@[p].0@;
                &&& q.0 == self@.path.0
                &&& q.1 == self@.path.1
                &&& m.dom().contains(q.2)
                &&& r@[p].1@ == m[q.2]
            } by {
                lemma_map_of_distinct(v@, p);
            }
            assert forall|k: Seq<char>| m.dom().contains(k) implies exists|p: int| 0 <= p < r@.len() && (#[trigger] r@[p].0@).2 == k by {
                let p = choose|p: int| 0 <= p < v@.len() && v@[p].0@ == k;
                assert(r@[p].0@.2 == k);
            }
        }
        r
    }
}

/// Whether a map has no entries.
pub open spec fn map_is_empty(m: Map<Seq<char>, AttachmentModel>) -> bool {
    forall|k: Seq<char>| !m.dom().contains(k)
}

/// Whether `es` are the JSON entries that stand for the attachments `m`:
/// one for each, under its name.
pub open spec fn lists_attachment_json(es: Seq<(Seq<char>, JsonModel)>, m: Map<Seq<char>, AttachmentModel>) -> bool {
    &&& forall|i: int| 0 <= i < es.len() ==> m.dom().contains(#[trigger] es[i].0) && es[i].1 == attachment_json_model(m[es[i].0])
    &&& forall|k: Seq<char>| m.dom().contains(k) ==> exists|i: int| 0 <= i < es.len() && (#[trigger] es[i].0) == k
    &&& forall|i: int, j: int| 0 <= i < es.len() && 0 <= j < es.len() && i != j ==> es[i].0 != es[j].0
}

/// The content entries that a document keeps when it is sent: all but one
/// named `_attachments`, which the attachments replace.
pub open spec fn kept_content(es: Seq<(Seq<char>, JsonModel)>) -> Seq<(Seq<char>, JsonModel)> {
    es.filter(|e: (Seq<char>, JsonModel)| e.0 != "_attachments"@)
}

/// Whether `r` is the JSON object that the client sends for a document of
/// content entries `es` and attachments `m`: the content as it is where
/// there are no attachments, and otherwise the content with an
/// `_attachments` object in place of any such content field.
pub open spec fn document_json_matches(r: JsonModel, es: Seq<(Seq<char>, JsonModel)>, m: Map<Seq<char>, AttachmentModel>) -> bool {
    let kept = kept_content(es);
    match r {
        JsonModel::Object(out) => if map_is_empty(m) {
            out == es
        } else {
            &&& out.len() == kept.len() + 1
            &&& out.take(kept.len() as int) == kept
            &&& out.last().0 == "_attachments"@
            &&& out.last().1 matches JsonModel::Object(atts) && lists_attachment_json(atts, m)
        },
        _ => false,
    }
}

impl Document {
    /// Makes a document of a database from what was decoded of it.
    pub fn new_from_decoded(db_name: DatabaseName, doc: JsonDecodableDocument) -> (r: Self)
        ensures
            r@ == (DocumentModel {
                path: (db_name@, doc.doc_id@),
                revision: doc.revision@,
                deleted: doc.deleted,
                attachments: attachment_map(doc.attachments@),
                content: doc.content,
            }),
    {
        let JsonDecodableDocument { doc_id, revision, deleted, attachments, content } = doc;
        let mut rest = attachments;
        let ghost src = rest@;
        let ghost mut i: int = 0;
        let mut list: Vec<(AttachmentName, Attachment)> = Vec::new();
        assert(src.take(0) =~= Seq::<(AttachmentName, Attachment)>::empty());
        assert(attachment_map(list@) =~= attachment_map(src.take(0)));
        while rest.len() > 0
            invariant
                0 <= i <= src.len(),
                rest@ == src.skip(i),
                names_distinct(list@),
                attachment_map(list@) == attachment_map(src.take(i)),
            decreases rest.len(),
        {
            proof {
                assert(src.skip(i)[0] == src[i]);
            }
            let (name, att) = rest.remove(0);
            proof {
                assert(rest@ =~= src.skip(i + 1));
                lemma_map_push(src.take(i), (name, att));
                assert(src.take(i).push((name, att)) =~= src.take(i + 1));
            }
            put_named(&mut list, name, att);
            proof {
                i = i + 1;
            }
        }
        assert(src.take(i) =~= src);
        Document {
            doc_path: DocumentPath::new(db_name, doc_id),
            revision,
            deleted,
            attachments: list,
            content,
        }
    }

    /// Returns the JSON object that the client sends for the document: its
    /// content as it is if it has no attachments, and otherwise its content
    /// with an `_attachments` object in place of any content field of that
    /// name. The content must be a JSON object.
    pub fn to_json(&self) -> (r: JsonValue)
        requires
            self@.content is Object,
        ensures
            document_json_matches(json_model(r), entries_model(self@.content->Object_0@), self@.attachments),
    {
        proof {
            use_type_invariant(self);
        }
        let ghost m = self@.attachments;
        if self.attachments.len() == 0 {
            assert(map_is_empty(m)) by {
                assert forall|k: Seq<char>| !m.dom().contains(k) by {}
            }
            let r = self.content.duplicate();
            proof {
                lemma_object_model(self@.content->Object_0);
            }
            return r;
        }
        let es = match &self.content {
            JsonValue::Object(es) => es,
            _ => {
                return JsonValue::Null;
            },
        };
        let ghost src = entries_model(es@);
        let mut out: Vec<(String, JsonValue)> = Vec::new();
        let mut i: usize = 0;
        while i < es.len()
            invariant
                i <= es@.len(),
                src == entries_model(es@),
                entries_model(out@) == kept_content(src.take(i as int)),
            decreases es@.len() - i,
        {
            proof {
                reveal(Seq::filter);
                assert(src.take(i + 1).drop_last() =~= src.take(i as int));
                assert(src.take(i + 1).last() == src[i as int]);
            }
            let e = &es[i];
            if !same_text(e.0.as_str(), "_attachments") {
                let ghost before = out@;
                out.push((e.0.clone(), e.1.duplicate()));
                assert(entries_model(out@) =~= entries_model(before).push(src[i as int]));
            }
            i = i + 1;
        }
        assert(src.take(i as int) =~= src);
        let v = &self.attachments;
        let n = v.len();
        let ghost kept = entries_model(out@);
        let mut atts: Vec<(String, JsonValue)> = Vec::new();
        let mut j: usize = 0;
        while j < n
            invariant
                j <= n == v@.len(),
                names_distinct(v@),
                m == attachment_map(v@),
                atts@.len() == j,
                forall|p: int| 0 <= p < j ==> (#[trigger] atts@[p]).0@ == v@[p].0@
                    && json_model(atts@[p].1) == attachment_json_model(v@[p].1@),
            decreases n - j,
        {
            let e = &v[j];
            atts.push((e.0.to_string(), e.1.to_json()));
            j = j + 1;
        }
        let ghost am = entries_model(atts@);
        proof {
            assert forall|p: int| 0 <= p < am.len() implies m.dom().contains(#[trigger] am[p].0)
                && am[p].1 == attachment_json_model(m[am[p].0]) by {
                lemma_map_of_distinct(v@, p);
            }
            assert forall|k: Seq<char>| m.dom().contains(k) implies exists|p: int| 0 <= p < am.len() && (#[trigger] am[p].0) == k by {
                let p = choose|p: int| 0 <= p < v@.len() && v@[p].0@ == k;
                assert(am[p].0 == k);
            }
            lemma_map_of_distinct(v@, 0);
            lemma_object_model(atts);
        }
        let ghost before = out@;
        out.push(("_attachments".to_owned(), JsonValue::Object(atts)));
        proof {
            lemma_object_model(out);
            assert(entries_model(out@) =~= entries_model(before).push(("_attachments"@, JsonModel::Object(am))));
            assert(entries_model(out@).take(kept.len() as int) =~= kept);
        }
        JsonValue::Object(out)
    }
}

// ------------------------------------------------------------------------
// Decoding documents

/// A document as decoded from the server's JSON, before it is known in
/// which database it stands.
#[derive(Debug)]
pub struct JsonDecodableDocument {
    pub doc_id: DocumentId,
    pub revision: Revision,
    pub deleted: bool,
    pub attachments: Vec<(AttachmentName, Attachment)>,
    pub content: JsonValue,
}

/// One step of decoding the `_attachments` object: each entry is a saved
/// attachment under its name, and a later one replaces an earlier one.
pub open spec fn attachments_step(m: Map<Seq<char>, AttachmentModel>, e: (String, JsonValue)) -> Result<Map<Seq<char>, AttachmentModel>, Error> {
    match saved_attachment_of_json(e.1) {
        Ok(a) => Ok(m.insert(e.0@, a)),
        Err(x) => Err(x),
    }
}

/// The steps of decoding the `_attachments` object.
pub open spec fn attachments_steps() -> spec_fn(Map<Seq<char>, AttachmentModel>, (String, JsonValue)) -> Result<Map<Seq<char>, AttachmentModel>, Error> {
    |m: Map<Seq<char>, AttachmentModel>, e: (String, JsonValue)| attachments_step(m, e)
}

/// What the value of `_attachments` gives.
pub open spec fn attachments_of_json(v: JsonValue) -> Result<Map<Seq<char>, AttachmentModel>, Error> {
    match v {
        JsonValue::Object(es) => decode_fold(es@, Map::empty(), attachments_steps()),
        _ => Err(Error::InvalidType("_attachments")),
    }
}

/// Whether the entry at `i` is the last one of `s` under its name.
pub open spec fn is_last_of_name(s: Seq<(String, JsonValue)>, i: int) -> bool {
    &&& 0 <= i < s.len()
    &&& forall|j: int| i < j < s.len() ==> (#[trigger] s[j]).0@ != s[i].0@
}

proof fn lemma_attachments_fold(s: Seq<(String, JsonValue)>)
    requires
        forall|i: int| 0 <= i < s.len() ==> (#[trigger] saved_attachment_of_json(s[i].1)) is Ok,
    ensures
        decode_fold(s, Map::empty(), attachments_steps()) is Ok,
        forall|k: Seq<char>|
            #![trigger decode_fold(s, Map::<Seq<char>, AttachmentModel>::empty(), attachments_steps())->Ok_0.dom().contains(k)]
            decode_fold(s, Map::<Seq<char>, AttachmentModel>::empty(), attachments_steps())->Ok_0.dom().contains(k)
                <==> exists|i: int| 0 <= i < s.len() && (#[trigger] s[i]).0@ == k,
        forall|i: int|
            is_last_of_name(s, i) ==> decode_fold(s, Map::<Seq<char>, AttachmentModel>::empty(), attachments_steps())->Ok_0[
            (#[trigger] s[i]).0@] == saved_attachment_of_json(s[i].1)->Ok_0,
    decreases s.len(),
{
    let init = Map::<Seq<char>, AttachmentModel>::empty();
    if s.len() > 0 {
        let u = s.drop_last();
        let e = s.last();
        assert forall|i: int| 0 <= i < u.len() implies (#[trigger] saved_attachment_of_json(u[i].1)) is Ok by {
            assert(u[i] == s[i]);
        }
        lemma_attachments_fold(u);
        let m0 = decode_fold(u, init, attachments_steps())->Ok_0;
        assert(saved_attachment_of_json(s[s.len() - 1].1) is Ok);
        let a = saved_attachment_of_json(e.1)->Ok_0;
        assert(decode_fold(s, init, attachments_steps()) == Ok::<Map<Seq<char>, AttachmentModel>, Error>(m0.insert(e.0@, a)));
        let m = m0.insert(e.0@, a);
        assert forall|k: Seq<char>| m.dom().contains(k) <==> exists|i: int| 0 <= i < s.len() && (#[trigger] s[i]).0@ == k by {
            if m.dom().contains(k) {
                if k == e.0@ {
                    assert(s[s.len() - 1].0@ == k);
                } else {
                    assert(m0.dom().contains(k));
                    let i = choose|i: int| 0 <= i < u.len() && (#[trigger] u[i]).0@ == k;
                    assert(s[i] == u[i]);
                }
            }
            if exists|i: int| 0 <= i < s.len() && (#[trigger] s[i]).0@ == k {
                let i = choose|i: int| 0 <= i < s.len() && (#[trigger] s[i]).0@ == k;
                if i < u.len() {
                    assert(u[i] == s[i]);
                }
            }
        }
        assert forall|i: int| is_last_of_name(s, i) implies m[(#[trigger] s[i]).0@] == saved_attachment_of_json(s[i].1)->Ok_0 by {
            if i < u.len() {
                assert(s[s.len() - 1].0@ != s[i].0@);
                assert(u[i] == s[i]);
                assert forall|j: int| i < j < u.len() implies (#[trigger] u[j]).0@ != u[i].0@ by {
                    assert(u[j] == s[j]);
                }
                assert(is_last_of_name(u, i));
            }
        }
    }
}

/// Decoding an `_attachments` object whose entries all decode gives an
/// attachment under every name of the object and under no other name; the
/// attachment under a name is what the last entry of that name decodes to.
pub proof fn lemma_attachments_of_json_names(v: Vec<(String, JsonValue)>)
    requires
        forall|i: int| 0 <= i < v@.len() ==> (#[trigger] saved_attachment_of_json(v@[i].1)) is Ok,
    ensures
        attachments_of_json(JsonValue::Object(v)) is Ok,
        forall|k: Seq<char>|
            #![trigger attachments_of_json(JsonValue::Object(v))->Ok_0.dom().contains(k)]
            attachments_of_json(JsonValue::Object(v))->Ok_0.dom().contains(k) <==> exists|i: int|
                0 <= i < v@.len() && (#[trigger] v@[i]).0@ == k,
        forall|i: int|
            is_last_of_name(v@, i) ==> attachments_of_json(JsonValue::Object(v))->Ok_0[(#[trigger] v@[i]).0@]
                == saved_attachment_of_json(v@[i].1)->Ok_0,
{
    lemma_attachments_fold(v@);
}

/// Decodes the value of `_attachments`.
fn decode_attachments(v: JsonValue) -> (r: Result<Vec<(AttachmentName, Attachment)>, Error>)
    ensures
        match attachments_of_json(v) {
            Ok(m) => r matches Ok(l) && attachment_map(l@) == m,
            Err(e) => r matches Err(x) && x == e,
        },
{
    let ghost step = attachments_steps();
    let ghost init = Map::<Seq<char>, AttachmentModel>::empty();
    let mut rest = match v {
        JsonValue::Object(es) => es,
        _ => {
            return Err(Error::InvalidType("_attachments"));
        },
    };
    let ghost all = rest@;
    let ghost mut i: int = 0;
    let mut list: Vec<(AttachmentName, Attachment)> = Vec::new();
    assert(all.take(0) =~= Seq::<(String, JsonValue)>::empty());
    assert(attachment_map(list@) =~= init);
    while rest.len() > 0
        invariant
            0 <= i <= all.len(),
            rest@ == all.skip(i),
            decode_fold(all.take(i), init, step) == Ok::<Map<Seq<char>, AttachmentModel>, Error>(attachment_map(list@)),
            v is Object,
            all == v->Object_0@,
            step == attachments_steps(),
            init == Map::<Seq<char>, AttachmentModel>::empty(),
        decreases rest.len(),
    {
        proof {
            assert(all.skip(i)[0] == all[i]);
            lemma_decode_fold_step(all, init, step, i);
        }
        let (k, x) = rest.remove(0);
        proof {
            assert(rest@ =~= all.skip(i + 1));
            assert(all[i] == (k, x));
        }
        match Attachment::from_json(x) {
            Ok(a) => {
                let name = AttachmentName::from_string(k);
                proof {
                    lemma_map_push(list@, (name, a));
                }
                list.push((name, a));
            },
            Err(e) => {
                proof {
                    lemma_decode_fold_stops(all, init, step, i + 1);
                }
                return Err(e);
            },
        }
        proof {
            i = i + 1;
        }
    }
    assert(all.take(i) =~= all);
    Ok(list)
}

/// Whether the entry at `i` is the first of `c` named `k`.
pub open spec fn is_first_named(c: Seq<(String, JsonValue)>, k: Seq<char>, i: int) -> bool {
    &&& 0 <= i < c.len()
    &&& c[i].0@ == k
    &&& forall|p: int| 0 <= p < i ==> c[p].0@ != k
}

/// The content entries after a field is read into them: a field of a name
/// that stands already replaces it, in its place; any other is added at
/// the end.
pub open spec fn put_content(c: Seq<(String, JsonValue)>, e: (String, JsonValue)) -> Seq<(String, JsonValue)> {
    if exists|i: int| is_first_named(c, e.0@, i) {
        c.update(choose|i: int| is_first_named(c, e.0@, i), e)
    } else {
        c.push(e)
    }
}

/// Reads a content field into the content entries.
fn put_content_entry(content: &mut Vec<(String, JsonValue)>, e: (String, JsonValue))
    ensures
        final(content)@ == put_content(old(content)@, e),
{
    let mut j: usize = 0;
    while j < content.len()
        invariant
            j <= content@.len(),
            content@ == old(content)@,
            forall|p: int| 0 <= p < j ==> content@[p].0@ != e.0@,
        decreases content@.len() - j,
    {
        if same_text(content[j].0.as_str(), e.0.as_str()) {
            proof {
                assert(is_first_named(content@, e.0@, j as int));
                let c = choose|i: int| is_first_named(content@, e.0@, i);
                assert(c == j) by {
                    if c < j {
                        assert(content@[c].0@ != e.0@);
                    } else if c > j {
                        assert(content@[j as int].0@ != e.0@);
                    }
                }
            }
            content.set(j, e);
            return;
        }
        j = j + 1;
    }
    proof {
        assert(!exists|i: int| is_first_named(content@, e.0@, i));
    }
    content.push(e);
}

/// What has been decoded of a document so far.
pub struct DocumentFields {
    pub attachments: Option<Map<Seq<char>, AttachmentModel>>,
    pub deleted: Option<bool>,
    pub id: Option<(DocumentIdKind, Seq<char>)>,
    pub revision: Option<(u64, u128)>,
    pub content: Seq<(String, JsonValue)>,
}

/// Nothing decoded yet.
pub open spec fn no_document_fields() -> DocumentFields {
    DocumentFields { attachments: None, deleted: None, id: None, revision: None, content: Seq::empty() }
}

/// One step of decoding a document: `_attachments`, `_deleted`, `_id` and
/// `_rev` may each stand once and must hold a value of their type; every
/// other field is content, a later field of a name replacing an earlier
/// one.
pub open spec fn document_step(f: DocumentFields, e: (String, JsonValue)) -> Result<DocumentFields, Error> {
    let (k, v) = e;
    if k@ == "_attachments"@ {
        if f.attachments is Some {
            Err(Error::DuplicateField("_attachments"))
        } else {
            match attachments_of_json(v) {
                Ok(m) => Ok(DocumentFields { attachments: Some(m), ..f }),
                Err(x) => Err(x),
            }
        }
    } else if k@ == "_deleted"@ {
        if f.deleted is Some {
            Err(Error::DuplicateField("_deleted"))
        } else {
            match json_bool(v) {
                Some(b) => Ok(DocumentFields { deleted: Some(b), ..f }),
                None => Err(Error::InvalidType("_deleted")),
            }
        }
    } else if k@ == "_id"@ {
        if f.id is Some {
            Err(Error::DuplicateField("_id"))
        } else {
            match json_text(v) {
                Some(t) => Ok(DocumentFields { id: Some(document_id_of_text(t)), ..f }),
                None => Err(Error::InvalidType("_id")),
            }
        }
    } else if k@ == "_rev"@ {
        if f.revision is Some {
            Err(Error::DuplicateField("_rev"))
        } else {
            match json_text(v) {
                Some(t) => match parse_revision_text(t) {
                    Ok(x) => Ok(DocumentFields { revision: Some(x), ..f }),
                    Err(k) => Err(Error::RevisionParse { inner: k }),
                },
                None => Err(Error::InvalidType("_rev")),
            }
        }
    } else {
        Ok(DocumentFields { content: put_content(f.content, e), ..f })
    }
}

/// The steps of decoding a document.
pub open spec fn document_steps() -> spec_fn(DocumentFields, (String, JsonValue)) -> Result<DocumentFields, Error> {
    |f: DocumentFields, e: (String, JsonValue)| document_step(f, e)
}

/// A document as decoded, abstractly.
pub struct DecodedDocument {
    pub id: (DocumentIdKind, Seq<char>),
    pub revision: (u64, u128),
    pub deleted: bool,
    pub attachments: Map<Seq<char>, AttachmentModel>,
    pub content: Seq<(String, JsonValue)>,
}

/// What a JSON value gives as a document: `_id` and `_rev` must be there,
/// `_deleted` is false and `_attachments` empty where they are not.
pub open spec fn document_of_json(v: JsonValue) -> Result<DecodedDocument, Error> {
    match v {
        JsonValue::Object(es) => match decode_fold(es@, no_document_fields(), document_steps()) {
            Err(e) => Err(e),
            Ok(f) => if f.id is None {
                Err(Error::MissingField("_id"))
            } else if f.revision is None {
                Err(Error::MissingField("_rev"))
            } else {
                Ok(DecodedDocument {
                    id: f.id->0,
                    revision: f.revision->0,
                    deleted: match f.deleted {
                        Some(b) => b,
                        None => false,
                    },
                    attachments: match f.attachments {
                        Some(m) => m,
                        None => Map::empty(),
                    },
                    content: f.content,
                })
            },
        },
        _ => Err(Error::InvalidType("JsonDecodableDocument")),
    }
}

/// Whether a decodable document holds what was decoded.
pub open spec fn decoded_document_matches(x: JsonDecodableDocument, d: DecodedDocument) -> bool {
    &&& x.doc_id@ == d.id
    &&& x.revision@ == d.revision
    &&& x.deleted == d.deleted
    &&& attachment_map(x.attachments@) == d.attachments
    &&& x.content matches JsonValue::Object(c) && c@ == d.content
}

/// The abstract state of a document decoding in progress.
pub open spec fn document_fields_of(
    attachments: Option<Vec<(AttachmentName, Attachment)>>,
    deleted: Option<bool>,
    id: Option<DocumentId>,
    revision: Option<Revision>,
    content: Seq<(String, JsonValue)>,
) -> DocumentFields {
    DocumentFields {
        attachments: match attachments {
            Some(l) => Some(attachment_map(l@)),
            None => None,
        },
        deleted: deleted,
        id: match id {
            Some(d) => Some(d@),
            None => None,
        },
        revision: match revision {
            Some(x) => Some(x@),
            None => None,
        },
        content: content,
    }
}

/// Whether a field name is one of those a document's JSON reserves for
/// itself rather than for its content.
pub open spec fn is_reserved_field(k: Seq<char>) -> bool {
    k == "_attachments"@ || k == "_deleted"@ || k == "_id"@ || k == "_rev"@
}

proof fn lemma_put_content(c: Seq<(String, JsonValue)>, e: (String, JsonValue))
    ensures
        put_content(c, e).contains(e),
        forall|j: int| 0 <= j < c.len() && (#[trigger] c[j]).0@ != e.0@ ==> put_content(c, e).contains(c[j]),
        forall|j: int|
            0 <= j < put_content(c, e).len() ==> #[trigger] put_content(c, e)[j] == e || c.contains(put_content(c, e)[j]),
{
    let r = put_content(c, e);
    if exists|i: int| is_first_named(c, e.0@, i) {
        let i = choose|i: int| is_first_named(c, e.0@, i);
        assert(r[i] == e);
        assert forall|j: int| 0 <= j < c.len() && (#[trigger] c[j]).0@ != e.0@ implies r.contains(c[j]) by {
            assert(j != i);
            assert(r[j] == c[j]);
        }
        assert forall|j: int| 0 <= j < r.len() implies #[trigger] r[j] == e || c.contains(r[j]) by {
            if j != i {
                assert(r[j] == c[j]);
            }
        }
    } else {
        assert(r[c.len() as int] == e);
        assert forall|j: int| 0 <= j < c.len() && (#[trigger] c[j]).0@ != e.0@ implies r.contains(c[j]) by {
            assert(r[j] == c[j]);
        }
        assert forall|j: int| 0 <= j < r.len() implies #[trigger] r[j] == e || c.contains(r[j]) by {
            if j < c.len() {
                assert(r[j] == c[j]);
            }
        }
    }
}

proof fn lemma_reserved_names_differ()
    ensures
        "_attachments"@ != "_deleted"@,
        "_attachments"@ != "_id"@,
        "_attachments"@ != "_rev"@,
        "_deleted"@ != "_id"@,
        "_deleted"@ != "_rev"@,
        "_id"@ != "_rev"@,
{
    reveal_strlit("_attachments");
    reveal_strlit("_deleted");
    reveal_strlit("_id");
    reveal_strlit("_rev");
    assert("_attachments"@.len() != "_deleted"@.len());
    assert("_attachments"@.len() != "_id"@.len());
    assert("_attachments"@.len() != "_rev"@.len());
    assert("_deleted"@.len() != "_id"@.len());
    assert("_deleted"@.len() != "_rev"@.len());
    assert("_id"@.len() != "_rev"@.len());
}

proof fn lemma_document_fold_reserved(s: Seq<(String, JsonValue)>)
    requires
        decode_fold(s, no_document_fields(), document_steps()) is Ok,
    ensures
        ({
            let f = decode_fold(s, no_document_fields(), document_steps())->Ok_0;
            &&& forall|i: int|
                0 <= i < s.len() && (#[trigger] s[i]).0@ == "_id"@ ==> json_text(s[i].1) is Some && f.id == Some(
                    document_id_of_text(json_text(s[i].1)->0),
                )
            &&& forall|i: int|
                0 <= i < s.len() && (#[trigger] s[i]).0@ == "_rev"@ ==> json_text(s[i].1) is Some && parse_revision_text(
                    json_text(s[i].1)->0,
                ) is Ok && f.revision == Some(parse_revision_text(json_text(s[i].1)->0)->Ok_0)
            &&& forall|i: int|
                0 <= i < s.len() && (#[trigger] s[i]).0@ == "_deleted"@ ==> json_bool(s[i].1) is Some && f.deleted
                    == json_bool(s[i].1)
            &&& forall|i: int|
                0 <= i < s.len() && (#[trigger] s[i]).0@ == "_attachments"@ ==> attachments_of_json(s[i].1) is Ok
                    && f.attachments == Some(attachments_of_json(s[i].1)->Ok_0)
            &&& has_no_entry_named(s, "_deleted"@) ==> f.deleted is None
            &&& has_no_entry_named(s, "_attachments"@) ==> f.attachments is None
        }),
    decreases s.len(),
{
    lemma_reserved_names_differ();
    let init = no_document_fields();
    if s.len() > 0 {
        let u = s.drop_last();
        let e = s.last();
        assert(decode_fold(u, init, document_steps()) is Ok);
        lemma_document_fold_reserved(u);
        let f0 = decode_fold(u, init, document_steps())->Ok_0;
        let f = decode_fold(s, init, document_steps())->Ok_0;
        assert(decode_fold(s, init, document_steps()) == document_step(f0, e));
        assert forall|i: int| 0 <= i < s.len() && (#[trigger] s[i]).0@ == "_id"@ implies json_text(s[i].1) is Some
            && f.id == Some(document_id_of_text(json_text(s[i].1)->0)) by {
            if i < u.len() {
                assert(u[i] == s[i]);
            } else {
                assert(s[i] == e);
            }
        }
        assert forall|i: int| 0 <= i < s.len() && (#[trigger] s[i]).0@ == "_rev"@ implies json_text(s[i].1) is Some
            && parse_revision_text(json_text(s[i].1)->0) is Ok && f.revision == Some(
            parse_revision_text(json_text(s[i].1)->0)->Ok_0,
        ) by {
            if i < u.len() {
                assert(u[i] == s[i]);
            } else {
                assert(s[i] == e);
            }
        }
        assert forall|i: int| 0 <= i < s.len() && (#[trigger] s[i]).0@ == "_deleted"@ implies json_bool(s[i].1) is Some
            && f.deleted == json_bool(s[i].1) by {
            if i < u.len() {
                assert(u[i] == s[i]);
            } else {
                assert(s[i] == e);
            }
        }
        assert forall|i: int| 0 <= i < s.len() && (#[trigger] s[i]).0@ == "_attachments"@ implies attachments_of_json(
            s[i].1,
        ) is Ok && f.attachments == Some(attachments_of_json(s[i].1)->Ok_0) by {
            if i < u.len() {
                assert(u[i] == s[i]);
            } else {
                assert(s[i] == e);
            }
        }
        if has_no_entry_named(s, "_deleted"@) {
            assert(s[s.len() - 1].0@ != "_deleted"@);
            assert forall|j: int| 0 <= j < u.len() implies (#[trigger] u[j]).0@ != "_deleted"@ by {
                assert(u[j] == s[j]);
            }
        }
        if has_no_entry_named(s, "_attachments"@) {
            assert(s[s.len() - 1].0@ != "_attachments"@);
            assert forall|j: int| 0 <= j < u.len() implies (#[trigger] u[j]).0@ != "_attachments"@ by {
                assert(u[j] == s[j]);
            }
        }
    }
}

proof fn lemma_document_fold_content(s: Seq<(String, JsonValue)>)
    requires
        decode_fold(s, no_document_fields(), document_steps()) is Ok,
    ensures
        ({
            let f = decode_fold(s, no_document_fields(), document_steps())->Ok_0;
            &&& forall|i: int|
                is_last_of_name(s, i) && !is_reserved_field((#[trigger] s[i]).0@) ==> f.content.contains(s[i])
            &&& forall|j: int|
                0 <= j < f.content.len() ==> s.contains(#[trigger] f.content[j]) && !is_reserved_field(f.content[j].0@)
        }),
    decreases s.len(),
{
    let init = no_document_fields();
    if s.len() > 0 {
        let u = s.drop_last();
        let e = s.last();
        assert(decode_fold(u, init, document_steps()) is Ok);
        lemma_document_fold_content(u);
        let f0 = decode_fold(u, init, document_steps())->Ok_0;
        let f = decode_fold(s, init, document_steps())->Ok_0;
        assert(decode_fold(s, init, document_steps()) == document_step(f0, e));
        if is_reserved_field(e.0@) {
            assert(f.content == f0.content);
        } else {
            assert(f.content == put_content(f0.content, e));
            lemma_put_content(f0.content, e);
        }
        assert forall|i: int| is_last_of_name(s, i) && !is_reserved_field((#[trigger] s[i]).0@) implies f.content.contains(
            s[i],
        ) by {
            if i < u.len() {
                assert(u[i] == s[i]);
                assert(s[s.len() - 1].0@ != s[i].0@);
                assert forall|j: int| i < j < u.len() implies (#[trigger] u[j]).0@ != u[i].0@ by {
                    assert(u[j] == s[j]);
                }
                assert(is_last_of_name(u, i));
                assert(f0.content.contains(s[i]));
                let k = choose|k: int| 0 <= k < f0.content.len() && f0.content[k] == s[i];
                assert(f0.content[k].0@ != e.0@);
            } else {
                assert(s[i] == e);
            }
        }
        assert forall|j: int| 0 <= j < f.content.len() implies s.contains(#[trigger] f.content[j]) && !is_reserved_field(
            f.content[j].0@,
        ) by {
            if f.content[j] == e {
                assert(s[s.len() - 1] == e);
            } else {
                let k = choose|k: int| 0 <= k < f0.content.len() && f0.content[k] == f.content[j];
                assert(f0.content[k] == f.content[j]);
                let i = choose|i: int| 0 <= i < u.len() && u[i] == f0.content[k];
                assert(s[i] == u[i]);
            }
        }
    }
}

/// A decoded document holds what its fields say: the id that the text of
/// `_id` denotes, as `DocumentId::from` reads it; the revision that the text
/// of `_rev` parses to; the boolean of `_deleted`, false where there is
/// none; the attachments of `_attachments`, none where there is none; and
/// as content every other field, the last one of each name, and nothing
/// else.
pub proof fn lemma_document_of_json_fields(v: Vec<(String, JsonValue)>)
    requires
        document_of_json(JsonValue::Object(v)) is Ok,
    ensures
        ({
            let d = document_of_json(JsonValue::Object(v))->Ok_0;
            &&& forall|i: int|
                0 <= i < v@.len() && (#[trigger] v@[i]).0@ == "_id"@ ==> json_text(v@[i].1) is Some && d.id
                    == document_id_of_text(json_text(v@[i].1)->0)
            &&& forall|i: int|
                0 <= i < v@.len() && (#[trigger] v@[i]).0@ == "_rev"@ ==> json_text(v@[i].1) is Some && parse_revision_text(
                    json_text(v@[i].1)->0,
                ) == Ok::<(u64, u128), RevisionParseError>(d.revision)
            &&& forall|i: int|
                0 <= i < v@.len() && (#[trigger] v@[i]).0@ == "_deleted"@ ==> json_bool(v@[i].1) == Some(d.deleted)
            &&& has_no_entry_named(v@, "_deleted"@) ==> !d.deleted
            &&& forall|i: int|
                0 <= i < v@.len() && (#[trigger] v@[i]).0@ == "_attachments"@ ==> attachments_of_json(v@[i].1)
                    == Ok::<Map<Seq<char>, AttachmentModel>, Error>(d.attachments)
            &&& has_no_entry_named(v@, "_attachments"@) ==> d.attachments == Map::<Seq<char>, AttachmentModel>::empty()
            &&& forall|i: int|
                is_last_of_name(v@, i) && !is_reserved_field((#[trigger] v@[i]).0@) ==> d.content.contains(v@[i])
            &&& forall|j: int|
                0 <= j < d.content.len() ==> v@.contains(#[trigger] d.content[j]) && !is_reserved_field(d.content[j].0@)
        }),
{
    lemma_document_fold_reserved(v@);
    lemma_document_fold_content(v@);
}

impl JsonDecodableDocument {
    /// Decodes a document from the JSON object that the server sent.
    pub fn from_json(v: JsonValue) -> (r: Result<Self, Error>)
        ensures
            match document_of_json(v) {
                Ok(d) => r matches Ok(x) && decoded_document_matches(x, d),
                Err(e) => r matches Err(x) && x == e,
            },
    {
        let ghost step = document_steps();
        let ghost init = no_document_fields();
        let mut rest = match v {
            JsonValue::Object(es) => es,
            _ => {
                return Err(Error::InvalidType("JsonDecodableDocument"));
            },
        };
        let ghost all = rest@;
        let ghost mut i: int = 0;
        let mut attachments: Option<Vec<(AttachmentName, Attachment)>> = None;
        let mut deleted: Option<bool> = None;
        let mut id: Option<DocumentId> = None;
        let mut revision: Option<Revision> = None;
        let mut content: Vec<(String, JsonValue)> = Vec::new();
        assert(all.take(0) =~= Seq::<(String, JsonValue)>::empty());
        assert(document_fields_of(attachments, deleted, id, revision, content@) == init);
        while rest.len() > 0
            invariant
                0 <= i <= all.len(),
                rest@ == all.skip(i),
                decode_fold(all.take(i), init, step) == Ok::<DocumentFields, Error>(
                    document_fields_of(attachments, deleted, id, revision, content@),
                ),
                v is Object,
                all == v->Object_0@,
                step == document_steps(),
                init == no_document_fields(),
            decreases rest.len(),
        {
            proof {
                assert(all.skip(i)[0] == all[i]);
                lemma_decode_fold_step(all, init, step, i);
            }
            let ghost before = document_fields_of(attachments, deleted, id, revision, content@);
            let (k, x) = rest.remove(0);
            proof {
                assert(rest@ =~= all.skip(i + 1));
                assert(all[i] == (k, x));
                assert(decode_fold(all.take(i + 1), init, step) == document_step(before, (k, x)));
            }
            let key = k.as_str();
            let outcome: Result<(), Error> = if same_text(key, "_attachments") {
                if attachments.is_some() {
                    Err(Error::DuplicateField("_attachments"))
                } else {
                    match decode_attachments(x) {
                        Ok(l) => {
                            attachments = Some(l);
                            Ok(())
                        },
                        Err(e) => Err(e),
                    }
                }
            } else if same_text(key, "_deleted") {
                if deleted.is_some() {
                    Err(Error::DuplicateField("_deleted"))
                } else {
                    match x.as_bool() {
                        Some(b) => {
                            deleted = Some(b);
                            Ok(())
                        },
                        None => Err(Error::InvalidType("_deleted")),
                    }
                }
            } else if same_text(key, "_id") {
                if id.is_some() {
                    Err(Error::DuplicateField("_id"))
                } else {
                    match x {
                        JsonValue::String(t) => {
                            id = Some(DocumentId::new_from_string(t));
                            Ok(())
                        },
                        _ => Err(Error::InvalidType("_id")),
                    }
                }
            } else if same_text(key, "_rev") {
                if revision.is_some() {
                    Err(Error::DuplicateField("_rev"))
                } else {
                    match x {
                        JsonValue::String(t) => match Revision::parse(t.as_str()) {
                            Ok(x) => {
                                revision = Some(x);
                                Ok(())
                            },
                            Err(e) => Err(e),
                        },
                        _ => Err(Error::InvalidType("_rev")),
                    }
                }
            } else {
                put_content_entry(&mut content, (k, x));
                Ok(())
            };
            match outcome {
                Ok(()) => {},
                Err(e) => {
                    proof {
                        lemma_decode_fold_stops(all, init, step, i + 1);
                    }
                    return Err(e);
                },
            }
            proof {
                i = i + 1;
            }
        }
        assert(all.take(i) =~= all);
        let doc_id = match id {
            Some(d) => d,
            None => {
                return Err(Error::MissingField("_id"));
            },
        };
        let revision = match revision {
            Some(x) => x,
            None => {
                return Err(Error::MissingField("_rev"));
            },
        };
        let deleted = match deleted {
            Some(b) => b,
            None => false,
        };
        let attachments = match attachments {
            Some(l) => l,
            None => {
                let l: Vec<(AttachmentName, Attachment)> = Vec::new();
                assert(attachment_map(l@) =~= Map::<Seq<char>, AttachmentModel>::empty());
                l
            },
        };
        Ok(JsonDecodableDocument { doc_id, revision, deleted, attachments, content: JsonValue::Object(content) })
    }
}

// ------------------------------------------------------------------------
// The server's reply to a write

/// The server's reply to creating, updating or deleting a document, as the
/// actions read it: `ok`, the document id and its new revision. A missing
/// field is named in that order, other fields are passed over, and a field
/// that stands twice is an error. (`BasicDatabase` reads its replies with
/// the stricter `database::WriteDocumentResponse`.)
#[derive(Debug)]
pub struct WriteDocumentResponse {
    pub ok: bool,
    pub id: DocumentId,
    pub rev: Revision,
}

/// One step of decoding the reply to a write: `ok`, `id` and `rev` may each
/// stand once and must hold a value of their type; other fields are passed
/// over.
pub open spec fn write_response_step(
    s: (Option<bool>, Option<(DocumentIdKind, Seq<char>)>, Option<(u64, u128)>),
    e: (String, JsonValue),
) -> Result<(Option<bool>, Option<(DocumentIdKind, Seq<char>)>, Option<(u64, u128)>), Error> {
    let (k, v) = e;
    if k@ == "ok"@ {
        if s.0 is Some {
            Err(Error::DuplicateField("ok"))
        } else {
            match json_bool(v) {
                Some(b) => Ok((Some(b), s.1, s.2)),
                None => Err(Error::InvalidType("ok")),
            }
        }
    } else if k@ == "id"@ {
        if s.1 is Some {
            Err(Error::DuplicateField("id"))
        } else {
            match json_text(v) {
                Some(t) => Ok((s.0, Some(document_id_of_text(t)), s.2)),
                None => Err(Error::InvalidType("id")),
            }
        }
    } else if k@ == "rev"@ {
        if s.2 is Some {
            Err(Error::DuplicateField("rev"))
        } else {
            match json_text(v) {
                Some(t) => match parse_revision_text(t) {
                    Ok(x) => Ok((s.0, s.1, Some(x))),
                    Err(k) => Err(Error::RevisionParse { inner: k }),
                },
                None => Err(Error::InvalidType("rev")),
            }
        }
    } else {
        Ok(s)
    }
}

/// The steps of decoding the reply to a write.
pub open spec fn write_response_steps() -> spec_fn(
    (Option<bool>, Option<(DocumentIdKind, Seq<char>)>, Option<(u64, u128)>),
    (String, JsonValue),
) -> Result<(Option<bool>, Option<(DocumentIdKind, Seq<char>)>, Option<(u64, u128)>), Error> {
    |s: (Option<bool>, Option<(DocumentIdKind, Seq<char>)>, Option<(u64, u128)>), e: (String, JsonValue)|
        write_response_step(s, e)
}

/// What a JSON value gives as the reply to a write: `ok`, the document id
/// and the revision, each of which must be there.
pub open spec fn write_response_of_json(v: JsonValue) -> Result<(bool, (DocumentIdKind, Seq<char>), (u64, u128)), Error> {
    match v {
        JsonValue::Object(es) => match decode_fold(es@, (None, None, None), write_response_steps()) {
            Err(e) => Err(e),
            Ok((None, _, _)) => Err(Error::MissingField("ok")),
            Ok((Some(_), None, _)) => Err(Error::MissingField("id")),
            Ok((Some(_), Some(_), None)) => Err(Error::MissingField("rev")),
            Ok((Some(a), Some(b), Some(c))) => Ok((a, b, c)),
        },
        _ => Err(Error::InvalidType("WriteDocumentResponse")),
    }
}

proof fn lemma_write_response_fold(s: Seq<(String, JsonValue)>)
    requires
        decode_fold(s, (None, None, None), write_response_steps()) is Ok,
    ensures
        forall|i: int|
            0 <= i < s.len() && (#[trigger] s[i]).0@ == "id"@ ==> json_text(s[i].1) is Some && decode_fold(
                s,
                (None, None, None),
                write_response_steps(),
            )->Ok_0.1 == Some(document_id_of_text(json_text(s[i].1)->0)),
        forall|i: int|
            0 <= i < s.len() && (#[trigger] s[i]).0@ == "ok"@ ==> json_bool(s[i].1) is Some && decode_fold(
                s,
                (None, None, None),
                write_response_steps(),
            )->Ok_0.0 == json_bool(s[i].1),
        forall|i: int|
            0 <= i < s.len() && (#[trigger] s[i]).0@ == "rev"@ ==> json_text(s[i].1) is Some && parse_revision_text(
                json_text(s[i].1)->0,
            ) is Ok && decode_fold(s, (None, None, None), write_response_steps())->Ok_0.2 == Some(
                parse_revision_text(json_text(s[i].1)->0)->Ok_0,
            ),
        has_no_entry_named(s, "id"@) ==> decode_fold(s, (None, None, None), write_response_steps())->Ok_0.1 is None,
        has_no_entry_named(s, "ok"@) ==> decode_fold(s, (None, None, None), write_response_steps())->Ok_0.0 is None,
        has_no_entry_named(s, "rev"@) ==> decode_fold(s, (None, None, None), write_response_steps())->Ok_0.2 is None,
    decreases s.len(),
{
    let init = (None::<bool>, None::<(DocumentIdKind, Seq<char>)>, None::<(u64, u128)>);
    reveal_strlit("id");
    reveal_strlit("ok");
    reveal_strlit("rev");
    assert("id"@ != "ok"@) by {
        assert("id"@[0] != "ok"@[0]);
    }
    assert("id"@ != "rev"@) by {
        assert("id"@.len() != "rev"@.len());
    }
    assert("ok"@ != "rev"@) by {
        assert("ok"@.len() != "rev"@.len());
    }
    if s.len() > 0 {
        let u = s.drop_last();
        let e = s.last();
        assert(decode_fold(u, init, write_response_steps()) is Ok);
        lemma_write_response_fold(u);
        let f0 = decode_fold(u, init, write_response_steps())->Ok_0;
        let f = decode_fold(s, init, write_response_steps())->Ok_0;
        assert(decode_fold(s, init, write_response_steps()) == write_response_step(f0, e));
        assert forall|i: int| 0 <= i < s.len() && (#[trigger] s[i]).0@ == "id"@ implies json_text(s[i].1) is Some
            && f.1 == Some(document_id_of_text(json_text(s[i].1)->0)) by {
            if i < u.len() {
                assert(u[i] == s[i]);
            } else {
                assert(s[i] == e);
            }
        }
        assert forall|i: int| 0 <= i < s.len() && (#[trigger] s[i]).0@ == "ok"@ implies json_bool(s[i].1) is Some
            && f.0 == json_bool(s[i].1) by {
            if i < u.len() {
                assert(u[i] == s[i]);
            } else {
                assert(s[i] == e);
            }
        }
        assert forall|i: int| 0 <= i < s.len() && (#[trigger] s[i]).0@ == "rev"@ implies json_text(s[i].1) is Some
            && parse_revision_text(json_text(s[i].1)->0) is Ok && f.2 == Some(
            parse_revision_text(json_text(s[i].1)->0)->Ok_0,
        ) by {
            if i < u.len() {
                assert(u[i] == s[i]);
            } else {
                assert(s[i] == e);
            }
        }
        assert forall|j: int| 0 <= j < u.len() implies (#[trigger] u[j]) == s[j] by {}
    }
}

/// The reply to a write holds what its fields say: the document id that the
/// text of `id` denotes, as `DocumentId::from` reads it (so `_design/x`
/// names a design document), the boolean of `ok`, and the revision that the
/// text of `rev` parses to.
pub proof fn lemma_write_response_fields(v: Vec<(String, JsonValue)>)
    requires
        write_response_of_json(JsonValue::Object(v)) is Ok,
    ensures
        forall|i: int|
            0 <= i < v@.len() && (#[trigger] v@[i]).0@ == "id"@ ==> json_text(v@[i].1) is Some && write_response_of_json(
                JsonValue::Object(v),
            )->Ok_0.1 == document_id_of_text(json_text(v@[i].1)->0),
        forall|i: int|
            0 <= i < v@.len() && (#[trigger] v@[i]).0@ == "ok"@ ==> json_bool(v@[i].1) == Some(
                write_response_of_json(JsonValue::Object(v))->Ok_0.0,
            ),
        forall|i: int|
            0 <= i < v@.len() && (#[trigger] v@[i]).0@ == "rev"@ ==> json_text(v@[i].1) is Some && parse_revision_text(
                json_text(v@[i].1)->0,
            ) == Ok::<(u64, u128), RevisionParseError>(write_response_of_json(JsonValue::Object(v))->Ok_0.2),
{
    lemma_write_response_fold(v@);
}

impl WriteDocumentResponse {
    /// Decodes the reply to a write from the JSON object that the server
    /// sent.
    pub fn from_json(v: JsonValue) -> (r: Result<Self, Error>)
        ensures
            match write_response_of_json(v) {
                Ok(x) => r matches Ok(w) && w.ok == x.0 && w.id@ == x.1 && w.rev@ == x.2,
                Err(e) => r matches Err(x) && x == e,
            },
    {
        let ghost step = write_response_steps();
        let ghost init = (None::<bool>, None::<(DocumentIdKind, Seq<char>)>, None::<(u64, u128)>);
        let mut rest = match v {
            JsonValue::Object(es) => es,
            _ => {
                return Err(Error::InvalidType("WriteDocumentResponse"));
            },
        };
        let ghost all = rest@;
        let ghost mut i: int = 0;
        let mut ok: Option<bool> = None;
        let mut id: Option<DocumentId> = None;
        let mut rev: Option<Revision> = None;
        assert(all.take(0) =~= Seq::<(String, JsonValue)>::empty());
        while rest.len() > 0
            invariant
                0 <= i <= all.len(),
                rest@ == all.skip(i),
                decode_fold(all.take(i), init, step) == Ok::<(Option<bool>, Option<(DocumentIdKind, Seq<char>)>, Option<(u64, u128)>), Error>((
                    ok,
                    match id {
                        Some(d) => Some(d@),
                        None => None,
                    },
                    match rev {
                        Some(x) => Some(x@),
                        None => None,
                    },
                )),
                v is Object,
                all == v->Object_0@,
                step == write_response_steps(),
                init == (None::<bool>, None::<(DocumentIdKind, Seq<char>)>, None::<(u64, u128)>),
            decreases rest.len(),
        {
            proof {
                assert(all.skip(i)[0] == all[i]);
                lemma_decode_fold_step(all, init, step, i);
            }
            let (k, x) = rest.remove(0);
            proof {
                assert(rest@ =~= all.skip(i + 1));
                assert(all[i] == (k, x));
            }
            let key = k.as_str();
            let outcome: Result<(), Error> = if same_text(key, "ok") {
                if ok.is_some() {
                    Err(Error::DuplicateField("ok"))
                } else {
                    match x.as_bool() {
                        Some(b) => {
                            ok = Some(b);
                            Ok(())
                        },
                        None => Err(Error::InvalidType("ok")),
                    }
                }
            } else if same_text(key, "id") {
                if id.is_some() {
                    Err(Error::DuplicateField("id"))
                } else {
                    match x {
                        JsonValue::String(t) => {
                            id = Some(DocumentId::new_from_string(t));
                            Ok(())
                        },
                        _ => Err(Error::InvalidType("id")),
                    }
                }
            } else if same_text(key, "rev") {
                if rev.is_some() {
                    Err(Error::DuplicateField("rev"))
                } else {
                    match x {
                        JsonValue::String(t) => match Revision::parse(t.as_str()) {
                            Ok(x) => {
                                rev = Some(x);
                                Ok(())
                            },
                            Err(e) => Err(e),
                        },
                        _ => Err(Error::InvalidType("rev")),
                    }
                }
            } else {
                Ok(())
            };
            match outcome {
                Ok(()) => {},
                Err(e) => {
                    proof {
                        lemma_decode_fold_stops(all, init, step, i + 1);
                    }
                    return Err(e);
                },
            }
            proof {
                i = i + 1;
            }
        }
        assert(all.take(i) =~= all);
        match (ok, id, rev) {
            (None, _, _) => Err(Error::MissingField("ok")),
            (Some(_), None, _) => Err(Error::MissingField("id")),
            (Some(_), Some(_), None) => Err(Error::MissingField("rev")),
            (Some(a), Some(b), Some(c)) => Ok(WriteDocumentResponse { ok: a, id: b, rev: c }),
        }
    }
}

// ------------------------------------------------------------------------
// Building documents

/// Builds a document in memory, for tests and for the application's own
/// use.
#[derive(Debug)]
pub struct DocumentBuilder(Document);

impl View for DocumentBuilder {
    type V = DocumentModel;

    closed spec fn view(&self) -> DocumentModel {
        self.0@
    }
}

impl DocumentBuilder {
    /// Starts a document at a path and revision, not deleted, without
    /// attachments and with empty content. The path must parse.
    pub fn new<P: IntoDocumentPath>(doc_path: P, revision: Revision) -> (r: Self)
        requires
            doc_path.document_path_result() is Ok,
        ensures
            r@.path == doc_path.document_path_result()->Ok_0,
            r@.revision == revision@,
            !r@.deleted,
            map_is_empty(r@.attachments),
            r@.content matches JsonValue::Object(es) && es@.len() == 0,
    {
        let path = match doc_path.into_document_path() {
            Ok(p) => p,
            Err(_) => DocumentPath::new(DatabaseName::from_string(String::new()), DocumentId::from("")),
        };
        let attachments: Vec<(AttachmentName, Attachment)> = Vec::new();
        DocumentBuilder(Document {
            doc_path: path,
            revision,
            deleted: false,
            attachments,
            content: JsonValue::Object(Vec::new()),
        })
    }

    /// Replaces the content.
    pub fn with_content(self, new_content: JsonValue) -> (r: Self)
        ensures
            r@ == (DocumentModel { content: new_content, ..self@ }),
    {
        let DocumentBuilder(mut doc) = self;
        doc.set_content(new_content);
        DocumentBuilder(doc)
    }

    /// Returns the document built.
    pub fn unwrap(self) -> (r: Document)
        ensures
            r@ == self@,
    {
        self.0
    }
}

// ------------------------------------------------------------------------
// Laws of attachments

/// The JSON sent for a document holds every content entry that is not named
/// `_attachments`, whatever its value, and nothing else of the content; an
/// `_attachments` entry is added exactly when the document has attachments.
pub proof fn lemma_document_json_keeps_content(
    r: JsonModel,
    es: Seq<(Seq<char>, JsonModel)>,
    m: Map<Seq<char>, AttachmentModel>,
    i: int,
)
    requires
        document_json_matches(r, es, m),
        0 <= i < es.len(),
    ensures
        es[i].0 != "_attachments"@ ==> (r matches JsonModel::Object(out) && out.contains(es[i])),
        map_is_empty(m) ==> r == JsonModel::Object(es),
        !map_is_empty(m) ==> (r matches JsonModel::Object(out) && out.len() > 0 && out.last().0 == "_attachments"@ && forall|j: int|
            0 <= j < out.len() - 1 ==> es.contains(#[trigger] out[j]) && out[j].0 != "_attachments"@),
{
    let pred = |e: (Seq<char>, JsonModel)| e.0 != "_attachments"@;
    let kept = kept_content(es);
    assert(kept == es.filter(pred));
    if let JsonModel::Object(out) = r {
        if !map_is_empty(m) {
            assert(out.take(kept.len() as int) == kept);
            if es[i].0 != "_attachments"@ {
                es.lemma_filter_contains(pred, i);
                let k = choose|k: int| 0 <= k < kept.len() && kept[k] == es[i];
                assert(out[k] == kept[k]);
            }
            assert forall|j: int| 0 <= j < out.len() - 1 implies es.contains(#[trigger] out[j]) && out[j].0 != "_attachments"@ by {
                assert(out[j] == kept[j]);
                es.lemma_filter_pred(pred, j);
                es.lemma_filter_contains_rev(pred, kept[j]);
                assert(kept.contains(kept[j]));
            }
        } else {
            assert(out[i] == es[i]);
        }
    }
}

/// After an attachment is inserted under a name, reading that name gives
/// it back, and every other name reads as before.
pub proof fn lemma_get_after_insert(
    m: Map<Seq<char>, AttachmentModel>,
    k: Seq<char>,
    a: AttachmentModel,
    other: Seq<char>,
)
    requires
        other != k,
    ensures
        m.insert(k, a).dom().contains(k),
        m.insert(k, a)[k] == a,
        m.insert(k, a).dom().contains(other) == m.dom().contains(other),
        m.dom().contains(other) ==> m.insert(k, a)[other] == m[other],
{
}

/// After the attachment of a name is removed, that name reads as absent,
/// and every other name reads as before.
pub proof fn lemma_get_after_remove(m: Map<Seq<char>, AttachmentModel>, k: Seq<char>, other: Seq<char>)
    requires
        other != k,
    ensures
        !m.remove(k).dom().contains(k),
        m.remove(k).dom().contains(other) == m.dom().contains(other),
        m.dom().contains(other) ==> m.remove(k)[other] == m[other],
{
}

/// Removing an attachment undoes inserting it under a name that was free,
/// and inserting twice under one name keeps the second.
pub proof fn lemma_insert_remove(m: Map<Seq<char>, AttachmentModel>, k: Seq<char>, a: AttachmentModel, b: AttachmentModel)
    ensures
        !m.dom().contains(k) ==> m.insert(k, a).remove(k) == m,
        m.insert(k, a).insert(k, b) == m.insert(k, b),
{
    assert(!m.dom().contains(k) ==> m.insert(k, a).remove(k) =~= m);
    assert(m.insert(k, a).insert(k, b) =~= m.insert(k, b));
}

} // verus!
