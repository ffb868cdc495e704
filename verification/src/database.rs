//! A database on a CouchDB server, and the requests that create, read and
//! update its documents.
use vstd::prelude::*;
use crate::action::read_outcome;
use crate::document::{Document, document_json_matches};
use crate::error::{Error, RevisionParseError};
use crate::json::{
    JsonModel, JsonValue, decode_fold, entries_model, is_last_named_entry, json_bool, json_model, json_text,
    lemma_decode_fold_step, lemma_decode_fold_stops, lemma_object_model, same_text,
};
use crate::option::CreateDocumentOptions;
use crate::path::{DatabaseName, DocumentId, DocumentIdKind, DocumentPath, document_id_of_text, document_id_text};
use crate::revision::{Revision, parse_revision_text, revision_text};
use crate::transport::{
    Method, Request, RequestModel, RevisionQueryKey, STATUS_CONFLICT, STATUS_CREATED, STATUS_NOT_FOUND, STATUS_OK,
    STATUS_UNAUTHORIZED, decode_error_body, error_body_matches, is_server_error, server_error,
};

verus! {

/// The content of a new document with its id set: every `_id` entry of the
/// content gives way to one of the chosen id, at the end.
pub open spec fn content_with_id(es: Seq<(Seq<char>, JsonModel)>, id: Seq<char>) -> Seq<(Seq<char>, JsonModel)> {
    es.filter(|e: (Seq<char>, JsonModel)| e.0 != "_id"@).push(("_id"@, JsonModel::Str(id)))
}

/// The fields of a database's reply to a write, as far as decoding has read
/// them.
pub struct WriteReplyFields {
    pub id: Option<(DocumentIdKind, Seq<char>)>,
    pub ok: Option<bool>,
    pub rev: Option<(u64, u128)>,
}

/// One step of decoding a database's reply to a write: `id`, `ok` and
/// `rev` must hold a value of their type, a later one replacing an earlier
/// one; any other field is an error.
pub open spec fn write_reply_step(f: WriteReplyFields, e: (String, JsonValue)) -> Result<WriteReplyFields, Error> {
    let (k, v) = e;
    if k@ == "id"@ {
        match json_text(v) {
            Some(t) => Ok(WriteReplyFields { id: Some(document_id_of_text(t)), ..f }),
            None => Err(Error::InvalidType("id")),
        }
    } else if k@ == "ok"@ {
        match json_bool(v) {
            Some(b) => Ok(WriteReplyFields { ok: Some(b), ..f }),
            None => Err(Error::InvalidType("ok")),
        }
    } else if k@ == "rev"@ {
        match json_text(v) {
            Some(t) => match parse_revision_text(t) {
                Ok(x) => Ok(WriteReplyFields { rev: Some(x), ..f }),
                Err(k) => Err(Error::RevisionParse { inner: k }),
            },
            None => Err(Error::InvalidType("rev")),
        }
    } else {
        Err(Error::UnknownField { name: k })
    }
}

/// The steps of decoding a database's reply to a write.
pub open spec fn write_reply_steps() -> spec_fn(WriteReplyFields, (String, JsonValue)) -> Result<WriteReplyFields, Error> {
    |f: WriteReplyFields, e: (String, JsonValue)| write_reply_step(f, e)
}

/// What a JSON value gives as a database's reply to a write: the document
/// id, `ok` and the revision; a field that is missing is named in that
/// order.
pub open spec fn write_reply_of_json(v: JsonValue) -> Result<((DocumentIdKind, Seq<char>), bool, (u64, u128)), Error> {
    match v {
        JsonValue::Object(es) => match decode_fold(es@, WriteReplyFields { id: None, ok: None, rev: None }, write_reply_steps()) {
            Err(e) => Err(e),
            Ok(f) => match (f.id, f.ok, f.rev) {
                (None, _, _) => Err(Error::MissingField("id")),
                (Some(_), None, _) => Err(Error::MissingField("ok")),
                (Some(_), Some(_), None) => Err(Error::MissingField("rev")),
                (Some(a), Some(b), Some(c)) => Ok((a, b, c)),
            },
        },
        _ => Err(Error::InvalidType("WriteDocumentResponse")),
    }
}

/// A database's reply to creating or updating a document: the document id
/// and its new revision.
#[derive(Debug)]
pub struct WriteDocumentResponse {
    pub ok: bool,
    pub doc_id: DocumentId,
    pub revision: Revision,
}

proof fn lemma_write_reply_fold(s: Seq<(String, JsonValue)>)
    requires
        decode_fold(s, WriteReplyFields { id: None, ok: None, rev: None }, write_reply_steps()) is Ok,
    ensures
        ({
            let f = decode_fold(s, WriteReplyFields { id: None, ok: None, rev: None }, write_reply_steps())->Ok_0;
            &&& forall|i: int|
                is_last_named_entry(s, "id"@, i) ==> json_text((#[trigger] s[i]).1) is Some && f.id == Some(
                    document_id_of_text(json_text(s[i].1)->0),
                )
            &&& forall|i: int|
                is_last_named_entry(s, "ok"@, i) ==> json_bool((#[trigger] s[i]).1) is Some && f.ok == json_bool(s[i].1)
            &&& forall|i: int|
                is_last_named_entry(s, "rev"@, i) ==> json_text((#[trigger] s[i]).1) is Some && parse_revision_text(
                    json_text(s[i].1)->0,
                ) is Ok && f.rev == Some(parse_revision_text(json_text(s[i].1)->0)->Ok_0)
        }),
    decreases s.len(),
{
    let init = WriteReplyFields { id: None, ok: None, rev: None };
    reveal_strlit("id");
    reveal_strlit("ok");
    reveal_strlit("rev");
    assert("id"@ != "ok"@) by {
        assert("id"@[0] != "ok"@[0]);
    }
    assert("id"@ != "rev"@) by {
        assert("id"@.len() != "rev"@.len());
    }
    assert("ok"@ != "rev"@) by {
        assert("ok"@.len() != "rev"@.len());
    }
    if s.len() > 0 {
        let u = s.drop_last();
        let e = s.last();
        assert(decode_fold(u, init, write_reply_steps()) is Ok);
        lemma_write_reply_fold(u);
        let f0 = decode_fold(u, init, write_reply_steps())->Ok_0;
        let f = decode_fold(s, init, write_reply_steps())->Ok_0;
        assert(decode_fold(s, init, write_reply_steps()) == write_reply_step(f0, e));
        assert forall|i: int| is_last_named_entry(s, "id"@, i) implies json_text((#[trigger] s[i]).1) is Some && f.id == Some(
            document_id_of_text(json_text(s[i].1)->0),
        ) by {
            if i < u.len() {
                assert(s[s.len() - 1].0@ != "id"@);
                assert(u[i] == s[i]);
                assert forall|j: int| i < j < u.len() implies (#[trigger] u[j]).0@ != "id"@ by {
                    assert(u[j] == s[j]);
                }
                assert(is_last_named_entry(u, "id"@, i));
            } else {
                assert(s[i] == e);
            }
        }
        assert forall|i: int| is_last_named_entry(s, "ok"@, i) implies json_bool((#[trigger] s[i]).1) is Some && f.ok
            == json_bool(s[i].1) by {
            if i < u.len() {
                assert(s[s.len() - 1].0@ != "ok"@);
                assert(u[i] == s[i]);
                assert forall|j: int| i < j < u.len() implies (#[trigger] u[j]).0@ != "ok"@ by {
                    assert(u[j] == s[j]);
                }
                assert(is_last_named_entry(u, "ok"@, i));
            } else {
                assert(s[i] == e);
            }
        }
        assert forall|i: int| is_last_named_entry(s, "rev"@, i) implies json_text((#[trigger] s[i]).1) is Some
            && parse_revision_text(json_text(s[i].1)->0) is Ok && f.rev == Some(
            parse_revision_text(json_text(s[i].1)->0)->Ok_0,
        ) by {
            if i < u.len() {
                assert(s[s.len() - 1].0@ != "rev"@);
                assert(u[i] == s[i]);
                assert forall|j: int| i < j < u.len() implies (#[trigger] u[j]).0@ != "rev"@ by {
                    assert(u[j] == s[j]);
                }
                assert(is_last_named_entry(u, "rev"@, i));
            } else {
                assert(s[i] == e);
            }
        }
    }
}

/// A database's reply to a write holds what the last field of each name
/// says: the document id that the text of `id` denotes, as
/// `DocumentId::from` reads it (so `_design/x` names a design document),
/// the boolean of `ok`, and the revision that the text of `rev` parses to.
pub proof fn lemma_write_reply_fields(v: Vec<(String, JsonValue)>)
    requires
        write_reply_of_json(JsonValue::Object(v)) is Ok,
    ensures
        ({
            let w = write_reply_of_json(JsonValue::Object(v))->Ok_0;
            &&& forall|i: int|
                is_last_named_entry(v@, "id"@, i) ==> json_text((#[trigger] v@[i]).1) is Some && w.0 == document_id_of_text(
                    json_text(v@[i].1)->0,
                )
            &&& forall|i: int| is_last_named_entry(v@, "ok"@, i) ==> json_bool((#[trigger] v@[i]).1) == Some(w.1)
            &&& forall|i: int|
                is_last_named_entry(v@, "rev"@, i) ==> json_text((#[trigger] v@[i]).1) is Some && parse_revision_text(
                    json_text(v@[i].1)->0,
                ) == Ok::<(u64, u128), RevisionParseError>(w.2)
        }),
{
    lemma_write_reply_fold(v@);
}

impl WriteDocumentResponse {
    /// Decodes a database's reply to a write from the JSON object that the
    /// server sent.
    pub fn from_json(v: JsonValue) -> (r: Result<Self, Error>)
        ensures
            match write_reply_of_json(v) {
                Ok(x) => r matches Ok(w) && w.doc_id@ == x.0 && w.ok == x.1 && w.revision@ == x.2,
                Err(e) => r matches Err(x) && x == e,
            },
    {
        let ghost step = write_reply_steps();
        let ghost init = WriteReplyFields { id: None, ok: None, rev: None };
        let mut rest = match v {
            JsonValue::Object(es) => es,
            _ => {
                return Err(Error::InvalidType("WriteDocumentResponse"));
            },
        };
        let ghost all = rest@;
        let ghost mut i: int = 0;
        let mut id: Option<DocumentId> = None;
        let mut ok: Option<bool> = None;
        let mut rev: Option<Revision> = None;
        assert(all.take(0) =~= Seq::<(String, JsonValue)>::empty());
        while rest.len() > 0
            invariant
                0 <= i <= all.len(),
                rest@ == all.skip(i),
                decode_fold(all.take(i), init, step) == Ok::<WriteReplyFields, Error>(WriteReplyFields {
                    id: match id {
                        Some(d) => Some(d@),
                        None => None,
                    },
                    ok: ok,
                    rev: match rev {
                        Some(x) => Some(x@),
                        None => None,
                    },
                }),
                v is Object,
                all == v->Object_0@,
                step == write_reply_steps(),
                init == (WriteReplyFields { id: None, ok: None, rev: None }),
            decreases rest.len(),
        {
            proof {
                assert(all.skip(i)[0] == all[i]);
                lemma_decode_fold_step(all, init, step, i);
            }
            let (k, x) = rest.remove(0);
            proof {
                assert(rest@ =~= all.skip(i + 1));
                assert(all[i] == (k, x));
            }
            let outcome: Result<(), Error> = if same_text(k.as_str(), "id") {
                match x {
                    JsonValue::String(t) => {
                        id = Some(DocumentId::new_from_string(t));
                        Ok(())
                    },
                    _ => Err(Error::InvalidType("id")),
                }
            } else if same_text(k.as_str(), "ok") {
                match x.as_bool() {
                    Some(b) => {
                        ok = Some(b);
                        Ok(())
                    },
                    None => Err(Error::InvalidType("ok")),
                }
            } else if same_text(k.as_str(), "rev") {
                match x {
                    JsonValue::String(t) => match Revision::parse(t.as_str()) {
                        Ok(x) => {
                            rev = Some(x);
                            Ok(())
                        },
                        Err(e) => Err(e),
                    },
                    _ => Err(Error::InvalidType("rev")),
                }
            } else {
                Err(Error::UnknownField { name: k })
            };
            match outcome {
                Ok(()) => {},
                Err(e) => {
                    proof {
                        lemma_decode_fold_stops(all, init, step, i + 1);
                    }
                    return Err(e);
                },
            }
            proof {
                i = i + 1;
            }
        }
        assert(all.take(i) =~= all);
        match (id, ok, rev) {
            (None, _, _) => Err(Error::MissingField("id")),
            (Some(_), None, _) => Err(Error::MissingField("ok")),
            (Some(_), Some(_), None) => Err(Error::MissingField("rev")),
            (Some(a), Some(b), Some(c)) => Ok(WriteDocumentResponse { ok: b, doc_id: a, revision: c }),
        }
    }
}

/// What a handler of a database's reply to a write gives: an error in the
/// content as it is, or the reply that the content decodes to.
pub open spec fn write_reply_outcome(r: Result<(DocumentId, Revision), Error>, body: Result<JsonValue, Error>) -> bool {
    match body {
        Err(e) => r matches Err(x) && x == e,
        Ok(v) => match write_reply_of_json(v) {
            Ok(w) => r matches Ok((i, rv)) && i@ == w.0 && rv@ == w.2,
            Err(e) => r matches Err(x) && x == e,
        },
    }
}

/// A database of a CouchDB server.
#[derive(Debug)]
pub struct BasicDatabase {
    db_name: DatabaseName,
}

impl View for BasicDatabase {
    type V = Seq<char>;

    closed spec fn view(&self) -> Seq<char> {
        self.db_name@
    }
}

impl BasicDatabase {
    /// Names the database.
    pub fn new(db_name: DatabaseName) -> (r: Self)
        ensures
            r@ == db_name@,
    {
        BasicDatabase { db_name }
    }

    /// Returns the name of the database.
    pub fn name(&self) -> (r: &DatabaseName)
        ensures
            r@ == self@,
    {
        &self.db_name
    }

    /// Makes the request that creates a document: a `POST` of the content to
    /// the database, with the chosen id, if any, as the content's `_id`. The
    /// content must be a JSON object.
    pub fn create_document_request(&self, content: JsonValue, options: &CreateDocumentOptions) -> (r: Result<Request, Error>)
        ensures
            match json_model(content) {
                JsonModel::Object(es) => r matches Ok(q) && q@.method == Method::Post && q@.path == seq![self@]
                    && q@.query.len() == 0 && q@.accept_json && q@.body == Some(JsonModel::Object(
                    match options@ {
                        Some(id) => content_with_id(es, document_id_text(id)),
                        None => es,
                    },
                )),
                _ => r matches Err(Error::ContentNotAnObject),
            },
    {
        let entries = match content {
            JsonValue::Object(es) => es,
            _ => {
                return Err(Error::ContentNotAnObject);
            },
        };
        proof {
            lemma_object_model(entries);
        }
        let body = match options.document_id() {
            None => JsonValue::Object(entries),
            Some(id) => {
                let ghost src = entries_model(entries@);
                let mut rest = entries;
                let ghost all = rest@;
                let ghost mut i: int = 0;
                let mut out: Vec<(String, JsonValue)> = Vec::new();
                while rest.len() > 0
                    invariant
                        0 <= i <= all.len(),
                        rest@ == all.skip(i),
                        src == entries_model(all),
                        entries_model(out@) == src.take(i).filter(|e: (Seq<char>, JsonModel)| e.0 != "_id"@),
                    decreases rest.len(),
                {
                    proof {
                        reveal(Seq::filter);
                        assert(all.skip(i)[0] == all[i]);
                        assert(src.take(i + 1).drop_last() =~= src.take(i));
                        assert(src.take(i + 1).last() == src[i]);
                    }
                    let (k, x) = rest.remove(0);
                    proof {
                        assert(rest@ =~= all.skip(i + 1));
                    }
                    if !same_text(k.as_str(), "_id") {
                        let ghost before = out@;
                        out.push((k, x));
                        assert(entries_model(out@) =~= entries_model(before).push(src[i]));
                    }
                    proof {
                        i = i + 1;
                    }
                }
                assert(src.take(i) =~= src);
                let ghost kept = out@;
                out.push(("_id".to_owned(), JsonValue::String(id.to_string())));
                proof {
                    lemma_object_model(out);
                    assert(entries_model(out@) =~= entries_model(kept).push(("_id"@, JsonModel::Str(document_id_text(id@)))));
                }
                JsonValue::Object(out)
            },
        };
        let path: Vec<&str> = vec![self.db_name.as_str()];
        let r = Request::new(Method::Post, path).with_accept_json().with_json_content(body);
        Ok(r)
    }

    /// Reads the response to the request that creates a document:
    /// `201 Created` gives the document's id and revision.
    pub fn handle_create_response(status: u16, body: Result<JsonValue, Error>) -> (r: Result<(DocumentId, Revision), Error>)
        ensures
            status == STATUS_CREATED ==> write_reply_outcome(r, body),
            status == STATUS_CONFLICT ==> (r matches Err(Error::DocumentConflict(x)) && error_body_matches(x, body)),
            status == STATUS_UNAUTHORIZED ==> (r matches Err(Error::Unauthorized(x)) && error_body_matches(x, body)),
            status != STATUS_CREATED && status != STATUS_CONFLICT && status != STATUS_UNAUTHORIZED
                ==> (r matches Err(e) && is_server_error(e, status, body)),
    {
        if status == STATUS_CREATED {
            let v = body?;
            let w = WriteDocumentResponse::from_json(v)?;
            Ok((w.doc_id, w.revision))
        } else if status == STATUS_CONFLICT {
            Err(Error::DocumentConflict(decode_error_body(body)))
        } else if status == STATUS_UNAUTHORIZED {
            Err(Error::Unauthorized(decode_error_body(body)))
        } else {
            Err(server_error(status, body))
        }
    }

    /// Makes the request that reads a document: a `GET` of the database and
    /// the document id, the id standing as one path segment.
    pub fn read_document_request(&self, doc_id: &DocumentId) -> (r: Request)
        ensures
            r@ == (RequestModel {
                method: Method::Get,
                path: seq![self@, document_id_text(doc_id@)],
                query: Seq::empty(),
                accept_json: true,
                body: None,
            }),
    {
        let id = doc_id.to_string();
        let path: Vec<&str> = vec![self.db_name.as_str(), id.as_str()];
        let r = Request::new(Method::Get, path).with_accept_json();
        assert(r@.path =~= seq![self@, document_id_text(doc_id@)]);
        r
    }

    /// Reads the response to the request that reads a document: `200 OK`
    /// gives the document, in this database.
    pub fn handle_read_response(&self, status: u16, body: Result<JsonValue, Error>) -> (r: Result<Document, Error>)
        ensures
            status == STATUS_OK ==> read_outcome(r, body, self@),
            status == STATUS_NOT_FOUND ==> (r matches Err(Error::NotFound(x)) && error_body_matches(x, body)),
            status == STATUS_UNAUTHORIZED ==> (r matches Err(Error::Unauthorized(x)) && error_body_matches(x, body)),
            status != STATUS_OK && status != STATUS_NOT_FOUND && status != STATUS_UNAUTHORIZED
                ==> (r matches Err(e) && is_server_error(e, status, body)),
    {
        crate::action::ReadDocument::<DocumentPath>::handle_response(status, body, self.db_name.clone())
    }

    /// Makes the request that updates a document: a `PUT` of the document's
    /// JSON to the database and the document id, the id standing as one
    /// path segment, with the revision in the query. The content must be a
    /// JSON object.
    pub fn update_document_request(&self, doc: &Document) -> (r: Request)
        requires
            doc@.content is Object,
        ensures
            r@.method == Method::Put,
            r@.path == seq![self@, document_id_text(doc@.path.1)],
            r@.query == seq![("rev"@, revision_text(doc@.revision))],
            r@.accept_json,
            r@.body matches Some(b) && document_json_matches(b, entries_model(doc@.content->Object_0@), doc@.attachments),
    {
        let id = doc.path().document_id().to_string();
        let path: Vec<&str> = vec![self.db_name.as_str(), id.as_str()];
        let r = Request::new(Method::Put, path).with_accept_json().with_query(RevisionQueryKey, doc.revision()).with_json_content(
            doc.to_json(),
        );
        assert(r@.path =~= seq![self@, document_id_text(doc@.path.1)]);
        assert(r@.query =~= seq![("rev"@, revision_text(doc@.revision))]);
        r
    }

    /// Reads the response to the request that updates a document:
    /// `201 Created` gives the new revision.
    pub fn handle_update_response(status: u16, body: Result<JsonValue, Error>) -> (r: Result<Revision, Error>)
        ensures
            status == STATUS_CREATED ==> match body {
                Err(e) => r matches Err(x) && x == e,
                Ok(v) => match write_reply_of_json(v) {
                    Ok(w) => r matches Ok(rv) && rv@ == w.2,
                    Err(e) => r matches Err(x) && x == e,
                },
            },
            status == STATUS_CONFLICT ==> (r matches Err(Error::DocumentConflict(x)) && error_body_matches(x, body)),
            status == STATUS_UNAUTHORIZED ==> (r matches Err(Error::Unauthorized(x)) && error_body_matches(x, body)),
            status != STATUS_CREATED && status != STATUS_CONFLICT && status != STATUS_UNAUTHORIZED
                ==> (r matches Err(e) && is_server_error(e, status, body)),
    {
        if status == STATUS_CREATED {
            let v = body?;
            let w = WriteDocumentResponse::from_json(v)?;
            Ok(w.revision)
        } else if status == STATUS_CONFLICT {
            Err(Error::DocumentConflict(decode_error_body(body)))
        } else if status == STATUS_UNAUTHORIZED {
            Err(Error::Unauthorized(decode_error_body(body)))
        } else {
            Err(server_error(status, body))
        }
    }
}

} // verus!
