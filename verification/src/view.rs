//! The responses of views: rows of keys and values, with their counts.
use vstd::prelude::*;
use std::marker::PhantomData;
use crate::error::Error;
use crate::json::{
    JsonValue, decode_fold, has_no_entry_named, is_last_named_entry, json_text, json_u64, lemma_decode_fold_step,
    lemma_decode_fold_stops, same_text,
};
use crate::path::{DatabaseName, DocumentId, DocumentIdKind, DocumentPath, document_id_of_text};

verus! {

/// What a row of a view is, abstractly.
pub struct ViewRowModel {
    /// The key, where there is one: rows of an unreduced or a grouped view
    /// have one.
    pub key: Option<JsonValue>,
    pub value: JsonValue,
    /// The path of the document that the row came from, in an unreduced
    /// view.
    pub doc_path: Option<(Seq<char>, (DocumentIdKind, Seq<char>))>,
}

/// A row of a view response.
#[derive(Debug, PartialEq)]
pub struct ViewRow {
    key: Option<JsonValue>,
    value: JsonValue,
    doc_path: Option<DocumentPath>,
}

impl View for ViewRow {
    type V = ViewRowModel;

    closed spec fn view(&self) -> ViewRowModel {
        ViewRowModel {
            key: self.key,
            value: self.value,
            doc_path: match self.doc_path {
                Some(p) => Some(p@),
                None => None,
            },
        }
    }
}

impl ViewRow {
    /// Returns the key of the row, if it has one.
    pub fn key(&self) -> (r: Option<&JsonValue>)
        ensures
            match r {
                Some(k) => self@.key == Some(*k),
                None => self@.key is None,
            },
    {
        match &self.key {
            Some(k) => Some(k),
            None => None,
        }
    }

    /// Returns the value of the row.
    pub fn value(&self) -> (r: &JsonValue)
        ensures
            *r == self@.value,
    {
        &self.value
    }

    /// Returns the path of the document that the row came from, if the view
    /// is unreduced.
    pub fn document_path(&self) -> (r: Option<&DocumentPath>)
        ensures
            match r {
                Some(p) => self@.doc_path == Some(p@),
                None => self@.doc_path is None,
            },
    {
        match &self.doc_path {
            Some(p) => Some(p),
            None => None,
        }
    }
}

/// What a view response is, abstractly.
pub struct ViewResponseModel {
    pub total_rows: Option<u64>,
    pub offset: Option<u64>,
    pub rows: Seq<ViewRowModel>,
    pub update_seq: Option<u64>,
}

/// The views of a sequence of rows.
pub open spec fn row_views(rows: Seq<ViewRow>) -> Seq<ViewRowModel> {
    rows.map_values(|r: ViewRow| r@)
}

/// Contains the response of a view: its rows and, where the server gives
/// them, how many rows there are in all, how many come before the first one
/// given, and the update sequence number that the view reflects.
#[derive(Debug, PartialEq)]
pub struct ViewResponse {
    total_rows: Option<u64>,
    offset: Option<u64>,
    rows: Vec<ViewRow>,
    update_seq: Option<u64>,
}

impl View for ViewResponse {
    type V = ViewResponseModel;

    closed spec fn view(&self) -> ViewResponseModel {
        ViewResponseModel {
            total_rows: self.total_rows,
            offset: self.offset,
            rows: row_views(self.rows@),
            update_seq: self.update_seq,
        }
    }
}

impl Default for ViewResponse {
    fn default() -> (r: Self)
        ensures
            r@.total_rows is None,
            r@.offset is None,
            r@.rows.len() == 0,
            r@.update_seq is None,
    {
        ViewResponse { total_rows: None, offset: None, rows: Vec::new(), update_seq: None }
    }
}

impl ViewResponse {
    /// Returns how many rows the view has in all, counting those left out of
    /// the response, where the server gives it: for an unreduced view.
    pub fn total_rows(&self) -> (r: Option<u64>)
        ensures
            r == self@.total_rows,
    {
        self.total_rows
    }

    /// Returns how many rows of the view come before the first row of the
    /// response, where the server gives it: for an unreduced view.
    pub fn offset(&self) -> (r: Option<u64>)
        ensures
            r == self@.offset,
    {
        self.offset
    }

    /// Returns the update sequence number that the view reflects, if the
    /// server gives it.
    pub fn update_sequence_number(&self) -> (r: Option<u64>)
        ensures
            r == self@.update_seq,
    {
        self.update_seq
    }

    /// Returns the rows of the response.
    pub fn rows(&self) -> (r: &Vec<ViewRow>)
        ensures
            row_views(r@) == self@.rows,
    {
        &self.rows
    }
}

// ------------------------------------------------------------------------
// Decoding

/// A row as decoded from the server's JSON.
#[derive(Debug, PartialEq)]
pub struct ViewRowJsonable {
    pub key: Option<JsonValue>,
    pub value: JsonValue,
    pub id: Option<DocumentId>,
}

/// What has been decoded of a row so far: the document id, the key and the
/// value, each if it has been read.
pub struct RowFields {
    pub id: Option<(DocumentIdKind, Seq<char>)>,
    pub key: Option<JsonValue>,
    pub value: Option<JsonValue>,
}

/// One step of decoding a row: `id` must hold a string, `key` may hold
/// anything, where `null` stands for no key, and `value` may hold anything;
/// a later one replaces an earlier one; no other field may stand there.
pub open spec fn row_step(f: RowFields, e: (String, JsonValue)) -> Result<RowFields, Error> {
    let (k, v) = e;
    if k@ == "id"@ {
        match json_text(v) {
            Some(t) => Ok(RowFields { id: Some(document_id_of_text(t)), ..f }),
            None => Err(Error::InvalidType("id")),
        }
    } else if k@ == "key"@ {
        Ok(RowFields {
            key: if v is Null {
                None
            } else {
                Some(v)
            },
            ..f
        })
    } else if k@ == "value"@ {
        Ok(RowFields { value: Some(v), ..f })
    } else {
        Err(Error::UnknownField { name: k })
    }
}

/// The steps of decoding a row.
pub open spec fn row_steps() -> spec_fn(RowFields, (String, JsonValue)) -> Result<RowFields, Error> {
    |f: RowFields, e: (String, JsonValue)| row_step(f, e)
}

/// What a JSON value gives as a row: its value must be there.
pub open spec fn row_of_json(v: JsonValue) -> Result<RowFields, Error> {
    match v {
        JsonValue::Object(es) => match decode_fold(es@, RowFields { id: None, key: None, value: None }, row_steps()) {
            Err(e) => Err(e),
            Ok(f) => if f.value is None {
                Err(Error::MissingField("value"))
            } else {
                Ok(f)
            },
        },
        _ => Err(Error::InvalidType("ViewRowJsonable")),
    }
}

/// Whether a decoded row holds what the fields give.
pub open spec fn row_matches(x: ViewRowJsonable, f: RowFields) -> bool {
    &&& x.id matches Some(d) ==> f.id == Some(d@)
    &&& x.id is None ==> f.id is None
    &&& x.key == f.key
    &&& f.value == Some(x.value)
}

proof fn lemma_row_fold_id(s: Seq<(String, JsonValue)>)
    requires
        decode_fold(s, RowFields { id: None, key: None, value: None }, row_steps()) is Ok,
    ensures
        forall|i: int|
            is_last_named_entry(s, "id"@, i) ==> json_text((#[trigger] s[i]).1) is Some && decode_fold(
                s,
                RowFields { id: None, key: None, value: None },
                row_steps(),
            )->Ok_0.id == Some(document_id_of_text(json_text(s[i].1)->0)),
        has_no_entry_named(s, "id"@) ==> decode_fold(s, RowFields { id: None, key: None, value: None }, row_steps())->Ok_0.id is None,
        forall|i: int|
            is_last_named_entry(s, "key"@, i) ==> decode_fold(s, RowFields { id: None, key: None, value: None }, row_steps())->Ok_0.key
                == if (#[trigger] s[i]).1 is Null {
                None
            } else {
                Some(s[i].1)
            },
        forall|i: int|
            is_last_named_entry(s, "value"@, i) ==> decode_fold(s, RowFields { id: None, key: None, value: None }, row_steps())->Ok_0.value
                == Some((#[trigger] s[i]).1),
        has_no_entry_named(s, "key"@) ==> decode_fold(s, RowFields { id: None, key: None, value: None }, row_steps())->Ok_0.key is None,
    decreases s.len(),
{
    let init = RowFields { id: None, key: None, value: None };
    reveal_strlit("id");
    reveal_strlit("key");
    reveal_strlit("value");
    assert("id"@ != "key"@) by {
        assert("id"@.len() != "key"@.len());
    }
    assert("id"@ != "value"@) by {
        assert("id"@.len() != "value"@.len());
    }
    assert("key"@ != "value"@) by {
        assert("key"@.len() != "value"@.len());
    }
    if s.len() > 0 {
        let u = s.drop_last();
        let e = s.last();
        assert(decode_fold(u, init, row_steps()) is Ok);
        lemma_row_fold_id(u);
        let f0 = decode_fold(u, init, row_steps())->Ok_0;
        assert(decode_fold(s, init, row_steps()) == row_step(f0, e));
        assert forall|i: int| is_last_named_entry(s, "id"@, i) implies json_text((#[trigger] s[i]).1) is Some
            && decode_fold(s, init, row_steps())->Ok_0.id == Some(document_id_of_text(json_text(s[i].1)->0)) by {
            if i < u.len() {
                assert(s[s.len() - 1].0@ != "id"@);
                assert(u[i] == s[i]);
                assert forall|j: int| i < j < u.len() implies (#[trigger] u[j]).0@ != "id"@ by {
                    assert(u[j] == s[j]);
                }
                assert(is_last_named_entry(u, "id"@, i));
            }
        }
        if has_no_entry_named(s, "id"@) {
            assert(s[s.len() - 1].0@ != "id"@);
            assert forall|j: int| 0 <= j < u.len() implies (#[trigger] u[j]).0@ != "id"@ by {
                assert(u[j] == s[j]);
            }
        }
        if has_no_entry_named(s, "key"@) {
            assert(s[s.len() - 1].0@ != "key"@);
            assert forall|j: int| 0 <= j < u.len() implies (#[trigger] u[j]).0@ != "key"@ by {
                assert(u[j] == s[j]);
            }
        }
        let f = decode_fold(s, init, row_steps())->Ok_0;
        assert forall|i: int| is_last_named_entry(s, "key"@, i) implies f.key == if (#[trigger] s[i]).1 is Null {
            None
        } else {
            Some(s[i].1)
        } by {
            if i < u.len() {
                assert(s[s.len() - 1].0@ != "key"@);
                assert(u[i] == s[i]);
                assert forall|j: int| i < j < u.len() implies (#[trigger] u[j]).0@ != "key"@ by {
                    assert(u[j] == s[j]);
                }
                assert(is_last_named_entry(u, "key"@, i));
            } else {
                assert(s[i] == e);
            }
        }
        assert forall|i: int| is_last_named_entry(s, "value"@, i) implies f.value == Some((#[trigger] s[i]).1) by {
            if i < u.len() {
                assert(s[s.len() - 1].0@ != "value"@);
                assert(u[i] == s[i]);
                assert forall|j: int| i < j < u.len() implies (#[trigger] u[j]).0@ != "value"@ by {
                    assert(u[j] == s[j]);
                }
                assert(is_last_named_entry(u, "value"@, i));
            } else {
                assert(s[i] == e);
            }
        }
    }
}

/// A decoded row holds what the last field of each name says: the document
/// id that the text of `id` denotes, as `DocumentId::from` reads it, so that
/// `_design/x` names a design document, and none without an `id` field; the
/// key of `key`, none where it is `null` or missing; the value of `value`.
pub proof fn lemma_row_id_is_text(v: Vec<(String, JsonValue)>)
    requires
        row_of_json(JsonValue::Object(v)) is Ok,
    ensures
        forall|i: int|
            is_last_named_entry(v@, "id"@, i) ==> json_text((#[trigger] v@[i]).1) is Some && row_of_json(
                JsonValue::Object(v),
            )->Ok_0.id == Some(document_id_of_text(json_text(v@[i].1)->0)),
        has_no_entry_named(v@, "id"@) ==> row_of_json(JsonValue::Object(v))->Ok_0.id is None,
        forall|i: int|
            is_last_named_entry(v@, "key"@, i) ==> row_of_json(JsonValue::Object(v))->Ok_0.key == if (#[trigger] v@[i]).1 is Null {
                None
            } else {
                Some(v@[i].1)
            },
        has_no_entry_named(v@, "key"@) ==> row_of_json(JsonValue::Object(v))->Ok_0.key is None,
        forall|i: int|
            is_last_named_entry(v@, "value"@, i) ==> row_of_json(JsonValue::Object(v))->Ok_0.value == Some((#[trigger] v@[i]).1),
{
    lemma_row_fold_id(v@);
}

impl ViewRowJsonable {
    /// Decodes a row from the JSON object that the server sent.
    pub fn from_json(v: JsonValue) -> (r: Result<Self, Error>)
        ensures
            match row_of_json(v) {
                Ok(f) => r matches Ok(x) && row_matches(x, f),
                Err(e) => r matches Err(x) && x == e,
            },
    {
        let ghost step = row_steps();
        let ghost init = RowFields { id: None, key: None, value: None };
        let mut rest = match v {
            JsonValue::Object(es) => es,
            _ => {
                return Err(Error::InvalidType("ViewRowJsonable"));
            },
        };
        let ghost all = rest@;
        let ghost mut i: int = 0;
        let mut id: Option<DocumentId> = None;
        let mut key: Option<JsonValue> = None;
        let mut value: Option<JsonValue> = None;
        assert(all.take(0) =~= Seq::<(String, JsonValue)>::empty());
        while rest.len() > 0
            invariant
                0 <= i <= all.len(),
                rest@ == all.skip(i),
                decode_fold(all.take(i), init, step) == Ok::<RowFields, Error>(RowFields {
                    id: match id {
                        Some(d) => Some(d@),
                        None => None,
                    },
                    key: key,
                    value: value,
                }),
                v is Object,
                all == v->Object_0@,
                step == row_steps(),
                init == (RowFields { id: None, key: None, value: None }),
            decreases rest.len(),
        {
            proof {
                assert(all.skip(i)[0] == all[i]);
                lemma_decode_fold_step(all, init, step, i);
            }
            let (k, x) = rest.remove(0);
            proof {
                assert(rest@ =~= all.skip(i + 1));
                assert(all[i] == (k, x));
            }
            if same_text(k.as_str(), "id") {
                match x {
                    JsonValue::String(t) => {
                        id = Some(DocumentId::new_from_string(t));
                    },
                    _ => {
                        proof {
                            lemma_decode_fold_stops(all, init, step, i + 1);
                        }
                        return Err(Error::InvalidType("id"));
                    },
                }
            } else if same_text(k.as_str(), "key") {
                key = match x {
                    JsonValue::Null => None,
                    other => Some(other),
                };
            } else if same_text(k.as_str(), "value") {
                value = Some(x);
            } else {
                proof {
                    lemma_decode_fold_stops(all, init, step, i + 1);
                }
                return Err(Error::UnknownField { name: k });
            }
            proof {
                i = i + 1;
            }
        }
        assert(all.take(i) =~= all);
        match value {
            Some(value) => Ok(ViewRowJsonable { key, value, id }),
            None => Err(Error::MissingField("value")),
        }
    }
}

/// A view response as decoded from the server's JSON.
#[derive(Debug, PartialEq)]
pub struct ViewResponseJsonable {
    pub total_rows: Option<u64>,
    pub offset: Option<u64>,
    pub update_seq: Option<u64>,
    pub rows: Vec<ViewRowJsonable>,
}

/// One step of decoding the rows of a response: each must decode as a row.
pub open spec fn rows_step(s: Seq<RowFields>, e: JsonValue) -> Result<Seq<RowFields>, Error> {
    match row_of_json(e) {
        Ok(f) => Ok(s.push(f)),
        Err(x) => Err(x),
    }
}

/// The steps of decoding the rows of a response.
pub open spec fn rows_steps() -> spec_fn(Seq<RowFields>, JsonValue) -> Result<Seq<RowFields>, Error> {
    |s: Seq<RowFields>, e: JsonValue| rows_step(s, e)
}

/// What the value of `rows` gives.
pub open spec fn rows_of_json(v: JsonValue) -> Result<Seq<RowFields>, Error> {
    match v {
        JsonValue::Array(items) => decode_fold(items@, Seq::empty(), rows_steps()),
        _ => Err(Error::InvalidType("rows")),
    }
}

proof fn lemma_rows_fold(s: Seq<JsonValue>)
    ensures
        (forall|i: int| 0 <= i < s.len() ==> (#[trigger] row_of_json(s[i])) is Ok) ==> ({
            let r = decode_fold(s, Seq::<RowFields>::empty(), rows_steps());
            &&& r is Ok
            &&& r->Ok_0.len() == s.len()
            &&& forall|i: int| 0 <= i < s.len() ==> r->Ok_0[i] == row_of_json(#[trigger] s[i])->Ok_0
        }),
        decode_fold(s, Seq::<RowFields>::empty(), rows_steps()) is Ok ==> forall|i: int|
            0 <= i < s.len() ==> (#[trigger] row_of_json(s[i])) is Ok,
    decreases s.len(),
{
    if s.len() > 0 {
        let u = s.drop_last();
        lemma_rows_fold(u);
        assert forall|j: int| 0 <= j < u.len() implies (#[trigger] u[j]) == s[j] by {}
        if forall|i: int| 0 <= i < s.len() ==> (#[trigger] row_of_json(s[i])) is Ok {
            assert forall|i: int| 0 <= i < u.len() implies (#[trigger] row_of_json(u[i])) is Ok by {
                assert(u[i] == s[i]);
                assert(row_of_json(s[i]) is Ok);
            }
            assert(row_of_json(s[s.len() - 1]) is Ok);
            let r = decode_fold(s, Seq::<RowFields>::empty(), rows_steps());
            assert forall|i: int| 0 <= i < s.len() implies r->Ok_0[i] == row_of_json(#[trigger] s[i])->Ok_0 by {
                if i < u.len() {
                    assert(u[i] == s[i]);
                }
            }
        }
        if decode_fold(s, Seq::<RowFields>::empty(), rows_steps()) is Ok {
            assert(decode_fold(u, Seq::<RowFields>::empty(), rows_steps()) is Ok);
            assert forall|i: int| 0 <= i < s.len() implies (#[trigger] row_of_json(s[i])) is Ok by {
                if i < u.len() {
                    assert(u[i] == s[i]);
                    assert(row_of_json(u[i]) is Ok);
                }
            }
        }
    }
}

/// The rows of a response are decoded exactly when each element of the
/// array decodes as a row; then there is one row for each element, in the
/// order of the array, and none is dropped.
pub proof fn lemma_rows_of_json_keeps_every_row(items: Vec<JsonValue>)
    ensures
        rows_of_json(JsonValue::Array(items)) is Ok <==> forall|i: int|
            0 <= i < items@.len() ==> (#[trigger] row_of_json(items@[i])) is Ok,
        rows_of_json(JsonValue::Array(items)) is Ok ==> rows_of_json(JsonValue::Array(items))->Ok_0.len() == items@.len(),
        rows_of_json(JsonValue::Array(items)) is Ok ==> forall|i: int|
            0 <= i < items@.len() ==> rows_of_json(JsonValue::Array(items))->Ok_0[i] == row_of_json(#[trigger] items@[i])->Ok_0,
{
    lemma_rows_fold(items@);
}

/// Decodes the value of `rows`.
fn decode_rows(v: JsonValue) -> (r: Result<Vec<ViewRowJsonable>, Error>)
    ensures
        match rows_of_json(v) {
            Ok(s) => r matches Ok(rows) && rows@.len() == s.len() && forall|i: int|
                0 <= i < s.len() ==> row_matches(#[trigger] rows@[i], s[i]),
            Err(e) => r matches Err(x) && x == e,
        },
{
    let ghost step = rows_steps();
    let ghost init = Seq::<RowFields>::empty();
    let mut rest = match v {
        JsonValue::Array(items) => items,
        _ => {
            return Err(Error::InvalidType("rows"));
        },
    };
    let ghost all = rest@;
    let ghost mut i: int = 0;
    let ghost mut fields: Seq<RowFields> = Seq::empty();
    let mut rows: Vec<ViewRowJsonable> = Vec::new();
    assert(all.take(0) =~= Seq::<JsonValue>::empty());
    while rest.len() > 0
        invariant
            0 <= i <= all.len(),
            rest@ == all.skip(i),
            decode_fold(all.take(i), init, step) == Ok::<Seq<RowFields>, Error>(fields),
            rows@.len() == fields.len(),
            forall|p: int| 0 <= p < fields.len() ==> row_matches(#[trigger] rows@[p], fields[p]),
            v is Array,
            all == v->Array_0@,
            step == rows_steps(),
            init == Seq::<RowFields>::empty(),
        decreases rest.len(),
    {
        proof {
            assert(all.skip(i)[0] == all[i]);
            lemma_decode_fold_step(all, init, step, i);
        }
        let x = rest.remove(0);
        proof {
            assert(rest@ =~= all.skip(i + 1));
            assert(all[i] == x);
        }
        match ViewRowJsonable::from_json(x) {
            Ok(row) => {
                proof {
                    fields = fields.push(row_of_json(x)->Ok_0);
                }
                rows.push(row);
            },
            Err(e) => {
                proof {
                    lemma_decode_fold_stops(all, init, step, i + 1);
                }
                return Err(e);
            },
        }
        proof {
            i = i + 1;
        }
    }
    assert(all.take(i) =~= all);
    Ok(rows)
}

/// What has been decoded of a view response so far.
pub struct ResponseFields {
    pub total_rows: Option<u64>,
    pub offset: Option<u64>,
    pub update_seq: Option<u64>,
    pub rows: Option<Seq<RowFields>>,
}

/// One step of decoding a view response: `offset`, `total_rows` and
/// `update_seq` must hold unsigned numbers and `rows` an array of rows; a
/// later one replaces an earlier one; no other field may stand there.
pub open spec fn response_step(f: ResponseFields, e: (String, JsonValue)) -> Result<ResponseFields, Error> {
    let (k, v) = e;
    if k@ == "offset"@ {
        match json_u64(v) {
            Some(n) => Ok(ResponseFields { offset: Some(n), ..f }),
            None => Err(Error::InvalidType("offset")),
        }
    } else if k@ == "rows"@ {
        match rows_of_json(v) {
            Ok(s) => Ok(ResponseFields { rows: Some(s), ..f }),
            Err(x) => Err(x),
        }
    } else if k@ == "total_rows"@ {
        match json_u64(v) {
            Some(n) => Ok(ResponseFields { total_rows: Some(n), ..f }),
            None => Err(Error::InvalidType("total_rows")),
        }
    } else if k@ == "update_seq"@ {
        match json_u64(v) {
            Some(n) => Ok(ResponseFields { update_seq: Some(n), ..f }),
            None => Err(Error::InvalidType("update_seq")),
        }
    } else {
        Err(Error::UnknownField { name: k })
    }
}

/// The steps of decoding a view response.
pub open spec fn response_steps() -> spec_fn(ResponseFields, (String, JsonValue)) -> Result<ResponseFields, Error> {
    |f: ResponseFields, e: (String, JsonValue)| response_step(f, e)
}

/// Nothing decoded yet.
pub open spec fn no_response_fields() -> ResponseFields {
    ResponseFields { total_rows: None, offset: None, update_seq: None, rows: None }
}

/// What a JSON value gives as a view response: its rows must be there.
pub open spec fn response_of_json(v: JsonValue) -> Result<ResponseFields, Error> {
    match v {
        JsonValue::Object(es) => match decode_fold(es@, no_response_fields(), response_steps()) {
            Err(e) => Err(e),
            Ok(f) => if f.rows is None {
                Err(Error::MissingField("rows"))
            } else {
                Ok(f)
            },
        },
        _ => Err(Error::InvalidType("ViewResponseJsonable")),
    }
}

proof fn lemma_last_named_entry_exists(s: Seq<(String, JsonValue)>, k: Seq<char>)
    requires
        !has_no_entry_named(s, k),
    ensures
        exists|i: int| is_last_named_entry(s, k, i),
    decreases s.len(),
{
    if s[s.len() - 1].0@ == k {
        assert(is_last_named_entry(s, k, s.len() - 1));
    } else {
        let u = s.drop_last();
        assert(!has_no_entry_named(u, k)) by {
            let j = choose|j: int| 0 <= j < s.len() && (#[trigger] s[j]).0@ == k;
            assert(u[j] == s[j]);
        }
        lemma_last_named_entry_exists(u, k);
        let i = choose|i: int| is_last_named_entry(u, k, i);
        assert(u[i] == s[i]);
        assert forall|j: int| i < j < s.len() implies (#[trigger] s[j]).0@ != k by {
            if j < u.len() {
                assert(u[j] == s[j]);
            }
        }
        assert(is_last_named_entry(s, k, i));
    }
}

proof fn lemma_response_names_differ()
    ensures
        "offset"@ != "rows"@,
        "offset"@ != "total_rows"@,
        "offset"@ != "update_seq"@,
        "rows"@ != "total_rows"@,
        "rows"@ != "update_seq"@,
        "total_rows"@ != "update_seq"@,
{
    reveal_strlit("offset");
    reveal_strlit("rows");
    reveal_strlit("total_rows");
    reveal_strlit("update_seq");
    assert("offset"@ != "rows"@) by {
        assert("offset"@.len() != "rows"@.len() || "offset"@[0] != "rows"@[0]);
    }
    assert("offset"@ != "total_rows"@) by {
        assert("offset"@.len() != "total_rows"@.len() || "offset"@[0] != "total_rows"@[0]);
    }
    assert("offset"@ != "update_seq"@) by {
        assert("offset"@.len() != "update_seq"@.len() || "offset"@[0] != "update_seq"@[0]);
    }
    assert("rows"@ != "total_rows"@) by {
        assert("rows"@.len() != "total_rows"@.len() || "rows"@[0] != "total_rows"@[0]);
    }
    assert("rows"@ != "update_seq"@) by {
        assert("rows"@.len() != "update_seq"@.len() || "rows"@[0] != "update_seq"@[0]);
    }
    assert("total_rows"@ != "update_seq"@) by {
        assert("total_rows"@.len() != "update_seq"@.len() || "total_rows"@[0] != "update_seq"@[0]);
    }
}

proof fn lemma_response_fold_rows(s: Seq<(String, JsonValue)>)
    requires
        decode_fold(s, no_response_fields(), response_steps()) is Ok,
    ensures
        forall|i: int| is_last_named_entry(s, "rows"@, i) ==> rows_of_json((#[trigger] s[i]).1) is Ok && decode_fold(s, no_response_fields(), response_steps())->Ok_0.rows == Some(rows_of_json((#[trigger] s[i]).1)->Ok_0),
        has_no_entry_named(s, "rows"@) ==> decode_fold(s, no_response_fields(), response_steps())->Ok_0.rows is None,
    decreases s.len(),
{
    lemma_response_names_differ();
    if s.len() > 0 {
        let u = s.drop_last();
        let e = s.last();
        assert(decode_fold(u, no_response_fields(), response_steps()) is Ok);
        lemma_response_fold_rows(u);
        let f0 = decode_fold(u, no_response_fields(), response_steps())->Ok_0;
        let f = decode_fold(s, no_response_fields(), response_steps())->Ok_0;
        assert(decode_fold(s, no_response_fields(), response_steps()) == response_step(f0, e));
        if e.0@ != "rows"@ {
            assert(f.rows == f0.rows);
        }
        assert forall|j: int| 0 <= j < u.len() implies (#[trigger] u[j]) == s[j] by {}
        assert forall|i: int| is_last_named_entry(s, "rows"@, i) implies rows_of_json((#[trigger] s[i]).1) is Ok && f.rows == Some(rows_of_json((#[trigger] s[i]).1)->Ok_0) by {
            if i < u.len() {
                assert(u[i] == s[i]);
                assert(is_last_named_entry(u, "rows"@, i));
            } else {
                assert(s[i] == e);
            }
        }
        if has_no_entry_named(s, "rows"@) {
            assert(s[s.len() - 1].0@ != "rows"@);
        }
    }
}

proof fn lemma_response_fold_offset(s: Seq<(String, JsonValue)>)
    requires
        decode_fold(s, no_response_fields(), response_steps()) is Ok,
    ensures
        forall|i: int| is_last_named_entry(s, "offset"@, i) ==> decode_fold(s, no_response_fields(), response_steps())->Ok_0.offset == json_u64((#[trigger] s[i]).1),
        has_no_entry_named(s, "offset"@) ==> decode_fold(s, no_response_fields(), response_steps())->Ok_0.offset is None,
    decreases s.len(),
{
    lemma_response_names_differ();
    if s.len() > 0 {
        let u = s.drop_last();
        let e = s.last();
        assert(decode_fold(u, no_response_fields(), response_steps()) is Ok);
        lemma_response_fold_offset(u);
        let f0 = decode_fold(u, no_response_fields(), response_steps())->Ok_0;
        let f = decode_fold(s, no_response_fields(), response_steps())->Ok_0;
        assert(decode_fold(s, no_response_fields(), response_steps()) == response_step(f0, e));
        if e.0@ != "offset"@ {
            assert(f.offset == f0.offset);
        }
        assert forall|j: int| 0 <= j < u.len() implies (#[trigger] u[j]) == s[j] by {}
        assert forall|i: int| is_last_named_entry(s, "offset"@, i) implies f.offset == json_u64((#[trigger] s[i]).1) by {
            if i < u.len() {
                assert(u[i] == s[i]);
                assert(is_last_named_entry(u, "offset"@, i));
            } else {
                assert(s[i] == e);
            }
        }
        if has_no_entry_named(s, "offset"@) {
            assert(s[s.len() - 1].0@ != "offset"@);
        }
    }
}

proof fn lemma_response_fold_total_rows(s: Seq<(String, JsonValue)>)
    requires
        decode_fold(s, no_response_fields(), response_steps()) is Ok,
    ensures
        forall|i: int| is_last_named_entry(s, "total_rows"@, i) ==> decode_fold(s, no_response_fields(), response_steps())->Ok_0.total_rows == json_u64((#[trigger] s[i]).1),
        has_no_entry_named(s, "total_rows"@) ==> decode_fold(s, no_response_fields(), response_steps())->Ok_0.total_rows is None,
    decreases s.len(),
{
    lemma_response_names_differ();
    if s.len() > 0 {
        let u = s.drop_last();
        let e = s.last();
        assert(decode_fold(u, no_response_fields(), response_steps()) is Ok);
        lemma_response_fold_total_rows(u);
        let f0 = decode_fold(u, no_response_fields(), response_steps())->Ok_0;
        let f = decode_fold(s, no_response_fields(), response_steps())->Ok_0;
        assert(decode_fold(s, no_response_fields(), response_steps()) == response_step(f0, e));
        if e.0@ != "total_rows"@ {
            assert(f.total_rows == f0.total_rows);
        }
        assert forall|j: int| 0 <= j < u.len() implies (#[trigger] u[j]) == s[j] by {}
        assert forall|i: int| is_last_named_entry(s, "total_rows"@, i) implies f.total_rows == json_u64((#[trigger] s[i]).1) by {
            if i < u.len() {
                assert(u[i] == s[i]);
                assert(is_last_named_entry(u, "total_rows"@, i));
            } else {
                assert(s[i] == e);
            }
        }
        if has_no_entry_named(s, "total_rows"@) {
            assert(s[s.len() - 1].0@ != "total_rows"@);
        }
    }
}

proof fn lemma_response_fold_update_seq(s: Seq<(String, JsonValue)>)
    requires
        decode_fold(s, no_response_fields(), response_steps()) is Ok,
    ensures
        forall|i: int| is_last_named_entry(s, "update_seq"@, i) ==> decode_fold(s, no_response_fields(), response_steps())->Ok_0.update_seq == json_u64((#[trigger] s[i]).1),
        has_no_entry_named(s, "update_seq"@) ==> decode_fold(s, no_response_fields(), response_steps())->Ok_0.update_seq is None,
    decreases s.len(),
{
    lemma_response_names_differ();
    if s.len() > 0 {
        let u = s.drop_last();
        let e = s.last();
        assert(decode_fold(u, no_response_fields(), response_steps()) is Ok);
        lemma_response_fold_update_seq(u);
        let f0 = decode_fold(u, no_response_fields(), response_steps())->Ok_0;
        let f = decode_fold(s, no_response_fields(), response_steps())->Ok_0;
        assert(decode_fold(s, no_response_fields(), response_steps()) == response_step(f0, e));
        if e.0@ != "update_seq"@ {
            assert(f.update_seq == f0.update_seq);
        }
        assert forall|j: int| 0 <= j < u.len() implies (#[trigger] u[j]) == s[j] by {}
        assert forall|i: int| is_last_named_entry(s, "update_seq"@, i) implies f.update_seq == json_u64((#[trigger] s[i]).1) by {
            if i < u.len() {
                assert(u[i] == s[i]);
                assert(is_last_named_entry(u, "update_seq"@, i));
            } else {
                assert(s[i] == e);
            }
        }
        if has_no_entry_named(s, "update_seq"@) {
            assert(s[s.len() - 1].0@ != "update_seq"@);
        }
    }
}

/// A decoded view response holds what the last field of each name says:
/// the rows that the array of `rows` decodes to, and the numbers of
/// `offset`, `total_rows` and `update_seq`, none where such a field is
/// missing.
pub proof fn lemma_response_fields(v: Vec<(String, JsonValue)>)
    requires
        response_of_json(JsonValue::Object(v)) is Ok,
    ensures
        exists|i: int| is_last_named_entry(v@, "rows"@, i),
        forall|i: int|
            is_last_named_entry(v@, "rows"@, i) ==> rows_of_json((#[trigger] v@[i]).1) is Ok && response_of_json(
                JsonValue::Object(v),
            )->Ok_0.rows == Some(rows_of_json(v@[i].1)->Ok_0),
        forall|i: int|
            is_last_named_entry(v@, "offset"@, i) ==> response_of_json(JsonValue::Object(v))->Ok_0.offset == json_u64(
                (#[trigger] v@[i]).1,
            ),
        forall|i: int|
            is_last_named_entry(v@, "total_rows"@, i) ==> response_of_json(JsonValue::Object(v))->Ok_0.total_rows == json_u64(
                (#[trigger] v@[i]).1,
            ),
        forall|i: int|
            is_last_named_entry(v@, "update_seq"@, i) ==> response_of_json(JsonValue::Object(v))->Ok_0.update_seq == json_u64(
                (#[trigger] v@[i]).1,
            ),
        has_no_entry_named(v@, "offset"@) ==> response_of_json(JsonValue::Object(v))->Ok_0.offset is None,
        has_no_entry_named(v@, "total_rows"@) ==> response_of_json(JsonValue::Object(v))->Ok_0.total_rows is None,
        has_no_entry_named(v@, "update_seq"@) ==> response_of_json(JsonValue::Object(v))->Ok_0.update_seq is None,
{
    lemma_response_fold_rows(v@);
    lemma_response_fold_offset(v@);
    lemma_response_fold_total_rows(v@);
    lemma_response_fold_update_seq(v@);
    lemma_last_named_entry_exists(v@, "rows"@);
}

/// Whether decoded rows hold what the fields give.
pub open spec fn rows_match(rows: Seq<ViewRowJsonable>, s: Seq<RowFields>) -> bool {
    &&& rows.len() == s.len()
    &&& forall|i: int| 0 <= i < s.len() ==> row_matches(#[trigger] rows[i], s[i])
}

/// Whether a decoded response holds what the fields give.
pub open spec fn response_matches(x: ViewResponseJsonable, f: ResponseFields) -> bool {
    &&& x.total_rows == f.total_rows
    &&& x.offset == f.offset
    &&& x.update_seq == f.update_seq
    &&& f.rows matches Some(s) && rows_match(x.rows@, s)
}

impl ViewResponseJsonable {
    /// Decodes a view response from the JSON object that the server sent.
    pub fn from_json(v: JsonValue) -> (r: Result<Self, Error>)
        ensures
            match response_of_json(v) {
                Ok(f) => r matches Ok(x) && response_matches(x, f),
                Err(e) => r matches Err(x) && x == e,
            },
    {
        let ghost step = response_steps();
        let ghost init = no_response_fields();
        let mut rest = match v {
            JsonValue::Object(es) => es,
            _ => {
                return Err(Error::InvalidType("ViewResponseJsonable"));
            },
        };
        let ghost all = rest@;
        let ghost mut i: int = 0;
        let ghost mut row_fields: Option<Seq<RowFields>> = None;
        let mut total_rows: Option<u64> = None;
        let mut offset: Option<u64> = None;
        let mut update_seq: Option<u64> = None;
        let mut rows: Option<Vec<ViewRowJsonable>> = None;
        assert(all.take(0) =~= Seq::<(String, JsonValue)>::empty());
        while rest.len() > 0
            invariant
                0 <= i <= all.len(),
                rest@ == all.skip(i),
                decode_fold(all.take(i), init, step) == Ok::<ResponseFields, Error>(ResponseFields {
                    total_rows,
                    offset,
                    update_seq,
                    rows: row_fields,
                }),
                rows is Some <==> row_fields is Some,
                rows matches Some(r) ==> rows_match(r@, row_fields->0),
                v is Object,
                all == v->Object_0@,
                step == response_steps(),
                init == no_response_fields(),
            decreases rest.len(),
        {
            proof {
                assert(all.skip(i)[0] == all[i]);
                lemma_decode_fold_step(all, init, step, i);
            }
            let (k, x) = rest.remove(0);
            proof {
                assert(rest@ =~= all.skip(i + 1));
                assert(all[i] == (k, x));
            }
            let key = k.as_str();
            let outcome: Result<(), Error> = if same_text(key, "offset") {
                match x.as_u64() {
                    Some(n) => {
                        offset = Some(n);
                        Ok(())
                    },
                    None => Err(Error::InvalidType("offset")),
                }
            } else if same_text(key, "rows") {
                let ghost s = rows_of_json(x);
                match decode_rows(x) {
                    Ok(r) => {
                        rows = Some(r);
                        proof {
                            row_fields = Some(s->Ok_0);
                        }
                        Ok(())
                    },
                    Err(e) => Err(e),
                }
            } else if same_text(key, "total_rows") {
                match x.as_u64() {
                    Some(n) => {
                        total_rows = Some(n);
                        Ok(())
                    },
                    None => Err(Error::InvalidType("total_rows")),
                }
            } else if same_text(key, "update_seq") {
                match x.as_u64() {
                    Some(n) => {
                        update_seq = Some(n);
                        Ok(())
                    },
                    None => Err(Error::InvalidType("update_seq")),
                }
            } else {
                Err(Error::UnknownField { name: k })
            };
            match outcome {
                Ok(()) => {},
                Err(e) => {
                    proof {
                        lemma_decode_fold_stops(all, init, step, i + 1);
                    }
                    return Err(e);
                },
            }
            proof {
                i = i + 1;
            }
        }
        assert(all.take(i) =~= all);
        match rows {
            Some(rows) => Ok(ViewResponseJsonable { total_rows, offset, update_seq, rows }),
            None => Err(Error::MissingField("rows")),
        }
    }
}

/// The row that a decoded row makes in a database.
pub open spec fn row_in_database(db: Seq<char>, x: ViewRowJsonable) -> ViewRowModel {
    ViewRowModel {
        key: x.key,
        value: x.value,
        doc_path: match x.id {
            Some(d) => Some((db, d@)),
            None => None,
        },
    }
}

impl ViewResponse {
    /// Makes the response of a view of a database from what was decoded of
    /// it: each row's document id becomes a document path in the database.
    pub fn new_from_decoded(db_name: DatabaseName, decoded: ViewResponseJsonable) -> (r: Self)
        ensures
            r@.total_rows == decoded.total_rows,
            r@.offset == decoded.offset,
            r@.update_seq == decoded.update_seq,
            r@.rows.len() == decoded.rows@.len(),
            forall|i: int| 0 <= i < decoded.rows@.len() ==> #[trigger] r@.rows[i] == row_in_database(db_name@, decoded.rows@[i]),
    {
        let ViewResponseJsonable { total_rows, offset, update_seq, rows } = decoded;
        let mut rest = rows;
        let ghost src = rest@;
        let ghost mut i: int = 0;
        let mut out: Vec<ViewRow> = Vec::new();
        while rest.len() > 0
            invariant
                0 <= i <= src.len(),
                rest@ == src.skip(i),
                out@.len() == i,
                forall|p: int| 0 <= p < i ==> #[trigger] out@[p]@ == row_in_database(db_name@, src[p]),
            decreases rest.len(),
        {
            proof {
                assert(src.skip(i)[0] == src[i]);
            }
            let row = rest.remove(0);
            proof {
                assert(rest@ =~= src.skip(i + 1));
            }
            let ViewRowJsonable { key, value, id } = row;
            let doc_path = match id {
                Some(d) => Some(DocumentPath::new(db_name.clone(), d)),
                None => None,
            };
            out.push(ViewRow { key, value, doc_path });
            proof {
                i = i + 1;
            }
        }
        let r = ViewResponse { total_rows, offset, rows: out, update_seq };
        assert forall|p: int| 0 <= p < src.len() implies #[trigger] r@.rows[p] == row_in_database(db_name@, src[p]) by {
            assert(r@.rows[p] == out@[p]@);
        }
        r
    }
}

// ------------------------------------------------------------------------
// Building responses

/// Marks a builder of the response of a reduced view.
pub struct IsReduced;

/// Marks a builder of the response of a grouped, reduced view.
pub struct IsGrouped;

/// Marks a builder of the response of an unreduced view.
pub struct IsUnreduced;

/// Builds a view response in memory, for tests and for the application's
/// own use.
#[derive(Debug)]
pub struct ViewResponseBuilder<T> {
    phantom: PhantomData<T>,
    db_name: Option<DatabaseName>,
    target: ViewResponse,
}

impl<T> View for ViewResponseBuilder<T> {
    type V = ViewResponseModel;

    closed spec fn view(&self) -> ViewResponseModel {
        self.target@
    }
}

impl<T> ViewResponseBuilder<T> {
    /// The database whose documents the rows come from, where the builder
    /// knows it.
    pub closed spec fn database(&self) -> Option<Seq<char>> {
        match self.db_name {
            Some(d) => Some(d@),
            None => None,
        }
    }

    /// Sets the update sequence number of the response.
    pub fn with_update_sequence_number(self, update_seq: u64) -> (r: Self)
        ensures
            r@ == (ViewResponseModel { update_seq: Some(update_seq), ..self@ }),
            r.database() == self.database(),
    {
        let mut b = self;
        b.target.update_seq = Some(update_seq);
        b
    }

    /// Returns the response built.
    pub fn unwrap(self) -> (r: ViewResponse)
        ensures
            r@ == self@,
    {
        self.target
    }
}

impl ViewResponseBuilder<IsReduced> {
    /// Starts the response of a reduced view: one row, of the given value
    /// and no key.
    pub fn new_reduced(value: JsonValue) -> (r: Self)
        ensures
            r@.total_rows is None,
            r@.offset is None,
            r@.update_seq is None,
            r@.rows == seq![ViewRowModel { key: None, value: value, doc_path: None }],
    {
        let mut rows: Vec<ViewRow> = Vec::new();
        rows.push(ViewRow { key: None, value, doc_path: None });
        let target = ViewResponse { total_rows: None, offset: None, rows, update_seq: None };
        assert(target@.rows =~= seq![ViewRowModel { key: None, value: value, doc_path: None }]);
        ViewResponseBuilder { phantom: PhantomData, db_name: None, target }
    }

    /// Starts the response of a reduced view of no rows.
    pub fn new_reduced_empty() -> (r: Self)
        ensures
            r@.total_rows is None,
            r@.offset is None,
            r@.update_seq is None,
            r@.rows.len() == 0,
    {
        ViewResponseBuilder { phantom: PhantomData, db_name: None, target: ViewResponse::default() }
    }
}

impl ViewResponseBuilder<IsGrouped> {
    /// Starts the response of a grouped view, of no rows yet.
    pub fn new_grouped() -> (r: Self)
        ensures
            r@.total_rows is None,
            r@.offset is None,
            r@.update_seq is None,
            r@.rows.len() == 0,
    {
        ViewResponseBuilder { phantom: PhantomData, db_name: None, target: ViewResponse::default() }
    }

    /// Adds a row of a key and a value.
    pub fn with_row(self, key: JsonValue, value: JsonValue) -> (r: Self)
        ensures
            r@ == (ViewResponseModel {
                rows: self@.rows.push(ViewRowModel { key: Some(key), value: value, doc_path: None }),
                ..self@
            }),
    {
        let mut b = self;
        b.target.rows.push(ViewRow { key: Some(key), value, doc_path: None });
        assert(b@.rows =~= self@.rows.push(ViewRowModel { key: Some(key), value: value, doc_path: None }));
        b
    }
}

impl ViewResponseBuilder<IsUnreduced> {
    /// Starts the response of an unreduced view of a database, of no rows
    /// yet.
    pub fn new_unreduced(db_name: DatabaseName, total_rows: u64, offset: u64) -> (r: Self)
        ensures
            r@.total_rows == Some(total_rows),
            r@.offset == Some(offset),
            r@.update_seq is None,
            r@.rows.len() == 0,
            r.database() == Some(db_name@),
    {
        ViewResponseBuilder {
            phantom: PhantomData,
            db_name: Some(db_name),
            target: ViewResponse { total_rows: Some(total_rows), offset: Some(offset), rows: Vec::new(), update_seq: None },
        }
    }

    /// Adds a row of a document, a key and a value.
    pub fn with_row(self, doc_id: DocumentId, key: JsonValue, value: JsonValue) -> (r: Self)
        requires
            self.database() is Some,
        ensures
            r@ == (ViewResponseModel {
                rows: self@.rows.push(ViewRowModel {
                    key: Some(key),
                    value: value,
                    doc_path: Some((self.database()->0, doc_id@)),
                }),
                ..self@
            }),
            r.database() == self.database(),
    {
        let mut b = self;
        let db_name = match &b.db_name {
            Some(d) => d.clone(),
            None => DatabaseName::from_string(String::new()),
        };
        let doc_path = DocumentPath::new(db_name, doc_id);
        b.target.rows.push(ViewRow { key: Some(key), value, doc_path: Some(doc_path) });
        assert(b@.rows =~= self@.rows.push(ViewRowModel {
            key: Some(key),
            value: value,
            doc_path: Some((self.database()->0, doc_id@)),
        }));
        b
    }
}

} // verus!
