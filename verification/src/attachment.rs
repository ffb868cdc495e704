//! Attachments: the meta-information and, optionally, the content of a file
//! attached to a document.
use vstd::prelude::*;
use vstd::string::StringSliceAdditionalSpecFns;
use vstd::utf8::encode_utf8;
use std::marker::PhantomData;
use crate::error::Error;
use crate::json::{
    JsonModel, JsonValue, decode_fold, entries_model, has_no_entry_named, is_last_named_entry, json_bool, json_model,
    json_text, json_u64, lemma_decode_fold_step, lemma_decode_fold_stops, lemma_object_model, same_text,
};
use crate::outside::{base64_decode, base64_decoded, base64_encode, base64_encoded, mime_parse, mime_parsed};

verus! {

/// A media type such as `text/plain`, as the `mime` crate parses and writes
/// it.
#[derive(Debug, PartialEq, Eq)]
pub struct ContentType {
    text: String,
}

impl View for ContentType {
    type V = Seq<char>;

    closed spec fn view(&self) -> Seq<char> {
        self.text@
    }
}

impl Clone for ContentType {
    fn clone(&self) -> (r: Self)
        ensures
            r@ == self@,
    {
        ContentType { text: self.text.clone() }
    }
}

impl ContentType {
    /// Parses a media type, e.g. `text/plain`.
    pub fn parse(s: &str) -> (r: Result<Self, Error>)
        ensures
            match mime_parsed(s@) {
                Some(t) => r matches Ok(c) && c@ == t.0,
                None => r matches Err(Error::ContentTypeParse),
            },
    {
        match mime_parse(s) {
            Some((text, _)) => Ok(ContentType { text }),
            None => Err(Error::ContentTypeParse),
        }
    }

    /// Returns the text of the media type.
    pub fn as_str(&self) -> (r: &str)
        ensures
            r@ == self@,
    {
        self.text.as_str()
    }
}

/// A blob of bytes that travels in JSON as base64 text.
#[derive(Debug, PartialEq)]
pub struct SerializableBase64Blob(pub Vec<u8>);

impl SerializableBase64Blob {
    /// Decodes a blob from its base64 text.
    pub fn decode(s: &str) -> (r: Result<Self, Error>)
        ensures
            match base64_decoded(s.spec_bytes()) {
                Some(b) => r matches Ok(x) && x.0@ == b,
                None => r matches Err(Error::Base64Decode),
            },
    {
        match base64_decode(s) {
            Some(v) => Ok(SerializableBase64Blob(v)),
            None => Err(Error::Base64Decode),
        }
    }

    /// Returns the base64 text of the blob.
    pub fn encode(&self) -> (r: String)
        ensures
            r@ == base64_encoded(self.0@),
    {
        base64_encode(self.0.as_slice())
    }
}

/// What an attachment is, abstractly.
pub struct AttachmentModel {
    /// Whether the attachment came from the server.
    pub saved: bool,
    pub content_type: Seq<char>,
    /// The digest the server gave; empty for an unsaved attachment.
    pub digest: Seq<char>,
    /// The revision sequence number at which the attachment was saved; zero
    /// for an unsaved attachment.
    pub sequence_number: u64,
    /// The content, if the attachment holds it (is not a stub).
    pub content: Option<Seq<u8>>,
    /// The size of the content, in bytes.
    pub length: int,
    /// The encoded length and the encoding, if the server compressed it.
    pub encoding: Option<(u64, Seq<char>)>,
}

#[derive(Debug, PartialEq)]
enum SavedAttachmentContent {
    LengthOnly(u64),
    Bytes(Vec<u8>),
}

#[derive(Debug, PartialEq)]
struct AttachmentEncodingInfo {
    encoded_length: u64,
    encoding: String,
}

/// An attachment as the server sent it: a stub holding the length of its
/// content, or the content in full.
#[derive(Debug, PartialEq)]
pub struct SavedAttachment {
    content_type: ContentType,
    digest: String,
    sequence_number: u64,
    content: SavedAttachmentContent,
    encoding_info: Option<AttachmentEncodingInfo>,
}

impl View for SavedAttachment {
    type V = AttachmentModel;

    closed spec fn view(&self) -> AttachmentModel {
        AttachmentModel {
            saved: true,
            content_type: self.content_type@,
            digest: self.digest@,
            sequence_number: self.sequence_number,
            content: match self.content {
                SavedAttachmentContent::LengthOnly(_) => None,
                SavedAttachmentContent::Bytes(b) => Some(b@),
            },
            length: match self.content {
                SavedAttachmentContent::LengthOnly(n) => n as int,
                SavedAttachmentContent::Bytes(b) => b@.len() as int,
            },
            encoding: match self.encoding_info {
                None => None,
                Some(e) => Some((e.encoded_length, e.encoding@)),
            },
        }
    }
}

/// The fields of a saved attachment as they stand in the server's JSON,
/// each present or not.
pub struct SavedAttachmentFields {
    pub content_type: Option<String>,
    pub data: Option<String>,
    pub digest: Option<String>,
    pub encoded_length: Option<u64>,
    pub encoding: Option<String>,
    pub length: Option<u64>,
    pub revpos: Option<u64>,
}

/// What the JSON fields of a saved attachment give: the media type and the
/// base64 content are decoded first, then the fields are checked in turn.
pub open spec fn saved_attachment_result(f: SavedAttachmentFields) -> Result<AttachmentModel, Error> {
    if f.content_type is Some && mime_parsed(f.content_type->0@) is None {
        Err(Error::ContentTypeParse)
    } else if f.data is Some && base64_decoded(encode_utf8(f.data->0@)) is None {
        Err(Error::Base64Decode)
    } else if f.data is Some && f.length is Some {
        Err(Error::UnexpectedField("data"))
    } else if f.data is None && f.length is None {
        Err(Error::MissingField("length"))
    } else if f.content_type is None {
        Err(Error::MissingField("content_type"))
    } else if f.digest is None {
        Err(Error::MissingField("digest"))
    } else if f.encoded_length is None && f.encoding is Some {
        Err(Error::MissingField("encoded_info"))
    } else if f.encoded_length is Some && f.encoding is None {
        Err(Error::MissingField("encoding"))
    } else if f.revpos is None {
        Err(Error::MissingField("revpos"))
    } else {
        let data = match f.data {
            Some(d) => base64_decoded(encode_utf8(d@)),
            None => None,
        };
        Ok(AttachmentModel {
            saved: true,
            content_type: (mime_parsed(f.content_type->0@)->0).0,
            digest: f.digest->0@,
            sequence_number: f.revpos->0,
            content: data,
            length: match data {
                Some(b) => b.len() as int,
                None => f.length->0 as int,
            },
            encoding: match f.encoded_length {
                None => None,
                Some(n) => Some((n, f.encoding->0@)),
            },
        })
    }
}

/// Whether an outcome agrees with its specification.
pub open spec fn attachment_outcome<T: View<V = AttachmentModel>>(r: Result<T, Error>, s: Result<AttachmentModel, Error>) -> bool {
    match s {
        Ok(m) => r matches Ok(a) && a@ == m,
        Err(e) => r matches Err(x) && x == e,
    }
}

impl SavedAttachment {
    /// Builds a saved attachment from the fields of the server's JSON:
    /// exactly one of `data` (base64 content) and `length` must be present,
    /// as must `content_type`, `digest` and `revpos`; `encoded_length` and
    /// `encoding` go together.
    pub fn from_fields(f: SavedAttachmentFields) -> (r: Result<Self, Error>)
        ensures
            attachment_outcome(r, saved_attachment_result(f)),
    {
        let SavedAttachmentFields { content_type, data, digest, encoded_length, encoding, length, revpos } = f;
        let content_type = match content_type {
            Some(ct) => Some(ContentType::parse(ct.as_str())?),
            None => None,
        };
        let data = match data {
            Some(d) => Some(SerializableBase64Blob::decode(d.as_str())?.0),
            None => None,
        };
        let content = match (data, length) {
            (Some(b), None) => SavedAttachmentContent::Bytes(b),
            (None, Some(n)) => SavedAttachmentContent::LengthOnly(n),
            (None, None) => {
                return Err(Error::MissingField("length"));
            },
            (Some(_), Some(_)) => {
                return Err(Error::UnexpectedField("data"));
            },
        };
        let content_type = match content_type {
            Some(c) => c,
            None => {
                return Err(Error::MissingField("content_type"));
            },
        };
        let digest = match digest {
            Some(d) => d,
            None => {
                return Err(Error::MissingField("digest"));
            },
        };
        let encoding_info = match (encoded_length, encoding) {
            (None, None) => None,
            (Some(n), Some(e)) => Some(AttachmentEncodingInfo { encoded_length: n, encoding: e }),
            (None, _) => {
                return Err(Error::MissingField("encoded_info"));
            },
            (_, None) => {
                return Err(Error::MissingField("encoding"));
            },
        };
        let sequence_number = match revpos {
            Some(x) => x,
            None => {
                return Err(Error::MissingField("revpos"));
            },
        };
        Ok(SavedAttachment { content_type, digest, sequence_number, content, encoding_info })
    }

    /// Returns the media type of the content.
    pub fn content_type(&self) -> (r: &ContentType)
        ensures
            r@ == self@.content_type,
    {
        &self.content_type
    }

    /// Returns the revision sequence number at which the attachment was saved.
    pub fn sequence_number(&self) -> (r: u64)
        ensures
            r == self@.sequence_number,
    {
        self.sequence_number
    }

    /// Returns the size of the content, in bytes.
    pub fn content_length(&self) -> (r: u64)
        ensures
            r == self@.length,
    {
        match &self.content {
            SavedAttachmentContent::LengthOnly(n) => *n,
            SavedAttachmentContent::Bytes(b) => b.len() as u64,
        }
    }

    /// Returns the content, unless the attachment is a stub.
    pub fn content_bytes(&self) -> (r: Option<&[u8]>)
        ensures
            match r {
                Some(b) => self@.content == Some(b@),
                None => self@.content is None,
            },
    {
        match &self.content {
            SavedAttachmentContent::LengthOnly(_) => None,
            SavedAttachmentContent::Bytes(b) => Some(b.as_slice()),
        }
    }

    /// Returns the digest that the server computed.
    pub fn digest(&self) -> (r: &str)
        ensures
            r@ == self@.digest,
    {
        self.digest.as_str()
    }
}

/// The fields of a saved attachment before any is read.
pub open spec fn no_saved_attachment_fields() -> SavedAttachmentFields {
    SavedAttachmentFields {
        content_type: None,
        data: None,
        digest: None,
        encoded_length: None,
        encoding: None,
        length: None,
        revpos: None,
    }
}

/// One step of reading the JSON object of a saved attachment: each known
/// field must hold a value of its type, and a later one replaces an earlier
/// one; the media type and the base64 content must decode where they
/// stand; `stub` is checked and otherwise ignored; no other field may stand
/// there.
pub open spec fn saved_attachment_step(f: SavedAttachmentFields, e: (String, JsonValue)) -> Result<SavedAttachmentFields, Error> {
    let (k, v) = e;
    if k@ == "content_type"@ {
        match v {
            JsonValue::String(t) => if mime_parsed(t@) is None {
                Err(Error::ContentTypeParse)
            } else {
                Ok(SavedAttachmentFields { content_type: Some(t), ..f })
            },
            _ => Err(Error::InvalidType("content_type")),
        }
    } else if k@ == "data"@ {
        match v {
            JsonValue::String(t) => if base64_decoded(encode_utf8(t@)) is None {
                Err(Error::Base64Decode)
            } else {
                Ok(SavedAttachmentFields { data: Some(t), ..f })
            },
            _ => Err(Error::InvalidType("data")),
        }
    } else if k@ == "digest"@ {
        match v {
            JsonValue::String(t) => Ok(SavedAttachmentFields { digest: Some(t), ..f }),
            _ => Err(Error::InvalidType("digest")),
        }
    } else if k@ == "encoded_length"@ {
        match json_u64(v) {
            Some(n) => Ok(SavedAttachmentFields { encoded_length: Some(n), ..f }),
            None => Err(Error::InvalidType("encoded_length")),
        }
    } else if k@ == "encoding"@ {
        match v {
            JsonValue::String(t) => Ok(SavedAttachmentFields { encoding: Some(t), ..f }),
            _ => Err(Error::InvalidType("encoding")),
        }
    } else if k@ == "length"@ {
        match json_u64(v) {
            Some(n) => Ok(SavedAttachmentFields { length: Some(n), ..f }),
            None => Err(Error::InvalidType("length")),
        }
    } else if k@ == "revpos"@ {
        match json_u64(v) {
            Some(n) => Ok(SavedAttachmentFields { revpos: Some(n), ..f }),
            None => Err(Error::InvalidType("revpos")),
        }
    } else if k@ == "stub"@ {
        match json_bool(v) {
            Some(_) => Ok(f),
            None => Err(Error::InvalidType("stub")),
        }
    } else {
        Err(Error::UnknownField { name: k })
    }
}

/// The steps of reading a saved attachment.
pub open spec fn saved_attachment_steps() -> spec_fn(SavedAttachmentFields, (String, JsonValue)) -> Result<SavedAttachmentFields, Error> {
    |f: SavedAttachmentFields, e: (String, JsonValue)| saved_attachment_step(f, e)
}

/// What a JSON value gives as a saved attachment: its fields are read in
/// turn, then checked together.
pub open spec fn saved_attachment_of_json(v: JsonValue) -> Result<AttachmentModel, Error> {
    match v {
        JsonValue::Object(entries) => match decode_fold(entries@, no_saved_attachment_fields(), saved_attachment_steps()) {
            Err(e) => Err(e),
            Ok(f) => saved_attachment_result(f),
        },
        _ => Err(Error::InvalidType("SavedAttachment")),
    }
}

proof fn lemma_saved_attachment_names_differ()
    ensures
        "content_type"@ != "data"@,
        "content_type"@ != "digest"@,
        "content_type"@ != "encoded_length"@,
        "content_type"@ != "encoding"@,
        "content_type"@ != "length"@,
        "content_type"@ != "revpos"@,
        "content_type"@ != "stub"@,
        "data"@ != "digest"@,
        "data"@ != "encoded_length"@,
        "data"@ != "encoding"@,
        "data"@ != "length"@,
        "data"@ != "revpos"@,
        "data"@ != "stub"@,
        "digest"@ != "encoded_length"@,
        "digest"@ != "encoding"@,
        "digest"@ != "length"@,
        "digest"@ != "revpos"@,
        "digest"@ != "stub"@,
        "encoded_length"@ != "encoding"@,
        "encoded_length"@ != "length"@,
        "encoded_length"@ != "revpos"@,
        "encoded_length"@ != "stub"@,
        "encoding"@ != "length"@,
        "encoding"@ != "revpos"@,
        "encoding"@ != "stub"@,
        "length"@ != "revpos"@,
        "length"@ != "stub"@,
        "revpos"@ != "stub"@,
{
    reveal_strlit("content_type");
    reveal_strlit("data");
    reveal_strlit("digest");
    reveal_strlit("encoded_length");
    reveal_strlit("encoding");
    reveal_strlit("length");
    reveal_strlit("revpos");
    reveal_strlit("stub");
    assert("content_type"@.len() != "data"@.len());
    assert("content_type"@.len() != "digest"@.len());
    assert("content_type"@.len() != "encoded_length"@.len());
    assert("content_type"@.len() != "encoding"@.len());
    assert("content_type"@.len() != "length"@.len());
    assert("content_type"@.len() != "revpos"@.len());
    assert("content_type"@.len() != "stub"@.len());
    assert("data"@.len() != "digest"@.len());
    assert("data"@.len() != "encoded_length"@.len());
    assert("data"@.len() != "encoding"@.len());
    assert("data"@.len() != "length"@.len());
    assert("data"@.len() != "revpos"@.len());
    assert("data"@[0] != "stub"@[0]);
    assert("digest"@.len() != "encoded_length"@.len());
    assert("digest"@.len() != "encoding"@.len());
    assert("digest"@[0] != "length"@[0]);
    assert("digest"@[0] != "revpos"@[0]);
    assert("digest"@.len() != "stub"@.len());
    assert("encoded_length"@.len() != "encoding"@.len());
    assert("encoded_length"@.len() != "length"@.len());
    assert("encoded_length"@.len() != "revpos"@.len());
    assert("encoded_length"@.len() != "stub"@.len());
    assert("encoding"@.len() != "length"@.len());
    assert("encoding"@.len() != "revpos"@.len());
    assert("encoding"@.len() != "stub"@.len());
    assert("length"@[0] != "revpos"@[0]);
    assert("length"@.len() != "stub"@.len());
    assert("revpos"@.len() != "stub"@.len());
}

/// The state of reading a saved attachment after a prefix of its fields.
spec fn saved_fold(s: Seq<(String, JsonValue)>) -> Result<SavedAttachmentFields, Error> {
    decode_fold(s, no_saved_attachment_fields(), saved_attachment_steps())
}

proof fn lemma_saved_fold_media(s: Seq<(String, JsonValue)>)
    requires
        saved_fold(s) is Ok,
    ensures
        ({
            let f = saved_fold(s)->Ok_0;
            &&& forall|i: int| is_last_named_entry(s, "content_type"@, i) ==> f.content_type is Some && Some(f.content_type->0@) == json_text((#[trigger] s[i]).1)
            &&& forall|i: int| is_last_named_entry(s, "data"@, i) ==> f.data is Some && Some(f.data->0@) == json_text((#[trigger] s[i]).1)
            &&& has_no_entry_named(s, "data"@) ==> f.data is None
        }),
    decreases s.len(),
{
    lemma_saved_attachment_names_differ();
    if s.len() > 0 {
        let u = s.drop_last();
        let e = s.last();
        assert(saved_fold(u) is Ok);
        lemma_saved_fold_media(u);
        let f = saved_fold(s)->Ok_0;
        assert(saved_fold(s) == saved_attachment_step(saved_fold(u)->Ok_0, e));
        assert forall|j: int| 0 <= j < u.len() implies (#[trigger] u[j]) == s[j] by {}
        assert forall|i: int| is_last_named_entry(s, "content_type"@, i) implies f.content_type is Some && Some(f.content_type->0@) == json_text((#[trigger] s[i]).1) by {
            if i < u.len() {
                assert(u[i] == s[i]);
                assert(is_last_named_entry(u, "content_type"@, i));
            } else {
                assert(s[i] == e);
            }
        }
        assert forall|i: int| is_last_named_entry(s, "data"@, i) implies f.data is Some && Some(f.data->0@) == json_text((#[trigger] s[i]).1) by {
            if i < u.len() {
                assert(u[i] == s[i]);
                assert(is_last_named_entry(u, "data"@, i));
            } else {
                assert(s[i] == e);
            }
        }
        if has_no_entry_named(s, "data"@) {
            assert(s[s.len() - 1].0@ != "data"@);
        }
    }
}

proof fn lemma_saved_fold_digest(s: Seq<(String, JsonValue)>)
    requires
        saved_fold(s) is Ok,
    ensures
        ({
            let f = saved_fold(s)->Ok_0;
            &&& forall|i: int| is_last_named_entry(s, "digest"@, i) ==> f.digest is Some && Some(f.digest->0@) == json_text((#[trigger] s[i]).1)
        }),
    decreases s.len(),
{
    lemma_saved_attachment_names_differ();
    if s.len() > 0 {
        let u = s.drop_last();
        let e = s.last();
        assert(saved_fold(u) is Ok);
        lemma_saved_fold_digest(u);
        let f = saved_fold(s)->Ok_0;
        assert(saved_fold(s) == saved_attachment_step(saved_fold(u)->Ok_0, e));
        assert forall|j: int| 0 <= j < u.len() implies (#[trigger] u[j]) == s[j] by {}
        assert forall|i: int| is_last_named_entry(s, "digest"@, i) implies f.digest is Some && Some(f.digest->0@) == json_text((#[trigger] s[i]).1) by {
            if i < u.len() {
                assert(u[i] == s[i]);
                assert(is_last_named_entry(u, "digest"@, i));
            } else {
                assert(s[i] == e);
            }
        }
    }
}

#[verifier::rlimit(40)]
proof fn lemma_saved_fold_length(s: Seq<(String, JsonValue)>)
    requires
        saved_fold(s) is Ok,
    ensures
        ({
            let f = saved_fold(s)->Ok_0;
            &&& forall|i: int| is_last_named_entry(s, "length"@, i) ==> f.length == json_u64((#[trigger] s[i]).1)
            &&& has_no_entry_named(s, "length"@) ==> f.length is None
        }),
    decreases s.len(),
{
    lemma_saved_attachment_names_differ();
    if s.len() > 0 {
        let u = s.drop_last();
        let e = s.last();
        assert(saved_fold(u) is Ok);
        lemma_saved_fold_length(u);
        let f0 = saved_fold(u)->Ok_0;
        let f = saved_fold(s)->Ok_0;
        assert(saved_fold(s) == saved_attachment_step(f0, e));
        if e.0@ != "length"@ {
            assert(f.length == f0.length);
        }
        assert forall|j: int| 0 <= j < u.len() implies (#[trigger] u[j]) == s[j] by {}
        assert forall|i: int| is_last_named_entry(s, "length"@, i) implies f.length == json_u64((#[trigger] s[i]).1) by {
            if i < u.len() {
                assert(u[i] == s[i]);
                assert(is_last_named_entry(u, "length"@, i));
            } else {
                assert(s[i] == e);
            }
        }
        if has_no_entry_named(s, "length"@) {
            assert(s[s.len() - 1].0@ != "length"@);
        }
    }
}

#[verifier::rlimit(40)]
proof fn lemma_saved_fold_revpos(s: Seq<(String, JsonValue)>)
    requires
        saved_fold(s) is Ok,
    ensures
        ({
            let f = saved_fold(s)->Ok_0;
            &&& forall|i: int| is_last_named_entry(s, "revpos"@, i) ==> f.revpos == json_u64((#[trigger] s[i]).1)
        }),
    decreases s.len(),
{
    lemma_saved_attachment_names_differ();
    if s.len() > 0 {
        let u = s.drop_last();
        let e = s.last();
        assert(saved_fold(u) is Ok);
        lemma_saved_fold_revpos(u);
        let f0 = saved_fold(u)->Ok_0;
        let f = saved_fold(s)->Ok_0;
        assert(saved_fold(s) == saved_attachment_step(f0, e));
        if e.0@ != "revpos"@ {
            assert(f.revpos == f0.revpos);
        }
        assert forall|j: int| 0 <= j < u.len() implies (#[trigger] u[j]) == s[j] by {}
        assert forall|i: int| is_last_named_entry(s, "revpos"@, i) implies f.revpos == json_u64((#[trigger] s[i]).1) by {
            if i < u.len() {
                assert(u[i] == s[i]);
                assert(is_last_named_entry(u, "revpos"@, i));
            } else {
                assert(s[i] == e);
            }
        }
    }
}

/// A decoded saved attachment holds what the last field of each name says:
/// the media type that `content_type` parses to, the digest of `digest`,
/// the sequence number of `revpos`; the content that `data` decodes from
/// base64 and its length where there is `data`, and no content and the
/// length of `length` where there is not.
pub proof fn lemma_saved_attachment_fields(v: Vec<(String, JsonValue)>)
    requires
        saved_attachment_of_json(JsonValue::Object(v)) is Ok,
    ensures
        ({
            let a = saved_attachment_of_json(JsonValue::Object(v))->Ok_0;
            &&& a.saved
            &&& forall|i: int|
                is_last_named_entry(v@, "content_type"@, i) ==> json_text((#[trigger] v@[i]).1) is Some && mime_parsed(
                    json_text(v@[i].1)->0,
                ) is Some && a.content_type == (mime_parsed(json_text(v@[i].1)->0)->0).0
            &&& forall|i: int| is_last_named_entry(v@, "digest"@, i) ==> json_text((#[trigger] v@[i]).1) == Some(a.digest)
            &&& forall|i: int|
                is_last_named_entry(v@, "revpos"@, i) ==> json_u64((#[trigger] v@[i]).1) == Some(a.sequence_number)
            &&& forall|i: int|
                is_last_named_entry(v@, "data"@, i) ==> json_text((#[trigger] v@[i]).1) is Some && base64_decoded(
                    encode_utf8(json_text(v@[i].1)->0),
                ) is Some && a.content == base64_decoded(encode_utf8(json_text(v@[i].1)->0)) && a.length == a.content->0.len()
            &&& forall|i: int|
                is_last_named_entry(v@, "length"@, i) && has_no_entry_named(v@, "data"@) ==> a.content is None && json_u64(
                    (#[trigger] v@[i]).1,
                ) is Some && a.length == json_u64(v@[i].1)->0
        }),
{
    lemma_saved_fold_media(v@);
    lemma_saved_fold_digest(v@);
    lemma_saved_fold_length(v@);
    lemma_saved_fold_revpos(v@);
}

impl SavedAttachment {
    /// Decodes a saved attachment from the JSON object that the server sent.
    pub fn from_json(v: JsonValue) -> (r: Result<Self, Error>)
        ensures
            attachment_outcome(r, saved_attachment_of_json(v)),
    {
        let ghost step = saved_attachment_steps();
        let ghost init = no_saved_attachment_fields();
        let mut entries = match v {
            JsonValue::Object(entries) => entries,
            _ => {
                return Err(Error::InvalidType("SavedAttachment"));
            },
        };
        let ghost all = entries@;
        let ghost mut i: int = 0;
        let mut f = SavedAttachmentFields {
            content_type: None,
            data: None,
            digest: None,
            encoded_length: None,
            encoding: None,
            length: None,
            revpos: None,
        };
        assert(all.take(0) =~= Seq::<(String, JsonValue)>::empty());
        while entries.len() > 0
            invariant
                0 <= i <= all.len(),
                entries@ == all.skip(i),
                decode_fold(all.take(i), init, step) == Ok::<SavedAttachmentFields, Error>(f),
                v is Object,
                all == v->Object_0@,
                step == saved_attachment_steps(),
                init == no_saved_attachment_fields(),
            decreases entries.len(),
        {
            proof {
                assert(all.skip(i)[0] == all[i]);
                lemma_decode_fold_step(all, init, step, i);
            }
            let ghost before = f;
            let (k, x) = entries.remove(0);
            proof {
                assert(entries@ =~= all.skip(i + 1));
                assert(all[i] == (k, x));
                assert(decode_fold(all.take(i + 1), init, step) == saved_attachment_step(before, (k, x)));
            }
            let key = k.as_str();
            let step_result: Result<(), Error> = if same_text(key, "content_type") {
                match x {
                    JsonValue::String(t) => {
                        if mime_parse(t.as_str()).is_none() {
                            Err(Error::ContentTypeParse)
                        } else {
                            f.content_type = Some(t);
                            Ok(())
                        }
                    },
                    _ => Err(Error::InvalidType("content_type")),
                }
            } else if same_text(key, "data") {
                match x {
                    JsonValue::String(t) => {
                        if base64_decode(t.as_str()).is_none() {
                            Err(Error::Base64Decode)
                        } else {
                            f.data = Some(t);
                            Ok(())
                        }
                    },
                    _ => Err(Error::InvalidType("data")),
                }
            } else if same_text(key, "digest") {
                match x {
                    JsonValue::String(t) => {
                        f.digest = Some(t);
                        Ok(())
                    },
                    _ => Err(Error::InvalidType("digest")),
                }
            } else if same_text(key, "encoded_length") {
                match x.as_u64() {
                    Some(n) => {
                        f.encoded_length = Some(n);
                        Ok(())
                    },
                    None => Err(Error::InvalidType("encoded_length")),
                }
            } else if same_text(key, "encoding") {
                match x {
                    JsonValue::String(t) => {
                        f.encoding = Some(t);
                        Ok(())
                    },
                    _ => Err(Error::InvalidType("encoding")),
                }
            } else if same_text(key, "length") {
                match x.as_u64() {
                    Some(n) => {
                        f.length = Some(n);
                        Ok(())
                    },
                    None => Err(Error::InvalidType("length")),
                }
            } else if same_text(key, "revpos") {
                match x.as_u64() {
                    Some(n) => {
                        f.revpos = Some(n);
                        Ok(())
                    },
                    None => Err(Error::InvalidType("revpos")),
                }
            } else if same_text(key, "stub") {
                match x.as_bool() {
                    Some(_) => Ok(()),
                    None => Err(Error::InvalidType("stub")),
                }
            } else {
                Err(Error::UnknownField { name: k })
            };
            match step_result {
                Ok(()) => {},
                Err(e) => {
                    proof {
                        lemma_decode_fold_stops(all, init, step, i + 1);
                    }
                    return Err(e);
                },
            }
            proof {
                i = i + 1;
            }
        }
        assert(all.take(i) =~= all);
        SavedAttachment::from_fields(f)
    }
}

/// An attachment that the client has made and not yet saved to the server.
#[derive(Debug, PartialEq)]
pub struct UnsavedAttachment {
    content_type: ContentType,
    content: Vec<u8>,
}

impl View for UnsavedAttachment {
    type V = AttachmentModel;

    closed spec fn view(&self) -> AttachmentModel {
        unsaved_model(self.content_type@, self.content@)
    }
}

/// What an unsaved attachment of the given media type and content is.
pub open spec fn unsaved_model(content_type: Seq<char>, content: Seq<u8>) -> AttachmentModel {
    AttachmentModel {
        saved: false,
        content_type: content_type,
        digest: Seq::empty(),
        sequence_number: 0,
        content: Some(content),
        length: content.len() as int,
        encoding: None,
    }
}

impl UnsavedAttachment {
    /// Returns the base64 text of the content, as the server expects it.
    pub fn content_base64(&self) -> (r: String)
        ensures
            r@ == base64_encoded(self@.content->0),
    {
        base64_encode(self.content.as_slice())
    }
}

/// Contains the meta-information and, optionally, the content of an
/// attachment.
#[derive(Debug, PartialEq)]
pub enum Attachment {
    Saved(SavedAttachment),
    Unsaved(UnsavedAttachment),
}

impl View for Attachment {
    type V = AttachmentModel;

    closed spec fn view(&self) -> AttachmentModel {
        match self {
            Attachment::Saved(a) => a@,
            Attachment::Unsaved(a) => a@,
        }
    }
}

impl Attachment {
    /// Returns the media type of the content.
    pub fn content_type(&self) -> (r: &ContentType)
        ensures
            r@ == self@.content_type,
    {
        match self {
            Attachment::Saved(a) => &a.content_type,
            Attachment::Unsaved(a) => &a.content_type,
        }
    }

    /// Returns the size of the content, in bytes.
    pub fn content_length(&self) -> (r: u64)
        ensures
            r == self@.length,
    {
        match self {
            Attachment::Saved(a) => a.content_length(),
            Attachment::Unsaved(a) => a.content.len() as u64,
        }
    }

    /// Returns the content, if the attachment holds it: an unsaved
    /// attachment always does, a saved one unless it is a stub.
    pub fn content(&self) -> (r: Option<&Vec<u8>>)
        ensures
            match r {
                Some(b) => self@.content == Some(b@),
                None => self@.content is None,
            },
    {
        match self {
            Attachment::Saved(a) => match &a.content {
                SavedAttachmentContent::LengthOnly(_) => None,
                SavedAttachmentContent::Bytes(b) => Some(b),
            },
            Attachment::Unsaved(a) => Some(&a.content),
        }
    }
}

/// The JSON that stands for an attachment in a document that the client
/// sends: a stub for a saved attachment, the media type and the base64
/// content for an unsaved one.
pub open spec fn attachment_json_model(m: AttachmentModel) -> JsonModel {
    if m.saved {
        JsonModel::Object(seq![("stub"@, JsonModel::Bool(true))])
    } else {
        JsonModel::Object(
            seq![
                ("content_type"@, JsonModel::Str(m.content_type)),
                ("data"@, JsonModel::Str(base64_encoded(m.content->0))),
            ],
        )
    }
}

impl Attachment {
    /// Decodes an attachment from the JSON object that the server sent; it
    /// is a saved one.
    pub fn from_json(v: JsonValue) -> (r: Result<Attachment, Error>)
        ensures
            attachment_outcome(r, saved_attachment_of_json(v)),
            r matches Ok(a) ==> a@.saved,
    {
        Ok(Attachment::Saved(SavedAttachment::from_json(v)?))
    }

    /// Returns the JSON that stands for the attachment in a document that the
    /// client sends.
    pub fn to_json(&self) -> (r: JsonValue)
        ensures
            json_model(r) == attachment_json_model(self@),
    {
        match self {
            Attachment::Saved(_) => {
                let mut es: Vec<(String, JsonValue)> = Vec::new();
                es.push(("stub".to_owned(), JsonValue::Bool(true)));
                let r = JsonValue::Object(es);
                proof {
                    lemma_object_model(es);
                    assert(entries_model(es@) =~= seq![("stub"@, JsonModel::Bool(true))]);
                }
                r
            },
            Attachment::Unsaved(a) => {
                let mut es: Vec<(String, JsonValue)> = Vec::new();
                es.push(("content_type".to_owned(), JsonValue::from_str(a.content_type.as_str())));
                es.push(("data".to_owned(), JsonValue::String(a.content_base64())));
                let r = JsonValue::Object(es);
                proof {
                    lemma_object_model(es);
                    assert(entries_model(es@) =~= seq![
                        ("content_type"@, JsonModel::Str(self@.content_type)),
                        ("data"@, JsonModel::Str(base64_encoded(self@.content->0))),
                    ]);
                }
                r
            },
        }
    }
}

/// Marks that an attachment is saved.
pub struct AttachmentIsSaved;

/// Marks that an attachment is unsaved.
pub struct AttachmentIsUnsaved;

/// Builds an attachment as though it came from the server (saved) or from
/// the client (unsaved).
#[derive(Debug)]
pub struct AttachmentBuilder<M> {
    target: Attachment,
    marker: PhantomData<M>,
}

impl<M> View for AttachmentBuilder<M> {
    type V = AttachmentModel;

    closed spec fn view(&self) -> AttachmentModel {
        self.target@
    }
}

impl AttachmentBuilder<AttachmentIsSaved> {
    /// Starts a saved attachment stub, which knows the length of its content
    /// but not the content.
    pub fn new_saved(content_type: ContentType, digest: String, sequence_number: u64, content_length: u64) -> (r: Self)
        ensures
            r@ == (AttachmentModel {
                saved: true,
                content_type: content_type@,
                digest: digest@,
                sequence_number: sequence_number,
                content: None,
                length: content_length as int,
                encoding: None,
            }),
    {
        AttachmentBuilder {
            target: Attachment::Saved(SavedAttachment {
                content_type,
                digest,
                sequence_number,
                content: SavedAttachmentContent::LengthOnly(content_length),
                encoding_info: None,
            }),
            marker: PhantomData,
        }
    }

    /// Starts a saved attachment that holds its content.
    pub fn new_saved_with_content(content_type: ContentType, digest: String, sequence_number: u64, content: Vec<u8>) -> (r: Self)
        ensures
            r@ == (AttachmentModel {
                saved: true,
                content_type: content_type@,
                digest: digest@,
                sequence_number: sequence_number,
                content: Some(content@),
                length: content@.len() as int,
                encoding: None,
            }),
    {
        AttachmentBuilder {
            target: Attachment::Saved(SavedAttachment {
                content_type,
                digest,
                sequence_number,
                content: SavedAttachmentContent::Bytes(content),
                encoding_info: None,
            }),
            marker: PhantomData,
        }
    }
}

impl AttachmentBuilder<AttachmentIsUnsaved> {
    /// Starts an unsaved attachment.
    pub fn new_unsaved(content_type: ContentType, content: Vec<u8>) -> (r: Self)
        ensures
            r@ == unsaved_model(content_type@, content@),
    {
        AttachmentBuilder {
            target: Attachment::Unsaved(UnsavedAttachment { content_type, content }),
            marker: PhantomData,
        }
    }
}

impl<M> AttachmentBuilder<M> {
    /// Returns the attachment built.
    pub fn unwrap(self) -> (r: Attachment)
        ensures
            r@ == self@,
    {
        self.target
    }
}

} // verus!
