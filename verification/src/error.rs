//! Errors reported by this library, and the error bodies that a CouchDB
//! server sends.
use vstd::prelude::*;
use crate::outside::{debug_quoted, debug_text};
use crate::revision::{decimal_string, decimal_text};
use crate::json::{
    JsonValue, decode_fold, has_no_entry_named, is_last_named_entry, json_text, lemma_decode_fold_step, lemma_decode_fold_stops, opt_text,
    same_text,
};

verus! {

/// Describes why a resource path string could not be parsed.
#[derive(Debug, Clone, Copy, PartialEq, Eq)]
pub enum PathParseError {
    /// A segment differs from the literal segment expected there.
    BadSegment(&'static str),
    /// A segment is empty.
    EmptySegment,
    /// The path does not begin with a slash.
    NoLeadingSlash,
    /// The path has too few segments.
    TooFewSegments,
    /// The path has too many segments.
    TooManySegments,
    /// The path ends with a slash.
    TrailingSlash,
}

/// Describes why a document revision string could not be parsed.
#[derive(Debug, Clone, Copy, PartialEq, Eq, Structural)]
pub enum RevisionParseError {
    /// There is no `-` between the sequence number and the digest.
    TooFewParts,
    /// The sequence number is not a decimal number that fits in 64 bits.
    NumberParse,
    /// The sequence number is zero.
    ZeroSequenceNumber,
    /// The digest is not a 128-bit hexadecimal number.
    DigestParse,
    /// The digest holds a character that is not a hexadecimal digit.
    DigestNotAllHex,
}

/// The text of a path parse error.
pub open spec fn path_parse_error_text(e: PathParseError) -> Seq<char> {
    match e {
        PathParseError::BadSegment(expected) => "Segment is bad, expected "@ + debug_quoted(expected@),
        PathParseError::EmptySegment => "Path segment is empty"@,
        PathParseError::NoLeadingSlash => "Path does not begin with a slash"@,
        PathParseError::TooFewSegments => "Too few path segments"@,
        PathParseError::TooManySegments => "Too many path segments"@,
        PathParseError::TrailingSlash => "Path ends with a slash"@,
    }
}

impl PathParseError {
    /// Returns a message that says what is wrong with the path.
    pub fn to_string(&self) -> (r: String)
        ensures
            r@ == path_parse_error_text(*self),
    {
        match self {
            PathParseError::BadSegment(expected) => "Segment is bad, expected ".to_owned().concat(debug_text(expected).as_str()),
            PathParseError::EmptySegment => "Path segment is empty".to_owned(),
            PathParseError::NoLeadingSlash => "Path does not begin with a slash".to_owned(),
            PathParseError::TooFewSegments => "Too few path segments".to_owned(),
            PathParseError::TooManySegments => "Too many path segments".to_owned(),
            PathParseError::TrailingSlash => "Path ends with a slash".to_owned(),
        }
    }
}

/// The text of a revision parse error.
pub open spec fn revision_parse_error_text(e: RevisionParseError) -> Seq<char> {
    match e {
        RevisionParseError::TooFewParts => "Revision has too few parts"@,
        RevisionParseError::NumberParse => "Revision sequence number is not a valid number"@,
        RevisionParseError::ZeroSequenceNumber => "Revision sequence number is zero"@,
        RevisionParseError::DigestParse => "Revision digest is not a valid digest"@,
        RevisionParseError::DigestNotAllHex => "Revision digest is not all hexadecimal digits"@,
    }
}

impl RevisionParseError {
    /// Returns a message that says what is wrong with the revision.
    pub fn to_string(&self) -> (r: String)
        ensures
            r@ == revision_parse_error_text(*self),
    {
        match self {
            RevisionParseError::TooFewParts => "Revision has too few parts".to_owned(),
            RevisionParseError::NumberParse => "Revision sequence number is not a valid number".to_owned(),
            RevisionParseError::ZeroSequenceNumber => "Revision sequence number is zero".to_owned(),
            RevisionParseError::DigestParse => "Revision digest is not a valid digest".to_owned(),
            RevisionParseError::DigestNotAllHex => "Revision digest is not all hexadecimal digits".to_owned(),
        }
    }
}

/// Contains error information that a CouchDB server returns when it
/// responds with an error: a high-level error name and a low-level reason.
#[derive(Debug, PartialEq, Eq, Hash)]
pub struct NokResponse {
    error: String,
    reason: String,
}

impl View for NokResponse {
    type V = (Seq<char>, Seq<char>);

    closed spec fn view(&self) -> (Seq<char>, Seq<char>) {
        (self.error@, self.reason@)
    }
}

impl Clone for NokResponse {
    fn clone(&self) -> (r: Self)
        ensures
            r@ == self@,
    {
        NokResponse { error: self.error.clone(), reason: self.reason.clone() }
    }
}

impl NokResponse {
    /// Constructs an error body from its two parts.
    pub fn new(error: String, reason: String) -> (r: Self)
        ensures
            r@ == (error@, reason@),
    {
        NokResponse { error, reason }
    }

    /// Returns the high-level name of the error, e.g. `file_exists`.
    pub fn error(&self) -> (r: &str)
        ensures
            r@ == self@.0,
    {
        self.error.as_str()
    }

    /// Returns the low-level description of the error.
    pub fn reason(&self) -> (r: &str)
        ensures
            r@ == self@.1,
    {
        self.reason.as_str()
    }

    /// Returns `error: reason`.
    pub fn to_string(&self) -> (r: String)
        ensures
            r@ == self@.0 + seq![':', ' '] + self@.1,
    {
        let sep = ": ";
        proof {
            reveal_strlit(": ");
        }
        assert(sep@ =~= seq![':', ' ']);
        self.error.as_str().to_owned().concat(sep).concat(self.reason.as_str())
    }
}

/// Contains error information returned from a CouchDB server if an error
/// occurs while processing the client's request.
#[derive(Debug, PartialEq, Eq, Hash)]
pub struct ErrorResponse {
    error: String,
    reason: String,
}

impl View for ErrorResponse {
    type V = (Seq<char>, Seq<char>);

    closed spec fn view(&self) -> (Seq<char>, Seq<char>) {
        (self.error@, self.reason@)
    }
}

impl Clone for ErrorResponse {
    fn clone(&self) -> (r: Self)
        ensures
            r@ == self@,
    {
        ErrorResponse { error: self.error.clone(), reason: self.reason.clone() }
    }
}

impl ErrorResponse {
    /// Constructs an error response from its two parts.
    pub fn new(error: &str, reason: &str) -> (r: Self)
        ensures
            r@ == (error@, reason@),
    {
        ErrorResponse { error: error.to_owned(), reason: reason.to_owned() }
    }

    /// Returns the high-level name of the error, e.g. `file_exists`.
    pub fn error(&self) -> (r: &String)
        ensures
            r@ == self@.0,
    {
        &self.error
    }

    /// Returns the low-level description of the error.
    pub fn reason(&self) -> (r: &String)
        ensures
            r@ == self@.1,
    {
        &self.reason
    }

    /// Returns `error: reason`.
    pub fn to_string(&self) -> (r: String)
        ensures
            r@ == self@.0 + seq![':', ' '] + self@.1,
    {
        let sep = ": ";
        proof {
            reveal_strlit(": ");
        }
        assert(sep@ =~= seq![':', ' ']);
        self.error.as_str().to_owned().concat(sep).concat(self.reason.as_str())
    }
}

/// One step of decoding the JSON object of an error response: `error` and
/// `reason` must hold strings, and a later one replaces an earlier one; no
/// other field may stand there.
pub open spec fn error_response_step(
    s: (Option<Seq<char>>, Option<Seq<char>>),
    e: (String, JsonValue),
) -> Result<(Option<Seq<char>>, Option<Seq<char>>), Error> {
    if e.0@ == "error"@ {
        match json_text(e.1) {
            Some(t) => Ok((Some(t), s.1)),
            None => Err(Error::InvalidType("error")),
        }
    } else if e.0@ == "reason"@ {
        match json_text(e.1) {
            Some(t) => Ok((s.0, Some(t))),
            None => Err(Error::InvalidType("reason")),
        }
    } else {
        Err(Error::UnknownField { name: e.0 })
    }
}

/// The steps of decoding an error response.
pub open spec fn error_response_steps() -> spec_fn((Option<Seq<char>>, Option<Seq<char>>), (String, JsonValue)) -> Result<(Option<Seq<char>>, Option<Seq<char>>), Error> {
    |s: (Option<Seq<char>>, Option<Seq<char>>), e: (String, JsonValue)| error_response_step(s, e)
}

/// What a JSON value gives as an error response: the error and the reason,
/// or why it gives none.
pub open spec fn error_response_of_json(v: JsonValue) -> Result<(Seq<char>, Seq<char>), Error> {
    match v {
        JsonValue::Object(entries) => match decode_fold(entries@, (None, None), error_response_steps()) {
            Err(e) => Err(e),
            Ok((None, _)) => Err(Error::MissingField("error")),
            Ok((Some(_), None)) => Err(Error::MissingField("reason")),
            Ok((Some(a), Some(b))) => Ok((a, b)),
        },
        _ => Err(Error::InvalidType("ErrorResponse")),
    }
}

proof fn lemma_error_reason_differ()
    ensures
        "error"@ != "reason"@,
{
    reveal_strlit("error");
    reveal_strlit("reason");
    assert("error"@.len() != "reason"@.len());
}

proof fn lemma_error_response_fold(s: Seq<(String, JsonValue)>)
    requires
        decode_fold(s, (None, None), error_response_steps()) is Ok,
    ensures
        forall|i: int|
            is_last_named_entry(s, "error"@, i) ==> decode_fold(s, (None, None), error_response_steps())->Ok_0.0 == json_text(
                (#[trigger] s[i]).1,
            ),
        forall|i: int|
            is_last_named_entry(s, "reason"@, i) ==> decode_fold(s, (None, None), error_response_steps())->Ok_0.1 == json_text(
                (#[trigger] s[i]).1,
            ),
    decreases s.len(),
{
    lemma_error_reason_differ();
    if s.len() > 0 {
        let u = s.drop_last();
        let e = s.last();
        assert(decode_fold(u, (None, None), error_response_steps()) is Ok);
        lemma_error_response_fold(u);
        let f0 = decode_fold(u, (None, None), error_response_steps())->Ok_0;
        let f = decode_fold(s, (None, None), error_response_steps())->Ok_0;
        assert(decode_fold(s, (None, None), error_response_steps()) == error_response_step(f0, e));
        assert forall|j: int| 0 <= j < u.len() implies (#[trigger] u[j]) == s[j] by {}
        assert forall|i: int| is_last_named_entry(s, "error"@, i) implies f.0 == json_text((#[trigger] s[i]).1) by {
            if i < u.len() {
                assert(u[i] == s[i]);
                assert(is_last_named_entry(u, "error"@, i));
            } else {
                assert(s[i] == e);
            }
        }
        assert forall|i: int| is_last_named_entry(s, "reason"@, i) implies f.1 == json_text((#[trigger] s[i]).1) by {
            if i < u.len() {
                assert(u[i] == s[i]);
                assert(is_last_named_entry(u, "reason"@, i));
            } else {
                assert(s[i] == e);
            }
        }
    }
}

/// A decoded error response holds the texts of the last `error` and the
/// last `reason` field of the object.
pub proof fn lemma_error_response_fields(v: Vec<(String, JsonValue)>)
    requires
        error_response_of_json(JsonValue::Object(v)) is Ok,
    ensures
        forall|i: int|
            is_last_named_entry(v@, "error"@, i) ==> json_text((#[trigger] v@[i]).1) == Some(
                error_response_of_json(JsonValue::Object(v))->Ok_0.0,
            ),
        forall|i: int|
            is_last_named_entry(v@, "reason"@, i) ==> json_text((#[trigger] v@[i]).1) == Some(
                error_response_of_json(JsonValue::Object(v))->Ok_0.1,
            ),
{
    lemma_error_response_fold(v@);
}

impl ErrorResponse {
    /// Decodes an error response from the JSON object that the server sent.
    pub fn from_json(v: JsonValue) -> (r: Result<Self, Error>)
        ensures
            match error_response_of_json(v) {
                Ok(x) => r matches Ok(e) && e@ == x,
                Err(x) => r matches Err(e) && e == x,
            },
    {
        let ghost step = error_response_steps();
        let ghost init = (None::<Seq<char>>, None::<Seq<char>>);
        let mut entries = match v {
            JsonValue::Object(entries) => entries,
            _ => {
                return Err(Error::InvalidType("ErrorResponse"));
            },
        };
        let ghost all = entries@;
        let ghost mut i: int = 0;
        let mut error: Option<String> = None;
        let mut reason: Option<String> = None;
        assert(all.take(0) =~= Seq::<(String, JsonValue)>::empty());
        while entries.len() > 0
            invariant
                0 <= i <= all.len(),
                entries@ == all.skip(i),
                decode_fold(all.take(i), init, step) == Ok::<(Option<Seq<char>>, Option<Seq<char>>), Error>((opt_text(error), opt_text(reason))),
                v is Object,
                all == v->Object_0@,
                step == error_response_steps(),
                init == (None::<Seq<char>>, None::<Seq<char>>),
            decreases entries.len(),
        {
            proof {
                assert(all.skip(i)[0] == all[i]);
                lemma_decode_fold_step(all, init, step, i);
            }
            let ghost st = (opt_text(error), opt_text(reason));
            let (k, x) = entries.remove(0);
            proof {
                assert(entries@ =~= all.skip(i + 1));
                assert(all[i] == (k, x));
                assert(decode_fold(all.take(i + 1), init, step) == error_response_step(st, (k, x)));
            }
            if same_text(k.as_str(), "error") {
                match x {
                    JsonValue::String(t) => {
                        error = Some(t);
                    },
                    _ => {
                        proof {
                            lemma_decode_fold_stops(all, init, step, i + 1);
                        }
                        return Err(Error::InvalidType("error"));
                    },
                }
            } else if same_text(k.as_str(), "reason") {
                match x {
                    JsonValue::String(t) => {
                        reason = Some(t);
                    },
                    _ => {
                        proof {
                            lemma_decode_fold_stops(all, init, step, i + 1);
                        }
                        return Err(Error::InvalidType("reason"));
                    },
                }
            } else {
                proof {
                    lemma_decode_fold_stops(all, init, step, i + 1);
                }
                return Err(Error::UnknownField { name: k });
            }
            proof {
                i = i + 1;
            }
        }
        assert(all.take(i) =~= all);
        match (error, reason) {
            (None, _) => Err(Error::MissingField("error")),
            (Some(_), None) => Err(Error::MissingField("reason")),
            (Some(a), Some(b)) => Ok(ErrorResponse { error: a, reason: b }),
        }
    }
}

/// One step of decoding the JSON object of an error body: `error` and
/// `reason` may each stand once and must hold strings; other fields are
/// passed over.
pub open spec fn nok_response_step(
    s: (Option<Seq<char>>, Option<Seq<char>>),
    e: (String, JsonValue),
) -> Result<(Option<Seq<char>>, Option<Seq<char>>), Error> {
    if e.0@ == "error"@ {
        if s.0 is Some {
            Err(Error::DuplicateField("error"))
        } else {
            match json_text(e.1) {
                Some(t) => Ok((Some(t), s.1)),
                None => Err(Error::InvalidType("error")),
            }
        }
    } else if e.0@ == "reason"@ {
        if s.1 is Some {
            Err(Error::DuplicateField("reason"))
        } else {
            match json_text(e.1) {
                Some(t) => Ok((s.0, Some(t))),
                None => Err(Error::InvalidType("reason")),
            }
        }
    } else {
        Ok(s)
    }
}

/// The steps of decoding an error body.
pub open spec fn nok_response_steps() -> spec_fn((Option<Seq<char>>, Option<Seq<char>>), (String, JsonValue)) -> Result<(Option<Seq<char>>, Option<Seq<char>>), Error> {
    |s: (Option<Seq<char>>, Option<Seq<char>>), e: (String, JsonValue)| nok_response_step(s, e)
}

/// What a JSON value gives as an error body: the error and the reason, or
/// why it gives none; a missing field is named in that order.
pub open spec fn nok_response_of_json(v: JsonValue) -> Result<(Seq<char>, Seq<char>), Error> {
    match v {
        JsonValue::Object(entries) => match decode_fold(entries@, (None, None), nok_response_steps()) {
            Err(e) => Err(e),
            Ok((None, _)) => Err(Error::MissingField("error")),
            Ok((Some(_), None)) => Err(Error::MissingField("reason")),
            Ok((Some(a), Some(b))) => Ok((a, b)),
        },
        _ => Err(Error::InvalidType("NokResponse")),
    }
}

proof fn lemma_nok_response_fold(s: Seq<(String, JsonValue)>)
    requires
        decode_fold(s, (None, None), nok_response_steps()) is Ok,
    ensures
        forall|i: int|
            0 <= i < s.len() && (#[trigger] s[i]).0@ == "error"@ ==> json_text(s[i].1) is Some && decode_fold(
                s,
                (None, None),
                nok_response_steps(),
            )->Ok_0.0 == json_text(s[i].1),
        forall|i: int|
            0 <= i < s.len() && (#[trigger] s[i]).0@ == "reason"@ ==> json_text(s[i].1) is Some && decode_fold(
                s,
                (None, None),
                nok_response_steps(),
            )->Ok_0.1 == json_text(s[i].1),
    decreases s.len(),
{
    lemma_error_reason_differ();
    if s.len() > 0 {
        let u = s.drop_last();
        let e = s.last();
        assert(decode_fold(u, (None, None), nok_response_steps()) is Ok);
        lemma_nok_response_fold(u);
        let f0 = decode_fold(u, (None, None), nok_response_steps())->Ok_0;
        let f = decode_fold(s, (None, None), nok_response_steps())->Ok_0;
        assert(decode_fold(s, (None, None), nok_response_steps()) == nok_response_step(f0, e));
        assert forall|j: int| 0 <= j < u.len() implies (#[trigger] u[j]) == s[j] by {}
        assert forall|i: int| 0 <= i < s.len() && (#[trigger] s[i]).0@ == "error"@ implies json_text(s[i].1) is Some && f.0 == json_text(
            s[i].1,
        ) by {
            if i < u.len() {
                assert(u[i] == s[i]);
                assert(f0.0 is Some);
            } else {
                assert(s[i] == e);
            }
        }
        assert forall|i: int| 0 <= i < s.len() && (#[trigger] s[i]).0@ == "reason"@ implies json_text(s[i].1) is Some && f.1 == json_text(
            s[i].1,
        ) by {
            if i < u.len() {
                assert(u[i] == s[i]);
                assert(f0.1 is Some);
            } else {
                assert(s[i] == e);
            }
        }
    }
}

/// A decoded error body holds the texts of its `error` and `reason`
/// fields, each of which stands once; other fields do not change it.
pub proof fn lemma_nok_response_fields(v: Vec<(String, JsonValue)>)
    requires
        nok_response_of_json(JsonValue::Object(v)) is Ok,
    ensures
        forall|i: int|
            0 <= i < v@.len() && (#[trigger] v@[i]).0@ == "error"@ ==> json_text(v@[i].1) == Some(
                nok_response_of_json(JsonValue::Object(v))->Ok_0.0,
            ),
        forall|i: int|
            0 <= i < v@.len() && (#[trigger] v@[i]).0@ == "reason"@ ==> json_text(v@[i].1) == Some(
                nok_response_of_json(JsonValue::Object(v))->Ok_0.1,
            ),
{
    lemma_nok_response_fold(v@);
}

impl NokResponse {
    /// Decodes an error body from the JSON object that the server sent.
    pub fn from_json(v: JsonValue) -> (r: Result<Self, Error>)
        ensures
            match nok_response_of_json(v) {
                Ok(x) => r matches Ok(e) && e@ == x,
                Err(x) => r matches Err(e) && e == x,
            },
    {
        let ghost step = nok_response_steps();
        let ghost init = (None::<Seq<char>>, None::<Seq<char>>);
        let mut entries = match v {
            JsonValue::Object(entries) => entries,
            _ => {
                return Err(Error::InvalidType("NokResponse"));
            },
        };
        let ghost all = entries@;
        let ghost mut i: int = 0;
        let mut error: Option<String> = None;
        let mut reason: Option<String> = None;
        assert(all.take(0) =~= Seq::<(String, JsonValue)>::empty());
        while entries.len() > 0
            invariant
                0 <= i <= all.len(),
                entries@ == all.skip(i),
                decode_fold(all.take(i), init, step) == Ok::<(Option<Seq<char>>, Option<Seq<char>>), Error>((opt_text(error), opt_text(reason))),
                v is Object,
                all == v->Object_0@,
                step == nok_response_steps(),
                init == (None::<Seq<char>>, None::<Seq<char>>),
            decreases entries.len(),
        {
            proof {
                assert(all.skip(i)[0] == all[i]);
                lemma_decode_fold_step(all, init, step, i);
            }
            let ghost st = (opt_text(error), opt_text(reason));
            let (k, x) = entries.remove(0);
            proof {
                assert(entries@ =~= all.skip(i + 1));
                assert(all[i] == (k, x));
                assert(decode_fold(all.take(i + 1), init, step) == nok_response_step(st, (k, x)));
            }
            if same_text(k.as_str(), "error") {
                if error.is_some() {
                    proof {
                        lemma_decode_fold_stops(all, init, step, i + 1);
                    }
                    return Err(Error::DuplicateField("error"));
                }
                match x {
                    JsonValue::String(t) => {
                        error = Some(t);
                    },
                    _ => {
                        proof {
                            lemma_decode_fold_stops(all, init, step, i + 1);
                        }
                        return Err(Error::InvalidType("error"));
                    },
                }
            } else if same_text(k.as_str(), "reason") {
                if reason.is_some() {
                    proof {
                        lemma_decode_fold_stops(all, init, step, i + 1);
                    }
                    return Err(Error::DuplicateField("reason"));
                }
                match x {
                    JsonValue::String(t) => {
                        reason = Some(t);
                    },
                    _ => {
                        proof {
                            lemma_decode_fold_stops(all, init, step, i + 1);
                        }
                        return Err(Error::InvalidType("reason"));
                    },
                }
            }
            proof {
                i = i + 1;
            }
        }
        assert(all.take(i) =~= all);
        match (error, reason) {
            (None, _) => Err(Error::MissingField("error")),
            (Some(_), None) => Err(Error::MissingField("reason")),
            (Some(a), Some(b)) => Ok(NokResponse { error: a, reason: b }),
        }
    }
}

/// Contains information about an error originating from or propagated by
/// this library.
#[derive(Debug)]
#[allow(inconsistent_fields)]
pub enum Error {
    /// The database already exists.
    DatabaseExists(Option<ErrorResponse>),
    /// The document revision given does not match the server's latest one.
    DocumentConflict(Option<ErrorResponse>),
    /// The resource does not exist.
    NotFound(Option<ErrorResponse>),
    /// The client lacks permission for the action.
    Unauthorized(Option<ErrorResponse>),
    /// The server responded with an error or an unknown status.
    NokResponse { status_code: u16, body: Option<NokResponse> },
    /// The resource path is badly formed.
    PathParse { inner: PathParseError },
    /// The document revision is badly formed.
    RevisionParse { inner: RevisionParseError },
    /// Document content is not a JSON object.
    ContentNotAnObject,
    /// A JSON value could not be decoded.
    JsonDecode { reason: String },
    /// A JSON object lacks a field that it must have.
    MissingField(&'static str),
    /// A JSON object has a field that it must not have.
    UnexpectedField(&'static str),
    /// A JSON object has a field of a name that it cannot have.
    UnknownField { name: String },
    /// A JSON object has a field twice.
    DuplicateField(&'static str),
    /// A JSON value is not of the type that its place calls for; the field
    /// or item where it stands is named.
    InvalidType(&'static str),
    /// A value could not be encoded as JSON.
    JsonEncode { reason: String },
    /// A string is not valid base64.
    Base64Decode,
    /// A string is not a valid media type.
    ContentTypeParse,
    /// The server's response is not JSON.
    ResponseNotJson(Option<String>),
    /// The HTTP transport failed to send a request or receive its response.
    Transport { reason: String },
    /// An I/O operation failed; the description says which.
    Io { description: &'static str, reason: String },
    /// Some other error occurred.
    Unspecified { reason: String },
}

/// The description of an error: fixed for each kind, and the reason itself
/// for an unspecified error.
pub open spec fn error_description(e: Error) -> Seq<char> {
    match e {
        Error::DatabaseExists(_) => "The database already exists"@,
        Error::DocumentConflict(_) => "The document revision is not the latest"@,
        Error::NotFound(_) => "The resource does not exist"@,
        Error::Unauthorized(_) => "The client lacks permission for the action"@,
        Error::NokResponse { .. } => "The CouchDB server responded with an error or an unknown status"@,
        Error::PathParse { .. } => "The CouchDB resource path is badly formed"@,
        Error::RevisionParse { .. } => "The CouchDB document revision is badly formed"@,
        Error::ContentNotAnObject => "The document content is not a JSON object"@,
        Error::JsonDecode { .. } => "A JSON value could not be decoded"@,
        Error::MissingField(_) => "A JSON object lacks a field"@,
        Error::UnexpectedField(_) => "A JSON object has an unexpected field"@,
        Error::UnknownField { .. } => "A JSON object has an unknown field"@,
        Error::DuplicateField(_) => "A JSON object has a duplicate field"@,
        Error::InvalidType(_) => "A JSON value is of the wrong type"@,
        Error::JsonEncode { .. } => "A value could not be encoded as JSON"@,
        Error::Base64Decode => "A string is not valid base64"@,
        Error::ContentTypeParse => "A string is not a valid media type"@,
        Error::ResponseNotJson(_) => "The server response is not JSON"@,
        Error::Transport { .. } => "The HTTP transport failed"@,
        Error::Io { description, .. } => description@,
        Error::Unspecified { reason } => reason@,
    }
}

impl Error {
    /// Returns a short description of the error: fixed for each kind, and
    /// the reason itself for an unspecified error.
    pub fn description(&self) -> (r: &str)
        ensures
            r@ == error_description(*self),
    {
        match self {
            Error::DatabaseExists(_) => "The database already exists",
            Error::DocumentConflict(_) => "The document revision is not the latest",
            Error::NotFound(_) => "The resource does not exist",
            Error::Unauthorized(_) => "The client lacks permission for the action",
            Error::NokResponse { .. } => "The CouchDB server responded with an error or an unknown status",
            Error::PathParse { .. } => "The CouchDB resource path is badly formed",
            Error::RevisionParse { .. } => "The CouchDB document revision is badly formed",
            Error::ContentNotAnObject => "The document content is not a JSON object",
            Error::JsonDecode { .. } => "A JSON value could not be decoded",
            Error::MissingField(_) => "A JSON object lacks a field",
            Error::UnexpectedField(_) => "A JSON object has an unexpected field",
            Error::UnknownField { .. } => "A JSON object has an unknown field",
            Error::DuplicateField(_) => "A JSON object has a duplicate field",
            Error::InvalidType(_) => "A JSON value is of the wrong type",
            Error::JsonEncode { .. } => "A value could not be encoded as JSON",
            Error::Base64Decode => "A string is not valid base64",
            Error::ContentTypeParse => "A string is not a valid media type",
            Error::ResponseNotJson(_) => "The server response is not JSON",
            Error::Transport { .. } => "The HTTP transport failed",
            Error::Io { description, .. } => description,
            Error::Unspecified { reason } => reason.as_str(),
        }
    }

    /// Constructs an error with only a reason.
    pub fn unspecified(reason: &str) -> (r: Self)
        ensures
            r matches Error::Unspecified { reason: x } && x@ == reason@,
    {
        Error::Unspecified { reason: reason.to_owned() }
    }
}

impl Error {
    /// Returns the message of the error: its description, with the status
    /// and the server's error body for an error response, what is wrong
    /// for a bad path or revision, and the cause of a transport or I/O
    /// failure.
    pub fn to_string(&self) -> (r: String)
        ensures
            r@ == error_text(*self, error_description(*self)),
    {
        let d = self.description();
        match self {
            Error::NokResponse { status_code, body: Some(b) } => d.to_owned()
                .concat(" (status: ")
                .concat(decimal_string(*status_code as u64).as_str())
                .concat(", error: ")
                .concat(b.error())
                .concat(", reason: ")
                .concat(debug_text(b.reason()).as_str())
                .concat(")"),
            Error::NokResponse { status_code, body: None } => d.to_owned()
                .concat(" (status: ")
                .concat(decimal_string(*status_code as u64).as_str())
                .concat(")"),
            Error::PathParse { inner } => d.to_owned().concat(": ").concat(inner.to_string().as_str()),
            Error::RevisionParse { inner } => d.to_owned().concat(": ").concat(inner.to_string().as_str()),
            Error::Transport { reason } => d.to_owned().concat(": ").concat(reason.as_str()),
            Error::Io { reason, .. } => d.to_owned().concat(": ").concat(reason.as_str()),
            _ => d.to_owned(),
        }
    }
}

/// The message of an error whose description is `d`.
pub open spec fn error_text(e: Error, d: Seq<char>) -> Seq<char> {
    match e {
        Error::NokResponse { status_code, body: Some(b) } => d + " (status: "@ + decimal_text(status_code as nat)
            + ", error: "@ + b@.0 + ", reason: "@ + debug_quoted(b@.1) + ")"@,
        Error::NokResponse { status_code, body: None } => d + " (status: "@ + decimal_text(status_code as nat) + ")"@,
        Error::PathParse { inner } => d + ": "@ + path_parse_error_text(inner),
        Error::RevisionParse { inner } => d + ": "@ + revision_parse_error_text(inner),
        Error::Transport { reason } => d + ": "@ + reason@,
        Error::Io { reason, .. } => d + ": "@ + reason@,
        _ => d,
    }
}

} // verus!
