//! Requests to a CouchDB server as the library describes them, and the first
//! reading of the server's responses.
use vstd::prelude::*;
use crate::error::{Error, ErrorResponse};
use crate::json::{JsonModel, JsonValue, json_model};
use crate::outside::{
    debug_quoted, debug_text, form_encode_pairs, form_urlencode, mime_parse, mime_parsed, url_join, url_joined, url_parse,
    url_parsed,
};
use crate::path::{encoded_segment, percent_encode, views_of};
use crate::revision::{Revision, decimal_string, decimal_text, revision_text};

verus! {

/// The HTTP methods that the library uses.
#[derive(Clone, Copy, Debug, PartialEq, Eq, Structural)]
pub enum Method {
    Delete,
    Get,
    Post,
    Put,
}

/// The HTTP status `200 OK`.
pub const STATUS_OK: u16 = 200;

/// The HTTP status `201 Created`.
pub const STATUS_CREATED: u16 = 201;

/// The HTTP status `401 Unauthorized`.
pub const STATUS_UNAUTHORIZED: u16 = 401;

/// The HTTP status `404 Not Found`.
pub const STATUS_NOT_FOUND: u16 = 404;

/// The HTTP status `409 Conflict`.
pub const STATUS_CONFLICT: u16 = 409;

/// The HTTP status `412 Precondition Failed`.
pub const STATUS_PRECONDITION_FAILED: u16 = 412;

/// What a request is, abstractly.
pub struct RequestModel {
    pub method: Method,
    /// The path segments under the server's base URL, not percent-encoded.
    pub path: Seq<Seq<char>>,
    /// The query pairs, in the order they were added.
    pub query: Seq<(Seq<char>, Seq<char>)>,
    /// Whether the request asks for a JSON response.
    pub accept_json: bool,
    /// The JSON content, if the request has any.
    pub body: Option<JsonModel>,
}

/// A request to the server: a method, a path, query pairs, and optionally
/// the JSON content to send.
#[derive(Debug)]
pub struct Request {
    method: Method,
    path: Vec<String>,
    query: Vec<(String, String)>,
    accept_json: bool,
    body: Option<JsonValue>,
}

/// The texts of a sequence of strings.
pub open spec fn texts_of(v: Seq<String>) -> Seq<Seq<char>> {
    v.map_values(|s: String| s@)
}

/// The texts of a sequence of pairs of strings.
pub open spec fn pair_texts_of(v: Seq<(String, String)>) -> Seq<(Seq<char>, Seq<char>)> {
    v.map_values(|p: (String, String)| (p.0@, p.1@))
}

impl View for Request {
    type V = RequestModel;

    closed spec fn view(&self) -> RequestModel {
        RequestModel {
            method: self.method,
            path: texts_of(self.path@),
            query: pair_texts_of(self.query@),
            accept_json: self.accept_json,
            body: match self.body {
                Some(b) => Some(json_model(b)),
                None => None,
            },
        }
    }
}

/// A request of a method to a path, with nothing else.
pub open spec fn plain_request(method: Method, path: Seq<Seq<char>>) -> RequestModel {
    RequestModel { method: method, path: path, query: Seq::empty(), accept_json: false, body: None }
}

impl Request {
    /// Starts a request of a method to the resource at the given path
    /// segments.
    pub fn new(method: Method, path: Vec<&str>) -> (r: Self)
        ensures
            r@ == plain_request(method, views_of(path@)),
    {
        let mut segments: Vec<String> = Vec::new();
        let mut i: usize = 0;
        while i < path.len()
            invariant
                i <= path@.len(),
                texts_of(segments@) == views_of(path@).take(i as int),
            decreases path@.len() - i,
        {
            let ghost before = segments@;
            let s = path[i].to_owned();
            assert(s@ == path@[i as int]@);
            segments.push(s);
            assert(texts_of(segments@) =~= texts_of(before).push(path@[i as int]@));
            assert(views_of(path@).take(i + 1) =~= views_of(path@).take(i as int).push(path@[i as int]@));
            i = i + 1;
        }
        assert(views_of(path@).take(i as int) =~= views_of(path@));
        let r = Request { method, path: segments, query: Vec::new(), accept_json: false, body: None };
        assert(r@.query =~= Seq::<(Seq<char>, Seq<char>)>::empty());
        r
    }

    /// Asks for a JSON response.
    pub fn with_accept_json(self) -> (r: Self)
        ensures
            r@ == (RequestModel { accept_json: true, ..self@ }),
    {
        let mut r = self;
        r.accept_json = true;
        r
    }

    /// Sets the JSON content of the request.
    pub fn with_json_content(self, content: JsonValue) -> (r: Self)
        ensures
            r@ == (RequestModel { body: Some(json_model(content)), ..self@ }),
    {
        let mut r = self;
        r.body = Some(content);
        r
    }

    /// Adds a query pair of a known key and a value of the key's kind.
    pub fn with_query<K: AsQueryKey, V: AsQueryValue<K>>(self, key: K, value: &V) -> (r: Self)
        ensures
            r@ == (RequestModel {
                query: self@.query.push((key.query_key_text(), value.query_value_text())),
                ..self@
            }),
    {
        let k = key.as_query_key().to_owned();
        let v = value.as_query_value();
        self.with_query_literal(k.as_str(), v.as_str())
    }

    /// Adds a query pair of any key and value.
    pub fn with_query_literal(self, key: &str, value: &str) -> (r: Self)
        ensures
            r@ == (RequestModel { query: self@.query.push((key@, value@)), ..self@ }),
    {
        let mut r = self;
        let ghost before = r.query@;
        r.query.push((key.to_owned(), value.to_owned()));
        assert(pair_texts_of(r.query@) =~= pair_texts_of(before).push((key@, value@)));
        r
    }

    /// Returns the method.
    pub fn method(&self) -> (r: Method)
        ensures
            r == self@.method,
    {
        self.method
    }

    /// Returns the path segments, not percent-encoded.
    pub fn path(&self) -> (r: &Vec<String>)
        ensures
            texts_of(r@) == self@.path,
    {
        &self.path
    }

    /// Returns the query pairs.
    pub fn query(&self) -> (r: &Vec<(String, String)>)
        ensures
            pair_texts_of(r@) == self@.query,
    {
        &self.query
    }

    /// Returns whether the request asks for a JSON response.
    pub fn accepts_json(&self) -> (r: bool)
        ensures
            r == self@.accept_json,
    {
        self.accept_json
    }

    /// Returns the JSON content, if the request has any.
    pub fn body(&self) -> (r: Option<&JsonValue>)
        ensures
            match r {
                Some(b) => self@.body == Some(json_model(*b)),
                None => self@.body is None,
            },
    {
        match &self.body {
            Some(b) => Some(b),
            None => None,
        }
    }

    /// Returns the query of the request's URL, in
    /// `application/x-www-form-urlencoded` form, or nothing where the
    /// request has no query pairs.
    pub fn url_query(&self) -> (r: Option<String>)
        ensures
            self@.query.len() == 0 ==> r is None,
            self@.query.len() > 0 ==> (r matches Some(q) && q@ == form_encode_pairs(self@.query)),
    {
        if self.query.len() == 0 {
            None
        } else {
            Some(form_urlencode(&self.query))
        }
    }

    /// Returns the path of the request's URL under a server whose base URL
    /// has the given path.
    pub fn url_path(&self, base_path: &str) -> (r: String)
        ensures
            r@ == url_path_text(base_path@, self@.path),
    {
        make_url_path(base_path, &self.path)
    }
}

/// A path without one trailing slash, if it has one.
pub open spec fn without_trailing_slash(p: Seq<char>) -> Seq<char> {
    if p.len() > 0 && p.last() == '/' {
        p.drop_last()
    } else {
        p
    }
}

/// The percent-encoded segments, each after a slash.
pub open spec fn encoded_segments(segs: Seq<Seq<char>>) -> Seq<char>
    decreases segs.len(),
{
    if segs.len() == 0 {
        Seq::empty()
    } else {
        encoded_segments(segs.drop_last()) + seq!['/'] + encoded_segment(segs.last())
    }
}

/// The URL path of the given segments under a base path.
pub open spec fn url_path_text(base: Seq<char>, segs: Seq<Seq<char>>) -> Seq<char> {
    without_trailing_slash(base) + encoded_segments(segs)
}

/// Appends path segments to a base path: the base loses one trailing slash,
/// then each segment follows a slash, percent-encoded.
pub fn make_url_path(base: &str, segments: &Vec<String>) -> (r: String)
    ensures
        r@ == url_path_text(base@, texts_of(segments@)),
{
    let n = base.unicode_len();
    let stem = if n > 0 && base.get_char(n - 1) == '/' {
        base.substring_char(0, n - 1)
    } else {
        base
    };
    assert(stem@ =~= without_trailing_slash(base@));
    let mut r = stem.to_owned();
    let slash = "/";
    proof {
        reveal_strlit("/");
    }
    assert(slash@ =~= seq!['/']);
    let mut i: usize = 0;
    while i < segments.len()
        invariant
            i <= segments@.len(),
            r@ == without_trailing_slash(base@) + encoded_segments(texts_of(segments@).take(i as int)),
            slash@ == seq!['/'],
        decreases segments@.len() - i,
    {
        let e = percent_encode(segments[i].as_str());
        r.append(slash);
        r.append(e.as_str());
        proof {
            let t = texts_of(segments@).take(i + 1);
            assert(t.drop_last() =~= texts_of(segments@).take(i as int));
            assert(t.last() == segments@[i as int]@);
        }
        i = i + 1;
    }

    assert(texts_of(segments@).take(i as int) =~= texts_of(segments@));
    r
}

/// The reason given for a server URL that does not parse: the URL, quoted
/// as `{:?}` writes it.
pub open spec fn bad_url_reason(s: Seq<char>) -> Seq<char> {
    "The URL is badly formed (URL: "@ + debug_quoted(s) + ")"@
}

/// The query of a request's URL under a server URL of query `base`: the
/// server URL's query, if it is not empty, then the request's query pairs,
/// with `&` between them; nothing where both are empty.
pub open spec fn joined_query(base: Option<Seq<char>>, pairs: Seq<(Seq<char>, Seq<char>)>) -> Option<Seq<char>> {
    let b = match base {
        Some(q) => q,
        None => Seq::empty(),
    };
    if pairs.len() == 0 {
        if b.len() == 0 {
            None
        } else {
            Some(b)
        }
    } else if b.len() == 0 {
        Some(form_encode_pairs(pairs))
    } else {
        Some(b + seq!['&'] + form_encode_pairs(pairs))
    }
}

/// The URL of a CouchDB server, as `url` parses and writes it.
#[derive(Debug)]
pub struct ServerUrl {
    text: String,
    path: String,
    query: Option<String>,
}

impl View for ServerUrl {
    type V = (Seq<char>, Seq<char>, Option<Seq<char>>);

    closed spec fn view(&self) -> (Seq<char>, Seq<char>, Option<Seq<char>>) {
        (self.text@, self.path@, match self.query {
            Some(q) => Some(q@),
            None => None,
        })
    }
}

/// Parses the URL of a server. A string that is no URL gives an error
/// that quotes it.
pub fn parse_server_url(s: &str) -> (r: Result<ServerUrl, Error>)
    ensures
        match url_parsed(s@) {
            Some(u) => r matches Ok(x) && x@ == u,
            None => r matches Err(Error::Unspecified { reason }) && reason@ == bad_url_reason(s@),
        },
{
    match url_parse(s) {
        Some((text, path, query)) => Ok(ServerUrl { text, path, query }),
        None => {
            let reason = "The URL is badly formed (URL: ".to_owned().concat(debug_text(s).as_str()).concat(")");
            Err(Error::Unspecified { reason })
        },
    }
}

impl ServerUrl {
    /// Returns the text of the URL.
    pub fn as_str(&self) -> (r: &str)
        ensures
            r@ == self@.0,
    {
        self.text.as_str()
    }

    /// Returns the path of the URL.
    pub fn path(&self) -> (r: &str)
        ensures
            r@ == self@.1,
    {
        self.path.as_str()
    }

    /// Returns the full URL of a request to the server: the server URL with
    /// the request's path after its own and the request's query pairs after
    /// its own query. `None` where the server URL does not parse again.
    pub fn request_url(&self, request: &Request) -> (r: Option<String>)
        ensures
            match url_joined(self@.0, url_path_text(self@.1, request@.path), joined_query(self@.2, request@.query)) {
                Some(t) => r matches Some(x) && x@ == t,
                None => r is None,
            },
    {
        let path = request.url_path(self.path.as_str());
        let base: Option<&str> = match &self.query {
            Some(b) => if b.as_str().unicode_len() > 0 {
                Some(b.as_str())
            } else {
                None
            },
            None => None,
        };
        let joined: Option<String> = match (base, request.url_query()) {
            (None, None) => None,
            (Some(b), None) => Some(b.to_owned()),
            (None, Some(p)) => Some(p),
            (Some(b), Some(p)) => Some(b.to_owned().concat("&").concat(p.as_str())),
        };
        proof {
            reveal_strlit("&");
            assert("&"@ =~= seq!['&']);
            let jv = match joined {
                Some(ref q) => Some(q@),
                None => None,
            };
            assert(jv == joined_query(self@.2, request@.query));
        }
        match &joined {
            Some(q) => url_join(self.text.as_str(), path.as_str(), Some(q.as_str())),
            None => url_join(self.text.as_str(), path.as_str(), None),
        }
    }
}

// ------------------------------------------------------------------------
// Query keys and values

/// A key of a URL query that the library sends.
pub trait AsQueryKey {
    /// The text of the key.
    spec fn query_key_text(&self) -> Seq<char>;

    /// Returns the text of the key.
    fn as_query_key(&self) -> (r: &'static str)
        ensures
            r@ == self.query_key_text(),
    ;
}

/// A value that may stand in a URL query under a key of kind `K`.
pub trait AsQueryValue<K: AsQueryKey> {
    /// The text of the value.
    spec fn query_value_text(&self) -> Seq<char>;

    /// Returns the text of the value.
    fn as_query_value(&self) -> (r: String)
        ensures
            r@ == self.query_value_text(),
    ;
}

/// The `rev` query key: the revision of a document.
pub struct RevisionQueryKey;

/// The `attachments` query key: whether to send attachment content.
pub struct AttachmentsQueryKey;

/// The `reduce` query key: whether to reduce a view.
pub struct ReduceQueryKey;

/// The `startkey` query key: the first key of the rows to send.
pub struct StartKeyQueryKey;

/// The `endkey` query key: the last key of the rows to send.
pub struct EndKeyQueryKey;

/// The `inclusive_end` query key: whether the rows of the end key are sent.
pub struct InclusiveEndQueryKey;

/// The `limit` query key: how many rows to send at most.
pub struct LimitQueryKey;

/// The `descending` query key: whether to send rows in descending order.
pub struct DescendingQueryKey;

/// The `group` query key: whether to group a reduced view by exact key.
pub struct GroupQueryKey;

/// The `group_level` query key: the key prefix length to group a reduced
/// view by.
pub struct GroupLevelQueryKey;

/// The `include_docs` query key: whether to send each row's document.
pub struct IncludeDocsQueryKey;

impl AsQueryKey for RevisionQueryKey {
    open spec fn query_key_text(&self) -> Seq<char> {
        "rev"@
    }

    fn as_query_key(&self) -> (r: &'static str) {
        "rev"
    }
}

impl AsQueryKey for AttachmentsQueryKey {
    open spec fn query_key_text(&self) -> Seq<char> {
        "attachments"@
    }

    fn as_query_key(&self) -> (r: &'static str) {
        "attachments"
    }
}

impl AsQueryKey for ReduceQueryKey {
    open spec fn query_key_text(&self) -> Seq<char> {
        "reduce"@
    }

    fn as_query_key(&self) -> (r: &'static str) {
        "reduce"
    }
}

impl AsQueryKey for StartKeyQueryKey {
    open spec fn query_key_text(&self) -> Seq<char> {
        "startkey"@
    }

    fn as_query_key(&self) -> (r: &'static str) {
        "startkey"
    }
}

impl AsQueryKey for EndKeyQueryKey {
    open spec fn query_key_text(&self) -> Seq<char> {
        "endkey"@
    }

    fn as_query_key(&self) -> (r: &'static str) {
        "endkey"
    }
}

impl AsQueryKey for InclusiveEndQueryKey {
    open spec fn query_key_text(&self) -> Seq<char> {
        "inclusive_end"@
    }

    fn as_query_key(&self) -> (r: &'static str) {
        "inclusive_end"
    }
}

impl AsQueryKey for LimitQueryKey {
    open spec fn query_key_text(&self) -> Seq<char> {
        "limit"@
    }

    fn as_query_key(&self) -> (r: &'static str) {
        "limit"
    }
}

impl AsQueryKey for DescendingQueryKey {
    open spec fn query_key_text(&self) -> Seq<char> {
        "descending"@
    }

    fn as_query_key(&self) -> (r: &'static str) {
        "descending"
    }
}

impl AsQueryKey for GroupQueryKey {
    open spec fn query_key_text(&self) -> Seq<char> {
        "group"@
    }

    fn as_query_key(&self) -> (r: &'static str) {
        "group"
    }
}

impl AsQueryKey for GroupLevelQueryKey {
    open spec fn query_key_text(&self) -> Seq<char> {
        "group_level"@
    }

    fn as_query_key(&self) -> (r: &'static str) {
        "group_level"
    }
}

impl AsQueryKey for IncludeDocsQueryKey {
    open spec fn query_key_text(&self) -> Seq<char> {
        "include_docs"@
    }

    fn as_query_key(&self) -> (r: &'static str) {
        "include_docs"
    }
}

/// The text of a boolean in a query.
pub open spec fn bool_text(b: bool) -> Seq<char> {
    if b {
        "true"@
    } else {
        "false"@
    }
}

/// Returns the text of a boolean in a query.
pub fn bool_query_text(b: bool) -> (r: String)
    ensures
        r@ == bool_text(b),
{
    if b {
        "true".to_owned()
    } else {
        "false".to_owned()
    }
}

impl AsQueryValue<AttachmentsQueryKey> for bool {
    open spec fn query_value_text(&self) -> Seq<char> {
        bool_text(*self)
    }

    fn as_query_value(&self) -> (r: String) {
        bool_query_text(*self)
    }
}

impl AsQueryValue<ReduceQueryKey> for bool {
    open spec fn query_value_text(&self) -> Seq<char> {
        bool_text(*self)
    }

    fn as_query_value(&self) -> (r: String) {
        bool_query_text(*self)
    }
}

impl AsQueryValue<InclusiveEndQueryKey> for bool {
    open spec fn query_value_text(&self) -> Seq<char> {
        bool_text(*self)
    }

    fn as_query_value(&self) -> (r: String) {
        bool_query_text(*self)
    }
}

impl AsQueryValue<DescendingQueryKey> for bool {
    open spec fn query_value_text(&self) -> Seq<char> {
        bool_text(*self)
    }

    fn as_query_value(&self) -> (r: String) {
        bool_query_text(*self)
    }
}

impl AsQueryValue<GroupQueryKey> for bool {
    open spec fn query_value_text(&self) -> Seq<char> {
        bool_text(*self)
    }

    fn as_query_value(&self) -> (r: String) {
        bool_query_text(*self)
    }
}

impl AsQueryValue<IncludeDocsQueryKey> for bool {
    open spec fn query_value_text(&self) -> Seq<char> {
        bool_text(*self)
    }

    fn as_query_value(&self) -> (r: String) {
        bool_query_text(*self)
    }
}

impl AsQueryValue<RevisionQueryKey> for Revision {
    open spec fn query_value_text(&self) -> Seq<char> {
        revision_text(self@)
    }

    fn as_query_value(&self) -> (r: String) {
        self.to_string()
    }
}

impl AsQueryValue<LimitQueryKey> for u64 {
    open spec fn query_value_text(&self) -> Seq<char> {
        decimal_text(*self as nat)
    }

    fn as_query_value(&self) -> (r: String) {
        decimal_string(*self)
    }
}

impl AsQueryValue<GroupLevelQueryKey> for u32 {
    open spec fn query_value_text(&self) -> Seq<char> {
        decimal_text(*self as nat)
    }

    fn as_query_value(&self) -> (r: String) {
        decimal_string(*self as u64)
    }
}

/// The JSON text of a key, as the application's encoder wrote it.
#[derive(Debug)]
pub struct JsonText(pub String);

impl AsQueryValue<StartKeyQueryKey> for JsonText {
    open spec fn query_value_text(&self) -> Seq<char> {
        self.0@
    }

    fn as_query_value(&self) -> (r: String) {
        self.0.clone()
    }
}

impl AsQueryValue<EndKeyQueryKey> for JsonText {
    open spec fn query_value_text(&self) -> Seq<char> {
        self.0@
    }

    fn as_query_value(&self) -> (r: String) {
        self.0.clone()
    }
}

// ------------------------------------------------------------------------
// Responses

/// What the media type of a response gives: nothing where it is JSON, and
/// otherwise the media type found, if there is one that parses.
pub open spec fn json_content_type_result(content_type: Option<Seq<char>>) -> Result<(), Option<Seq<char>>> {
    match content_type {
        None => Err(None),
        Some(t) => match mime_parsed(t) {
            Some((text, essence)) => if essence == "application/json"@ {
                Ok(())
            } else {
                Err(Some(text))
            },
            None => Err(None),
        },
    }
}

/// Checks that a response's `Content-Type`, which it must have, is JSON.
pub fn check_json_content_type(content_type: Option<&str>) -> (r: Result<(), Error>)
    ensures
        match json_content_type_result(
            match content_type {
                Some(t) => Some(t@),
                None => None,
            },
        ) {
            Ok(()) => r is Ok,
            Err(None) => r matches Err(Error::ResponseNotJson(None)),
            Err(Some(t)) => r matches Err(Error::ResponseNotJson(Some(x))) && x@ == t,
        },
{
    match content_type {
        None => Err(Error::ResponseNotJson(None)),
        Some(t) => match mime_parse(t) {
            Some((text, essence)) => {
                if crate::path::str_equal(essence.as_str(), "application/json") {
                    Ok(())
                } else {
                    Err(Error::ResponseNotJson(Some(text)))
                }
            },
            None => Err(Error::ResponseNotJson(None)),
        },
    }
}

/// The error response that a response's content gives, if it gives one.
pub open spec fn error_body(body: Result<JsonValue, Error>) -> Option<(Seq<char>, Seq<char>)> {
    match body {
        Ok(v) => match crate::error::error_response_of_json(v) {
            Ok(x) => Some(x),
            Err(_) => None,
        },
        Err(_) => None,
    }
}

/// Reads the error response of a response's content, if it holds one.
pub fn decode_error_body(body: Result<JsonValue, Error>) -> (r: Option<ErrorResponse>)
    ensures
        match error_body(body) {
            Some(x) => r matches Some(e) && e@ == x,
            None => r is None,
        },
{
    match body {
        Ok(v) => match ErrorResponse::from_json(v) {
            Ok(e) => Some(e),
            Err(_) => None,
        },
        Err(_) => None,
    }
}

/// Whether an optional error response holds what a body gives.
pub open spec fn error_body_matches(e: Option<ErrorResponse>, body: Result<JsonValue, Error>) -> bool {
    match error_body(body) {
        Some(x) => e matches Some(r) && r@ == x,
        None => e is None,
    }
}

/// Whether an error is the one that a response of an unexpected status
/// gives: the status and, if the content holds one, the error response.
pub open spec fn is_server_error(e: Error, status: u16, body: Result<JsonValue, Error>) -> bool {
    e matches Error::NokResponse { status_code, body: b } && status_code == status && match error_body(body) {
        Some(x) => b matches Some(n) && n@ == x,
        None => b is None,
    }
}

/// Makes the error that a response of an unexpected status gives.
pub fn server_error(status: u16, body: Result<JsonValue, Error>) -> (r: Error)
    ensures
        is_server_error(r, status, body),
{
    let b = match decode_error_body(body) {
        Some(e) => Some(crate::error::NokResponse::new(e.error().clone(), e.reason().clone())),
        None => None,
    };
    Error::NokResponse { status_code: status, body: b }
}

/// A base path with one trailing slash gives the same URL paths as the same
/// base without it.
pub proof fn lemma_url_path_trailing_slash(base: Seq<char>, segs: Seq<Seq<char>>)
    requires
        base.len() == 0 || base.last() != '/',
    ensures
        url_path_text(base.push('/'), segs) == url_path_text(base, segs),
{
    assert(base.push('/').drop_last() =~= base);
}

} // verus!
