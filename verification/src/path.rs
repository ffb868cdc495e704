//! Types for specifying databases, documents, attachments and views, and the
//! rules for turning them into path segments and percent-encoded paths.
use vstd::prelude::*;
use crate::error::{Error, PathParseError};
use crate::outside::{percent_encode_bytes, percent_encode_segment};
use vstd::utf8::encode_utf8;

verus! {

/// Whether `p` is a prefix of `s`.
pub open spec fn seq_starts_with(s: Seq<char>, p: Seq<char>) -> bool {
    p.len() <= s.len() && s.take(p.len() as int) == p
}

/// The percent-encoding of the UTF-8 bytes of `s` as one URL path segment.
pub open spec fn encoded_segment(s: Seq<char>) -> Seq<char> {
    percent_encode_bytes(encode_utf8(s))
}

/// The path segment that marks a design document.
pub open spec fn design_prefix_text() -> Seq<char> {
    seq!['_', 'd', 'e', 's', 'i', 'g', 'n']
}

/// The path segment that marks a local document.
pub open spec fn local_prefix_text() -> Seq<char> {
    seq!['_', 'l', 'o', 'c', 'a', 'l']
}

/// The path segment that precedes a view name.
pub open spec fn view_prefix_text() -> Seq<char> {
    seq!['_', 'v', 'i', 'e', 'w']
}

/// The path segment that marks a design document.
pub const DESIGN_PREFIX: &'static str = "_design";

/// The path segment that marks a local document.
pub const LOCAL_PREFIX: &'static str = "_local";

/// The path segment that precedes a view name.
pub const VIEW_PREFIX: &'static str = "_view";

pub proof fn lemma_prefix_texts()
    ensures
        DESIGN_PREFIX@ == design_prefix_text(),
        LOCAL_PREFIX@ == local_prefix_text(),
        VIEW_PREFIX@ == view_prefix_text(),
{
    reveal_strlit("_design");
    reveal_strlit("_local");
    reveal_strlit("_view");
    assert(DESIGN_PREFIX@ =~= design_prefix_text());
    assert(LOCAL_PREFIX@ =~= local_prefix_text());
    assert(VIEW_PREFIX@ =~= view_prefix_text());
}

/// Returns the `_design` path segment.
pub fn design_prefix() -> (r: &'static str)
    ensures
        r@ == design_prefix_text(),
        r == DESIGN_PREFIX,
{
    proof {
        lemma_prefix_texts();
    }
    DESIGN_PREFIX
}

/// Returns the `_local` path segment.
pub fn local_prefix() -> (r: &'static str)
    ensures
        r@ == local_prefix_text(),
        r == LOCAL_PREFIX,
{
    proof {
        lemma_prefix_texts();
    }
    LOCAL_PREFIX
}

/// Returns the `_view` path segment.
pub fn view_prefix() -> (r: &'static str)
    ensures
        r@ == view_prefix_text(),
        r == VIEW_PREFIX,
{
    proof {
        lemma_prefix_texts();
    }
    VIEW_PREFIX
}

fn slash() -> (r: &'static str)
    ensures
        r@ == seq!['/'],
{
    proof {
        reveal_strlit("/");
    }
    let r = "/";
    assert(r@ =~= seq!['/']);
    r
}

/// Whether `s` begins with the characters of `p`.
pub fn str_starts_with(s: &str, p: &str) -> (r: bool)
    ensures
        r == seq_starts_with(s@, p@),
{
    let n = s.unicode_len();
    let m = p.unicode_len();
    if m > n {
        return false;
    }
    let mut i: usize = 0;
    while i < m
        invariant
            i <= m <= n,
            n == s@.len(),
            m == p@.len(),
            forall|j: int| 0 <= j < i ==> s@[j] == p@[j],
        decreases m - i,
    {
        if s.get_char(i) != p.get_char(i) {
            assert(s@.take(m as int)[i as int] != p@[i as int]);
            return false;
        }
        i = i + 1;
    }
    assert(s@.take(m as int) =~= p@);
    true
}

/// Percent-encodes one path segment.
pub fn percent_encode(s: &str) -> (r: String)
    ensures
        r@ == encoded_segment(s@),
{
    percent_encode_segment(s)
}

/// Concatenates two strings.
fn join2(a: &str, b: &str) -> (r: String)
    ensures
        r@ == a@ + b@,
{
    a.to_owned().concat(b)
}

/// Concatenates three strings.
fn join3(a: &str, b: &str, c: &str) -> (r: String)
    ensures
        r@ == a@ + b@ + c@,
{
    a.to_owned().concat(b).concat(c)
}

/// Contains the name of an attachment: one path segment, not percent-encoded.
#[derive(Debug, PartialEq, Eq, Hash, PartialOrd, Ord)]
pub struct AttachmentName(String);

impl View for AttachmentName {
    type V = Seq<char>;

    closed spec fn view(&self) -> Seq<char> {
        self.0@
    }
}

impl Clone for AttachmentName {
    fn clone(&self) -> (r: Self)
        ensures
            r@ == self@,
    {
        AttachmentName(self.0.clone())
    }
}

impl AttachmentName {
    /// Constructs the name from a string slice.
    pub fn from(s: &str) -> (r: Self)
        ensures
            r@ == s@,
    {
        AttachmentName(s.to_owned())
    }

    /// Constructs the name by taking ownership of a string.
    pub fn from_string(s: String) -> (r: Self)
        ensures
            r@ == s@,
    {
        AttachmentName(s)
    }

    /// Returns the name as a string slice.
    pub fn as_str(&self) -> (r: &str)
        ensures
            r@ == self@,
    {
        self.0.as_str()
    }

    /// Returns the name as an owned string.
    pub fn to_string(&self) -> (r: String)
        ensures
            r@ == self@,
    {
        self.0.clone()
    }

    /// Gives up the name and returns its string.
    pub fn into_string(self) -> (r: String)
        ensures
            r@ == self@,
    {
        self.0
    }

    /// Whether two names hold the same text.
    pub fn same_as(&self, other: &Self) -> (r: bool)
        ensures
            r == (self@ == other@),
    {
        self.0 == other.0
    }
}

/// Contains the name of a database: one path segment, not percent-encoded.
#[derive(Debug, PartialEq, Eq, Hash, PartialOrd, Ord)]
pub struct DatabaseName(String);

impl View for DatabaseName {
    type V = Seq<char>;

    closed spec fn view(&self) -> Seq<char> {
        self.0@
    }
}

impl Clone for DatabaseName {
    fn clone(&self) -> (r: Self)
        ensures
            r@ == self@,
    {
        DatabaseName(self.0.clone())
    }
}

impl DatabaseName {
    /// Constructs the name from a string slice.
    pub fn from(s: &str) -> (r: Self)
        ensures
            r@ == s@,
    {
        DatabaseName(s.to_owned())
    }

    /// Constructs the name by taking ownership of a string.
    pub fn from_string(s: String) -> (r: Self)
        ensures
            r@ == s@,
    {
        DatabaseName(s)
    }

    /// Returns the name as a string slice.
    pub fn as_str(&self) -> (r: &str)
        ensures
            r@ == self@,
    {
        self.0.as_str()
    }

    /// Returns the name as an owned string.
    pub fn to_string(&self) -> (r: String)
        ensures
            r@ == self@,
    {
        self.0.clone()
    }

    /// Gives up the name and returns its string.
    pub fn into_string(self) -> (r: String)
        ensures
            r@ == self@,
    {
        self.0
    }

    /// Whether two names hold the same text.
    pub fn same_as(&self, other: &Self) -> (r: bool)
        ensures
            r == (self@ == other@),
    {
        self.0 == other.0
    }
}

/// Contains the name of a design document: one path segment, not percent-encoded.
#[derive(Debug, PartialEq, Eq, Hash, PartialOrd, Ord)]
pub struct DesignDocumentName(String);

impl View for DesignDocumentName {
    type V = Seq<char>;

    closed spec fn view(&self) -> Seq<char> {
        self.0@
    }
}

impl Clone for DesignDocumentName {
    fn clone(&self) -> (r: Self)
        ensures
            r@ == self@,
    {
        DesignDocumentName(self.0.clone())
    }
}

impl DesignDocumentName {
    /// Constructs the name from a string slice.
    pub fn from(s: &str) -> (r: Self)
        ensures
            r@ == s@,
    {
        DesignDocumentName(s.to_owned())
    }

    /// Constructs the name by taking ownership of a string.
    pub fn from_string(s: String) -> (r: Self)
        ensures
            r@ == s@,
    {
        DesignDocumentName(s)
    }

    /// Returns the name as a string slice.
    pub fn as_str(&self) -> (r: &str)
        ensures
            r@ == self@,
    {
        self.0.as_str()
    }

    /// Returns the name as an owned string.
    pub fn to_string(&self) -> (r: String)
        ensures
            r@ == self@,
    {
        self.0.clone()
    }

    /// Gives up the name and returns its string.
    pub fn into_string(self) -> (r: String)
        ensures
            r@ == self@,
    {
        self.0
    }

    /// Whether two names hold the same text.
    pub fn same_as(&self, other: &Self) -> (r: bool)
        ensures
            r == (self@ == other@),
    {
        self.0 == other.0
    }
}

/// Contains the name of a local document: one path segment, not percent-encoded.
#[derive(Debug, PartialEq, Eq, Hash, PartialOrd, Ord)]
pub struct LocalDocumentName(String);

impl View for LocalDocumentName {
    type V = Seq<char>;

    closed spec fn view(&self) -> Seq<char> {
        self.0@
    }
}

impl Clone for LocalDocumentName {
    fn clone(&self) -> (r: Self)
        ensures
            r@ == self@,
    {
        LocalDocumentName(self.0.clone())
    }
}

impl LocalDocumentName {
    /// Constructs the name from a string slice.
    pub fn from(s: &str) -> (r: Self)
        ensures
            r@ == s@,
    {
        LocalDocumentName(s.to_owned())
    }

    /// Constructs the name by taking ownership of a string.
    pub fn from_string(s: String) -> (r: Self)
        ensures
            r@ == s@,
    {
        LocalDocumentName(s)
    }

    /// Returns the name as a string slice.
    pub fn as_str(&self) -> (r: &str)
        ensures
            r@ == self@,
    {
        self.0.as_str()
    }

    /// Returns the name as an owned string.
    pub fn to_string(&self) -> (r: String)
        ensures
            r@ == self@,
    {
        self.0.clone()
    }

    /// Gives up the name and returns its string.
    pub fn into_string(self) -> (r: String)
        ensures
            r@ == self@,
    {
        self.0
    }

    /// Whether two names hold the same text.
    pub fn same_as(&self, other: &Self) -> (r: bool)
        ensures
            r == (self@ == other@),
    {
        self.0 == other.0
    }
}

/// Contains the name of a normal document: one path segment, not percent-encoded.
#[derive(Debug, PartialEq, Eq, Hash, PartialOrd, Ord)]
pub struct NormalDocumentName(String);

impl View for NormalDocumentName {
    type V = Seq<char>;

    closed spec fn view(&self) -> Seq<char> {
        self.0@
    }
}

impl Clone for NormalDocumentName {
    fn clone(&self) -> (r: Self)
        ensures
            r@ == self@,
    {
        NormalDocumentName(self.0.clone())
    }
}

impl NormalDocumentName {
    /// Constructs the name from a string slice.
    pub fn from(s: &str) -> (r: Self)
        ensures
            r@ == s@,
    {
        NormalDocumentName(s.to_owned())
    }

    /// Constructs the name by taking ownership of a string.
    pub fn from_string(s: String) -> (r: Self)
        ensures
            r@ == s@,
    {
        NormalDocumentName(s)
    }

    /// Returns the name as a string slice.
    pub fn as_str(&self) -> (r: &str)
        ensures
            r@ == self@,
    {
        self.0.as_str()
    }

    /// Returns the name as an owned string.
    pub fn to_string(&self) -> (r: String)
        ensures
            r@ == self@,
    {
        self.0.clone()
    }

    /// Gives up the name and returns its string.
    pub fn into_string(self) -> (r: String)
        ensures
            r@ == self@,
    {
        self.0
    }

    /// Whether two names hold the same text.
    pub fn same_as(&self, other: &Self) -> (r: bool)
        ensures
            r == (self@ == other@),
    {
        self.0 == other.0
    }
}

/// Contains the name of a view: one path segment, not percent-encoded.
#[derive(Debug, PartialEq, Eq, Hash, PartialOrd, Ord)]
pub struct ViewName(String);

impl View for ViewName {
    type V = Seq<char>;

    closed spec fn view(&self) -> Seq<char> {
        self.0@
    }
}

impl Clone for ViewName {
    fn clone(&self) -> (r: Self)
        ensures
            r@ == self@,
    {
        ViewName(self.0.clone())
    }
}

impl ViewName {
    /// Constructs the name from a string slice.
    pub fn from(s: &str) -> (r: Self)
        ensures
            r@ == s@,
    {
        ViewName(s.to_owned())
    }

    /// Constructs the name by taking ownership of a string.
    pub fn from_string(s: String) -> (r: Self)
        ensures
            r@ == s@,
    {
        ViewName(s)
    }

    /// Returns the name as a string slice.
    pub fn as_str(&self) -> (r: &str)
        ensures
            r@ == self@,
    {
        self.0.as_str()
    }

    /// Returns the name as an owned string.
    pub fn to_string(&self) -> (r: String)
        ensures
            r@ == self@,
    {
        self.0.clone()
    }

    /// Gives up the name and returns its string.
    pub fn into_string(self) -> (r: String)
        ensures
            r@ == self@,
    {
        self.0
    }

    /// Whether two names hold the same text.
    pub fn same_as(&self, other: &Self) -> (r: bool)
        ensures
            r == (self@ == other@),
    {
        self.0 == other.0
    }
}

/// The three kinds of CouchDB document.
#[derive(Clone, Copy, Debug, PartialEq, Eq, Hash, PartialOrd, Ord, Structural)]
pub enum DocumentIdKind {
    Normal,
    Design,
    Local,
}

/// Uniquely identifies a document within a database: its kind and its name.
#[derive(Debug, PartialEq, Eq, Hash, PartialOrd, Ord)]
pub enum DocumentId {
    Normal(NormalDocumentName),
    Design(DesignDocumentName),
    Local(LocalDocumentName),
}

impl View for DocumentId {
    type V = (DocumentIdKind, Seq<char>);

    closed spec fn view(&self) -> (DocumentIdKind, Seq<char>) {
        match self {
            DocumentId::Normal(x) => (DocumentIdKind::Normal, x@),
            DocumentId::Design(x) => (DocumentIdKind::Design, x@),
            DocumentId::Local(x) => (DocumentIdKind::Local, x@),
        }
    }
}

impl Clone for DocumentId {
    fn clone(&self) -> (r: Self)
        ensures
            r@ == self@,
    {
        match self {
            DocumentId::Normal(x) => DocumentId::Normal(x.clone()),
            DocumentId::Design(x) => DocumentId::Design(x.clone()),
            DocumentId::Local(x) => DocumentId::Local(x.clone()),
        }
    }
}

/// The document id that a string denotes: `_design/` and `_local/` mark
/// design and local documents, anything else names a normal document.
pub open spec fn document_id_of_text(s: Seq<char>) -> (DocumentIdKind, Seq<char>) {
    if seq_starts_with(s, design_prefix_text().push('/')) {
        (DocumentIdKind::Design, s.skip(8))
    } else if seq_starts_with(s, local_prefix_text().push('/')) {
        (DocumentIdKind::Local, s.skip(7))
    } else {
        (DocumentIdKind::Normal, s)
    }
}

/// The path segment that precedes the name of a document of kind `k`.
pub open spec fn kind_prefix_text(k: DocumentIdKind) -> Option<Seq<char>> {
    match k {
        DocumentIdKind::Normal => None,
        DocumentIdKind::Design => Some(design_prefix_text()),
        DocumentIdKind::Local => Some(local_prefix_text()),
    }
}

/// The text of a document id: its prefix and a slash, if any, then its name.
pub open spec fn document_id_text(id: (DocumentIdKind, Seq<char>)) -> Seq<char> {
    match kind_prefix_text(id.0) {
        None => id.1,
        Some(p) => p.push('/') + id.1,
    }
}

/// The percent-encoded form of a document id, as it stands in a URL path:
/// the prefix and a slash stay literal, the name is percent-encoded.
pub open spec fn document_id_encoded(id: (DocumentIdKind, Seq<char>)) -> Seq<char> {
    match kind_prefix_text(id.0) {
        None => encoded_segment(id.1),
        Some(p) => p.push('/') + encoded_segment(id.1),
    }
}

/// The path segments of a document id: its prefix, if any, then its name.
pub open spec fn document_id_segments(id: (DocumentIdKind, Seq<char>)) -> Seq<Seq<char>> {
    match kind_prefix_text(id.0) {
        None => seq![id.1],
        Some(p) => seq![p, id.1],
    }
}

impl DocumentId {
    /// Constructs a document id from its text, taking ownership of it.
    pub fn new_from_string(s: String) -> (r: Self)
        ensures
            r@ == document_id_of_text(s@),
    {
        let design = join2(design_prefix(), slash());
        let local = join2(local_prefix(), slash());
        let n = s.as_str().unicode_len();
        assert(design@ =~= design_prefix_text().push('/'));
        assert(local@ =~= local_prefix_text().push('/'));
        if str_starts_with(s.as_str(), design.as_str()) {
            let rest = s.as_str().substring_char(8, n).to_owned();
            DocumentId::Design(DesignDocumentName::from_string(rest))
        } else if str_starts_with(s.as_str(), local.as_str()) {
            let rest = s.as_str().substring_char(7, n).to_owned();
            DocumentId::Local(LocalDocumentName::from_string(rest))
        } else {
            DocumentId::Normal(NormalDocumentName::from_string(s))
        }
    }

    /// Constructs a document id of a given kind and name.
    pub fn from_kind_and_name(kind: DocumentIdKind, name: &str) -> (r: Self)
        ensures
            r@ == (kind, name@),
    {
        match kind {
            DocumentIdKind::Normal => DocumentId::Normal(NormalDocumentName::from(name)),
            DocumentIdKind::Design => DocumentId::Design(DesignDocumentName::from(name)),
            DocumentIdKind::Local => DocumentId::Local(LocalDocumentName::from(name)),
        }
    }

    /// Constructs a document id from its text.
    pub fn from(s: &str) -> (r: Self)
        ensures
            r@ == document_id_of_text(s@),
    {
        DocumentId::new_from_string(s.to_owned())
    }

    /// Returns the kind of the document.
    pub fn kind(&self) -> (r: DocumentIdKind)
        ensures
            r == self@.0,
    {
        match self {
            DocumentId::Normal(_) => DocumentIdKind::Normal,
            DocumentId::Design(_) => DocumentIdKind::Design,
            DocumentId::Local(_) => DocumentIdKind::Local,
        }
    }

    /// Returns the path segment that precedes the document name, if any.
    pub fn prefix(&self) -> (r: Option<&'static str>)
        ensures
            match r {
                None => kind_prefix_text(self@.0) is None,
                Some(p) => kind_prefix_text(self@.0) == Some(p@),
            },
    {
        match self {
            DocumentId::Normal(_) => None,
            DocumentId::Design(_) => Some(design_prefix()),
            DocumentId::Local(_) => Some(local_prefix()),
        }
    }

    /// Returns the `_design` path segment.
    pub fn design_prefix() -> (r: &'static str)
        ensures
            r@ == design_prefix_text(),
    {
        design_prefix()
    }

    /// Returns the `_local` path segment.
    pub fn local_prefix() -> (r: &'static str)
        ensures
            r@ == local_prefix_text(),
    {
        local_prefix()
    }

    /// Returns the document name, without any prefix.
    pub fn name_as_str(&self) -> (r: &str)
        ensures
            r@ == self@.1,
    {
        match self {
            DocumentId::Normal(x) => x.as_str(),
            DocumentId::Design(x) => x.as_str(),
            DocumentId::Local(x) => x.as_str(),
        }
    }

    /// Returns the text of the document id, e.g. `_design/foo`.
    pub fn to_string(&self) -> (r: String)
        ensures
            r@ == document_id_text(self@),
    {
        match self.prefix() {
            None => self.name_as_str().to_owned(),
            Some(p) => join3(p, slash(), self.name_as_str()),
        }
    }

    /// Returns the document id as it stands in a URL path, with its name
    /// percent-encoded.
    pub fn percent_encoded(&self) -> (r: String)
        ensures
            r@ == document_id_encoded(self@),
    {
        let name_part = percent_encode(self.name_as_str());
        match self.prefix() {
            None => name_part,
            Some(p) => join3(p, slash(), name_part.as_str()),
        }
    }

    /// Whether two document ids are of the same kind and name.
    pub fn same_as(&self, other: &Self) -> (r: bool)
        ensures
            r == (self@ == other@),
    {
        match (self, other) {
            (DocumentId::Normal(a), DocumentId::Normal(b)) => a.same_as(b),
            (DocumentId::Design(a), DocumentId::Design(b)) => a.same_as(b),
            (DocumentId::Local(a), DocumentId::Local(b)) => a.same_as(b),
            _ => false,
        }
    }
}

/// Display undoes parsing: the text of the document id that a string denotes
/// is that string itself.
pub proof fn lemma_document_id_text_of_text(s: Seq<char>)
    ensures
        document_id_text(document_id_of_text(s)) == s,
{
    let d = design_prefix_text().push('/');
    let l = local_prefix_text().push('/');
    if seq_starts_with(s, d) {
        assert(d + s.skip(8) =~= s);
    } else if seq_starts_with(s, l) {
        assert(l + s.skip(7) =~= s);
    }
}

/// Parsing undoes display, except for a normal document whose name itself
/// begins with `_design/` or `_local/`, which reads back as a design or local
/// document.
pub proof fn lemma_document_id_of_text_of_id(id: (DocumentIdKind, Seq<char>))
    requires
        id.0 == DocumentIdKind::Normal ==> !seq_starts_with(id.1, design_prefix_text().push('/'))
            && !seq_starts_with(id.1, local_prefix_text().push('/')),
    ensures
        document_id_of_text(document_id_text(id)) == id,
{
    let d = design_prefix_text().push('/');
    let l = local_prefix_text().push('/');
    let t = document_id_text(id);
    match id.0 {
        DocumentIdKind::Normal => {},
        DocumentIdKind::Design => {
            assert(t.take(8) =~= d);
            assert(t.skip(8) =~= id.1);
        },
        DocumentIdKind::Local => {
            assert(t.take(7) =~= l);
            assert(t.skip(7) =~= id.1);
            assert(t[1] == 'l');
            assert(!seq_starts_with(t, d)) by {
                assert(d[1] == 'd');
                if seq_starts_with(t, d) {
                    assert(t.take(8)[1] == d[1]);
                }
            }
        },
    }
}

/// The index of the first `/` in `s` at or after `k`, or the length of `s`
/// if there is none.
pub open spec fn slash_index_from(s: Seq<char>, k: nat) -> nat
    decreases s.len() - k,
{
    if k >= s.len() {
        s.len()
    } else if s[k as int] == '/' {
        k
    } else {
        slash_index_from(s, k + 1)
    }
}

/// The index of the first `/` in `s`, or the length of `s` if there is none.
pub open spec fn first_slash(s: Seq<char>) -> nat {
    slash_index_from(s, 0)
}

/// Whether `s` holds no `/`.
pub open spec fn has_no_slash(s: Seq<char>) -> bool {
    forall|i: int| 0 <= i < s.len() ==> s[i] != '/'
}

/// Whether `s` begins with a `/`.
pub open spec fn has_leading_slash(s: Seq<char>) -> bool {
    s.len() > 0 && s[0] == '/'
}

pub proof fn lemma_slash_index_from(s: Seq<char>, k: nat)
    requires
        k <= s.len(),
    ensures
        k <= slash_index_from(s, k) <= s.len(),
        forall|j: int| k <= j < slash_index_from(s, k) ==> s[j] != '/',
        slash_index_from(s, k) < s.len() ==> s[slash_index_from(s, k) as int] == '/',
    decreases s.len() - k,
{
    if k < s.len() && s[k as int] != '/' {
        lemma_slash_index_from(s, k + 1);
    }
}

/// The first slash of `a + b`, where `a` holds no slash, lies at the end of
/// `a` when `b` is empty or begins with a slash.
pub proof fn lemma_first_slash_after(a: Seq<char>, b: Seq<char>)
    requires
        has_no_slash(a),
        b.len() == 0 || b[0] == '/',
    ensures
        first_slash(a + b) == a.len(),
{
    lemma_slash_index_skip(a, b, 0);
}

proof fn lemma_slash_index_skip(a: Seq<char>, b: Seq<char>, k: nat)
    requires
        has_no_slash(a),
        b.len() == 0 || b[0] == '/',
        k <= a.len(),
    ensures
        slash_index_from(a + b, k) == a.len(),
    decreases a.len() - k,
{
    if k < a.len() {
        assert((a + b)[k as int] == a[k as int]);
        lemma_slash_index_skip(a, b, k + 1);
    } else if b.len() > 0 {
        assert((a + b)[k as int] == b[0]);
    }
}

/// What extracting one nonempty segment from `p` gives: the segment and
/// what remains, or why there is none.
pub open spec fn extract_nonempty_result(p: Seq<char>) -> Result<(Seq<char>, Seq<char>), PathParseError> {
    if p.len() == 0 {
        Err(PathParseError::TooFewSegments)
    } else {
        let cur = p.drop_first();
        let i = first_slash(cur);
        if cur.len() == 0 {
            Err(PathParseError::TooFewSegments)
        } else if i == 0 {
            Err(PathParseError::EmptySegment)
        } else {
            Ok((cur.take(i as int), cur.skip(i as int)))
        }
    }
}

/// What extracting the literal segment `lit` from `p` gives: what remains,
/// or why the literal is not there.
pub open spec fn extract_literal_result(p: Seq<char>, lit: &'static str) -> Result<Seq<char>, PathParseError> {
    if p.len() == 0 {
        Err(PathParseError::TooFewSegments)
    } else {
        let cur = p.drop_first();
        if cur.len() == 0 {
            Err(PathParseError::TooFewSegments)
        } else if cur.take(first_slash(cur) as int) == lit@ {
            Ok(cur.skip(lit@.len() as int))
        } else {
            Err(PathParseError::BadSegment(lit))
        }
    }
}

/// Whether the remains `p` of a path mark its proper end.
pub open spec fn end_result(p: Seq<char>) -> Result<(), PathParseError> {
    if p.len() == 0 {
        Ok(())
    } else if p =~= seq!['/'] {
        Err(PathParseError::TrailingSlash)
    } else {
        Err(PathParseError::TooManySegments)
    }
}

/// What extracting the final segment of `p` gives.
pub open spec fn extract_final_result(p: Seq<char>) -> Result<Seq<char>, PathParseError> {
    if !has_leading_slash(p) {
        Err(PathParseError::NoLeadingSlash)
    } else {
        let seg = p.drop_first();
        let i = first_slash(seg);
        if i < seg.len() {
            if seg.skip(i + 1int).len() == 0 {
                Err(PathParseError::TrailingSlash)
            } else {
                Err(PathParseError::TooManySegments)
            }
        } else if seg.len() == 0 {
            Err(PathParseError::EmptySegment)
        } else {
            Ok(seg)
        }
    }
}

/// What extracting a segment that is not the last one from `p` gives.
pub open spec fn extract_nonfinal_result(p: Seq<char>) -> Result<(Seq<char>, Seq<char>), PathParseError> {
    if !has_leading_slash(p) {
        Err(PathParseError::NoLeadingSlash)
    } else {
        let cur = p.drop_first();
        let i = first_slash(cur);
        if i == cur.len() {
            Err(PathParseError::TooFewSegments)
        } else if i == 0 {
            Err(PathParseError::EmptySegment)
        } else {
            Ok((cur.take(i as int), cur.skip(i as int)))
        }
    }
}

/// The error that a failed parse step gives.
pub open spec fn parse_error(e: PathParseError) -> Error {
    Error::PathParse { inner: e }
}

/// Finds the first `/` in `s` at or after `start`.
fn find_slash(s: &str, start: usize) -> (r: usize)
    requires
        start <= s@.len(),
    ensures
        r == slash_index_from(s@, start as nat),
{
    let n = s.unicode_len();
    let mut i = start;
    while i < n
        invariant
            start <= i <= n,
            n == s@.len(),
            slash_index_from(s@, i as nat) == slash_index_from(s@, start as nat),
        decreases n - i,
    {
        if s.get_char(i) == '/' {
            return i;
        }
        i = i + 1;
    }
    i
}

/// Splits a path string into its segments, one at a time, with consistent
/// error reporting.
#[derive(Debug)]
pub struct PathExtractor<'a> {
    path: &'a str,
}

impl<'a> View for PathExtractor<'a> {
    type V = Seq<char>;

    closed spec fn view(&self) -> Seq<char> {
        self.path@
    }
}

/// A segment extracted by `PathExtractor::extract_any`: the last one, or
/// one followed by more.
#[derive(Debug)]
pub enum PathExtraction<'a> {
    Final(&'a str),
    Nonfinal(PathExtractor<'a>, &'a str),
}

impl<'a> PathExtractor<'a> {
    /// Starts extracting segments from any string.
    pub fn new(path: &'a str) -> (r: Self)
        ensures
            r@ == path@,
    {
        PathExtractor { path }
    }

    /// Starts extracting segments from a string, which must begin with a slash.
    pub fn begin(path: &'a str) -> (r: Result<Self, Error>)
        ensures
            match r {
                Ok(x) => has_leading_slash(path@) && x@ == path@,
                Err(e) => !has_leading_slash(path@) && e == parse_error(PathParseError::NoLeadingSlash),
            },
    {
        if path.unicode_len() > 0 && path.get_char(0) == '/' {
            Ok(PathExtractor { path })
        } else {
            Err(Error::PathParse { inner: PathParseError::NoLeadingSlash })
        }
    }

    /// Returns what remains to be extracted.
    pub fn remaining(&self) -> (r: &'a str)
        ensures
            r@ == self@,
    {
        self.path
    }

    /// Checks that nothing remains to be extracted.
    pub fn end(self) -> (r: Result<(), Error>)
        ensures
            match end_result(self@) {
                Ok(_) => r is Ok,
                Err(k) => r == Err::<(), Error>(parse_error(k)),
            },
    {
        let n = self.path.unicode_len();
        if n == 0 {
            Ok(())
        } else if n == 1 && self.path.get_char(0) == '/' {
            assert(self@ =~= seq!['/']);
            Err(Error::PathParse { inner: PathParseError::TrailingSlash })
        } else {
            Err(Error::PathParse { inner: PathParseError::TooManySegments })
        }
    }

    /// Extracts the next segment, which must be nonempty.
    pub fn extract_nonempty(&mut self) -> (r: Result<&'a str, Error>)
        requires
            old(self)@.len() == 0 || old(self)@[0] == '/',
        ensures
            match extract_nonempty_result(old(self)@) {
                Ok((seg, rest)) => r matches Ok(x) && x@ == seg && final(self)@ == rest,
                Err(k) => r == Err::<&'a str, Error>(parse_error(k)) && final(self)@ == old(self)@,
            },
            final(self)@.len() == 0 || final(self)@[0] == '/',
    {
        let n = self.path.unicode_len();
        if n == 0 {
            return Err(Error::PathParse { inner: PathParseError::TooFewSegments });
        }
        let current = self.path.substring_char(1, n);
        assert(current@ =~= old(self)@.drop_first());
        if n == 1 {
            return Err(Error::PathParse { inner: PathParseError::TooFewSegments });
        }
        let i = find_slash(current, 0);
        proof {
            lemma_slash_index_from(current@, 0);
        }
        if i == 0 {
            return Err(Error::PathParse { inner: PathParseError::EmptySegment });
        }
        let m = n - 1;
        let segment = current.substring_char(0, i);
        self.path = current.substring_char(i, m);
        assert(segment@ =~= current@.take(i as int));
        assert(self@ =~= current@.skip(i as int));
        Ok(segment)
    }

    /// Extracts the next segment, which must equal `literal`.
    pub fn extract_literal(&mut self, literal: &'static str) -> (r: Result<(), Error>)
        requires
            old(self)@.len() == 0 || old(self)@[0] == '/',
        ensures
            match extract_literal_result(old(self)@, literal) {
                Ok(rest) => r is Ok && final(self)@ == rest,
                Err(k) => r == Err::<(), Error>(parse_error(k)) && final(self)@ == old(self)@,
            },
            final(self)@.len() == 0 || final(self)@[0] == '/',
    {
        let n = self.path.unicode_len();
        if n == 0 {
            return Err(Error::PathParse { inner: PathParseError::TooFewSegments });
        }
        let current = self.path.substring_char(1, n);
        assert(current@ =~= old(self)@.drop_first());
        if n == 1 {
            return Err(Error::PathParse { inner: PathParseError::TooFewSegments });
        }
        let i = find_slash(current, 0);
        proof {
            lemma_slash_index_from(current@, 0);
        }
        let head = current.substring_char(0, i);
        assert(head@ =~= current@.take(i as int));
        if !str_equal(head, literal) {
            return Err(Error::PathParse { inner: PathParseError::BadSegment(literal) });
        }
        let m = n - 1;
        let l = literal.unicode_len();
        self.path = current.substring_char(l, m);
        assert(self@ =~= current@.skip(l as int));
        proof {
            if self@.len() > 0 {
                assert(self@[0] == current@[i as int]);
            }
        }
        Ok(())
    }

    /// Extracts the last segment, which must be nonempty and followed by
    /// nothing.
    pub fn extract_final(self) -> (r: Result<&'a str, Error>)
        ensures
            match extract_final_result(self@) {
                Ok(seg) => r matches Ok(x) && x@ == seg,
                Err(k) => r == Err::<&'a str, Error>(parse_error(k)),
            },
    {
        let n = self.path.unicode_len();
        if !(n > 0 && self.path.get_char(0) == '/') {
            return Err(Error::PathParse { inner: PathParseError::NoLeadingSlash });
        }
        let segment = self.path.substring_char(1, n);
        assert(segment@ =~= self@.drop_first());
        let m = n - 1;
        let i = find_slash(segment, 0);
        if i < m {
            if i + 1 == m {
                assert(segment@.skip(i + 1) =~= Seq::<char>::empty());
                return Err(Error::PathParse { inner: PathParseError::TrailingSlash });
            }
            return Err(Error::PathParse { inner: PathParseError::TooManySegments });
        }
        if m == 0 {
            return Err(Error::PathParse { inner: PathParseError::EmptySegment });
        }
        Ok(segment)
    }

    /// Extracts a segment that must be followed by more.
    pub fn extract_nonfinal(&mut self) -> (r: Result<&'a str, Error>)
        ensures
            match extract_nonfinal_result(old(self)@) {
                Ok((seg, rest)) => r matches Ok(x) && x@ == seg && final(self)@ == rest,
                Err(k) => r == Err::<&'a str, Error>(parse_error(k)) && final(self)@ == old(self)@,
            },
    {
        let n = self.path.unicode_len();
        if !(n > 0 && self.path.get_char(0) == '/') {
            return Err(Error::PathParse { inner: PathParseError::NoLeadingSlash });
        }
        let current = self.path.substring_char(1, n);
        assert(current@ =~= old(self)@.drop_first());
        let m = n - 1;
        let i = find_slash(current, 0);
        proof {
            lemma_slash_index_from(current@, 0);
        }
        if i == m {
            return Err(Error::PathParse { inner: PathParseError::TooFewSegments });
        }
        if i == 0 {
            return Err(Error::PathParse { inner: PathParseError::EmptySegment });
        }
        let segment = current.substring_char(0, i);
        self.path = current.substring_char(i, m);
        assert(segment@ =~= current@.take(i as int));
        assert(self@ =~= current@.skip(i as int));
        Ok(segment)
    }

    /// Extracts the next segment, whether or not it is the last one.
    pub fn extract_any(self) -> (r: Result<PathExtraction<'a>, Error>)
        ensures
            match extract_nonfinal_result(self@) {
                Ok((seg, rest)) => r matches Ok(PathExtraction::Nonfinal(x, s)) && s@ == seg && x@ == rest,
                Err(PathParseError::TooFewSegments) => match extract_final_result(self@) {
                    Ok(seg) => r matches Ok(PathExtraction::Final(s)) && s@ == seg,
                    Err(k) => r matches Err(e) && e == parse_error(k),
                },
                Err(k) => r matches Err(e) && e == parse_error(k),
            },
    {
        let mut this = self;
        match this.extract_nonfinal() {
            Ok(segment) => Ok(PathExtraction::Nonfinal(this, segment)),
            Err(Error::PathParse { inner: PathParseError::TooFewSegments }) => {
                match this.extract_final() {
                    Ok(x) => Ok(PathExtraction::Final(x)),
                    Err(e) => Err(e),
                }
            },
            Err(e) => Err(e),
        }
    }
}

/// Whether two strings hold the same characters.
pub fn str_equal(a: &str, b: &str) -> (r: bool)
    ensures
        r == (a@ == b@),
{
    let n = a.unicode_len();
    if n != b.unicode_len() {
        return false;
    }
    let r = str_starts_with(a, b);
    assert(a@.take(n as int) =~= a@);
    r
}

/// The unpercent-encoded path that a sequence of segments forms: each
/// segment preceded by a slash.
pub open spec fn joined_path(segs: Seq<Seq<char>>) -> Seq<char>
    decreases segs.len(),
{
    if segs.len() == 0 {
        Seq::empty()
    } else {
        seq!['/'] + segs[0] + joined_path(segs.drop_first())
    }
}

/// Whether `s` can stand as one path segment of a parsed path string:
/// nonempty and free of slashes.
pub open spec fn is_plain_segment(s: Seq<char>) -> bool {
    s.len() > 0 && has_no_slash(s)
}

/// Whether a document id reads back from its path segments: its name is a
/// plain segment and, for a normal document, is neither `_design` nor
/// `_local`.
pub open spec fn is_plain_document_id(id: (DocumentIdKind, Seq<char>)) -> bool {
    &&& is_plain_segment(id.1)
    &&& id.0 == DocumentIdKind::Normal ==> id.1 != design_prefix_text() && id.1 != local_prefix_text()
}

/// Whether a parse result agrees with its specification.
pub open spec fn parse_outcome<T: View>(r: Result<T, Error>, s: Result<T::V, PathParseError>) -> bool {
    match s {
        Ok(v) => r matches Ok(p) && p@ == v,
        Err(k) => r matches Err(e) && e == parse_error(k),
    }
}

/// The views of a sequence of string slices.
pub open spec fn views_of(v: Seq<&str>) -> Seq<Seq<char>> {
    v.map_values(|x: &str| x@)
}

/// What a string denotes as a database path.
pub open spec fn parse_database_path_text(s: Seq<char>) -> Result<Seq<char>, PathParseError> {
    if !has_leading_slash(s) {
        Err(PathParseError::NoLeadingSlash)
    } else {
        match extract_nonempty_result(s) {
            Err(k) => Err(k),
            Ok((db, rest)) => match end_result(rest) {
                Err(k) => Err(k),
                Ok(_) => Ok(db),
            },
        }
    }
}

/// What remains of a document path after its database name: the document
/// id, whose first segment `x` has been extracted, and what follows it.
pub open spec fn parse_document_id_tail(x: Seq<char>, rest: Seq<char>) -> Result<((DocumentIdKind, Seq<char>), Seq<char>), PathParseError> {
    if x == design_prefix_text() {
        match extract_nonempty_result(rest) {
            Err(k) => Err(k),
            Ok((name, r)) => Ok(((DocumentIdKind::Design, name), r)),
        }
    } else if x == local_prefix_text() {
        match extract_nonempty_result(rest) {
            Err(k) => Err(k),
            Ok((name, r)) => Ok(((DocumentIdKind::Local, name), r)),
        }
    } else {
        Ok(((DocumentIdKind::Normal, x), rest))
    }
}

/// What a string denotes as a database name followed by a document id, and
/// what follows them.
pub open spec fn parse_document_prefix(s: Seq<char>) -> Result<(Seq<char>, (DocumentIdKind, Seq<char>), Seq<char>), PathParseError> {
    if !has_leading_slash(s) {
        Err(PathParseError::NoLeadingSlash)
    } else {
        match extract_nonempty_result(s) {
            Err(k) => Err(k),
            Ok((db, r1)) => match extract_nonempty_result(r1) {
                Err(k) => Err(k),
                Ok((x, r2)) => match parse_document_id_tail(x, r2) {
                    Err(k) => Err(k),
                    Ok((id, r3)) => Ok((db, id, r3)),
                },
            },
        }
    }
}

/// What a string denotes as a document path.
pub open spec fn parse_document_path_text(s: Seq<char>) -> Result<(Seq<char>, (DocumentIdKind, Seq<char>)), PathParseError> {
    match parse_document_prefix(s) {
        Err(k) => Err(k),
        Ok((db, id, rest)) => match end_result(rest) {
            Err(k) => Err(k),
            Ok(_) => Ok((db, id)),
        },
    }
}

/// What a string denotes as a design document path.
pub open spec fn parse_design_document_path_text(s: Seq<char>) -> Result<(Seq<char>, Seq<char>), PathParseError> {
    if !has_leading_slash(s) {
        Err(PathParseError::NoLeadingSlash)
    } else {
        match extract_nonempty_result(s) {
            Err(k) => Err(k),
            Ok((db, r1)) => match extract_literal_result(r1, DESIGN_PREFIX) {
                Err(k) => Err(k),
                Ok(r2) => match extract_nonempty_result(r2) {
                    Err(k) => Err(k),
                    Ok((ddoc, r3)) => match end_result(r3) {
                        Err(k) => Err(k),
                        Ok(_) => Ok((db, ddoc)),
                    },
                },
            },
        }
    }
}

/// What a string denotes as an attachment path.
pub open spec fn parse_attachment_path_text(s: Seq<char>) -> Result<(Seq<char>, (DocumentIdKind, Seq<char>), Seq<char>), PathParseError> {
    match parse_document_prefix(s) {
        Err(k) => Err(k),
        Ok((db, id, r3)) => match extract_nonempty_result(r3) {
            Err(k) => Err(k),
            Ok((att, r4)) => match end_result(r4) {
                Err(k) => Err(k),
                Ok(_) => Ok((db, id, att)),
            },
        },
    }
}

/// What a string denotes as a view path.
pub open spec fn parse_view_path_text(s: Seq<char>) -> Result<(Seq<char>, Seq<char>, Seq<char>), PathParseError> {
    if !has_leading_slash(s) {
        Err(PathParseError::NoLeadingSlash)
    } else {
        match extract_nonempty_result(s) {
            Err(k) => Err(k),
            Ok((db, r1)) => match extract_literal_result(r1, DESIGN_PREFIX) {
                Err(k) => Err(k),
                Ok(r2) => match extract_nonempty_result(r2) {
                    Err(k) => Err(k),
                    Ok((ddoc, r3)) => match extract_literal_result(r3, VIEW_PREFIX) {
                        Err(k) => Err(k),
                        Ok(r4) => match extract_nonempty_result(r4) {
                            Err(k) => Err(k),
                            Ok((view, r5)) => match end_result(r5) {
                                Err(k) => Err(k),
                                Ok(_) => Ok((db, ddoc, view)),
                            },
                        },
                    },
                },
            },
        }
    }
}

// ------------------------------------------------------------------------
// Database paths

/// The full path of a database.
#[derive(Debug, PartialEq, Eq, Hash, PartialOrd, Ord)]
pub struct DatabasePath {
    db_name: DatabaseName,
}

impl View for DatabasePath {
    type V = Seq<char>;

    closed spec fn view(&self) -> Seq<char> {
        self.db_name@
    }
}

impl Clone for DatabasePath {
    fn clone(&self) -> (r: Self)
        ensures
            r@ == self@,
    {
        DatabasePath { db_name: self.db_name.clone() }
    }
}

/// The path segments of a database path.
pub open spec fn database_path_segments(p: Seq<char>) -> Seq<Seq<char>> {
    seq![p]
}

impl DatabasePath {
    /// Constructs the path of the named database.
    pub fn from(db_name: DatabaseName) -> (r: Self)
        ensures
            r@ == db_name@,
    {
        DatabasePath { db_name }
    }

    /// Parses a path string of the form `/db`.
    pub fn parse(s: &'static str) -> (r: Result<Self, Error>)
        ensures
            parse_outcome(r, parse_database_path_text(s@)),
    {
        let mut x = PathExtractor::begin(s)?;
        let db_name = x.extract_nonempty()?;
        x.end()?;
        Ok(DatabasePath { db_name: DatabaseName::from(db_name) })
    }

    /// Returns the database name.
    pub fn database_name(&self) -> (r: &DatabaseName)
        ensures
            r@ == self@,
    {
        &self.db_name
    }

    /// Returns the path segments, not percent-encoded.
    pub fn iter(&self) -> (r: Vec<&str>)
        ensures
            views_of(r@) == database_path_segments(self@),
    {
        let mut v: Vec<&str> = Vec::new();
        v.push(self.db_name.as_str());
        assert(views_of(v@) =~= database_path_segments(self@));
        v
    }

    /// Returns the path as it stands in a URL, e.g. `/db`.
    pub fn to_string(&self) -> (r: String)
        ensures
            r@ == seq!['/'] + encoded_segment(self@),
    {
        join2(slash(), percent_encode(self.db_name.as_str()).as_str())
    }
}

// ------------------------------------------------------------------------
// Document paths

/// The full path of a document.
#[derive(Debug, PartialEq, Eq, Hash, PartialOrd, Ord)]
pub struct DocumentPath {
    db_name: DatabaseName,
    doc_id: DocumentId,
}

impl View for DocumentPath {
    type V = (Seq<char>, (DocumentIdKind, Seq<char>));

    closed spec fn view(&self) -> (Seq<char>, (DocumentIdKind, Seq<char>)) {
        (self.db_name@, self.doc_id@)
    }
}

impl Clone for DocumentPath {
    fn clone(&self) -> (r: Self)
        ensures
            r@ == self@,
    {
        DocumentPath { db_name: self.db_name.clone(), doc_id: self.doc_id.clone() }
    }
}

/// The path segments of a document path.
pub open spec fn document_path_segments(p: (Seq<char>, (DocumentIdKind, Seq<char>))) -> Seq<Seq<char>> {
    seq![p.0] + document_id_segments(p.1)
}

impl DocumentPath {
    /// Constructs the path of a document from its database and id.
    pub fn from(parts: (DatabaseName, DocumentId)) -> (r: Self)
        ensures
            r@ == (parts.0@, parts.1@),
    {
        DocumentPath { db_name: parts.0, doc_id: parts.1 }
    }

    /// Constructs the path of a document from its database name and id.
    pub fn new(db_name: DatabaseName, doc_id: DocumentId) -> (r: Self)
        ensures
            r@ == (db_name@, doc_id@),
    {
        DocumentPath { db_name, doc_id }
    }

    /// Parses a path string of the form `/db/doc`, `/db/_design/doc` or
    /// `/db/_local/doc`.
    pub fn parse(s: &'static str) -> (r: Result<Self, Error>)
        ensures
            parse_outcome(r, parse_document_path_text(s@)),
    {
        let (db_name, doc_id, x) = parse_document_prefix_exec(s)?;
        x.end()?;
        Ok(DocumentPath { db_name, doc_id })
    }

    /// Returns the database name.
    pub fn database_name(&self) -> (r: &DatabaseName)
        ensures
            r@ == self@.0,
    {
        &self.db_name
    }

    /// Returns the document id.
    pub fn document_id(&self) -> (r: &DocumentId)
        ensures
            r@ == self@.1,
    {
        &self.doc_id
    }

    /// Returns the path segments, not percent-encoded.
    pub fn iter(&self) -> (r: Vec<&str>)
        ensures
            views_of(r@) == document_path_segments(self@),
    {
        let mut v: Vec<&str> = Vec::new();
        v.push(self.db_name.as_str());
        match self.doc_id.prefix() {
            Some(p) => v.push(p),
            None => {},
        }
        v.push(self.doc_id.name_as_str());
        assert(views_of(v@) =~= document_path_segments(self@));
        v
    }

    /// Returns the path as it stands in a URL, e.g. `/db/_design/doc`.
    pub fn to_string(&self) -> (r: String)
        ensures
            r@ == seq!['/'] + encoded_segment(self@.0) + seq!['/'] + document_id_encoded(self@.1),
    {
        let db = percent_encode(self.db_name.as_str());
        let id = self.doc_id.percent_encoded();
        join2(join3(slash(), db.as_str(), slash()).as_str(), id.as_str())
    }
}

/// Extracts a database name and a document id from the beginning of `s`.
fn parse_document_prefix_exec(s: &'static str) -> (r: Result<(DatabaseName, DocumentId, PathExtractor<'static>), Error>)
    ensures
        match parse_document_prefix(s@) {
            Ok((db, id, rest)) => r matches Ok((d, i, x)) && d@ == db && i@ == id && x@ == rest
                && (rest.len() == 0 || rest[0] == '/'),
            Err(k) => r matches Err(e) && e == parse_error(k),
        },
{
    proof {
        lemma_prefix_texts();
    }
    let mut x = PathExtractor::begin(s)?;
    let db_name = x.extract_nonempty()?;
    let first = x.extract_nonempty()?;
    let doc_id = if str_equal(first, DESIGN_PREFIX) {
        let name = x.extract_nonempty()?;
        DocumentId::Design(DesignDocumentName::from(name))
    } else if str_equal(first, LOCAL_PREFIX) {
        let name = x.extract_nonempty()?;
        DocumentId::Local(LocalDocumentName::from(name))
    } else {
        DocumentId::Normal(NormalDocumentName::from(first))
    };
    Ok((DatabaseName::from(db_name), doc_id, x))
}

// ------------------------------------------------------------------------
// Design document paths

/// The full path of a design document.
#[derive(Debug, PartialEq, Eq, Hash, PartialOrd, Ord)]
pub struct DesignDocumentPath {
    db_name: DatabaseName,
    ddoc_name: DesignDocumentName,
}

impl View for DesignDocumentPath {
    type V = (Seq<char>, Seq<char>);

    closed spec fn view(&self) -> (Seq<char>, Seq<char>) {
        (self.db_name@, self.ddoc_name@)
    }
}

impl Clone for DesignDocumentPath {
    fn clone(&self) -> (r: Self)
        ensures
            r@ == self@,
    {
        DesignDocumentPath { db_name: self.db_name.clone(), ddoc_name: self.ddoc_name.clone() }
    }
}

/// The path segments of a design document path.
pub open spec fn design_document_path_segments(p: (Seq<char>, Seq<char>)) -> Seq<Seq<char>> {
    seq![p.0, design_prefix_text(), p.1]
}

impl DesignDocumentPath {
    /// Constructs the path of a design document from its database and name.
    pub fn from(parts: (DatabaseName, DesignDocumentName)) -> (r: Self)
        ensures
            r@ == (parts.0@, parts.1@),
    {
        DesignDocumentPath { db_name: parts.0, ddoc_name: parts.1 }
    }

    /// Constructs the path of a design document from its database name and
    /// document name.
    pub fn new(db_name: DatabaseName, ddoc_name: DesignDocumentName) -> (r: Self)
        ensures
            r@ == (db_name@, ddoc_name@),
    {
        DesignDocumentPath { db_name, ddoc_name }
    }

    /// Parses a path string of the form `/db/_design/doc`.
    pub fn parse(s: &'static str) -> (r: Result<Self, Error>)
        ensures
            parse_outcome(r, parse_design_document_path_text(s@)),
    {
        let mut x = PathExtractor::begin(s)?;
        let db_name = x.extract_nonempty()?;
        x.extract_literal(DESIGN_PREFIX)?;
        let ddoc_name = x.extract_nonempty()?;
        x.end()?;
        Ok(DesignDocumentPath {
            db_name: DatabaseName::from(db_name),
            ddoc_name: DesignDocumentName::from(ddoc_name),
        })
    }

    /// Returns the database name.
    pub fn database_name(&self) -> (r: &DatabaseName)
        ensures
            r@ == self@.0,
    {
        &self.db_name
    }

    /// Returns the design document name.
    pub fn design_document_name(&self) -> (r: &DesignDocumentName)
        ensures
            r@ == self@.1,
    {
        &self.ddoc_name
    }

    /// Returns the path segments, not percent-encoded.
    pub fn iter(&self) -> (r: Vec<&str>)
        ensures
            views_of(r@) == design_document_path_segments(self@),
    {
        let mut v: Vec<&str> = Vec::new();
        v.push(self.db_name.as_str());
        v.push(design_prefix());
        v.push(self.ddoc_name.as_str());
        assert(views_of(v@) =~= design_document_path_segments(self@));
        v
    }

    /// Returns the path as it stands in a URL, e.g. `/db/_design/doc`.
    pub fn to_string(&self) -> (r: String)
        ensures
            r@ == seq!['/'] + encoded_segment(self@.0) + seq!['/'] + design_prefix_text() + seq!['/']
                + encoded_segment(self@.1),
    {
        let db = percent_encode(self.db_name.as_str());
        let ddoc = percent_encode(self.ddoc_name.as_str());
        let a = join3(slash(), db.as_str(), slash());
        let b = join3(design_prefix(), slash(), ddoc.as_str());
        join2(a.as_str(), b.as_str())
    }
}

// ------------------------------------------------------------------------
// Attachment paths

/// The full path of an attachment.
#[derive(Debug, PartialEq, Eq, Hash, PartialOrd, Ord)]
pub struct AttachmentPath {
    db_name: DatabaseName,
    doc_id: DocumentId,
    att_name: AttachmentName,
}

impl View for AttachmentPath {
    type V = (Seq<char>, (DocumentIdKind, Seq<char>), Seq<char>);

    closed spec fn view(&self) -> (Seq<char>, (DocumentIdKind, Seq<char>), Seq<char>) {
        (self.db_name@, self.doc_id@, self.att_name@)
    }
}

impl Clone for AttachmentPath {
    fn clone(&self) -> (r: Self)
        ensures
            r@ == self@,
    {
        AttachmentPath {
            db_name: self.db_name.clone(),
            doc_id: self.doc_id.clone(),
            att_name: self.att_name.clone(),
        }
    }
}

/// The path segments of an attachment path.
pub open spec fn attachment_path_segments(p: (Seq<char>, (DocumentIdKind, Seq<char>), Seq<char>)) -> Seq<Seq<char>> {
    seq![p.0] + document_id_segments(p.1) + seq![p.2]
}

impl AttachmentPath {
    /// Constructs the path of an attachment from its database, document id
    /// and name.
    pub fn from(parts: (DatabaseName, DocumentId, AttachmentName)) -> (r: Self)
        ensures
            r@ == (parts.0@, parts.1@, parts.2@),
    {
        AttachmentPath { db_name: parts.0, doc_id: parts.1, att_name: parts.2 }
    }

    /// Constructs the path of an attachment of the document at `doc_path`.
    pub fn new(doc_path: DocumentPath, att_name: AttachmentName) -> (r: Self)
        ensures
            r@ == (doc_path@.0, doc_path@.1, att_name@),
    {
        AttachmentPath { db_name: doc_path.db_name, doc_id: doc_path.doc_id, att_name }
    }

    /// Parses a path string of the form `/db/doc/att`, `/db/_design/doc/att`
    /// or `/db/_local/doc/att`.
    pub fn parse(s: &'static str) -> (r: Result<Self, Error>)
        ensures
            parse_outcome(r, parse_attachment_path_text(s@)),
    {
        let (db_name, doc_id, mut x) = parse_document_prefix_exec(s)?;
        let att_name = x.extract_nonempty()?;
        x.end()?;
        Ok(AttachmentPath { db_name, doc_id, att_name: AttachmentName::from(att_name) })
    }

    /// Returns the database name.
    pub fn database_name(&self) -> (r: &DatabaseName)
        ensures
            r@ == self@.0,
    {
        &self.db_name
    }

    /// Returns the document id.
    pub fn document_id(&self) -> (r: &DocumentId)
        ensures
            r@ == self@.1,
    {
        &self.doc_id
    }

    /// Returns the attachment name.
    pub fn attachment_name(&self) -> (r: &AttachmentName)
        ensures
            r@ == self@.2,
    {
        &self.att_name
    }

    /// Returns the path segments, not percent-encoded.
    pub fn iter(&self) -> (r: Vec<&str>)
        ensures
            views_of(r@) == attachment_path_segments(self@),
    {
        let mut v: Vec<&str> = Vec::new();
        v.push(self.db_name.as_str());
        match self.doc_id.prefix() {
            Some(p) => v.push(p),
            None => {},
        }
        v.push(self.doc_id.name_as_str());
        v.push(self.att_name.as_str());
        assert(views_of(v@) =~= attachment_path_segments(self@));
        v
    }

    /// Returns the path as it stands in a URL, e.g. `/db/doc/att`.
    pub fn to_string(&self) -> (r: String)
        ensures
            r@ == seq!['/'] + encoded_segment(self@.0) + seq!['/'] + document_id_encoded(self@.1)
                + seq!['/'] + encoded_segment(self@.2),
    {
        let db = percent_encode(self.db_name.as_str());
        let id = self.doc_id.percent_encoded();
        let att = percent_encode(self.att_name.as_str());
        let a = join3(slash(), db.as_str(), slash());
        let b = join3(id.as_str(), slash(), att.as_str());
        join2(a.as_str(), b.as_str())
    }
}

// ------------------------------------------------------------------------
// View paths

/// The full path of a view.
#[derive(Debug, PartialEq, Eq, Hash, PartialOrd, Ord)]
pub struct ViewPath {
    db_name: DatabaseName,
    ddoc_name: DesignDocumentName,
    view_name: ViewName,
}

impl View for ViewPath {
    type V = (Seq<char>, Seq<char>, Seq<char>);

    closed spec fn view(&self) -> (Seq<char>, Seq<char>, Seq<char>) {
        (self.db_name@, self.ddoc_name@, self.view_name@)
    }
}

impl Clone for ViewPath {
    fn clone(&self) -> (r: Self)
        ensures
            r@ == self@,
    {
        ViewPath {
            db_name: self.db_name.clone(),
            ddoc_name: self.ddoc_name.clone(),
            view_name: self.view_name.clone(),
        }
    }
}

/// The path segments of a view path.
pub open spec fn view_path_segments(p: (Seq<char>, Seq<char>, Seq<char>)) -> Seq<Seq<char>> {
    seq![p.0, design_prefix_text(), p.1, view_prefix_text(), p.2]
}

impl ViewPath {
    /// Constructs the path of a view from its database, design document and
    /// view names.
    pub fn from(parts: (DatabaseName, DesignDocumentName, ViewName)) -> (r: Self)
        ensures
            r@ == (parts.0@, parts.1@, parts.2@),
    {
        ViewPath { db_name: parts.0, ddoc_name: parts.1, view_name: parts.2 }
    }

    /// Constructs the path of a view of the design document at `ddoc_path`.
    pub fn new(ddoc_path: DesignDocumentPath, view_name: ViewName) -> (r: Self)
        ensures
            r@ == (ddoc_path@.0, ddoc_path@.1, view_name@),
    {
        ViewPath { db_name: ddoc_path.db_name, ddoc_name: ddoc_path.ddoc_name, view_name }
    }

    /// Parses a path string of the form `/db/_design/doc/_view/view`.
    pub fn parse(s: &'static str) -> (r: Result<Self, Error>)
        ensures
            parse_outcome(r, parse_view_path_text(s@)),
    {
        let mut x = PathExtractor::begin(s)?;
        let db_name = x.extract_nonempty()?;
        x.extract_literal(DESIGN_PREFIX)?;
        let ddoc_name = x.extract_nonempty()?;
        x.extract_literal(VIEW_PREFIX)?;
        let view_name = x.extract_nonempty()?;
        x.end()?;
        Ok(ViewPath {
            db_name: DatabaseName::from(db_name),
            ddoc_name: DesignDocumentName::from(ddoc_name),
            view_name: ViewName::from(view_name),
        })
    }

    /// Returns the database name.
    pub fn database_name(&self) -> (r: &DatabaseName)
        ensures
            r@ == self@.0,
    {
        &self.db_name
    }

    /// Returns the design document name.
    pub fn design_document_name(&self) -> (r: &DesignDocumentName)
        ensures
            r@ == self@.1,
    {
        &self.ddoc_name
    }

    /// Returns the view name.
    pub fn view_name(&self) -> (r: &ViewName)
        ensures
            r@ == self@.2,
    {
        &self.view_name
    }

    /// Returns the view name.
    pub fn attachment_name(&self) -> (r: &ViewName)
        ensures
            r@ == self@.2,
    {
        &self.view_name
    }

    /// Returns the path segments, not percent-encoded.
    pub fn iter(&self) -> (r: Vec<&str>)
        ensures
            views_of(r@) == view_path_segments(self@),
    {
        let mut v: Vec<&str> = Vec::new();
        v.push(self.db_name.as_str());
        v.push(design_prefix());
        v.push(self.ddoc_name.as_str());
        v.push(view_prefix());
        v.push(self.view_name.as_str());
        assert(views_of(v@) =~= view_path_segments(self@));
        v
    }

    /// Returns the path as it stands in a URL, e.g. `/db/_design/doc/view`.
    pub fn to_string(&self) -> (r: String)
        ensures
            r@ == seq!['/'] + encoded_segment(self@.0) + seq!['/'] + design_prefix_text() + seq!['/']
                + encoded_segment(self@.1) + seq!['/'] + encoded_segment(self@.2),
    {
        let db = percent_encode(self.db_name.as_str());
        let ddoc = percent_encode(self.ddoc_name.as_str());
        let view = percent_encode(self.view_name.as_str());
        let a = join3(slash(), db.as_str(), slash());
        let b = join3(design_prefix(), slash(), ddoc.as_str());
        let c = join2(slash(), view.as_str());
        join3(a.as_str(), b.as_str(), c.as_str())
    }
}

// ------------------------------------------------------------------------
// Database view paths

/// The path of a view that belongs to a database itself rather than to a
/// design document, such as `/db/_all_docs`.
#[derive(Debug, PartialEq, Eq, Hash, PartialOrd, Ord)]
pub struct DatabaseViewPath {
    db_name: DatabaseName,
    view_name: ViewName,
}

impl View for DatabaseViewPath {
    type V = (Seq<char>, Seq<char>);

    closed spec fn view(&self) -> (Seq<char>, Seq<char>) {
        (self.db_name@, self.view_name@)
    }
}

impl Clone for DatabaseViewPath {
    fn clone(&self) -> (r: Self)
        ensures
            r@ == self@,
    {
        DatabaseViewPath { db_name: self.db_name.clone(), view_name: self.view_name.clone() }
    }
}

/// The path segments of a database view path.
pub open spec fn database_view_path_segments(p: (Seq<char>, Seq<char>)) -> Seq<Seq<char>> {
    seq![p.0, p.1]
}

/// What a string denotes as a database view path: a segment that is
/// followed by more, then a last segment.
pub open spec fn parse_database_view_path_text(s: Seq<char>) -> Result<(Seq<char>, Seq<char>), PathParseError> {
    match extract_nonfinal_result(s) {
        Err(k) => Err(k),
        Ok((db, rest)) => match extract_final_result(rest) {
            Err(k) => Err(k),
            Ok(view) => Ok((db, view)),
        },
    }
}

impl DatabaseViewPath {
    /// Constructs the path of a database view from its database and view
    /// names.
    pub fn new(db_name: DatabaseName, view_name: ViewName) -> (r: Self)
        ensures
            r@ == (db_name@, view_name@),
    {
        DatabaseViewPath { db_name, view_name }
    }

    /// Parses a path string of the form `/db/view`.
    pub fn parse(s: &'static str) -> (r: Result<Self, Error>)
        ensures
            parse_outcome(r, parse_database_view_path_text(s@)),
    {
        let mut x = PathExtractor::new(s);
        let db_name = x.extract_nonfinal()?;
        let view_name = x.extract_final()?;
        Ok(DatabaseViewPath { db_name: DatabaseName::from(db_name), view_name: ViewName::from(view_name) })
    }

    /// Returns the database name.
    pub fn database_name(&self) -> (r: &DatabaseName)
        ensures
            r@ == self@.0,
    {
        &self.db_name
    }

    /// Returns the view name.
    pub fn view_name(&self) -> (r: &ViewName)
        ensures
            r@ == self@.1,
    {
        &self.view_name
    }

    /// Returns the path segments, not percent-encoded.
    pub fn iter(&self) -> (r: Vec<&str>)
        ensures
            views_of(r@) == database_view_path_segments(self@),
    {
        let mut v: Vec<&str> = Vec::new();
        v.push(self.db_name.as_str());
        v.push(self.view_name.as_str());
        assert(views_of(v@) =~= database_view_path_segments(self@));
        v
    }
}

// ------------------------------------------------------------------------
// Conversions into paths

/// A value that names a document: a document id, a document name of a
/// given kind, or the text of a document id.
pub trait IntoDocumentId: Sized {
    /// The document id that the value names.
    spec fn document_id_view(self) -> (DocumentIdKind, Seq<char>);

    fn into_document_id(self) -> (r: DocumentId)
        ensures
            r@ == self.document_id_view(),
    ;
}

impl<'a> IntoDocumentId for &'a str {
    open spec fn document_id_view(self) -> (DocumentIdKind, Seq<char>) {
        document_id_of_text(self@)
    }

    fn into_document_id(self) -> (r: DocumentId) {
        DocumentId::from(self)
    }
}

impl IntoDocumentId for String {
    open spec fn document_id_view(self) -> (DocumentIdKind, Seq<char>) {
        document_id_of_text(self@)
    }

    fn into_document_id(self) -> (r: DocumentId) {
        DocumentId::new_from_string(self)
    }
}

impl IntoDocumentId for DocumentId {
    open spec fn document_id_view(self) -> (DocumentIdKind, Seq<char>) {
        self@
    }

    fn into_document_id(self) -> (r: DocumentId) {
        self
    }
}

impl IntoDocumentId for NormalDocumentName {
    open spec fn document_id_view(self) -> (DocumentIdKind, Seq<char>) {
        (DocumentIdKind::Normal, self@)
    }

    fn into_document_id(self) -> (r: DocumentId) {
        DocumentId::Normal(self)
    }
}

impl IntoDocumentId for DesignDocumentName {
    open spec fn document_id_view(self) -> (DocumentIdKind, Seq<char>) {
        (DocumentIdKind::Design, self@)
    }

    fn into_document_id(self) -> (r: DocumentId) {
        DocumentId::Design(self)
    }
}

impl IntoDocumentId for LocalDocumentName {
    open spec fn document_id_view(self) -> (DocumentIdKind, Seq<char>) {
        (DocumentIdKind::Local, self@)
    }

    fn into_document_id(self) -> (r: DocumentId) {
        DocumentId::Local(self)
    }
}

/// A value that gives a design document name: the name, or its text.
pub trait IntoDesignDocumentName: Sized {
    spec fn design_document_name_view(self) -> Seq<char>;

    fn into_design_document_name(self) -> (r: DesignDocumentName)
        ensures
            r@ == self.design_document_name_view(),
    ;
}

impl<'a> IntoDesignDocumentName for &'a str {
    open spec fn design_document_name_view(self) -> Seq<char> {
        self@
    }

    fn into_design_document_name(self) -> (r: DesignDocumentName) {
        DesignDocumentName::from(self)
    }
}

impl IntoDesignDocumentName for DesignDocumentName {
    open spec fn design_document_name_view(self) -> Seq<char> {
        self@
    }

    fn into_design_document_name(self) -> (r: DesignDocumentName) {
        self
    }
}

/// A value that gives an attachment name: the name, or its text.
pub trait IntoAttachmentName: Sized {
    spec fn attachment_name_view(self) -> Seq<char>;

    fn into_attachment_name(self) -> (r: AttachmentName)
        ensures
            r@ == self.attachment_name_view(),
    ;
}

impl<'a> IntoAttachmentName for &'a str {
    open spec fn attachment_name_view(self) -> Seq<char> {
        self@
    }

    fn into_attachment_name(self) -> (r: AttachmentName) {
        AttachmentName::from(self)
    }
}

impl IntoAttachmentName for AttachmentName {
    open spec fn attachment_name_view(self) -> Seq<char> {
        self@
    }

    fn into_attachment_name(self) -> (r: AttachmentName) {
        self
    }
}

/// A value that gives a view name: the name, or its text.
pub trait IntoViewName: Sized {
    spec fn view_name_view(self) -> Seq<char>;

    fn into_view_name(self) -> (r: ViewName)
        ensures
            r@ == self.view_name_view(),
    ;
}

impl<'a> IntoViewName for &'a str {
    open spec fn view_name_view(self) -> Seq<char> {
        self@
    }

    fn into_view_name(self) -> (r: ViewName) {
        ViewName::from(self)
    }
}

impl IntoViewName for ViewName {
    open spec fn view_name_view(self) -> Seq<char> {
        self@
    }

    fn into_view_name(self) -> (r: ViewName) {
        self
    }
}

/// A value that may be converted into a database path; the conversion of
/// a path string may fail.
pub trait IntoDatabasePath: Sized {
    /// The database path that the value denotes, or why it denotes none.
    spec fn database_path_result(self) -> Result<Seq<char>, PathParseError>;

    fn into_database_path(self) -> (r: Result<DatabasePath, Error>)
        ensures
            parse_outcome(r, self.database_path_result()),
    ;
}

impl IntoDatabasePath for &'static str {
    open spec fn database_path_result(self) -> Result<Seq<char>, PathParseError> {
        parse_database_path_text(self@)
    }

    fn into_database_path(self) -> (r: Result<DatabasePath, Error>) {
        DatabasePath::parse(self)
    }
}

impl IntoDatabasePath for DatabasePath {
    open spec fn database_path_result(self) -> Result<Seq<char>, PathParseError> {
        Ok(self@)
    }

    fn into_database_path(self) -> (r: Result<DatabasePath, Error>) {
        Ok(self)
    }
}

impl IntoDatabasePath for DatabaseName {
    open spec fn database_path_result(self) -> Result<Seq<char>, PathParseError> {
        Ok(self@)
    }

    fn into_database_path(self) -> (r: Result<DatabasePath, Error>) {
        Ok(DatabasePath { db_name: self })
    }
}

/// A value that may be converted into a document path.
pub trait IntoDocumentPath: Sized {
    /// The document path that the value denotes, or why it denotes none.
    spec fn document_path_result(self) -> Result<(Seq<char>, (DocumentIdKind, Seq<char>)), PathParseError>;

    fn into_document_path(self) -> (r: Result<DocumentPath, Error>)
        ensures
            parse_outcome(r, self.document_path_result()),
    ;
}

impl IntoDocumentPath for &'static str {
    open spec fn document_path_result(self) -> Result<(Seq<char>, (DocumentIdKind, Seq<char>)), PathParseError> {
        parse_document_path_text(self@)
    }

    fn into_document_path(self) -> (r: Result<DocumentPath, Error>) {
        DocumentPath::parse(self)
    }
}

impl IntoDocumentPath for DocumentPath {
    open spec fn document_path_result(self) -> Result<(Seq<char>, (DocumentIdKind, Seq<char>)), PathParseError> {
        Ok(self@)
    }

    fn into_document_path(self) -> (r: Result<DocumentPath, Error>) {
        Ok(self)
    }
}

impl<T: IntoDatabasePath, U: IntoDocumentId> IntoDocumentPath for (T, U) {
    open spec fn document_path_result(self) -> Result<(Seq<char>, (DocumentIdKind, Seq<char>)), PathParseError> {
        match self.0.database_path_result() {
            Err(k) => Err(k),
            Ok(db) => Ok((db, self.1.document_id_view())),
        }
    }

    fn into_document_path(self) -> (r: Result<DocumentPath, Error>) {
        let (a, b) = self;
        let db_path = a.into_database_path()?;
        Ok(DocumentPath { db_name: db_path.db_name, doc_id: b.into_document_id() })
    }
}

/// A value that may be converted into a design document path.
pub trait IntoDesignDocumentPath: Sized {
    /// The design document path that the value denotes, or why it denotes
    /// none.
    spec fn design_document_path_result(self) -> Result<(Seq<char>, Seq<char>), PathParseError>;

    fn into_design_document_path(self) -> (r: Result<DesignDocumentPath, Error>)
        ensures
            parse_outcome(r, self.design_document_path_result()),
    ;
}

impl IntoDesignDocumentPath for &'static str {
    open spec fn design_document_path_result(self) -> Result<(Seq<char>, Seq<char>), PathParseError> {
        parse_design_document_path_text(self@)
    }

    fn into_design_document_path(self) -> (r: Result<DesignDocumentPath, Error>) {
        DesignDocumentPath::parse(self)
    }
}

impl IntoDesignDocumentPath for DesignDocumentPath {
    open spec fn design_document_path_result(self) -> Result<(Seq<char>, Seq<char>), PathParseError> {
        Ok(self@)
    }

    fn into_design_document_path(self) -> (r: Result<DesignDocumentPath, Error>) {
        Ok(self)
    }
}

impl<T: IntoDatabasePath, U: IntoDesignDocumentName> IntoDesignDocumentPath for (T, U) {
    open spec fn design_document_path_result(self) -> Result<(Seq<char>, Seq<char>), PathParseError> {
        match self.0.database_path_result() {
            Err(k) => Err(k),
            Ok(db) => Ok((db, self.1.design_document_name_view())),
        }
    }

    fn into_design_document_path(self) -> (r: Result<DesignDocumentPath, Error>) {
        let (a, b) = self;
        let db_path = a.into_database_path()?;
        Ok(DesignDocumentPath { db_name: db_path.db_name, ddoc_name: b.into_design_document_name() })
    }
}

/// A value that may be converted into an attachment path.
pub trait IntoAttachmentPath: Sized {
    /// The attachment path that the value denotes, or why it denotes none.
    spec fn attachment_path_result(self) -> Result<(Seq<char>, (DocumentIdKind, Seq<char>), Seq<char>), PathParseError>;

    fn into_attachment_path(self) -> (r: Result<AttachmentPath, Error>)
        ensures
            parse_outcome(r, self.attachment_path_result()),
    ;
}

impl IntoAttachmentPath for &'static str {
    open spec fn attachment_path_result(self) -> Result<(Seq<char>, (DocumentIdKind, Seq<char>), Seq<char>), PathParseError> {
        parse_attachment_path_text(self@)
    }

    fn into_attachment_path(self) -> (r: Result<AttachmentPath, Error>) {
        AttachmentPath::parse(self)
    }
}

impl IntoAttachmentPath for AttachmentPath {
    open spec fn attachment_path_result(self) -> Result<(Seq<char>, (DocumentIdKind, Seq<char>), Seq<char>), PathParseError> {
        Ok(self@)
    }

    fn into_attachment_path(self) -> (r: Result<AttachmentPath, Error>) {
        Ok(self)
    }
}

impl<T: IntoDocumentPath, U: IntoAttachmentName> IntoAttachmentPath for (T, U) {
    open spec fn attachment_path_result(self) -> Result<(Seq<char>, (DocumentIdKind, Seq<char>), Seq<char>), PathParseError> {
        match self.0.document_path_result() {
            Err(k) => Err(k),
            Ok(d) => Ok((d.0, d.1, self.1.attachment_name_view())),
        }
    }

    fn into_attachment_path(self) -> (r: Result<AttachmentPath, Error>) {
        let (a, b) = self;
        let doc_path = a.into_document_path()?;
        Ok(AttachmentPath {
            db_name: doc_path.db_name,
            doc_id: doc_path.doc_id,
            att_name: b.into_attachment_name(),
        })
    }
}

impl<T: IntoDatabasePath, U: IntoDocumentId, V: IntoAttachmentName> IntoAttachmentPath for (T, U, V) {
    open spec fn attachment_path_result(self) -> Result<(Seq<char>, (DocumentIdKind, Seq<char>), Seq<char>), PathParseError> {
        match self.0.database_path_result() {
            Err(k) => Err(k),
            Ok(db) => Ok((db, self.1.document_id_view(), self.2.attachment_name_view())),
        }
    }

    fn into_attachment_path(self) -> (r: Result<AttachmentPath, Error>) {
        let (a, b, c) = self;
        let db_path = a.into_database_path()?;
        Ok(AttachmentPath {
            db_name: db_path.db_name,
            doc_id: b.into_document_id(),
            att_name: c.into_attachment_name(),
        })
    }
}

/// A value that may be converted into a view path.
pub trait IntoViewPath: Sized {
    /// The view path that the value denotes, or why it denotes none.
    spec fn view_path_result(self) -> Result<(Seq<char>, Seq<char>, Seq<char>), PathParseError>;

    fn into_view_path(self) -> (r: Result<ViewPath, Error>)
        ensures
            parse_outcome(r, self.view_path_result()),
    ;
}

impl IntoViewPath for &'static str {
    open spec fn view_path_result(self) -> Result<(Seq<char>, Seq<char>, Seq<char>), PathParseError> {
        parse_view_path_text(self@)
    }

    fn into_view_path(self) -> (r: Result<ViewPath, Error>) {
        ViewPath::parse(self)
    }
}

impl IntoViewPath for ViewPath {
    open spec fn view_path_result(self) -> Result<(Seq<char>, Seq<char>, Seq<char>), PathParseError> {
        Ok(self@)
    }

    fn into_view_path(self) -> (r: Result<ViewPath, Error>) {
        Ok(self)
    }
}

impl<T: IntoDesignDocumentPath, U: IntoViewName> IntoViewPath for (T, U) {
    open spec fn view_path_result(self) -> Result<(Seq<char>, Seq<char>, Seq<char>), PathParseError> {
        match self.0.design_document_path_result() {
            Err(k) => Err(k),
            Ok(d) => Ok((d.0, d.1, self.1.view_name_view())),
        }
    }

    fn into_view_path(self) -> (r: Result<ViewPath, Error>) {
        let (a, b) = self;
        let ddoc_path = a.into_design_document_path()?;
        Ok(ViewPath {
            db_name: ddoc_path.db_name,
            ddoc_name: ddoc_path.ddoc_name,
            view_name: b.into_view_name(),
        })
    }
}

impl<T: IntoDatabasePath, U: IntoDesignDocumentName, V: IntoViewName> IntoViewPath for (T, U, V) {
    open spec fn view_path_result(self) -> Result<(Seq<char>, Seq<char>, Seq<char>), PathParseError> {
        match self.0.database_path_result() {
            Err(k) => Err(k),
            Ok(db) => Ok((db, self.1.design_document_name_view(), self.2.view_name_view())),
        }
    }

    fn into_view_path(self) -> (r: Result<ViewPath, Error>) {
        let (a, b, c) = self;
        let db_path = a.into_database_path()?;
        Ok(ViewPath {
            db_name: db_path.db_name,
            ddoc_name: b.into_design_document_name(),
            view_name: c.into_view_name(),
        })
    }
}

/// A value that denotes the path of a database view, such as
/// `/db/_all_docs`: a path string, a path, or a database path with a view
/// name.
pub trait IntoDatabaseViewPath: Sized {
    /// The database view path that the value denotes, or why it denotes
    /// none.
    spec fn database_view_path_result(self) -> Result<(Seq<char>, Seq<char>), PathParseError>;

    fn into_database_view_path(self) -> (r: Result<DatabaseViewPath, Error>)
        ensures
            parse_outcome(r, self.database_view_path_result()),
    ;
}

impl IntoDatabaseViewPath for &'static str {
    open spec fn database_view_path_result(self) -> Result<(Seq<char>, Seq<char>), PathParseError> {
        parse_database_view_path_text(self@)
    }

    fn into_database_view_path(self) -> (r: Result<DatabaseViewPath, Error>) {
        DatabaseViewPath::parse(self)
    }
}

impl IntoDatabaseViewPath for DatabaseViewPath {
    open spec fn database_view_path_result(self) -> Result<(Seq<char>, Seq<char>), PathParseError> {
        Ok(self@)
    }

    fn into_database_view_path(self) -> (r: Result<DatabaseViewPath, Error>) {
        Ok(self)
    }
}

impl<T: IntoDatabasePath, U: IntoViewName> IntoDatabaseViewPath for (T, U) {
    open spec fn database_view_path_result(self) -> Result<(Seq<char>, Seq<char>), PathParseError> {
        match self.0.database_path_result() {
            Err(k) => Err(k),
            Ok(db) => Ok((db, self.1.view_name_view())),
        }
    }

    fn into_database_view_path(self) -> (r: Result<DatabaseViewPath, Error>) {
        let (a, b) = self;
        let db_path = a.into_database_path()?;
        Ok(DatabaseViewPath { db_name: db_path.db_name, view_name: b.into_view_name() })
    }
}

// ------------------------------------------------------------------------
// Laws of path parsing

proof fn lemma_extract_nonempty_of(a: Seq<char>, rest: Seq<char>)
    requires
        is_plain_segment(a),
        rest.len() == 0 || rest[0] == '/',
    ensures
        extract_nonempty_result(seq!['/'] + a + rest) == Ok::<(Seq<char>, Seq<char>), PathParseError>((a, rest)),
{
    let p = seq!['/'] + a + rest;
    assert(p.drop_first() =~= a + rest);
    lemma_first_slash_after(a, rest);
    assert((a + rest).take(a.len() as int) =~= a);
    assert((a + rest).skip(a.len() as int) =~= rest);
}

proof fn lemma_extract_literal_of(lit: &'static str, rest: Seq<char>)
    requires
        is_plain_segment(lit@),
        rest.len() == 0 || rest[0] == '/',
    ensures
        extract_literal_result(seq!['/'] + lit@ + rest, lit) == Ok::<Seq<char>, PathParseError>(rest),
{
    let a = lit@;
    let p = seq!['/'] + a + rest;
    assert(p.drop_first() =~= a + rest);
    lemma_first_slash_after(a, rest);
    assert((a + rest).take(a.len() as int) =~= a);
    assert((a + rest).skip(a.len() as int) =~= rest);
}

proof fn lemma_prefix_texts_plain()
    ensures
        is_plain_segment(design_prefix_text()),
        is_plain_segment(local_prefix_text()),
        is_plain_segment(view_prefix_text()),
        design_prefix_text() != local_prefix_text(),
{
    assert(design_prefix_text()[1] != local_prefix_text()[1]);
}

proof fn lemma_joined_path_head(segs: Seq<Seq<char>>)
    requires
        segs.len() > 0,
    ensures
        joined_path(segs) == seq!['/'] + segs[0] + joined_path(segs.drop_first()),
        joined_path(segs).len() > 0 && joined_path(segs)[0] == '/',
{
}

proof fn lemma_joined_path_empty()
    ensures
        joined_path(Seq::<Seq<char>>::empty()) == Seq::<char>::empty(),
{
}

/// Parsing the unpercent-encoded path string of a database path gives the
/// path back, when its name is a plain segment.
pub proof fn lemma_database_path_round_trip(p: Seq<char>)
    requires
        is_plain_segment(p),
    ensures
        parse_database_path_text(joined_path(database_path_segments(p))) == Ok::<Seq<char>, PathParseError>(p),
{
    let segs = database_path_segments(p);
    lemma_joined_path_head(segs);
    assert(segs.drop_first() =~= Seq::<Seq<char>>::empty());
    lemma_joined_path_empty();
    lemma_extract_nonempty_of(p, Seq::empty());
    assert(seq!['/'] + p + Seq::<char>::empty() =~= joined_path(segs));
}

/// Parsing the unpercent-encoded path string of a document path gives the
/// path back, when its segments are plain and a normal document is named
/// neither `_design` nor `_local`.
pub proof fn lemma_document_path_round_trip(p: (Seq<char>, (DocumentIdKind, Seq<char>)))
    requires
        is_plain_segment(p.0),
        is_plain_document_id(p.1),
    ensures
        parse_document_path_text(joined_path(document_path_segments(p))) == Ok::<(Seq<char>, (DocumentIdKind, Seq<char>)), PathParseError>(p),
{
    lemma_document_prefix_round_trip(p.0, p.1, Seq::empty());
    assert(joined_path(document_path_segments(p)) =~= joined_path(document_path_segments(p)) + Seq::<char>::empty());
}

proof fn lemma_document_prefix_round_trip(db: Seq<char>, id: (DocumentIdKind, Seq<char>), rest: Seq<char>)
    requires
        is_plain_segment(db),
        is_plain_document_id(id),
        rest.len() == 0 || rest[0] == '/',
    ensures
        parse_document_prefix(joined_path(document_path_segments((db, id))) + rest)
            == Ok::<(Seq<char>, (DocumentIdKind, Seq<char>), Seq<char>), PathParseError>((db, id, rest)),
{
    lemma_prefix_texts_plain();
    let segs = document_path_segments((db, id));
    let s = joined_path(segs) + rest;
    lemma_joined_path_head(segs);
    let t1 = segs.drop_first();
    lemma_joined_path_head(t1);
    let r1 = joined_path(t1) + rest;
    assert(s =~= seq!['/'] + db + r1);
    lemma_extract_nonempty_of(db, r1);
    match id.0 {
        DocumentIdKind::Normal => {
            assert(t1 =~= seq![id.1]);
            assert(t1.drop_first() =~= Seq::<Seq<char>>::empty());
            assert(r1 =~= seq!['/'] + id.1 + rest);
            lemma_extract_nonempty_of(id.1, rest);
        },
        DocumentIdKind::Design => {
            let t2 = t1.drop_first();
            lemma_joined_path_head(t2);
            assert(t2.drop_first() =~= Seq::<Seq<char>>::empty());
            let r2 = joined_path(t2) + rest;
            assert(r2 =~= seq!['/'] + id.1 + rest);
            assert(r1 =~= seq!['/'] + design_prefix_text() + r2);
            lemma_extract_nonempty_of(design_prefix_text(), r2);
            lemma_extract_nonempty_of(id.1, rest);
        },
        DocumentIdKind::Local => {
            let t2 = t1.drop_first();
            lemma_joined_path_head(t2);
            assert(t2.drop_first() =~= Seq::<Seq<char>>::empty());
            let r2 = joined_path(t2) + rest;
            assert(r2 =~= seq!['/'] + id.1 + rest);
            assert(r1 =~= seq!['/'] + local_prefix_text() + r2);
            lemma_extract_nonempty_of(local_prefix_text(), r2);
            lemma_extract_nonempty_of(id.1, rest);
        },
    }
}

/// Parsing the unpercent-encoded path string of an attachment path gives
/// the path back, when its segments are plain and a normal document is
/// named neither `_design` nor `_local`.
pub proof fn lemma_attachment_path_round_trip(p: (Seq<char>, (DocumentIdKind, Seq<char>), Seq<char>))
    requires
        is_plain_segment(p.0),
        is_plain_document_id(p.1),
        is_plain_segment(p.2),
    ensures
        parse_attachment_path_text(joined_path(attachment_path_segments(p))) == Ok::<(Seq<char>, (DocumentIdKind, Seq<char>), Seq<char>), PathParseError>(p),
{
    let att = seq!['/'] + p.2;
    lemma_document_prefix_round_trip(p.0, p.1, att);
    lemma_joined_path_split(document_path_segments((p.0, p.1)), p.2);
    assert(attachment_path_segments(p) =~= document_path_segments((p.0, p.1)).push(p.2));
    assert(joined_path(attachment_path_segments(p)) =~= joined_path(document_path_segments((p.0, p.1))) + att);
    assert(att =~= seq!['/'] + p.2 + Seq::<char>::empty());
    lemma_extract_nonempty_of(p.2, Seq::empty());
}

proof fn lemma_joined_path_split(segs: Seq<Seq<char>>, last: Seq<char>)
    ensures
        joined_path(segs.push(last)) == joined_path(segs) + seq!['/'] + last,
    decreases segs.len(),
{
    if segs.len() == 0 {
        let one = segs.push(last);
        assert(one.drop_first() =~= Seq::<Seq<char>>::empty());
        lemma_joined_path_head(one);
        lemma_joined_path_empty();
        assert(one[0] == last);
        assert(joined_path(one) =~= seq!['/'] + last);
        assert(joined_path(segs) + seq!['/'] + last =~= seq!['/'] + last);
    } else {
        assert(segs.push(last).drop_first() =~= segs.drop_first().push(last));
        lemma_joined_path_split(segs.drop_first(), last);
        lemma_joined_path_head(segs);
        lemma_joined_path_head(segs.push(last));
        assert(joined_path(segs.push(last)) =~= joined_path(segs) + seq!['/'] + last);
    }
}

/// Parsing the unpercent-encoded path string of a design document path
/// gives the path back, when its names are plain segments.
pub proof fn lemma_design_document_path_round_trip(p: (Seq<char>, Seq<char>))
    requires
        is_plain_segment(p.0),
        is_plain_segment(p.1),
    ensures
        parse_design_document_path_text(joined_path(design_document_path_segments(p))) == Ok::<(Seq<char>, Seq<char>), PathParseError>(p),
{
    lemma_prefix_texts();
    lemma_prefix_texts_plain();
    let segs = design_document_path_segments(p);
    lemma_joined_path_head(segs);
    let t1 = segs.drop_first();
    lemma_joined_path_head(t1);
    let t2 = t1.drop_first();
    lemma_joined_path_head(t2);
    assert(t2.drop_first() =~= Seq::<Seq<char>>::empty());
    let r2 = joined_path(t2);
    let r1 = joined_path(t1);
    assert(r2 =~= seq!['/'] + p.1 + Seq::<char>::empty());
    assert(r1 =~= seq!['/'] + DESIGN_PREFIX@ + r2);
    assert(joined_path(segs) =~= seq!['/'] + p.0 + r1);
    lemma_extract_nonempty_of(p.0, r1);
    lemma_extract_literal_of(DESIGN_PREFIX, r2);
    lemma_extract_nonempty_of(p.1, Seq::empty());
}

/// Parsing the unpercent-encoded path string of a view path gives the path
/// back, when its names are plain segments.
pub proof fn lemma_view_path_round_trip(p: (Seq<char>, Seq<char>, Seq<char>))
    requires
        is_plain_segment(p.0),
        is_plain_segment(p.1),
        is_plain_segment(p.2),
    ensures
        parse_view_path_text(joined_path(view_path_segments(p))) == Ok::<(Seq<char>, Seq<char>, Seq<char>), PathParseError>(p),
{
    lemma_prefix_texts();
    lemma_prefix_texts_plain();
    let segs = view_path_segments(p);
    let t1 = segs.drop_first();
    let t2 = t1.drop_first();
    let t3 = t2.drop_first();
    let t4 = t3.drop_first();
    lemma_joined_path_head(segs);
    lemma_joined_path_head(t1);
    lemma_joined_path_head(t2);
    lemma_joined_path_head(t3);
    lemma_joined_path_head(t4);
    assert(t4.drop_first() =~= Seq::<Seq<char>>::empty());
    let r4 = joined_path(t4);
    let r3 = joined_path(t3);
    let r2 = joined_path(t2);
    let r1 = joined_path(t1);
    assert(r4 =~= seq!['/'] + p.2 + Seq::<char>::empty());
    assert(r3 =~= seq!['/'] + VIEW_PREFIX@ + r4);
    assert(r2 =~= seq!['/'] + p.1 + r3);
    assert(r1 =~= seq!['/'] + DESIGN_PREFIX@ + r2);
    assert(joined_path(segs) =~= seq!['/'] + p.0 + r1);
    lemma_extract_nonempty_of(p.0, r1);
    lemma_extract_literal_of(DESIGN_PREFIX, r2);
    lemma_extract_nonempty_of(p.1, r3);
    lemma_extract_literal_of(VIEW_PREFIX, r4);
    lemma_extract_nonempty_of(p.2, Seq::empty());
}


/// Parsing the unpercent-encoded path string of a database view path gives
/// the path back, when both its names are plain segments.
pub proof fn lemma_database_view_path_round_trip(p: (Seq<char>, Seq<char>))
    requires
        is_plain_segment(p.0),
        is_plain_segment(p.1),
    ensures
        parse_database_view_path_text(joined_path(database_view_path_segments(p)))
            == Ok::<(Seq<char>, Seq<char>), PathParseError>(p),
{
    let segs = database_view_path_segments(p);
    let t1 = segs.drop_first();
    lemma_joined_path_head(segs);
    lemma_joined_path_head(t1);
    assert(t1.drop_first() =~= Seq::<Seq<char>>::empty());
    let r1 = joined_path(t1);
    assert(r1 =~= seq!['/'] + p.1 + Seq::<char>::empty());
    let whole = joined_path(segs);
    assert(whole =~= seq!['/'] + p.0 + r1);
    assert(whole.drop_first() =~= p.0 + r1);
    lemma_first_slash_after(p.0, r1);
    assert((p.0 + r1).take(p.0.len() as int) =~= p.0);
    assert((p.0 + r1).skip(p.0.len() as int) =~= r1);
    assert(r1.drop_first() =~= p.1);
    lemma_first_slash_after(p.1, Seq::<char>::empty());
    assert(p.1 + Seq::<char>::empty() =~= p.1);
}

} // verus!
