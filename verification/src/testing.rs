//! What a test server's log says: the line that a CouchDB server writes once
//! it has started, which gives the server's URI.
use vstd::prelude::*;
use vstd::string::StrSliceExecFns;
use crate::outside::{regex_capture, regex_first_capture};

verus! {

/// Whether a character has the Unicode property `White_Space`: the
/// controls U+0009 to U+000D, space, U+0085, no-break space, U+1680, the
/// spaces U+2000 to U+200A, the line and paragraph separators, U+202F,
/// U+205F and U+3000.
pub open spec fn is_white_space(c: char) -> bool {
    let n = c as u32;
    ||| 0x9 <= n <= 0xd
    ||| n == 0x20
    ||| n == 0x85
    ||| n == 0xa0
    ||| n == 0x1680
    ||| 0x2000 <= n <= 0x200a
    ||| n == 0x2028
    ||| n == 0x2029
    ||| n == 0x202f
    ||| n == 0x205f
    ||| n == 0x3000
}

/// A text without its trailing whitespace.
pub open spec fn trim_end_text(s: Seq<char>) -> Seq<char>
    decreases s.len(),
{
    if s.len() > 0 && is_white_space(s.last()) {
        trim_end_text(s.drop_last())
    } else {
        s
    }
}

/// Whether a character has the Unicode property `White_Space`.
fn is_white_space_char(c: char) -> (r: bool)
    ensures
        r == is_white_space(c),
{
    let n = c as u32;
    (0x9 <= n && n <= 0xd) || n == 0x20 || n == 0x85 || n == 0xa0 || n == 0x1680 || (0x2000 <= n && n <= 0x200a)
        || n == 0x2028 || n == 0x2029 || n == 0x202f || n == 0x205f || n == 0x3000
}

/// Returns the text without its trailing whitespace.
fn trim_end(s: &str) -> (r: &str)
    ensures
        r@ == trim_end_text(s@),
{
    let mut n = s.unicode_len();
    assert(s@.take(n as int) =~= s@);
    loop
        invariant
            n <= s@.len(),
            trim_end_text(s@) == trim_end_text(s@.take(n as int)),
        ensures
            n <= s@.len(),
            trim_end_text(s@) == trim_end_text(s@.take(n as int)),
            n == 0 || !is_white_space(s@[n - 1]),
        decreases n,
    {
        if n == 0 || !is_white_space_char(s.get_char(n - 1)) {
            break;
        }
        proof {
            assert(s@.take(n as int).drop_last() =~= s@.take(n - 1));
        }
        n = n - 1;
    }
    assert(n > 0 ==> s@.take(n as int).last() == s@[n - 1]);
    s.substring_char(0, n)
}

/// The pattern of the line that a CouchDB server logs when it has started;
/// its group captures the server's URI.
pub const STARTED_LINE_PATTERN: &'static str = "Apache CouchDB has started on (http.*)";

/// Reads the server's URI from a line of its log, if the line says that the
/// server has started; trailing whitespace of the line is passed over.
pub fn started_server_uri(line: &str) -> (r: Option<String>)
    ensures
        match regex_capture(STARTED_LINE_PATTERN@, trim_end_text(line@)) {
            Some(u) => r matches Some(x) && x@ == u,
            None => r is None,
        },
{
    let trimmed = trim_end(line);
    regex_first_capture(STARTED_LINE_PATTERN, trimmed)
}

} // verus!
