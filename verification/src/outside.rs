//! Trusted interfaces to the outside crates this library relies on.
//!
//! Every function here is believed by the verifier without proof, and so is
//! every spec function without a body. Each doc comment names the outside
//! function and says what its contract claims; the spec functions with a
//! body write out what those contracts state.
use vstd::prelude::*;
use vstd::string::StringSliceAdditionalSpecFns;
use url::percent_encoding::{percent_encode, PATH_SEGMENT_ENCODE_SET};
use uuid::Uuid;
use mime::Mime;
use vstd::utf8::encode_utf8;

verus! {

/// Whether `b` belongs to the byte set that a single URL path segment must
/// percent-encode: controls, non-ASCII bytes, space, `"`, `#`, `<`, `>`,
/// backtick, `?`, `{`, `}`, `%` and `/`.
pub open spec fn in_path_segment_encode_set(b: u8) -> bool {
    ||| b < 0x20
    ||| b > 0x7e
    ||| b == 0x20
    ||| b == 0x22
    ||| b == 0x23
    ||| b == 0x3c
    ||| b == 0x3e
    ||| b == 0x60
    ||| b == 0x3f
    ||| b == 0x7b
    ||| b == 0x7d
    ||| b == 0x25
    ||| b == 0x2f
}

/// The upper-case hexadecimal digit of a value below sixteen.
pub open spec fn upper_hex_digit(n: int) -> char {
    if n < 10 {
        (48 + n) as char
    } else {
        (55 + n) as char
    }
}

/// What percent-encoding turns one byte into.
pub open spec fn percent_encode_one(b: u8) -> Seq<char> {
    if in_path_segment_encode_set(b) {
        seq!['%', upper_hex_digit(b as int / 16), upper_hex_digit(b as int % 16)]
    } else {
        seq![b as char]
    }
}

/// The percent-encoding of a byte string as a single URL path segment.
pub open spec fn percent_encode_bytes(bytes: Seq<u8>) -> Seq<char>
    decreases bytes.len(),
{
    if bytes.len() == 0 {
        Seq::empty()
    } else {
        percent_encode_one(bytes[0]) + percent_encode_bytes(bytes.drop_first())
    }
}

/// Calls `url::percent_encoding::percent_encode` with
/// `PATH_SEGMENT_ENCODE_SET` on the UTF-8 bytes of `s` and collects the
/// pieces. Claimed: each byte in the set becomes `%` and two upper-case hex
/// digits, every other byte is kept as its ASCII character, in order.
#[verifier::external_body]
pub fn percent_encode_segment(s: &str) -> (r: String)
    ensures
        r@ == percent_encode_bytes(s.spec_bytes()),
{
    percent_encode(s.as_bytes(), PATH_SEGMENT_ENCODE_SET).collect()
}

/// Whether `application/x-www-form-urlencoded` serialization keeps a byte
/// as it is: `*`, `-`, `.`, `_`, digits and ASCII letters.
pub open spec fn form_unchanged(b: u8) -> bool {
    ||| b == 0x2a
    ||| b == 0x2d
    ||| b == 0x2e
    ||| 0x30 <= b <= 0x39
    ||| 0x41 <= b <= 0x5a
    ||| b == 0x5f
    ||| 0x61 <= b <= 0x7a
}

/// What form serialization turns one byte into: the byte itself, `+` for a
/// space, or `%` and two upper-case hex digits.
pub open spec fn form_encode_one(b: u8) -> Seq<char> {
    if form_unchanged(b) {
        seq![b as char]
    } else if b == 0x20 {
        seq!['+']
    } else {
        seq!['%', upper_hex_digit(b as int / 16), upper_hex_digit(b as int % 16)]
    }
}

/// The form serialization of a byte string.
pub open spec fn form_encode_bytes(bytes: Seq<u8>) -> Seq<char>
    decreases bytes.len(),
{
    if bytes.len() == 0 {
        Seq::empty()
    } else {
        form_encode_one(bytes[0]) + form_encode_bytes(bytes.drop_first())
    }
}

/// The form serialization of one name and value: the UTF-8 bytes of each,
/// serialized, with `=` between them.
pub open spec fn form_encode_pair(p: (Seq<char>, Seq<char>)) -> Seq<char> {
    form_encode_bytes(encode_utf8(p.0)) + seq!['='] + form_encode_bytes(encode_utf8(p.1))
}

/// The `application/x-www-form-urlencoded` text of name-value pairs: each
/// pair serialized, with `&` between them.
pub open spec fn form_encode_pairs(pairs: Seq<(Seq<char>, Seq<char>)>) -> Seq<char>
    decreases pairs.len(),
{
    if pairs.len() == 0 {
        Seq::empty()
    } else if pairs.len() == 1 {
        form_encode_pair(pairs[0])
    } else {
        form_encode_pairs(pairs.drop_last()) + seq!['&'] + form_encode_pair(pairs.last())
    }
}

/// Serializes name-value pairs with `url::form_urlencoded::Serializer`
/// (`extend_pairs`, then `finish`) into a new string. Claimed: each pair's
/// name and value are UTF-8 encoded and their bytes serialized (`*`, `-`,
/// `.`, `_`, digits and letters kept, space as `+`, every other byte as
/// `%` and two upper-case hex digits), with `=` inside a pair and `&`
/// between pairs.
#[verifier::external_body]
pub fn form_urlencode(pairs: &Vec<(String, String)>) -> (r: String)
    ensures
        r@ == form_encode_pairs(pairs@.map_values(|p: (String, String)| (p.0@, p.1@))),
{
    url::form_urlencoded::Serializer::new(String::new()).extend_pairs(pairs.iter()).finish()
}

/// What `url` parses from a string, if it parses a URL: the URL's text as
/// the crate writes it, its path, and its query, if it has one.
pub uninterp spec fn url_parsed(s: Seq<char>) -> Option<(Seq<char>, Seq<char>, Option<Seq<char>>)>;

/// Calls `url::Url::parse` and returns the parsed URL's text
/// (`Url::as_str`), path (`Url::path`) and query (`Url::query`), or `None`
/// where parsing fails. Claimed: the outcome depends on the text of `s`
/// alone.
#[verifier::external_body]
pub fn url_parse(s: &str) -> (r: Option<(String, String, Option<String>)>)
    ensures
        match r {
            Some(t) => url_parsed(s@) == Some((t.0@, t.1@, match t.2 {
                Some(q) => Some(q@),
                None => None,
            })),
            None => url_parsed(s@) is None,
        },
{
    match url::Url::parse(s) {
        Ok(u) => Some((u.as_str().to_owned(), u.path().to_owned(), u.query().map(|q| q.to_owned()))),
        Err(_) => None,
    }
}

/// The text of the URL that `url` parses from `base`, after its path is set
/// to `path` and its query to `query`, if `base` parses.
pub uninterp spec fn url_joined(base: Seq<char>, path: Seq<char>, query: Option<Seq<char>>) -> Option<Seq<char>>;

/// Parses `base` with `url::Url::parse`, sets the path (`Url::set_path`)
/// and the query (`Url::set_query`), and returns the URL's text
/// (`Url::as_str`), or `None` where `base` does not parse. Claimed: the
/// outcome depends on the three texts alone.
#[verifier::external_body]
pub fn url_join(base: &str, path: &str, query: Option<&str>) -> (r: Option<String>)
    ensures
        match r {
            Some(t) => url_joined(base@, path@, match query {
                Some(q) => Some(q@),
                None => None,
            }) == Some(t@),
            None => url_joined(base@, path@, match query {
                Some(q) => Some(q@),
                None => None,
            }) is None,
        },
{
    match url::Url::parse(base) {
        Ok(mut u) => {
            u.set_path(path);
            u.set_query(query);
            Some(u.as_str().to_owned())
        },
        Err(_) => None,
    }
}

/// Whether a byte is an ASCII hexadecimal digit, either case.
pub open spec fn is_hex_byte(b: u8) -> bool {
    (0x30 <= b <= 0x39) || (0x41 <= b <= 0x46) || (0x61 <= b <= 0x66)
}

/// The value of an ASCII hexadecimal digit.
pub open spec fn hex_byte_value(b: u8) -> int {
    if 0x30 <= b <= 0x39 {
        b - 0x30
    } else if 0x41 <= b <= 0x46 {
        b - 0x41 + 10
    } else {
        b - 0x61 + 10
    }
}

/// Whether every byte is an ASCII hexadecimal digit.
pub open spec fn all_hex_bytes(b: Seq<u8>) -> bool {
    forall|i: int| 0 <= i < b.len() ==> is_hex_byte(#[trigger] b[i])
}

/// The number that a string of hexadecimal digits writes, most significant
/// digit first.
pub open spec fn hex_bytes_value(b: Seq<u8>) -> int
    decreases b.len(),
{
    if b.len() == 0 {
        0
    } else {
        hex_bytes_value(b.drop_last()) * 16 + hex_byte_value(b.last())
    }
}

/// Whether 36 bytes are a hyphenated UUID: hexadecimal digits, with `-` at
/// the offsets 8, 13, 18 and 23.
pub open spec fn hyphenated_uuid(b: Seq<u8>) -> bool {
    &&& b.len() == 36
    &&& forall|i: int|
        0 <= i < 36 ==> if i == 8 || i == 13 || i == 18 || i == 23 {
            #[trigger] b[i] == 0x2d
        } else {
            is_hex_byte(b[i])
        }
}

/// A byte in ASCII lower case.
pub open spec fn ascii_lower_byte(c: u8) -> u8 {
    if 0x41 <= c <= 0x5a {
        (c + 32) as u8
    } else {
        c
    }
}

/// Whether `uuid` parses the bytes as a UUID: 32 hexadecimal digits, a
/// hyphenated UUID, one in braces, or one after `urn:uuid:` in either case.
pub open spec fn uuid_accepts(b: Seq<u8>) -> bool {
    ||| b.len() == 32 && all_hex_bytes(b)
    ||| hyphenated_uuid(b)
    ||| b.len() == 38 && b[0] == 0x7b && b[37] == 0x7d && hyphenated_uuid(b.subrange(1, 37))
    ||| b.len() == 45 && b.take(9).map_values(|c: u8| ascii_lower_byte(c)) == seq![
        0x75u8,
        0x72u8,
        0x6eu8,
        0x3au8,
        0x75u8,
        0x75u8,
        0x69u8,
        0x64u8,
        0x3au8,
    ] && hyphenated_uuid(b.skip(9))
}

/// Calls `uuid::Uuid::parse_str` and returns the UUID as a 128-bit number
/// (`Uuid::as_u128`), or `None` where it returns an error. Claimed, of the
/// UTF-8 bytes of `s`: they parse exactly when they are 32 hexadecimal
/// digits, a hyphenated UUID (digits with `-` at offsets 8, 13, 18 and
/// 23), such a UUID in braces, or one after `urn:uuid:` in any case; 32
/// digits give the number they write. The number that the other forms give
/// is left unsaid.
#[verifier::external_body]
pub fn uuid_parse(s: &str) -> (r: Option<u128>)
    ensures
        r is Some <==> uuid_accepts(s.spec_bytes()),
        s.spec_bytes().len() == 32 && r is Some ==> r->0 == hex_bytes_value(s.spec_bytes()),
{
    match Uuid::parse_str(s) {
        Ok(u) => Some(u.as_u128()),
        Err(_) => None,
    }
}

/// The media type that `mime` parses from a string, if it parses one: its
/// text as the crate writes it, and its essence (type and subtype, without
/// parameters).
pub uninterp spec fn mime_parsed(s: Seq<char>) -> Option<(Seq<char>, Seq<char>)>;

/// Calls `str::parse::<mime::Mime>` and returns the parsed media type as the
/// crate writes it (`Mime::to_string`) and its essence
/// (`Mime::essence_str`), or `None` where parsing fails. Claimed: the outcome
/// depends on the text of `s` alone.
#[verifier::external_body]
pub fn mime_parse(s: &str) -> (r: Option<(String, String)>)
    ensures
        match r {
            Some(t) => mime_parsed(s@) == Some((t.0@, t.1@)),
            None => mime_parsed(s@) is None,
        },
{
    match s.parse::<Mime>() {
        Ok(m) => Some((m.to_string(), m.essence_str().to_owned())),
        Err(_) => None,
    }
}

/// The bytes that `base64` decodes from the given text, if it decodes any.
pub uninterp spec fn base64_decoded(s: Seq<u8>) -> Option<Seq<u8>>;

/// The standard base64 digit of a value below 64: `A` to `Z`, `a` to `z`,
/// `0` to `9`, `+`, `/`.
pub open spec fn base64_digit(n: int) -> char {
    if n < 26 {
        (65 + n) as char
    } else if n < 52 {
        (71 + n) as char
    } else if n < 62 {
        (n - 4) as char
    } else if n == 62 {
        '+'
    } else {
        '/'
    }
}

/// The standard, padded base64 encoding of the given bytes: each group of
/// three bytes as four digits of six bits each, most significant first; a
/// last group of one or two bytes as two or three digits and `=` padding.
pub open spec fn base64_encoded(b: Seq<u8>) -> Seq<char>
    decreases b.len(),
{
    if b.len() == 0 {
        Seq::empty()
    } else {
        let x = b[0] as int;
        if b.len() == 1 {
            seq![base64_digit(x / 4), base64_digit((x % 4) * 16), '=', '=']
        } else {
            let y = b[1] as int;
            if b.len() == 2 {
                seq![base64_digit(x / 4), base64_digit((x % 4) * 16 + y / 16), base64_digit((y % 16) * 4), '=']
            } else {
                let z = b[2] as int;
                seq![
                    base64_digit(x / 4),
                    base64_digit((x % 4) * 16 + y / 16),
                    base64_digit((y % 16) * 4 + z / 64),
                    base64_digit(z % 64),
                ] + base64_encoded(b.skip(3))
            }
        }
    }
}

/// Calls `base64::decode` (standard alphabet, padded) on the UTF-8 bytes of
/// `s`. Claimed: the outcome depends on those bytes alone.
#[verifier::external_body]
pub fn base64_decode(s: &str) -> (r: Option<Vec<u8>>)
    ensures
        match r {
            Some(v) => base64_decoded(s.spec_bytes()) == Some(v@),
            None => base64_decoded(s.spec_bytes()) is None,
        },
{
    match base64::decode(s) {
        Ok(v) => Some(v),
        Err(_) => None,
    }
}

/// Calls `base64::encode` (standard alphabet, padded). Claimed: the result
/// is the standard, padded base64 encoding of the bytes.
#[verifier::external_body]
pub fn base64_encode(b: &[u8]) -> (r: String)
    ensures
        r@ == base64_encoded(b@),
{
    base64::encode(b)
}

/// The text that `{:?}` formatting writes for a string: the string in
/// double quotes, with some characters escaped.
pub uninterp spec fn debug_quoted(s: Seq<char>) -> Seq<char>;

/// Formats a string with `{:?}`, the `Debug` implementation of `str`.
/// Claimed: the result depends on the text alone.
#[verifier::external_body]
pub fn debug_text(s: &str) -> (r: String)
    ensures
        r@ == debug_quoted(s@),
{
    format!("{:?}", s)
}

/// The text that the first group of the first match of a regular
/// expression captures in a text, if the expression compiles, matches, and
/// its first group takes part in the match.
pub uninterp spec fn regex_capture(pattern: Seq<char>, text: Seq<char>) -> Option<Seq<char>>;

/// Compiles `pattern` with `regex::Regex::new`, finds the first match in
/// `text` with `Regex::captures`, and returns what its first group captured
/// (`Captures::get(1)`). Claimed: the outcome depends on the two texts alone.
#[verifier::external_body]
pub fn regex_first_capture(pattern: &str, text: &str) -> (r: Option<String>)
    ensures
        match r {
            Some(c) => regex_capture(pattern@, text@) == Some(c@),
            None => regex_capture(pattern@, text@) is None,
        },
{
    match regex::Regex::new(pattern) {
        Ok(re) => re.captures(text).and_then(|c| c.get(1)).map(|m| m.as_str().to_owned()),
        Err(_) => None,
    }
}

} // verus!
