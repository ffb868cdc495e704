//! Document revisions: a sequence number and an MD5 digest, written
//! `42-1234567890abcdef1234567890abcdef`.
use vstd::prelude::*;
use vstd::string::StringSliceAdditionalSpecFns;
use crate::error::{Error, RevisionParseError};
use crate::outside::{all_hex_bytes, hex_byte_value, hex_bytes_value, hyphenated_uuid, is_hex_byte, uuid_accepts, uuid_parse};
use vstd::utf8::encode_utf8;

verus! {

/// The index of the first `c` in `s` at or after `k`, or the length of `s`.
pub open spec fn index_of_char_from(s: Seq<char>, c: char, k: nat) -> nat
    decreases s.len() - k,
{
    if k >= s.len() {
        s.len()
    } else if s[k as int] == c {
        k
    } else {
        index_of_char_from(s, c, k + 1)
    }
}

/// The index of the first `-` in `s`, or its length.
pub open spec fn first_dash(s: Seq<char>) -> nat {
    index_of_char_from(s, '-', 0)
}

/// Whether `c` is an ASCII decimal digit.
pub open spec fn is_decimal_digit(c: char) -> bool {
    '0' <= c && c <= '9'
}

/// Whether every character of `s` is an ASCII decimal digit.
pub open spec fn all_decimal_digits(s: Seq<char>) -> bool {
    forall|i: int| 0 <= i < s.len() ==> is_decimal_digit(#[trigger] s[i])
}

/// The number that a string of decimal digits writes.
pub open spec fn decimal_value(s: Seq<char>) -> int
    decreases s.len(),
{
    if s.len() == 0 {
        0
    } else {
        decimal_value(s.drop_last()) * 10 + (s.last() as int - 48)
    }
}

/// What reading `s` as an unsigned 64-bit decimal number gives: an optional
/// `+` sign, then one or more digits, whose value must fit.
pub open spec fn parse_u64_text(s: Seq<char>) -> Option<u64> {
    let digits = if s.len() > 1 && s[0] == '+' {
        s.drop_first()
    } else {
        s
    };
    if digits.len() > 0 && all_decimal_digits(digits) && decimal_value(digits) <= u64::MAX {
        Some(decimal_value(digits) as u64)
    } else {
        None
    }
}

/// Whether `c` is an ASCII hexadecimal digit, either case.
pub open spec fn is_hex_char(c: char) -> bool {
    ('0' <= c && c <= '9') || ('A' <= c && c <= 'F') || ('a' <= c && c <= 'f')
}

/// Whether every character of `s` is an ASCII hexadecimal digit.
pub open spec fn all_hex_chars(s: Seq<char>) -> bool {
    forall|i: int| 0 <= i < s.len() ==> is_hex_char(#[trigger] s[i])
}

/// The value of a hexadecimal digit.
pub open spec fn hex_char_value(c: char) -> int {
    if '0' <= c && c <= '9' {
        c as int - 48
    } else if 'A' <= c && c <= 'F' {
        c as int - 55
    } else {
        c as int - 87
    }
}

/// The number that a string of hexadecimal digits writes.
pub open spec fn hex_value(s: Seq<char>) -> int
    decreases s.len(),
{
    if s.len() == 0 {
        0
    } else {
        hex_value(s.drop_last()) * 16 + hex_char_value(s.last())
    }
}

/// Sixteen to the power `w`.
pub open spec fn pow16(w: nat) -> nat
    decreases w,
{
    if w == 0 {
        1
    } else {
        16 * pow16((w - 1) as nat)
    }
}

/// What a revision string denotes: its sequence number and digest, or why
/// it denotes none. A digest that is not all hexadecimal digits is
/// reported as such where `uuid` still parses it (a hyphenated, braced or
/// URN form), and as one that does not parse otherwise.
pub open spec fn parse_revision_text(s: Seq<char>) -> Result<(u64, u128), RevisionParseError> {
    let i = first_dash(s);
    match parse_u64_text(s.take(i as int)) {
        None => Err(RevisionParseError::NumberParse),
        Some(n) => if n == 0 {
            Err(RevisionParseError::ZeroSequenceNumber)
        } else if i == s.len() {
            Err(RevisionParseError::TooFewParts)
        } else {
            let d = s.skip(i + 1int);
            if !all_hex_chars(d) {
                if uuid_accepts(encode_utf8(d)) {
                    Err(RevisionParseError::DigestNotAllHex)
                } else {
                    Err(RevisionParseError::DigestParse)
                }
            } else if d.len() != 32 {
                Err(RevisionParseError::DigestParse)
            } else {
                Ok((n, hex_value(d) as u128))
            }
        },
    }
}

/// The lower-case digit of a value below sixteen.
pub open spec fn lower_hex_digit(n: int) -> char {
    if n < 10 {
        (48 + n) as char
    } else {
        (87 + n) as char
    }
}

/// The decimal digits of `n`, most significant first, without leading zeros.
pub open spec fn decimal_text(n: nat) -> Seq<char>
    decreases n,
{
    if n < 10 {
        seq![lower_hex_digit(n as int)]
    } else {
        decimal_text(n / 10).push(lower_hex_digit((n % 10) as int))
    }
}

/// The lowest `width` lower-case hexadecimal digits of `v`, most
/// significant first.
pub open spec fn hex_text(v: nat, width: nat) -> Seq<char>
    decreases width,
{
    if width == 0 {
        Seq::empty()
    } else {
        hex_text(v / 16, (width - 1) as nat).push(lower_hex_digit((v % 16) as int))
    }
}

/// The text of a revision: decimal sequence number, `-`, and the digest as
/// 32 lower-case hexadecimal digits.
pub open spec fn revision_text(r: (u64, u128)) -> Seq<char> {
    decimal_text(r.0 as nat) + seq!['-'] + hex_text(r.1 as nat, 32)
}

/// Identifies a version of a document: a sequence number that (usually)
/// starts at 1 and grows by one with each update, and an MD5 digest of the
/// content.
#[derive(Clone, Copy, Debug, PartialEq, Eq, Hash, Structural)]
pub struct Revision {
    sequence_number: u64,
    digest: u128,
}

impl View for Revision {
    type V = (u64, u128);

    closed spec fn view(&self) -> (u64, u128) {
        (self.sequence_number, self.digest)
    }
}

impl Revision {
    /// Parses a revision string of the form
    /// `42-1234567890abcdef1234567890abcdef`.
    pub fn parse(s: &str) -> (r: Result<Self, Error>)
        ensures
            match parse_revision_text(s@) {
                Ok(v) => r matches Ok(rev) && rev@ == v,
                Err(k) => r matches Err(Error::RevisionParse { inner }) && inner == k,
            },
    {
        let n = s.unicode_len();
        let i = find_char(s, '-', 0);
        proof {
            lemma_index_of_char_from(s@, '-', 0);
        }
        let number_text = s.substring_char(0, i);
        assert(number_text@ =~= s@.take(i as int));
        let sequence_number = match parse_u64(number_text) {
            None => {
                return Err(Error::RevisionParse { inner: RevisionParseError::NumberParse });
            },
            Some(x) => x,
        };
        if sequence_number == 0 {
            return Err(Error::RevisionParse { inner: RevisionParseError::ZeroSequenceNumber });
        }
        if i == n {
            return Err(Error::RevisionParse { inner: RevisionParseError::TooFewParts });
        }
        let digest_text = s.substring_char(i + 1, n);
        assert(digest_text@ =~= s@.skip(i + 1));
        let hex = all_hex(digest_text);
        proof {
            if hex {
                lemma_hex_chars_bytes(digest_text);
            }
        }
        let digest = match uuid_parse(digest_text) {
            None => {
                return Err(Error::RevisionParse { inner: RevisionParseError::DigestParse });
            },
            Some(d) => d,
        };
        proof {
            if hex {
                lemma_hex_uuid_is_simple(digest_text.spec_bytes());
            }
        }
        if !hex {
            return Err(Error::RevisionParse { inner: RevisionParseError::DigestNotAllHex });
        }
        Ok(Revision { sequence_number, digest })
    }

    /// Returns the sequence number: the `123` of
    /// `123-00000000000000000000000000000000`.
    pub fn sequence_number(&self) -> (r: u64)
        ensures
            r == self@.0,
    {
        self.sequence_number
    }

    /// Returns the digest as a 128-bit number.
    pub fn digest(&self) -> (r: u128)
        ensures
            r == self@.1,
    {
        self.digest
    }

    /// Returns the text of the revision, with the digest in lower case.
    pub fn to_string(&self) -> (r: String)
        ensures
            r@ == revision_text(self@),
    {
        let dash = "-";
        proof {
            reveal_strlit("-");
        }
        assert(dash@ =~= seq!['-']);
        let mut s = decimal_string(self.sequence_number);
        s.append(dash);
        let h = hex_string(self.digest, 32);
        s.append(h.as_str());
        s
    }

    /// Whether two revisions have the same sequence number and digest.
    pub fn same_as(&self, other: &Self) -> (r: bool)
        ensures
            r == (self@ == other@),
    {
        self.sequence_number == other.sequence_number && self.digest == other.digest
    }
}

impl std::str::FromStr for Revision {
    type Err = Error;

    fn from_str(s: &str) -> (r: Result<Self, Error>)
        ensures
            match parse_revision_text(s@) {
                Ok(v) => r matches Ok(rev) && rev@ == v,
                Err(k) => r matches Err(Error::RevisionParse { inner }) && inner == k,
            },
    {
        Revision::parse(s)
    }
}

/// Finds the first `c` in `s` at or after `start`.
fn find_char(s: &str, c: char, start: usize) -> (r: usize)
    requires
        start <= s@.len(),
    ensures
        r == index_of_char_from(s@, c, start as nat),
{
    let n = s.unicode_len();
    let mut i = start;
    while i < n
        invariant
            start <= i <= n,
            n == s@.len(),
            index_of_char_from(s@, c, i as nat) == index_of_char_from(s@, c, start as nat),
        decreases n - i,
    {
        if s.get_char(i) == c {
            return i;
        }
        i = i + 1;
    }
    i
}

proof fn lemma_index_of_char_from(s: Seq<char>, c: char, k: nat)
    requires
        k <= s.len(),
    ensures
        k <= index_of_char_from(s, c, k) <= s.len(),
        forall|j: int| k <= j < index_of_char_from(s, c, k) ==> s[j] != c,
        index_of_char_from(s, c, k) < s.len() ==> s[index_of_char_from(s, c, k) as int] == c,
    decreases s.len() - k,
{
    if k < s.len() && s[k as int] != c {
        lemma_index_of_char_from(s, c, k + 1);
    }
}

proof fn lemma_index_of_char_after(a: Seq<char>, b: Seq<char>, c: char, k: nat)
    requires
        forall|j: int| 0 <= j < a.len() ==> a[j] != c,
        b.len() > 0 && b[0] == c,
        k <= a.len(),
    ensures
        index_of_char_from(a + b, c, k) == a.len(),
    decreases a.len() - k,
{
    if k < a.len() {
        assert((a + b)[k as int] == a[k as int]);
        lemma_index_of_char_after(a, b, c, k + 1);
    } else {
        assert((a + b)[k as int] == b[0]);
    }
}

proof fn lemma_decimal_value_push(s: Seq<char>, c: char)
    ensures
        decimal_value(s.push(c)) == decimal_value(s) * 10 + (c as int - 48),
{
    assert(s.push(c).drop_last() =~= s);
}

proof fn lemma_decimal_value_prefix(t: Seq<char>, k: int)
    requires
        all_decimal_digits(t),
        0 <= k <= t.len(),
    ensures
        decimal_value(t) >= decimal_value(t.take(k)) >= 0,
    decreases t.len(),
{
    if k == t.len() {
        assert(t.take(k) =~= t);
        if t.len() > 0 {
            lemma_decimal_value_prefix(t.drop_last(), k - 1);
            assert(t.drop_last().take(k - 1) =~= t.drop_last());
        }
    } else {
        let u = t.drop_last();
        lemma_decimal_value_prefix(u, k);
        assert(u.take(k) =~= t.take(k));
        lemma_decimal_value_prefix(u, u.len() as int);
        assert(u.take(u.len() as int) =~= u);
    }
}

/// Reads `s` as an unsigned 64-bit decimal number, with an optional `+`.
pub fn parse_u64(s: &str) -> (r: Option<u64>)
    ensures
        r == parse_u64_text(s@),
{
    let n = s.unicode_len();
    if n == 0 {
        return None;
    }
    let start: usize = if n > 1 && s.get_char(0) == '+' {
        1
    } else {
        0
    };
    let ghost digits = s@.skip(start as int);
    assert(start == 0 ==> digits =~= s@);
    assert(start == 1 ==> digits =~= s@.drop_first());
    assert(digits == (if s@.len() > 1 && s@[0] == '+' { s@.drop_first() } else { s@ }));
    assert(digits.take(0) =~= Seq::<char>::empty());
    let mut value: u64 = 0;
    let mut j = start;
    while j < n
        invariant
            start <= j <= n,
            n == s@.len(),
            start < n,
            digits == s@.skip(start as int),
            digits == (if s@.len() > 1 && s@[0] == '+' { s@.drop_first() } else { s@ }),
            digits.len() == n - start,
            all_decimal_digits(digits.take(j - start)),
            value as int == decimal_value(digits.take(j - start)),
        decreases n - j,
    {
        let c = s.get_char(j);
        let k = j - start;
        assert(digits[k as int] == c);
        if !('0' <= c && c <= '9') {
            assert(!all_decimal_digits(digits));
            return None;
        }
        assert(digits.take(k + 1) =~= digits.take(k as int).push(c));
        proof {
            lemma_decimal_value_push(digits.take(k as int), c);
        }
        let d = (c as u32 - 48) as u64;
        let next = match value.checked_mul(10) {
            Some(v) => v.checked_add(d),
            None => None,
        };
        match next {
            Some(v) => {
                value = v;
            },
            None => {
                proof {
                    if all_decimal_digits(digits) {
                        lemma_decimal_value_prefix(digits, k + 1);
                    }
                }
                return None;
            },
        }
        j = j + 1;
    }
    assert(digits.take(n - start) =~= digits);
    Some(value)
}

/// Whether every character of `s` is a hexadecimal digit.
fn all_hex(s: &str) -> (r: bool)
    ensures
        r == all_hex_chars(s@),
{
    let n = s.unicode_len();
    let mut i: usize = 0;
    while i < n
        invariant
            i <= n,
            n == s@.len(),
            forall|j: int| 0 <= j < i ==> is_hex_char(#[trigger] s@[j]),
        decreases n - i,
    {
        let c = s.get_char(i);
        if !(('0' <= c && c <= '9') || ('A' <= c && c <= 'F') || ('a' <= c && c <= 'f')) {
            return false;
        }
        i = i + 1;
    }
    true
}

proof fn lemma_hex_bytes_of_chars(t: Seq<char>)
    requires
        all_hex_chars(t),
    ensures
        all_hex_bytes(Seq::new(t.len(), |i: int| t[i] as u8)),
        hex_bytes_value(Seq::new(t.len(), |i: int| t[i] as u8)) == hex_value(t),
    decreases t.len(),
{
    let b = Seq::new(t.len(), |i: int| t[i] as u8);
    assert forall|i: int| 0 <= i < b.len() implies is_hex_byte(#[trigger] b[i]) by {
        assert(is_hex_char(t[i]));
    }
    if t.len() > 0 {
        let u = t.drop_last();
        lemma_hex_bytes_of_chars(u);
        assert(b.drop_last() =~= Seq::new(u.len(), |i: int| u[i] as u8));
        assert(is_hex_char(t.last()));
        assert(hex_byte_value(b.last()) == hex_char_value(t.last()));
    }
}

/// Bytes that are all hexadecimal digits parse as a UUID only as 32 of them.
proof fn lemma_hex_uuid_is_simple(b: Seq<u8>)
    requires
        all_hex_bytes(b),
        uuid_accepts(b),
    ensures
        b.len() == 32,
{
    if b.len() == 36 {
        assert(is_hex_byte(b[8]));
        assert(!hyphenated_uuid(b));
    } else if b.len() == 38 {
        assert(is_hex_byte(b[0]));
    } else if b.len() == 45 {
        assert(is_hex_byte(b[0]));
        assert(b.take(9).map_values(|c: u8| crate::outside::ascii_lower_byte(c))[0] == crate::outside::ascii_lower_byte(b[0]));
    }
}

/// The UTF-8 bytes of a string of hexadecimal digits are those digits.
proof fn lemma_hex_chars_bytes(s: &str)
    requires
        all_hex_chars(s@),
    ensures
        s.spec_bytes().len() == s@.len(),
        all_hex_bytes(s.spec_bytes()),
        hex_bytes_value(s.spec_bytes()) == hex_value(s@),
{
    broadcast use vstd::string::is_ascii_spec_bytes;
    assert forall|i: int| 0 <= i < s@.len() implies '\0' <= #[trigger] s@[i] <= '\u{7f}' by {
        assert(is_hex_char(s@[i]));
    }
    assert(vstd::string::is_ascii(s));
    lemma_hex_bytes_of_chars(s@);
}

/// Returns the one-character string holding the lower-case digit `d`.
fn digit_str(d: u8) -> (r: &'static str)
    requires
        d < 16,
    ensures
        r@ == seq![lower_hex_digit(d as int)],
{
    let table = "0123456789abcdef";
    proof {
        reveal_strlit("0123456789abcdef");
    }
    assert(table@ =~= seq!['0', '1', '2', '3', '4', '5', '6', '7', '8', '9', 'a', 'b', 'c', 'd', 'e', 'f']);
    let r = table.substring_char(d as usize, d as usize + 1);
    assert(r@ =~= seq![table@[d as int]]);
    r
}

/// The decimal digits of `n`.
pub fn decimal_string(n: u64) -> (r: String)
    ensures
        r@ == decimal_text(n as nat),
    decreases n,
{
    if n < 10 {
        digit_str(n as u8).to_owned()
    } else {
        let mut s = decimal_string(n / 10);
        s.append(digit_str((n % 10) as u8));
        s
    }
}

/// The lowest `width` hexadecimal digits of `v`.
fn hex_string(v: u128, width: u32) -> (r: String)
    ensures
        r@ == hex_text(v as nat, width as nat),
    decreases width,
{
    if width == 0 {
        String::new()
    } else {
        let mut s = hex_string(v / 16, width - 1);
        s.append(digit_str((v % 16) as u8));
        s
    }
}

proof fn lemma_lower_hex_digit(m: int)
    requires
        0 <= m < 16,
    ensures
        is_hex_char(lower_hex_digit(m)),
        hex_char_value(lower_hex_digit(m)) == m,
        m < 10 ==> is_decimal_digit(lower_hex_digit(m)) && lower_hex_digit(m) as int - 48 == m,
        lower_hex_digit(m) != '-',
        lower_hex_digit(m) != '+',
{
}

proof fn lemma_decimal_text(n: nat)
    ensures
        decimal_text(n).len() > 0,
        all_decimal_digits(decimal_text(n)),
        decimal_value(decimal_text(n)) == n,
    decreases n,
{
    if n < 10 {
        lemma_lower_hex_digit(n as int);
        lemma_decimal_value_push(Seq::<char>::empty(), lower_hex_digit(n as int));
        assert(decimal_text(n) =~= Seq::<char>::empty().push(lower_hex_digit(n as int)));
    } else {
        lemma_decimal_text(n / 10);
        lemma_lower_hex_digit((n % 10) as int);
        lemma_decimal_value_push(decimal_text(n / 10), lower_hex_digit((n % 10) as int));
        assert((n / 10) * 10 + n % 10 == n) by (nonlinear_arith);
    }
}

proof fn lemma_hex_value_push(s: Seq<char>, c: char)
    ensures
        hex_value(s.push(c)) == hex_value(s) * 16 + hex_char_value(c),
{
    assert(s.push(c).drop_last() =~= s);
}

proof fn lemma_hex_text(v: nat, w: nat)
    requires
        v < pow16(w),
    ensures
        hex_text(v, w).len() == w,
        all_hex_chars(hex_text(v, w)),
        hex_value(hex_text(v, w)) == v,
    decreases w,
{
    if w > 0 {
        let p = pow16((w - 1) as nat);
        assert(v / 16 < p) by (nonlinear_arith)
            requires
                v < 16 * p,
        ;
        lemma_hex_text(v / 16, (w - 1) as nat);
        lemma_lower_hex_digit((v % 16) as int);
        lemma_hex_value_push(hex_text(v / 16, (w - 1) as nat), lower_hex_digit((v % 16) as int));
        assert((v / 16) * 16 + v % 16 == v) by (nonlinear_arith);
    }
}

proof fn lemma_pow16_32()
    ensures
        pow16(32) == 0x1_0000_0000_0000_0000_0000_0000_0000_0000,
{
    reveal_with_fuel(pow16, 33);
}

/// Parsing the text of a revision gives the revision back, whenever its
/// sequence number is not zero.
pub proof fn lemma_revision_round_trip(r: (u64, u128))
    requires
        r.0 != 0,
    ensures
        parse_revision_text(revision_text(r)) == Ok::<(u64, u128), RevisionParseError>(r),
{
    let a = decimal_text(r.0 as nat);
    let h = hex_text(r.1 as nat, 32);
    let t = revision_text(r);
    lemma_decimal_text(r.0 as nat);
    lemma_pow16_32();
    lemma_hex_text(r.1 as nat, 32);
    assert(t =~= a + (seq!['-'] + h));
    assert forall|j: int| 0 <= j < a.len() implies a[j] != '-' by {
        assert(is_decimal_digit(a[j]));
    }
    lemma_index_of_char_after(a, seq!['-'] + h, '-', 0);
    assert(t.take(a.len() as int) =~= a);
    assert(t.skip(a.len() + 1int) =~= h);
    assert(is_decimal_digit(a[0]));
}

/// The ASCII lower-case form of a text: `A` to `Z` become `a` to `z`.
pub open spec fn ascii_lowercase(s: Seq<char>) -> Seq<char> {
    s.map_values(|c: char| if 'A' <= c && c <= 'Z' { ((c as int) + 32) as char } else { c })
}

/// Whether a revision string is written the canonical way: its sequence
/// number without a sign or leading zeros.
pub open spec fn is_canonical_revision_text(s: Seq<char>) -> bool {
    s.len() > 0 && s[0] != '+' && s[0] != '0'
}

proof fn lemma_decimal_value_positive(t: Seq<char>)
    requires
        t.len() > 0,
        all_decimal_digits(t),
        t[0] != '0',
    ensures
        decimal_value(t) >= 1,
    decreases t.len(),
{
    if t.len() > 1 {
        let u = t.drop_last();
        assert(all_decimal_digits(u)) by {
            assert forall|i: int| 0 <= i < u.len() implies is_decimal_digit(#[trigger] u[i]) by {
                assert(u[i] == t[i]);
            }
        }
        assert(u[0] == t[0]);
        lemma_decimal_value_positive(u);
        assert(is_decimal_digit(t.last()));
        assert(u.push(t.last()) =~= t);
        lemma_decimal_value_push(u, t.last());
    } else {
        assert(t.drop_last() =~= Seq::<char>::empty());
        assert(is_decimal_digit(t[0]));
        assert(Seq::<char>::empty().push(t[0]) =~= t);
        lemma_decimal_value_push(Seq::<char>::empty(), t[0]);
        assert(decimal_value(Seq::<char>::empty()) == 0);
        assert(t[0] as int - 48 >= 1);
    }
}

/// Digits without leading zeros are the decimal text of the number they
/// write.
proof fn lemma_decimal_text_of_value(t: Seq<char>)
    requires
        t.len() > 0,
        all_decimal_digits(t),
        t[0] != '0',
    ensures
        decimal_text(decimal_value(t) as nat) == t,
    decreases t.len(),
{
    let c = t.last();
    assert(is_decimal_digit(c));
    let d = c as int - 48;
    if t.len() == 1 {
        assert(t.drop_last() =~= Seq::<char>::empty());
        assert(Seq::<char>::empty().push(c) =~= t);
        lemma_decimal_value_push(Seq::<char>::empty(), c);
        assert(decimal_value(Seq::<char>::empty()) == 0);
        assert(decimal_value(t) == d);
        assert(lower_hex_digit(d) == c);
        assert(decimal_text(d as nat) =~= t);
    } else {
        let u = t.drop_last();
        assert(all_decimal_digits(u)) by {
            assert forall|i: int| 0 <= i < u.len() implies is_decimal_digit(#[trigger] u[i]) by {
                assert(u[i] == t[i]);
            }
        }
        assert(u[0] == t[0]);
        lemma_decimal_value_positive(u);
        lemma_decimal_text_of_value(u);
        let n = decimal_value(t);
        let q = decimal_value(u);
        assert(n == q * 10 + d);
        assert(n / 10 == q && n % 10 == d) by (nonlinear_arith)
            requires
                n == q * 10 + d,
                0 <= d < 10,
                q >= 1,
        ;
        assert(lower_hex_digit(d) == c);
        assert(decimal_text(n as nat) == decimal_text(q as nat).push(c));
        assert(u.push(c) =~= t);
    }
}

proof fn lemma_hex_value_bound(d: Seq<char>)
    requires
        all_hex_chars(d),
    ensures
        0 <= hex_value(d) < pow16(d.len()),
    decreases d.len(),
{
    if d.len() > 0 {
        let u = d.drop_last();
        assert(all_hex_chars(u)) by {
            assert forall|i: int| 0 <= i < u.len() implies is_hex_char(#[trigger] u[i]) by {
                assert(u[i] == d[i]);
            }
        }
        lemma_hex_value_bound(u);
        assert(is_hex_char(d.last()));
        let h = hex_char_value(d.last());
        let q = hex_value(u);
        let p = pow16(u.len());
        assert(0 <= q * 16 + h < 16 * p) by (nonlinear_arith)
            requires
                0 <= q < p,
                0 <= h < 16,
        ;
    }
}

/// Hexadecimal digits are, in lower case, the hexadecimal text of the
/// number they write, at their own width.
proof fn lemma_hex_text_of_value(d: Seq<char>)
    requires
        all_hex_chars(d),
    ensures
        hex_text(hex_value(d) as nat, d.len()) == ascii_lowercase(d),
    decreases d.len(),
{
    if d.len() == 0 {
        assert(ascii_lowercase(d) =~= Seq::<char>::empty());
    } else {
        let u = d.drop_last();
        let c = d.last();
        assert(all_hex_chars(u)) by {
            assert forall|i: int| 0 <= i < u.len() implies is_hex_char(#[trigger] u[i]) by {
                assert(u[i] == d[i]);
            }
        }
        assert(is_hex_char(c));
        lemma_hex_text_of_value(u);
        lemma_hex_value_bound(u);
        let h = hex_char_value(c);
        let q = hex_value(u);
        let n = hex_value(d);
        assert(n == q * 16 + h);
        assert(n / 16 == q && n % 16 == h) by (nonlinear_arith)
            requires
                n == q * 16 + h,
                0 <= h < 16,
                q >= 0,
        ;
        let lc = if 'A' <= c && c <= 'Z' { ((c as int) + 32) as char } else { c };
        assert(lower_hex_digit(h) == lc);
        assert(ascii_lowercase(d) =~= ascii_lowercase(u).push(lc));
    }
}

/// Printing a revision that parsing gave writes the parsed string in
/// lower case, when the string writes its sequence number the canonical
/// way: without a sign or leading zeros.
pub proof fn lemma_revision_text_of_parsed(s: Seq<char>)
    requires
        parse_revision_text(s) is Ok,
        is_canonical_revision_text(s),
    ensures
        revision_text(parse_revision_text(s)->Ok_0) == ascii_lowercase(s),
{
    let i = first_dash(s);
    lemma_index_of_char_from(s, '-', 0);
    let t = s.take(i as int);
    let d = s.skip(i + 1int);
    let v = parse_revision_text(s)->Ok_0;
    assert(parse_u64_text(t) is Some);
    assert(t.len() > 0);
    assert(t[0] == s[0]);
    let digits = if t.len() > 1 && t[0] == '+' { t.drop_first() } else { t };
    assert(digits == t);
    assert(all_decimal_digits(t));
    lemma_decimal_value_prefix(t, 0);
    assert(0 <= decimal_value(t) <= u64::MAX);
    assert(parse_u64_text(t) == Some(decimal_value(t) as u64));
    lemma_decimal_text_of_value(t);
    lemma_hex_text_of_value(d);
    lemma_hex_value_bound(d);
    lemma_pow16_32();
    assert(v.0 as nat == decimal_value(t) as nat);
    assert(v.1 as nat == hex_value(d) as nat);
    assert(ascii_lowercase(t) =~= t) by {
        assert forall|j: int| 0 <= j < t.len() implies ascii_lowercase(t)[j] == t[j] by {
            assert(is_decimal_digit(t[j]));
        }
    }
    assert(s =~= t + seq!['-'] + d);
    assert(ascii_lowercase(s) =~= ascii_lowercase(t) + seq!['-'] + ascii_lowercase(d));
}

/// A revision that parsing gives never has sequence number zero.
pub proof fn lemma_parsed_revision_nonzero(s: Seq<char>)
    requires
        parse_revision_text(s) is Ok,
    ensures
        parse_revision_text(s)->Ok_0.0 != 0,
{
}

/// Reading the decimal text of a number gives the number back.
pub proof fn lemma_decimal_text_parses(n: u64)
    ensures
        parse_u64_text(decimal_text(n as nat)) == Some(n),
{
    let a = decimal_text(n as nat);
    lemma_decimal_text(n as nat);
    assert(is_decimal_digit(a[0]));
}

} // verus!
