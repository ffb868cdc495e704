use chill::{Error, Revision, RevisionParseError};
use std::str::FromStr;

#[test]
fn parse_ok() {
    let got = Revision::parse("42-1234567890abcdeffedcba0987654321").unwrap();
    assert_eq!(42, got.sequence_number());
    assert_eq!(0x1234567890abcdeffedcba0987654321, got.digest());
}

#[test]
fn parse_nok() {
    assert!(Revision::parse("bad_revision").is_err());
}

#[test]
fn sequence_number() {
    let rev = Revision::parse("999-1234567890abcdef1234567890abcdef").unwrap();
    assert_eq!(999, rev.sequence_number());
}

#[test]
fn revision_display() {
    let expected = "42-1234567890abcdeffedcba0987654321";
    let got = Revision::parse("42-1234567890ABCDEFFEDCBA0987654321").unwrap().to_string();
    assert_eq!(expected, got);
}

#[test]
fn revision_display_pads_digest() {
    let got = Revision::parse("7-00000000000000000000000000000abc").unwrap().to_string();
    assert_eq!("7-00000000000000000000000000000abc", got);
}

#[test]
fn from_str_ok() {
    let expected = Revision::parse("42-1234567890abcdeffedcba0987654321").unwrap();
    let got = Revision::from_str("42-1234567890abcdeffedcba0987654321").unwrap();
    assert_eq!(expected, got);
}

fn revision_error(s: &str) -> RevisionParseError {
    match Revision::parse(s) {
        Err(Error::RevisionParse { inner }) => inner,
        x => panic!("Got unexpected result {:?}", x),
    }
}

#[test]
fn from_str_nok() {
    for s in [
        "12345678123456781234567812345678",
        "-12345678123456781234567812345678",
        "1-",
        "1-1234567890abcdef1234567890abcdef-",
        "-42-12345678123456781234567812345678",
        "18446744073709551616-12345678123456781234567812345678",
        "0-12345678123456781234567812345678",
        "1-z2345678123456781234567812345678",
        "1-1234567812345678123456781234567",
        "bad_revision_blah_blah_blah",
    ] {
        match Revision::from_str(s) {
            Err(Error::RevisionParse { .. }) => (),
            x => panic!("Got unexpected result {:?} for {}", x, s),
        }
    }
}

#[test]
fn revision_error_kinds() {
    assert_eq!(RevisionParseError::NumberParse, revision_error("x-1234567890abcdef1234567890abcdef"));
    assert_eq!(RevisionParseError::ZeroSequenceNumber, revision_error("0-12345678123456781234567812345678"));
    assert_eq!(RevisionParseError::TooFewParts, revision_error("12"));
    assert_eq!(RevisionParseError::DigestParse, revision_error("1-1234"));
    assert_eq!(RevisionParseError::DigestNotAllHex, revision_error("1-12345678-1234-1234-1234-123456781234"));
    assert_eq!(RevisionParseError::DigestNotAllHex, revision_error("1-{12345678-1234-1234-1234-123456781234}"));
    assert_eq!(RevisionParseError::DigestNotAllHex, revision_error("1-URN:uuid:12345678-1234-1234-1234-123456781234"));
    assert_eq!(RevisionParseError::DigestParse, revision_error("1-z2345678123456781234567812345678"));
    assert_eq!(RevisionParseError::DigestParse, revision_error("1-12345678-1234-1234-1234-12345678123z"));
}

#[test]
fn eq_same() {
    let r1 = Revision::parse("1-1234567890abcdef1234567890abcdef").unwrap();
    let r2 = Revision::parse("1-1234567890abcdef1234567890abcdef").unwrap();
    assert!(r1 == r2);
    assert!(r1.same_as(&r2));
}

#[test]
fn eq_different_numbers() {
    let r1 = Revision::parse("1-1234567890abcdef1234567890abcdef").unwrap();
    let r2 = Revision::parse("7-1234567890abcdef1234567890abcdef").unwrap();
    assert!(r1 != r2);
}

#[test]
fn eq_different_digests() {
    let r1 = Revision::parse("1-1234567890abcdef1234567890abcdef").unwrap();
    let r2 = Revision::parse("1-9999567890abcdef1234567890abcdef").unwrap();
    assert!(r1 != r2);
}

#[test]
fn eq_case_insensitive() {
    let r1 = Revision::parse("1-1234567890abcdef1234567890ABCDEF").unwrap();
    let r2 = Revision::parse("1-1234567890ABCDEf1234567890abcdef").unwrap();
    assert!(r1 == r2);
}

#[test]
fn revision_round_trip_text() {
    let s = "18446744073709551615-ffffffffffffffffffffffffffffffff";
    assert_eq!(s, Revision::parse(s).unwrap().to_string());
}

#[test]
fn revision_parse_u64_sign() {
    assert_eq!(Some(5), chill::revision::parse_u64("+5"));
    assert_eq!(None, chill::revision::parse_u64("+"));
    assert_eq!(None, chill::revision::parse_u64("18446744073709551616"));
    assert_eq!(Some(18446744073709551615), chill::revision::parse_u64("18446744073709551615"));
}

#[test]
fn string_from_revision() {
    let expected = "42-1234567890abcdeffedcba0987654321";
    let source = Revision::parse("42-1234567890abcdeffedcba0987654321").unwrap();
    assert_eq!(expected, source.to_string());
}
