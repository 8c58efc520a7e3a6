use std::collections::hash_map::DefaultHasher;
use std::collections::HashMap;
use std::convert::TryFrom;
use std::hash::{Hash, Hasher};
use std::str::FromStr;

use uuid_str::text::to_ascii_lower;
use uuid_str::{ParseError, UuidStr};

const NIL: &str = "00000000-0000-0000-0000-000000000000";

fn hash_of(u: &UuidStr) -> u64 {
    let mut h = DefaultHasher::new();
    u.hash(&mut h);
    h.finish()
}

fn is_canonical(bytes: &[u8]) -> bool {
    bytes.len() == 36
        && bytes.iter().enumerate().all(|(i, b)| match i {
            8 | 13 | 18 | 23 => *b == b'-',
            _ => matches!(*b, b'0'..=b'9' | b'a'..=b'f'),
        })
}

#[test]
fn default() {
    let default_uuid = UuidStr::default();
    let default_str: &str = default_uuid.as_ref();
    assert_eq!(default_str, "00000000-0000-0000-0000-000000000000");
}

#[test]
fn v4() {
    let uuid = UuidStr::new_v4();
    let bytes: &[u8] = uuid.as_ref();
    assert_eq!(bytes.len(), 36);
    let maybe_uuid = uuid::Uuid::parse_str(uuid.as_ref());
    assert!(maybe_uuid.is_ok());
}

#[test]
fn new_is_nil() {
    let u = UuidStr::new();
    assert_eq!(u.as_str(), NIL);
    assert_eq!(u.as_str().len(), 36);
    assert!(u.as_str().is_ascii());
    assert_eq!(u.bytes(), *b"00000000-0000-0000-0000-000000000000");
    assert_eq!(u, UuidStr::default());
    assert_eq!(u, UuidStr::from_u128(0));
}

#[test]
fn canonical_text_round_trips() {
    for s in [
        NIL,
        "550e8400-e29b-41d4-a716-446655440000",
        "ffffffff-ffff-ffff-ffff-ffffffffffff",
        "01234567-89ab-cdef-0123-456789abcdef",
    ] {
        let u = UuidStr::parse(s).unwrap();
        assert_eq!(u.as_str(), s);
        assert_eq!(u.as_bytes(), s.as_bytes());
    }
}

#[test]
fn uppercase_is_normalized() {
    let u = UuidStr::parse("550E8400-E29B-41D4-A716-446655440000").unwrap();
    assert_eq!(u.as_str(), "550e8400-e29b-41d4-a716-446655440000");
}

#[test]
fn mixed_case_is_normalized() {
    let u = UuidStr::parse("01234567-89aB-CdEf-0123-456789ABCDEF").unwrap();
    assert_eq!(u.as_str(), "01234567-89ab-cdef-0123-456789abcdef");
}

#[test]
fn simple_form_gets_hyphens() {
    let u = UuidStr::parse("550E8400E29B41D4A716446655440000").unwrap();
    assert_eq!(u.as_str(), "550e8400-e29b-41d4-a716-446655440000");
}

#[test]
fn braced_form_loses_braces() {
    let u = UuidStr::parse("{550e8400-E29B-41d4-a716-446655440000}").unwrap();
    assert_eq!(u.as_str(), "550e8400-e29b-41d4-a716-446655440000");
}

#[test]
fn urn_form_loses_prefix() {
    let u = UuidStr::parse("urn:uuid:550e8400-e29b-41d4-A716-446655440000").unwrap();
    assert_eq!(u.as_str(), "550e8400-e29b-41d4-a716-446655440000");
    let v = UuidStr::parse("URN:UUID:550e8400-e29b-41d4-a716-446655440000").unwrap();
    assert_eq!(v, u);
}

#[test]
fn not_a_uuid_is_refused() {
    let r = UuidStr::parse("not-a-uuid");
    assert!(r.is_err());
    let e: ParseError = r.unwrap_err();
    assert_eq!(e.input(), "not-a-uuid");
    assert!(!e.reason().is_empty());
}

#[test]
fn wrong_length_is_refused() {
    assert!(UuidStr::parse("abc").is_err());
    assert!(UuidStr::parse("").is_err());
    assert!(UuidStr::parse("00000000000000000000000000000000000").is_err());
    assert!(UuidStr::parse("00000000-0000-0000-0000-0000000000000").is_err());
}

#[test]
fn invalid_characters_are_refused() {
    let r = UuidStr::parse("zzzzzzzz-0000-0000-0000-000000000000");
    assert_eq!(r.unwrap_err().input, "zzzzzzzz-0000-0000-0000-000000000000");
    assert!(UuidStr::parse("0000000g-0000-0000-0000-000000000000").is_err());
    assert!(UuidStr::parse("0000000\u{e9}-0000-0000-0000-00000000000").is_err());
}

#[test]
fn misplaced_hyphens_are_refused() {
    assert!(UuidStr::parse("0000000-00000-0000-0000-000000000000").is_err());
    assert!(UuidStr::parse("000000000000-0000-0000-0000-00000000").is_err());
    assert!(UuidStr::parse("00000000-0000-0000-0000-000000000000}").is_err());
    assert!(UuidStr::parse("{00000000-0000-0000-0000-000000000000)").is_err());
    assert!(UuidStr::parse("urn-uuid:00000000-0000-0000-0000-000000000000").is_err());
}

#[test]
fn from_u128_writes_the_digits() {
    let u = UuidStr::from_u128(0x550e8400_e29b_41d4_a716_446655440000);
    assert_eq!(u.as_str(), "550e8400-e29b-41d4-a716-446655440000");
    let v = UuidStr::from_u128(0x0123456789abcdef_fedcba9876543210);
    assert_eq!(v.as_str(), "01234567-89ab-cdef-fedc-ba9876543210");
    let w = UuidStr::from_u128(u128::MAX);
    assert_eq!(w.as_str(), "ffffffff-ffff-ffff-ffff-ffffffffffff");
    let x = UuidStr::from_u128(1);
    assert_eq!(x.as_str(), "00000000-0000-0000-0000-000000000001");
}

#[test]
fn from_u128_agrees_with_uuid() {
    let id = uuid::Uuid::from_u128(0xdeadbeef_0000_4000_8000_00000000cafe);
    let u = UuidStr::from_u128(id.as_u128());
    assert_eq!(u.as_str(), id.as_hyphenated().to_string());
    assert_eq!(uuid::Uuid::parse_str(u.as_str()).unwrap(), id);
}

#[test]
fn v4_is_canonical_and_reparses() {
    for _ in 0..64 {
        let u = UuidStr::new_v4();
        assert!(is_canonical(u.as_bytes()));
        assert!(u.as_str().is_ascii());
        assert_eq!(u.bytes()[14], b'4');
        assert!(matches!(u.bytes()[19], b'8' | b'9' | b'a' | b'b'));
        let again = UuidStr::parse(u.as_str()).unwrap();
        assert_eq!(again, u);
        assert_eq!(again.bytes(), u.bytes());
    }
}

#[test]
fn v4_values_differ() {
    let a = UuidStr::new_v4();
    let b = UuidStr::new_v4();
    assert_ne!(a, b);
    assert_ne!(a, UuidStr::new());
}

#[test]
fn same_text_is_equal_and_hashes_equally() {
    let a = UuidStr::parse("550e8400-e29b-41d4-a716-446655440000").unwrap();
    let b = UuidStr::parse("550E8400-E29B-41D4-A716-446655440000").unwrap();
    let c = UuidStr::parse("550e8400-e29b-41d4-a716-446655440001").unwrap();
    assert_eq!(a, b);
    assert_eq!(hash_of(&a), hash_of(&b));
    assert_ne!(a, c);
    assert!(a == b);
    assert!(!(a == c));
}

#[test]
fn usable_as_map_key() {
    let a = UuidStr::parse("550e8400-e29b-41d4-a716-446655440000").unwrap();
    let mut m: HashMap<UuidStr, u32> = HashMap::new();
    m.insert(a, 7);
    let b = UuidStr::parse("550E8400E29B41D4A716446655440000").unwrap();
    assert_eq!(m.get(&b), Some(&7));
    assert_eq!(m.get(&UuidStr::new()), None);
}

#[test]
fn copy_is_independent() {
    let a = UuidStr::parse("550e8400-e29b-41d4-a716-446655440000").unwrap();
    let b = a;
    let mut raw = b.bytes();
    raw[0] = b'f';
    assert_eq!(a.as_str(), "550e8400-e29b-41d4-a716-446655440000");
    assert_eq!(b.as_str(), "550e8400-e29b-41d4-a716-446655440000");
    let c = a.clone();
    assert_eq!(c, a);
}

#[test]
fn text_views_agree() {
    let u = UuidStr::parse("01234567-89AB-cdef-0123-456789abcdef").unwrap();
    let s: &str = u.as_ref();
    let b: &[u8] = u.as_ref();
    assert_eq!(s, "01234567-89ab-cdef-0123-456789abcdef");
    assert_eq!(b, s.as_bytes());
    assert_eq!(&*u, s);
    assert_eq!(u.len(), 36);
    assert_eq!(u.to_string(), s);
    assert_eq!(u.as_bytes(), &u.bytes()[..]);
}

#[test]
fn conversions_from_text() {
    let s = "550E8400-e29b-41d4-a716-446655440000";
    let want = UuidStr::parse(s).unwrap();
    assert_eq!(UuidStr::from_str(s).unwrap(), want);
    assert_eq!(UuidStr::try_from(s).unwrap(), want);
    assert_eq!(UuidStr::try_from(String::from(s)).unwrap(), want);
    let parsed: UuidStr = s.parse().unwrap();
    assert_eq!(parsed, want);
    assert!(UuidStr::from_str("not-a-uuid").is_err());
    assert!(UuidStr::try_from("not-a-uuid").is_err());
    let e = UuidStr::try_from(String::from("abc")).unwrap_err();
    assert_eq!(e.input(), "abc");
}

#[test]
fn error_reports_the_parser_message() {
    let e = UuidStr::parse("abc").unwrap_err();
    let theirs = uuid::Uuid::parse_str("abc").unwrap_err();
    assert_eq!(e.reason(), theirs.to_string());
    assert_eq!(e.input(), "abc");
}

#[test]
fn ascii_lower_maps_capitals_only() {
    assert_eq!(to_ascii_lower(b'A'), b'a');
    assert_eq!(to_ascii_lower(b'F'), b'f');
    assert_eq!(to_ascii_lower(b'Z'), b'z');
    assert_eq!(to_ascii_lower(b'a'), b'a');
    assert_eq!(to_ascii_lower(b'-'), b'-');
    assert_eq!(to_ascii_lower(b'0'), b'0');
    assert_eq!(to_ascii_lower(b'@'), b'@');
    assert_eq!(to_ascii_lower(b'['), b'[');
    assert_eq!(to_ascii_lower(0xff), 0xff);
}
