//! The textual grammar of UUIDs, as mathematical predicates on sequences.
//!
//! A UUID is a 128-bit value written as 32 hexadecimal digits. Its canonical
//! text groups the digits 8-4-4-4-12 with hyphens and writes them in lower
//! case. The digits are numbered 0 to 31 from the most significant.

use vstd::prelude::*;

verus! {

/// The byte `-`.
pub const HYPHEN: u8 = 45;

/// The offsets in a 36-character hyphenated text that hold a hyphen.
pub open spec fn is_hyphen_index(i: int) -> bool {
    i == 8 || i == 13 || i == 18 || i == 23
}

/// The offset in a hyphenated text of hex digit number `k`, for `0 <= k < 32`.
pub open spec fn digit_index(k: int) -> int {
    if k < 8 {
        k
    } else if k < 12 {
        k + 1
    } else if k < 16 {
        k + 2
    } else if k < 20 {
        k + 3
    } else {
        k + 4
    }
}

/// The number of the hex digit at offset `i` of a hyphenated text, for an
/// offset that holds no hyphen.
pub open spec fn digit_number(i: int) -> int {
    if i < 8 {
        i
    } else if i < 13 {
        i - 1
    } else if i < 18 {
        i - 2
    } else if i < 23 {
        i - 3
    } else {
        i - 4
    }
}

/// Hex digit number `k` of `v`, counted from the most significant: a value
/// from 0 to 15.
pub open spec fn nibble(v: u128, k: int) -> int {
    (v as int / vstd::arithmetic::power::pow(16, (31 - k) as nat)) % 16
}

/// `c` is one of `0-9`, `a-f`, `A-F`.
pub open spec fn is_hex_digit(c: char) -> bool {
    ('0' <= c && c <= '9') || ('a' <= c && c <= 'f') || ('A' <= c && c <= 'F')
}

/// The value, 0 to 15, of a hex digit of either case.
pub open spec fn hex_digit_value(c: char) -> int {
    if '0' <= c && c <= '9' {
        c as int - 48
    } else if 'a' <= c && c <= 'f' {
        c as int - 87
    } else {
        c as int - 55
    }
}

/// `b` is one of the bytes `0-9`, `a-f`.
pub open spec fn is_lower_hex_byte(b: u8) -> bool {
    (48 <= b && b <= 57) || (97 <= b && b <= 102)
}

/// The lowercase hex digit, as a byte, that writes `n`, for `0 <= n < 16`.
pub open spec fn lower_hex_byte(n: int) -> u8 {
    if n < 10 {
        (48 + n) as u8
    } else {
        (87 + n) as u8
    }
}

/// A byte with `A-Z` mapped to `a-z` and every other byte unchanged.
pub open spec fn ascii_lower(b: u8) -> u8 {
    if 65 <= b && b <= 90 {
        (b + 32) as u8
    } else {
        b
    }
}

/// The canonical form: 36 bytes, hyphens at offsets 8, 13, 18 and 23, a
/// lowercase hex digit everywhere else.
pub open spec fn is_canonical(t: Seq<u8>) -> bool {
    &&& t.len() == 36
    &&& forall|i: int|
        0 <= i < 36 ==> if is_hyphen_index(i) {
            #[trigger] t[i] == HYPHEN
        } else {
            is_lower_hex_byte(t[i])
        }
}

/// The canonical text of the 128-bit value `v`.
pub open spec fn canonical_text(v: u128) -> Seq<u8> {
    Seq::new(
        36,
        |i: int|
            if is_hyphen_index(i) {
                HYPHEN
            } else {
                lower_hex_byte(nibble(v, digit_number(i)))
            },
    )
}

/// The text of the nil UUID: every digit is `0`.
pub open spec fn nil_text() -> Seq<u8> {
    Seq::new(
        36,
        |i: int|
            if is_hyphen_index(i) {
                HYPHEN
            } else {
                48u8
            },
    )
}

/// A sequence of ASCII bytes read as characters.
pub open spec fn chars_of(t: Seq<u8>) -> Seq<char> {
    Seq::new(t.len(), |i: int| t[i] as char)
}

/// Hyphenated form: 36 characters, hyphens at offsets 8, 13, 18 and 23, a
/// hex digit of either case everywhere else.
pub open spec fn is_hyphenated(s: Seq<char>) -> bool {
    &&& s.len() == 36
    &&& forall|i: int|
        0 <= i < 36 ==> if is_hyphen_index(i) {
            #[trigger] s[i] == '-'
        } else {
            is_hex_digit(s[i])
        }
}

/// `c` is one of `0-9`, `a-f`.
pub open spec fn is_lower_hex_digit(c: char) -> bool {
    ('0' <= c && c <= '9') || ('a' <= c && c <= 'f')
}

/// The canonical form, of characters: a hyphenated text without capitals.
pub open spec fn is_canonical_string(s: Seq<char>) -> bool {
    &&& s.len() == 36
    &&& forall|i: int|
        0 <= i < 36 ==> if is_hyphen_index(i) {
            #[trigger] s[i] == '-'
        } else {
            is_lower_hex_digit(s[i])
        }
}

/// Simple form: 32 hex digits of either case and nothing else.
pub open spec fn is_simple(s: Seq<char>) -> bool {
    &&& s.len() == 32
    &&& forall|i: int| 0 <= i < 32 ==> is_hex_digit(#[trigger] s[i])
}

/// Braced form: a hyphenated text between `{` and `}`.
pub open spec fn is_braced(s: Seq<char>) -> bool {
    &&& s.len() == 38
    &&& s[0] == '{'
    &&& s[37] == '}'
    &&& is_hyphenated(s.subrange(1, 37))
}

/// The nine characters `urn:uuid:`, each letter in either case.
pub open spec fn is_urn_prefix(p: Seq<char>) -> bool {
    &&& p.len() == 9
    &&& (p[0] == 'u' || p[0] == 'U')
    &&& (p[1] == 'r' || p[1] == 'R')
    &&& (p[2] == 'n' || p[2] == 'N')
    &&& p[3] == ':'
    &&& (p[4] == 'u' || p[4] == 'U')
    &&& (p[5] == 'u' || p[5] == 'U')
    &&& (p[6] == 'i' || p[6] == 'I')
    &&& (p[7] == 'd' || p[7] == 'D')
    &&& p[8] == ':'
}

/// URN form: a hyphenated text after the prefix `urn:uuid:`.
pub open spec fn is_urn(s: Seq<char>) -> bool {
    &&& s.len() == 45
    &&& is_urn_prefix(s.subrange(0, 9))
    &&& is_hyphenated(s.subrange(9, 45))
}

/// The texts that denote a UUID: the simple, hyphenated, braced and URN forms.
pub open spec fn is_uuid_text(s: Seq<char>) -> bool {
    is_simple(s) || is_hyphenated(s) || is_braced(s) || is_urn(s)
}

/// The 32 hex digits of a UUID text, in order, as written.
pub open spec fn hex_digits(s: Seq<char>) -> Seq<char> {
    if s.len() == 32 {
        s
    } else if s.len() == 36 {
        Seq::new(32, |k: int| s[digit_index(k)])
    } else if s.len() == 38 {
        Seq::new(32, |k: int| s[1 + digit_index(k)])
    } else {
        Seq::new(32, |k: int| s[9 + digit_index(k)])
    }
}

/// `v` is the value that the UUID text `s` denotes: each hex digit of `v` is
/// the value of the digit of `s` with the same number.
pub open spec fn denotes(s: Seq<char>, v: u128) -> bool {
    forall|k: int| 0 <= k < 32 ==> #[trigger] nibble(v, k) == hex_digit_value(hex_digits(s)[k])
}

/// A character with `A-Z` mapped to `a-z` and every other character unchanged.
pub open spec fn lower_char(c: char) -> char {
    if 'A' <= c && c <= 'Z' {
        ((c as u8) + 32) as char
    } else {
        c
    }
}

/// The canonical text with the digits of the UUID text `s`, in lower case.
pub open spec fn normalized(s: Seq<char>) -> Seq<u8> {
    Seq::new(
        36,
        |i: int|
            if is_hyphen_index(i) {
                HYPHEN
            } else {
                lower_char(hex_digits(s)[digit_number(i)]) as u8
            },
    )
}

/// Maps `A-Z` to `a-z` and leaves every other byte as it is.
pub fn to_ascii_lower(b: u8) -> (r: u8)
    ensures
        r == ascii_lower(b),
{
    if 65 <= b && b <= 90 {
        b + 32
    } else {
        b
    }
}

} // verus!
