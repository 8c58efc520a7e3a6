//! The UUID string itself.

use crate::codec::{ascii_str, describe, parse_value, random_v4_value, render_hyphenated};
use crate::error::ParseError;
use crate::laws::{
    lemma_canonical_bytes_read_back, lemma_canonical_is_lower, lemma_canonical_text_is_canonical,
    lemma_text_of_denoted_value,
};
use crate::text::{
    ascii_lower, canonical_text, chars_of, is_canonical, is_canonical_string, is_uuid_text,
    nil_text, normalized, to_ascii_lower,
};
use vstd::prelude::*;
use vstd::std_specs::cmp::PartialEqSpec;

verus! {

/// The canonical text of a UUID in 36 bytes of inline storage.
///
/// Every value holds a canonical text, from the moment it is made: there is
/// no way to change the bytes of an existing value.
#[derive(Debug, Clone, Copy, Hash)]
pub struct UuidStr {
    bytes: [u8; 36],
}

impl View for UuidStr {
    type V = Seq<u8>;

    /// The 36 bytes of the text.
    closed spec fn view(&self) -> Seq<u8> {
        self.bytes@
    }
}

impl UuidStr {
    #[verifier::type_invariant]
    spec fn holds_canonical_text(self) -> bool {
        is_canonical(self.bytes@)
    }

    /// The nil UUID, `00000000-0000-0000-0000-000000000000`.
    pub fn new() -> (r: UuidStr)
        ensures
            r@ == nil_text(),
    {
        let bytes: [u8; 36] = [
            48, 48, 48, 48, 48, 48, 48, 48, 45,
            48, 48, 48, 48, 45,
            48, 48, 48, 48, 45,
            48, 48, 48, 48, 45,
            48, 48, 48, 48, 48, 48, 48, 48, 48, 48, 48, 48,
        ];
        assert(bytes@ =~= nil_text());
        UuidStr { bytes }
    }

    /// The canonical text of a 128-bit UUID value.
    ///
    /// The formatter's output is lowered byte by byte on its way into the
    /// buffer, so the stored text is lower case whatever came back.
    pub fn from_u128(value: u128) -> (r: UuidStr)
        ensures
            r@ == canonical_text(value),
    {
        let text = render_hyphenated(value);
        proof {
            lemma_canonical_text_is_canonical(value);
            lemma_canonical_is_lower(text@);
        }
        let mut bytes: [u8; 36] = [0u8; 36];
        let mut i: usize = 0;
        while i < 36
            invariant
                i <= 36,
                text@ == canonical_text(value),
                forall|j: int| 0 <= j < 36 ==> ascii_lower(#[trigger] text@[j]) == text@[j],
                forall|j: int| 0 <= j < i ==> bytes@[j] == text@[j],
            decreases 36 - i,
        {
            bytes[i] = to_ascii_lower(text[i]);
            i += 1;
        }
        assert(bytes@ =~= canonical_text(value));
        UuidStr { bytes }
    }

    /// A fresh random UUID of version 4.
    ///
    /// The digits come from the random source of the process, so a contract
    /// can fix only the version digit and bound the variant digit.
    pub fn new_v4() -> (r: UuidStr)
        ensures
            is_canonical(r@),
            r@[14] == 52,
            r@[19] == 56 || r@[19] == 57 || r@[19] == 97 || r@[19] == 98,
    {
        let value = random_v4_value();
        proof {
            lemma_canonical_text_is_canonical(value);
        }
        UuidStr::from_u128(value)
    }

    /// Reads a UUID from text and keeps its canonical form.
    ///
    /// The simple, hyphenated, braced and URN forms are read, with hex digits
    /// of either case; the result holds the same digits in lower case. Any
    /// other text is refused, and the error carries the text.
    pub fn parse(s: &str) -> (r: Result<UuidStr, ParseError>)
        ensures
            r is Ok <==> is_uuid_text(s@),
            r is Ok ==> r->Ok_0@ == normalized(s@),
            r is Err ==> r->Err_0.input@ == s@,
    {
        match parse_value(s) {
            Ok(value) => {
                proof {
                    lemma_text_of_denoted_value(s@, value);
                }
                Ok(UuidStr::from_u128(value))
            },
            Err(e) => Err(ParseError { input: s.to_owned(), reason: describe(&e) }),
        }
    }

    /// The text as a string slice, borrowed from this value.
    pub fn as_str(&self) -> (r: &str)
        ensures
            r@ == chars_of(self@),
            is_canonical_string(r@),
    {
        proof {
            use_type_invariant(self);
            lemma_canonical_bytes_read_back(self.bytes@);
        }
        ascii_str(self.bytes.as_slice())
    }

    /// The text as a byte slice, borrowed from this value.
    pub fn as_bytes(&self) -> (r: &[u8])
        ensures
            r@ == self@,
            is_canonical(r@),
    {
        proof {
            use_type_invariant(self);
        }
        self.bytes.as_slice()
    }

    /// The text as an owned string: what displaying the value writes.
    pub fn to_string(&self) -> (r: String)
        ensures
            r@ == chars_of(self@),
            is_canonical_string(r@),
    {
        self.as_str().to_owned()
    }

    /// The 36 bytes, by value.
    pub fn bytes(&self) -> (r: [u8; 36])
        ensures
            r@ == self@,
            is_canonical(r@),
    {
        proof {
            use_type_invariant(self);
        }
        self.bytes
    }
}

impl Default for UuidStr {
    /// The nil UUID.
    fn default() -> (r: UuidStr)
        ensures
            r@ == nil_text(),
    {
        UuidStr::new()
    }
}

impl PartialEq for UuidStr {
    /// Compares the two texts byte by byte.
    fn eq(&self, other: &Self) -> (r: bool) {
        let mut i: usize = 0;
        while i < 36
            invariant
                i <= 36,
                forall|j: int| 0 <= j < i ==> self.bytes@[j] == other.bytes@[j],
            decreases 36 - i,
        {
            if self.bytes[i] != other.bytes[i] {
                return false;
            }
            i += 1;
        }
        assert(self.bytes@ =~= other.bytes@);
        true
    }
}

impl vstd::std_specs::cmp::PartialEqSpecImpl for UuidStr {
    open spec fn obeys_eq_spec() -> bool {
        true
    }

    open spec fn eq_spec(&self, other: &Self) -> bool {
        self@ == other@
    }
}

impl Eq for UuidStr {

}

/// The characters of a string slice: `s@`, with its type written out for the
/// contracts of `AsRef`.
pub open spec fn str_view(s: &str) -> Seq<char> {
    s@
}

/// The bytes of a byte slice: `s@`, with its type written out for the
/// contracts of `AsRef`.
pub open spec fn slice_view(s: &[u8]) -> Seq<u8> {
    s@
}

impl std::ops::Deref for UuidStr {
    type Target = str;

    /// The text, as `as_str` gives it.
    fn deref(&self) -> (r: &str)
        ensures
            r@ == chars_of(self@),
            is_canonical_string(r@),
    {
        self.as_str()
    }
}

impl AsRef<str> for UuidStr {
    /// The text, as `as_str` gives it.
    fn as_ref(&self) -> (r: &str)
        ensures
            str_view(r) == chars_of(self@),
            is_canonical_string(str_view(r)),
    {
        self.as_str()
    }
}

impl AsRef<[u8]> for UuidStr {
    /// The bytes, as `as_bytes` gives them.
    fn as_ref(&self) -> (r: &[u8])
        ensures
            slice_view(r) == self@,
            is_canonical(slice_view(r)),
    {
        self.as_bytes()
    }
}

impl std::str::FromStr for UuidStr {
    type Err = ParseError;

    /// Reads a UUID from text, as `parse` does.
    fn from_str(s: &str) -> (r: Result<UuidStr, ParseError>)
        ensures
            r is Ok <==> is_uuid_text(s@),
            r is Ok ==> r->Ok_0@ == normalized(s@),
            r is Err ==> r->Err_0.input@ == s@,
    {
        UuidStr::parse(s)
    }
}

impl TryFrom<&str> for UuidStr {
    type Error = ParseError;

    /// Reads a UUID from text, as `parse` does.
    fn try_from(s: &str) -> (r: Result<UuidStr, ParseError>)
        ensures
            r is Ok <==> is_uuid_text(s@),
            r is Ok ==> r->Ok_0@ == normalized(s@),
            r is Err ==> r->Err_0.input@ == s@,
    {
        UuidStr::parse(s)
    }
}

/// The wording of an error is the parser's own, so no spec function gives
/// the whole result of the conversion: what is known of it is the contract
/// of `try_from`.
impl vstd::std_specs::convert::TryFromSpecImpl<&str> for UuidStr {
    open spec fn obeys_try_from_spec() -> bool {
        false
    }

    open spec fn try_from_spec(s: &str) -> Result<UuidStr, ParseError> {
        arbitrary()
    }
}

impl TryFrom<String> for UuidStr {
    type Error = ParseError;

    /// Reads a UUID from text, as `parse` does.
    fn try_from(s: String) -> (r: Result<UuidStr, ParseError>)
        ensures
            r is Ok <==> is_uuid_text(s@),
            r is Ok ==> r->Ok_0@ == normalized(s@),
            r is Err ==> r->Err_0.input@ == s@,
    {
        UuidStr::parse(s.as_str())
    }
}

/// As for `&str`: the contract of `try_from` says what is known.
impl vstd::std_specs::convert::TryFromSpecImpl<String> for UuidStr {
    open spec fn obeys_try_from_spec() -> bool {
        false
    }

    open spec fn try_from_spec(s: String) -> Result<UuidStr, ParseError> {
        arbitrary()
    }
}

/// Two UUID strings are equal exactly when their bytes are the same.
pub proof fn lemma_equal_iff_same_bytes(a: UuidStr, b: UuidStr)
    ensures
        a == b <==> a@ == b@,
{
    if a@ == b@ {
        assert(a.bytes@ =~= b.bytes@);
        assert(a.bytes == b.bytes);
    }
}

/// UUID strings that hold the normal form of one and the same text are
/// equal: reading a text twice gives the same value twice.
pub proof fn lemma_same_text_same_value(s: Seq<char>, a: UuidStr, b: UuidStr)
    requires
        a@ == normalized(s),
        b@ == normalized(s),
    ensures
        a == b,
        a.eq_spec(&b),
{
    lemma_equal_iff_same_bytes(a, b);
}

} // verus!
