//! What holds of the grammar and of the normal form, proved once for every
//! text and every value.

use crate::text::{
    ascii_lower, canonical_text, chars_of, denotes, digit_index, digit_number, hex_digit_value,
    hex_digits, is_canonical, is_canonical_string, is_hex_digit, is_hyphen_index, is_hyphenated,
    is_lower_hex_byte, is_lower_hex_digit, is_uuid_text, lower_char, lower_hex_byte, nibble,
    nil_text, normalized, HYPHEN,
};
use vstd::arithmetic::div_mod::{lemma_basic_div, lemma_div_denominator, lemma_fundamental_div_mod};
use vstd::arithmetic::power::{lemma_pow0, lemma_pow_positive, pow};
use vstd::prelude::*;

verus! {

/// Lowering the case changes nothing in a canonical text.
pub proof fn lemma_canonical_is_lower(t: Seq<u8>)
    requires
        is_canonical(t),
    ensures
        forall|i: int| 0 <= i < 36 ==> ascii_lower(#[trigger] t[i]) == t[i],
{
    assert forall|i: int| 0 <= i < 36 implies ascii_lower(#[trigger] t[i]) == t[i] by {
        if is_hyphen_index(i) {
            assert(t[i] == HYPHEN);
        } else {
            assert(is_lower_hex_byte(t[i]));
        }
    }
}

/// The text of every 128-bit value is canonical.
pub proof fn lemma_canonical_text_is_canonical(v: u128)
    ensures
        is_canonical(canonical_text(v)),
{
    let t = canonical_text(v);
    assert forall|i: int| 0 <= i < 36 implies if is_hyphen_index(i) {
        #[trigger] t[i] == HYPHEN
    } else {
        is_lower_hex_byte(t[i])
    } by {
        if !is_hyphen_index(i) {
            let n = nibble(v, digit_number(i));
            assert(0 <= n < 16);
        }
    }
}

/// Every digit of a UUID text is a hex digit.
pub proof fn lemma_hex_digits_are_hex(s: Seq<char>)
    requires
        is_uuid_text(s),
    ensures
        hex_digits(s).len() == 32,
        forall|k: int| 0 <= k < 32 ==> is_hex_digit(#[trigger] hex_digits(s)[k]),
{
    assert forall|k: int| 0 <= k < 32 implies is_hex_digit(#[trigger] hex_digits(s)[k]) by {
        let i = digit_index(k);
        assert(0 <= i < 36 && !is_hyphen_index(i));
        if s.len() == 32 {
            assert(is_hex_digit(s[k]));
        } else if s.len() == 36 {
            assert(is_hex_digit(s[i]));
        } else if s.len() == 38 {
            assert(s.subrange(1, 37)[i] == s[1 + i]);
        } else {
            assert(s.subrange(9, 45)[i] == s[9 + i]);
        }
    }
}

/// The canonical text of the value that a UUID text denotes is that text's
/// normal form.
pub proof fn lemma_text_of_denoted_value(s: Seq<char>, v: u128)
    requires
        is_uuid_text(s),
        denotes(s, v),
    ensures
        canonical_text(v) == normalized(s),
{
    lemma_hex_digits_are_hex(s);
    assert forall|i: int| 0 <= i < 36 implies canonical_text(v)[i] == normalized(s)[i] by {
        if !is_hyphen_index(i) {
            let k = digit_number(i);
            let c = hex_digits(s)[k];
            assert(0 <= k < 32);
            assert(is_hex_digit(c));
            assert(nibble(v, k) == hex_digit_value(c));
            assert(lower_hex_byte(hex_digit_value(c)) == lower_char(c) as u8);
        }
    }
    assert(canonical_text(v) =~= normalized(s));
}

/// A UUID text has 32, 36, 38 or 45 characters: a text of any other length
/// is none.
pub proof fn lemma_uuid_text_lengths(s: Seq<char>)
    requires
        is_uuid_text(s),
    ensures
        s.len() == 32 || s.len() == 36 || s.len() == 38 || s.len() == 45,
{
}

/// The normal form of a UUID text is canonical.
pub proof fn lemma_normalized_is_canonical(s: Seq<char>)
    requires
        is_uuid_text(s),
    ensures
        is_canonical(normalized(s)),
{
    lemma_hex_digits_are_hex(s);
    let t = normalized(s);
    assert forall|i: int| 0 <= i < 36 implies if is_hyphen_index(i) {
        #[trigger] t[i] == HYPHEN
    } else {
        is_lower_hex_byte(t[i])
    } by {
        if !is_hyphen_index(i) {
            let k = digit_number(i);
            assert(0 <= k < 32);
            assert(is_hex_digit(hex_digits(s)[k]));
        }
    }
}

/// A hyphenated text of either case is a UUID text, and its normal form is
/// the same text in lower case.
pub proof fn lemma_hyphenated_normalizes_to_lower(s: Seq<char>)
    requires
        is_hyphenated(s),
    ensures
        is_uuid_text(s),
        chars_of(normalized(s)) == s.map_values(|c: char| lower_char(c)),
{
    let t = chars_of(normalized(s));
    let l = s.map_values(|c: char| lower_char(c));
    assert forall|i: int| 0 <= i < 36 implies t[i] == l[i] by {
        if is_hyphen_index(i) {
            assert(s[i] == '-');
        } else {
            assert(digit_index(digit_number(i)) == i);
            assert(is_hex_digit(s[i]));
        }
    }
    assert(t =~= l);
}

/// A canonical string is a UUID text, and it is its own normal form.
pub proof fn lemma_canonical_string_is_fixed(s: Seq<char>)
    requires
        is_canonical_string(s),
    ensures
        is_uuid_text(s),
        chars_of(normalized(s)) == s,
{
    assert forall|i: int| 0 <= i < 36 implies if is_hyphen_index(i) {
        #[trigger] s[i] == '-'
    } else {
        is_hex_digit(s[i])
    } by {
        if !is_hyphen_index(i) {
            assert(is_lower_hex_digit(s[i]));
        }
    }
    lemma_hyphenated_normalizes_to_lower(s);
    let l = s.map_values(|c: char| lower_char(c));
    assert forall|i: int| 0 <= i < 36 implies l[i] == s[i] by {
        if is_hyphen_index(i) {
            assert(s[i] == '-');
        } else {
            assert(is_lower_hex_digit(s[i]));
        }
    }
    assert(l =~= s);
}

/// The text that a UUID string holds reads back as the same bytes: canonical
/// bytes, taken as characters, are a UUID text whose normal form is those
/// bytes.
pub proof fn lemma_canonical_bytes_read_back(t: Seq<u8>)
    requires
        is_canonical(t),
    ensures
        is_canonical_string(chars_of(t)),
        is_uuid_text(chars_of(t)),
        normalized(chars_of(t)) == t,
{
    let s = chars_of(t);
    assert forall|i: int| 0 <= i < 36 implies if is_hyphen_index(i) {
        #[trigger] s[i] == '-'
    } else {
        is_lower_hex_digit(s[i])
    } by {
        if is_hyphen_index(i) {
            assert(t[i] == HYPHEN);
        } else {
            assert(is_lower_hex_byte(t[i]));
        }
    }
    lemma_canonical_string_is_fixed(s);
    let n = normalized(s);
    assert forall|i: int| 0 <= i < 36 implies n[i] == t[i] by {
        assert(chars_of(n)[i] == s[i]);
        if is_hyphen_index(i) {
            assert(t[i] == HYPHEN);
        } else {
            assert(is_lower_hex_byte(t[i]));
        }
    }
    assert(n =~= t);
}

/// The nil text reads `00000000-0000-0000-0000-000000000000`.
pub proof fn lemma_nil_text_reads()
    ensures
        is_canonical(nil_text()),
        chars_of(nil_text()) == "00000000-0000-0000-0000-000000000000"@,
{
    reveal_strlit("00000000-0000-0000-0000-000000000000");
    assert(chars_of(nil_text()) =~= "00000000-0000-0000-0000-000000000000"@);
}

/// The number that the first `k` hex digits of `v` write, for `0 <= k <= 32`.
pub open spec fn leading_digits(v: u128, k: int) -> int {
    v as int / pow(16, (32 - k) as nat)
}

/// One more digit: sixteen times what stood before, and the digit.
pub proof fn lemma_leading_digits_step(v: u128, k: int)
    requires
        0 <= k < 32,
    ensures
        leading_digits(v, k + 1) == 16 * leading_digits(v, k) + nibble(v, k),
{
    let p = pow(16, (31 - k) as nat);
    lemma_pow_positive(16, (31 - k) as nat);
    assert(pow(16, (32 - k) as nat) == 16 * p) by {
        reveal(pow);
    }
    assert(p * 16 == 16 * p);
    lemma_div_denominator(v as int, p, 16);
    lemma_fundamental_div_mod(v as int / p, 16);
}

/// Thirty-two hex digits hold 128 bits.
pub proof fn lemma_pow16_32()
    ensures
        pow(16, 32) == 0x1_0000_0000_0000_0000_0000_0000_0000_0000,
{
    reveal_with_fuel(pow, 33);
}

/// Values with the same digits have the same leading digits.
pub proof fn lemma_leading_digits_agree(v: u128, w: u128, k: int)
    requires
        0 <= k <= 32,
        forall|j: int| 0 <= j < 32 ==> nibble(v, j) == nibble(w, j),
    ensures
        leading_digits(v, k) == leading_digits(w, k),
    decreases k,
{
    if k == 0 {
        lemma_pow16_32();
        lemma_basic_div(v as int, pow(16, 32));
        lemma_basic_div(w as int, pow(16, 32));
    } else {
        lemma_leading_digits_agree(v, w, k - 1);
        lemma_leading_digits_step(v, k - 1);
        lemma_leading_digits_step(w, k - 1);
    }
}

/// A 128-bit value is fixed by its 32 hex digits.
pub proof fn lemma_digits_fix_the_value(v: u128, w: u128)
    requires
        forall|j: int| 0 <= j < 32 ==> nibble(v, j) == nibble(w, j),
    ensures
        v == w,
{
    lemma_leading_digits_agree(v, w, 32);
    lemma_pow0(16);
}

/// A UUID text denotes one value only.
pub proof fn lemma_denoted_value_is_unique(s: Seq<char>, v: u128, w: u128)
    requires
        denotes(s, v),
        denotes(s, w),
    ensures
        v == w,
{
    lemma_digits_fix_the_value(v, w);
}

/// Different values have different canonical texts.
pub proof fn lemma_canonical_text_is_injective(v: u128, w: u128)
    requires
        canonical_text(v) == canonical_text(w),
    ensures
        v == w,
{
    assert forall|j: int| 0 <= j < 32 implies nibble(v, j) == nibble(w, j) by {
        let i = digit_index(j);
        assert(digit_number(i) == j && !is_hyphen_index(i));
        assert(canonical_text(v)[i] == lower_hex_byte(nibble(v, j)));
        assert(canonical_text(w)[i] == lower_hex_byte(nibble(w, j)));
        assert(0 <= nibble(v, j) < 16 && 0 <= nibble(w, j) < 16);
    }
    lemma_digits_fix_the_value(v, w);
}

/// The canonical text of a value denotes that value.
pub proof fn lemma_canonical_text_denotes(v: u128)
    ensures
        is_uuid_text(chars_of(canonical_text(v))),
        denotes(chars_of(canonical_text(v)), v),
{
    let t = canonical_text(v);
    let s = chars_of(t);
    lemma_canonical_text_is_canonical(v);
    lemma_canonical_bytes_read_back(t);
    assert forall|k: int| 0 <= k < 32 implies #[trigger] nibble(v, k) == hex_digit_value(
        hex_digits(s)[k],
    ) by {
        let i = digit_index(k);
        assert(digit_number(i) == k && !is_hyphen_index(i));
        assert(0 <= nibble(v, k) < 16);
        assert(t[i] == lower_hex_byte(nibble(v, k)));
        assert(s[i] == t[i] as char);
    }
}

/// The nil text is the canonical text of zero.
pub proof fn lemma_nil_is_zero()
    ensures
        canonical_text(0) == nil_text(),
{
    assert forall|i: int| 0 <= i < 36 implies canonical_text(0)[i] == nil_text()[i] by {
        if !is_hyphen_index(i) {
            let k = digit_number(i);
            lemma_pow_positive(16, (31 - k) as nat);
            lemma_basic_div(0, pow(16, (31 - k) as nat));
        }
    }
    assert(canonical_text(0) =~= nil_text());
}

} // verus!
