//! Hexadecimal helpers: digit predicates, a specification of hex decoding,
//! and the trusted bridge to the `hex` crate's decoder.

use vstd::prelude::*;

verus! {

/// A character that is a hexadecimal digit, upper or lower case.
pub open spec fn is_hex_digit(c: char) -> bool {
    (('0' as u32) <= (c as u32) <= ('9' as u32)) || (('a' as u32) <= (c as u32) <= ('f' as u32))
        || (('A' as u32) <= (c as u32) <= ('F' as u32))
}

/// A character that is a lowercase hexadecimal digit.
pub open spec fn is_lower_hex_digit(c: char) -> bool {
    (('0' as u32) <= (c as u32) <= ('9' as u32)) || (('a' as u32) <= (c as u32) <= ('f' as u32))
}

/// Numeric value of a hexadecimal digit.
pub open spec fn hex_digit_value(c: char) -> u8
    recommends
        is_hex_digit(c),
{
    if ('0' as u32) <= (c as u32) <= ('9' as u32) {
        ((c as u32) - ('0' as u32)) as u8
    } else if ('a' as u32) <= (c as u32) <= ('f' as u32) {
        ((c as u32) - ('a' as u32) + 10) as u8
    } else {
        ((c as u32) - ('A' as u32) + 10) as u8
    }
}

/// Every character of `s` is a hexadecimal digit.
pub open spec fn all_hex_digits(s: Seq<char>) -> bool {
    forall|i: int| 0 <= i < s.len() ==> is_hex_digit(#[trigger] s[i])
}

/// Every character of `s` is a lowercase hexadecimal digit.
pub open spec fn all_lower_hex_digits(s: Seq<char>) -> bool {
    forall|i: int| 0 <= i < s.len() ==> is_lower_hex_digit(#[trigger] s[i])
}

/// A string that hex-decodes successfully: even length, digits only.
pub open spec fn is_decodable_hex(s: Seq<char>) -> bool {
    s.len() % 2 == 0 && all_hex_digits(s)
}

/// The bytes a hexadecimal string decodes to: each pair of digits is one byte,
/// high nibble first.
pub open spec fn hex_decode_spec(s: Seq<char>) -> Seq<u8>
    recommends
        is_decodable_hex(s),
{
    Seq::new((s.len() / 2) as nat, |i: int| add_nibbles(s[2 * i], s[2 * i + 1]))
}

/// One byte from two hexadecimal digits.
pub open spec fn add_nibbles(hi: char, lo: char) -> u8 {
    ((hex_digit_value(hi) * 16 + hex_digit_value(lo)) as u8)
}

/// Whether every character of a string is a hexadecimal digit (either case).
pub fn is_hex(s: &str) -> (r: bool)
    ensures
        r == all_hex_digits(s@),
{
    let n: usize = s.unicode_len();
    let mut i: usize = 0;
    while i < n
        invariant
            0 <= i <= n,
            n == s@.len(),
            forall|j: int| 0 <= j < i ==> is_hex_digit(#[trigger] s@[j]),
        decreases n - i,
    {
        let c = s.get_char(i);
        let u = c as u32;
        let digit = (48u32 <= u && u <= 57u32) || (97u32 <= u && u <= 102u32) || (65u32 <= u && u
            <= 70u32);
        if !digit {
            return false;
        }
        i = i + 1;
    }
    true
}

/// Whether every character of a string is a lowercase hexadecimal digit.
pub fn is_lower_hex(s: &str) -> (r: bool)
    ensures
        r == all_lower_hex_digits(s@),
{
    let n: usize = s.unicode_len();
    let mut i: usize = 0;
    while i < n
        invariant
            0 <= i <= n,
            n == s@.len(),
            forall|j: int| 0 <= j < i ==> is_lower_hex_digit(#[trigger] s@[j]),
        decreases n - i,
    {
        let c = s.get_char(i);
        let u = c as u32;
        let digit = (48u32 <= u && u <= 57u32) || (97u32 <= u && u <= 102u32);
        if !digit {
            return false;
        }
        i = i + 1;
    }
    true
}

/// A lowercase hex string is a hex string.
pub proof fn lemma_lower_hex_is_hex(s: Seq<char>)
    requires
        all_lower_hex_digits(s),
    ensures
        all_hex_digits(s),
{
    assert forall|i: int| 0 <= i < s.len() implies is_hex_digit(#[trigger] s[i]) by {
        assert(is_lower_hex_digit(s[i]));
    }
}

/// Relies on `hex::decode`: pairs of hexadecimal digits become bytes, high
/// nibble first; decoding fails exactly on odd length or a non-hex character.
#[verifier::external_body]
pub(crate) fn hex_decode(s: &str) -> (r: Option<Vec<u8>>)
    ensures
        r is Some <==> is_decodable_hex(s@),
        r is Some ==> r->Some_0@ == hex_decode_spec(s@),
{
    hex::decode(s).ok()
}

} // verus!
