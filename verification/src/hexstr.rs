//! Hexadecimal text for short byte strings, as the `hex` crate writes and
//! reads it.

use vstd::prelude::*;

verus! {

/// `hex::FromHexError`: why a text could not be read. It is only told apart
/// from success; the kind of error is not looked at.
#[verifier::external_type_specification]
#[verifier::external_body]
pub struct ExFromHexError(hex::FromHexError);

/// The upper-case digit of a value below sixteen.
pub open spec fn upper_digit(n: u8) -> char {
    if n < 10 {
        (n + 0x30) as char
    } else {
        (n - 10 + 0x41) as char
    }
}

/// The value of a hexadecimal digit, in either case.
pub open spec fn digit_value(c: char) -> Option<u8> {
    if '0' <= c <= '9' {
        Some((c as u8 - 0x30) as u8)
    } else if 'A' <= c <= 'F' {
        Some((c as u8 - 0x41 + 10) as u8)
    } else if 'a' <= c <= 'f' {
        Some((c as u8 - 0x61 + 10) as u8)
    } else {
        None
    }
}

/// Whether a digit is one that [`upper_digit`] produces.
pub open spec fn is_upper_digit(c: char) -> bool {
    '0' <= c <= '9' || 'A' <= c <= 'F'
}

/// Whether a text holds hexadecimal digits only.
pub open spec fn is_hex(s: Seq<char>) -> bool {
    forall|i: int| 0 <= i < s.len() ==> (#[trigger] digit_value(s[i])) is Some
}

/// Whether a text holds upper-case hexadecimal digits only.
pub open spec fn is_upper_hex(s: Seq<char>) -> bool {
    forall|i: int| 0 <= i < s.len() ==> #[trigger] is_upper_digit(s[i])
}

/// Two upper-case digits per byte, the high half first.
pub open spec fn upper_hex(bytes: Seq<u8>) -> Seq<char> {
    Seq::new(
        2 * bytes.len(),
        |i: int|
            if i % 2 == 0 {
                upper_digit(bytes[i / 2] / 16)
            } else {
                upper_digit(bytes[i / 2] % 16)
            },
    )
}

/// The bytes that a text of hexadecimal digits spells, two digits per byte.
pub open spec fn hex_bytes(s: Seq<char>) -> Seq<u8> {
    Seq::new(
        s.len() / 2,
        |i: int| (digit_value(s[2 * i]).unwrap() * 16 + digit_value(s[2 * i + 1]).unwrap()) as u8,
    )
}

/// `hex::encode_upper` on a byte slice: the text has two digits for each
/// byte, taken from `0123456789ABCDEF` by the byte's high and low half, in
/// that order.
#[verifier::external_body]
pub(crate) fn encode_upper(bytes: &[u8]) -> (s: String)
    ensures
        s@ == upper_hex(bytes@),
{
    hex::encode_upper(bytes)
}

/// `hex::FromHex::from_hex` for a three-byte array. It succeeds exactly on
/// six hexadecimal digits, of either case, and then gives the three bytes
/// that they spell; an odd length, another length, or any other character
/// is an error.
#[verifier::external_body]
pub(crate) fn decode_triple(s: &str) -> (r: Result<[u8; 3], hex::FromHexError>)
    ensures
        r.is_ok() == (s@.len() == 6 && is_hex(s@)),
        r matches Ok(bytes) ==> bytes@ == hex_bytes(s@),
{
    <[u8; 3] as hex::FromHex>::from_hex(s)
}

/// A digit that was written for a value reads as that value.
pub proof fn lemma_digit_round_trip(n: u8)
    requires
        n < 16,
    ensures
        digit_value(upper_digit(n)) == Some(n),
        is_upper_digit(upper_digit(n)),
{
}

/// An upper-case digit is written again as itself.
pub proof fn lemma_upper_digit_canonical(c: char)
    requires
        is_upper_digit(c),
    ensures
        digit_value(c) matches Some(n) && n < 16 && upper_digit(n) == c,
{
}

/// Text written for some bytes is upper-case hexadecimal and reads as those
/// bytes.
pub proof fn lemma_hex_round_trip(bytes: Seq<u8>)
    ensures
        upper_hex(bytes).len() == 2 * bytes.len(),
        is_upper_hex(upper_hex(bytes)),
        is_hex(upper_hex(bytes)),
        hex_bytes(upper_hex(bytes)) == bytes,
{
    let s = upper_hex(bytes);
    assert forall|i: int| 0 <= i < s.len() implies (#[trigger] digit_value(s[i])) is Some
        && is_upper_digit(s[i]) by {
        lemma_digit_round_trip(bytes[i / 2] / 16);
        lemma_digit_round_trip(bytes[i / 2] % 16);
    }
    assert forall|k: int| 0 <= k < bytes.len() implies hex_bytes(s)[k] == bytes[k] by {
        lemma_digit_round_trip(bytes[k] / 16);
        lemma_digit_round_trip(bytes[k] % 16);
        assert(s[2 * k] == upper_digit(bytes[k] / 16));
        assert(s[2 * k + 1] == upper_digit(bytes[k] % 16));
    }
    assert(hex_bytes(s) =~= bytes);
}

/// Upper-case text of even length is what its own bytes are written as.
pub proof fn lemma_upper_hex_canonical(s: Seq<char>)
    requires
        s.len() % 2 == 0,
        is_upper_hex(s),
    ensures
        is_hex(s),
        upper_hex(hex_bytes(s)) == s,
{
    assert forall|i: int| 0 <= i < s.len() implies (#[trigger] digit_value(s[i])) is Some by {
        assert(is_upper_digit(s[i]));
    }
    let b = hex_bytes(s);
    assert forall|i: int| 0 <= i < s.len() implies upper_hex(b)[i] == s[i] by {
        let k = i / 2;
        assert(is_upper_digit(s[2 * k]));
        assert(is_upper_digit(s[2 * k + 1]));
        lemma_upper_digit_canonical(s[2 * k]);
        lemma_upper_digit_canonical(s[2 * k + 1]);
    }
    assert(upper_hex(b) =~= s);
}

} // verus!
