//! Fixture text: hexadecimal byte strings, account addresses, and the hash of
//! contract code. The decoding itself is done by the `hex`, `primitive-types`
//! and `revm` crates; this module states what they return.

use crate::error::ConfigError;
use std::str::FromStr;
use vstd::prelude::*;

verus! {

/// Whether `c` is one of `0-9`, `a-f`, `A-F`.
pub open spec fn is_hex_digit(c: char) -> bool {
    ('0' <= c && c <= '9') || ('a' <= c && c <= 'f') || ('A' <= c && c <= 'F')
}

/// The number that the hexadecimal digit `c` stands for.
pub open spec fn hex_digit_value(c: char) -> int {
    if '0' <= c && c <= '9' {
        c as int - '0' as int
    } else if 'a' <= c && c <= 'f' {
        c as int - 'a' as int + 10
    } else {
        c as int - 'A' as int + 10
    }
}

/// Whether every character of `s` is a hexadecimal digit.
pub open spec fn all_hex_digits(s: Seq<char>) -> bool {
    forall|i: int| 0 <= i < s.len() ==> is_hex_digit(#[trigger] s[i])
}

/// Whether `s` is an even number of hexadecimal digits and nothing else.
pub open spec fn is_hex_text(s: Seq<char>) -> bool {
    s.len() % 2 == 0 && all_hex_digits(s)
}

/// The bytes that the digits of `s` stand for, two digits to a byte, the high
/// digit first.
pub open spec fn hex_bytes(s: Seq<char>) -> Seq<u8> {
    Seq::new(
        s.len() / 2,
        |i: int| (16 * hex_digit_value(s[2 * i]) + hex_digit_value(s[2 * i + 1])) as u8,
    )
}

/// Whether `c` is a space, a carriage return, a line feed or a tab.
pub open spec fn is_blank(c: char) -> bool {
    c == ' ' || c == '\r' || c == '\n' || c == '\t'
}

/// `s` without a leading `0x`.
pub open spec fn without_prefix(s: Seq<char>) -> Seq<char> {
    if s.len() >= 2 && s[0] == '0' && s[1] == 'x' {
        s.subrange(2, s.len() as int)
    } else {
        s
    }
}

/// The characters of an address text that count: those after a leading `0x`
/// that are not blank.
pub open spec fn address_digits(s: Seq<char>) -> Seq<char> {
    without_prefix(s).filter(|c: char| !is_blank(c))
}

/// Whether `s` is the text of a 20-byte address: forty hexadecimal digits,
/// after an optional `0x` and with blanks anywhere among them.
pub open spec fn is_address_text(s: Seq<char>) -> bool {
    address_digits(s).len() == 40 && all_hex_digits(address_digits(s))
}

/// The Keccak-256 digest of `bytes`, as the `revm` crate computes it.
pub uninterp spec fn keccak256_of(bytes: Seq<u8>) -> Seq<u8>;

/// The error of `hex::decode`, of which nothing is known here.
#[verifier::external_type_specification]
#[verifier::external_body]
pub struct ExFromHexError(hex::FromHexError);

/// `hex::decode` on a string. Claimed, not proved: it succeeds exactly on an
/// even number of hexadecimal digits of either case, and then returns the byte
/// that each pair of digits stands for, high digit first.
#[verifier::external_body]
pub(crate) fn hex_decode(text: &str) -> (r: Result<Vec<u8>, hex::FromHexError>)
    ensures
        r is Ok <==> is_hex_text(text@),
        r matches Ok(bytes) ==> bytes@ == hex_bytes(text@),
{
    hex::decode(text)
}

/// `primitive_types::H160::from_str`. Claimed, not proved: it drops one leading
/// `0x`, skips blanks, succeeds exactly when forty hexadecimal digits are left,
/// and then returns the twenty bytes that they stand for, first byte first.
#[verifier::external_body]
pub(crate) fn h160_from_str(text: &str) -> (r: Option<[u8; 20]>)
    ensures
        r is Some <==> is_address_text(text@),
        r matches Some(bytes) ==> bytes@ == hex_bytes(address_digits(text@)),
{
    match primitive_types::H160::from_str(text) {
        Ok(hash) => Some(hash.0),
        Err(_) => None,
    }
}

/// `revm::primitives::keccak256`. Claimed, not proved: the digest depends on
/// the bytes alone.
#[verifier::external_body]
pub(crate) fn keccak256(bytes: &Vec<u8>) -> (digest: [u8; 32])
    ensures
        digest@ == keccak256_of(bytes@),
{
    revm::primitives::keccak256(bytes).0
}

/// Decodes a byte string from an even number of hexadecimal digits.
pub fn decode_hex(text: &str) -> (r: Result<Vec<u8>, ConfigError>)
    ensures
        r is Ok <==> is_hex_text(text@),
        r matches Ok(bytes) ==> bytes@ == hex_bytes(text@),
        r matches Err(e) ==> e == ConfigError::InvalidHex,
{
    match hex_decode(text) {
        Ok(bytes) => Ok(bytes),
        Err(_) => Err(ConfigError::InvalidHex),
    }
}

} // verus!
