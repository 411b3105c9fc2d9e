//! Hex-address and decimal-integer string handling.
//!
//! Deposit rows carry 20-byte addresses as `0x`-prefixed hex strings and
//! 256-bit amounts and nonces as decimal strings. The spec functions here say
//! exactly which strings are well formed and what they denote; the encoding
//! and parsing themselves are done by the `hex` and `ethers-core` crates
//! behind the trusted wrappers at the bottom of the file.

use vstd::prelude::*;
use vstd::string::StringExecFns;
use core::str::FromStr;

verus! {

/// The sixteen lower-case hex digits, in value order.
pub open spec fn hex_digit_table() -> Seq<char> {
    seq!['0', '1', '2', '3', '4', '5', '6', '7', '8', '9', 'a', 'b', 'c', 'd', 'e', 'f']
}

/// Lower-case hex digit for a nibble value.
pub open spec fn hex_char(n: int) -> char
    recommends
        0 <= n < 16,
{
    hex_digit_table()[n]
}

/// Lower-case hex rendering of a byte string, high nibble of each byte first.
pub open spec fn hex_of(bs: Seq<u8>) -> Seq<char>
    decreases bs.len(),
{
    if bs.len() == 0 {
        Seq::empty()
    } else {
        seq![hex_char(bs[0] as int / 16), hex_char(bs[0] as int % 16)] + hex_of(bs.drop_first())
    }
}

pub open spec fn is_hex_digit(c: char) -> bool {
    ('0' <= c && c <= '9') || ('a' <= c && c <= 'f') || ('A' <= c && c <= 'F')
}

/// Value of a hex digit, upper or lower case.
pub open spec fn hex_val(c: char) -> int
    recommends
        is_hex_digit(c),
{
    if '0' <= c && c <= '9' {
        c as int - '0' as int
    } else if 'a' <= c && c <= 'f' {
        c as int - 'a' as int + 10
    } else {
        c as int - 'A' as int + 10
    }
}

/// An optional leading `0x` is not part of the hex payload.
pub open spec fn strip_hex_prefix(s: Seq<char>) -> Seq<char> {
    if s.len() >= 2 && s[0] == '0' && s[1] == 'x' {
        s.subrange(2, s.len() as int)
    } else {
        s
    }
}

/// The address parser skips these characters anywhere in the payload.
pub open spec fn is_hex_whitespace(c: char) -> bool {
    c == ' ' || c == '\r' || c == '\n' || c == '\t'
}

/// The digits the address parser actually consumes: the string after the
/// optional `0x` prefix, with whitespace dropped.
pub open spec fn hex_payload(s: Seq<char>) -> Seq<char> {
    strip_hex_prefix(s).filter(|c: char| !is_hex_whitespace(c))
}

/// A string that parses as a 20-byte address.
pub open spec fn addr_str_ok(s: Seq<char>) -> bool {
    &&& hex_payload(s).len() == 40
    &&& forall|i: int| 0 <= i < 40 ==> is_hex_digit(#[trigger] hex_payload(s)[i])
}

/// Bytes denoted by a sequence of hex digit pairs.
pub open spec fn decode_hex_pairs(t: Seq<char>) -> Seq<u8>
    decreases t.len(),
{
    if t.len() < 2 {
        Seq::empty()
    } else {
        seq![(hex_val(t[0]) * 16 + hex_val(t[1])) as u8] + decode_hex_pairs(
            t.subrange(2, t.len() as int),
        )
    }
}

/// The 20 bytes an address string denotes.
pub open spec fn addr_bytes_of(s: Seq<char>) -> Seq<u8>
    recommends
        addr_str_ok(s),
{
    decode_hex_pairs(hex_payload(s))
}

pub open spec fn is_dec_digit(c: char) -> bool {
    '0' <= c && c <= '9'
}

pub open spec fn all_dec_digits(s: Seq<char>) -> bool {
    forall|i: int| 0 <= i < s.len() ==> is_dec_digit(#[trigger] s[i])
}

/// Value of a decimal digit string, most significant digit first.
pub open spec fn dec_value(s: Seq<char>) -> int
    recommends
        all_dec_digits(s),
    decreases s.len(),
{
    if s.len() == 0 {
        0
    } else {
        dec_value(s.drop_last()) * 10 + (s.last() as int - '0' as int)
    }
}

/// 2^256, the first value a `uint256` cannot hold.
pub open spec fn u256_bound() -> int {
    vstd::arithmetic::power2::pow2(256) as int
}

/// A string the 256-bit decimal parser accepts: digits only (the empty
/// string denotes zero) and a value below 2^256.
pub open spec fn dec_u256_ok(s: Seq<char>) -> bool {
    all_dec_digits(s) && dec_value(s) < u256_bound()
}

/// Relies on `hex::encode`: each byte becomes two lower-case hex digits,
/// high nibble first.
#[verifier::external_body]
pub(crate) fn encode_hex(b: &Vec<u8>) -> (r: String)
    ensures
        r@ == hex_of(b@),
{
    hex::encode(b.as_slice())
}

/// Relies on the `FromStr` impl of `ethers_core::types::H160` (fixed-hash
/// over rustc-hex): an optional `0x` prefix is stripped, ASCII whitespace is
/// skipped, and exactly 40 hex digits must remain, which give the 20 bytes
/// in order.
#[verifier::external_body]
pub(crate) fn parse_address(s: &String) -> (r: Option<Vec<u8>>)
    ensures
        r is Some <==> addr_str_ok(s@),
        r matches Some(b) ==> b@ == addr_bytes_of(s@) && b@.len() == 20,
{
    match ethers_core::types::H160::from_str(s) {
        Ok(h) => Some(h.as_bytes().to_vec()),
        Err(_) => None,
    }
}

/// Relies on `ethers_core::types::U256::from_dec_str` (the uint crate): it
/// succeeds exactly when every character is a decimal digit and the value is
/// below 2^256; the empty string parses as zero.
#[verifier::external_body]
pub(crate) fn is_dec_u256(s: &String) -> (r: bool)
    ensures
        r == dec_u256_ok(s@),
{
    ethers_core::types::U256::from_dec_str(s).is_ok()
}

/// Relies on `uuid::Uuid::new_v4` and its `Display` impl: a random
/// version-4 UUID rendered in the 36-character hyphenated form.
#[verifier::external_body]
pub(crate) fn fresh_deposit_id() -> (r: String)
    ensures
        r@.len() == 36,
{
    uuid::Uuid::new_v4().to_string()
}

/// `0x`-prefixed lower-case hex rendering of a byte string; deposit rows
/// store addresses in this form.
pub fn format_address(b: &Vec<u8>) -> (r: String)
    ensures
        r@ == seq!['0', 'x'] + hex_of(b@),
{
    let mut s: String = "0x".to_owned();
    proof {
        reveal_strlit("0x");
        assert(s@ =~= seq!['0', 'x']);
    }
    let digits = encode_hex(b);
    s.append(digits.as_str());
    s
}

/// Byte-string equality.
pub(crate) fn bytes_eq(a: &Vec<u8>, b: &Vec<u8>) -> (r: bool)
    ensures
        r == (a@ == b@),
{
    if a.len() != b.len() {
        return false;
    }
    let mut i: usize = 0;
    while i < a.len()
        invariant
            0 <= i <= a@.len(),
            a@.len() == b@.len(),
            forall|j: int| 0 <= j < i ==> a@[j] == b@[j],
        decreases a@.len() - i,
    {
        if a[i] != b[i] {
            return false;
        }
        i = i + 1;
    }
    proof {
        assert(a@ =~= b@);
    }
    true
}

} // verus!
