//! Hexadecimal decoding of request parameters and configuration values.

use vstd::prelude::*;

verus! {

/// A hexadecimal digit, either case.
pub open spec fn is_hex_char(c: char) -> bool {
    ('0' <= c && c <= '9') || ('a' <= c && c <= 'f') || ('A' <= c && c <= 'F')
}

/// The value of one hexadecimal digit.
pub open spec fn hex_char_val(c: char) -> u8 {
    if '0' <= c && c <= '9' {
        (c as u8 - '0' as u8) as u8
    } else if 'a' <= c && c <= 'f' {
        (c as u8 - 'a' as u8 + 10) as u8
    } else {
        (c as u8 - 'A' as u8 + 10) as u8
    }
}

/// A decodable string: an even number of hexadecimal digits.
pub open spec fn is_hex_str(s: Seq<char>) -> bool {
    s.len() % 2 == 0 && forall|i: int| 0 <= i < s.len() ==> is_hex_char(#[trigger] s[i])
}

/// The bytes a string of hexadecimal digits decodes to, two digits per
/// byte.
pub open spec fn hex_decoded(s: Seq<char>) -> Seq<u8>
    decreases s.len(),
{
    if s.len() < 2 {
        Seq::empty()
    } else {
        seq![(hex_char_val(s[0]) * 16 + hex_char_val(s[1])) as u8].add(hex_decoded(s.skip(2)))
    }
}

/// The errors of the hexadecimal decoder.
#[verifier::external_type_specification]
#[verifier::external_body]
pub struct ExFromHexError(hex::FromHexError);

/// Relies on hex::decode: succeeds exactly on an even number of
/// hexadecimal digits (either case), yielding one byte per digit pair.
#[verifier::external_body]
fn hex_decode_raw(s: &str) -> (r: Result<Vec<u8>, hex::FromHexError>)
    ensures
        r is Ok <==> is_hex_str(s@),
        r is Ok ==> r->Ok_0@ == hex_decoded(s@),
{
    hex::decode(s)
}

/// Decodes a hexadecimal string, or reports that it is not one.
pub fn hex_decode(s: &str) -> (r: Result<Vec<u8>, crate::types::Error>)
    ensures
        r is Ok <==> is_hex_str(s@),
        r is Ok ==> r->Ok_0@ == hex_decoded(s@),
        !is_hex_str(s@) ==> r == Err::<Vec<u8>, crate::types::Error>(crate::types::Error::InvalidHex),
{
    match hex_decode_raw(s) {
        Ok(bytes) => Ok(bytes),
        Err(_) => Err(crate::types::Error::InvalidHex),
    }
}

} // verus!
