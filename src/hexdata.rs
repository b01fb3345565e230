//! Hex decoding of the auxiliary transaction data.
use vstd::prelude::*;
use crate::error::ClientError;

verus! {

/// hex's decoding error, carried through unopened.
#[verifier::external_type_specification]
#[verifier::external_body]
pub struct ExFromHexError(hex::FromHexError);

/// A hex digit, lower or upper case.
pub open spec fn is_hex_digit(c: char) -> bool {
    ('0' <= c && c <= '9') || ('a' <= c && c <= 'f') || ('A' <= c && c <= 'F')
}

/// Value of a hex digit.
pub open spec fn hex_value(c: char) -> nat {
    if '0' <= c && c <= '9' {
        (c as nat - '0' as nat) as nat
    } else if 'a' <= c && c <= 'f' {
        (c as nat - 'a' as nat + 10) as nat
    } else {
        (c as nat - 'A' as nat + 10) as nat
    }
}

/// An even number of hex digits.
pub open spec fn is_hex(s: Seq<char>) -> bool {
    s.len() % 2 == 0 && forall|i: int| 0 <= i < s.len() ==> is_hex_digit(#[trigger] s[i])
}

/// The bytes that a hex string denotes, two digits per byte, high digit first.
pub open spec fn hex_bytes(s: Seq<char>) -> Seq<u8> {
    Seq::new(
        s.len() / 2,
        |i: int| (hex_value(s[2 * i]) * 16 + hex_value(s[2 * i + 1])) as u8,
    )
}

/// Relies on hex::decode: it fails exactly on an odd length or a byte outside
/// `0-9a-fA-F`, and otherwise turns each pair of digits into one byte.
#[verifier::external_body]
fn hex_decode(s: &str) -> (r: Result<Vec<u8>, hex::FromHexError>)
    ensures
        r is Ok <==> is_hex(s@),
        r matches Ok(b) ==> b@ == hex_bytes(s@),
{
    hex::decode(s)
}

/// Decodes the optional hex form of the auxiliary data. Absent data stays
/// absent; present data must be valid hex.
pub fn decode_data(data_hex: Option<&str>) -> (r: Result<Option<Vec<u8>>, ClientError>)
    ensures
        match data_hex {
            None => r matches Ok(None),
            Some(h) => if is_hex(h@) {
                r matches Ok(Some(b)) && b@ == hex_bytes(h@)
            } else {
                r matches Err(ClientError::InvalidHex)
            },
        },
{
    match data_hex {
        None => Ok(None),
        Some(h) => match hex_decode(h) {
            Ok(b) => Ok(Some(b)),
            Err(_) => Err(ClientError::InvalidHex),
        },
    }
}

} // verus!
