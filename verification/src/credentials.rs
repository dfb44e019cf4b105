//! The store's credentials, which arrive as Base64 text.

use base64::DecodeError;
use vstd::prelude::*;

verus! {

/// Why a text is no Base64.
#[derive(Clone, Copy, Debug, PartialEq, Eq, Structural)]
pub enum DecodeFault {
    /// A byte outside the alphabet, with its offset.
    InvalidByte(usize, u8),
    /// A length that no encoding has.
    InvalidLength,
    /// A last symbol whose spare bits are not zero, with its offset.
    InvalidLastSymbol(usize, u8),
}

/// What `base64::decode` makes of `text` with the standard alphabet and
/// padding: the bytes it encodes, or the fault found in it.
pub uninterp spec fn base64_read(text: Seq<char>) -> Result<Seq<u8>, DecodeFault>;

/// `base64::decode`. The crate's error is carried over variant by variant.
#[verifier::external_body]
fn decode_base64(text: &str) -> (res: Result<Vec<u8>, DecodeFault>)
    ensures
        match res {
            Ok(bytes) => base64_read(text@) == Ok::<Seq<u8>, DecodeFault>(bytes@),
            Err(fault) => base64_read(text@) == Err::<Seq<u8>, DecodeFault>(fault),
        },
{
    match base64::decode(text) {
        Ok(bytes) => Ok(bytes),
        Err(DecodeError::InvalidByte(at, byte)) => Err(DecodeFault::InvalidByte(at, byte)),
        Err(DecodeError::InvalidLength) => Err(DecodeFault::InvalidLength),
        Err(DecodeError::InvalidLastSymbol(at, byte)) => Err(
            DecodeFault::InvalidLastSymbol(at, byte),
        ),
    }
}

/// The bytes of the credentials file from the Base64 text that the
/// environment holds. Writing them out is the caller's.
pub fn parse_credentials(encoded: &str) -> (res: Result<Vec<u8>, DecodeFault>)
    ensures
        match res {
            Ok(bytes) => base64_read(encoded@) == Ok::<Seq<u8>, DecodeFault>(bytes@),
            Err(fault) => base64_read(encoded@) == Err::<Seq<u8>, DecodeFault>(fault),
        },
{
    decode_base64(encoded)
}

} // verus!
