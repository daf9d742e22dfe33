//! The text form of a public key: its 32 bytes in standard padded base64.

use vstd::prelude::*;

use crate::encoding::{base64_encode, base64_encode_bytes, base64_decode_text, spec_base64_decode, to_array_32, Base64Error, FieldError};

verus! {

/// Encodes a public key as base64.
pub fn serialize(bytes: &[u8; 32]) -> (s: String)
    ensures
        s@ == base64_encode(bytes@),
{
    base64_encode_bytes(bytes.as_slice())
}

/// Decodes base64 text to a public key; text that decodes to other than 32
/// bytes is refused. What `serialize` wrote comes back unchanged.
pub fn deserialize(s: &str) -> (r: Result<[u8; 32], FieldError>)
    ensures
        r matches Ok(a) ==> spec_base64_decode(s@) == Ok::<Seq<u8>, Base64Error>(a@),
        r matches Err(FieldError::Base64(e)) ==> spec_base64_decode(s@) == Err::<Seq<u8>, Base64Error>(e),
        r matches Err(FieldError::PublicKeyLength) ==> (spec_base64_decode(s@) matches Ok(v) && v.len() != 32),
        !(r matches Err(FieldError::NonceLength)),
        forall|b: Seq<u8>| b.len() == 32 && s@ == #[trigger] base64_encode(b) ==> (r matches Ok(a) && a@ == b),
{
    match base64_decode_text(s) {
        Ok(v) => {
            if v.len() == 32 {
                Ok(to_array_32(v.as_slice()))
            } else {
                Err(FieldError::PublicKeyLength)
            }
        },
        Err(e) => Err(FieldError::Base64(e)),
    }
}

} // verus!
