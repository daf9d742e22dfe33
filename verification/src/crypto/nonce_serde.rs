//! The text form of a nonce: its 12 bytes in standard padded base64.

use vstd::prelude::*;

use crate::encoding::{base64_encode, base64_encode_bytes, base64_decode_text, spec_base64_decode, to_array_12, Base64Error, FieldError};

verus! {

/// Encodes a nonce as base64.
pub fn serialize(bytes: &[u8; 12]) -> (s: String)
    ensures
        s@ == base64_encode(bytes@),
{
    base64_encode_bytes(bytes.as_slice())
}

/// Decodes base64 text to a nonce; text that decodes to other than 12 bytes is
/// refused. What `serialize` wrote comes back unchanged.
pub fn deserialize(s: &str) -> (r: Result<[u8; 12], FieldError>)
    ensures
        r matches Ok(a) ==> spec_base64_decode(s@) == Ok::<Seq<u8>, Base64Error>(a@),
        r matches Err(FieldError::Base64(e)) ==> spec_base64_decode(s@) == Err::<Seq<u8>, Base64Error>(e),
        r matches Err(FieldError::NonceLength) ==> (spec_base64_decode(s@) matches Ok(v) && v.len() != 12),
        !(r matches Err(FieldError::PublicKeyLength)),
        forall|b: Seq<u8>| b.len() == 12 && s@ == #[trigger] base64_encode(b) ==> (r matches Ok(a) && a@ == b),
{
    match base64_decode_text(s) {
        Ok(v) => {
            if v.len() == 12 {
                Ok(to_array_12(v.as_slice()))
            } else {
                Err(FieldError::NonceLength)
            }
        },
        Err(e) => Err(FieldError::Base64(e)),
    }
}

} // verus!
