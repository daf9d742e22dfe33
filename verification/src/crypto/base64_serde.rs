//! The text form of a ciphertext: standard padded base64.

use vstd::prelude::*;

use crate::encoding::{base64_encode, base64_encodable, base64_encode_bytes, base64_decode_text, spec_base64_decode, FieldError};

verus! {

/// Encodes bytes as base64.
pub fn serialize(bytes: &Vec<u8>) -> (s: String)
    requires
        base64_encodable(bytes@.len()),
    ensures
        s@ == base64_encode(bytes@),
{
    base64_encode_bytes(bytes.as_slice())
}

/// Decodes base64 text to bytes. What `serialize` wrote comes back unchanged.
pub fn deserialize(s: &str) -> (r: Result<Vec<u8>, FieldError>)
    ensures
        r matches Ok(v) ==> spec_base64_decode(s@) == Ok::<Seq<u8>, crate::encoding::Base64Error>(v@),
        r matches Err(e) ==> (e matches FieldError::Base64(b) && spec_base64_decode(s@) == Err::<Seq<u8>, crate::encoding::Base64Error>(b)),
        forall|b: Seq<u8>| s@ == #[trigger] base64_encode(b) ==> (r matches Ok(v) && v@ == b),
{
    match base64_decode_text(s) {
        Ok(v) => Ok(v),
        Err(e) => Err(FieldError::Base64(e)),
    }
}

} // verus!
