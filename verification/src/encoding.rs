//! Base64 (standard alphabet, with padding) as the `base64` crate's `STANDARD`
//! engine writes and reads it, and the fixed-length byte fields that travel in it.

use vstd::prelude::*;
use base64::Engine;

verus! {

/// The character for a 6-bit value in the standard alphabet.
pub open spec fn base64_char(n: nat) -> char {
    if n < 26 {
        (65 + n) as char
    } else if n < 52 {
        (97 + n - 26) as char
    } else if n < 62 {
        (48 + n - 52) as char
    } else if n == 62 {
        '+'
    } else {
        '/'
    }
}

/// Standard base64 with `=` padding: each group of three bytes becomes four
/// characters; a final group of one or two bytes becomes two or three characters
/// followed by `==` or `=`.
pub open spec fn base64_encode(b: Seq<u8>) -> Seq<char>
    decreases b.len(),
{
    if b.len() == 0 {
        Seq::<char>::empty()
    } else if b.len() == 1 {
        seq![base64_char(b[0] as nat / 4), base64_char((b[0] as nat % 4) * 16), '=', '=']
    } else if b.len() == 2 {
        seq![
            base64_char(b[0] as nat / 4),
            base64_char((b[0] as nat % 4) * 16 + b[1] as nat / 16),
            base64_char((b[1] as nat % 16) * 4),
            '=',
        ]
    } else {
        seq![
            base64_char(b[0] as nat / 4),
            base64_char((b[0] as nat % 4) * 16 + b[1] as nat / 16),
            base64_char((b[1] as nat % 16) * 4 + b[2] as nat / 64),
            base64_char(b[2] as nat % 64),
        ] + base64_encode(b.skip(3))
    }
}

/// The length of the buffer that the `base64` crate computes before encoding
/// `n` bytes fits in a `usize` (it panics otherwise).
pub open spec fn base64_encodable(n: nat) -> bool {
    (n / 3) * 4 + 4 <= usize::MAX
}

/// Why a text is not valid base64; the same cases as `base64::DecodeError`.
#[derive(Debug, Clone, Copy, PartialEq, Eq, Structural)]
pub enum Base64Error {
    /// A symbol outside the alphabet (or misplaced padding), at an offset.
    InvalidByte { offset: usize, byte: u8 },
    /// The number of symbols cannot come from an encoding.
    InvalidLength { length: usize },
    /// The last symbol has bits set that an encoding leaves clear.
    InvalidLastSymbol { offset: usize, byte: u8 },
    /// The padding is missing or wrong.
    InvalidPadding,
}

/// What `base64::engine::general_purpose::STANDARD.decode` makes of a text.
pub uninterp spec fn spec_base64_decode(s: Seq<char>) -> Result<Seq<u8>, Base64Error>;

/// A decoding result with the bytes taken by their view.
pub open spec fn decoded_view(r: Result<Vec<u8>, Base64Error>) -> Result<Seq<u8>, Base64Error> {
    match r {
        Ok(v) => Ok(v@),
        Err(e) => Err(e),
    }
}

/// Calls `base64::Engine::encode` on the `STANDARD` engine; claims the standard
/// padded encoding stated by `base64_encode`.
#[verifier::external_body]
pub(crate) fn base64_encode_bytes(bytes: &[u8]) -> (s: String)
    requires
        base64_encodable(bytes@.len()),
    ensures
        s@ == base64_encode(bytes@),
{
    base64::engine::general_purpose::STANDARD.encode(bytes)
}

/// Calls `base64::Engine::decode` on the `STANDARD` engine and maps each
/// `base64::DecodeError` variant to the same case of `Base64Error`. Which text is
/// accepted, and which error comes, is left to the name `spec_base64_decode`;
/// claimed besides is only that what the engine encodes decodes back to the same
/// bytes.
#[verifier::external_body]
pub(crate) fn base64_decode_text(s: &str) -> (r: Result<Vec<u8>, Base64Error>)
    ensures
        decoded_view(r) == spec_base64_decode(s@),
        forall|b: Seq<u8>| s@ == #[trigger] base64_encode(b) ==> (r is Ok && decoded_view(r)->Ok_0 == b),
{
    match base64::engine::general_purpose::STANDARD.decode(s) {
        Ok(v) => Ok(v),
        Err(base64::DecodeError::InvalidByte(offset, byte)) => Err(Base64Error::InvalidByte { offset, byte }),
        Err(base64::DecodeError::InvalidLength(length)) => Err(Base64Error::InvalidLength { length }),
        Err(base64::DecodeError::InvalidLastSymbol(offset, byte)) => Err(Base64Error::InvalidLastSymbol { offset, byte }),
        Err(base64::DecodeError::InvalidPadding) => Err(Base64Error::InvalidPadding),
    }
}

/// Why a base64 field of a message could not be read.
#[derive(Debug, Clone, Copy, PartialEq, Eq, Structural)]
pub enum FieldError {
    /// The text is not valid base64.
    Base64(Base64Error),
    /// A nonce field did not decode to exactly 12 bytes.
    NonceLength,
    /// A public-key field did not decode to exactly 32 bytes.
    PublicKeyLength,
}

impl FieldError {
    /// The message for a field of the wrong length; `None` for a base64 error,
    /// whose message is the `base64` crate's.
    pub fn length_message(&self) -> (m: Option<&'static str>)
        ensures
            self is NonceLength ==> (m matches Some(t) && t@ == "nonce must be 12 bytes"@),
            self is PublicKeyLength ==> (m matches Some(t) && t@ == "public key must be 32 bytes"@),
            self is Base64 ==> m is None,
    {
        match self {
            FieldError::Base64(_) => None,
            FieldError::NonceLength => Some("nonce must be 12 bytes"),
            FieldError::PublicKeyLength => Some("public key must be 32 bytes"),
        }
    }
}

/// Copies 12 bytes into an array.
pub fn to_array_12(v: &[u8]) -> (a: [u8; 12])
    requires
        v@.len() == 12,
    ensures
        a@ == v@,
{
    let mut a = [0u8; 12];
    let mut i: usize = 0;
    while i < 12
        invariant
            v@.len() == 12,
            i <= 12,
            forall|j: int| 0 <= j < i ==> a@[j] == v@[j],
        decreases 12 - i,
    {
        a[i] = v[i];
        i = i + 1;
    }
    assert(a@ =~= v@);
    a
}

/// Copies 32 bytes into an array.
pub fn to_array_32(v: &[u8]) -> (a: [u8; 32])
    requires
        v@.len() == 32,
    ensures
        a@ == v@,
{
    let mut a = [0u8; 32];
    let mut i: usize = 0;
    while i < 32
        invariant
            v@.len() == 32,
            i <= 32,
            forall|j: int| 0 <= j < i ==> a@[j] == v@[j],
        decreases 32 - i,
    {
        a[i] = v[i];
        i = i + 1;
    }
    assert(a@ =~= v@);
    a
}

} // verus!
