//! Key exchange (X25519) and authenticated encryption (AES-256-GCM) for the
//! clipboard data sent between paired devices.

use vstd::prelude::*;
use aes_gcm::aead::{Aead, KeyInit, OsRng};
use aes_gcm::aead::Error as AeadError;
use rand::RngCore;

use crate::text::{decimal, decimal_text};

pub mod base64_serde;
pub mod nonce_serde;

verus! {

/// The largest plaintext, in bytes, that AES-GCM encrypts (`aes_gcm::P_MAX`).
pub const AES_GCM_P_MAX: u64 = 0x10_0000_0000;

/// The X25519 public key that belongs to a secret key (`PublicKey::from`).
pub uninterp spec fn spec_x25519_public(secret: Seq<u8>) -> Seq<u8>;

/// The X25519 shared secret of a secret key and another party's public key
/// (`StaticSecret::diffie_hellman`).
pub uninterp spec fn spec_x25519_shared(secret: Seq<u8>, their_public: Seq<u8>) -> Seq<u8>;

/// AES-256-GCM encryption without associated data, tag appended
/// (`Aead::encrypt` on `Aes256Gcm`).
pub uninterp spec fn spec_aes256gcm_seal(key: Seq<u8>, nonce: Seq<u8>, plaintext: Seq<u8>) -> Seq<u8>;

/// AES-256-GCM decryption without associated data (`Aead::decrypt` on
/// `Aes256Gcm`): the plaintext, or nothing when the tag does not verify.
pub uninterp spec fn spec_aes256gcm_open(key: Seq<u8>, nonce: Seq<u8>, ciphertext: Seq<u8>) -> Option<Seq<u8>>;

#[verifier::external_type_specification]
#[verifier::external_body]
pub struct ExAeadError(AeadError);

/// Calls `x25519_dalek::StaticSecret::random_from_rng` with `OsRng` and takes the
/// bytes with `to_bytes`. The bytes are random; nothing is claimed of them. (The
/// operating system's generator panics when it fails.)
#[verifier::external_body]
fn random_secret() -> (secret: [u8; 32]) {
    x25519_dalek::StaticSecret::random_from_rng(OsRng).to_bytes()
}

/// Fills 12 bytes with `RngCore::fill_bytes` on `OsRng`. The bytes are random;
/// nothing is claimed of them. (The generator panics when it fails.)
#[verifier::external_body]
fn random_nonce() -> (nonce: [u8; 12]) {
    let mut nonce = [0u8; 12];
    OsRng.fill_bytes(&mut nonce);
    nonce
}

/// Calls `x25519_dalek::PublicKey::from` on the secret key made of `secret`.
#[verifier::external_body]
fn x25519_public(secret: &[u8; 32]) -> (public: [u8; 32])
    ensures
        public@ == spec_x25519_public(secret@),
{
    x25519_dalek::PublicKey::from(&x25519_dalek::StaticSecret::from(*secret)).to_bytes()
}

/// Calls `x25519_dalek::StaticSecret::diffie_hellman`. Claimed besides the name
/// is what the crate documents of Diffie-Hellman: when `their_public` is the
/// public key of some secret `b`, the result equals what `b` computes with our
/// public key.
#[verifier::external_body]
fn x25519_shared(secret: &[u8; 32], their_public: &[u8; 32]) -> (shared: [u8; 32])
    ensures
        shared@ == spec_x25519_shared(secret@, their_public@),
        forall|b: Seq<u8>| b.len() == 32 && their_public@ == #[trigger] spec_x25519_public(b) ==> shared@ == spec_x25519_shared(b, spec_x25519_public(secret@)),
{
    x25519_dalek::StaticSecret::from(*secret).diffie_hellman(
        &x25519_dalek::PublicKey::from(*their_public),
    ).to_bytes()
}

/// Calls `Aead::encrypt` on an `Aes256Gcm` keyed with `key`. Claimed from the
/// crate's source: it fails exactly when the plaintext is longer than `P_MAX`;
/// otherwise the ciphertext is the plaintext's length plus a 16-byte tag.
#[verifier::external_body]
fn aes256gcm_encrypt(key: &[u8; 32], nonce: &[u8; 12], plaintext: &[u8]) -> (r: Result<Vec<u8>, AeadError>)
    ensures
        r is Ok <==> plaintext@.len() <= AES_GCM_P_MAX,
        r is Ok ==> r->Ok_0@ == spec_aes256gcm_seal(key@, nonce@, plaintext@),
        r is Ok ==> r->Ok_0@.len() == plaintext@.len() + 16,
{
    let cipher = aes_gcm::Aes256Gcm::new(key.into());
    cipher.encrypt(aes_gcm::Nonce::from_slice(nonce), plaintext)
}

/// Calls `Aead::decrypt` on an `Aes256Gcm` keyed with `key`. Claimed besides the
/// name is what GCM's construction gives: what `Aead::encrypt` produced from a
/// plaintext under the same key and nonce decrypts to that plaintext, and a text
/// that decrypts is the 16-byte-longer encryption of what it decrypts to (the tag
/// authenticates it).
#[verifier::external_body]
fn aes256gcm_decrypt(key: &[u8; 32], nonce: &[u8; 12], ciphertext: &[u8]) -> (r: Result<Vec<u8>, AeadError>)
    ensures
        r is Ok <==> spec_aes256gcm_open(key@, nonce@, ciphertext@) is Some,
        r is Ok ==> spec_aes256gcm_open(key@, nonce@, ciphertext@) == Some(r->Ok_0@),
        forall|pt: Seq<u8>| pt.len() <= AES_GCM_P_MAX && ciphertext@ == #[trigger] spec_aes256gcm_seal(key@, nonce@, pt) ==> (r is Ok && r->Ok_0@ == pt),
        r is Ok ==> r->Ok_0@.len() + 16 == ciphertext@.len(),
        r is Ok && r->Ok_0@.len() <= AES_GCM_P_MAX ==> ciphertext@ == spec_aes256gcm_seal(key@, nonce@, r->Ok_0@),
{
    let cipher = aes_gcm::Aes256Gcm::new(key.into());
    cipher.decrypt(aes_gcm::Nonce::from_slice(nonce), ciphertext)
}

/// Errors that can occur during cryptographic operations.
#[derive(Debug, Clone, Copy, PartialEq, Eq, Structural)]
pub enum CryptoError {
    EncryptionFailed,
    DecryptionFailed,
    InvalidKeyLength { expected: usize, actual: usize },
    InvalidPublicKey,
}

/// The message of each crypto error.
pub open spec fn crypto_error_text(e: CryptoError) -> Seq<char> {
    match e {
        CryptoError::EncryptionFailed => "Encryption failed"@,
        CryptoError::DecryptionFailed => "Decryption failed - data may be corrupted or tampered"@,
        CryptoError::InvalidKeyLength { expected, actual } => "Invalid key length: expected "@
            + decimal(expected as nat) + ", got "@ + decimal(actual as nat),
        CryptoError::InvalidPublicKey => "Invalid public key"@,
    }
}

impl CryptoError {
    /// The user-facing message of the error.
    pub fn message(&self) -> (s: String)
        ensures
            s@ == crypto_error_text(*self),
    {
        match self {
            CryptoError::EncryptionFailed => String::from_str("Encryption failed"),
            CryptoError::DecryptionFailed => String::from_str(
                "Decryption failed - data may be corrupted or tampered",
            ),
            CryptoError::InvalidKeyLength { expected, actual } => {
                let mut s = String::from_str("Invalid key length: expected ");
                let e = decimal_text(*expected as u64);
                s.append(e.as_str());
                s.append(", got ");
                let a = decimal_text(*actual as u64);
                s.append(a.as_str());
                s
            },
            CryptoError::InvalidPublicKey => String::from_str("Invalid public key"),
        }
    }
}

/// A key pair for X25519 key exchange.
pub struct KeyPair {
    /// Our private key.
    secret: [u8; 32],
    /// Our public key, to share with paired devices.
    pub public: [u8; 32],
}

impl KeyPair {
    /// The private key's bytes.
    pub closed spec fn secret_view(&self) -> Seq<u8> {
        self.secret@
    }

    /// The public key's bytes.
    pub closed spec fn public_view(&self) -> Seq<u8> {
        self.public@
    }

    /// Generates a new random key pair.
    pub fn generate() -> (kp: KeyPair)
        ensures
            kp.public_view() == spec_x25519_public(kp.secret_view()),
            kp.secret_view().len() == 32,
    {
        let secret = random_secret();
        let public = x25519_public(&secret);
        KeyPair { secret, public }
    }

    /// Performs Diffie-Hellman key exchange with another device's public key,
    /// consuming the key pair. When `their_public_key` is the public key of a
    /// secret `b`, the result equals what `b` derives from our public key.
    pub fn exchange(self, their_public_key: &[u8; 32]) -> (s: SharedSecret)
        ensures
            s.key_view() == spec_x25519_shared(self.secret_view(), their_public_key@),
            forall|b: Seq<u8>|
                b.len() == 32 && their_public_key@ == #[trigger] spec_x25519_public(b) ==> s.key_view()
                    == spec_x25519_shared(b, spec_x25519_public(self.secret_view())),
    {
        let shared = x25519_shared(&self.secret, their_public_key);
        SharedSecret::from_bytes(&shared)
    }

    /// Returns the public key as bytes.
    pub fn public_key_bytes(&self) -> (b: [u8; 32])
        ensures
            b@ == self.public_view(),
    {
        self.public
    }
}

/// A shared secret derived from key exchange: the AES-256-GCM key.
#[derive(Clone)]
pub struct SharedSecret {
    key: [u8; 32],
}

impl SharedSecret {
    /// The key's bytes.
    pub closed spec fn key_view(&self) -> Seq<u8> {
        self.key@
    }

    /// Creates a SharedSecret from raw key bytes.
    pub fn from_bytes(bytes: &[u8; 32]) -> (s: SharedSecret)
        ensures
            s.key_view() == bytes@,
    {
        SharedSecret { key: *bytes }
    }

    /// Encrypts data under a fresh random nonce and returns (ciphertext, nonce).
    /// It fails exactly when the plaintext is longer than AES-GCM allows.
    pub fn encrypt(&self, plaintext: &[u8]) -> (r: Result<(Vec<u8>, [u8; 12]), CryptoError>)
        ensures
            (r is Ok) == (plaintext@.len() <= AES_GCM_P_MAX),
            r matches Ok((c, n)) ==> c@ == spec_aes256gcm_seal(self.key_view(), n@, plaintext@),
            r matches Ok((c, n)) ==> c@.len() == plaintext@.len() + 16,
            r matches Err(e) ==> e == CryptoError::EncryptionFailed,
    {
        let nonce = random_nonce();
        match aes256gcm_encrypt(&self.key, &nonce, plaintext) {
            Ok(c) => Ok((c, nonce)),
            Err(_) => Err(CryptoError::EncryptionFailed),
        }
    }

    /// Decrypts data with the nonce it was encrypted under. What `encrypt`
    /// produced under this key and nonce decrypts to its plaintext, and what
    /// decrypts is exactly what `encrypt` makes of the result (it is authentic).
    pub fn decrypt(&self, ciphertext: &[u8], nonce: &[u8; 12]) -> (r: Result<Vec<u8>, CryptoError>)
        ensures
            (r is Ok) == (spec_aes256gcm_open(self.key_view(), nonce@, ciphertext@) is Some),
            r matches Ok(p) ==> spec_aes256gcm_open(self.key_view(), nonce@, ciphertext@) == Some(p@),
            r matches Err(e) ==> e == CryptoError::DecryptionFailed,
            r matches Ok(p) ==> p@.len() + 16 == ciphertext@.len(),
            r matches Ok(p) ==> (p@.len() <= AES_GCM_P_MAX ==> ciphertext@ == spec_aes256gcm_seal(self.key_view(), nonce@, p@)),
            forall|pt: Seq<u8>|
                pt.len() <= AES_GCM_P_MAX && ciphertext@ == #[trigger] spec_aes256gcm_seal(
                    self.key_view(),
                    nonce@,
                    pt,
                ) ==> (r matches Ok(p) && p@ == pt),
    {
        match aes256gcm_decrypt(&self.key, nonce, ciphertext) {
            Ok(p) => Ok(p),
            Err(_) => Err(CryptoError::DecryptionFailed),
        }
    }
}

/// Encrypted data with its nonce, ready to send over the network.
#[derive(Debug, Clone)]
pub struct EncryptedData {
    /// The encrypted bytes (ciphertext)
    pub data: Vec<u8>,
    /// The nonce used for encryption
    pub nonce: [u8; 12],
}

impl EncryptedData {
    /// Creates from encryption result.
    pub fn new(data: Vec<u8>, nonce: [u8; 12]) -> (e: EncryptedData)
        ensures
            e.data == data,
            e.nonce == nonce,
    {
        EncryptedData { data, nonce }
    }
}

} // verus!
