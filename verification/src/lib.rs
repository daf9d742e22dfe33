//! Clipboard sharing between devices: clipboard content, device identity,
//! encryption, the wire protocol, local discovery, peer bookkeeping and the
//! relay server's rooms.

use vstd::prelude::*;
use vstd::std_specs::convert::FromSpecImpl;
use std::io::Error as IoError;

pub mod text;
pub mod device;
pub mod encoding;
pub mod crypto;
pub mod clipboard;
pub mod protocol;
pub mod discovery;
pub mod peers;
pub mod relay;
pub mod server;

pub use clipboard::{ClipboardContent, ClipboardItem};
pub use crypto::{CryptoError, KeyPair, SharedSecret};
pub use device::{Device, DeviceId};
pub use protocol::{Message, MessageError};

verus! {

#[verifier::external_type_specification]
#[verifier::external_body]
pub struct ExIoError(IoError);

/// Formats a `std::io::Error` with its `Display` impl. The text comes from the
/// operating system; nothing is claimed of it.
#[verifier::external_body]
fn io_error_text(e: &IoError) -> (s: String) {
    format!("{}", e)
}

/// Main error type for this crate.
#[derive(Debug)]
pub enum Error {
    /// Errors from encryption/decryption operations
    Crypto(CryptoError),
    /// Errors from message serialization
    Protocol(MessageError),
    /// Network-related errors
    Network(String),
    /// Clipboard access errors
    Clipboard(String),
    /// Generic I/O errors
    Io(IoError),
}

impl Error {
    /// The user-facing message of the error: its kind, then the inner message.
    pub fn message(&self) -> (s: String)
        ensures
            self matches Error::Crypto(e) ==> s@ == "Crypto error: "@ + crypto::crypto_error_text(*e),
            self matches Error::Protocol(_) ==> "Protocol error: "@.is_prefix_of(s@),
            self matches Error::Protocol(e) ==> (protocol::message_error_text(&e) matches Some(t) ==> s@ == "Protocol error: "@ + t),
            self matches Error::Network(t) ==> s@ == "Network error: "@ + t@,
            self matches Error::Clipboard(t) ==> s@ == "Clipboard error: "@ + t@,
            self matches Error::Io(_) ==> "IO error: "@.is_prefix_of(s@),
    {
        match self {
            Error::Crypto(e) => {
                let mut s = String::from_str("Crypto error: ");
                let t = e.message();
                s.append(t.as_str());
                s
            },
            Error::Protocol(e) => {
                let mut s = String::from_str("Protocol error: ");
                let t = e.message();
                s.append(t.as_str());
                s
            },
            Error::Network(t) => {
                let mut s = String::from_str("Network error: ");
                s.append(t.as_str());
                s
            },
            Error::Clipboard(t) => {
                let mut s = String::from_str("Clipboard error: ");
                s.append(t.as_str());
                s
            },
            Error::Io(e) => {
                let mut s = String::from_str("IO error: ");
                let t = io_error_text(e);
                s.append(t.as_str());
                s
            },
        }
    }
}

impl From<CryptoError> for Error {
    fn from(e: CryptoError) -> (r: Error) {
        Error::Crypto(e)
    }
}

impl FromSpecImpl<CryptoError> for Error {
    open spec fn obeys_from_spec() -> bool {
        true
    }

    open spec fn from_spec(e: CryptoError) -> Error {
        Error::Crypto(e)
    }
}

impl From<MessageError> for Error {
    fn from(e: MessageError) -> (r: Error) {
        Error::Protocol(e)
    }
}

impl FromSpecImpl<MessageError> for Error {
    open spec fn obeys_from_spec() -> bool {
        true
    }

    open spec fn from_spec(e: MessageError) -> Error {
        Error::Protocol(e)
    }
}

impl From<IoError> for Error {
    fn from(e: IoError) -> (r: Error) {
        Error::Io(e)
    }
}

impl FromSpecImpl<IoError> for Error {
    open spec fn obeys_from_spec() -> bool {
        true
    }

    open spec fn from_spec(e: IoError) -> Error {
        Error::Io(e)
    }
}

} // verus!
