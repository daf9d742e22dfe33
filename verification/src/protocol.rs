//! The messages exchanged between devices and with the relay server.

use vstd::prelude::*;
use serde_json::Error as JsonError;

use crate::clipboard::Timestamp;
use crate::crypto::EncryptedData;
use crate::device::DeviceId;

pub mod base64_bytes;

verus! {

#[verifier::external_type_specification]
#[verifier::external_body]
pub struct ExJsonError(JsonError);

/// Formats a `serde_json::Error` with its `Display` impl. The text is the
/// crate's; nothing is claimed of it.
#[verifier::external_body]
fn json_error_text(e: &JsonError) -> (s: String) {
    format!("{}", e)
}

/// Errors that can occur during message processing.
#[derive(Debug)]
pub enum MessageError {
    SerializationFailed(JsonError),
    UnknownMessageType(String),
    InvalidFormat,
}

/// The message of an error that does not wrap a JSON error; for a JSON error
/// the text comes from the JSON crate.
pub open spec fn message_error_text(e: &MessageError) -> Option<Seq<char>> {
    match e {
        MessageError::SerializationFailed(_) => None,
        MessageError::UnknownMessageType(t) => Some("Unknown message type: "@ + t@),
        MessageError::InvalidFormat => Some("Invalid message format"@),
    }
}

impl MessageError {
    /// The user-facing message of the error. For a JSON error it is
    /// "Failed to serialize message: " followed by the JSON crate's text.
    pub fn message(&self) -> (s: String)
        ensures
            self matches MessageError::SerializationFailed(_) ==> "Failed to serialize message: "@.is_prefix_of(s@),
            message_error_text(self) matches Some(t) ==> s@ == t,
    {
        match self {
            MessageError::SerializationFailed(e) => {
                let mut s = String::from_str("Failed to serialize message: ");
                let t = json_error_text(e);
                s.append(t.as_str());
                s
            },
            MessageError::UnknownMessageType(t) => {
                let mut s = String::from_str("Unknown message type: ");
                s.append(t.as_str());
                s
            },
            MessageError::InvalidFormat => String::from_str("Invalid message format"),
        }
    }
}

/// All possible messages in the protocol.
#[derive(Debug, Clone)]
pub enum Message {
    /// Broadcast to find devices on local network.
    Ping,
    /// Response to Ping, announcing our presence.
    Pong { device_id: DeviceId, device_name: String, local_address: String, port: u16 },
    /// Request to pair with another device, with our X25519 public key.
    PairRequest { device_id: DeviceId, device_name: String, public_key: [u8; 32] },
    /// Accept a pairing request, with our X25519 public key.
    PairAccept { device_id: DeviceId, device_name: String, public_key: [u8; 32] },
    /// Reject a pairing request.
    PairReject { device_id: DeviceId, reason: Option<String> },
    /// Clipboard content update (encrypted).
    ClipboardUpdate { item_id: u128, encrypted_data: EncryptedData, from_device: DeviceId },
    /// Acknowledge receipt of a clipboard update.
    Ack { item_id: u128 },
    /// Plain clipboard text for the local network.
    ClipboardSync {
        from_device: DeviceId,
        device_name: String,
        content: String,
        timestamp: Timestamp,
    },
    /// Keep the connection alive.
    Heartbeat,
    /// Gracefully disconnect.
    Disconnect { device_id: DeviceId },
    /// Error message from the other side.
    Error { code: ErrorCode, message: String },
}

/// Error codes for the protocol.
#[derive(Debug, Clone, Copy, PartialEq, Eq, Structural)]
pub enum ErrorCode {
    Unknown,
    NotPaired,
    DecryptionFailed,
    InvalidMessage,
    RateLimited,
    StorageFull,
}

/// The numeric value of each error code.
pub open spec fn error_code_value(c: ErrorCode) -> u16 {
    match c {
        ErrorCode::Unknown => 0,
        ErrorCode::NotPaired => 1,
        ErrorCode::DecryptionFailed => 2,
        ErrorCode::InvalidMessage => 3,
        ErrorCode::RateLimited => 4,
        ErrorCode::StorageFull => 5,
    }
}

impl ErrorCode {
    /// The numeric value of the code.
    pub fn code(&self) -> (v: u16)
        ensures
            v == error_code_value(*self),
    {
        match self {
            ErrorCode::Unknown => 0,
            ErrorCode::NotPaired => 1,
            ErrorCode::DecryptionFailed => 2,
            ErrorCode::InvalidMessage => 3,
            ErrorCode::RateLimited => 4,
            ErrorCode::StorageFull => 5,
        }
    }
}

/// The name of each kind of message.
pub open spec fn message_kind(m: Message) -> Seq<char> {
    match m {
        Message::Ping => "ping"@,
        Message::Pong { .. } => "pong"@,
        Message::PairRequest { .. } => "pair_request"@,
        Message::PairAccept { .. } => "pair_accept"@,
        Message::PairReject { .. } => "pair_reject"@,
        Message::ClipboardUpdate { .. } => "clipboard_update"@,
        Message::Ack { .. } => "ack"@,
        Message::ClipboardSync { .. } => "clipboard_sync"@,
        Message::Heartbeat => "heartbeat"@,
        Message::Disconnect { .. } => "disconnect"@,
        Message::Error { .. } => "error"@,
    }
}

/// The messages that may only travel over an established pairing: all but the
/// discovery messages (`Ping`, `Pong`) and the pairing messages.
pub open spec fn needs_pairing(m: Message) -> bool {
    !(m is Ping || m is Pong || m is PairRequest || m is PairAccept || m is PairReject)
}

impl Message {
    /// Returns the name of this message's kind.
    pub fn message_type(&self) -> (t: &'static str)
        ensures
            t@ == message_kind(*self),
    {
        match self {
            Message::Ping => "ping",
            Message::Pong { .. } => "pong",
            Message::PairRequest { .. } => "pair_request",
            Message::PairAccept { .. } => "pair_accept",
            Message::PairReject { .. } => "pair_reject",
            Message::ClipboardUpdate { .. } => "clipboard_update",
            Message::Ack { .. } => "ack",
            Message::ClipboardSync { .. } => "clipboard_sync",
            Message::Heartbeat => "heartbeat",
            Message::Disconnect { .. } => "disconnect",
            Message::Error { .. } => "error",
        }
    }

    /// Whether this message requires an established pairing. Discovery and
    /// pairing messages can be sent without being paired; everything else
    /// requires an existing secure connection.
    pub fn requires_pairing(&self) -> (r: bool)
        ensures
            r == needs_pairing(*self),
    {
        match self {
            Message::Ping
            | Message::Pong { .. }
            | Message::PairRequest { .. }
            | Message::PairAccept { .. }
            | Message::PairReject { .. } => false,
            _ => true,
        }
    }
}

} // verus!
