use clipsync::clipboard::Timestamp;
use clipsync::crypto::EncryptedData;
use clipsync::device::DeviceId;
use clipsync::protocol::{base64_bytes, ErrorCode, Message, MessageError};
use clipsync::encoding::FieldError;

#[test]
fn test_requires_pairing() {
    assert!(!Message::Ping.requires_pairing());
    assert!(!Message::Pong {
        device_id: DeviceId::new(),
        device_name: "Test".into(),
        local_address: "127.0.0.1".into(),
        port: 8080,
    }
    .requires_pairing());

    assert!(Message::Heartbeat.requires_pairing());
    assert!(Message::Ack { item_id: uuid::Uuid::new_v4().as_u128() }.requires_pairing());
}

#[test]
fn pairing_and_sync_messages() {
    let id = DeviceId::new();
    assert!(!Message::PairRequest { device_id: id, device_name: "a".into(), public_key: [0; 32] }.requires_pairing());
    assert!(!Message::PairAccept { device_id: id, device_name: "a".into(), public_key: [0; 32] }.requires_pairing());
    assert!(!Message::PairReject { device_id: id, reason: None }.requires_pairing());
    assert!(Message::ClipboardUpdate {
        item_id: 1,
        encrypted_data: EncryptedData::new(vec![], [0; 12]),
        from_device: id,
    }
    .requires_pairing());
    assert!(Message::ClipboardSync {
        from_device: id,
        device_name: "a".into(),
        content: "x".into(),
        timestamp: Timestamp { secs: 1, nanos: 0 },
    }
    .requires_pairing());
    assert!(Message::Disconnect { device_id: id }.requires_pairing());
    assert!(Message::Error { code: ErrorCode::Unknown, message: "m".into() }.requires_pairing());
}

#[test]
fn message_type_names() {
    let id = DeviceId::new();
    assert_eq!(Message::Ping.message_type(), "ping");
    assert_eq!(
        Message::Pong { device_id: id, device_name: "a".into(), local_address: "b".into(), port: 1 }.message_type(),
        "pong"
    );
    assert_eq!(Message::PairRequest { device_id: id, device_name: "a".into(), public_key: [0; 32] }.message_type(), "pair_request");
    assert_eq!(Message::PairAccept { device_id: id, device_name: "a".into(), public_key: [0; 32] }.message_type(), "pair_accept");
    assert_eq!(Message::PairReject { device_id: id, reason: Some("no".into()) }.message_type(), "pair_reject");
    assert_eq!(
        Message::ClipboardUpdate { item_id: 1, encrypted_data: EncryptedData::new(vec![], [0; 12]), from_device: id }.message_type(),
        "clipboard_update"
    );
    assert_eq!(Message::Ack { item_id: 1 }.message_type(), "ack");
    assert_eq!(
        Message::ClipboardSync { from_device: id, device_name: "a".into(), content: "c".into(), timestamp: Timestamp { secs: 0, nanos: 0 } }.message_type(),
        "clipboard_sync"
    );
    assert_eq!(Message::Heartbeat.message_type(), "heartbeat");
    assert_eq!(Message::Disconnect { device_id: id }.message_type(), "disconnect");
    assert_eq!(Message::Error { code: ErrorCode::RateLimited, message: "m".into() }.message_type(), "error");
}

#[test]
fn error_code_values() {
    assert_eq!(ErrorCode::Unknown.code(), 0);
    assert_eq!(ErrorCode::NotPaired.code(), 1);
    assert_eq!(ErrorCode::DecryptionFailed.code(), 2);
    assert_eq!(ErrorCode::InvalidMessage.code(), 3);
    assert_eq!(ErrorCode::RateLimited.code(), 4);
    assert_eq!(ErrorCode::StorageFull.code(), 5);
}

#[test]
fn message_error_messages() {
    assert_eq!(MessageError::UnknownMessageType("Foo".into()).message(), "Unknown message type: Foo");
    assert_eq!(MessageError::InvalidFormat.message(), "Invalid message format");
    let json_err = serde_json::from_str::<u8>("x").unwrap_err();
    let text = MessageError::SerializationFailed(json_err).message();
    assert!(text.starts_with("Failed to serialize message: "));
    assert!(text.len() > "Failed to serialize message: ".len());
}

#[test]
fn public_key_text_form_roundtrips_and_checks_length() {
    let mut key = [0u8; 32];
    for (i, b) in key.iter_mut().enumerate() {
        *b = i as u8;
    }
    let text = base64_bytes::serialize(&key);
    assert_eq!(text.len(), 44);
    assert_eq!(base64_bytes::deserialize(&text).unwrap(), key);
    let err = base64_bytes::deserialize("AAAA").unwrap_err();
    assert_eq!(err, FieldError::PublicKeyLength);
    assert_eq!(err.length_message(), Some("public key must be 32 bytes"));
}
