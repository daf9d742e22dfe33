use clipsync::crypto::CryptoError;
use clipsync::protocol::MessageError;
use clipsync::Error;

#[test]
fn test_error_display() {
    let err = Error::Network("connection refused".to_string());
    assert!(err.message().contains("connection refused"));
}

#[test]
fn error_messages_name_their_kind() {
    assert_eq!(Error::Crypto(CryptoError::EncryptionFailed).message(), "Crypto error: Encryption failed");
    assert_eq!(
        Error::Protocol(MessageError::InvalidFormat).message(),
        "Protocol error: Invalid message format"
    );
    assert_eq!(Error::Clipboard("busy".into()).message(), "Clipboard error: busy");
    let io = std::io::Error::new(std::io::ErrorKind::Other, "disk gone");
    assert_eq!(Error::Io(io).message(), "IO error: disk gone");
    let e: Error = CryptoError::InvalidPublicKey.into();
    assert!(matches!(e, Error::Crypto(CryptoError::InvalidPublicKey)));
}
