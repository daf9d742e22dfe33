use clipsync::device::{platform_label, Device, DeviceId, DeviceType};
use clipsync::peers::{broadcast_announcement, PeerRegistry};

#[test]
fn test_device_id_uniqueness() {
    let id1 = DeviceId::new();
    let id2 = DeviceId::new();
    assert_ne!(id1, id2);
}

#[test]
fn test_device_creation() {
    let device = Device::new("Test Device", "linux").with_type(DeviceType::Desktop);
    assert_eq!(device.name, "Test Device");
    assert_eq!(device.device_type, DeviceType::Desktop);
}

#[test]
fn test_device_id_display() {
    let id = DeviceId::new();
    let display = id.to_string();
    assert_eq!(display.len(), 36);
    assert!(display.contains('-'));
}

#[test]
fn device_id_text_is_hyphenated_lower_hex() {
    let id = DeviceId::from_uuid(0x0123_4567_89ab_cdef_0011_2233_4455_6677);
    assert_eq!(id.to_string(), "01234567-89ab-cdef-0011-223344556677");
    assert_eq!(id.as_uuid(), 0x0123_4567_89ab_cdef_0011_2233_4455_6677);
}

#[test]
fn device_id_text_parses_back() {
    let me = Device::new("Me", "linux");
    let other = Device::new("Other", "linux");
    let peers = PeerRegistry::new();
    let text = broadcast_announcement(&other, 1);
    assert_eq!(peers.on_announcement(&me.id, text.as_bytes()), Some((other.id, "Other".to_string())));
    let bad = "CLIPSYNC:not a uuid:Other:1";
    assert_eq!(peers.on_announcement(&me.id, bad.as_bytes()), None);
}

#[test]
fn new_device_ids_are_random_uuids() {
    let id = DeviceId::default();
    let v = id.as_uuid();
    assert_eq!((v >> 76) & 0xf, 4);
    assert_eq!((v >> 62) & 0x3, 2);
}

#[test]
fn platform_names() {
    assert_eq!(platform_label("windows"), "Windows");
    assert_eq!(platform_label("macos"), "macOS");
    assert_eq!(platform_label("linux"), "Linux");
    assert_eq!(platform_label("android"), "Android");
    assert_eq!(platform_label("ios"), "iOS");
    assert_eq!(platform_label("freebsd"), "Unknown");
}

#[test]
fn new_device_is_of_unknown_type_until_set() {
    let device = Device::new("Phone", "android");
    assert_eq!(device.device_type, DeviceType::Unknown);
    assert_eq!(device.platform, "Android");
    let id = device.id;
    let device = device.with_type(DeviceType::Mobile);
    assert_eq!(device.device_type, DeviceType::Mobile);
    assert_eq!(device.id, id);
    assert_eq!(device.name, "Phone");
}
