use std::time::Instant;

use clipsync::device::{Device, DeviceId};
use clipsync::discovery::{
    announcement, host_name_for, instance_name, service_announcement, service_properties, DeviceTable, DiscoveryEvent,
    IpAddress, Resolution, DEFAULT_PORT, SERVICE_TYPE,
};

#[test]
fn test_service_type_format() {
    assert!(SERVICE_TYPE.starts_with("_"));
    assert!(SERVICE_TYPE.ends_with(".local."));
    assert!(SERVICE_TYPE.contains("._tcp"));
}

#[test]
fn test_event_clone() {
    let event = DiscoveryEvent::DeviceFound {
        device_id: DeviceId::new(),
        device_name: "Test".to_string(),
        addresses: vec![],
        port: 8080,
    };
    let cloned = event.clone();
    assert!(matches!(cloned, DiscoveryEvent::DeviceFound { .. }));
}

#[test]
fn resolved_service_is_recorded() {
    let mut table = DeviceTable::new();
    let id = DeviceId::new();
    let id_text = id.to_string();
    let addr = IpAddress::V4([192, 168, 1, 5]);
    let r = table.on_service_resolved("ClipSync-a._clipsync._tcp.local.", Some(&id_text), Some("Laptop"), vec![addr], 43210, Instant::now());
    match r {
        Resolution::Found(DiscoveryEvent::DeviceFound { device_id, device_name, addresses, port }) => {
            assert_eq!(device_id, id);
            assert_eq!(device_name, "Laptop");
            assert_eq!(addresses, vec![addr]);
            assert_eq!(port, 43210);
        }
        other => panic!("unexpected {:?}", other),
    }
    let devices = table.get_devices();
    assert_eq!(devices.len(), 1);
    assert_eq!(devices[0].device_id, id);
    assert_eq!(devices[0].name, "Laptop");

    let r = table.on_service_resolved("ClipSync-a._clipsync._tcp.local.", Some(&id_text), None, vec![], 1, Instant::now());
    assert!(matches!(r, Resolution::Found(DiscoveryEvent::DeviceFound { ref device_name, .. }) if device_name == "Unknown"));
    let devices = table.get_devices();
    assert_eq!(devices.len(), 1);
    assert_eq!(devices[0].port, 1);
    assert_eq!(devices[0].name, "Unknown");
}

#[test]
fn services_without_a_valid_id_are_skipped() {
    let mut table = DeviceTable::new();
    assert!(matches!(
        table.on_service_resolved("x", None, Some("x"), vec![], 1, Instant::now()),
        Resolution::MissingId
    ));
    match table.on_service_resolved("x", Some("garbage"), Some("x"), vec![], 1, Instant::now()) {
        Resolution::InvalidId(t) => assert_eq!(t, "garbage"),
        other => panic!("unexpected {:?}", other),
    }
    assert!(table.get_devices().is_empty());
}

#[test]
fn announced_service_describes_the_device() {
    let device = Device::new("Desk", "linux");
    let id_text = device.id.to_string();
    let name = instance_name(&device.id);
    assert_eq!(name, format!("ClipSync-{}", &id_text[..8]));
    let props = service_properties(&device);
    assert_eq!(props[0], ("id".to_string(), id_text));
    assert_eq!(props[1], ("name".to_string(), "Desk".to_string()));
    assert_eq!(props[2], ("platform".to_string(), "Linux".to_string()));
    assert_eq!(host_name_for("box"), "box.local.");
    let info = announcement(&device, "box", DEFAULT_PORT).expect("service info");
    assert_eq!(info.get_port(), DEFAULT_PORT);
    assert!(info.get_fullname().starts_with("ClipSync-"));
}

#[test]
fn announcement_fields() {
    let device = Device::new("Desk", "linux");
    let a = service_announcement(&device, "box", 7);
    assert_eq!(a.service_type, SERVICE_TYPE);
    assert_eq!(a.instance, instance_name(&device.id));
    assert_eq!(a.host, "box.local.");
    assert_eq!(a.addresses, "");
    assert_eq!(a.port, 7);
    assert_eq!(a.properties, service_properties(&device));
}

#[test]
fn removed_service_loses_its_device() {
    let mut table = DeviceTable::new();
    let a = DeviceId::new();
    let b = DeviceId::new();
    let fa = "ClipSync-a._clipsync._tcp.local.";
    let fb = "ClipSync-b._clipsync._tcp.local.";
    table.on_service_resolved(fa, Some(&a.to_string()), Some("A"), vec![], 1, Instant::now());
    table.on_service_resolved(fb, Some(&b.to_string()), Some("B"), vec![], 2, Instant::now());
    assert!(table.on_service_removed("ClipSync-c._clipsync._tcp.local.").is_none());
    assert_eq!(table.get_devices().len(), 2);
    match table.on_service_removed(fa) {
        Some(DiscoveryEvent::DeviceLost { device_id }) => assert_eq!(device_id, a),
        other => panic!("unexpected {:?}", other),
    }
    let devices = table.get_devices();
    assert_eq!(devices.len(), 1);
    assert_eq!(devices[0].device_id, b);
    assert!(table.on_service_removed(fa).is_none());
}

#[test]
fn resolving_under_a_taken_service_name_replaces_the_old_device() {
    let mut table = DeviceTable::new();
    let old_id = DeviceId::new();
    let new_id = DeviceId::new();
    let name = "ClipSync-a._clipsync._tcp.local.";
    table.on_service_resolved(name, Some(&old_id.to_string()), Some("Old"), vec![], 1, Instant::now());
    table.on_service_resolved(name, Some(&new_id.to_string()), Some("New"), vec![], 2, Instant::now());
    let devices = table.get_devices();
    assert_eq!(devices.len(), 1);
    assert_eq!(devices[0].device_id, new_id);
    match table.on_service_removed(name) {
        Some(DiscoveryEvent::DeviceLost { device_id }) => assert_eq!(device_id, new_id),
        other => panic!("unexpected {:?}", other),
    }
    assert!(table.get_devices().is_empty());
}
