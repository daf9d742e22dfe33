use clipsync::clipboard::Timestamp;
use clipsync::device::{Device, DeviceId};
use clipsync::discovery::{DiscoveryEvent, IpAddress, DEFAULT_PORT};
use clipsync::peers::{
    broadcast_announcement, local_hello, parse_broadcast, sync_message, Admission,
    ClipboardMonitor, DiscoveryAction, IncomingAction, PeerRegistry, SocketAddress, SyncState,
};
use clipsync::protocol::{ErrorCode, Message};

fn addr() -> SocketAddress {
    SocketAddress { ip: IpAddress::V4([10, 0, 0, 2]), port: DEFAULT_PORT }
}

#[test]
fn announcement_text_and_parse() {
    let device = Device::new("Desk", "linux");
    let text = broadcast_announcement(&device, 43210);
    assert_eq!(text, format!("CLIPSYNC:{}:Desk:43210", device.id.to_string()));
    let (id, name, port) = parse_broadcast(&text).unwrap();
    assert_eq!(id, device.id.to_string());
    assert_eq!(name, "Desk");
    assert_eq!(port, 43210);
}

#[test]
fn parse_broadcast_cases() {
    assert_eq!(parse_broadcast("CLIPSYNC:a:b:12"), Some(("a".to_string(), "b".to_string(), 12)));
    assert_eq!(parse_broadcast("CLIPSYNC:a:b:+7:extra"), Some(("a".to_string(), "b".to_string(), 7)));
    assert_eq!(parse_broadcast("CLIPSYNC:a:b:notaport"), Some(("a".to_string(), "b".to_string(), DEFAULT_PORT)));
    assert_eq!(parse_broadcast("CLIPSYNC:a:b:70000"), Some(("a".to_string(), "b".to_string(), DEFAULT_PORT)));
    assert_eq!(parse_broadcast("CLIPSYNC:a:b:"), Some(("a".to_string(), "b".to_string(), DEFAULT_PORT)));
    assert_eq!(parse_broadcast("CLIPSYNC:a:b"), None);
    assert_eq!(parse_broadcast("OTHER:a:b:1"), None);
    assert_eq!(parse_broadcast(""), None);
}

#[test]
fn announcements_from_others_lead_to_a_connection() {
    let me = Device::new("Me", "linux");
    let other = Device::new("Other", "linux");
    let peers = PeerRegistry::new();
    let text = broadcast_announcement(&other, DEFAULT_PORT);
    let found = peers.on_announcement(&me.id, text.as_bytes());
    assert_eq!(found, Some((other.id, "Other".to_string())));
    let own = broadcast_announcement(&me, DEFAULT_PORT);
    assert_eq!(peers.on_announcement(&me.id, own.as_bytes()), None);
    assert_eq!(peers.on_announcement(&me.id, b"CLIPSYNC:nope:x:1"), None);
    assert_eq!(peers.on_announcement(&me.id, &[0xff, 0xfe]), None);
}

#[test]
fn hello_admits_a_new_peer_once() {
    let me = Device::new("Me", "linux");
    let other = Device::new("Other", "linux");
    let mut peers = PeerRegistry::new();
    let hello = local_hello(&other, "10.0.0.2");
    match &hello {
        Message::Pong { local_address, port, .. } => {
            assert_eq!(local_address, "10.0.0.2");
            assert_eq!(*port, DEFAULT_PORT);
        }
        _ => panic!("hello is a pong"),
    }
    match peers.accept_hello(&me.id, Some(hello.clone()), addr()) {
        Admission::Admitted { peer_id, peer_name } => {
            assert_eq!(peer_id, other.id);
            assert_eq!(peer_name, "Other");
        }
        other => panic!("unexpected {:?}", other),
    }
    assert!(peers.is_connected(&other.id));
    assert_eq!(peers.len(), 1);
    assert!(matches!(peers.accept_hello(&me.id, Some(hello), addr()), Admission::AlreadyConnected));
    assert!(matches!(peers.accept_hello(&me.id, Some(local_hello(&me, "x")), addr()), Admission::OwnDevice));
    assert!(matches!(peers.accept_hello(&me.id, Some(Message::Ping), addr()), Admission::InvalidHello));
    assert!(matches!(peers.accept_hello(&me.id, None, addr()), Admission::InvalidHello));
    assert_eq!(peers.on_announcement(&me.id, broadcast_announcement(&other, 1).as_bytes()), None);
    let removed = peers.remove(&other.id).unwrap();
    assert_eq!(removed.device_name, "Other");
    assert!(!peers.is_connected(&other.id));
    assert!(peers.remove(&other.id).is_none());
}

#[test]
fn discovery_events_decide_connections() {
    let me = Device::new("Me", "linux");
    let other = DeviceId::new();
    let mut peers = PeerRegistry::new();
    let found = DiscoveryEvent::DeviceFound {
        device_id: other,
        device_name: "Other".into(),
        addresses: vec![IpAddress::V4([10, 0, 0, 9]), IpAddress::V4([10, 0, 0, 10])],
        port: 5000,
    };
    match peers.on_discovery_event(&me.id, found.clone()) {
        DiscoveryAction::Connect { device_id, device_name, address } => {
            assert_eq!(device_id, other);
            assert_eq!(device_name, "Other");
            assert_eq!(address, SocketAddress { ip: IpAddress::V4([10, 0, 0, 9]), port: 5000 });
        }
        a => panic!("unexpected {:?}", a),
    }
    let no_address = DiscoveryEvent::DeviceFound { device_id: other, device_name: "O".into(), addresses: vec![], port: 1 };
    assert!(matches!(peers.on_discovery_event(&me.id, no_address), DiscoveryAction::Ignore));
    let myself = DiscoveryEvent::DeviceFound { device_id: me.id, device_name: "Me".into(), addresses: vec![IpAddress::V4([1, 1, 1, 1])], port: 1 };
    assert!(matches!(peers.on_discovery_event(&me.id, myself), DiscoveryAction::Ignore));
    let hello = Message::Pong { device_id: other, device_name: "Other".into(), local_address: "x".into(), port: 1 };
    peers.accept_hello(&me.id, Some(hello), addr());
    assert!(matches!(peers.on_discovery_event(&me.id, found), DiscoveryAction::Ignore));
    match peers.on_discovery_event(&me.id, DiscoveryEvent::DeviceLost { device_id: other }) {
        DiscoveryAction::Lost { peer: Some(p) } => assert_eq!(p.device_name, "Other"),
        a => panic!("unexpected {:?}", a),
    }
    assert!(matches!(
        peers.on_discovery_event(&me.id, DiscoveryEvent::DeviceLost { device_id: other }),
        DiscoveryAction::Lost { peer: None }
    ));
}

fn sync_from(device: &Device, content: &str, secs: i64) -> Message {
    sync_message(device, content.to_string(), Timestamp { secs, nanos: 0 })
}

#[test]
fn last_write_wins() {
    let me = Device::new("Me", "linux");
    let other = Device::new("Other", "linux");
    let mut state = SyncState::new();
    match state.receive(&me.id, sync_from(&other, "first", 100)) {
        IncomingAction::Apply { device_name, content } => {
            assert_eq!(device_name, "Other");
            assert_eq!(content, "first");
        }
        a => panic!("unexpected {:?}", a),
    }
    assert_eq!(state.last_received, Some(Timestamp { secs: 100, nanos: 0 }));
    assert!(matches!(state.receive(&me.id, sync_from(&other, "older", 99)), IncomingAction::Ignore));
    assert!(matches!(state.receive(&me.id, sync_from(&other, "same", 100)), IncomingAction::Ignore));
    assert!(matches!(state.receive(&me.id, sync_from(&other, "newer", 101)), IncomingAction::Apply { .. }));
    assert_eq!(state.last_received, Some(Timestamp { secs: 101, nanos: 0 }));
    assert!(matches!(state.receive(&me.id, sync_from(&me, "mine", 500)), IncomingAction::Ignore));
    assert_eq!(state.last_received, Some(Timestamp { secs: 101, nanos: 0 }));
    match state.receive(&me.id, Message::Error { code: ErrorCode::Unknown, message: "Room not found".into() }) {
        IncomingAction::Report { message } => assert_eq!(message, "Room not found"),
        a => panic!("unexpected {:?}", a),
    }
    assert!(matches!(state.receive(&me.id, Message::Heartbeat), IncomingAction::Ignore));
}

#[test]
fn monitor_sends_new_text_but_not_echoes() {
    let mut sync = SyncState::new();
    let mut monitor = ClipboardMonitor::new();
    assert_eq!(monitor.observe(&mut sync, Some("a".into()), true), Some("a".to_string()));
    assert_eq!(monitor.observe(&mut sync, Some("a".into()), true), None);
    assert_eq!(monitor.observe(&mut sync, None, true), None);
    assert_eq!(monitor.last_content, None);
    sync.note_applied("from peer".into());
    assert_eq!(monitor.observe(&mut sync, Some("from peer".into()), true), None);
    assert_eq!(sync.last_set_content, Some("from peer".to_string()));
    assert_eq!(monitor.observe(&mut sync, Some("typed".into()), false), None);
    assert_eq!(sync.last_set_content, None);
    assert_eq!(monitor.observe(&mut sync, Some("more".into()), true), Some("more".to_string()));
    assert_eq!(monitor.last_content, Some("more".to_string()));
}
