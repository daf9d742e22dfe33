use clipsync::protocol::{ErrorCode, Message};
use clipsync::server::{forward_to_client, room_not_found, socket_step, ClientFrame, Room, RoomId, RoomRegistry, SocketStep};

#[test]
fn test_room_id_generation() {
    let id1 = RoomId::generate();
    let id2 = RoomId::generate();
    assert_ne!(id1, id2);
    assert_eq!(id1.as_str().len(), 6);
    for c in id1.as_str().chars() {
        assert!(c.is_ascii_alphanumeric());
    }
}

#[test]
fn test_app_state() {
    let mut rooms: RoomRegistry<u32> = RoomRegistry::new();
    assert!(rooms.is_empty());
    let room_id = RoomId::generate();
    rooms.insert(Room::new(room_id.clone(), 7));
    assert_eq!(rooms.len(), 1);
}

#[test]
fn room_codes_use_the_code_alphabet() {
    for _ in 0..20 {
        let id = RoomId::generate();
        for c in id.as_str().chars() {
            assert!("ABCDEFGHJKLMNPQRSTUVWXYZ23456789".contains(c));
        }
    }
}

#[test]
fn created_rooms_can_be_found() {
    let mut rooms: RoomRegistry<u32> = RoomRegistry::new();
    let id = rooms.create_room(5);
    let info = rooms.room_info(id.as_str()).expect("room exists");
    assert_eq!(info.room_id, id.as_str());
    assert_eq!(info.device_count, 0);
    assert!(info.devices.is_empty());
    assert_eq!(rooms.channel_for(id.as_str()), Some(&5));
    assert!(rooms.room_info("NOPE00").is_none());
    assert_eq!(rooms.channel_for("NOPE00"), None);
    let other = rooms.create_room(6);
    assert_eq!(rooms.len(), 2);
    assert_eq!(rooms.channel_for(other.as_str()), Some(&6));
    assert_eq!(rooms.channel_for(id.as_str()), Some(&5));
}

#[test]
fn a_room_with_the_same_code_replaces_the_old_one() {
    let mut rooms: RoomRegistry<u32> = RoomRegistry::new();
    rooms.insert(Room::new(RoomId::from_text("AAAAAA"), 1));
    rooms.insert(Room::new(RoomId::from_text("AAAAAA"), 2));
    assert_eq!(rooms.len(), 1);
    assert_eq!(rooms.channel_for("AAAAAA"), Some(&2));
}

#[test]
fn client_frames() {
    assert!(matches!(socket_step(ClientFrame::Text(Some(Message::Heartbeat))), SocketStep::Broadcast(Message::Heartbeat)));
    assert!(matches!(socket_step(ClientFrame::Text(None)), SocketStep::Ignore));
    assert!(matches!(socket_step(ClientFrame::Close), SocketStep::Stop));
    assert!(matches!(socket_step(ClientFrame::Other), SocketStep::Ignore));
    assert!(matches!(socket_step(ClientFrame::Failed), SocketStep::Stop));
    match room_not_found() {
        Message::Error { code, message } => {
            assert_eq!(code, ErrorCode::Unknown);
            assert_eq!(message, "Room not found");
        }
        _ => panic!("expected an error message"),
    }
}

#[test]
fn room_messages_skip_their_sender() {
    assert_eq!(forward_to_client(7, 7, "m"), None);
    assert_eq!(forward_to_client(7, 8, "m"), Some("m"));
}
