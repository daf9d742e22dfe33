use clipsync::device::Device;
use clipsync::protocol::Message;
use clipsync::relay::{build_ws_url, choose_room, extract_room_id, relay_hello, room_request, RelayError, RoomChoice};

#[test]
fn ws_url_from_each_kind_of_server_address() {
    assert_eq!(build_ws_url("ws://h:3002", "ABC123").unwrap(), "ws://h:3002/rooms/ABC123/ws");
    assert_eq!(build_ws_url("wss://h/", "X").unwrap(), "wss://h/rooms/X/ws");
    assert_eq!(build_ws_url("http://h:1//", "R").unwrap(), "ws://h:1/rooms/R/ws");
    assert_eq!(build_ws_url("https://h", "R").unwrap(), "wss://h/rooms/R/ws");
    assert_eq!(build_ws_url("h:9", "R").unwrap(), "ws://h:9/rooms/R/ws");
    assert_eq!(build_ws_url("http://a/http://b", "R").unwrap(), "ws://a/ws://b/rooms/R/ws");
}

#[test]
fn room_choice() {
    assert!(matches!(choose_room(true, Some("abc")), Ok(RoomChoice::Create)));
    match choose_room(false, Some("abc123")) {
        Ok(RoomChoice::Join(code)) => assert_eq!(code, "ABC123"),
        other => panic!("unexpected {:?}", other),
    }
    assert!(matches!(choose_room(false, None), Err(RelayError::NoRoomGiven)));
}

#[test]
fn hello_to_the_relay() {
    let device = Device::new("Me", "linux");
    match relay_hello(&device) {
        Message::Pong { device_id, device_name, local_address, port } => {
            assert_eq!(device_id, device.id);
            assert_eq!(device_name, "Me");
            assert_eq!(local_address, "relay");
            assert_eq!(port, 0);
        }
        _ => panic!("hello is a pong"),
    }
}

#[test]
fn room_request_targets_the_server() {
    let r = room_request("ws://example.org:4000").unwrap();
    assert_eq!(r.host, "example.org");
    assert_eq!(r.port, 4000);
    assert_eq!(
        r.request,
        "POST /rooms HTTP/1.1\r\nHost: example.org\r\nContent-Length: 0\r\nConnection: close\r\n\r\n"
    );
    let r = room_request("wss://example.org").unwrap();
    assert_eq!(r.port, 3002);
    assert!(matches!(room_request("not a url"), Err(RelayError::BadUrl(_))));
}

#[test]
fn room_code_from_reply() {
    let reply = "HTTP/1.1 200 OK\r\ncontent-type: application/json\r\n\r\n{\"room_id\":\"ABC123\"}";
    assert_eq!(extract_room_id(reply).unwrap(), "ABC123");
    assert!(matches!(extract_room_id("HTTP/1.1 404\r\n\r\n"), Err(RelayError::NoRoomInReply)));
    assert!(matches!(extract_room_id("{\"room_id\":\"ABC"), Err(RelayError::NoRoomInReply)));
}

#[test]
fn relay_error_messages() {
    assert_eq!(RelayError::InvalidServerUrl.message(), "Invalid server URL");
    assert_eq!(RelayError::NoRoomInReply.message(), "Failed to parse room creation response");
    assert!(RelayError::NoRoomGiven.message().starts_with("In relay mode, you must either:\n  --create-room"));
    match room_request("not a url") {
        Err(e) => assert!(!e.message().is_empty()),
        Ok(_) => panic!("not a url"),
    }
}
