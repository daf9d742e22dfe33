use clipsync::device::{Device, DeviceId};
use clipsync::peers::PeerRegistry;
use clipsync::relay::{choose_room, RoomChoice};
use clipsync::text::{decimal_text, parse_u16, replace_chars, split_chars, trim_end_chars};

fn chars(s: &str) -> Vec<char> {
    s.chars().collect()
}

#[test]
fn decimal_and_parse() {
    assert_eq!(decimal_text(0), "0");
    assert_eq!(decimal_text(43210), "43210");
    assert_eq!(decimal_text(u64::MAX), "18446744073709551615");
    assert_eq!(parse_u16(&chars("65535")), Some(65535));
    assert_eq!(parse_u16(&chars("65536")), None);
    assert_eq!(parse_u16(&chars("+12")), Some(12));
    assert_eq!(parse_u16(&chars("+")), None);
    assert_eq!(parse_u16(&chars("-1")), None);
    assert_eq!(parse_u16(&chars("")), None);
    assert_eq!(parse_u16(&chars("007")), Some(7));
    assert_eq!(parse_u16(&chars("1 ")), None);
}

#[test]
fn split_replace_trim() {
    let fields = split_chars(&chars("a::b:"), ':');
    assert_eq!(fields, vec![chars("a"), vec![], chars("b"), vec![]]);
    assert_eq!(split_chars(&chars(""), ':'), vec![Vec::<char>::new()]);
    assert_eq!(replace_chars(&chars("aaa"), &chars("aa"), &chars("b")), chars("ba"));
    assert_eq!(replace_chars(&chars("xyz"), &chars("q"), &chars("r")), chars("xyz"));
    assert_eq!(trim_end_chars(&chars("a///"), '/'), chars("a"));
    assert_eq!(trim_end_chars(&chars("///"), '/'), Vec::<char>::new());
}

#[test]
fn joined_room_codes_are_uppercased() {
    assert!(matches!(choose_room(false, Some("abC1-z")), Ok(RoomChoice::Join(c)) if c == "ABC1-Z"));
    assert!(matches!(choose_room(false, Some("straße")), Ok(RoomChoice::Join(c)) if c == "STRASSE"));
}

#[test]
fn announcements_are_read_as_lossy_utf8() {
    let me = Device::new("Me", "linux");
    let peers = PeerRegistry::new();
    let id = DeviceId::from_uuid(0x0123_4567_89ab_cdef_0011_2233_4455_6677);
    let mut datagram = b"CLIPSYNC:01234567-89AB-CDEF-0011-223344556677:h".to_vec();
    datagram.push(0xff);
    datagram.extend_from_slice("é:5000".as_bytes());
    assert_eq!(peers.on_announcement(&me.id, &datagram), Some((id, "h\u{fffd}é".to_string())));
}
