//! The client side of the relay: which room to use, the WebSocket address of a
//! room, the HTTP request that creates a room, and reading the new room's code
//! out of the reply.

use vstd::prelude::*;
use url::ParseError as UrlParseError;

use crate::device::Device;
use crate::protocol::Message;
use crate::text::{
    chars_of, string_from_chars, starts_with, replace_chars, trim_end_chars, find_from, has_prefix,
    replace_all, trim_end, occurs_at, to_uppercase, spec_to_uppercase,
};

verus! {

/// The relay server's port when the server address names none.
pub const DEFAULT_RELAY_PORT: u16 = 3002;

#[verifier::external_type_specification]
#[verifier::external_body]
pub struct ExUrlParseError(UrlParseError);

/// Why relay mode cannot go on.
#[derive(Debug)]
pub enum RelayError {
    /// Neither `--create-room` nor `--join` was given.
    NoRoomGiven,
    /// The server address is not a URL.
    BadUrl(UrlParseError),
    /// The server address has no host.
    InvalidServerUrl,
    /// The reply to the room request holds no room code.
    NoRoomInReply,
}

/// Formats a `url::ParseError` with its `Display` impl. The text is the
/// crate's; nothing is claimed of it.
#[verifier::external_body]
fn url_error_text(e: &UrlParseError) -> (s: String) {
    format!("{}", e)
}

impl RelayError {
    /// The message shown when relay mode stops on this error.
    pub fn message(&self) -> (s: String)
        ensures
            self is NoRoomGiven ==> s@ == "In relay mode, you must either:\n  --create-room  Create a new room\n  --join <CODE>  Join an existing room"@,
            self is InvalidServerUrl ==> s@ == "Invalid server URL"@,
            self is NoRoomInReply ==> s@ == "Failed to parse room creation response"@,
    {
        match self {
            RelayError::NoRoomGiven => String::from_str(
                "In relay mode, you must either:\n  --create-room  Create a new room\n  --join <CODE>  Join an existing room",
            ),
            RelayError::BadUrl(e) => url_error_text(e),
            RelayError::InvalidServerUrl => String::from_str("Invalid server URL"),
            RelayError::NoRoomInReply => String::from_str("Failed to parse room creation response"),
        }
    }
}

/// Which room to use in relay mode.
#[derive(Debug)]
pub enum RoomChoice {
    /// Ask the server for a new room.
    Create,
    /// Join the room with this code.
    Join(String),
}

/// Decides the room: creating one when asked to, else joining the given code
/// in upper case; with neither, relay mode cannot start.
pub fn choose_room(create_room: bool, join: Option<&str>) -> (r: Result<RoomChoice, RelayError>)
    ensures
        create_room ==> r matches Ok(RoomChoice::Create),
        !create_room && join is Some ==> (r matches Ok(RoomChoice::Join(code)) && code@ == spec_to_uppercase(join->Some_0@)),
        !create_room && join is None ==> r matches Err(RelayError::NoRoomGiven),
{
    if create_room {
        Ok(RoomChoice::Create)
    } else {
        match join {
            Some(code) => Ok(RoomChoice::Join(to_uppercase(code))),
            None => Err(RelayError::NoRoomGiven),
        }
    }
}

/// The hello sent to the relay: a `Pong` with this device's identity, address
/// `relay` and port 0.
pub fn relay_hello(device: &Device) -> (m: Message)
    ensures
        m matches Message::Pong { device_id, device_name, local_address, port } && device_id
            == device.id && device_name@ == device.name@ && local_address@ == "relay"@ && port == 0,
{
    Message::Pong {
        device_id: device.id,
        device_name: device.name.clone(),
        local_address: String::from_str("relay"),
        port: 0,
    }
}

/// The WebSocket form of a server address: kept when it is `ws://` or `wss://`,
/// `http://` turned into `ws://` and `https://` into `wss://` (every occurrence,
/// as `str::replace` does), anything else prefixed with `ws://`.
pub open spec fn websocket_base(s: Seq<char>) -> Seq<char> {
    if has_prefix(s, "ws://"@) || has_prefix(s, "wss://"@) {
        s
    } else if has_prefix(s, "http://"@) {
        replace_all(s, "http://"@, "ws://"@)
    } else if has_prefix(s, "https://"@) {
        replace_all(s, "https://"@, "wss://"@)
    } else {
        "ws://"@ + s
    }
}

/// The WebSocket address of a room: the server's WebSocket address without
/// trailing `/`, then `/rooms/<room>/ws`.
pub open spec fn websocket_url(server: Seq<char>, room: Seq<char>) -> Seq<char> {
    trim_end(websocket_base(server), '/') + "/rooms/"@ + room + "/ws"@
}

/// Builds the WebSocket URL of a room from the server URL and the room code.
pub fn build_ws_url(server_url: &str, room_id: &str) -> (r: Result<String, RelayError>)
    ensures
        r matches Ok(u) && u@ == websocket_url(server_url@, room_id@),
{
    proof {
        reveal_strlit("ws://");
        reveal_strlit("wss://");
        reveal_strlit("http://");
        reveal_strlit("https://");
    }
    let s = chars_of(server_url);
    let ws = chars_of("ws://");
    let wss = chars_of("wss://");
    let http = chars_of("http://");
    let https = chars_of("https://");
    let base: Vec<char> = if starts_with(s.as_slice(), ws.as_slice()) || starts_with(s.as_slice(), wss.as_slice()) {
        s
    } else if starts_with(s.as_slice(), http.as_slice()) {
        replace_chars(s.as_slice(), http.as_slice(), ws.as_slice())
    } else if starts_with(s.as_slice(), https.as_slice()) {
        replace_chars(s.as_slice(), https.as_slice(), wss.as_slice())
    } else {
        let mut v = ws;
        let mut i: usize = 0;
        let ghost start = v@;
        while i < s.len()
            invariant
                i <= s@.len(),
                v@ == start + s@.take(i as int),
            decreases s@.len() - i,
        {
            v.push(s[i]);
            assert(s@.take(i + 1) == s@.take(i as int).push(s@[i as int]));
            i = i + 1;
        }
        assert(s@.take(s@.len() as int) == s@);
        v
    };
    let trimmed = trim_end_chars(base.as_slice(), '/');
    let mut url = string_from_chars(trimmed.as_slice());
    url.append("/rooms/");
    url.append(room_id);
    url.append("/ws");
    Ok(url)
}

/// What `url::Url::parse` makes of a text: `None` when it is not a URL, else
/// the URL's `host_str` and `port`.
pub uninterp spec fn spec_url_host_port(s: Seq<char>) -> Option<(Option<Seq<char>>, Option<u16>)>;

/// Calls `url::Url::parse`, then `host_str` and `port` on the URL. URL parsing
/// is left to the name `spec_url_host_port`.
#[verifier::external_body]
fn url_host_port(s: &str) -> (r: Result<(Option<String>, Option<u16>), UrlParseError>)
    ensures
        r is Ok == spec_url_host_port(s@) is Some,
        r matches Ok((h, p)) ==> spec_url_host_port(s@) == Some((host_view(h), p)),
{
    match url::Url::parse(s) {
        Ok(u) => Ok((u.host_str().map(|h| h.to_string()), u.port())),
        Err(e) => Err(e),
    }
}

/// The view of an optional host.
pub open spec fn host_view(h: Option<String>) -> Option<Seq<char>> {
    match h {
        Some(s) => Some(s@),
        None => None,
    }
}

/// The HTTP address of a relay server: `ws://` turned into `http://` and
/// `wss://` into `https://`, then `/rooms` appended.
pub open spec fn rooms_endpoint(server: Seq<char>) -> Seq<char> {
    replace_all(replace_all(server, "ws://"@, "http://"@), "wss://"@, "https://"@) + "/rooms"@
}

/// The request that asks the server for a new room.
pub open spec fn room_request_text(host: Seq<char>) -> Seq<char> {
    "POST /rooms HTTP/1.1\r\nHost: "@ + host + "\r\nContent-Length: 0\r\nConnection: close\r\n\r\n"@
}

/// Where and what to send to create a room.
#[derive(Debug)]
pub struct RoomRequest {
    pub host: String,
    pub port: u16,
    pub request: String,
}

/// Works out where to send the room request, and the request itself, from the
/// server's address. The port is the URL's, else 3002.
pub fn room_request(server_url: &str) -> (r: Result<RoomRequest, RelayError>)
    ensures
        spec_url_host_port(rooms_endpoint(server_url@)) is None <==> r matches Err(RelayError::BadUrl(_)),
        r matches Err(e) ==> (e is BadUrl || e is InvalidServerUrl),
        spec_url_host_port(rooms_endpoint(server_url@)) matches Some((h, p)) ==> match h {
            None => r matches Err(RelayError::InvalidServerUrl),
            Some(host) => r matches Ok(q) && q.host@ == host && q.request@ == room_request_text(host)
                && q.port == match p {
                    Some(n) => n,
                    None => DEFAULT_RELAY_PORT,
                },
        },
{
    proof {
        reveal_strlit("ws://");
        reveal_strlit("wss://");
        reveal_strlit("http://");
        reveal_strlit("https://");
    }
    let s = chars_of(server_url);
    let ws = chars_of("ws://");
    let wss = chars_of("wss://");
    let http = chars_of("http://");
    let https = chars_of("https://");
    let step1 = replace_chars(s.as_slice(), ws.as_slice(), http.as_slice());
    let step2 = replace_chars(step1.as_slice(), wss.as_slice(), https.as_slice());
    let mut url = string_from_chars(step2.as_slice());
    url.append("/rooms");
    match url_host_port(url.as_str()) {
        Err(e) => Err(RelayError::BadUrl(e)),
        Ok((host, port)) => match host {
            None => Err(RelayError::InvalidServerUrl),
            Some(host) => {
                let port = match port {
                    Some(p) => p,
                    None => DEFAULT_RELAY_PORT,
                };
                let mut request = String::from_str("POST /rooms HTTP/1.1\r\nHost: ");
                request.append(host.as_str());
                request.append("\r\nContent-Length: 0\r\nConnection: close\r\n\r\n");
                Ok(RoomRequest { host, port, request })
            },
        },
    }
}

/// The first position at or after `from` where `p` occurs in `s`.
pub open spec fn first_occurrence(s: Seq<char>, p: Seq<char>, from: int) -> Option<int>
    decreases s.len() + 1 - from,
{
    if from < 0 || from > s.len() {
        None
    } else if occurs_at(s, p, from) {
        Some(from)
    } else {
        first_occurrence(s, p, from + 1)
    }
}

proof fn lemma_first_occurrence_found(s: Seq<char>, p: Seq<char>, from: int, k: int)
    requires
        0 <= from <= k,
        occurs_at(s, p, k),
        forall|j: int| from <= j < k ==> !occurs_at(s, p, j),
    ensures
        first_occurrence(s, p, from) == Some(k),
    decreases k - from,
{
    if from < k {
        lemma_first_occurrence_found(s, p, from + 1, k);
    }
}

proof fn lemma_first_occurrence_absent(s: Seq<char>, p: Seq<char>, from: int)
    requires
        0 <= from,
        forall|j: int| from <= j ==> !occurs_at(s, p, j),
    ensures
        first_occurrence(s, p, from) is None,
    decreases s.len() + 1 - from,
{
    if from <= s.len() {
        lemma_first_occurrence_absent(s, p, from + 1);
    }
}

/// The key that precedes the room code in the server's reply.
pub open spec fn room_marker() -> Seq<char> {
    "\"room_id\":\""@
}

/// The room code in a reply: what follows the first `"room_id":"` up to the
/// next `"`.
pub open spec fn room_code_in(s: Seq<char>) -> Option<Seq<char>> {
    match first_occurrence(s, room_marker(), 0) {
        Some(k) => match first_occurrence(s, seq!['"'], k + 11) {
            Some(e) => Some(s.subrange(k + 11, e)),
            None => None,
        },
        None => None,
    }
}

/// The body of the server's reply to a room request: `{"room_id":"<code>"}`.
pub open spec fn room_created_body(code: Seq<char>) -> Seq<char> {
    "{"@ + room_marker() + code + "\"}"@
}

/// The code in the body of the server's reply is read back unchanged, provided
/// it holds no `"` (room codes are letters and digits).
pub proof fn lemma_room_code_roundtrip(code: Seq<char>)
    requires
        forall|i: int| 0 <= i < code.len() ==> code[i] != '"',
    ensures
        room_code_in(room_created_body(code)) == Some(code),
{
    reveal_strlit("{");
    reveal_strlit("\"room_id\":\"");
    reveal_strlit("\"}");
    let body = room_created_body(code);
    let m = room_marker();
    assert(m.len() == 11);
    assert(body[0] == '{');
    assert(!occurs_at(body, m, 0)) by {
        assert(body.subrange(0, 11)[0] != m[0]);
    }
    assert(body.subrange(1, 12) == m);
    lemma_first_occurrence_found(body, m, 0, 1);
    let q = seq!['"'];
    let e: int = 12 + code.len() as int;
    assert(body[e] == '"');
    assert(body.subrange(e, e + 1) == q);
    assert forall|j: int| 12 <= j < e implies !occurs_at(body, q, j) by {
        assert(body[j] == code[j - 12]);
        assert(body.subrange(j, j + 1)[0] == body[j]);
    }
    lemma_first_occurrence_found(body, q, 12, e);
    assert(body.subrange(12, e) == code);
}

/// A code that the server generates is read back from the server's reply
/// unchanged.
pub proof fn lemma_created_room_code_read_back(code: Seq<char>)
    requires
        crate::server::is_room_code(code),
    ensures
        room_code_in(room_created_body(code)) == Some(code),
{
    crate::server::lemma_room_code_alphanumeric(code);
    lemma_room_code_roundtrip(code);
}

/// Reads the room code out of the server's reply to a room request.
pub fn extract_room_id(response: &str) -> (r: Result<String, RelayError>)
    ensures
        room_code_in(response@) matches Some(c) ==> (r matches Ok(code) && code@ == c),
        room_code_in(response@) is None ==> r matches Err(RelayError::NoRoomInReply),
{
    proof {
        reveal_strlit("\"room_id\":\"");
        reveal_strlit("\"");
    }
    let s = chars_of(response);
    let marker = chars_of("\"room_id\":\"");
    let quote = chars_of("\"");
    assert(quote@ == seq!['"']);
    match find_from(s.as_slice(), marker.as_slice(), 0) {
        Some(k) => {
            proof {
                lemma_first_occurrence_found(s@, marker@, 0, k as int);
            }
            assert(marker@.len() == 11);
            let n: usize = s.len();
            assert(k + 11 <= n);
            let start: usize = k + 11;
            match find_from(s.as_slice(), quote.as_slice(), start) {
                Some(e) => {
                    proof {
                        lemma_first_occurrence_found(s@, quote@, start as int, e as int);
                    }
                    let mut code: Vec<char> = Vec::new();
                    let mut i: usize = start;
                    while i < e
                        invariant
                            start <= i <= e,
                            e <= s@.len(),
                            code@ == s@.subrange(start as int, i as int),
                        decreases e - i,
                    {
                        code.push(s[i]);
                        assert(s@.subrange(start as int, i + 1) == s@.subrange(start as int, i as int).push(s@[i as int]));
                        i = i + 1;
                    }
                    Ok(string_from_chars(code.as_slice()))
                },
                None => {
                    proof {
                        lemma_first_occurrence_absent(s@, quote@, start as int);
                    }
                    Err(RelayError::NoRoomInReply)
                },
            }
        },
        None => {
            proof {
                lemma_first_occurrence_absent(s@, marker@, 0);
            }
            Err(RelayError::NoRoomInReply)
        },
    }
}

} // verus!
