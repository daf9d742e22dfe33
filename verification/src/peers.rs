//! Local-network peers: the presence announcements sent over UDP broadcast,
//! the table of connected peers, the hello exchanged on a new connection, and the
//! clipboard bookkeeping that keeps devices from echoing each other or applying
//! stale updates.

use vstd::prelude::*;
use std::collections::HashMap;

use crate::clipboard::{Timestamp, is_later};
use crate::device::{Device, DeviceId, parse_uuid, spec_parse_uuid, uuid_text, hex_char, hex_digits};
use crate::discovery::{DiscoveryEvent, IpAddress, DEFAULT_PORT};
use crate::protocol::Message;
use crate::text::{
    chars_of, split_chars, split_on, string_from_chars, chars_equal, parse_u16, parse_u16_spec,
    decimal, decimal_text, is_digit, lemma_decimal_digits, lemma_split_on_nonempty,
    spec_utf8_lossy, utf8_lossy,
};

verus! {

broadcast use vstd::std_specs::hash::group_hash_axioms;

/// The UDP port on which presence announcements are broadcast.
pub const BROADCAST_PORT: u16 = 43211;

/// An announcement made of an identifier's text, a name and a port:
/// `CLIPSYNC:<id>:<name>:<port>`.
pub open spec fn announcement_of(id: Seq<char>, name: Seq<char>, port: u16) -> Seq<char> {
    "CLIPSYNC:"@ + id + ":"@ + name + ":"@ + decimal(port as nat)
}

/// The text a device broadcasts to announce itself, with its identifier in
/// hyphenated form.
pub open spec fn announcement_text(id: u128, name: Seq<char>, port: u16) -> Seq<char> {
    announcement_of(uuid_text(id), name, port)
}

/// What an announcement says: the identifier's text, the name and the port, when
/// the text has at least four `:`-separated fields and the first is `CLIPSYNC`.
/// A port that does not parse is taken as the default port.
pub open spec fn parse_announcement(s: Seq<char>) -> Option<(Seq<char>, Seq<char>, u16)> {
    let parts = split_on(s, ':');
    if parts.len() >= 4 && parts[0] == "CLIPSYNC"@ {
        Some(
            (
                parts[1],
                parts[2],
                match parse_u16_spec(parts[3]) {
                    Some(p) => p,
                    None => DEFAULT_PORT,
                },
            ),
        )
    } else {
        None
    }
}

/// Splitting `a`, a separator and `b` gives the fields of `a` followed by those
/// of `b`.
proof fn lemma_split_concat(a: Seq<char>, b: Seq<char>, sep: char)
    ensures
        split_on(a + seq![sep] + b, sep) == split_on(a, sep) + split_on(b, sep),
    decreases b.len(),
{
    let s = a + seq![sep] + b;
    lemma_split_on_nonempty(a, sep);
    if b.len() == 0 {
        assert(s.drop_last() == a);
        assert(split_on(s, sep) == split_on(a, sep).push(Seq::<char>::empty()));
        assert(split_on(b, sep) == seq![Seq::<char>::empty()]);
        assert(split_on(a, sep).push(Seq::<char>::empty()) == split_on(a, sep) + seq![Seq::<char>::empty()]);
    } else {
        lemma_split_concat(a, b.drop_last(), sep);
        lemma_split_on_nonempty(b.drop_last(), sep);
        assert(s.drop_last() == a + seq![sep] + b.drop_last());
        assert(s.last() == b.last());
        let x = split_on(a, sep);
        let y = split_on(b.drop_last(), sep);
        if b.last() == sep {
            assert((x + y).push(Seq::<char>::empty()) == x + y.push(Seq::<char>::empty()));
        } else {
            assert((x + y).last() == y.last());
            assert((x + y).update((x + y).len() - 1, y.last().push(b.last())) == x + y.update(
                y.len() - 1,
                y.last().push(b.last()),
            ));
        }
    }
}

/// A text without the separator is a single field.
proof fn lemma_split_single(s: Seq<char>, sep: char)
    requires
        forall|i: int| 0 <= i < s.len() ==> s[i] != sep,
    ensures
        split_on(s, sep) == seq![s],
    decreases s.len(),
{
    if s.len() > 0 {
        lemma_split_single(s.drop_last(), sep);
        assert(s.drop_last().push(s.last()) == s);
        assert(s.last() != sep);
        assert(seq![s.drop_last()].update(0, s) == seq![s]);
    } else {
        assert(s == Seq::<char>::empty());
    }
}

/// No hexadecimal digit is a `:`.
proof fn lemma_hex_digits_no_colon(v: nat, n: nat)
    ensures
        forall|i: int| 0 <= i < hex_digits(v, n).len() ==> hex_digits(v, n)[i] != ':',
    decreases n,
{
    if n > 0 {
        lemma_hex_digits_no_colon(v / 16, (n - 1) as nat);
        let hex = seq!['0', '1', '2', '3', '4', '5', '6', '7', '8', '9', 'a', 'b', 'c', 'd', 'e', 'f'];
        assert(forall|d: int| 0 <= d < 16 ==> hex[d] != ':');
        assert(hex_char(v % 16) != ':');
        let h = hex_digits(v, n);
        assert forall|i: int| 0 <= i < h.len() implies h[i] != ':' by {
            if i < h.len() - 1 {
                assert(h[i] == hex_digits(v / 16, (n - 1) as nat)[i]);
            }
        }
    }
}

/// No character of an identifier's text is a `:`.
proof fn lemma_uuid_text_no_colon(id: u128)
    ensures
        forall|i: int| 0 <= i < uuid_text(id).len() ==> uuid_text(id)[i] != ':',
{
    lemma_hex_digits_no_colon(id as nat, 32);
    crate::device::lemma_hex_digits_len(id as nat, 32);
    let h = hex_digits(id as nat, 32);
    let t = uuid_text(id);
    assert forall|i: int| 0 <= i < t.len() implies t[i] != ':' by {
        crate::device::lemma_uuid_text_shape(id);
        if i < 8 {
            assert(t[i] == h[i]);
        } else if i == 8 || i == 13 || i == 18 || i == 23 {
        } else if i < 13 {
            assert(t[i] == h[i - 1]);
        } else if i < 18 {
            assert(t[i] == h[i - 2]);
        } else if i < 23 {
            assert(t[i] == h[i - 3]);
        } else {
            assert(t[i] == h[i - 4]);
        }
    }
}

/// An announcement is read back as it was written: the identifier's text, the
/// name and the port, for any identifier and name that hold no `:`.
pub proof fn lemma_announcement_fields_roundtrip(id: Seq<char>, name: Seq<char>, port: u16)
    requires
        forall|i: int| 0 <= i < id.len() ==> id[i] != ':',
        forall|i: int| 0 <= i < name.len() ==> name[i] != ':',
    ensures
        parse_announcement(announcement_of(id, name, port)) == Some((id, name, port)),
{
    reveal_strlit("CLIPSYNC:");
    reveal_strlit("CLIPSYNC");
    reveal_strlit(":");
    let tag = "CLIPSYNC"@;
    let d = decimal(port as nat);
    assert("CLIPSYNC:"@ == tag + seq![':']);
    assert(":"@ == seq![':']);
    let rest2 = name + seq![':'] + d;
    let rest1 = id + seq![':'] + rest2;
    assert(announcement_of(id, name, port) == tag + seq![':'] + rest1);
    lemma_decimal_digits(port as nat);
    assert forall|i: int| 0 <= i < d.len() implies d[i] != ':' by {
        assert(is_digit(d[i]));
    }
    assert forall|i: int| 0 <= i < tag.len() implies tag[i] != ':' by {}
    lemma_split_concat(tag, rest1, ':');
    lemma_split_concat(id, rest2, ':');
    lemma_split_concat(name, d, ':');
    lemma_split_single(tag, ':');
    lemma_split_single(id, ':');
    lemma_split_single(name, ':');
    lemma_split_single(d, ':');
    let parts = split_on(announcement_of(id, name, port), ':');
    assert(parts == seq![tag] + (seq![id] + (seq![name] + seq![d])));
    assert(parts[0] == tag && parts[1] == id && parts[2] == name && parts[3] == d);
    assert(is_digit(d[0]));
    assert(crate::text::unsigned_digits(d) == d);
}

/// A device's announcement is read back as it was written: its identifier's
/// text, its name and the port, provided the name holds no `:`.
pub proof fn lemma_announcement_roundtrip(id: u128, name: Seq<char>, port: u16)
    requires
        forall|i: int| 0 <= i < name.len() ==> name[i] != ':',
    ensures
        parse_announcement(announcement_text(id, name, port)) == Some((uuid_text(id), name, port)),
{
    lemma_uuid_text_no_colon(id);
    lemma_announcement_fields_roundtrip(uuid_text(id), name, port);
}

/// The announcement a device broadcasts.
pub fn broadcast_announcement(device: &Device, port: u16) -> (s: String)
    ensures
        s@ == announcement_text(device.id@, device.name@, port),
{
    let mut s = String::from_str("CLIPSYNC:");
    let id = device.id.to_string();
    s.append(id.as_str());
    s.append(":");
    s.append(device.name.as_str());
    s.append(":");
    let p = decimal_text(port as u64);
    s.append(p.as_str());
    s
}

/// Reads an announcement: (identifier text, name, port).
pub fn parse_broadcast(msg: &str) -> (r: Option<(String, String, u16)>)
    ensures
        r is Some == parse_announcement(msg@) is Some,
        r matches Some((id, name, port)) ==> parse_announcement(msg@) == Some((id@, name@, port)),
{
    let chars = chars_of(msg);
    let parts = split_chars(chars.as_slice(), ':');
    let ghost spec_parts = split_on(msg@, ':');
    let tag = seq_clipsync();
    if parts.len() >= 4 && chars_equal(parts[0].as_slice(), tag.as_slice()) {
        let port = match parse_u16(parts[3].as_slice()) {
            Some(p) => p,
            None => DEFAULT_PORT,
        };
        let id = string_from_chars(parts[1].as_slice());
        let name = string_from_chars(parts[2].as_slice());
        return Some((id, name, port));
    }
    None
}

/// The characters of `CLIPSYNC`.
fn seq_clipsync() -> (v: Vec<char>)
    ensures
        v@ == "CLIPSYNC"@,
{
    proof {
        reveal_strlit("CLIPSYNC");
    }
    chars_of("CLIPSYNC")
}

/// An IP address with a port.
#[derive(Debug, Clone, Copy, PartialEq, Eq)]
pub struct SocketAddress {
    pub ip: IpAddress,
    pub port: u16,
}

/// A connected peer device.
#[derive(Debug, Clone)]
pub struct Peer {
    pub device_id: DeviceId,
    pub device_name: String,
    pub addr: SocketAddress,
}

/// What became of a peer's hello on a new connection.
#[derive(Debug)]
pub enum Admission {
    /// The peer is now connected.
    Admitted { peer_id: DeviceId, peer_name: String },
    /// The hello came from this device itself.
    OwnDevice,
    /// A connection to that device already exists.
    AlreadyConnected,
    /// The first line was not a `Pong`.
    InvalidHello,
}

/// What to do about a discovery event.
#[derive(Debug)]
pub enum DiscoveryAction {
    /// Nothing: our own device, a known peer, or no address to reach.
    Ignore,
    /// Connect to a newly found device.
    Connect { device_id: DeviceId, device_name: String, address: SocketAddress },
    /// A device went away; the peer that was removed, if there was one.
    Lost { peer: Option<Peer> },
}

/// The connected peers, by the value of their identifier.
pub struct PeerRegistry {
    peers: HashMap<u128, Peer>,
}

impl PeerRegistry {
    /// The peers, keyed by their identifier's value.
    pub closed spec fn view(&self) -> Map<u128, Peer> {
        self.peers@
    }

    /// Each peer is filed under its own identifier.
    #[verifier::type_invariant]
    spec fn wf(&self) -> bool {
        forall|k: u128| #[trigger] self.peers@.contains_key(k) ==> self.peers@[k].device_id@ == k
    }

    /// No peers.
    pub fn new() -> (r: PeerRegistry)
        ensures
            r.view() == Map::<u128, Peer>::empty(),
    {
        PeerRegistry { peers: HashMap::new() }
    }

    /// Whether a device is connected.
    pub fn is_connected(&self, id: &DeviceId) -> (r: bool)
        ensures
            r == self.view().contains_key(id@),
    {
        self.peers.contains_key(&id.as_uuid())
    }

    /// The number of connected peers.
    pub fn len(&self) -> (n: usize)
        ensures
            n == self.view().len(),
    {
        self.peers.len()
    }

    /// Handles the hello a connection starts with. A `Pong` from another device
    /// that is not yet connected makes it a peer at `addr`; anything else leaves
    /// the peers as they are.
    pub fn accept_hello(&mut self, own: &DeviceId, hello: Option<Message>, addr: SocketAddress) -> (r: Admission)
        ensures
            match hello {
                Some(Message::Pong { device_id, device_name, .. }) => {
                    if device_id == *own {
                        r is OwnDevice && final(self).view() == old(self).view()
                    } else if old(self).view().contains_key(device_id@) {
                        r is AlreadyConnected && final(self).view() == old(self).view()
                    } else {
                        &&& r matches Admission::Admitted { peer_id, peer_name } && peer_id == device_id && peer_name@ == device_name@
                        &&& final(self).view().dom() == old(self).view().dom().insert(device_id@)
                        &&& final(self).view()[device_id@].device_name@ == device_name@
                        &&& final(self).view()[device_id@].addr == addr
                        &&& forall|k: u128| k != device_id@ && #[trigger] old(self).view().contains_key(k) ==> final(self).view()[k] == old(self).view()[k]
                    }
                },
                _ => r is InvalidHello && final(self).view() == old(self).view(),
            },
    {
        proof {
            use_type_invariant(&*self);
        }
        match hello {
            Some(Message::Pong { device_id, device_name, .. }) => {
                if device_id == *own {
                    return Admission::OwnDevice;
                }
                if self.peers.contains_key(&device_id.as_uuid()) {
                    return Admission::AlreadyConnected;
                }
                let peer = Peer { device_id, device_name: device_name.clone(), addr };
                let mut peers = HashMap::new();
                std::mem::swap(&mut peers, &mut self.peers);
                peers.insert(device_id.as_uuid(), peer);
                self.peers = peers;
                Admission::Admitted { peer_id: device_id, peer_name: device_name }
            },
            _ => Admission::InvalidHello,
        }
    }

    /// Forgets a peer, returning it if it was connected.
    pub fn remove(&mut self, id: &DeviceId) -> (r: Option<Peer>)
        ensures
            final(self).view() == old(self).view().remove(id@),
            old(self).view().contains_key(id@) == r is Some,
            r matches Some(p) ==> p == old(self).view()[id@],
    {
        proof {
            use_type_invariant(&*self);
        }
        let mut peers = HashMap::new();
        std::mem::swap(&mut peers, &mut self.peers);
        let r = peers.remove(&id.as_uuid());
        self.peers = peers;
        r
    }

    /// Decides what a discovery event calls for. A found device that is neither
    /// this one nor connected is to be connected to at its first address and its
    /// port; a lost device is removed from the peers.
    pub fn on_discovery_event(&mut self, own: &DeviceId, event: DiscoveryEvent) -> (r: DiscoveryAction)
        ensures
            match event {
                DiscoveryEvent::DeviceFound { device_id, device_name, addresses, port } => {
                    &&& final(self).view() == old(self).view()
                    &&& if device_id == *own || old(self).view().contains_key(device_id@) || addresses@.len() == 0 {
                        r is Ignore
                    } else {
                        r matches DiscoveryAction::Connect { device_id: d, device_name: n, address } && d == device_id && n@ == device_name@ && address == (SocketAddress { ip: addresses@[0], port })
                    }
                },
                DiscoveryEvent::DeviceLost { device_id } => {
                    &&& final(self).view() == old(self).view().remove(device_id@)
                    &&& r matches DiscoveryAction::Lost { peer } && (peer is Some == old(self).view().contains_key(device_id@))
                },
            },
    {
        match event {
            DiscoveryEvent::DeviceFound { device_id, device_name, addresses, port } => {
                if device_id == *own {
                    return DiscoveryAction::Ignore;
                }
                if self.peers.contains_key(&device_id.as_uuid()) {
                    return DiscoveryAction::Ignore;
                }
                if addresses.len() == 0 {
                    return DiscoveryAction::Ignore;
                }
                DiscoveryAction::Connect {
                    device_id,
                    device_name,
                    address: SocketAddress { ip: addresses[0], port },
                }
            },
            DiscoveryEvent::DeviceLost { device_id } => {
                let peer = self.remove(&device_id);
                DiscoveryAction::Lost { peer }
            },
        }
    }

    /// Reads a broadcast datagram. An announcement from another device that is
    /// not yet connected yields its identifier and name, to connect to.
    pub fn on_announcement(&self, own: &DeviceId, datagram: &[u8]) -> (r: Option<(DeviceId, String)>)
        ensures
            r matches Some((id, name)) ==> {
                &&& parse_announcement(spec_utf8_lossy(datagram@)) matches Some((t, n, _))
                &&& spec_parse_uuid(t) == Some(id@)
                &&& name@ == n
                &&& id != *own
                &&& !self.view().contains_key(id@)
            },
            r is None ==> match parse_announcement(spec_utf8_lossy(datagram@)) {
                Some((t, n, _)) => match spec_parse_uuid(t) {
                    Some(v) => v == own@ || self.view().contains_key(v),
                    None => true,
                },
                None => true,
            },
    {
        let text = utf8_lossy(datagram);
        match parse_broadcast(text.as_str()) {
            Some((id_text, name, _port)) => {
                match parse_uuid(id_text.as_str()) {
                    Some(v) => {
                        let id = DeviceId::from_uuid(v);
                        proof {
                            crate::device::lemma_device_id_eq(id, *own);
                        }
                        if id == *own {
                            return None;
                        }
                        if self.peers.contains_key(&v) {
                            return None;
                        }
                        Some((id, name))
                    },
                    None => None,
                }
            },
            None => None,
        }
    }
}

/// The hello sent first on a local connection: a `Pong` with this device's
/// identity, the local address as seen on the connection, and the default port.
pub fn local_hello(device: &Device, local_address: &str) -> (m: Message)
    ensures
        m matches Message::Pong { device_id, device_name, local_address: a, port } && device_id
            == device.id && device_name@ == device.name@ && a@ == local_address@ && port
            == DEFAULT_PORT,
{
    Message::Pong {
        device_id: device.id,
        device_name: device.name.clone(),
        local_address: String::from_str(local_address),
        port: DEFAULT_PORT,
    }
}

/// The message that shares clipboard text with peers.
pub fn sync_message(device: &Device, content: String, timestamp: Timestamp) -> (m: Message)
    ensures
        m matches Message::ClipboardSync { from_device, device_name, content: c, timestamp: t }
            && from_device == device.id && device_name@ == device.name@ && c == content && t
            == timestamp,
{
    Message::ClipboardSync {
        from_device: device.id,
        device_name: device.name.clone(),
        content,
        timestamp,
    }
}

/// The view of an optional text.
pub open spec fn text_view(o: Option<String>) -> Option<Seq<char>> {
    match o {
        Some(s) => Some(s@),
        None => None,
    }
}

/// Whether two optional texts are equal.
pub fn same_text(a: &Option<String>, b: &Option<String>) -> (r: bool)
    ensures
        r == (text_view(*a) == text_view(*b)),
{
    match (a, b) {
        (Some(x), Some(y)) => *x == *y,
        (None, None) => true,
        _ => false,
    }
}

/// What to do about a message received from a peer or the relay.
#[derive(Debug)]
pub enum IncomingAction {
    /// Nothing to do.
    Ignore,
    /// Put this text on the local clipboard; it came from the named device.
    Apply { device_name: String, content: String },
    /// The other side reported an error.
    Report { message: String },
}

/// Clipboard bookkeeping shared by the tasks of one device: the text it last put
/// on the clipboard from a peer (so as not to send it back), and the time of the
/// last update it accepted (so that older ones lose).
#[derive(Debug)]
pub struct SyncState {
    pub last_set_content: Option<String>,
    pub last_received: Option<Timestamp>,
}

impl SyncState {
    /// Nothing set, nothing received.
    pub fn new() -> (s: SyncState)
        ensures
            s.last_set_content is None,
            s.last_received is None,
    {
        SyncState { last_set_content: None, last_received: None }
    }

    /// Handles a received message. A `ClipboardSync` from another device is to be
    /// applied when it is strictly later than every one accepted before
    /// (last write wins), and its time is remembered; one from this device, or an
    /// older one, is ignored. An `Error` is to be reported; the rest is ignored.
    pub fn receive(&mut self, own: &DeviceId, msg: Message) -> (r: IncomingAction)
        ensures
            final(self).last_set_content == old(self).last_set_content,
            match msg {
                Message::ClipboardSync { from_device, device_name, content, timestamp } => {
                    if from_device == *own || (old(self).last_received matches Some(last) && !is_later(timestamp, last)) {
                        r is Ignore && final(self).last_received == old(self).last_received
                    } else {
                        &&& r matches IncomingAction::Apply { device_name: n, content: c } && n == device_name && c == content
                        &&& final(self).last_received == Some(timestamp)
                    }
                },
                Message::Error { message, .. } => {
                    r matches IncomingAction::Report { message: m } && m == message && final(self).last_received == old(self).last_received
                },
                _ => r is Ignore && final(self).last_received == old(self).last_received,
            },
            old(self).last_received matches Some(last) ==> (final(self).last_received matches Some(now) && (now == last || is_later(now, last))),
    {
        match msg {
            Message::ClipboardSync { from_device, device_name, content, timestamp } => {
                if from_device == *own {
                    return IncomingAction::Ignore;
                }
                match &self.last_received {
                    Some(last) => {
                        if !timestamp.is_after(last) {
                            return IncomingAction::Ignore;
                        }
                    },
                    None => {},
                }
                self.last_received = Some(timestamp);
                IncomingAction::Apply { device_name, content }
            },
            Message::Error { message, .. } => IncomingAction::Report { message },
            _ => IncomingAction::Ignore,
        }
    }

    /// Records the text about to be put on the local clipboard.
    pub fn note_applied(&mut self, content: String)
        ensures
            final(self).last_set_content == Some(content),
            final(self).last_received == old(self).last_received,
    {
        self.last_set_content = Some(content);
    }
}

/// The clipboard text last seen by a polling monitor.
#[derive(Debug)]
pub struct ClipboardMonitor {
    pub last_content: Option<String>,
}

impl ClipboardMonitor {
    /// Nothing seen yet.
    pub fn new() -> (m: ClipboardMonitor)
        ensures
            m.last_content is None,
    {
        ClipboardMonitor { last_content: None }
    }

    /// Handles one poll of the clipboard (`current` is `None` when it holds no
    /// text). New text is to be sent when there is someone to send it to, unless
    /// it is the text this device just put there for a peer; any other new text
    /// clears that mark.
    pub fn observe(&mut self, sync: &mut SyncState, current: Option<String>, has_peers: bool) -> (r: Option<String>)
        ensures
            text_view(final(self).last_content) == text_view(current),
            final(sync).last_received == old(sync).last_received,
            if text_view(current) == text_view(old(self).last_content) || current is None {
                r is None && final(sync).last_set_content == old(sync).last_set_content
            } else if text_view(old(sync).last_set_content) == text_view(current) {
                r is None && final(sync).last_set_content == old(sync).last_set_content
            } else {
                &&& final(sync).last_set_content is None
                &&& if has_peers {
                    r matches Some(t) && t@ == current->Some_0@
                } else {
                    r is None
                }
            },
    {
        if same_text(&current, &self.last_content) {
            self.last_content = current;
            return None;
        }
        let result = match &current {
            Some(text) => {
                let echo = match &sync.last_set_content {
                    Some(last) => *last == *text,
                    None => false,
                };
                if echo {
                    None
                } else {
                    sync.last_set_content = None;
                    if has_peers {
                        Some(text.clone())
                    } else {
                        None
                    }
                }
            },
            None => None,
        };
        self.last_content = current;
        result
    }
}

} // verus!
