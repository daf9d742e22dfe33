//! The relay server's rooms: groups of devices, identified by a short join
//! code, whose messages are passed on to each other.

use vstd::prelude::*;
use vstd::std_specs::iter::IteratorSpec;
use std::collections::HashMap;
use rand::Rng;

use crate::protocol::{ErrorCode, Message};
use crate::text::{str_equal, string_from_chars};
use vstd::string::StrSliceExecFns;

verus! {

broadcast use vstd::std_specs::hash::group_hash_axioms;

/// The characters of a room code: capital letters and digits, without the
/// easily confused `I`, `O`, `0` and `1`.
pub open spec fn room_code_charset() -> Seq<char> {
    "ABCDEFGHJKLMNPQRSTUVWXYZ23456789"@
}

/// `c` is an ASCII letter or digit.
pub open spec fn is_ascii_alphanumeric(c: char) -> bool {
    ('A' <= c && c <= 'Z') || ('a' <= c && c <= 'z') || ('0' <= c && c <= '9')
}

/// A well-formed room code: six characters of the code alphabet.
pub open spec fn is_room_code(s: Seq<char>) -> bool {
    s.len() == 6 && forall|i: int| 0 <= i < 6 ==> room_code_charset().contains(#[trigger] s[i])
}

/// Every character of a room code is an ASCII letter or digit, and none is `"`.
pub proof fn lemma_room_code_alphanumeric(s: Seq<char>)
    requires
        is_room_code(s),
    ensures
        forall|i: int| 0 <= i < s.len() ==> is_ascii_alphanumeric(#[trigger] s[i]) && s[i] != '"',
{
    reveal_strlit("ABCDEFGHJKLMNPQRSTUVWXYZ23456789");
    let cs = room_code_charset();
    assert forall|i: int| 0 <= i < s.len() implies is_ascii_alphanumeric(#[trigger] s[i]) && s[i] != '"' by {
        assert(cs.contains(s[i]));
        let j = choose|j: int| 0 <= j < cs.len() && cs[j] == s[i];
        assert(0 <= j < 32);
    }
}

/// Calls `rand::Rng::gen_range(0..bound)` on `rand::thread_rng()`. The number is
/// random; claimed is what the crate documents: it lies in the range (an empty
/// range panics, hence the requirement).
#[verifier::external_body]
fn random_below(bound: usize) -> (r: usize)
    requires
        bound > 0,
    ensures
        r < bound,
{
    rand::thread_rng().gen_range(0..bound)
}

/// A room's join code.
#[derive(Debug, Clone, PartialEq, Eq, Hash)]
pub struct RoomId(String);

impl View for RoomId {
    type V = Seq<char>;

    closed spec fn view(&self) -> Seq<char> {
        self.0@
    }
}

impl RoomId {
    /// Generates a new random room code: six characters drawn from the code
    /// alphabet.
    pub fn generate() -> (r: RoomId)
        ensures
            is_room_code(r@),
    {
        let charset = "ABCDEFGHJKLMNPQRSTUVWXYZ23456789";
        proof {
            reveal_strlit("ABCDEFGHJKLMNPQRSTUVWXYZ23456789");
        }
        let mut code: Vec<char> = Vec::new();
        let mut i: usize = 0;
        while i < 6
            invariant
                i <= 6,
                code@.len() == i,
                charset@ == room_code_charset(),
                charset@.len() == 32,
                forall|j: int| 0 <= j < i ==> room_code_charset().contains(#[trigger] code@[j]),
            decreases 6 - i,
        {
            let idx = random_below(32);
            let c = charset.get_char(idx);
            assert(room_code_charset()[idx as int] == c);
            code.push(c);
            i = i + 1;
        }
        RoomId(string_from_chars(code.as_slice()))
    }

    /// The code as given, for a room looked up by what a client sent.
    pub fn from_text(s: &str) -> (r: RoomId)
        ensures
            r@ == s@,
    {
        RoomId(String::from_str(s))
    }

    /// The code's text.
    pub fn as_str(&self) -> (s: &str)
        ensures
            s@ == self@,
    {
        self.0.as_str()
    }

    /// A copy of the code.
    pub fn duplicate(&self) -> (r: RoomId)
        ensures
            r@ == self@,
    {
        RoomId(self.0.clone())
    }
}

/// A room: its code, the channel its messages go out on, and its devices
/// (identifier value to name).
pub struct Room<C> {
    id: RoomId,
    tx: C,
    devices: HashMap<u128, String>,
}

impl<C> Room<C> {
    /// The room's code.
    pub closed spec fn id_view(&self) -> Seq<char> {
        self.id@
    }

    /// The room's channel.
    pub closed spec fn channel(&self) -> C {
        self.tx
    }

    /// The room's devices: identifier value to name.
    pub closed spec fn devices_view(&self) -> Map<u128, Seq<char>> {
        self.devices@.map_values(|s: String| s@)
    }

    /// A room with no devices.
    pub fn new(id: RoomId, tx: C) -> (r: Room<C>)
        ensures
            r.id_view() == id@,
            r.channel() == tx,
            r.devices_view() == Map::<u128, Seq<char>>::empty(),
    {
        let r = Room { id, tx, devices: HashMap::new() };
        assert(r.devices_view() =~= Map::<u128, Seq<char>>::empty());
        r
    }
}

/// What the server tells about a room.
#[derive(Debug)]
pub struct RoomInfo {
    pub room_id: String,
    pub device_count: usize,
    pub devices: Vec<String>,
}

/// What to do with one frame received from a client.
#[derive(Debug)]
pub enum ClientFrame {
    /// A text frame, with the message it holds if it parsed.
    Text(Option<Message>),
    /// The client asked to close.
    Close,
    /// Binary, ping or pong frames.
    Other,
    /// The connection failed.
    Failed,
}

/// The server's response to a client frame.
#[derive(Debug)]
pub enum SocketStep {
    /// Pass the message on to everyone in the room.
    Broadcast(Message),
    /// Nothing to do.
    Ignore,
    /// Stop serving this client.
    Stop,
}

/// Decides what a frame from a client calls for: a parsed message goes to the
/// room, text that does not parse and non-text frames are ignored, and a close
/// request or a failure ends the connection.
pub fn socket_step(frame: ClientFrame) -> (s: SocketStep)
    ensures
        match frame {
            ClientFrame::Text(Some(m)) => s matches SocketStep::Broadcast(b) && b == m,
            ClientFrame::Text(None) => s is Ignore,
            ClientFrame::Close => s is Stop,
            ClientFrame::Other => s is Ignore,
            ClientFrame::Failed => s is Stop,
        },
{
    match frame {
        ClientFrame::Text(Some(m)) => SocketStep::Broadcast(m),
        ClientFrame::Text(None) => SocketStep::Ignore,
        ClientFrame::Close => SocketStep::Stop,
        ClientFrame::Other => SocketStep::Ignore,
        ClientFrame::Failed => SocketStep::Stop,
    }
}

/// Decides whether a message that went around a room is sent to the client of
/// connection `this`: every client of the room gets it but the one it came
/// from (connection `from`).
pub fn forward_to_client<T>(this: u128, from: u128, message: T) -> (r: Option<T>)
    ensures
        from == this ==> r is None,
        from != this ==> r == Some(message),
{
    if from == this {
        None
    } else {
        Some(message)
    }
}

/// The message sent to a client that asks for a room that does not exist.
pub fn room_not_found() -> (m: Message)
    ensures
        m matches Message::Error { code, message } && code == ErrorCode::Unknown && message@
            == "Room not found"@,
{
    Message::Error { code: ErrorCode::Unknown, message: String::from_str("Room not found") }
}

/// The position of the room with code `id`, if there is one.
pub open spec fn room_index<C>(rooms: Seq<Room<C>>, id: Seq<char>) -> Option<int> {
    if exists|i: int| 0 <= i < rooms.len() && rooms[i].id_view() == id {
        Some(choose|i: int| 0 <= i < rooms.len() && rooms[i].id_view() == id)
    } else {
        None
    }
}

/// `names` are the devices' names in the order of the identifiers `ks`, which
/// list every device once.
pub open spec fn names_in_order(names: Seq<String>, devices: Map<u128, Seq<char>>, ks: Seq<u128>) -> bool {
    &&& ks.len() == names.len()
    &&& ks.no_duplicates()
    &&& ks.to_set() == devices.dom()
    &&& forall|i: int| 0 <= i < names.len() ==> #[trigger] names[i]@ == devices[ks[i]]
}

/// `names` holds each device's name once: the names of the devices, in some
/// order.
pub open spec fn lists_each_device(names: Seq<String>, devices: Map<u128, Seq<char>>) -> bool {
    exists|ks: Seq<u128>| #[trigger] names_in_order(names, devices, ks)
}

/// The rooms, each under its own code. `C` is the type of a room's channel.
pub struct RoomRegistry<C> {
    rooms: Vec<Room<C>>,
}

impl<C> RoomRegistry<C> {
    /// The room with code `id`, if there is one.
    pub closed spec fn room(&self, id: Seq<char>) -> Option<Room<C>> {
        match room_index(self.rooms@, id) {
            Some(i) => Some(self.rooms@[i]),
            None => None,
        }
    }

    /// The number of rooms.
    pub closed spec fn room_count(&self) -> nat {
        self.rooms@.len()
    }

    /// No two rooms share a code.
    #[verifier::type_invariant]
    spec fn wf(&self) -> bool {
        forall|i: int, j: int|
            0 <= i < self.rooms@.len() && 0 <= j < self.rooms@.len() && i != j ==> #[trigger] self.rooms@[i].id_view() != #[trigger] self.rooms@[j].id_view()
    }

    /// No rooms.
    pub fn new() -> (r: RoomRegistry<C>)
        ensures
            r.room_count() == 0,
            forall|id: Seq<char>| #[trigger] r.room(id) is None,
    {
        RoomRegistry { rooms: Vec::new() }
    }

    /// The number of rooms.
    pub fn len(&self) -> (n: usize)
        ensures
            n == self.room_count(),
    {
        self.rooms.len()
    }

    /// Whether there are no rooms.
    pub fn is_empty(&self) -> (b: bool)
        ensures
            b == (self.room_count() == 0),
    {
        self.rooms.len() == 0
    }

    /// The position of the room with code `id`.
    fn find(&self, id: &str) -> (r: Option<usize>)
        requires
            self.wf(),
        ensures
            match r {
                Some(i) => room_index(self.rooms@, id@) == Some(i as int),
                None => room_index(self.rooms@, id@) is None,
            },
    {
        let mut i: usize = 0;
        while i < self.rooms.len()
            invariant
                self.wf(),
                i <= self.rooms@.len(),
                forall|j: int| 0 <= j < i ==> self.rooms@[j].id_view() != id@,
            decreases self.rooms@.len() - i,
        {
            if str_equal(self.rooms[i].id.as_str(), id) {
                proof {
                    let k = choose|k: int| 0 <= k < self.rooms@.len() && self.rooms@[k].id_view() == id@;
                    assert(self.rooms@[i as int].id_view() == id@);
                    if k != i {
                        assert(self.rooms@[k].id_view() != self.rooms@[i as int].id_view());
                    }
                }
                return Some(i);
            }
            i = i + 1;
        }
        None
    }

    /// Adds a room, replacing any room with the same code.
    pub fn insert(&mut self, room: Room<C>)
        ensures
            final(self).room(room.id_view()) == Some(room),
            forall|other: Seq<char>| other != room.id_view() ==> #[trigger] final(self).room(other) == old(self).room(other),
            final(self).room_count() == old(self).room_count() + if old(self).room(room.id_view()) is Some { 0int } else { 1int },
    {
        proof {
            use_type_invariant(&*self);
        }
        let ghost k = room.id_view();
        match self.find(room.id.as_str()) {
            Some(i) => {
                let ghost before = self.rooms@;
                let mut rooms: Vec<Room<C>> = Vec::new();
                std::mem::swap(&mut rooms, &mut self.rooms);
                rooms.set(i, room);
                proof {
                    assert forall|a: int, b: int|
                        0 <= a < rooms@.len() && 0 <= b < rooms@.len() && a != b implies #[trigger] rooms@[a].id_view() != #[trigger] rooms@[b].id_view() by {
                        assert(before[a].id_view() != before[b].id_view());
                    }
                }
                self.rooms = rooms;
                proof {
                    assert forall|a: int, b: int|
                        0 <= a < self.rooms@.len() && 0 <= b < self.rooms@.len() && a != b implies #[trigger] self.rooms@[a].id_view() != #[trigger] self.rooms@[b].id_view() by {
                        assert(before[a].id_view() != before[b].id_view());
                    }
                    assert(self.rooms@[i as int].id_view() == k);
                    assert forall|other: Seq<char>| other != k implies #[trigger] self.room(other) == old(self).room(other) by {
                        if exists|j: int| 0 <= j < before.len() && before[j].id_view() == other {
                            let j = choose|j: int| 0 <= j < before.len() && before[j].id_view() == other;
                            assert(j != i);
                            assert(self.rooms@[j].id_view() == other);
                        }
                        if exists|j: int| 0 <= j < self.rooms@.len() && self.rooms@[j].id_view() == other {
                            let j = choose|j: int| 0 <= j < self.rooms@.len() && self.rooms@[j].id_view() == other;
                            assert(j != i);
                            assert(before[j].id_view() == other);
                        }
                    }
                }
            },
            None => {
                let ghost before = self.rooms@;
                let mut rooms: Vec<Room<C>> = Vec::new();
                std::mem::swap(&mut rooms, &mut self.rooms);
                rooms.push(room);
                proof {
                    let n = before.len() as int;
                    assert(rooms@[n].id_view() == k);
                    assert forall|a: int, b: int|
                        0 <= a < rooms@.len() && 0 <= b < rooms@.len() && a != b implies #[trigger] rooms@[a].id_view() != #[trigger] rooms@[b].id_view() by {
                        if a < n && b < n {
                            assert(before[a].id_view() != before[b].id_view());
                        } else if a == n {
                            assert(before[b].id_view() != k);
                        } else {
                            assert(before[a].id_view() != k);
                        }
                    }
                }
                self.rooms = rooms;
                proof {
                    let n = before.len() as int;
                    assert(self.rooms@[n].id_view() == k);
                    assert forall|other: Seq<char>| other != k implies #[trigger] self.room(other) == old(self).room(other) by {
                        if exists|j: int| 0 <= j < before.len() && before[j].id_view() == other {
                            let j = choose|j: int| 0 <= j < before.len() && before[j].id_view() == other;
                            assert(self.rooms@[j].id_view() == other);
                        }
                        if exists|j: int| 0 <= j < self.rooms@.len() && self.rooms@[j].id_view() == other {
                            let j = choose|j: int| 0 <= j < self.rooms@.len() && self.rooms@[j].id_view() == other;
                            assert(j != n);
                            assert(before[j].id_view() == other);
                        }
                    }
                }
            },
        }
    }

    /// Creates a room with a new random code and the given channel, and returns
    /// the code. The new room has no devices; other rooms stay as they were.
    pub fn create_room(&mut self, tx: C) -> (id: RoomId)
        ensures
            is_room_code(id@),
            final(self).room(id@) matches Some(r) && r.id_view() == id@ && r.channel() == tx
                && r.devices_view() == Map::<u128, Seq<char>>::empty(),
            forall|other: Seq<char>| other != id@ ==> #[trigger] final(self).room(other) == old(self).room(other),
    {
        let id = RoomId::generate();
        let room = Room::new(id.duplicate(), tx);
        self.insert(room);
        id
    }

    /// What the server tells about the room with code `id`: its code, the number
    /// of its devices and their names, one entry per device (in no particular
    /// order); nothing when there is no such room.
    pub fn room_info(&self, id: &str) -> (r: Option<RoomInfo>)
        ensures
            self.room(id@) is None ==> r is None,
            self.room(id@) matches Some(room) ==> (r matches Some(info) && info.room_id@ == id@
                && info.device_count == room.devices_view().len()
                && info.devices@.len() == room.devices_view().len()
                && lists_each_device(info.devices@, room.devices_view())),
    {
        proof {
            use_type_invariant(self);
        }
        match self.find(id) {
            None => None,
            Some(i) => {
                let room = &self.rooms[i];
                let mut names: Vec<String> = Vec::new();
                let ghost keys = vstd::std_specs::hash::spec_keys_iter(&room.devices).remaining();
                proof {
                    assert(keys.unref().to_set() == room.devices@.dom());
                    assert(keys.no_duplicates());
                    assert(keys.len() == room.devices@.dom().len());
                }
                for k in it: room.devices.keys()
                    invariant
                        it.seq() == keys,
                        keys.unref().to_set() == room.devices@.dom(),
                        names@.len() == it.index(),
                        forall|j: int| 0 <= j < names@.len() ==> #[trigger] names@[j]@ == room.devices@[*keys[j]]@,
                {
                    proof {
                        assert(keys.unref()[it.index() as int] == *k);
                        assert(keys.unref().to_set().contains(*k));
                    }
                    match room.devices.get(k) {
                        Some(name) => {
                            names.push(name.clone());
                        },
                        None => {
                            assert(false);
                        },
                    }
                }
                let ghost ks = keys.unref();
                proof {
                    assert(ks.no_duplicates()) by {
                        assert forall|a: int, b: int| 0 <= a < ks.len() && 0 <= b < ks.len() && a != b implies ks[a] != ks[b] by {
                            assert(keys[a] != keys[b]);
                        }
                    }
                    assert(room.devices_view().dom() == room.devices@.dom());
                    assert forall|j: int| 0 <= j < names@.len() implies #[trigger] names@[j]@ == room.devices_view()[ks[j]] by {
                        assert(ks.to_set().contains(ks[j]));
                    }
                    assert(names_in_order(names@, room.devices_view(), ks));
                }
                let info = RoomInfo {
                    room_id: String::from_str(room.id.as_str()),
                    device_count: room.devices.len(),
                    devices: names,
                };
                assert(info.devices@ == names@);
                Some(info)
            },
        }
    }

    /// The channel of the room with code `id`, if there is such a room.
    pub fn channel_for(&self, id: &str) -> (r: Option<&C>)
        ensures
            self.room(id@) is None ==> r is None,
            self.room(id@) matches Some(room) ==> (r matches Some(c) && *c == room.channel()),
    {
        proof {
            use_type_invariant(self);
        }
        match self.find(id) {
            None => None,
            Some(i) => Some(&self.rooms[i].tx),
        }
    }
}

} // verus!
