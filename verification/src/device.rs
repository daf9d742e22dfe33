//! Device identity: a random 128-bit identifier, its textual form, and the
//! description of a device that is shared with its peers.

use vstd::prelude::*;

use crate::text::str_equal;

verus! {

/// One hexadecimal digit, in lower case.
pub open spec fn hex_char(n: nat) -> char {
    seq!['0', '1', '2', '3', '4', '5', '6', '7', '8', '9', 'a', 'b', 'c', 'd', 'e', 'f'][n as int]
}

/// The `n` lowest hexadecimal digits of `v`, most significant first.
pub open spec fn hex_digits(v: nat, n: nat) -> Seq<char>
    decreases n,
{
    if n == 0 {
        Seq::<char>::empty()
    } else {
        hex_digits(v / 16, (n - 1) as nat).push(hex_char(v % 16))
    }
}

/// The hyphenated form of a UUID held as a big-endian `u128`: 32 lower-case
/// hexadecimal digits in groups of 8, 4, 4, 4 and 12, joined by `-`.
pub open spec fn uuid_text(v: u128) -> Seq<char> {
    let h = hex_digits(v as nat, 32);
    h.subrange(0, 8) + seq!['-'] + h.subrange(8, 12) + seq!['-'] + h.subrange(12, 16) + seq!['-']
        + h.subrange(16, 20) + seq!['-'] + h.subrange(20, 32)
}

/// The bits that mark a random (version 4, RFC 4122 variant) UUID.
pub open spec fn is_random_uuid(v: u128) -> bool {
    v & 0x0000_0000_0000_f000_c000_0000_0000_0000 == 0x0000_0000_0000_4000_8000_0000_0000_0000
}

/// What `uuid::Uuid::parse_str` makes of a text: the UUID's value, or nothing.
pub uninterp spec fn spec_parse_uuid(s: Seq<char>) -> Option<u128>;

/// Calls `uuid::Uuid::new_v4` and takes the value with `as_u128`. The bits are
/// random; the crate's source masks in the version and variant bits, which is all
/// that is claimed.
#[verifier::external_body]
pub(crate) fn random_uuid() -> (v: u128)
    ensures
        is_random_uuid(v),
{
    uuid::Uuid::new_v4().as_u128()
}

/// Calls `uuid::Uuid::from_u128` and formats the UUID with `to_string`, which the
/// crate writes in its hyphenated lower-case form.
#[verifier::external_body]
fn format_uuid(v: u128) -> (s: String)
    ensures
        s@ == uuid_text(v),
{
    uuid::Uuid::from_u128(v).to_string()
}

/// Calls `uuid::Uuid::parse_str` and takes the value with `as_u128`. The accepted
/// syntaxes are left to the name `spec_parse_uuid`; claimed besides is only that
/// the hyphenated form that the crate writes parses back to the same value.
#[verifier::external_body]
pub(crate) fn parse_uuid(s: &str) -> (r: Option<u128>)
    ensures
        r == spec_parse_uuid(s@),
        forall|v: u128| s@ == #[trigger] uuid_text(v) ==> r == Some(v),
{
    match uuid::Uuid::parse_str(s) {
        Ok(u) => Some(u.as_u128()),
        Err(_) => None,
    }
}

/// `hex_digits(v, n)` has `n` digits.
pub proof fn lemma_hex_digits_len(v: nat, n: nat)
    ensures
        hex_digits(v, n).len() == n,
    decreases n,
{
    if n > 0 {
        lemma_hex_digits_len(v / 16, (n - 1) as nat);
    }
}

/// The text of an identifier has 36 characters, with `-` at positions 8, 13, 18
/// and 23.
pub proof fn lemma_uuid_text_shape(v: u128)
    ensures
        uuid_text(v).len() == 36,
        uuid_text(v)[8] == '-',
        uuid_text(v)[13] == '-',
        uuid_text(v)[18] == '-',
        uuid_text(v)[23] == '-',
{
    lemma_hex_digits_len(v as nat, 32);
}

/// A unique identifier for a device.
#[derive(Debug, Clone, Copy, PartialEq, Eq, Hash, Structural)]
pub struct DeviceId(u128);

impl View for DeviceId {
    type V = u128;

    closed spec fn view(&self) -> u128 {
        self.0
    }
}

/// Two identifiers are equal exactly when their values are.
pub proof fn lemma_device_id_eq(a: DeviceId, b: DeviceId)
    ensures
        (a == b) <==> (a@ == b@),
{
}

impl DeviceId {
    /// Creates a new random device ID.
    pub fn new() -> (id: DeviceId)
        ensures
            is_random_uuid(id@),
    {
        DeviceId(random_uuid())
    }

    /// Creates a DeviceId from the value of an existing UUID.
    pub fn from_uuid(uuid: u128) -> (id: DeviceId)
        ensures
            id@ == uuid,
    {
        DeviceId(uuid)
    }

    /// Returns the value of the underlying UUID.
    pub fn as_uuid(&self) -> (v: u128)
        ensures
            v == self@,
    {
        self.0
    }

    /// The identifier in the UUID's hyphenated form.
    pub fn to_string(&self) -> (s: String)
        ensures
            s@ == uuid_text(self@),
    {
        format_uuid(self.0)
    }
}

impl Default for DeviceId {
    /// A new random device ID.
    fn default() -> (id: DeviceId)
        ensures
            is_random_uuid(id@),
    {
        DeviceId::new()
    }
}

/// Types of devices we support.
#[derive(Debug, Clone, Copy, PartialEq, Eq, Structural)]
pub enum DeviceType {
    Desktop,
    Laptop,
    Mobile,
    Tablet,
    Unknown,
}

/// Complete information about a device.
#[derive(Debug, Clone)]
pub struct Device {
    /// Unique identifier
    pub id: DeviceId,
    /// Human-readable name
    pub name: String,
    /// Type of device
    pub device_type: DeviceType,
    /// Platform/OS information
    pub platform: String,
}

/// The platform's display name for an operating system name as
/// `std::env::consts::OS` gives it.
pub open spec fn platform_for(os: Seq<char>) -> Seq<char> {
    if os == "windows"@ {
        "Windows"@
    } else if os == "macos"@ {
        "macOS"@
    } else if os == "linux"@ {
        "Linux"@
    } else if os == "android"@ {
        "Android"@
    } else if os == "ios"@ {
        "iOS"@
    } else {
        "Unknown"@
    }
}

/// The platform's display name for an operating system name.
pub fn platform_label(os: &str) -> (label: &'static str)
    ensures
        label@ == platform_for(os@),
{
    if str_equal(os, "windows") {
        "Windows"
    } else if str_equal(os, "macos") {
        "macOS"
    } else if str_equal(os, "linux") {
        "Linux"
    } else if str_equal(os, "android") {
        "Android"
    } else if str_equal(os, "ios") {
        "iOS"
    } else {
        "Unknown"
    }
}

impl Device {
    /// Creates a new device with the given name, on the operating system `os`
    /// (as `std::env::consts::OS` names it), with a fresh random identifier.
    pub fn new(name: &str, os: &str) -> (d: Device)
        ensures
            d.name@ == name@,
            d.device_type == DeviceType::Unknown,
            d.platform@ == platform_for(os@),
            is_random_uuid(d.id@),
    {
        let platform = platform_label(os);
        Device {
            id: DeviceId::new(),
            name: String::from_str(name),
            device_type: DeviceType::Unknown,
            platform: String::from_str(platform),
        }
    }

    /// Sets the device type.
    pub fn with_type(self, device_type: DeviceType) -> (d: Device)
        ensures
            d.id == self.id,
            d.name == self.name,
            d.platform == self.platform,
            d.device_type == device_type,
    {
        let mut d = self;
        d.device_type = device_type;
        d
    }
}

} // verus!
