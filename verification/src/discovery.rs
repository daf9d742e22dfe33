//! Local network discovery: the service that is announced over mDNS, and the
//! table of devices that announcements have revealed.

use vstd::prelude::*;
use vstd::std_specs::iter::IteratorSpec;
use std::collections::HashMap;
use std::time::Instant;
use mdns_sd::ServiceInfo;
use mdns_sd::Error as MdnsError;

use crate::device::{Device, DeviceId, parse_uuid, spec_parse_uuid, uuid_text, lemma_uuid_text_shape};
use crate::text::{chars_of, str_equal, string_from_chars};

verus! {

broadcast use vstd::std_specs::hash::group_hash_axioms;

/// The mDNS service type, `_<service>._<protocol>.local.`.
pub const SERVICE_TYPE: &'static str = "_clipsync._tcp.local.";

/// Default port for connections.
pub const DEFAULT_PORT: u16 = 43210;

#[verifier::external_type_specification]
#[verifier::external_body]
pub struct ExInstant(Instant);

#[verifier::external_type_specification]
#[verifier::external_body]
pub struct ExServiceInfo(ServiceInfo);

#[verifier::external_type_specification]
#[verifier::external_body]
pub struct ExMdnsError(MdnsError);

/// An IP address, version 4 or 6, by its octets.
#[derive(Debug, Clone, Copy, PartialEq, Eq)]
pub enum IpAddress {
    V4([u8; 4]),
    V6([u8; 16]),
}

/// Events emitted by the discovery service.
#[derive(Debug, Clone)]
pub enum DiscoveryEvent {
    /// A new device was found on the network.
    DeviceFound { device_id: DeviceId, device_name: String, addresses: Vec<IpAddress>, port: u16 },
    /// A previously found device is no longer available.
    DeviceLost { device_id: DeviceId },
}

/// Information about a device discovered on the network.
#[derive(Debug)]
pub struct DiscoveredDevice {
    pub device_id: DeviceId,
    pub name: String,
    pub addresses: Vec<IpAddress>,
    pub port: u16,
    /// When we last saw this device
    pub last_seen: Instant,
}

/// Copies a list of addresses.
pub fn copy_addresses(a: &Vec<IpAddress>) -> (r: Vec<IpAddress>)
    ensures
        r@ == a@,
{
    let mut r: Vec<IpAddress> = Vec::new();
    let mut i: usize = 0;
    while i < a.len()
        invariant
            i <= a@.len(),
            r@ == a@.take(i as int),
        decreases a@.len() - i,
    {
        r.push(a[i]);
        assert(a@.take(i + 1) == a@.take(i as int).push(a@[i as int]));
        i = i + 1;
    }
    assert(a@.take(a@.len() as int) == a@);
    r
}

impl DiscoveredDevice {
    /// A copy of the entry.
    pub fn copy(&self) -> (r: DiscoveredDevice)
        ensures
            r.device_id == self.device_id,
            r.name@ == self.name@,
            r.addresses@ == self.addresses@,
            r.port == self.port,
            r.last_seen == self.last_seen,
    {
        DiscoveredDevice {
            device_id: self.device_id,
            name: self.name.clone(),
            addresses: copy_addresses(&self.addresses),
            port: self.port,
            last_seen: self.last_seen,
        }
    }
}

/// What became of a resolved mDNS service.
#[derive(Debug)]
pub enum Resolution {
    /// The service named a device: it is recorded, and this event is due.
    Found(DiscoveryEvent),
    /// The service has no `id` property.
    MissingId,
    /// The `id` property is not a UUID; the text is kept for the warning.
    InvalidId(String),
}

/// The devices that discovery has seen, by the value of their identifier, with
/// the full mDNS service name each was resolved under.
pub struct DeviceTable {
    devices: HashMap<u128, DiscoveredDevice>,
    instances: HashMap<u128, String>,
}

impl DeviceTable {
    /// The devices, keyed by their identifier's value.
    pub closed spec fn view(&self) -> Map<u128, DiscoveredDevice> {
        self.devices@
    }

    /// The full service name each device was resolved under.
    pub closed spec fn instances_view(&self) -> Map<u128, Seq<char>> {
        self.instances@.map_values(|s: String| s@)
    }

    /// Each device is filed under its own identifier and has a service name of
    /// its own.
    #[verifier::type_invariant]
    spec fn wf(&self) -> bool {
        &&& forall|k: u128| #[trigger] self.devices@.contains_key(k) ==> self.devices@[k].device_id@ == k
        &&& self.instances@.dom() == self.devices@.dom()
        &&& forall|a: u128, b: u128|
            #[trigger] self.instances@.contains_key(a) && #[trigger] self.instances@.contains_key(b) && a != b
                ==> self.instances@[a]@ != self.instances@[b]@
    }

    /// An empty table.
    pub fn new() -> (t: DeviceTable)
        ensures
            t.view() == Map::<u128, DiscoveredDevice>::empty(),
            t.instances_view() == Map::<u128, Seq<char>>::empty(),
    {
        let t = DeviceTable { devices: HashMap::new(), instances: HashMap::new() };
        assert(t.instances_view() =~= Map::<u128, Seq<char>>::empty());
        t
    }

    /// Records a resolved `_clipsync._tcp` service with full name `fullname`. The
    /// `id` property must be a UUID; the name defaults to "Unknown". The device
    /// replaces any earlier entry under the same identifier, and any other device
    /// that was resolved under the same service name; a `DeviceFound` event
    /// describes it.
    pub fn on_service_resolved(
        &mut self,
        fullname: &str,
        id_property: Option<&str>,
        name_property: Option<&str>,
        addresses: Vec<IpAddress>,
        port: u16,
        seen: Instant,
    ) -> (r: Resolution)
        ensures
            !(r is Found) ==> final(self).view() == old(self).view() && final(self).instances_view() == old(self).instances_view(),
            id_property is None ==> r is MissingId,
            id_property matches Some(t) ==> (spec_parse_uuid(t@) is None ==> (r matches Resolution::InvalidId(s) && s@ == t@)),
            id_property matches Some(t) ==> (spec_parse_uuid(t@) matches Some(v) ==> {
                let name = match name_property {
                    Some(n) => n@,
                    None => "Unknown"@,
                };
                &&& r matches Resolution::Found(DiscoveryEvent::DeviceFound { device_id, device_name, addresses: a, port: p })
                    && device_id@ == v && device_name@ == name && a@ == addresses@ && p == port
                &&& final(self).view().contains_key(v)
                &&& final(self).view()[v].name@ == name
                &&& final(self).view()[v].addresses@ == addresses@
                &&& final(self).view()[v].port == port
                &&& final(self).view()[v].last_seen == seen
                &&& final(self).instances_view()[v] == fullname@
                &&& forall|k: u128| k != v ==> (#[trigger] final(self).view().contains_key(k) <==> (old(self).view().contains_key(k)
                    && old(self).instances_view()[k] != fullname@))
                &&& forall|k: u128| k != v && #[trigger] final(self).view().contains_key(k) ==> (final(self).view()[k] == old(self).view()[k]
                    && final(self).instances_view()[k] == old(self).instances_view()[k])
                &&& forall|k: u128| k != v && #[trigger] final(self).instances_view().contains_key(k) ==> final(self).instances_view()[k] != fullname@
            }),
    {
        proof {
            use_type_invariant(&*self);
        }
        let id_text = match id_property {
            Some(t) => t,
            None => {
                return Resolution::MissingId;
            },
        };
        let value = match parse_uuid(id_text) {
            Some(v) => v,
            None => {
                return Resolution::InvalidId(String::from_str(id_text));
            },
        };
        let device_id = DeviceId::from_uuid(value);
        let name = match name_property {
            Some(n) => String::from_str(n),
            None => String::from_str("Unknown"),
        };
        let entry = DiscoveredDevice {
            device_id,
            name: name.clone(),
            addresses: copy_addresses(&addresses),
            port,
            last_seen: seen,
        };
        let stale = self.find_instance(fullname);
        let mut table = DeviceTable::new();
        std::mem::swap(&mut table, self);
        let DeviceTable { mut devices, mut instances } = table;
        let ghost before = instances@;
        match stale {
            Some(st) => {
                if st != value {
                    devices.remove(&st);
                    instances.remove(&st);
                }
                proof {
                    assert forall|k: u128| k != value && #[trigger] instances@.contains_key(k) implies instances@[k]@ != fullname@ by {
                        assert(before.contains_key(k) && before.contains_key(st) && k != st);
                        assert(old(self).instances_view().contains_key(k));
                    }
                }
            },
            None => {
                proof {
                    assert forall|k: u128| k != value && #[trigger] instances@.contains_key(k) implies instances@[k]@ != fullname@ by {
                        assert(old(self).instances_view().contains_key(k));
                    }
                }
            },
        }
        let ghost mid = instances@;
        devices.insert(value, entry);
        instances.insert(value, String::from_str(fullname));
        proof {
            assert(instances@ == mid.insert(value, instances@[value]));
            assert forall|a: u128, b: u128|
                #[trigger] instances@.contains_key(a) && #[trigger] instances@.contains_key(b) && a != b
                    implies instances@[a]@ != instances@[b]@ by {
                if a != value && b != value {
                    assert(mid.contains_key(a) && mid.contains_key(b));
                }
            }
            assert(instances@.dom() =~= devices@.dom());
        }
        *self = DeviceTable { devices, instances };
        Resolution::Found(DiscoveryEvent::DeviceFound { device_id, device_name: name, addresses, port })
    }

    /// The device resolved under the service name `fullname`, if any.
    fn find_instance(&self, fullname: &str) -> (r: Option<u128>)
        requires
            self.wf(),
        ensures
            r matches Some(v) ==> self.instances_view().contains_key(v) && self.instances_view()[v] == fullname@,
            r is None ==> forall|k: u128| #[trigger] self.instances_view().contains_key(k) ==> self.instances_view()[k] != fullname@,
    {
        let mut found: Option<u128> = None;
        let ghost pairs = vstd::std_specs::hash::spec_hash_map_iter(&self.instances).remaining();
        proof {
            assert(pairs.len() == self.instances@.dom().len());
        }
        for kv in it: self.instances.iter()
            invariant
                self.wf(),
                it.seq() == pairs,
                pairs.len() == self.instances@.dom().len(),
                forall|j: int| 0 <= j < pairs.len() ==> self.instances@.contains_key(*pairs[j].0) && self.instances@[*pairs[j].0] == *pairs[j].1,
                found is None ==> forall|j: int| 0 <= j < it.index() ==> (*pairs[j].1)@ != fullname@,
                found matches Some(v) ==> self.instances@.contains_key(v) && self.instances@[v]@ == fullname@,
        {
            let (k, name) = kv;
            if found.is_none() && str_equal(name.as_str(), fullname) {
                found = Some(*k);
            }
        }
        proof {
            if found is None {
                assert forall|k: u128| #[trigger] self.instances_view().contains_key(k) implies self.instances_view()[k] != fullname@ by {
                    assert(self.instances@.contains_key(k));
                    assert(pairs.contains((&k, &self.instances@[k])));
                    let j = choose|j: int| 0 <= j < pairs.len() && pairs[j] == (&k, &self.instances@[k]);
                    assert((*pairs[j].1)@ != fullname@);
                }
            }
        }
        found
    }

    /// Handles the removal of the mDNS service with full name `fullname`: the
    /// device resolved under that name is forgotten, and a `DeviceLost` event
    /// names it. When no device has that name, nothing changes and there is no
    /// event.
    pub fn on_service_removed(&mut self, fullname: &str) -> (r: Option<DiscoveryEvent>)
        ensures
            r is None <==> (forall|k: u128| #[trigger] old(self).instances_view().contains_key(k) ==> old(self).instances_view()[k] != fullname@),
            r is None ==> final(self).view() == old(self).view() && final(self).instances_view() == old(self).instances_view(),
            r is Some ==> (r matches Some(DiscoveryEvent::DeviceLost { device_id }) && {
                &&& old(self).instances_view().contains_key(device_id@)
                &&& old(self).instances_view()[device_id@] == fullname@
                &&& final(self).view() == old(self).view().remove(device_id@)
                &&& final(self).instances_view() == old(self).instances_view().remove(device_id@)
            }),
    {
        proof {
            use_type_invariant(&*self);
        }
        let found = self.find_instance(fullname);
        match found {
            None => None,
            Some(v) => {
                let mut table = DeviceTable::new();
                std::mem::swap(&mut table, self);
                let DeviceTable { mut devices, mut instances } = table;
                devices.remove(&v);
                instances.remove(&v);
                proof {
                    assert(instances@.dom() =~= devices@.dom());
                }
                *self = DeviceTable { devices, instances };
                proof {
                    assert(self.instances_view() =~= old(self).instances_view().remove(v));
                }
                Some(DiscoveryEvent::DeviceLost { device_id: DeviceId::from_uuid(v) })
            },
        }
    }

    /// All devices currently known, in no particular order: one entry per
    /// identifier, each a copy of the recorded one.
    pub fn get_devices(&self) -> (r: Vec<DiscoveredDevice>)
        ensures
            r@.len() == self.view().dom().len(),
            forall|i: int| 0 <= i < r@.len() ==> {
                let k = #[trigger] r@[i].device_id@;
                &&& self.view().contains_key(k)
                &&& r@[i].name@ == self.view()[k].name@
                &&& r@[i].addresses@ == self.view()[k].addresses@
                &&& r@[i].port == self.view()[k].port
                &&& r@[i].last_seen == self.view()[k].last_seen
            },
            forall|k: u128| #[trigger] self.view().contains_key(k) ==> exists|i: int| 0 <= i < r@.len() && r@[i].device_id@ == k,
    {
        proof {
            use_type_invariant(self);
        }
        let mut r: Vec<DiscoveredDevice> = Vec::new();
        let ghost all = vstd::std_specs::hash::spec_values_iter(&self.devices).remaining();
        for d in it: self.devices.values()
            invariant
                self.wf(),
                it.seq() == all,
                r@.len() == it.index(),
                it.seq().len() == self.devices@.dom().len(),
                it.seq().unref().to_set() == self.devices@.values(),
                forall|i: int| 0 <= i < r@.len() ==> {
                    let k = #[trigger] r@[i].device_id@;
                    &&& self.devices@.contains_key(k)
                    &&& r@[i].name@ == self.devices@[k].name@
                    &&& r@[i].addresses@ == self.devices@[k].addresses@
                    &&& r@[i].port == self.devices@[k].port
                    &&& r@[i].last_seen == self.devices@[k].last_seen
                },
                forall|i: int| 0 <= i < r@.len() ==> #[trigger] r@[i].device_id == all.unref()[i].device_id,
        {
            assert(it.seq().unref().to_set().contains(it.seq().unref()[it.index() as int]));
            r.push(d.copy());
        }
        assert forall|k: u128| #[trigger] self.devices@.contains_key(k) implies exists|i: int| 0 <= i < r@.len() && r@[i].device_id@ == k by {
            let v = self.devices@[k];
            assert(self.devices@.values().contains(v));
            let seq = all.unref();
            assert(seq.to_set().contains(v));
            let j = choose|j: int| 0 <= j < seq.len() && seq[j] == v;
            assert(r@[j].device_id == seq[j].device_id);
        }
        r
    }
}

/// The instance name announced for a device: `ClipSync-` and the first eight
/// characters of its identifier's text.
pub open spec fn instance_name_for(id: u128) -> Seq<char> {
    "ClipSync-"@ + uuid_text(id).take(8)
}

/// The instance name announced for a device.
pub fn instance_name(id: &DeviceId) -> (s: String)
    ensures
        s@ == instance_name_for(id@),
{
    let text = id.to_string();
    proof {
        lemma_uuid_text_shape(id@);
    }
    let chars = chars_of(text.as_str());
    let mut head: Vec<char> = Vec::new();
    let mut i: usize = 0;
    while i < 8
        invariant
            chars@ == uuid_text(id@),
            chars@.len() == 36,
            i <= 8,
            head@ == chars@.take(i as int),
        decreases 8 - i,
    {
        head.push(chars[i]);
        assert(chars@.take(i + 1) == chars@.take(i as int).push(chars@[i as int]));
        i = i + 1;
    }
    let mut s = String::from_str("ClipSync-");
    let h = string_from_chars(head.as_slice());
    s.append(h.as_str());
    s
}

/// The TXT properties announced for a device: its identifier, name and platform.
pub fn service_properties(device: &Device) -> (p: Vec<(String, String)>)
    ensures
        p@.len() == 3,
        p@[0].0@ == "id"@ && p@[0].1@ == uuid_text(device.id@),
        p@[1].0@ == "name"@ && p@[1].1@ == device.name@,
        p@[2].0@ == "platform"@ && p@[2].1@ == device.platform@,
{
    let mut p: Vec<(String, String)> = Vec::new();
    p.push((String::from_str("id"), device.id.to_string()));
    p.push((String::from_str("name"), device.name.clone()));
    p.push((String::from_str("platform"), device.platform.clone()));
    p
}

/// The mDNS host name for a machine's host name: the name followed by `.local.`.
pub fn host_name_for(hostname: &str) -> (s: String)
    ensures
        s@ == hostname@ + ".local."@,
{
    let mut s = String::from_str(hostname);
    s.append(".local.");
    s
}

/// All characters are ASCII and none is `=`, as an mDNS TXT key must be.
pub open spec fn is_txt_key(k: Seq<char>) -> bool {
    forall|i: int| 0 <= i < k.len() ==> (#[trigger] k[i] as u32) < 128 && k[i] != '='
}

/// What a device announces over mDNS: the service type, the instance name,
/// the host name, the addresses (empty: the daemon detects them), the port and
/// the TXT properties.
#[derive(Debug)]
pub struct ServiceAnnouncement {
    pub service_type: String,
    pub instance: String,
    pub host: String,
    pub addresses: String,
    pub port: u16,
    pub properties: Vec<(String, String)>,
}

/// The announcement of a device on `port`: type `_clipsync._tcp.local.`,
/// instance `ClipSync-<first eight characters of its id>`, host
/// `<hostname>.local.`, no addresses given, and the device's id, name and
/// platform as properties.
pub fn service_announcement(device: &Device, hostname: &str, port: u16) -> (a: ServiceAnnouncement)
    ensures
        a.service_type@ == SERVICE_TYPE@,
        a.instance@ == instance_name_for(device.id@),
        a.host@ == hostname@ + ".local."@,
        a.addresses@ == ""@,
        a.port == port,
        a.properties@.len() == 3,
        a.properties@[0].0@ == "id"@ && a.properties@[0].1@ == uuid_text(device.id@),
        a.properties@[1].0@ == "name"@ && a.properties@[1].1@ == device.name@,
        a.properties@[2].0@ == "platform"@ && a.properties@[2].1@ == device.platform@,
{
    ServiceAnnouncement {
        service_type: String::from_str(SERVICE_TYPE),
        instance: instance_name(&device.id),
        host: host_name_for(hostname),
        addresses: String::from_str(""),
        port,
        properties: service_properties(device),
    }
}

/// Calls `mdns_sd::ServiceInfo::new` with the announcement's fields. The
/// `ServiceInfo` keeps its addresses in a `HashSet` seeded per process, so
/// nothing is claimed of the value it builds; claimed, from the crate's source,
/// is only that with no addresses given and keys that are ASCII without `=` it
/// does not fail.
#[verifier::external_body]
fn new_service_info(a: &ServiceAnnouncement) -> (r: Result<ServiceInfo, MdnsError>)
    ensures
        a.addresses@.len() == 0 && (forall|i: int| 0 <= i < a.properties@.len() ==> is_txt_key(#[trigger] a.properties@[i].0@)) ==> r is Ok,
{
    ServiceInfo::new(&a.service_type, &a.instance, &a.host, a.addresses.as_str(), a.port, &a.properties[..])
}

/// The mDNS service that announces a device on `port`, built from
/// `service_announcement`; building it does not fail.
pub fn announcement(device: &Device, hostname: &str, port: u16) -> (r: Result<ServiceInfo, MdnsError>)
    ensures
        r is Ok,
{
    let a = service_announcement(device, hostname, port);
    proof {
        reveal_strlit("id");
        reveal_strlit("name");
        reveal_strlit("platform");
        reveal_strlit("");
        assert(is_txt_key(a.properties@[0].0@));
        assert(is_txt_key(a.properties@[1].0@));
        assert(is_txt_key(a.properties@[2].0@));
    }
    new_service_info(&a)
}

} // verus!
