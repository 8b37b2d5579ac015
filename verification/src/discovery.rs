//! Finding XAMPP machines on the local network and keeping track of them.

use vstd::prelude::*;
use crate::{DiscoveryMethod, Machine, ServiceStatus};
use crate::deployment::meta::opt_view;
use crate::store::KeyedVec;
use crate::text::{chars_of, contains, contains_exec, decimal, decimal_string, in_set, trim_end_by};

verus! {

/// The contents of a `Machine`.
pub struct MachineView {
    pub id: Seq<char>,
    pub hostname: Seq<char>,
    pub ip: Seq<char>,
    pub os: Option<Seq<char>>,
    pub services: Seq<ServiceStatus>,
    pub last_seen: Seq<char>,
    pub online: bool,
    pub discovered_via: DiscoveryMethod,
}

impl View for Machine {
    type V = MachineView;

    open spec fn view(&self) -> MachineView {
        MachineView {
            id: self.id@,
            hostname: self.hostname@,
            ip: self.ip@,
            os: opt_view(self.os),
            services: self.services@,
            last_seen: self.last_seen@,
            online: self.online,
            discovered_via: self.discovered_via,
        }
    }
}

/// A copy of a list of service states.
pub fn copy_statuses(v: &Vec<ServiceStatus>) -> (r: Vec<ServiceStatus>)
    ensures
        r@ == v@,
{
    let mut r: Vec<ServiceStatus> = Vec::new();
    let mut i: usize = 0;
    while i < v.len()
        invariant
            i <= v@.len(),
            r@ == v@.take(i as int),
        decreases v@.len() - i,
    {
        r.push(v[i]);
        i = i + 1;
        assert(r@ =~= v@.take(i as int));
    }
    assert(v@.take(v@.len() as int) =~= v@);
    r
}

impl Machine {
    /// A copy of this machine.
    pub fn duplicate(&self) -> (r: Machine)
        ensures
            r@ == self@,
    {
        Machine {
            id: self.id.clone(),
            hostname: self.hostname.clone(),
            ip: self.ip.clone(),
            os: crate::deployment::meta::copy_opt(&self.os),
            services: copy_statuses(&self.services),
            last_seen: self.last_seen.clone(),
            online: self.online,
            discovered_via: self.discovered_via,
        }
    }
}

/// What a machine becomes when it is seen again: the new sighting's fields,
/// but the known services when the sighting brings none.
pub open spec fn merged(existing: MachineView, seen: MachineView) -> MachineView {
    MachineView {
        id: existing.id,
        services: if seen.services.len() == 0 {
            existing.services
        } else {
            seen.services
        },
        ..seen
    }
}

/// The known machines after a sighting of `seen`: it is added when new, and
/// merged into the known machine of its id otherwise.
pub open spec fn after_sighting(m: Map<Seq<char>, MachineView>, seen: MachineView) -> Map<
    Seq<char>,
    MachineView,
> {
    m.insert(
        seen.id,
        if m.contains_key(seen.id) {
            merged(m[seen.id], seen)
        } else {
            seen
        },
    )
}

/// Law: recording the same sighting twice is recording it once.
pub proof fn law_sighting_idempotent(m: Map<Seq<char>, MachineView>, seen: MachineView)
    ensures
        after_sighting(after_sighting(m, seen), seen) == after_sighting(m, seen),
{
    let once = after_sighting(m, seen);
    let v = once[seen.id];
    assert(merged(v, seen) == v);
    assert(after_sighting(once, seen) =~= once);
}

/// Law: a sighting that brings no services keeps the services known for the
/// machine, and takes every other field from the sighting.
pub proof fn law_sighting_keeps_services(m: Map<Seq<char>, MachineView>, seen: MachineView)
    requires
        m.contains_key(seen.id),
        seen.services.len() == 0,
    ensures
        after_sighting(m, seen)[seen.id] == (MachineView {
            id: m[seen.id].id,
            services: m[seen.id].services,
            ..seen
        }),
        forall|other: Seq<char>|
            other != seen.id ==> #[trigger] after_sighting(m, seen).contains_key(other)
                == m.contains_key(other),
{
}

/// The machines found so far, by id.
pub struct MachineRegistry {
    machines: KeyedVec<Machine>,
}

impl View for MachineRegistry {
    type V = Map<Seq<char>, MachineView>;

    closed spec fn view(&self) -> Map<Seq<char>, MachineView> {
        self.machines.map()
    }
}

impl MachineRegistry {
    /// The ids in the order the machines were first seen.
    pub closed spec fn ids(&self) -> Seq<Seq<char>> {
        self.machines.keys()
    }

    /// An empty registry.
    pub fn new() -> (r: Self)
        ensures
            r@ == Map::<Seq<char>, MachineView>::empty(),
    {
        MachineRegistry { machines: KeyedVec::new() }
    }

    /// Records a sighting of `machine`: a new machine is added; a known one is
    /// updated (see `after_sighting`).
    pub fn add_or_update(&mut self, machine: Machine)
        ensures
            final(self)@ == after_sighting(old(self)@, machine@),
    {
        match self.machines.find(machine.id.as_str()) {
            Some(i) => {
                let (_, existing) = self.machines.at(i);
                let services = if machine.services.len() == 0 {
                    copy_statuses(&existing.services)
                } else {
                    machine.services
                };
                let updated = Machine {
                    id: existing.id.clone(),
                    hostname: machine.hostname,
                    ip: machine.ip,
                    os: machine.os,
                    services,
                    last_seen: machine.last_seen,
                    online: machine.online,
                    discovered_via: machine.discovered_via,
                };
                self.machines.replace(i, updated);
            },
            None => {
                let id = machine.id.clone();
                self.machines.insert(id, machine);
            },
        }
    }

    /// Forgets the machine `id`.
    pub fn remove(&mut self, id: &str)
        ensures
            final(self)@ == old(self)@.remove(id@),
    {
        let _ = self.machines.remove(id);
    }

    /// Every known machine, in the order they were first seen.
    pub fn get_all(&self) -> (r: Vec<Machine>)
        ensures
            r@.len() == self.ids().len(),
            forall|i: int| 0 <= i < r@.len() ==> (#[trigger] r@[i])@ == self@[self.ids()[i]],
            forall|k: Seq<char>| self@.contains_key(k) <==> #[trigger] self.ids().contains(k),
    {
        self.machines.view_facts();
        let mut r: Vec<Machine> = Vec::new();
        let mut i: usize = 0;
        while i < self.machines.len()
            invariant
                i <= self.machines.keys().len(),
                r@.len() == i,
                forall|j: int|
                    0 <= j < i ==> (#[trigger] r@[j])@ == self.machines.map()[self.machines.keys()[j]],
            decreases self.machines.keys().len() - i,
        {
            let (_, m) = self.machines.at(i);
            r.push(m.duplicate());
            i = i + 1;
        }
        r
    }

    /// The machine `id`, if known.
    pub fn get(&self, id: &str) -> (r: Option<Machine>)
        ensures
            r is Some <==> self@.contains_key(id@),
            r matches Some(m) ==> m@ == self@[id@],
    {
        match self.machines.get(id) {
            Some(m) => Some(m.duplicate()),
            None => None,
        }
    }

    /// Sets whether the machine `id` is online; an unknown id changes nothing.
    pub fn set_online(&mut self, id: &str, online: bool)
        ensures
            old(self)@.contains_key(id@) ==> final(self)@ == old(self)@.insert(
                id@,
                MachineView { online, ..old(self)@[id@] },
            ),
            !old(self)@.contains_key(id@) ==> final(self)@ == old(self)@,
    {
        match self.machines.find(id) {
            Some(i) => {
                let (_, m) = self.machines.at(i);
                let mut updated = m.duplicate();
                updated.online = online;
                self.machines.replace(i, updated);
            },
            None => {},
        }
    }

    /// Marks the machine `id` offline.
    pub fn mark_offline(&mut self, id: &str)
        ensures
            old(self)@.contains_key(id@) ==> final(self)@ == old(self)@.insert(
                id@,
                MachineView { online: false, ..old(self)@[id@] },
            ),
            !old(self)@.contains_key(id@) ==> final(self)@ == old(self)@,
    {
        self.set_online(id, false);
    }

    /// Marks the machine `id` online.
    pub fn mark_online(&mut self, id: &str)
        ensures
            old(self)@.contains_key(id@) ==> final(self)@ == old(self)@.insert(
                id@,
                MachineView { online: true, ..old(self)@[id@] },
            ),
            !old(self)@.contains_key(id@) ==> final(self)@ == old(self)@,
    {
        self.set_online(id, true);
    }
}

// ---------------------------------------------------------------------------
// Heartbeat
// ---------------------------------------------------------------------------

/// A machine is taken as offline after this many missed pings in a row.
pub const MAX_MISSED_PINGS: u32 = 3;

/// What the heartbeat does after pinging a machine.
#[derive(Clone, Copy, Debug, PartialEq, Eq, Structural)]
pub enum HeartbeatAction {
    Nothing,
    MarkOnline,
    MarkOffline,
}

/// The missed pings of each machine since it last answered.
pub struct HeartbeatTracker {
    missed: KeyedVec<u32>,
}

impl View for HeartbeatTracker {
    type V = Map<Seq<char>, u32>;

    closed spec fn view(&self) -> Map<Seq<char>, u32> {
        self.missed.map()
    }
}

/// The missed pings of `id` in the counts `m`.
pub open spec fn missed_of(m: Map<Seq<char>, u32>, id: Seq<char>) -> u32 {
    if m.contains_key(id) {
        m[id]
    } else {
        0
    }
}

/// The missed pings of `id` after one more miss, up to `u32::MAX`.
pub open spec fn next_missed(m: Map<Seq<char>, u32>, id: Seq<char>) -> u32 {
    if missed_of(m, id) == u32::MAX {
        u32::MAX
    } else {
        (missed_of(m, id) + 1) as u32
    }
}

/// The missed pings after a ping of `id`: an answer clears them, a miss counts.
pub open spec fn after_ping(m: Map<Seq<char>, u32>, id: Seq<char>, alive: bool) -> Map<Seq<char>, u32> {
    if alive {
        m.remove(id)
    } else {
        m.insert(id, next_missed(m, id))
    }
}

/// What a ping of `id` leads to: an answer brings an offline machine back; the
/// third missed ping in a row takes an online machine offline.
pub open spec fn ping_action(m: Map<Seq<char>, u32>, id: Seq<char>, was_online: bool, alive: bool) -> HeartbeatAction {
    if alive {
        if was_online {
            HeartbeatAction::Nothing
        } else {
            HeartbeatAction::MarkOnline
        }
    } else if next_missed(m, id) >= MAX_MISSED_PINGS && was_online {
        HeartbeatAction::MarkOffline
    } else {
        HeartbeatAction::Nothing
    }
}

/// Law: an online machine that answered is taken offline exactly at its third
/// missed ping in a row.
pub proof fn law_three_missed_pings(m: Map<Seq<char>, u32>, id: Seq<char>)
    requires
        missed_of(m, id) == 0,
    ensures
        ping_action(m, id, true, false) == HeartbeatAction::Nothing,
        ping_action(after_ping(m, id, false), id, true, false) == HeartbeatAction::Nothing,
        ping_action(after_ping(after_ping(m, id, false), id, false), id, true, false)
            == HeartbeatAction::MarkOffline,
{
}

/// Law: an answer clears the missed pings of a machine and leaves the others.
pub proof fn law_answer_resets(m: Map<Seq<char>, u32>, id: Seq<char>)
    ensures
        missed_of(after_ping(m, id, true), id) == 0,
        forall|other: Seq<char>|
            other != id ==> missed_of(#[trigger] after_ping(m, id, true), other) == missed_of(m, other),
{
}

impl HeartbeatTracker {
    /// A tracker with no missed pings.
    pub fn new() -> (r: Self)
        ensures
            r@ == Map::<Seq<char>, u32>::empty(),
    {
        HeartbeatTracker { missed: KeyedVec::new() }
    }

    /// Records a ping of machine `id`, which was online or not, and says what
    /// to do: an answer clears its missed pings and brings an offline machine
    /// back; a missed ping is counted (up to `u32::MAX`), and the third in a
    /// row takes an online machine offline.
    pub fn record(&mut self, id: &str, was_online: bool, is_alive: bool) -> (r: HeartbeatAction)
        ensures
            final(self)@ == after_ping(old(self)@, id@, is_alive),
            r == ping_action(old(self)@, id@, was_online, is_alive),
    {
        if is_alive {
            let _ = self.missed.remove(id);
            if was_online {
                HeartbeatAction::Nothing
            } else {
                HeartbeatAction::MarkOnline
            }
        } else {
            let current: u32 = match self.missed.get(id) {
                Some(c) => *c,
                None => 0,
            };
            let n = if current == u32::MAX {
                current
            } else {
                current + 1
            };
            self.missed.insert(String::from_str(id), n);
            if n >= MAX_MISSED_PINGS && was_online {
                HeartbeatAction::MarkOffline
            } else {
                HeartbeatAction::Nothing
            }
        }
    }
}

/// The address pinged by the heartbeat and by a manual add: port 80.
pub fn http_address(ip: &str) -> (r: String)
    ensures
        r@ == ip@ + ":80"@,
{
    let mut r = String::from_str(ip);
    r.append(":80");
    r
}

// ---------------------------------------------------------------------------
// Scanning
// ---------------------------------------------------------------------------

/// An IP address: four octets, or eight 16-bit groups.
#[derive(Clone, Copy, Debug, PartialEq, Eq)]
pub enum IpAddress {
    V4([u8; 4]),
    V6([u16; 8]),
}

/// The /24 subnet of an IPv4 address; an IPv6 address has none to scan.
pub fn get_subnet(ip: IpAddress) -> (r: Option<[u8; 3]>)
    ensures
        match ip {
            IpAddress::V4(o) => r matches Some(s) && s@ == o@.take(3),
            IpAddress::V6(_) => r is None,
        },
{
    match ip {
        IpAddress::V4(o) => {
            let s = [o[0], o[1], o[2]];
            assert(s@ =~= o@.take(3));
            Some(s)
        },
        IpAddress::V6(_) => None,
    }
}

/// The addresses of a /24 subnet that are scanned: hosts 1 to 254.
pub fn scan_addresses(subnet: [u8; 3]) -> (r: Vec<[u8; 4]>)
    ensures
        r@.len() == 254,
        forall|i: int|
            0 <= i < 254 ==> (#[trigger] r@[i])@ == seq![subnet@[0], subnet@[1], subnet@[2], (i + 1) as u8],
{
    let mut r: Vec<[u8; 4]> = Vec::new();
    let mut last: u8 = 1;
    while last < 255
        invariant
            1 <= last <= 255,
            r@.len() == last - 1,
            forall|i: int|
                0 <= i < r@.len() ==> (#[trigger] r@[i])@ == seq![
                    subnet@[0],
                    subnet@[1],
                    subnet@[2],
                    (i + 1) as u8,
                ],
        decreases 255 - last,
    {
        let a = [subnet[0], subnet[1], subnet[2], last];
        assert(a@ =~= seq![subnet@[0], subnet@[1], subnet@[2], last]);
        r.push(a);
        last = last + 1;
    }
    r
}

/// The addresses are probed in batches of this size.
pub const SCAN_BATCH: usize = 32;

/// The batches `[start, end)` of `n` addresses, in order, each of 32 but the
/// last.
pub fn scan_batches(n: usize) -> (r: Vec<(usize, usize)>)
    ensures
        forall|k: int|
            0 <= k < r@.len() ==> (#[trigger] r@[k]).0 == k * 32 && r@[k].1 == (if (k + 1) * 32
                <= n {
                (k + 1) * 32
            } else {
                n as int
            }),
        r@.len() * 32 >= n,
        r@.len() == 0 || (r@.len() - 1) * 32 < n,
{
    let mut r: Vec<(usize, usize)> = Vec::new();
    let mut start: usize = 0;
    while start < n
        invariant
            start <= n,
            r@.len() * 32 >= start,
            start < n ==> start == r@.len() * 32,
            r@.len() == 0 || (r@.len() - 1) * 32 < n,
            forall|k: int|
                0 <= k < r@.len() ==> (#[trigger] r@[k]).0 == k * 32 && r@[k].1 == (if (k + 1)
                    * 32 <= n {
                    (k + 1) * 32
                } else {
                    n as int
                }),
        decreases n - start,
    {
        let end = if n - start >= 32 {
            start + 32
        } else {
            n
        };
        r.push((start, end));
        start = end;
    }
    r
}

/// The dotted text of an IPv4 address.
pub open spec fn ipv4_text_of(o: Seq<u8>) -> Seq<char> {
    decimal(o[0] as nat) + "."@ + decimal(o[1] as nat) + "."@ + decimal(o[2] as nat) + "."@ + decimal(
        o[3] as nat,
    )
}

/// An IPv4 address as text (see `ipv4_text_of`).
pub fn ipv4_text(o: [u8; 4]) -> (r: String)
    ensures
        r@ == ipv4_text_of(o@),
{
    let mut r = decimal_string(o[0] as u64);
    r.append(".");
    let b = decimal_string(o[1] as u64);
    r.append(b.as_str());
    r.append(".");
    let c = decimal_string(o[2] as u64);
    r.append(c.as_str());
    r.append(".");
    let d = decimal_string(o[3] as u64);
    r.append(d.as_str());
    r
}

/// Whether an HTTP `Server` header names Apache or XAMPP, in any case; a
/// missing header names nothing.
pub open spec fn names_apache(server: Option<Seq<char>>) -> bool {
    match server {
        Some(s) => {
            let h = crate::unicode::lowercase(s);
            contains(h, "apache"@) || contains(h, "xampp"@)
        },
        None => false,
    }
}

/// Whether a web server's `Server` header shows an XAMPP machine (see
/// `names_apache`).
pub fn server_is_apache(server: Option<&str>) -> (r: bool)
    ensures
        r == names_apache(match server {
            Some(s) => Some(s@),
            None => None,
        }),
{
    match server {
        Some(s) => {
            let lower = crate::unicode::to_lowercase(s);
            let v = chars_of(lower.as_str());
            contains_exec(&v, &chars_of("apache")) || contains_exec(&v, &chars_of("xampp"))
        },
        None => false,
    }
}

/// The ports on which an advertised web server is looked at.
pub open spec fn is_web_port(port: u16) -> bool {
    port == 80 || port == 443 || port == 8080
}

/// Whether a service advertised over mDNS on `port` is worth a look.
pub fn is_discoverable_port(port: u16) -> (r: bool)
    ensures
        r == is_web_port(port),
{
    port == 80 || port == 443 || port == 8080
}

/// Law: a server advertised over mDNS is looked at exactly when its port is
/// 80, 443 or 8080; in particular Apache's default port 80 is.
pub proof fn law_discoverable_ports(port: u16)
    ensures
        is_web_port(port) <==> (port == 80 || port == 443 || port == 8080),
        is_web_port(80) && is_web_port(443) && is_web_port(8080),
{
}

/// The URL at which an advertised server is asked who it is.
pub fn probe_url(ip: &str, port: u16) -> (r: String)
    ensures
        r@ == "http://"@ + ip@ + ":"@ + decimal(port as nat),
{
    let mut r = String::from_str("http://");
    r.append(ip);
    r.append(":");
    let p = decimal_string(port as u64);
    r.append(p.as_str());
    r
}

/// The URL at which a scanned address is asked who it is.
pub fn scan_url(ip: &str) -> (r: String)
    ensures
        r@ == "http://"@ + ip@ + "/"@,
{
    let mut r = String::from_str("http://");
    r.append(ip);
    r.append("/");
    r
}

/// The host name an mDNS record gives, without its trailing dots.
pub fn mdns_hostname(hostname: &str) -> (r: String)
    ensures
        r@ == trim_end_by(hostname@, in_set(seq!['.'])),
{
    let v = chars_of(hostname);
    let dot = vec!['.'];
    assert(dot@ =~= seq!['.']);
    let end = crate::text::skip_set_back(&v, 0, v.len(), &dot);
    assert(v@.subrange(0, v@.len() as int) =~= v@);
    crate::text::string_of_range(&v, 0, end)
}

/// The current UTC time in RFC 3339 (`chrono::Utc::now().to_rfc3339()`).
/// Nothing is claimed of it.
#[verifier::external_body]
pub(crate) fn now_rfc3339() -> (r: String) {
    chrono::Utc::now().to_rfc3339()
}

/// A machine just seen online at `ip`, found by `via`, seen at `last_seen`.
pub fn discovered_machine_at(
    ip: &str,
    hostname: String,
    services: Vec<ServiceStatus>,
    via: DiscoveryMethod,
    last_seen: String,
) -> (r: Machine)
    ensures
        r@ == (MachineView {
            id: ip@,
            hostname: hostname@,
            ip: ip@,
            os: None,
            services: services@,
            last_seen: last_seen@,
            online: true,
            discovered_via: via,
        }),
{
    Machine {
        id: String::from_str(ip),
        hostname,
        ip: String::from_str(ip),
        os: None,
        services,
        last_seen,
        online: true,
        discovered_via: via,
    }
}

/// A machine just seen online at `ip`, seen now.
pub fn discovered_machine(ip: &str, hostname: String, services: Vec<ServiceStatus>, via: DiscoveryMethod) -> (r: Machine)
    ensures
        r.id@ == ip@,
        r.ip@ == ip@,
        r.hostname@ == hostname@,
        r.os is None,
        r.services@ == services@,
        r.online,
        r.discovered_via == via,
{
    let now = now_rfc3339();
    discovered_machine_at(ip, hostname, services, via, now)
}

/// The refusal when a manually added machine does not answer on port 80.
pub fn unreachable_message(ip: &str) -> (r: String)
    ensures
        r@ == "Cannot connect to "@ + ip@ + ":80 - machine may be offline"@,
{
    let mut r = String::from_str("Cannot connect to ");
    r.append(ip);
    r.append(":80 - machine may be offline");
    r
}

/// Whether discovery may start or stop, by whether it runs: the refusal
/// otherwise.
pub fn discovery_switch(running: bool, start: bool) -> (r: Result<(), String>)
    ensures
        r is Ok <==> running != start,
        start && running ==> (r matches Err(e) && e@ == "Discovery already running"@),
        !start && !running ==> (r matches Err(e) && e@ == "Discovery is not running"@),
{
    if start && running {
        Err(String::from_str("Discovery already running"))
    } else if !start && !running {
        Err(String::from_str("Discovery is not running"))
    } else {
        Ok(())
    }
}

} // verus!
