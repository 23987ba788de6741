//! Discovery of devices that announce themselves on the local network.
//!
//! A discovery window listens for announcements for a fixed time and returns
//! one snapshot. The window is a state machine: the caller performs each
//! action it asks for (start the listener, read the clock, poll, sleep, stop
//! the listener) and hands back what happened.

use vstd::prelude::*;
use crate::identity::{IpAddress, ipv4_of, ipv4_text, ipv4_to_string, lemma_ipv4_round_trip};
use crate::text::{
    char_end, chars_of, concat, opt_text, contains, contains_exec, copy_range, string_of, string_views,
};

verus! {

/// The port offered for pairing with an announced device.
pub const PAIRING_PORT: u16 = 37851;

/// The data-connection port assumed for a device that announces a connection service.
pub const CONNECTION_PORT: u16 = 5555;

/// How long a discovery window listens, in milliseconds.
pub const DISCOVERY_BUDGET_MS: u64 = 5000;

/// The pause between two polls of the announcement queue, in milliseconds.
pub const POLL_INTERVAL_MS: u64 = 100;

/// One service announcement heard on the network.
pub struct Announcement {
    pub fullname: String,
    pub addresses: Vec<IpAddress>,
}

/// A device found by discovery.
pub struct DiscoveredWirelessDevice {
    pub name: String,
    pub fullname: String,
    /// The announced IPv4 addresses in dotted-decimal form; never empty.
    pub addresses: Vec<String>,
    pub port: u16,
    pub connection_port: Option<u16>,
    pub is_paired: bool,
    pub is_connected: bool,
}

pub struct DiscoveredView {
    pub name: Seq<char>,
    pub fullname: Seq<char>,
    pub addresses: Seq<Seq<char>>,
    pub port: u16,
    pub connection_port: Option<u16>,
    pub is_paired: bool,
    pub is_connected: bool,
}

impl View for DiscoveredWirelessDevice {
    type V = DiscoveredView;

    open spec fn view(&self) -> DiscoveredView {
        DiscoveredView {
            name: self.name@,
            fullname: self.fullname@,
            addresses: string_views(self.addresses@),
            port: self.port,
            connection_port: self.connection_port,
            is_paired: self.is_paired,
            is_connected: self.is_connected,
        }
    }
}

pub open spec fn device_views(v: Seq<DiscoveredWirelessDevice>) -> Seq<DiscoveredView> {
    v.map_values(|d: DiscoveredWirelessDevice| d@)
}

/// What an announced service offers, judged by its advertised name.
#[derive(PartialEq, Eq, Structural)]
pub enum ServiceKind {
    Pairing,
    Connection,
    Unknown,
}

pub open spec fn service_kind(fullname: Seq<char>) -> ServiceKind {
    if contains(fullname, "_adb-tls-pairing._tcp"@) {
        ServiceKind::Pairing
    } else if contains(fullname, "_adb-tls-connect._tcp"@) {
        ServiceKind::Connection
    } else {
        ServiceKind::Unknown
    }
}

/// The human name: the advertised name up to its first `.`.
pub open spec fn service_name(fullname: Seq<char>) -> Seq<char> {
    fullname.subrange(0, char_end(fullname, '.', 0))
}

/// The dotted-decimal texts of the IPv4 addresses among `addrs`, in order.
pub open spec fn ipv4_texts(addrs: Seq<IpAddress>) -> Seq<Seq<char>>
    decreases addrs.len(),
{
    if addrs.len() == 0 {
        seq![]
    } else {
        let rest = ipv4_texts(addrs.drop_last());
        match addrs.last() {
            IpAddress::V4(ip) => rest.push(ipv4_text(ip)),
            IpAddress::V6(_) => rest,
        }
    }
}

/// The record for an announcement of `fullname` at `addrs`: none when no
/// IPv4 address is announced.
pub open spec fn discovered_record(fullname: Seq<char>, addrs: Seq<IpAddress>) -> Option<
    DiscoveredView,
> {
    let ips = ipv4_texts(addrs);
    if ips.len() == 0 {
        None
    } else {
        Some(
            DiscoveredView {
                name: service_name(fullname),
                fullname,
                addresses: ips,
                port: PAIRING_PORT,
                connection_port: if service_kind(fullname) == ServiceKind::Connection {
                    Some(CONNECTION_PORT)
                } else {
                    None
                },
                is_paired: false,
                is_connected: false,
            },
        )
    }
}

/// The records of the announcements `anns`, in order.
pub open spec fn discovered(anns: Seq<Announcement>) -> Seq<DiscoveredView>
    decreases anns.len(),
{
    if anns.len() == 0 {
        seq![]
    } else {
        let rest = discovered(anns.drop_last());
        match discovered_record(anns.last().fullname@, anns.last().addresses@) {
            Some(d) => rest.push(d),
            None => rest,
        }
    }
}

/// What the service named `fullname` offers.
pub fn classify_service(fullname: &Vec<char>) -> (r: ServiceKind)
    ensures
        r == service_kind(fullname@),
{
    if contains_exec(fullname, &chars_of("_adb-tls-pairing._tcp")) {
        ServiceKind::Pairing
    } else if contains_exec(fullname, &chars_of("_adb-tls-connect._tcp")) {
        ServiceKind::Connection
    } else {
        ServiceKind::Unknown
    }
}

fn name_of_service(fullname: &Vec<char>) -> (r: String)
    ensures
        r@ == service_name(fullname@),
{
    let mut e: usize = 0;
    while e < fullname.len() && fullname[e] != '.'
        invariant
            e <= fullname@.len(),
            char_end(fullname@, '.', 0) == char_end(fullname@, '.', e as int),
        decreases fullname@.len() - e,
    {
        e += 1;
    }
    string_of(&copy_range(fullname, 0, e))
}

/// The dotted-decimal texts of the IPv4 addresses among `addrs`; IPv6
/// addresses are dropped.
pub fn ipv4_strings(addrs: &Vec<IpAddress>) -> (r: Vec<String>)
    ensures
        string_views(r@) == ipv4_texts(addrs@),
{
    let mut r: Vec<String> = Vec::new();
    let mut k: usize = 0;
    assert(string_views(r@) =~= ipv4_texts(addrs@.subrange(0, 0)));
    while k < addrs.len()
        invariant
            k <= addrs@.len(),
            string_views(r@) == ipv4_texts(addrs@.subrange(0, k as int)),
        decreases addrs@.len() - k,
    {
        assert(addrs@.subrange(0, k + 1).drop_last() =~= addrs@.subrange(0, k as int));
        match addrs[k] {
            IpAddress::V4(ip) => {
                let t = ipv4_to_string(ip);
                assert(string_views(r@.push(t)) =~= string_views(r@).push(t@));
                r.push(t);
            },
            IpAddress::V6(_) => {},
        }
        k += 1;
    }
    assert(addrs@.subrange(0, addrs@.len() as int) =~= addrs@);
    r
}

/// The record for one announcement, or none when it carries no IPv4 address.
pub fn discovered_device(a: &Announcement) -> (r: Option<DiscoveredWirelessDevice>)
    ensures
        r matches Some(d) ==> discovered_record(a.fullname@, a.addresses@) == Some(d@),
        r is None ==> discovered_record(a.fullname@, a.addresses@) is None,
{
    let addresses = ipv4_strings(&a.addresses);
    if addresses.len() == 0 {
        return None;
    }
    let full = chars_of(a.fullname.as_str());
    let kind = classify_service(&full);
    let connection_port = if kind == ServiceKind::Connection {
        Some(CONNECTION_PORT)
    } else {
        None
    };
    Some(
        DiscoveredWirelessDevice {
            name: name_of_service(&full),
            fullname: string_of(&full),
            addresses,
            port: PAIRING_PORT,
            connection_port,
            is_paired: false,
            is_connected: false,
        },
    )
}

/// The snapshot that the announcements `anns` of one window give: one record
/// per announcement with at least one IPv4 address, in order of arrival.
pub fn discover_wireless_devices_detailed(anns: &Vec<Announcement>) -> (r: Vec<
    DiscoveredWirelessDevice,
>)
    ensures
        device_views(r@) == discovered(anns@),
{
    let mut r: Vec<DiscoveredWirelessDevice> = Vec::new();
    let mut k: usize = 0;
    assert(device_views(r@) =~= discovered(anns@.subrange(0, 0)));
    while k < anns.len()
        invariant
            k <= anns@.len(),
            device_views(r@) == discovered(anns@.subrange(0, k as int)),
        decreases anns@.len() - k,
    {
        assert(anns@.subrange(0, k + 1).drop_last() =~= anns@.subrange(0, k as int));
        match discovered_device(&anns[k]) {
            Some(d) => {
                assert(device_views(r@.push(d)) =~= device_views(r@).push(d@));
                r.push(d);
            },
            None => {},
        }
        k += 1;
    }
    assert(anns@.subrange(0, anns@.len() as int) =~= anns@);
    r
}

/// Where a discovery window stands.
#[derive(Clone, Copy, PartialEq, Eq, Structural)]
pub enum DiscoveryPhase {
    /// The listener has not been started.
    Idle,
    /// The listener runs and announcements are collected.
    Listening,
    /// The time is up; the listener is being stopped.
    Draining,
    /// The window is over; its outcome can be taken.
    Finished,
}

/// Why the listener could not be started (each with the underlying error's text).
pub enum ListenerFailure {
    Create(String),
    Start(String),
}

/// What the caller hands back after performing an action.
pub enum DiscoveryEvent {
    /// The outcome of creating and starting the listener.
    ListenerStarted(Result<(), ListenerFailure>),
    /// The milliseconds since listening began, read before each poll.
    Clock(u64),
    /// What one poll of the announcement queue gave.
    Polled(Option<Announcement>),
    /// The outcome of stopping the listener.
    ListenerStopped(Result<(), String>),
}

/// What the caller is asked to do next.
#[derive(Clone, Copy, PartialEq, Eq, Structural)]
pub enum DiscoveryAction {
    StartListener,
    ReadClock,
    Poll,
    Sleep(u64),
    StopListener,
    /// The window is over: take its outcome.
    Finish,
}

/// One discovery window.
pub struct DiscoveryWindow {
    pub budget_ms: u64,
    pub phase: DiscoveryPhase,
    pub devices: Vec<DiscoveredWirelessDevice>,
    pub failure: Option<String>,
}

/// The action that a window in `phase` waits on.
pub open spec fn awaited(phase: DiscoveryPhase) -> DiscoveryAction {
    match phase {
        DiscoveryPhase::Idle => DiscoveryAction::StartListener,
        DiscoveryPhase::Listening => DiscoveryAction::ReadClock,
        DiscoveryPhase::Draining => DiscoveryAction::StopListener,
        DiscoveryPhase::Finished => DiscoveryAction::Finish,
    }
}

impl DiscoveryWindow {
    /// A window that has not started and listens for `budget_ms` once started.
    pub fn new(budget_ms: u64) -> (r: DiscoveryWindow)
        ensures
            r.budget_ms == budget_ms,
            r.phase == DiscoveryPhase::Idle,
            r.devices@.len() == 0,
            r.failure is None,
    {
        DiscoveryWindow { budget_ms, phase: DiscoveryPhase::Idle, devices: Vec::new(), failure: None }
    }

    /// The first action of a window.
    pub fn first_action(&self) -> (r: DiscoveryAction)
        ensures
            r == awaited(self.phase),
    {
        match self.phase {
            DiscoveryPhase::Idle => DiscoveryAction::StartListener,
            DiscoveryPhase::Listening => DiscoveryAction::ReadClock,
            DiscoveryPhase::Draining => DiscoveryAction::StopListener,
            DiscoveryPhase::Finished => DiscoveryAction::Finish,
        }
    }

    /// Takes in what the last action gave and says what to do next. An event
    /// that the current phase does not wait on changes nothing, and the
    /// awaited action is asked for again.
    pub fn step(&mut self, event: DiscoveryEvent) -> (r: DiscoveryAction)
        ensures
            final(self).budget_ms == old(self).budget_ms,
            ({
                let o = *old(self);
                let f = *final(self);
                match (o.phase, event) {
                    (DiscoveryPhase::Idle, DiscoveryEvent::ListenerStarted(Ok(()))) => {
                        &&& f.phase == DiscoveryPhase::Listening
                        &&& r == DiscoveryAction::ReadClock
                        &&& f.devices@ == o.devices@
                        &&& f.failure == o.failure
                    },
                    (DiscoveryPhase::Idle, DiscoveryEvent::ListenerStarted(Err(e))) => {
                        &&& f.phase == DiscoveryPhase::Finished
                        &&& r == DiscoveryAction::Finish
                        &&& f.devices@ == o.devices@
                        &&& opt_text(f.failure) == Some(
                            match e {
                                ListenerFailure::Create(t) => "Failed to create mDNS discovery service: "@
                                    + t@,
                                ListenerFailure::Start(t) => "Failed to start mDNS discovery: "@
                                    + t@,
                            },
                        )
                    },
                    (DiscoveryPhase::Listening, DiscoveryEvent::Clock(t)) => {
                        &&& f.devices@ == o.devices@
                        &&& f.failure == o.failure
                        &&& if t < o.budget_ms {
                            f.phase == DiscoveryPhase::Listening && r == DiscoveryAction::Poll
                        } else {
                            f.phase == DiscoveryPhase::Draining && r
                                == DiscoveryAction::StopListener
                        }
                    },
                    (DiscoveryPhase::Listening, DiscoveryEvent::Polled(a)) => {
                        &&& f.phase == DiscoveryPhase::Listening
                        &&& r == DiscoveryAction::Sleep(POLL_INTERVAL_MS)
                        &&& f.failure == o.failure
                        &&& device_views(f.devices@) == match a {
                            Some(a) => match discovered_record(a.fullname@, a.addresses@) {
                                Some(d) => device_views(o.devices@).push(d),
                                None => device_views(o.devices@),
                            },
                            None => device_views(o.devices@),
                        }
                    },
                    (DiscoveryPhase::Draining, DiscoveryEvent::ListenerStopped(Ok(()))) => {
                        &&& f.phase == DiscoveryPhase::Finished
                        &&& r == DiscoveryAction::Finish
                        &&& f.devices@ == o.devices@
                        &&& f.failure == o.failure
                    },
                    (DiscoveryPhase::Draining, DiscoveryEvent::ListenerStopped(Err(e))) => {
                        &&& f.phase == DiscoveryPhase::Finished
                        &&& r == DiscoveryAction::Finish
                        &&& f.devices@ == o.devices@
                        &&& opt_text(f.failure) == Some("Failed to shutdown mDNS discovery: "@ + e@)
                    },
                    _ => {
                        &&& f.phase == o.phase
                        &&& r == awaited(o.phase)
                        &&& f.devices@ == o.devices@
                        &&& f.failure == o.failure
                    },
                }
            }),
    {
        match (self.phase, event) {
            (DiscoveryPhase::Idle, DiscoveryEvent::ListenerStarted(Ok(()))) => {
                self.phase = DiscoveryPhase::Listening;
                DiscoveryAction::ReadClock
            },
            (DiscoveryPhase::Idle, DiscoveryEvent::ListenerStarted(Err(e))) => {
                let message = match e {
                    ListenerFailure::Create(t) => concat(
                        "Failed to create mDNS discovery service: ",
                        t.as_str(),
                    ),
                    ListenerFailure::Start(t) => concat(
                        "Failed to start mDNS discovery: ",
                        t.as_str(),
                    ),
                };
                self.failure = Some(message);
                self.phase = DiscoveryPhase::Finished;
                DiscoveryAction::Finish
            },
            (DiscoveryPhase::Listening, DiscoveryEvent::Clock(t)) => {
                if t < self.budget_ms {
                    DiscoveryAction::Poll
                } else {
                    self.phase = DiscoveryPhase::Draining;
                    DiscoveryAction::StopListener
                }
            },
            (DiscoveryPhase::Listening, DiscoveryEvent::Polled(a)) => {
                match a {
                    Some(a) => match discovered_device(&a) {
                        Some(d) => {
                            assert(device_views(self.devices@.push(d)) =~= device_views(
                                self.devices@,
                            ).push(d@));
                            self.devices.push(d);
                        },
                        None => {},
                    },
                    None => {},
                }
                DiscoveryAction::Sleep(POLL_INTERVAL_MS)
            },
            (DiscoveryPhase::Draining, DiscoveryEvent::ListenerStopped(Ok(()))) => {
                self.phase = DiscoveryPhase::Finished;
                DiscoveryAction::Finish
            },
            (DiscoveryPhase::Draining, DiscoveryEvent::ListenerStopped(Err(e))) => {
                self.failure = Some(concat("Failed to shutdown mDNS discovery: ", e.as_str()));
                self.phase = DiscoveryPhase::Finished;
                DiscoveryAction::Finish
            },
            _ => self.first_action(),
        }
    }

    /// The outcome of the window: the collected records, or the listener's failure.
    pub fn outcome(self) -> (r: Result<Vec<DiscoveredWirelessDevice>, String>)
        ensures
            match self.failure {
                Some(e) => r matches Err(m) && m@ == e@,
                None => r matches Ok(v) && v@ == self.devices@,
            },
    {
        match self.failure {
            Some(e) => Err(e),
            None => Ok(self.devices),
        }
    }
}

/// Whether `t` is the text of one of the IPv4 addresses among `addrs`.
pub open spec fn text_of_some_ipv4(t: Seq<char>, addrs: Seq<IpAddress>) -> bool {
    exists|i: int|
        0 <= i < addrs.len() && match #[trigger] addrs[i] {
            IpAddress::V4(ip) => t == ipv4_text(ip),
            IpAddress::V6(_) => false,
        }
}

proof fn lemma_ipv4_texts_members(addrs: Seq<IpAddress>)
    ensures
        forall|j: int|
            0 <= j < ipv4_texts(addrs).len() ==> text_of_some_ipv4(
                #[trigger] ipv4_texts(addrs)[j],
                addrs,
            ),
        (exists|i: int| 0 <= i < addrs.len() && #[trigger] addrs[i] is V4) ==> ipv4_texts(
            addrs,
        ).len() > 0,
    decreases addrs.len(),
{
    if addrs.len() > 0 {
        let pre = addrs.drop_last();
        let last_index = addrs.len() - 1;
        lemma_ipv4_texts_members(pre);
        assert forall|j: int| 0 <= j < ipv4_texts(addrs).len() implies text_of_some_ipv4(
            #[trigger] ipv4_texts(addrs)[j],
            addrs,
        ) by {
            if j < ipv4_texts(pre).len() {
                assert(ipv4_texts(addrs)[j] == ipv4_texts(pre)[j]);
                let t = ipv4_texts(pre)[j];
                assert(text_of_some_ipv4(t, pre));
                let i = choose|i: int|
                    0 <= i < pre.len() && match #[trigger] pre[i] {
                        IpAddress::V4(ip) => t == ipv4_text(ip),
                        IpAddress::V6(_) => false,
                    };
                assert(addrs[i] == pre[i]);
            } else {
                assert(addrs[last_index] == addrs.last());
            }
        }
        if exists|i: int| 0 <= i < addrs.len() && #[trigger] addrs[i] is V4 {
            let i = choose|i: int| 0 <= i < addrs.len() && #[trigger] addrs[i] is V4;
            if i < last_index {
                assert(pre[i] == addrs[i]);
            }
        }
    }
}

/// An announcement whose addresses are all IPv6 gives no record.
pub proof fn lemma_ipv6_only_dropped(fullname: Seq<char>, addrs: Seq<IpAddress>)
    requires
        forall|i: int| 0 <= i < addrs.len() ==> #[trigger] addrs[i] is V6,
    ensures
        discovered_record(fullname, addrs) is None,
{
    lemma_ipv4_texts_members(addrs);
    if ipv4_texts(addrs).len() > 0 {
        let t = ipv4_texts(addrs)[0];
        assert(text_of_some_ipv4(t, addrs));
    }
}

/// An announcement with at least one IPv4 address gives a record whose
/// addresses are its IPv4 addresses, in order, and nothing else.
pub proof fn lemma_record_keeps_only_ipv4(fullname: Seq<char>, addrs: Seq<IpAddress>)
    requires
        exists|i: int| 0 <= i < addrs.len() && #[trigger] addrs[i] is V4,
    ensures
        discovered_record(fullname, addrs) matches Some(d) && d.addresses == ipv4_texts(addrs)
            && forall|j: int|
            0 <= j < d.addresses.len() ==> text_of_some_ipv4(#[trigger] d.addresses[j], addrs),
{
    lemma_ipv4_texts_members(addrs);
}

proof fn lemma_discovered_nonempty(anns: Seq<Announcement>)
    ensures
        forall|k: int|
            0 <= k < discovered(anns).len() ==> #[trigger] discovered(anns)[k].addresses.len() > 0,
    decreases anns.len(),
{
    if anns.len() > 0 {
        lemma_discovered_nonempty(anns.drop_last());
    }
}

proof fn lemma_ipv4_texts_parse(addrs: Seq<IpAddress>)
    ensures
        forall|j: int|
            0 <= j < ipv4_texts(addrs).len() ==> ipv4_of(#[trigger] ipv4_texts(addrs)[j]) is Some,
    decreases addrs.len(),
{
    if addrs.len() > 0 {
        lemma_ipv4_texts_parse(addrs.drop_last());
        match addrs.last() {
            IpAddress::V4(ip) => lemma_ipv4_round_trip(ip),
            IpAddress::V6(_) => {},
        }
    }
}

proof fn lemma_discovered_addresses_parse(anns: Seq<Announcement>)
    ensures
        forall|k: int, j: int|
            0 <= k < discovered(anns).len() && 0 <= j < discovered(anns)[k].addresses.len()
                ==> ipv4_of(#[trigger] discovered(anns)[k].addresses[j]) is Some,
    decreases anns.len(),
{
    if anns.len() > 0 {
        lemma_discovered_addresses_parse(anns.drop_last());
        lemma_ipv4_texts_parse(anns.last().addresses@);
    }
}

/// Every record of a snapshot has at least one address, and every address is
/// the dotted-decimal text of an IPv4 address: an announcement with IPv6
/// addresses only never appears in it.
pub proof fn lemma_snapshot_addresses_are_ipv4(anns: Seq<Announcement>)
    ensures
        forall|k: int|
            0 <= k < discovered(anns).len() ==> #[trigger] discovered(anns)[k].addresses.len() > 0,
        forall|k: int, j: int|
            0 <= k < discovered(anns).len() && 0 <= j < discovered(anns)[k].addresses.len()
                ==> ipv4_of(#[trigger] discovered(anns)[k].addresses[j]) is Some,
{
    lemma_discovered_nonempty(anns);
    lemma_discovered_addresses_parse(anns);
}

} // verus!
