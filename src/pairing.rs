//! Pairing with a network device and finding its data-connection port.

use vstd::prelude::*;
use crate::discovery::{DiscoveredView, DiscoveredWirelessDevice, device_views};
use crate::identity::{IpAddress, Ipv4Address, network_identity, network_identity_text};
use crate::number::{all_digits, is_digit};
use crate::text::{
    chars_of, concat, contains, contains_exec, is_ws, lemma_trim_padded, owned, string_of,
    string_views, trim, trimmed,
};

verus! {

/// The number of digits in a pairing code.
pub const PAIRING_CODE_LEN: usize = 6;

/// Whether `code` is a valid pairing code once trimmed: six ASCII digits.
pub open spec fn valid_pairing_code(code: Seq<char>) -> bool {
    trim(code).len() == PAIRING_CODE_LEN && all_digits(trim(code))
}

/// The code to pair with: `code` trimmed of whitespace, when it is six ASCII
/// digits; otherwise the reason it is refused.
pub fn validate_pairing_code(code: &str) -> (r: Result<String, String>)
    ensures
        r is Ok <==> valid_pairing_code(code@),
        r matches Ok(c) ==> c@ == trim(code@),
        r matches Err(m) ==> m@ == if trim(code@).len() != PAIRING_CODE_LEN {
            "Pairing code must be exactly 6 digits"@
        } else {
            "Pairing code must contain only digits"@
        },
{
    let t = trimmed(&chars_of(code));
    if t.len() != PAIRING_CODE_LEN {
        return Err(string_of(&chars_of("Pairing code must be exactly 6 digits")));
    }
    let mut i: usize = 0;
    while i < t.len()
        invariant
            i <= t@.len(),
            t@.len() == PAIRING_CODE_LEN,
            t@ == trim(code@),
            forall|j: int| 0 <= j < i ==> is_digit(#[trigger] t@[j]),
        decreases t@.len() - i,
    {
        if t[i] < '0' || t[i] > '9' {
            assert(!is_digit(t@[i as int]));
            return Err(string_of(&chars_of("Pairing code must contain only digits")));
        }
        i += 1;
    }
    Ok(string_of(&t))
}

/// Any six ASCII digits with any whitespace around them are a valid code,
/// and the code paired with is the six digits.
pub proof fn lemma_padded_code_accepted(pre: Seq<char>, digits: Seq<char>, post: Seq<char>)
    requires
        forall|j: int| 0 <= j < pre.len() ==> is_ws(#[trigger] pre[j]),
        forall|j: int| 0 <= j < post.len() ==> is_ws(#[trigger] post[j]),
        digits.len() == PAIRING_CODE_LEN,
        all_digits(digits),
    ensures
        valid_pairing_code(pre + digits + post),
        trim(pre + digits + post) == digits,
{
    assert(is_digit(digits[0]) && is_digit(digits[5]));
    lemma_trim_padded(pre, digits, post);
}

/// A checked request to pair: where to pair and with which code.
pub struct PairingRecord {
    pub ip: Ipv4Address,
    pub port: u16,
    pub code: String,
}

/// The pairing request for the device at `ip`, pairing port `port`, with
/// `pairing_code`; refused before any network activity when the address is
/// IPv6 or the code is not six digits.
pub fn pairing_request(ip: IpAddress, port: u16, pairing_code: &str) -> (r: Result<
    PairingRecord,
    String,
>)
    ensures
        r is Ok <==> (ip is V4 && valid_pairing_code(pairing_code@)),
        r matches Ok(p) ==> ip == IpAddress::V4(p.ip) && p.port == port && p.code@ == trim(
            pairing_code@,
        ),
        ip is V6 ==> (r matches Err(m) && m@ == "IPv6 addresses are not supported for pairing"@),
        ip is V4 ==> (r matches Err(m) ==> m@ == if trim(pairing_code@).len() != PAIRING_CODE_LEN {
            "Pairing code must be exactly 6 digits"@
        } else {
            "Pairing code must contain only digits"@
        }),
{
    let v4 = match ip {
        IpAddress::V4(a) => a,
        IpAddress::V6(_) => {
            return Err(string_of(&chars_of("IPv6 addresses are not supported for pairing")));
        },
    };
    match validate_pairing_code(pairing_code) {
        Ok(code) => Ok(PairingRecord { ip: v4, port, code }),
        Err(m) => Err(m),
    }
}

/// What went wrong in a pairing handshake.
#[derive(Clone, Copy, PartialEq, Eq, Structural)]
pub enum PairingFailure {
    ProtocolParse,
    ConnectionRefused,
    Timeout,
    Other,
}

/// The kind of failure that the debug text `e` of a pairing error shows.
pub open spec fn pairing_failure_kind(e: Seq<char>) -> PairingFailure {
    if contains(e, "ParseIntError"@) {
        PairingFailure::ProtocolParse
    } else if contains(e, "ConnectionRefused"@) {
        PairingFailure::ConnectionRefused
    } else if contains(e, "TimedOut"@) {
        PairingFailure::Timeout
    } else {
        PairingFailure::Other
    }
}

/// The kind of failure that the debug text `e` of a pairing error shows.
pub fn classify_pairing_failure(e: &str) -> (r: PairingFailure)
    ensures
        r == pairing_failure_kind(e@),
{
    let v = chars_of(e);
    if contains_exec(&v, &chars_of("ParseIntError")) {
        PairingFailure::ProtocolParse
    } else if contains_exec(&v, &chars_of("ConnectionRefused")) {
        PairingFailure::ConnectionRefused
    } else if contains_exec(&v, &chars_of("TimedOut")) {
        PairingFailure::Timeout
    } else {
        PairingFailure::Other
    }
}

/// The message for a handshake that failed to parse the device's answer.
pub const PROTOCOL_PARSE_MESSAGE: &'static str = "Pairing failed due to a protocol parsing error. \
    This might happen if:\n1. The device is not in pairing mode\n2. The pairing port is \
    incorrect\n3. The pairing code has expired\nPlease check your Android device's wireless \
    debugging screen and try again.";

/// The message for a refused pairing connection.
pub const REFUSED_MESSAGE: &'static str = "Connection refused. Please ensure:\n1. The device is in \
    pairing mode\n2. The IP address and port are correct\n3. Both devices are on the same \
    network";

/// The message for a pairing handshake that timed out.
pub const TIMEOUT_MESSAGE: &'static str = "Pairing timed out. Please try again with a fresh pairing code.";

pub open spec fn pairing_failure_text(e: Seq<char>) -> Seq<char> {
    match pairing_failure_kind(e) {
        PairingFailure::ProtocolParse => PROTOCOL_PARSE_MESSAGE@,
        PairingFailure::ConnectionRefused => REFUSED_MESSAGE@,
        PairingFailure::Timeout => TIMEOUT_MESSAGE@,
        PairingFailure::Other => "Pairing failed with error: "@ + e,
    }
}

/// The outcome of a pairing handshake, given the debug text of its error if
/// it failed: each kind of failure gets a message that says what to check.
/// Pairing is not retried.
pub fn pairing_outcome(handshake: &Result<(), String>) -> (r: Result<(), String>)
    ensures
        handshake is Ok <==> r is Ok,
        handshake matches Err(e) ==> (r matches Err(m) && m@ == pairing_failure_text(e@)),
{
    match handshake {
        Ok(()) => Ok(()),
        Err(e) => {
            let m = match classify_pairing_failure(e.as_str()) {
                PairingFailure::ProtocolParse => owned(PROTOCOL_PARSE_MESSAGE),
                PairingFailure::ConnectionRefused => owned(REFUSED_MESSAGE),
                PairingFailure::Timeout => owned(TIMEOUT_MESSAGE),
                PairingFailure::Other => concat("Pairing failed with error: ", e.as_str()),
            };
            Err(m)
        },
    }
}

/// The port a paired device is reached on when nothing better is known.
pub const DEFAULT_CONNECTION_PORT: u16 = 5555;

/// The number of well-known ports probed in turn.
pub const CANDIDATE_PORT_COUNT: usize = 4;

/// The well-known data-connection ports, in the order they are probed.
pub open spec fn candidate_port_spec(i: int) -> u16 {
    (5555 + i) as u16
}

/// The `i`-th well-known data-connection port.
pub fn candidate_port(i: usize) -> (r: u16)
    requires
        i < CANDIDATE_PORT_COUNT,
    ensures
        r == candidate_port_spec(i as int),
{
    5555 + i as u16
}

/// The connection port that a discovery snapshot gives for `ip`: that of the
/// first record whose addresses hold `ip` and that carries one.
pub open spec fn snapshot_port(devs: Seq<DiscoveredView>, ip: Seq<char>) -> Option<u16>
    decreases devs.len(),
{
    if devs.len() == 0 {
        None
    } else if devs[0].addresses.contains(ip) && devs[0].connection_port is Some {
        devs[0].connection_port
    } else {
        snapshot_port(devs.drop_first(), ip)
    }
}

/// The connection port that the discovery snapshot `devices` gives for `ip`.
pub fn connection_port_from_snapshot(devices: &Vec<DiscoveredWirelessDevice>, ip: &str) -> (r:
    Option<u16>)
    ensures
        r == snapshot_port(device_views(devices@), ip@),
{
    let target = string_of(&chars_of(ip));
    let mut k: usize = 0;
    assert(device_views(devices@).subrange(0, devices@.len() as int) =~= device_views(devices@));
    while k < devices.len()
        invariant
            k <= devices@.len(),
            target@ == ip@,
            snapshot_port(device_views(devices@), ip@) == snapshot_port(
                device_views(devices@).subrange(k as int, devices@.len() as int),
                ip@,
            ),
        decreases devices@.len() - k,
    {
        let ghost rest = device_views(devices@).subrange(k as int, devices@.len() as int);
        assert(rest.drop_first() =~= device_views(devices@).subrange(k + 1, devices@.len() as int));
        let d = &devices[k];
        assert(rest[0] == d@);
        let mut held = false;
        let mut j: usize = 0;
        while j < d.addresses.len()
            invariant
                j <= d.addresses@.len(),
                target@ == ip@,
                held <==> exists|i: int| 0 <= i < j && d.addresses@[i]@ == ip@,
            decreases d.addresses@.len() - j,
        {
            if d.addresses[j] == target {
                held = true;
            }
            j += 1;
        }
        proof {
            let a = string_views(d.addresses@);
            if held {
                let i = choose|i: int| 0 <= i < j && d.addresses@[i]@ == ip@;
                assert(a[i] == ip@);
            } else {
                assert forall|i: int| 0 <= i < a.len() implies a[i] != ip@ by {
                    assert(a[i] == d.addresses@[i]@);
                }
            }
            assert(held == a.contains(ip@));
        }
        if held && d.connection_port.is_some() {
            return d.connection_port;
        }
        k += 1;
    }
    None
}

/// The next thing to do while looking for a device's data-connection port.
#[derive(Clone, Copy, PartialEq, Eq, Structural)]
pub enum PortStep {
    /// Try to connect on this port and report whether it worked.
    Probe(u16),
    /// Connect on this port.
    Use(u16),
}

/// The search for a paired device's data-connection port: the port from the
/// latest discovery snapshot if there is one, else the first well-known port
/// that accepts a connection, else the default port.
pub struct PortSearch {
    pub snapshot_port: Option<u16>,
    pub failed_probes: usize,
    pub found: Option<u16>,
}

pub open spec fn port_step(snapshot: Option<u16>, failed: int, found: Option<u16>) -> PortStep {
    match (snapshot, found) {
        (Some(p), _) => PortStep::Use(p),
        (None, Some(p)) => PortStep::Use(p),
        (None, None) => if failed < CANDIDATE_PORT_COUNT {
            PortStep::Probe(candidate_port_spec(failed))
        } else {
            PortStep::Use(DEFAULT_CONNECTION_PORT)
        },
    }
}

impl PortSearch {
    /// A search that starts from what the discovery snapshot gave.
    pub fn new(snapshot_port: Option<u16>) -> (r: PortSearch)
        ensures
            r.snapshot_port == snapshot_port,
            r.failed_probes == 0,
            r.found is None,
    {
        PortSearch { snapshot_port, failed_probes: 0, found: None }
    }

    pub open spec fn wf(&self) -> bool {
        self.failed_probes <= CANDIDATE_PORT_COUNT
    }

    /// What to do next.
    pub fn next(&self) -> (r: PortStep)
        requires
            self.wf(),
        ensures
            r == port_step(self.snapshot_port, self.failed_probes as int, self.found),
    {
        match (self.snapshot_port, self.found) {
            (Some(p), _) => PortStep::Use(p),
            (None, Some(p)) => PortStep::Use(p),
            (None, None) => if self.failed_probes < CANDIDATE_PORT_COUNT {
                PortStep::Probe(candidate_port(self.failed_probes))
            } else {
                PortStep::Use(DEFAULT_CONNECTION_PORT)
            },
        }
    }

    /// Takes in whether the probe that `next` asked for connected.
    pub fn record_probe(&mut self, connected: bool)
        requires
            old(self).wf(),
        ensures
            final(self).wf(),
            final(self).snapshot_port == old(self).snapshot_port,
            match port_step(old(self).snapshot_port, old(self).failed_probes as int, old(self).found) {
                PortStep::Probe(p) => if connected {
                    final(self).found == Some(p) && final(self).failed_probes == old(self).failed_probes
                } else {
                    final(self).found == old(self).found && final(self).failed_probes
                        == old(self).failed_probes + 1
                },
                PortStep::Use(_) => final(self).found == old(self).found
                    && final(self).failed_probes == old(self).failed_probes,
            },
    {
        match self.next() {
            PortStep::Probe(p) => {
                if connected {
                    self.found = Some(p);
                } else {
                    self.failed_probes = self.failed_probes + 1;
                }
            },
            PortStep::Use(_) => {},
        }
    }
}

/// What a device needs to pair by QR code: the local address and port, and
/// the text the code carries.
pub struct PairingData {
    pub ip: String,
    pub port: u16,
    pub qr_data: String,
}

/// The port offered for QR pairing.
pub const QR_PAIRING_PORT: u16 = 5555;

/// The local address used when none could be found.
pub open spec fn fallback_local_ip() -> Seq<char> {
    "192.168.1.100"@
}

/// The QR pairing data for the local address `local_ip`, or for a fixed
/// private address when it is unknown.
pub fn generate_pairing_data(local_ip: Option<String>) -> (r: Result<PairingData, String>)
    ensures
        r matches Ok(d) && d.port == QR_PAIRING_PORT && d.ip@ == match local_ip {
            Some(ip) => ip@,
            None => fallback_local_ip(),
        } && d.qr_data@ == network_identity_text(d.ip@, QR_PAIRING_PORT),
{
    let ip = match local_ip {
        Some(ip) => ip,
        None => string_of(&chars_of("192.168.1.100")),
    };
    let qr_data = network_identity(ip.as_str(), QR_PAIRING_PORT);
    Ok(PairingData { ip, port: QR_PAIRING_PORT, qr_data })
}

} // verus!
