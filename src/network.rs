//! The network report: interfaces, connection kind, signal and throughput.

use vstd::prelude::*;
use crate::device::{command2, command3, property_command};
use crate::number::{
    all_digits, digits_value, is_digit, parse_digits, parse_i32, parse_i32_spec,
};
use crate::text::{
    char_end, chars_of, contains, contains_exec, copy_range, first_some, lemma_char_end_bounds,
    lemma_first_some_step, lemma_first_some_whole, lines, opt_text, owned, piece_after,
    piece_after_exec, prefix_before, prefix_before_exec, same_chars, split_lines, split_tokens,
    starts_with, starts_with_exec, string_of, string_views, tokens, trim, trimmed, views,
};

verus! {

/// One network adapter.
pub struct NetworkInterface {
    pub name: String,
    pub ip_address: Option<String>,
    pub mac_address: Option<String>,
    pub status: Option<String>,
}

pub struct InterfaceView {
    pub name: Seq<char>,
    pub ip: Option<Seq<char>>,
    pub mac: Option<Seq<char>>,
    pub status: Option<Seq<char>>,
}

impl View for NetworkInterface {
    type V = InterfaceView;

    open spec fn view(&self) -> InterfaceView {
        InterfaceView {
            name: self.name@,
            ip: opt_text(self.ip_address),
            mac: opt_text(self.mac_address),
            status: opt_text(self.status),
        }
    }
}

pub open spec fn iface_views(v: Seq<NetworkInterface>) -> Seq<InterfaceView> {
    v.map_values(|i: NetworkInterface| i@)
}

pub open spec fn opt_iface(o: Option<NetworkInterface>) -> Option<InterfaceView> {
    match o {
        Some(i) => Some(i@),
        None => None,
    }
}

/// Whether a trimmed line opens an interface block: it holds `": "` and the
/// name of a known interface family.
pub open spec fn is_interface_header(line: Seq<char>) -> bool {
    contains(line, ": "@) && (contains(line, "wlan"@) || contains(line, "eth"@) || contains(
        line,
        "lo"@,
    ) || contains(line, "rmnet"@) || contains(line, "ccmni"@))
}

/// The interface that a header line opens.
pub open spec fn header_interface(line: Seq<char>) -> InterfaceView {
    let ts = tokens(piece_after(line, ": "@)->0);
    InterfaceView {
        name: if ts.len() > 0 {
            ts[0]
        } else {
            "unknown"@
        },
        ip: None,
        mac: None,
        status: Some(
            if contains(line, "UP"@) {
                "UP"@
            } else {
                "DOWN"@
            },
        ),
    }
}

/// The interfaces closed so far, and the one whose block is open.
pub type ScanState = (Seq<InterfaceView>, Option<InterfaceView>);

/// What one raw line does to the scan.
pub open spec fn scan_step(st: ScanState, raw: Seq<char>) -> ScanState {
    let line = trim(raw);
    if is_interface_header(line) {
        (
            match st.1 {
                Some(c) => st.0.push(c),
                None => st.0,
            },
            Some(header_interface(line)),
        )
    } else {
        match st.1 {
            Some(c) => {
                let ts = tokens(line);
                if starts_with(line, "inet "@) && ts.len() > 1 {
                    (
                        st.0,
                        Some(
                            InterfaceView {
                                name: c.name,
                                ip: Some(prefix_before(ts[1], '/')),
                                mac: c.mac,
                                status: c.status,
                            },
                        ),
                    )
                } else if !starts_with(line, "inet "@) && starts_with(line, "link/ether "@)
                    && ts.len() > 1 {
                    (
                        st.0,
                        Some(
                            InterfaceView {
                                name: c.name,
                                ip: c.ip,
                                mac: Some(ts[1]),
                                status: c.status,
                            },
                        ),
                    )
                } else {
                    st
                }
            },
            None => st,
        }
    }
}

pub open spec fn scan_lines(ls: Seq<Seq<char>>) -> ScanState
    decreases ls.len(),
{
    if ls.len() == 0 {
        (seq![], None)
    } else {
        scan_step(scan_lines(ls.drop_last()), ls.last())
    }
}

/// The interfaces of an `ip addr show` listing, in order.
pub open spec fn interfaces_of(text: Seq<char>) -> Seq<InterfaceView> {
    let st = scan_lines(lines(text));
    match st.1 {
        Some(c) => st.0.push(c),
        None => st.0,
    }
}

fn is_header_exec(line: &Vec<char>) -> (r: bool)
    ensures
        r == is_interface_header(line@),
{
    contains_exec(line, &chars_of(": ")) && (contains_exec(line, &chars_of("wlan"))
        || contains_exec(line, &chars_of("eth")) || contains_exec(line, &chars_of("lo"))
        || contains_exec(line, &chars_of("rmnet")) || contains_exec(line, &chars_of("ccmni")))
}

fn open_interface(line: &Vec<char>) -> (r: NetworkInterface)
    requires
        is_interface_header(line@),
    ensures
        r@ == header_interface(line@),
{
    let piece = piece_after_exec(line, &chars_of(": "));
    let name = match piece {
        Some(p) => {
            let ts = split_tokens(&p);
            if ts.len() > 0 {
                assert(views(ts@)[0] == ts@[0]@);
                string_of(&ts[0])
            } else {
                owned("unknown")
            }
        },
        None => owned("unknown"),
    };
    let status = if contains_exec(line, &chars_of("UP")) {
        owned("UP")
    } else {
        owned("DOWN")
    };
    NetworkInterface { name, ip_address: None, mac_address: None, status: Some(status) }
}

/// The interfaces of the `ip addr show` listing `text`: each block opens at a
/// header line and collects the block's `inet` address (without its prefix
/// length) and `link/ether` address.
pub fn parse_network_interfaces(text: &str) -> (r: Vec<NetworkInterface>)
    ensures
        iface_views(r@) == interfaces_of(text@),
{
    let ls = split_lines(&chars_of(text));
    let mut done: Vec<NetworkInterface> = Vec::new();
    let mut current: Option<NetworkInterface> = None;
    let mut k: usize = 0;
    assert(views(ls@).subrange(0, 0) =~= seq![]);
    assert(iface_views(done@) =~= seq![]);
    while k < ls.len()
        invariant
            k <= ls@.len(),
            views(ls@) == lines(text@),
            (iface_views(done@), opt_iface(current)) == scan_lines(views(ls@).subrange(0, k as int)),
        decreases ls@.len() - k,
    {
        let ghost next = views(ls@).subrange(0, k + 1);
        assert(next.drop_last() =~= views(ls@).subrange(0, k as int));
        assert(next.last() == ls@[k as int]@);
        let line = trimmed(&ls[k]);
        if is_header_exec(&line) {
            let opened = open_interface(&line);
            match current {
                Some(c) => {
                    assert(iface_views(done@.push(c)) =~= iface_views(done@).push(c@));
                    done.push(c);
                },
                None => {},
            }
            current = Some(opened);
        } else {
            match current {
                Some(c) => {
                    let ts = split_tokens(&line);
                    let ghost tv = views(ts@);
                    if starts_with_exec(&line, &chars_of("inet ")) && ts.len() > 1 {
                        assert(tv[1] == ts@[1]@);
                        let ip = string_of(&prefix_before_exec(&ts[1], '/'));
                        current = Some(
                            NetworkInterface {
                                name: c.name,
                                ip_address: Some(ip),
                                mac_address: c.mac_address,
                                status: c.status,
                            },
                        );
                    } else if !starts_with_exec(&line, &chars_of("inet ")) && starts_with_exec(
                        &line,
                        &chars_of("link/ether "),
                    ) && ts.len() > 1 {
                        assert(tv[1] == ts@[1]@);
                        current = Some(
                            NetworkInterface {
                                name: c.name,
                                ip_address: c.ip_address,
                                mac_address: Some(string_of(&ts[1])),
                                status: c.status,
                            },
                        );
                    } else {
                        current = Some(c);
                    }
                },
                None => {},
            }
        }
        k += 1;
    }
    assert(views(ls@).subrange(0, ls@.len() as int) =~= views(ls@));
    match current {
        Some(c) => {
            assert(iface_views(done@.push(c)) =~= iface_views(done@).push(c@));
            done.push(c);
        },
        None => {},
    }
    done
}

/// The interfaces that an `ip addr show` run gave: none when the command
/// failed or the listing shows no interface.
pub fn get_network_interfaces(output: &Option<String>) -> (r: Option<Vec<NetworkInterface>>)
    ensures
        match output {
            Some(t) => if interfaces_of(t@).len() == 0 {
                r is None
            } else {
                r matches Some(v) && iface_views(v@) == interfaces_of(t@)
            },
            None => r is None,
        },
{
    match output {
        Some(t) => {
            let v = parse_network_interfaces(t.as_str());
            if v.len() == 0 {
                None
            } else {
                Some(v)
            }
        },
        None => None,
    }
}

/// The label of a mobile radio technology.
pub open spec fn mobile_label(t: Seq<char>) -> Seq<char> {
    if t == "LTE"@ || t == "LTEA"@ {
        "4G LTE"@
    } else if t == "UMTS"@ || t == "HSDPA"@ || t == "HSUPA"@ || t == "HSPA"@ {
        "3G"@
    } else if t == "EDGE"@ || t == "GPRS"@ {
        "2G"@
    } else if t == "NR"@ {
        "5G"@
    } else {
        "Mobile Data"@
    }
}

fn is_one_of(t: &Vec<char>, a: &str, b: &str) -> (r: bool)
    ensures
        r == (t@ == a@ || t@ == b@),
{
    same_chars(t, &chars_of(a)) || same_chars(t, &chars_of(b))
}

/// The label of the mobile radio technology `t`.
pub fn mobile_generation(t: &str) -> (r: String)
    ensures
        r@ == mobile_label(t@),
{
    let v = chars_of(t);
    if is_one_of(&v, "LTE", "LTEA") {
        owned("4G LTE")
    } else if is_one_of(&v, "UMTS", "HSDPA") || is_one_of(&v, "HSUPA", "HSPA") {
        owned("3G")
    } else if is_one_of(&v, "EDGE", "GPRS") {
        owned("2G")
    } else if same_chars(&v, &chars_of("NR")) {
        owned("5G")
    } else {
        owned("Mobile Data")
    }
}

/// Whether some interface is an ethernet adapter that is up and has an address.
pub open spec fn has_ethernet(ifs: Seq<InterfaceView>) -> bool {
    exists|i: int|
        0 <= i < ifs.len() && contains(#[trigger] ifs[i].name, "eth"@) && ifs[i].status == Some(
            "UP"@,
        ) && ifs[i].ip is Some
}

/// The kind of connection that the Wi-Fi dump, the telephony dump, the radio
/// technology property and the interfaces show.
pub open spec fn connection_kind(
    wifi: Option<Seq<char>>,
    telephony: Option<Seq<char>>,
    radio: Option<Seq<char>>,
    ifs: Seq<InterfaceView>,
) -> Seq<char> {
    let wifi_up = match wifi {
        Some(w) => contains(w, "mWifiInfo"@) && contains(w, "state: COMPLETED"@),
        None => false,
    };
    let mobile_up = match telephony {
        Some(t) => contains(t, "mDataConnectionState=2"@) || contains(t, "CONNECTED"@),
        None => false,
    };
    if wifi_up {
        "WiFi"@
    } else if mobile_up {
        match radio {
            Some(g) => mobile_label(g),
            None => "Mobile Data"@,
        }
    } else if has_ethernet(ifs) {
        "Ethernet"@
    } else {
        "Unknown"@
    }
}

fn holds(t: &Option<String>, a: &str) -> (r: bool)
    ensures
        r == match t {
            Some(s) => contains(s@, a@),
            None => false,
        },
{
    match t {
        Some(s) => contains_exec(&chars_of(s.as_str()), &chars_of(a)),
        None => false,
    }
}

/// The kind of connection: Wi-Fi when the Wi-Fi dump shows a completed
/// association; else mobile data when the telephony dump shows a data
/// connection, with the generation the radio property names; else Ethernet
/// when an ethernet interface is up with an address; else unknown.
pub fn get_connection_type(
    wifi: &Option<String>,
    telephony: &Option<String>,
    radio: &Option<String>,
    ifs: &Vec<NetworkInterface>,
) -> (r: String)
    ensures
        r@ == connection_kind(opt_text(*wifi), opt_text(*telephony), opt_text(*radio), iface_views(ifs@)),
{
    if holds(wifi, "mWifiInfo") && holds(wifi, "state: COMPLETED") {
        return owned("WiFi");
    }
    if holds(telephony, "mDataConnectionState=2") || holds(telephony, "CONNECTED") {
        return match radio {
            Some(g) => mobile_generation(g.as_str()),
            None => owned("Mobile Data"),
        };
    }
    let mut k: usize = 0;
    while k < ifs.len()
        invariant
            k <= ifs@.len(),
            !match opt_text(*wifi) {
                Some(w) => contains(w, "mWifiInfo"@) && contains(w, "state: COMPLETED"@),
                None => false,
            },
            !match opt_text(*telephony) {
                Some(t) => contains(t, "mDataConnectionState=2"@) || contains(t, "CONNECTED"@),
                None => false,
            },
            forall|i: int|
                0 <= i < k ==> !(contains(#[trigger] iface_views(ifs@)[i].name, "eth"@)
                    && iface_views(ifs@)[i].status == Some("UP"@) && iface_views(ifs@)[i].ip is Some),
        decreases ifs@.len() - k,
    {
        let i = &ifs[k];
        assert(iface_views(ifs@)[k as int] == i@);
        let up = match &i.status {
            Some(s) => same_chars(&chars_of(s.as_str()), &chars_of("UP")),
            None => false,
        };
        if contains_exec(&chars_of(i.name.as_str()), &chars_of("eth")) && up
            && i.ip_address.is_some() {
            assert(contains(iface_views(ifs@)[k as int].name, "eth"@));
            return owned("Ethernet");
        }
        k += 1;
    }
    owned("Unknown")
}

/// RSSI mapped linearly onto 0 to 100.
pub open spec fn rssi_percent(rssi: int) -> int {
    if rssi <= -100 {
        0
    } else if rssi >= -50 {
        100
    } else {
        (rssi + 100) * 2
    }
}

/// RSSI in dBm as a signal strength from 0 to 100.
pub fn signal_percent(rssi: i32) -> (r: i32)
    ensures
        r == rssi_percent(rssi as int),
{
    if rssi <= -100 {
        0
    } else if rssi >= -50 {
        100
    } else {
        (rssi + 100) * 2
    }
}

/// The RSSI on a line that holds `marker`: the integer that follows `key`, up
/// to the next space.
pub open spec fn line_rssi(line: Seq<char>, marker: Seq<char>, key: Seq<char>) -> Option<int> {
    if contains(line, marker) {
        match piece_after(line, key) {
            Some(p) => parse_i32_spec(prefix_before(p, ' ')),
            None => None,
        }
    } else {
        None
    }
}

pub open spec fn telephony_rssi_rule() -> spec_fn(Seq<char>) -> Option<int> {
    |l: Seq<char>| line_rssi(l, "mSignalStrength"@, "rssi="@)
}

pub open spec fn wifi_rssi_rule() -> spec_fn(Seq<char>) -> Option<int> {
    |l: Seq<char>| line_rssi(l, "rssi: "@, "rssi: "@)
}

fn rssi_of_line(line: &Vec<char>, marker: &Vec<char>, key: &Vec<char>) -> (r: Option<i32>)
    ensures
        match r {
            Some(n) => line_rssi(line@, marker@, key@) == Some(n as int),
            None => line_rssi(line@, marker@, key@) is None,
        },
{
    if !contains_exec(line, marker) {
        return None;
    }
    match piece_after_exec(line, key) {
        Some(p) => parse_i32(&prefix_before_exec(&p, ' ')),
        None => None,
    }
}

/// The first RSSI that a line of `text` gives under `marker` and `key`.
fn first_rssi(text: &str, marker: &str, key: &str, rule: Ghost<spec_fn(Seq<char>) -> Option<int>>) -> (r: Option<i32>)
    requires
        forall|l: Seq<char>| #[trigger] (rule@)(l) == line_rssi(l, marker@, key@),
    ensures
        match r {
            Some(n) => first_some(lines(text@), rule@) == Some(n as int),
            None => first_some(lines(text@), rule@) is None,
        },
{
    let ls = split_lines(&chars_of(text));
    let m = chars_of(marker);
    let kv = chars_of(key);
    let mut k: usize = 0;
    proof {
        lemma_first_some_whole(views(ls@), rule@);
    }
    while k < ls.len()
        invariant
            k <= ls@.len(),
            views(ls@) == lines(text@),
            m@ == marker@,
            kv@ == key@,
            forall|l: Seq<char>| #[trigger] (rule@)(l) == line_rssi(l, marker@, key@),
            first_some(lines(text@), rule@) == first_some(
                views(ls@).subrange(k as int, ls@.len() as int),
                rule@,
            ),
        decreases ls@.len() - k,
    {
        proof {
            lemma_first_some_step(views(ls@), rule@, k as int);
        }
        assert(views(ls@)[k as int] == ls@[k as int]@);
        match rssi_of_line(&ls[k], &m, &kv) {
            Some(n) => {
                return Some(n);
            },
            None => {},
        }
        k += 1;
    }
    proof {
        lemma_first_some_whole(views(ls@), rule@);
    }
    None
}

/// The RSSI that the telephony dump gives, else the one the Wi-Fi dump gives.
pub open spec fn signal_rssi(telephony: Option<Seq<char>>, wifi: Option<Seq<char>>) -> Option<int> {
    let t = match telephony {
        Some(t) => first_some(lines(t), telephony_rssi_rule()),
        None => None,
    };
    match t {
        Some(r) => Some(r),
        None => match wifi {
            Some(w) => first_some(lines(w), wifi_rssi_rule()),
            None => None,
        },
    }
}

/// The signal strength from 0 to 100, from the first RSSI the telephony dump
/// shows, else the first the Wi-Fi dump shows.
pub fn get_signal_strength(telephony: &Option<String>, wifi: &Option<String>) -> (r: Option<i32>)
    ensures
        match signal_rssi(opt_text(*telephony), opt_text(*wifi)) {
            Some(rssi) => r == Some(rssi_percent(rssi) as i32),
            None => r is None,
        },
{
    let t = match telephony {
        Some(t) => first_rssi(t.as_str(), "mSignalStrength", "rssi=", Ghost(telephony_rssi_rule())),
        None => None,
    };
    match t {
        Some(rssi) => {
            return Some(signal_percent(rssi));
        },
        None => {},
    }
    let w = match wifi {
        Some(w) => first_rssi(w.as_str(), "rssi: ", "rssi: ", Ghost(wifi_rssi_rule())),
        None => None,
    };
    match w {
        Some(rssi) => Some(signal_percent(rssi)),
        None => None,
    }
}

/// The Wi-Fi state a dump line shows, if it shows one.
pub open spec fn line_wifi_status(line: Seq<char>) -> Option<Seq<char>> {
    if contains(line, "Wi-Fi is "@) {
        if contains(line, "enabled"@) {
            Some("Connected"@)
        } else if contains(line, "disabled"@) {
            Some("Disconnected"@)
        } else {
            None
        }
    } else {
        None
    }
}

pub open spec fn wifi_status_rule() -> spec_fn(Seq<char>) -> Option<Seq<char>> {
    |l: Seq<char>| line_wifi_status(l)
}

/// The Wi-Fi state that the first telling line of the Wi-Fi dump shows.
pub fn get_wifi_status(wifi: &Option<String>) -> (r: Option<String>)
    ensures
        opt_text(r) == match wifi {
            Some(w) => first_some(lines(w@), wifi_status_rule()),
            None => None,
        },
{
    match wifi {
        Some(w) => wifi_status_of(w),
        None => None,
    }
}

fn wifi_status_of(w: &String) -> (r: Option<String>)
    ensures
        opt_text(r) == first_some(lines(w@), wifi_status_rule()),
{
    let ls = split_lines(&chars_of(w.as_str()));
    let mut k: usize = 0;
    proof {
        lemma_first_some_whole(views(ls@), wifi_status_rule());
    }
    while k < ls.len()
        invariant
            k <= ls@.len(),
            views(ls@) == lines(w@),
            first_some(lines(w@), wifi_status_rule()) == first_some(
                views(ls@).subrange(k as int, ls@.len() as int),
                wifi_status_rule(),
            ),
        decreases ls@.len() - k,
    {
        proof {
            lemma_first_some_step(views(ls@), wifi_status_rule(), k as int);
        }
        let line = &ls[k];
        assert(views(ls@)[k as int] == line@);
        assert((wifi_status_rule())(line@) == line_wifi_status(line@));
        if contains_exec(line, &chars_of("Wi-Fi is ")) {
            if contains_exec(line, &chars_of("enabled")) {
                return Some(owned("Connected"));
            } else if contains_exec(line, &chars_of("disabled")) {
                return Some(owned("Disconnected"));
            }
        }
        k += 1;
    }
    proof {
        lemma_first_some_whole(views(ls@), wifi_status_rule());
    }
    None
}

/// The whole-number part of a decimal written `<digits>[.<digits>]` (either
/// side may be empty, not both).
pub open spec fn decimal_whole_part(body: Seq<char>) -> Option<int> {
    let k = char_end(body, '.', 0);
    let whole = body.subrange(0, k);
    let frac = if k < body.len() {
        body.subrange(k + 1, body.len() as int)
    } else {
        seq![]
    };
    if all_digits(whole) && all_digits(frac) && whole.len() + frac.len() > 0 {
        Some(digits_value(whole))
    } else {
        None
    }
}

pub open spec fn good_label() -> Seq<char> {
    "Good (>10 Mbps)"@
}

pub open spec fn fair_label() -> Seq<char> {
    "Fair (1-10 Mbps)"@
}

pub open spec fn slow_label() -> Seq<char> {
    "Slow (<1 Mbps)"@
}

/// The throughput band of a mean round-trip time written in milliseconds as a
/// signed decimal: under 50 good, under 100 fair, else slow.
pub open spec fn latency_band(tok: Seq<char>) -> Option<Seq<char>> {
    let signed = tok.len() > 0 && (tok[0] == '-' || tok[0] == '+');
    let neg = tok.len() > 0 && tok[0] == '-';
    let body = if signed {
        tok.drop_first()
    } else {
        tok
    };
    match decimal_whole_part(body) {
        Some(v) => Some(
            if neg || v < 50 {
                good_label()
            } else if v < 100 {
                fair_label()
            } else {
                slow_label()
            },
        ),
        None => None,
    }
}

/// The band that a line of the reachability probe's summary gives: the
/// number after `avg = `, up to the next `/`.
pub open spec fn line_band(line: Seq<char>) -> Option<Seq<char>> {
    if contains(line, "avg"@) {
        match piece_after(line, "avg = "@) {
            Some(p) => latency_band(prefix_before(p, '/')),
            None => None,
        }
    } else {
        None
    }
}

pub open spec fn band_rule() -> spec_fn(Seq<char>) -> Option<Seq<char>> {
    |l: Seq<char>| line_band(l)
}

/// The throughput estimate: the band of the probe's mean round-trip time,
/// read from the first line that gives one; none without such a line.
pub open spec fn speed_estimate(ping: Option<Seq<char>>) -> Option<Seq<char>> {
    match ping {
        Some(p) => first_some(lines(p), band_rule()),
        None => None,
    }
}

fn all_digits_exec(v: &Vec<char>) -> (r: bool)
    ensures
        r == all_digits(v@),
{
    let mut i: usize = 0;
    while i < v.len()
        invariant
            i <= v@.len(),
            forall|j: int| 0 <= j < i ==> is_digit(#[trigger] v@[j]),
        decreases v@.len() - i,
    {
        if v[i] < '0' || v[i] > '9' {
            assert(!is_digit(v@[i as int]));
            return false;
        }
        i += 1;
    }
    true
}

/// The throughput band of the round-trip time written `tok`.
pub fn classify_latency(tok: &Vec<char>) -> (r: Option<String>)
    ensures
        opt_text(r) == latency_band(tok@),
{
    let signed = tok.len() > 0 && (tok[0] == '-' || tok[0] == '+');
    let neg = tok.len() > 0 && tok[0] == '-';
    let body = if signed {
        copy_range(tok, 1, tok.len())
    } else {
        copy_range(tok, 0, tok.len())
    };
    assert(signed ==> body@ =~= tok@.drop_first());
    assert(!signed ==> body@ =~= tok@);
    let whole = prefix_before_exec(&body, '.');
    proof {
        lemma_char_end_bounds(body@, '.', 0);
    }
    let k = whole.len();
    let frac = if k < body.len() {
        copy_range(&body, k + 1, body.len())
    } else {
        copy_range(&body, 0, 0)
    };
    assert(k >= body@.len() ==> frac@ =~= seq![]);
    if !all_digits_exec(&whole) || !all_digits_exec(&frac) || whole.len() + frac.len() == 0 {
        return None;
    }
    let band = if neg {
        good_band()
    } else if whole.len() == 0 {
        assert(digits_value(whole@) == 0);
        good_band()
    } else {
        assert(whole@.subrange(0, whole@.len() as int) =~= whole@);
        match parse_digits(&whole, 0, 99) {
            Some(v) => if v < 50 {
                good_band()
            } else {
                owned("Fair (1-10 Mbps)")
            },
            None => owned("Slow (<1 Mbps)"),
        }
    };
    Some(band)
}

fn good_band() -> (r: String)
    ensures
        r@ == good_label(),
{
    owned("Good (>10 Mbps)")
}

fn band_of_ping(p: &String) -> (r: Option<String>)
    ensures
        opt_text(r) == first_some(lines(p@), band_rule()),
{
    let ls = split_lines(&chars_of(p.as_str()));
    let mut k: usize = 0;
    proof {
        lemma_first_some_whole(views(ls@), band_rule());
    }
    while k < ls.len()
        invariant
            k <= ls@.len(),
            views(ls@) == lines(p@),
            first_some(lines(p@), band_rule()) == first_some(
                views(ls@).subrange(k as int, ls@.len() as int),
                band_rule(),
            ),
        decreases ls@.len() - k,
    {
        proof {
            lemma_first_some_step(views(ls@), band_rule(), k as int);
        }
        let line = &ls[k];
        assert(views(ls@)[k as int] == line@);
        assert((band_rule())(line@) == line_band(line@));
        if contains_exec(line, &chars_of("avg")) {
            match piece_after_exec(line, &chars_of("avg = ")) {
                Some(piece) => {
                    let tok = prefix_before_exec(&piece, '/');
                    match classify_latency(&tok) {
                        Some(b) => {
                            return Some(b);
                        },
                        None => {},
                    }
                },
                None => {},
            }
        }
        k += 1;
    }
    proof {
        lemma_first_some_whole(views(ls@), band_rule());
    }
    None
}

/// The throughput estimate from the reachability probe's output `ping`.
pub fn get_network_speed(ping: &Option<String>) -> (r: Option<String>)
    ensures
        opt_text(r) == speed_estimate(opt_text(*ping)),
{
    match ping {
        Some(p) => band_of_ping(p),
        None => None,
    }
}

/// The network report.
pub struct NetworkInfo {
    pub wifi_status: Option<String>,
    pub connection_type: Option<String>,
    pub signal_strength: Option<i32>,
    pub upload_speed: Option<String>,
    pub download_speed: Option<String>,
    pub ip_addresses: Vec<String>,
    pub mac_addresses: Vec<String>,
    pub network_interfaces: Vec<NetworkInterface>,
}

/// The addresses of the interfaces that have one, in order.
pub open spec fn iface_ips(ifs: Seq<InterfaceView>) -> Seq<Seq<char>>
    decreases ifs.len(),
{
    if ifs.len() == 0 {
        seq![]
    } else {
        match ifs.last().ip {
            Some(ip) => iface_ips(ifs.drop_last()).push(ip),
            None => iface_ips(ifs.drop_last()),
        }
    }
}

/// The hardware addresses of the interfaces that have one, in order.
pub open spec fn iface_macs(ifs: Seq<InterfaceView>) -> Seq<Seq<char>>
    decreases ifs.len(),
{
    if ifs.len() == 0 {
        seq![]
    } else {
        match ifs.last().mac {
            Some(m) => iface_macs(ifs.drop_last()).push(m),
            None => iface_macs(ifs.drop_last()),
        }
    }
}

/// The commands the network report reads, in order: the Wi-Fi dump, the
/// telephony dump, the radio technology property, the interface listing and
/// the reachability probe.
pub fn network_commands() -> (r: Vec<Vec<String>>)
    ensures
        r@.len() == 5,
        string_views(r@[0]@) == seq!["dumpsys"@, "wifi"@],
        string_views(r@[1]@) == seq!["dumpsys"@, "telephony.registry"@],
        string_views(r@[2]@) == seq!["getprop"@, "gsm.network.type"@],
        string_views(r@[3]@) == seq!["ip"@, "addr"@, "show"@],
        string_views(r@[4]@) == seq!["ping"@, "-c"@, "3"@, "8.8.8.8"@],
{
    let mut ping: Vec<String> = Vec::new();
    ping.push(owned("ping"));
    ping.push(owned("-c"));
    ping.push(owned("3"));
    ping.push(owned("8.8.8.8"));
    assert(string_views(ping@) =~= seq!["ping"@, "-c"@, "3"@, "8.8.8.8"@]);
    let mut r: Vec<Vec<String>> = Vec::new();
    r.push(command2("dumpsys", "wifi"));
    r.push(command2("dumpsys", "telephony.registry"));
    r.push(property_command("gsm.network.type"));
    r.push(command3("ip", "addr", "show"));
    r.push(ping);
    r
}

/// The network report from the outputs of `network_commands`, in the same
/// order (each absent when its command failed).
pub fn get_network_info(outputs: &Vec<Option<String>>) -> (r: NetworkInfo)
    requires
        outputs@.len() == 5,
    ensures
        ({
            let o = outputs@;
            let ifs = match opt_text(o[3]) {
                Some(t) => interfaces_of(t),
                None => seq![],
            };
            &&& opt_text(r.wifi_status) == match opt_text(o[0]) {
                Some(w) => first_some(lines(w), wifi_status_rule()),
                None => None,
            }
            &&& opt_text(r.connection_type) == Some(
                connection_kind(opt_text(o[0]), opt_text(o[1]), opt_text(o[2]), ifs),
            )
            &&& match signal_rssi(opt_text(o[1]), opt_text(o[0])) {
                Some(rssi) => r.signal_strength == Some(rssi_percent(rssi) as i32),
                None => r.signal_strength is None,
            }
            &&& opt_text(r.upload_speed) == speed_estimate(opt_text(o[4]))
            &&& opt_text(r.download_speed) == speed_estimate(opt_text(o[4]))
            &&& iface_views(r.network_interfaces@) == ifs
            &&& string_views(r.ip_addresses@) == iface_ips(ifs)
            &&& string_views(r.mac_addresses@) == iface_macs(ifs)
        }),
{
    let interfaces = match get_network_interfaces(&outputs[3]) {
        Some(v) => v,
        None => Vec::new(),
    };
    let connection = get_connection_type(&outputs[0], &outputs[1], &outputs[2], &interfaces);
    let mut ip_addresses: Vec<String> = Vec::new();
    let mut mac_addresses: Vec<String> = Vec::new();
    let mut k: usize = 0;
    assert(iface_views(interfaces@).subrange(0, 0) =~= seq![]);
    while k < interfaces.len()
        invariant
            k <= interfaces@.len(),
            string_views(ip_addresses@) == iface_ips(iface_views(interfaces@).subrange(0, k as int)),
            string_views(mac_addresses@) == iface_macs(
                iface_views(interfaces@).subrange(0, k as int),
            ),
        decreases interfaces@.len() - k,
    {
        let ghost next = iface_views(interfaces@).subrange(0, k + 1);
        assert(next.drop_last() =~= iface_views(interfaces@).subrange(0, k as int));
        assert(next.last() == interfaces@[k as int]@);
        let i = &interfaces[k];
        match &i.ip_address {
            Some(ip) => {
                let ip = string_of(&chars_of(ip.as_str()));
                assert(string_views(ip_addresses@.push(ip)) =~= string_views(ip_addresses@).push(ip@));
                ip_addresses.push(ip);
            },
            None => {},
        }
        match &i.mac_address {
            Some(m) => {
                let m = string_of(&chars_of(m.as_str()));
                assert(string_views(mac_addresses@.push(m)) =~= string_views(mac_addresses@).push(m@));
                mac_addresses.push(m);
            },
            None => {},
        }
        k += 1;
    }
    assert(iface_views(interfaces@).subrange(0, interfaces@.len() as int) =~= iface_views(interfaces@));
    proof {
        match opt_text(outputs@[3]) {
            Some(t) => {
                if interfaces_of(t).len() == 0 {
                    assert(iface_views(interfaces@) =~= interfaces_of(t));
                }
            },
            None => {
                assert(iface_views(interfaces@) =~= seq![]);
            },
        }
    }
    NetworkInfo {
        wifi_status: get_wifi_status(&outputs[0]),
        connection_type: Some(connection),
        signal_strength: get_signal_strength(&outputs[1], &outputs[0]),
        upload_speed: get_network_speed(&outputs[4]),
        download_speed: get_network_speed(&outputs[4]),
        ip_addresses,
        mac_addresses,
        network_interfaces: interfaces,
    }
}

} // verus!
