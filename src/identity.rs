//! Device identities and network addresses.
//!
//! A wired device is named by its vendor serial, a network device by
//! `<IPv4>:<port>`; the two are told apart by syntax alone.

use vstd::prelude::*;
use crate::number::{
    all_digits, decimal, digits_value, is_digit, lemma_decimal, parse_digits, parse_u16,
    parse_unsigned, push_decimal,
};
use crate::text::{
    char_end, chars_of, lemma_split_first, lemma_split_single, split_char, split_on, views,
};

verus! {

/// An IPv4 address, one field per octet.
#[derive(Clone, Copy, PartialEq, Eq, Structural)]
pub struct Ipv4Address {
    pub a: u8,
    pub b: u8,
    pub c: u8,
    pub d: u8,
}

/// An address as a network announcement carries it.
#[derive(Clone, Copy)]
pub enum IpAddress {
    V4(Ipv4Address),
    V6([u16; 8]),
}

/// An IPv4 address and a port.
#[derive(Clone, Copy, PartialEq, Eq, Structural)]
pub struct NetAddress {
    pub ip: Ipv4Address,
    pub port: u16,
}

/// The value of one dotted-decimal octet: one to three digits, no leading
/// zero, at most 255.
pub open spec fn octet(s: Seq<char>) -> Option<u8> {
    if 1 <= s.len() <= 3 && all_digits(s) && !(s.len() > 1 && s[0] == '0') && digits_value(s)
        <= 255 {
        Some(digits_value(s) as u8)
    } else {
        None
    }
}

/// The address that `s` writes in dotted-decimal form, as `Ipv4Addr`'s parser reads it.
pub open spec fn ipv4_of(s: Seq<char>) -> Option<Ipv4Address> {
    let ps = split_on(s, '.');
    if ps.len() == 4 && octet(ps[0]) is Some && octet(ps[1]) is Some && octet(ps[2]) is Some
        && octet(ps[3]) is Some {
        Some(
            Ipv4Address {
                a: octet(ps[0])->0,
                b: octet(ps[1])->0,
                c: octet(ps[2])->0,
                d: octet(ps[3])->0,
            },
        )
    } else {
        None
    }
}

/// The address and port that `s` writes as `<IPv4>:<port>`.
pub open spec fn net_address_of(s: Seq<char>) -> Option<NetAddress> {
    let ps = split_on(s, ':');
    if ps.len() == 2 && ipv4_of(ps[0]) is Some && parse_unsigned(ps[1], u16::MAX as int) is Some {
        Some(NetAddress { ip: ipv4_of(ps[0])->0, port: parse_unsigned(ps[1], u16::MAX as int)->0 as u16 })
    } else {
        None
    }
}

/// The dotted-decimal text of an address, as `Ipv4Addr`'s `Display` writes it.
pub open spec fn ipv4_text(ip: Ipv4Address) -> Seq<char> {
    decimal(ip.a as nat) + seq!['.'] + decimal(ip.b as nat) + seq!['.'] + decimal(ip.c as nat)
        + seq!['.'] + decimal(ip.d as nat)
}

fn parse_octet(v: &Vec<char>) -> (r: Option<u8>)
    ensures
        r == octet(v@),
{
    if v.len() == 0 || v.len() > 3 || (v.len() > 1 && v[0] == '0') {
        return None;
    }
    assert(v@.subrange(0, v@.len() as int) =~= v@);
    match parse_digits(v, 0, 255) {
        Some(n) => Some(n as u8),
        None => None,
    }
}

/// The IPv4 address written in `s`, if `s` is one.
pub fn parse_ipv4(s: &Vec<char>) -> (r: Option<Ipv4Address>)
    ensures
        r == ipv4_of(s@),
{
    let ps = split_char(s, '.');
    if ps.len() != 4 {
        return None;
    }
    let ghost vs = views(ps@);
    assert(vs[0] == ps@[0]@ && vs[1] == ps@[1]@ && vs[2] == ps@[2]@ && vs[3] == ps@[3]@);
    let a = parse_octet(&ps[0]);
    let b = parse_octet(&ps[1]);
    let c = parse_octet(&ps[2]);
    let d = parse_octet(&ps[3]);
    match (a, b, c, d) {
        (Some(a), Some(b), Some(c), Some(d)) => Some(Ipv4Address { a, b, c, d }),
        _ => None,
    }
}

/// The address and port written in `s` as `<IPv4>:<port>`, if it is so written.
pub fn parse_net_address(s: &str) -> (r: Option<NetAddress>)
    ensures
        r == net_address_of(s@),
{
    let v = chars_of(s);
    let ps = split_char(&v, ':');
    if ps.len() != 2 {
        return None;
    }
    let ghost vs = views(ps@);
    assert(vs[0] == ps@[0]@ && vs[1] == ps@[1]@);
    match (parse_ipv4(&ps[0]), parse_u16(&ps[1])) {
        (Some(ip), Some(port)) => Some(NetAddress { ip, port }),
        _ => None,
    }
}

/// Appends the dotted-decimal text of `ip` to `out`.
pub fn push_ipv4(out: &mut String, ip: Ipv4Address)
    ensures
        final(out)@ == old(out)@ + ipv4_text(ip),
{
    push_decimal(out, ip.a as u64);
    out.push('.');
    push_decimal(out, ip.b as u64);
    out.push('.');
    push_decimal(out, ip.c as u64);
    out.push('.');
    push_decimal(out, ip.d as u64);
    assert(final(out)@ =~= old(out)@ + ipv4_text(ip));
}

/// The dotted-decimal text of `ip`.
pub fn ipv4_to_string(ip: Ipv4Address) -> (r: String)
    ensures
        r@ == ipv4_text(ip),
{
    let mut r = String::new();
    push_ipv4(&mut r, ip);
    assert(r@ =~= ipv4_text(ip));
    r
}

/// The identity `<ip>:<port>` under which a network device is reached again.
pub open spec fn network_identity_text(ip: Seq<char>, port: u16) -> Seq<char> {
    ip + seq![':'] + decimal(port as nat)
}

/// The identity of the device at `ip` (as the caller wrote it) and `port`.
pub fn network_identity(ip: &str, port: u16) -> (r: String)
    ensures
        r@ == network_identity_text(ip@, port),
{
    let v = chars_of(ip);
    let mut r = String::new();
    let mut i: usize = 0;
    while i < v.len()
        invariant
            i <= v@.len(),
            r@ == v@.subrange(0, i as int),
        decreases v@.len() - i,
    {
        r.push(v[i]);
        assert(v@.subrange(0, i + 1) =~= v@.subrange(0, i as int).push(v@[i as int]));
        i += 1;
    }
    assert(v@.subrange(0, v@.len() as int) =~= v@);
    r.push(':');
    push_decimal(&mut r, port as u64);
    r
}

/// One way of reaching a device.
#[derive(Clone, Copy, PartialEq, Eq, Structural)]
pub enum LinkRoute {
    /// A socket link to this address.
    Network(NetAddress),
    /// The one attached wired device.
    Wired,
}

/// The link over which the device named `identity` is reached again: the
/// address an identity of the form `<IPv4>:<port>` names, else the attached
/// wired device. The parse alone decides the kind of link.
pub open spec fn reconnect_route_of(identity: Seq<char>) -> LinkRoute {
    match net_address_of(identity) {
        Some(addr) => LinkRoute::Network(addr),
        None => LinkRoute::Wired,
    }
}

/// The link over which to reach the device named `identity` again: a socket
/// link to the address of an identity written `<IPv4>:<port>`, otherwise the
/// attached wired device. A failed network link is not followed by a wired one.
pub fn reconnect_route(identity: &str) -> (r: LinkRoute)
    ensures
        r == reconnect_route_of(identity@),
{
    match parse_net_address(identity) {
        Some(addr) => LinkRoute::Network(addr),
        None => LinkRoute::Wired,
    }
}

proof fn lemma_char_end_without(s: Seq<char>, c: char, i: int)
    requires
        0 <= i <= s.len(),
        !s.contains(c),
    ensures
        char_end(s, c, i) == s.len(),
    decreases s.len() - i,
{
    if i < s.len() {
        assert(s[i] != c);
        lemma_char_end_without(s, c, i + 1);
    }
}

/// An identity without a colon, such as a vendor serial, is reached over the
/// wired link only.
pub proof fn lemma_serial_routes_wired(identity: Seq<char>)
    requires
        !identity.contains(':'),
    ensures
        reconnect_route_of(identity) == LinkRoute::Wired,
{
    lemma_char_end_without(identity, ':', 0);
    assert(split_on(identity, ':').len() == 1);
}

/// An identity `<IPv4>:<port>` is reached over the network, at exactly that
/// address and port, and never over the wired link.
pub proof fn lemma_network_identity_routes(identity: Seq<char>)
    requires
        net_address_of(identity) is Some,
    ensures
        reconnect_route_of(identity) == LinkRoute::Network(net_address_of(identity)->0),
        reconnect_route_of(identity) != LinkRoute::Wired,
{
}

proof fn lemma_octet_of_decimal(n: u8)
    ensures
        octet(decimal(n as nat)) == Some(n),
        !decimal(n as nat).contains('.'),
{
    lemma_decimal(n as nat);
    let d = decimal(n as nat);
    if d.contains('.') {
        let i = choose|i: int| 0 <= i < d.len() && d[i] == '.';
        assert(is_digit(d[i]));
    }
}

/// The dotted-decimal text of an address reads back as that address.
pub proof fn lemma_ipv4_round_trip(ip: Ipv4Address)
    ensures
        ipv4_of(ipv4_text(ip)) == Some(ip),
{
    let (da, db, dc, dd) = (
        decimal(ip.a as nat),
        decimal(ip.b as nat),
        decimal(ip.c as nat),
        decimal(ip.d as nat),
    );
    lemma_octet_of_decimal(ip.a);
    lemma_octet_of_decimal(ip.b);
    lemma_octet_of_decimal(ip.c);
    lemma_octet_of_decimal(ip.d);
    let r3 = dc + seq!['.'] + dd;
    let r2 = db + seq!['.'] + r3;
    assert(ipv4_text(ip) =~= da + seq!['.'] + r2);
    lemma_split_first(da, '.', r2);
    lemma_split_first(db, '.', r3);
    lemma_split_first(dc, '.', dd);
    lemma_split_single(dd, '.');
    assert(split_on(ipv4_text(ip), '.') =~= seq![da, db, dc, dd]);
}

} // verus!
