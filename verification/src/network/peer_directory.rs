//! The UDP ports at which peers were last heard, by IPv4 address.
use vstd::prelude::*;
use std::collections::HashMap;
use crate::numfmt::{all_digits, dec_repr, digits_value, parse_uint, parse_uint_chars, push_dec};
use crate::protocol::IPMSG_PORT;
use crate::text::{chars_of, push_char, split_all, split_all_exec, views};

verus! {

broadcast use vstd::std_specs::hash::group_hash_axioms;

/// The value of one dotted-quad field: one to three decimal digits, no
/// leading zero unless the field is `0`, at most 255 (as
/// `Ipv4Addr::from_str` reads it).
pub open spec fn octet_value(p: Seq<char>) -> Option<nat> {
    if 1 <= p.len() <= 3 && all_digits(p, 10) && (p.len() == 1 || p[0] != '0') && digits_value(
        p,
        10,
    ) <= 255 {
        Some(digits_value(p, 10))
    } else {
        None
    }
}

/// The address that a dotted-quad text stands for, as a big-endian number:
/// exactly four fields separated by dots.
pub open spec fn ipv4_value(s: Seq<char>) -> Option<u32> {
    let parts = split_all(s, '.');
    if parts.len() != 4 {
        None
    } else {
        match (
            octet_value(parts[0]),
            octet_value(parts[1]),
            octet_value(parts[2]),
            octet_value(parts[3]),
        ) {
            (Some(a), Some(b), Some(c), Some(d)) => Some(
                (a * 0x100_0000 + b * 0x1_0000 + c * 0x100 + d) as u32,
            ),
            _ => None,
        }
    }
}

/// The number of an IPv4 address text; 0 for text that is not one.
pub open spec fn ip_number(s: Seq<char>) -> u32 {
    match ipv4_value(s) {
        Some(v) => v,
        None => 0,
    }
}

/// One field of a dotted quad.
fn octet_exec(p: &[char]) -> (res: Option<u32>)
    ensures
        match res {
            Some(v) => octet_value(p@) == Some(v as nat) && v <= 255,
            None => octet_value(p@) is None,
        },
{
    if p.len() < 1 || p.len() > 3 {
        return None;
    }
    if p.len() > 1 && p[0] == '0' {
        return None;
    }
    if p[0] == '+' {
        assert(!crate::numfmt::is_digit(p@[0], 10));
        return None;
    }
    match parse_uint_chars(p, 10, 255) {
        Some(v) => {
            assert(p@[0] != '+');
            Some(v as u32)
        },
        None => {
            assert(p@[0] != '+');
            None
        },
    }
}

/// Reads a dotted-quad IPv4 address (as `Ipv4Addr::from_str` does).
pub fn parse_ipv4(ip: &str) -> (res: Option<u32>)
    ensures
        res == ipv4_value(ip@),
{
    let cs = chars_of(ip);
    let parts = split_all_exec(cs.as_slice(), '.');
    assert(views(parts@) == split_all(ip@, '.'));
    if parts.len() != 4 {
        return None;
    }
    assert(views(parts@)[0] == parts@[0]@);
    assert(views(parts@)[1] == parts@[1]@);
    assert(views(parts@)[2] == parts@[2]@);
    assert(views(parts@)[3] == parts@[3]@);
    let a = match octet_exec(parts[0].as_slice()) {
        Some(v) => v,
        None => {
            return None;
        },
    };
    let b = match octet_exec(parts[1].as_slice()) {
        Some(v) => v,
        None => {
            return None;
        },
    };
    let c = match octet_exec(parts[2].as_slice()) {
        Some(v) => v,
        None => {
            return None;
        },
    };
    let d = match octet_exec(parts[3].as_slice()) {
        Some(v) => v,
        None => {
            return None;
        },
    };
    Some(a * 0x100_0000 + b * 0x1_0000 + c * 0x100 + d)
}

/// The number of an IPv4 address text (`Ipv4Addr` parsed, then `u32::from`),
/// or 0 when the text is not an address.
pub fn ip_to_u32(ip: &str) -> (res: u32)
    ensures
        res == ip_number(ip@),
{
    match parse_ipv4(ip) {
        Some(v) => v,
        None => 0,
    }
}

/// The dotted-quad text of an IPv4 address given as a number (what
/// `Ipv4Addr` prints).
pub open spec fn ipv4_text(v: u32) -> Seq<char> {
    dec_repr(v as nat / 0x100_0000) + seq!['.'] + dec_repr((v as nat / 0x1_0000) % 0x100) + seq!['.']
        + dec_repr((v as nat / 0x100) % 0x100) + seq!['.'] + dec_repr(v as nat % 0x100)
}

/// The dotted-quad text of an IPv4 address given as a number.
pub fn ipv4_to_string(v: u32) -> (res: String)
    ensures
        res@ == ipv4_text(v),
{
    let mut s = String::new();
    push_dec(&mut s, (v / 0x100_0000) as u64);
    push_char(&mut s, '.');
    push_dec(&mut s, ((v / 0x1_0000) % 0x100) as u64);
    push_char(&mut s, '.');
    push_dec(&mut s, ((v / 0x100) % 0x100) as u64);
    push_char(&mut s, '.');
    push_dec(&mut s, (v % 0x100) as u64);
    assert(s@ =~= ipv4_text(v));
    s
}

/// The port recorded for `ip` in `ports`, or the protocol's default port.
pub open spec fn port_for(ports: Map<u32, u16>, ip: u32) -> u16 {
    if ports.contains_key(ip) {
        ports[ip]
    } else {
        IPMSG_PORT
    }
}

/// The last port at which each peer was heard. It belongs to one engine,
/// and is shared by sharing that engine.
pub struct PeerDirectory {
    peer_ports: HashMap<u32, u16>,
}

impl View for PeerDirectory {
    type V = Map<u32, u16>;

    closed spec fn view(&self) -> Map<u32, u16> {
        self.peer_ports@
    }
}

impl PeerDirectory {
    /// An empty directory.
    pub fn new() -> (res: PeerDirectory)
        ensures
            res@ == Map::<u32, u16>::empty(),
    {
        PeerDirectory { peer_ports: HashMap::new() }
    }

    /// Records the port of the peer at `ip_u32`.
    pub fn upsert(&mut self, ip_u32: u32, port: u16)
        ensures
            final(self)@ == old(self)@.insert(ip_u32, port),
    {
        self.peer_ports.insert(ip_u32, port);
    }

    /// Records the port of the peer at the address text `ip_str`.
    pub fn upsert_str(&mut self, ip_str: &str, port: u16)
        ensures
            final(self)@ == old(self)@.insert(ip_number(ip_str@), port),
    {
        let ip_u32 = ip_to_u32(ip_str);
        self.upsert(ip_u32, port);
    }

    /// The port of the peer at `ip_u32`, or 2425 when it is unknown.
    pub fn get_port(&self, ip_u32: u32) -> (res: u16)
        ensures
            res == port_for(self@, ip_u32),
    {
        match self.peer_ports.get(&ip_u32) {
            Some(p) => *p,
            None => IPMSG_PORT,
        }
    }

    /// The port of the peer at the address text `ip_str`, or 2425 when it
    /// is unknown.
    pub fn get_port_str(&self, ip_str: &str) -> (res: u16)
        ensures
            res == port_for(self@, ip_number(ip_str@)),
    {
        let ip_u32 = ip_to_u32(ip_str);
        self.get_port(ip_u32)
    }
}

/// After a peer's port is recorded, that port is what the directory gives
/// for the peer, and every other peer keeps its port.
pub proof fn lemma_upsert_then_get(d: Map<u32, u16>, ip: u32, port: u16, other: u32)
    ensures
        port_for(d.insert(ip, port), ip) == port,
        other != ip ==> port_for(d.insert(ip, port), other) == port_for(d, other),
{
}

/// A peer that was never heard is reached at the default port.
pub proof fn lemma_unknown_peer_default_port(ip: u32)
    ensures
        port_for(Map::<u32, u16>::empty(), ip) == IPMSG_PORT,
{
}

} // verus!
