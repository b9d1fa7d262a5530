//! Where presence announcements go: subnet hosts, broadcast addresses and
//! the ports to bind.
use vstd::prelude::*;
use crate::numfmt::{dec_repr, push_dec};
use crate::text::{
    chars_of, push_char, push_chars, push_str, rfind_char, rfind_char_exec, trim_bounds,
    trim_end_char, trim_end_char_len, trim_ws,
};

verus! {

/// The host addresses of a subnet: `subnet.1` to `subnet.254`, where the
/// subnet is the prefix without trailing dots.
pub open spec fn subnet_host(prefix: Seq<char>, i: nat) -> Seq<char> {
    trim_end_char(prefix, '.') + seq!['.'] + dec_repr(i)
}

/// The 254 host addresses of the subnet `prefix` ("192.168.1" or
/// "192.168.1."), from `.1` to `.254`.
pub fn subnet_ips(prefix: &str) -> (res: Vec<String>)
    ensures
        res@.len() == 254,
        forall|i: int| 0 <= i < 254 ==> #[trigger] res@[i]@ == subnet_host(prefix@, (i + 1) as nat),
{
    let cs = chars_of(prefix);
    let n = trim_end_char_len(cs.as_slice(), '.');
    let subnet = vstd::slice::slice_subrange(cs.as_slice(), 0, n);
    assert(subnet@ =~= trim_end_char(prefix@, '.'));
    let mut ips: Vec<String> = Vec::new();
    let mut i: u64 = 1;
    while i < 255
        invariant
            1 <= i <= 255,
            ips@.len() == i - 1,
            subnet@ == trim_end_char(prefix@, '.'),
            forall|j: int| 0 <= j < i - 1 ==> #[trigger] ips@[j]@ == subnet_host(prefix@, (j + 1) as nat),
        decreases 255 - i,
    {
        let mut ip = String::new();
        push_chars(&mut ip, subnet);
        push_char(&mut ip, '.');
        push_dec(&mut ip, i);
        assert(ip@ =~= subnet_host(prefix@, i as nat));
        ips.push(ip);
        i = i + 1;
    }
    ips
}

/// The broadcast addresses for a node whose local address is `ip`: the
/// limited broadcast address, and for an address other than `0.0.0.0` and
/// `127.0.0.1` that holds a dot, its subnet's `.255` address.
pub open spec fn broadcast_addrs(ip: Seq<char>) -> Seq<Seq<char>> {
    let all = "255.255.255.255"@;
    if ip != "0.0.0.0"@ && ip != "127.0.0.1"@ {
        match rfind_char(ip, '.') {
            Some(pos) => seq![all, ip.take(pos) + ".255"@],
            None => seq![all],
        }
    } else {
        seq![all]
    }
}

/// The broadcast addresses for the local address `local_ip`
/// (`subnet_broadcast_addrs`, given the address's text).
pub fn subnet_broadcast_addrs(local_ip: &str) -> (res: Vec<String>)
    ensures
        res@.len() == broadcast_addrs(local_ip@).len(),
        forall|i: int| 0 <= i < res@.len() ==> #[trigger] res@[i]@ == broadcast_addrs(local_ip@)[i],
{
    let mut addrs: Vec<String> = Vec::new();
    addrs.push(String::from_str("255.255.255.255"));
    let ip = String::from_str(local_ip);
    let any = String::from_str("0.0.0.0");
    let lo = String::from_str("127.0.0.1");
    if ip != any && ip != lo {
        let cs = chars_of(local_ip);
        match rfind_char_exec(cs.as_slice(), '.') {
            Some(pos) => {
                proof {
                    crate::text::lemma_rfind_char(cs@, '.');
                }
                let mut b = String::new();
                push_chars(&mut b, vstd::slice::slice_subrange(cs.as_slice(), 0, pos));
                push_str(&mut b, ".255");
                assert(b@ =~= local_ip@.take(pos as int) + ".255"@);
                addrs.push(b);
            },
            None => {},
        }
    }
    addrs
}

/// The ports at which presence is announced, so that several instances on
/// one network find each other.
pub open spec fn announce_ports() -> Seq<u16> {
    seq![2425u16, 2426u16, 2427u16, 2428u16, 2429u16, 2430u16]
}

/// Every (address, port) pair that a presence announcement goes to: for
/// each port of 2425 to 2430, each address in turn.
pub open spec fn announce_targets(addrs: Seq<Seq<char>>) -> Seq<(Seq<char>, u16)> {
    Seq::new(
        6 * addrs.len(),
        |k: int| (addrs[k % (addrs.len() as int)], (2425 + k / (addrs.len() as int)) as u16),
    )
}

/// The (address, port) pairs of a presence announcement.
pub fn announce_plan(addrs: &Vec<String>) -> (res: Vec<(String, u16)>)
    requires
        addrs@.len() <= 0x1000_0000,
    ensures
        res@.len() == 6 * addrs@.len(),
        forall|k: int|
            0 <= k < res@.len() ==> (#[trigger] res@[k]).0@ == addrs@[k % (addrs@.len() as int)]@
                && res@[k].1 == 2425 + k / (addrs@.len() as int),
{
    let mut res: Vec<(String, u16)> = Vec::new();
    let n = addrs.len();
    let mut port: u16 = 2425;
    while port <= 2430
        invariant
            2425 <= port <= 2431,
            n == addrs@.len(),
            n <= 0x1000_0000,
            res@.len() == (port - 2425) * n,
            forall|k: int|
                0 <= k < res@.len() ==> (#[trigger] res@[k]).0@ == addrs@[k % (n as int)]@
                    && res@[k].1 == 2425 + k / (n as int),
        decreases 2431 - port,
    {
        let mut j: usize = 0;
        while j < n
            invariant
                2425 <= port <= 2430,
                j <= n,
                n == addrs@.len(),
                n <= 0x1000_0000,
                res@.len() == (port - 2425) * n + j,
                forall|k: int|
                    0 <= k < res@.len() ==> (#[trigger] res@[k]).0@ == addrs@[k % (n as int)]@
                        && res@[k].1 == 2425 + k / (n as int),
            decreases n - j,
        {
            let ghost k = res@.len() as int;
            res.push((addrs[j].clone(), port));
            proof {
                let base = (port - 2425) * (n as int);
                assert(k == base + j);
                assert(k % (n as int) == j as int && k / (n as int) == port - 2425) by (nonlinear_arith)
                    requires
                        k == base + j,
                        base == (port - 2425) * (n as int),
                        0 <= j < n,
                        2425 <= port <= 2430,
                ;
            }
            j = j + 1;
        }
        assert((port + 1 - 2425) * n == (port - 2425) * n + n) by (nonlinear_arith);
        port = port + 1;
    }
    res
}

/// The address that reaches the local node when it is bound to `ip`:
/// `127.0.0.1` for the wildcard `0.0.0.0`, else `ip` itself.
pub fn normalize_target_ip(ip_str: String) -> (res: String)
    ensures
        res@ == (if ip_str@ == "0.0.0.0"@ {
            "127.0.0.1"@
        } else {
            ip_str@
        }),
{
    let any = String::from_str("0.0.0.0");
    if ip_str == any {
        String::from_str("127.0.0.1")
    } else {
        ip_str
    }
}

/// The address to bind: `0.0.0.0` for a blank address, else the address
/// as given.
pub fn bind_address(bind_ip: &str) -> (res: String)
    ensures
        res@ == (if trim_ws(bind_ip@).len() == 0 {
            "0.0.0.0"@
        } else {
            bind_ip@
        }),
{
    let cs = chars_of(bind_ip);
    let (a, b) = trim_bounds(cs.as_slice());
    if a == b {
        String::from_str("0.0.0.0")
    } else {
        String::from_str(bind_ip)
    }
}

/// The ports tried when binding: the starting port, then the ten after it.
pub fn bind_port_candidates(start_port: u16) -> (res: Vec<u16>)
    requires
        start_port <= 65525,
    ensures
        res@.len() == 11,
        forall|i: int| 0 <= i < 11 ==> #[trigger] res@[i] == start_port + i,
{
    let mut res: Vec<u16> = Vec::new();
    let mut i: u16 = 0;
    while i <= 10
        invariant
            i <= 11,
            start_port <= 65525,
            res@.len() == i,
            forall|j: int| 0 <= j < i ==> #[trigger] res@[j] == start_port + j,
        decreases 11 - i,
    {
        res.push(start_port + i);
        i = i + 1;
    }
    res
}

/// The message of a failed bind: `UDP/TCP socket binding failed on IP for
/// range START..=END.`
pub fn bind_failure_text(ip: &str, start_port: u16) -> (res: String)
    requires
        start_port <= 65525,
    ensures
        res@ == "UDP/TCP socket binding failed on "@ + ip@ + " for range "@ + dec_repr(
            start_port as nat,
        ) + "..="@ + dec_repr((start_port + 10) as nat) + "."@,
{
    let mut s = String::new();
    push_str(&mut s, "UDP/TCP socket binding failed on ");
    push_str(&mut s, ip);
    push_str(&mut s, " for range ");
    push_dec(&mut s, start_port as u64);
    push_str(&mut s, "..=");
    push_dec(&mut s, (start_port + 10) as u64);
    push_str(&mut s, ".");
    s
}

} // verus!
