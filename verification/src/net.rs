//! IP addresses as numbers, and their text.

use vstd::prelude::*;

use crate::text::{decimal, decimal_string, hexadecimal, hexadecimal_string, join, join_strings, texts};

verus! {

/// An IPv4 address, as the number its four octets spell.
pub type Ipv4Addr = u32;

/// An IPv6 address, as the number its sixteen octets spell.
pub type Ipv6Addr = u128;

/// A MAC address, as the number its six octets spell.
pub type MacAddr = u64;

/// An IPv4 network: an address and the length of its prefix.
#[derive(Copy, Clone, Debug, PartialEq, Eq, Structural)]
pub struct Ipv4Network {
    pub addr: Ipv4Addr,
    pub prefix: u8,
}

/// An IPv6 network: an address and the length of its prefix.
#[derive(Copy, Clone, Debug, PartialEq, Eq, Structural)]
pub struct Ipv6Network {
    pub addr: Ipv6Addr,
    pub prefix: u8,
}

/// An IP network.
#[derive(Copy, Clone, Debug, PartialEq, Eq, Structural)]
pub enum IpNetwork {
    V4(Ipv4Network),
    V6(Ipv6Network),
}

/// A range of IPv4 addresses, both ends of it contained.
#[derive(Copy, Clone, Debug, PartialEq, Eq, Structural)]
pub struct Ipv4Range {
    pub first: Ipv4Addr,
    pub last: Ipv4Addr,
}

/// A range of IPv6 addresses, both ends of it contained.
#[derive(Copy, Clone, Debug, PartialEq, Eq, Structural)]
pub struct Ipv6Range {
    pub first: Ipv6Addr,
    pub last: Ipv6Addr,
}

/// A range of IP addresses.
#[derive(Copy, Clone, Debug, PartialEq, Eq, Structural)]
pub enum IpRange {
    V4(Ipv4Range),
    V6(Ipv6Range),
}

/// Octet `i` of an IPv4 address, counted from the left.
pub open spec fn v4_octet(addr: Ipv4Addr, i: int) -> nat {
    ((addr >> ((3 - i) * 8)) & 0xff) as nat
}

/// The dotted text of an IPv4 address.
pub open spec fn ipv4_text(addr: Ipv4Addr) -> Seq<char> {
    join(Seq::new(4, |i: int| decimal(v4_octet(addr, i))), "."@)
}

/// Sixteen-bit segment `i` of an IPv6 address, counted from the left.
pub open spec fn segment(addr: Ipv6Addr, i: int) -> nat {
    ((addr >> ((7 - i) * 16)) & 0xffff) as nat
}

/// How many zero segments follow each other from segment `i` on.
pub open spec fn zero_run(addr: Ipv6Addr, i: int) -> int
    decreases 8 - i,
{
    if 0 <= i < 8 && segment(addr, i) == 0 {
        1 + zero_run(addr, i + 1)
    } else {
        0
    }
}

/// Where the longest run of zero segments starts, among the first `n`
/// segments; the leftmost one where several are as long.
pub open spec fn longest_zero_run(addr: Ipv6Addr, n: int) -> int
    decreases n,
{
    if n <= 1 {
        0
    } else {
        let best = longest_zero_run(addr, n - 1);
        if zero_run(addr, n - 1) > zero_run(addr, best) {
            n - 1
        } else {
            best
        }
    }
}

/// The segments from `from` up to `to` in hexadecimal, with colons between.
pub open spec fn segments_text(addr: Ipv6Addr, from: int, to: int) -> Seq<char> {
    join(Seq::new((to - from) as nat, |i: int| hexadecimal(segment(addr, from + i))), ":"@)
}

/// Whether an IPv6 address stands for an IPv4 address (`::ffff:0:0/96`).
pub open spec fn is_v4_mapped(addr: Ipv6Addr) -> bool {
    addr >> 32u128 == 0xffff
}

/// The text of an IPv6 address: the longest run of two or more zero segments
/// is written `::`, and an IPv4-mapped address ends in dotted form.
pub open spec fn ipv6_text(addr: Ipv6Addr) -> Seq<char> {
    if is_v4_mapped(addr) {
        "::ffff:"@ + ipv4_text((addr & 0xffff_ffff) as u32)
    } else {
        let start = longest_zero_run(addr, 8);
        let len = zero_run(addr, start);
        if len > 1 {
            segments_text(addr, 0, start) + "::"@ + segments_text(addr, start + len, 8)
        } else {
            segments_text(addr, 0, 8)
        }
    }
}

/// The dotted text of an IPv4 address.
pub fn ipv4_string(addr: Ipv4Addr) -> (r: String)
    ensures
        r@ == ipv4_text(addr),
{
    let mut parts: Vec<String> = Vec::new();
    let mut i: u32 = 0;
    while i < 4
        invariant
            0 <= i <= 4,
            texts(parts@) == Seq::new(i as nat, |k: int| decimal(v4_octet(addr, k))),
        decreases 4 - i,
    {
        let octet: u32 = (addr >> ((3 - i) * 8)) & 0xff;
        let ghost before = texts(parts@);
        parts.push(decimal_string(octet as u64));
        assert(texts(parts@) =~= before.push(decimal(v4_octet(addr, i as int))));
        i = i + 1;
    }
    join_strings(&parts, ".")
}

fn segment_of(addr: Ipv6Addr, i: u32) -> (r: u64)
    requires
        i < 8,
    ensures
        r == segment(addr, i as int),
{
    let shift: u32 = (7 - i) * 16;
    let s: u128 = (addr >> shift) & 0xffff;
    assert((addr >> shift) & 0xffff <= 0xffff) by (bit_vector);
    s as u64
}

fn zero_run_from(addr: Ipv6Addr, i: u32) -> (r: u32)
    requires
        i <= 8,
    ensures
        r == zero_run(addr, i as int),
        r <= 8 - i,
    decreases 8 - i,
{
    if i < 8 && segment_of(addr, i) == 0 {
        1 + zero_run_from(addr, i + 1)
    } else {
        0
    }
}

fn longest_zero_run_start(addr: Ipv6Addr) -> (r: u32)
    ensures
        r == longest_zero_run(addr, 8),
        r < 8,
{
    let mut best: u32 = 0;
    let mut n: u32 = 1;
    while n < 8
        invariant
            1 <= n <= 8,
            best < n,
            best == longest_zero_run(addr, n as int),
        decreases 8 - n,
    {
        if zero_run_from(addr, n) > zero_run_from(addr, best) {
            best = n;
        }
        n = n + 1;
    }
    best
}

fn segments_string(addr: Ipv6Addr, from: u32, to: u32) -> (r: String)
    requires
        from <= to <= 8,
    ensures
        r@ == segments_text(addr, from as int, to as int),
{
    let mut parts: Vec<String> = Vec::new();
    let mut i: u32 = from;
    while i < to
        invariant
            from <= i <= to <= 8,
            texts(parts@) == Seq::new(
                (i - from) as nat,
                |k: int| hexadecimal(segment(addr, from + k)),
            ),
        decreases to - i,
    {
        let ghost before = texts(parts@);
        parts.push(hexadecimal_string(segment_of(addr, i)));
        assert(texts(parts@) =~= before.push(hexadecimal(segment(addr, i as int))));
        i = i + 1;
    }
    join_strings(&parts, ":")
}

/// The text of an IPv6 address.
pub fn ipv6_string(addr: Ipv6Addr) -> (r: String)
    ensures
        r@ == ipv6_text(addr),
{
    if addr >> 32u128 == 0xffff {
        let low: u32 = (addr & 0xffff_ffff) as u32;
        "::ffff:".to_owned().concat(ipv4_string(low).as_str())
    } else {
        let start: u32 = longest_zero_run_start(addr);
        let len: u32 = zero_run_from(addr, start);
        if len > 1 {
            segments_string(addr, 0, start).concat("::").concat(
                segments_string(addr, start + len, 8).as_str(),
            )
        } else {
            segments_string(addr, 0, 8)
        }
    }
}

/// A range of addresses, as it is shown for debugging.
pub open spec fn range_text(range: IpRange) -> Seq<char> {
    match range {
        IpRange::V4(r) => {
            "V4(Ipv4Range { first: "@ + ipv4_text(r.first) + ", last: "@ + ipv4_text(r.last)
                + " })"@
        },
        IpRange::V6(r) => {
            "V6(Ipv6Range { first: "@ + ipv6_text(r.first) + ", last: "@ + ipv6_text(r.last)
                + " })"@
        },
    }
}

/// A list of ranges, as it is shown for debugging.
pub open spec fn ranges_text(ranges: Seq<IpRange>) -> Seq<char> {
    "["@ + join(ranges.map_values(|r: IpRange| range_text(r)), ", "@) + "]"@
}

/// A range of addresses, as it is shown for debugging.
pub fn range_string(range: &IpRange) -> (r: String)
    ensures
        r@ == range_text(*range),
{
    match range {
        IpRange::V4(r) => {
            "V4(Ipv4Range { first: ".to_owned().concat(ipv4_string(r.first).as_str()).concat(
                ", last: ",
            ).concat(ipv4_string(r.last).as_str()).concat(" })")
        },
        IpRange::V6(r) => {
            "V6(Ipv6Range { first: ".to_owned().concat(ipv6_string(r.first).as_str()).concat(
                ", last: ",
            ).concat(ipv6_string(r.last).as_str()).concat(" })")
        },
    }
}

/// A list of ranges, as it is shown for debugging.
pub fn ranges_string(ranges: &Vec<IpRange>) -> (r: String)
    ensures
        r@ == ranges_text(ranges@),
{
    let mut parts: Vec<String> = Vec::new();
    let mut i: usize = 0;
    while i < ranges.len()
        invariant
            i <= ranges.len(),
            parts.len() == i,
            forall|k: int| 0 <= k < i ==> (#[trigger] parts@[k])@ == range_text(ranges@[k]),
        decreases ranges.len() - i,
    {
        parts.push(range_string(&ranges[i]));
        i = i + 1;
    }
    assert(texts(parts@) =~= ranges@.map_values(|r: IpRange| range_text(r)));
    "[".to_owned().concat(join_strings(&parts, ", ").as_str()).concat("]")
}

/// An IPv4 address and a port.
#[derive(Copy, Clone, Debug, PartialEq, Eq, Structural)]
pub struct SocketAddrV4 {
    pub ip: Ipv4Addr,
    pub port: u16,
}

/// An IPv6 address and a port, with the flow information and the scope id of
/// the address.
#[derive(Copy, Clone, Debug, PartialEq, Eq, Structural)]
pub struct SocketAddrV6 {
    pub ip: Ipv6Addr,
    pub port: u16,
    pub flowinfo: u32,
    pub scope_id: u32,
}

/// An IP address and a port.
#[derive(Copy, Clone, Debug, PartialEq, Eq, Structural)]
pub enum SocketAddr {
    V4(SocketAddrV4),
    V6(SocketAddrV6),
}

impl SocketAddrV6 {
    /// The text of the address: a scope id other than zero follows the IP
    /// address, and the flow information is not shown.
    pub open spec fn text(self) -> Seq<char> {
        if self.scope_id == 0 {
            "["@ + ipv6_text(self.ip) + "]:"@ + decimal(self.port as nat)
        } else {
            "["@ + ipv6_text(self.ip) + "%"@ + decimal(self.scope_id as nat) + "]:"@ + decimal(
                self.port as nat,
            )
        }
    }

    /// The text of the address.
    pub fn to_text(&self) -> (r: String)
        ensures
            r@ == self.text(),
    {
        if self.scope_id == 0 {
            "[".to_owned().concat(ipv6_string(self.ip).as_str()).concat("]:").concat(
                decimal_string(self.port as u64).as_str(),
            )
        } else {
            "[".to_owned().concat(ipv6_string(self.ip).as_str()).concat("%").concat(
                decimal_string(self.scope_id as u64).as_str(),
            ).concat("]:").concat(decimal_string(self.port as u64).as_str())
        }
    }
}

impl SocketAddr {
    /// The port.
    pub open spec fn port_of(self) -> u16 {
        match self {
            SocketAddr::V4(a) => a.port,
            SocketAddr::V6(a) => a.port,
        }
    }

    /// The port.
    pub fn port(&self) -> (r: u16)
        ensures
            r == self.port_of(),
    {
        match self {
            SocketAddr::V4(a) => a.port,
            SocketAddr::V6(a) => a.port,
        }
    }

    /// The text of the address.
    pub open spec fn text(self) -> Seq<char> {
        match self {
            SocketAddr::V4(a) => ipv4_text(a.ip) + ":"@ + decimal(a.port as nat),
            SocketAddr::V6(a) => a.text(),
        }
    }

    /// The text of the address.
    pub fn to_text(&self) -> (r: String)
        ensures
            r@ == self.text(),
    {
        match self {
            SocketAddr::V4(a) => ipv4_string(a.ip).concat(":").concat(
                decimal_string(a.port as u64).as_str(),
            ),
            SocketAddr::V6(a) => a.to_text(),
        }
    }
}

} // verus!
