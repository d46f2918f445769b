//! Socket addresses, and the addresses that stand for clients without one.

use vstd::prelude::*;

verus! {

/// An IPv4 address.
#[derive(Debug, Clone, Copy, PartialEq, Eq, Structural)]
pub struct Ipv4Addr {
    /// The address in network order, as one number.
    pub bits: u32,
}

/// An IPv6 address.
#[derive(Debug, Clone, Copy, PartialEq, Eq, Structural)]
pub struct Ipv6Addr {
    /// The address in network order, as one number.
    pub bits: u128,
}

/// An address of either family.
#[derive(Debug, Clone, Copy, PartialEq, Eq, Structural)]
pub enum IpAddr {
    V4(Ipv4Addr),
    V6(Ipv6Addr),
}

/// An IPv4 address and a port.
#[derive(Debug, Clone, Copy, PartialEq, Eq, Structural)]
pub struct SocketAddrV4 {
    pub ip: Ipv4Addr,
    pub port: u16,
}

/// An IPv6 address and a port.
#[derive(Debug, Clone, Copy, PartialEq, Eq, Structural)]
pub struct SocketAddrV6 {
    pub ip: Ipv6Addr,
    pub port: u16,
    pub flowinfo: u32,
    pub scope_id: u32,
}

/// An address of either family and a port.
#[derive(Debug, Clone, Copy, PartialEq, Eq, Structural)]
pub enum SocketAddr {
    V4(SocketAddrV4),
    V6(SocketAddrV6),
}

/// The octets as one number, the most significant first.
pub open spec fn number_of_octets(octets: Seq<u8>) -> u128
    decreases octets.len(),
{
    if octets.len() == 0 {
        0
    } else {
        (number_of_octets(octets.drop_last()) << 8) | (octets.last() as u128)
    }
}

impl Ipv6Addr {
    /// The address with these eight segments, the most significant first.
    pub open spec fn of_segments(
        a: u16,
        b: u16,
        c: u16,
        d: u16,
        e: u16,
        f: u16,
        g: u16,
        h: u16,
    ) -> Ipv6Addr {
        Ipv6Addr {
            bits: ((a as u128) << 112) | ((b as u128) << 96) | ((c as u128) << 80) | ((d as u128)
                << 64) | ((e as u128) << 48) | ((f as u128) << 32) | ((g as u128) << 16) | (
            h as u128),
        }
    }

    /// The segment at position `i`, from 0, the most significant, to 7.
    pub open spec fn segment(self, i: int) -> u16 {
        (self.bits >> ((112 - 16 * i) as u128)) as u16
    }

    /// The octet at position `i`, from 0, the most significant, to 15.
    pub open spec fn octet(self, i: int) -> u8 {
        (self.bits >> ((120 - 8 * i) as u128)) as u8
    }

    /// Makes an address of eight segments, the most significant first.
    pub fn new(a: u16, b: u16, c: u16, d: u16, e: u16, f: u16, g: u16, h: u16) -> (r: Self)
        ensures
            r == Ipv6Addr::of_segments(a, b, c, d, e, f, g, h),
            r.segment(0) == a,
            r.segment(1) == b,
            r.segment(2) == c,
            r.segment(3) == d,
            r.segment(4) == e,
            r.segment(5) == f,
            r.segment(6) == g,
            r.segment(7) == h,
    {
        let bits: u128 = ((a as u128) << 112) | ((b as u128) << 96) | ((c as u128) << 80) | ((
        d as u128) << 64) | ((e as u128) << 48) | ((f as u128) << 32) | ((g as u128) << 16) | (
        h as u128);
        proof {
            lemma_segments(a, b, c, d, e, f, g, h);
        }
        Ipv6Addr { bits }
    }

    /// The address with these octets, the most significant first.
    pub open spec fn of_octets(octets: Seq<u8>) -> Ipv6Addr {
        Ipv6Addr { bits: number_of_octets(octets) }
    }

    /// Makes an address of the first sixteen octets of a slice, the most significant first.
    pub fn from_octets(octets: &[u8]) -> (r: Self)
        requires
            octets@.len() >= 16,
        ensures
            r == Ipv6Addr::of_octets(octets@.take(16)),
            forall|i: int| 0 <= i < 16 ==> #[trigger] r.octet(i) == octets@[i],
    {
        let mut bits: u128 = 0;
        assert(octets@.take(0) =~= Seq::empty());
        for i in 0..16usize
            invariant
                octets@.len() >= 16,
                bits == number_of_octets(octets@.take(i as int)),
                forall|k: int|
                    0 <= k < i ==> (bits >> ((8 * (i - 1 - k)) as u128)) as u8
                        == #[trigger] octets@[k],
        {
            let octet = octets[i];
            let ghost before = bits;
            bits = (bits << 8) | (octet as u128);
            assert(octets@.take(i + 1).drop_last() =~= octets@.take(i as int));
            assert forall|k: int| 0 <= k < i + 1 implies (bits >> ((8 * (i - k)) as u128)) as u8
                == #[trigger] octets@[k] by {
                if k == i {
                    assert((((before << 8) | (octet as u128)) >> 0u128) as u8 == octet)
                        by (bit_vector);
                } else {
                    let shift: u128 = (8 * (i - 1 - k)) as u128;
                    assert((((before << 8) | (octet as u128)) >> ((shift + 8) as u128)) as u8 == (
                    before >> shift) as u8) by (bit_vector)
                        requires
                            shift <= 112,
                    ;
                    assert((shift + 8) as u128 == (8 * (i - k)) as u128);
                }
            }
        }
        let r = Ipv6Addr { bits };
        assert forall|i: int| 0 <= i < 16 implies #[trigger] r.octet(i) == octets@[i] by {
            assert(120 - 8 * i == 8 * (15 - i));
        }
        r
    }
}

/// An address keeps the octets that it was made of.
pub proof fn octets_are_kept(octets: Seq<u8>)
    requires
        octets.len() == 16,
    ensures
        forall|i: int| 0 <= i < 16 ==> #[trigger] Ipv6Addr::of_octets(octets).octet(i) == octets[i],
{
    assert(octets.take(16) =~= octets);
    assert forall|i: int| 0 <= i < 16 implies #[trigger] Ipv6Addr::of_octets(octets).octet(i)
        == octets[i] by {
        lemma_octet(octets, 16, i);
    }
}

/// The first `n` octets, as one number, hold each of them.
proof fn lemma_octet(octets: Seq<u8>, n: int, k: int)
    requires
        octets.len() == 16,
        0 <= k < n <= 16,
    ensures
        (number_of_octets(octets.take(n)) >> ((8 * (n - 1 - k)) as u128)) as u8 == octets[k],
    decreases n,
{
    assert(octets.take(n).drop_last() =~= octets.take(n - 1));
    let before = number_of_octets(octets.take(n - 1));
    let octet = octets[n - 1];
    if k == n - 1 {
        assert((((before << 8) | (octet as u128)) >> 0u128) as u8 == octet) by (bit_vector);
    } else {
        lemma_octet(octets, n - 1, k);
        let shift: u128 = (8 * (n - 2 - k)) as u128;
        assert((((before << 8) | (octet as u128)) >> ((shift + 8) as u128)) as u8 == (before
            >> shift) as u8) by (bit_vector)
            requires
                shift <= 112,
        ;
        assert((shift + 8) as u128 == (8 * (n - 1 - k)) as u128);
    }
}

/// An address keeps the segments that it was made of.
proof fn lemma_segments(a: u16, b: u16, c: u16, d: u16, e: u16, f: u16, g: u16, h: u16)
    ensures
        ({
            let r = Ipv6Addr::of_segments(a, b, c, d, e, f, g, h);
            &&& r.segment(0) == a
            &&& r.segment(1) == b
            &&& r.segment(2) == c
            &&& r.segment(3) == d
            &&& r.segment(4) == e
            &&& r.segment(5) == f
            &&& r.segment(6) == g
            &&& r.segment(7) == h
        }),
{
    let bits: u128 = ((a as u128) << 112) | ((b as u128) << 96) | ((c as u128) << 80) | ((
    d as u128) << 64) | ((e as u128) << 48) | ((f as u128) << 32) | ((g as u128) << 16) | (
    h as u128);
    assert((bits >> 112u128) as u16 == a && (bits >> 96u128) as u16 == b && (bits >> 80u128) as u16
        == c && (bits >> 64u128) as u16 == d && (bits >> 48u128) as u16 == e && (bits
        >> 32u128) as u16 == f && (bits >> 16u128) as u16 == g && (bits >> 0u128) as u16 == h)
        by (bit_vector)
        requires
            bits == ((a as u128) << 112) | ((b as u128) << 96) | ((c as u128) << 80) | ((d as u128)
                << 64) | ((e as u128) << 48) | ((f as u128) << 32) | ((g as u128) << 16) | (
            h as u128),
    ;
}

impl SocketAddr {
    /// The port.
    pub open spec fn spec_port(self) -> u16 {
        match self {
            SocketAddr::V4(addr) => addr.port,
            SocketAddr::V6(addr) => addr.port,
        }
    }

    /// The address without the port.
    pub open spec fn spec_ip(self) -> IpAddr {
        match self {
            SocketAddr::V4(addr) => IpAddr::V4(addr.ip),
            SocketAddr::V6(addr) => IpAddr::V6(addr.ip),
        }
    }

    /// Joins an address and a port.
    pub open spec fn of_parts(ip: IpAddr, port: u16) -> SocketAddr {
        match ip {
            IpAddr::V4(ip) => SocketAddr::V4(SocketAddrV4 { ip, port }),
            IpAddr::V6(ip) => SocketAddr::V6(SocketAddrV6 { ip, port, flowinfo: 0, scope_id: 0 }),
        }
    }

    /// Joins an address and a port.
    pub fn new(ip: IpAddr, port: u16) -> (r: Self)
        ensures
            r == SocketAddr::of_parts(ip, port),
    {
        match ip {
            IpAddr::V4(ip) => SocketAddr::V4(SocketAddrV4 { ip, port }),
            IpAddr::V6(ip) => SocketAddr::V6(SocketAddrV6 { ip, port, flowinfo: 0, scope_id: 0 }),
        }
    }

    /// The port.
    pub fn port(&self) -> (r: u16)
        ensures
            r == self.spec_port(),
    {
        match self {
            SocketAddr::V4(addr) => addr.port,
            SocketAddr::V6(addr) => addr.port,
        }
    }

    /// The address without the port.
    pub fn ip(&self) -> (r: IpAddr)
        ensures
            r == self.spec_ip(),
    {
        match self {
            SocketAddr::V4(addr) => IpAddr::V4(addr.ip),
            SocketAddr::V6(addr) => IpAddr::V6(addr.ip),
        }
    }
}

/// The address that stands for the client with index `idx`: its first four segments are the
/// sixteen-bit digits of the index, the least significant first, and everything else is zero.
pub open spec fn client_addr(idx: u64) -> SocketAddr {
    SocketAddr::of_parts(
        IpAddr::V6(
            Ipv6Addr::of_segments(
                idx as u16,
                (idx >> 16) as u16,
                (idx >> 32) as u16,
                (idx >> 48) as u16,
                0,
                0,
                0,
                0,
            ),
        ),
        0,
    )
}

/// The number whose sixteen-bit digits, the least significant first, are the first four segments
/// of the address.
pub open spec fn client_idx(ip: Ipv6Addr) -> u64 {
    ((ip.segment(3) as u64) << 48) | ((ip.segment(2) as u64) << 32) | ((ip.segment(1) as u64)
        << 16) | (ip.segment(0) as u64)
}

/// The address that stands for the client with index `idx`.
pub fn client_idx_to_addr(idx: u64) -> (r: SocketAddr)
    ensures
        r == client_addr(idx),
{
    SocketAddr::new(
        IpAddr::V6(
            Ipv6Addr::new(
                #[verifier::truncate]
                (idx as u16),
                #[verifier::truncate]
                ((idx >> 16) as u16),
                #[verifier::truncate]
                ((idx >> 32) as u16),
                #[verifier::truncate]
                ((idx >> 48) as u16),
                0,
                0,
                0,
                0,
            ),
        ),
        0,
    )
}

/// The index of the client that an address stands for. Only IPv6 addresses stand for clients.
pub fn client_idx_from_addr(addr: SocketAddr) -> (r: u64)
    requires
        addr is V6,
    ensures
        r == client_idx(addr->V6_0.ip),
{
    match addr {
        SocketAddr::V6(addr_v6) => {
            let bits = addr_v6.ip.bits;
            let s0 = #[verifier::truncate]
            ((bits >> 112) as u16);
            let s1 = #[verifier::truncate]
            ((bits >> 96) as u16);
            let s2 = #[verifier::truncate]
            ((bits >> 80) as u16);
            let s3 = #[verifier::truncate]
            ((bits >> 64) as u16);
            ((s3 as u64) << 48) | ((s2 as u64) << 32) | ((s1 as u64) << 16) | (s0 as u64)
        },
        SocketAddr::V4(_) => 0,
    }
}

/// The address of a client leads back to its index.
pub proof fn client_addr_conversion(idx: u64)
    ensures
        client_addr(idx) is V6,
        client_idx(client_addr(idx)->V6_0.ip) == idx,
{
    lemma_segments(
        idx as u16,
        (idx >> 16) as u16,
        (idx >> 32) as u16,
        (idx >> 48) as u16,
        0,
        0,
        0,
        0,
    );
    let a = idx as u16;
    let b = (idx >> 16) as u16;
    let c = (idx >> 32) as u16;
    let d = (idx >> 48) as u16;
    assert(((d as u64) << 48) | ((c as u64) << 32) | ((b as u64) << 16) | (a as u64) == idx)
        by (bit_vector)
        requires
            a == idx as u16,
            b == (idx >> 16) as u16,
            c == (idx >> 32) as u16,
            d == (idx >> 48) as u16,
    ;
}

/// Different clients have different addresses.
pub proof fn client_addrs_are_distinct(idx1: u64, idx2: u64)
    requires
        idx1 != idx2,
    ensures
        client_addr(idx1) != client_addr(idx2),
{
    client_addr_conversion(idx1);
    client_addr_conversion(idx2);
}

/// The address that a client is given leads back to its index. It is an IPv6 address without port, flow
/// information and scope. Its upper half holds the index by sixteen bits, the lowest ones first, and its
/// lower half is zero.
pub proof fn clients_are_found_by_their_address(idx: u64, addr: SocketAddr, found: u64)
    requires
        call_ensures(client_idx_to_addr, (idx,), addr),
        call_ensures(client_idx_from_addr, (addr,), found),
    ensures
        found == idx,
        addr matches SocketAddr::V6(v6) && {
            &&& v6.port == 0
            &&& v6.flowinfo == 0
            &&& v6.scope_id == 0
            &&& v6.ip.bits / 0x1_0000_0000_0000_0000_0000_0000_0000 == idx % 0x1_0000
            &&& v6.ip.bits / 0x1_0000_0000_0000_0000_0000_0000 % 0x1_0000 == idx / 0x1_0000
                % 0x1_0000
            &&& v6.ip.bits / 0x1_0000_0000_0000_0000_0000 % 0x1_0000 == idx / 0x1_0000_0000
                % 0x1_0000
            &&& v6.ip.bits / 0x1_0000_0000_0000_0000 % 0x1_0000 == idx / 0x1_0000_0000_0000
            &&& v6.ip.bits % 0x1_0000_0000_0000_0000 == 0
        },
{
    client_addr_conversion(idx);
    let a = idx as u16;
    let b = (idx >> 16) as u16;
    let c = (idx >> 32) as u16;
    let d = (idx >> 48) as u16;
    let zero: u16 = 0;
    let bits: u128 = ((a as u128) << 112) | ((b as u128) << 96) | ((c as u128) << 80) | ((
    d as u128) << 64) | ((zero as u128) << 48) | ((zero as u128) << 32) | ((zero as u128) << 16) | (
    zero as u128);
    assert(bits / 0x1_0000_0000_0000_0000_0000_0000_0000u128 == (idx % 0x1_0000u64) as u128
        && bits / 0x1_0000_0000_0000_0000_0000_0000u128 % 0x1_0000u128 == (idx / 0x1_0000u64
        % 0x1_0000u64) as u128 && bits / 0x1_0000_0000_0000_0000_0000u128 % 0x1_0000u128 == (idx
        / 0x1_0000_0000u64 % 0x1_0000u64) as u128 && bits / 0x1_0000_0000_0000_0000u128
        % 0x1_0000u128 == (idx / 0x1_0000_0000_0000u64) as u128 && bits
        % 0x1_0000_0000_0000_0000u128 == 0) by (bit_vector)
        requires
            a == idx as u16,
            b == (idx >> 16) as u16,
            c == (idx >> 32) as u16,
            d == (idx >> 48) as u16,
            zero == 0,
            bits == ((a as u128) << 112) | ((b as u128) << 96) | ((c as u128) << 80) | ((d as u128)
                << 64) | ((zero as u128) << 48) | ((zero as u128) << 32) | ((zero as u128) << 16)
                | (zero as u128),
    ;
}

/// A socket address that is made of an IP address and a port gives both back, and holds nothing else.
pub proof fn addresses_keep_their_parts(
    ip: IpAddr,
    port: u16,
    addr: SocketAddr,
    ip_again: IpAddr,
    port_again: u16,
)
    requires
        call_ensures(SocketAddr::new, (ip, port), addr),
        call_ensures(SocketAddr::ip, (&addr,), ip_again),
        call_ensures(SocketAddr::port, (&addr,), port_again),
    ensures
        ip_again == ip,
        port_again == port,
        addr is V4 <==> ip is V4,
        addr matches SocketAddr::V6(v6) ==> v6.flowinfo == 0 && v6.scope_id == 0,
{
}

} // verus!
