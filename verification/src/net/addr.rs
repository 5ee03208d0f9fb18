//! Address values: plain data that is compared field by field.

use vstd::prelude::*;

verus! {

/// An IPv4 address: its four octets, most significant first.
#[derive(Clone, Copy, Debug, PartialEq, Eq, Hash)]
pub struct Ipv4Addr {
    pub octets: [u8; 4],
}

/// An IPv6 address: its eight 16-bit segments, most significant first.
#[derive(Clone, Copy, Debug, PartialEq, Eq, Hash)]
pub struct Ipv6Addr {
    pub segments: [u16; 8],
}

/// An address of either family.
#[derive(Clone, Copy, Debug, PartialEq, Eq, Hash)]
pub enum IpAddr {
    V4(Ipv4Addr),
    V6(Ipv6Addr),
}

/// An address with a port. An IPv6 socket address also names a scope
/// (zero when none is given).
#[allow(inconsistent_fields)]
#[derive(Clone, Copy, Debug, PartialEq, Eq, Hash)]
pub enum SocketAddr {
    V4 { ip: Ipv4Addr, port: u16 },
    V6 { ip: Ipv6Addr, port: u16, scope_id: u32 },
}

impl Ipv4Addr {
    /// The address `a.b.c.d`.
    pub open spec fn spec_new(a: u8, b: u8, c: u8, d: u8) -> Self {
        Ipv4Addr { octets: [a, b, c, d] }
    }

    #[verifier::when_used_as_spec(spec_new)]
    pub fn new(a: u8, b: u8, c: u8, d: u8) -> (r: Self)
        ensures
            r == Self::spec_new(a, b, c, d),
    {
        let r = Ipv4Addr { octets: [a, b, c, d] };
        assert(r.octets =~= Self::spec_new(a, b, c, d).octets);
        r
    }

    /// The address as one 32-bit number, first octet most significant.
    pub open spec fn spec_to_bits(&self) -> u32 {
        (self.octets[0] as int * 0x100_0000 + self.octets[1] as int * 0x1_0000
            + self.octets[2] as int * 0x100 + self.octets[3] as int) as u32
    }

    #[verifier::when_used_as_spec(spec_to_bits)]
    pub fn to_bits(&self) -> (r: u32)
        ensures
            r == self.spec_to_bits(),
    {
        let a: u32 = self.octets[0] as u32;
        let b: u32 = self.octets[1] as u32;
        let c: u32 = self.octets[2] as u32;
        let d: u32 = self.octets[3] as u32;
        a * 0x100_0000 + b * 0x1_0000 + c * 0x100 + d
    }

    /// Whether two addresses have the same octets.
    pub fn same(&self, other: &Ipv4Addr) -> (r: bool)
        ensures
            r == (*self == *other),
    {
        let r = self.octets[0] == other.octets[0] && self.octets[1] == other.octets[1]
            && self.octets[2] == other.octets[2] && self.octets[3] == other.octets[3];
        assert(r ==> self.octets =~= other.octets);
        r
    }
}

impl Ipv6Addr {
    /// The address with the first eight items of `s` as its segments.
    pub open spec fn from_seq(s: Seq<u16>) -> Self {
        Ipv6Addr { segments: [s[0], s[1], s[2], s[3], s[4], s[5], s[6], s[7]] }
    }

    pub open spec fn spec_new(
        a: u16,
        b: u16,
        c: u16,
        d: u16,
        e: u16,
        f: u16,
        g: u16,
        h: u16,
    ) -> Self {
        Ipv6Addr { segments: [a, b, c, d, e, f, g, h] }
    }

    #[verifier::when_used_as_spec(spec_new)]
    pub fn new(a: u16, b: u16, c: u16, d: u16, e: u16, f: u16, g: u16, h: u16) -> (r: Self)
        ensures
            r == Self::spec_new(a, b, c, d, e, f, g, h),
    {
        let r = Ipv6Addr { segments: [a, b, c, d, e, f, g, h] };
        assert(r.segments =~= Self::spec_new(a, b, c, d, e, f, g, h).segments);
        r
    }

    /// The address as one 128-bit number, first segment most significant.
    pub open spec fn spec_to_bits(&self) -> u128 {
        (self.segments[0] as int * 0x1_0000_0000_0000_0000_0000_0000_0000
            + self.segments[1] as int * 0x1_0000_0000_0000_0000_0000_0000
            + self.segments[2] as int * 0x1_0000_0000_0000_0000_0000
            + self.segments[3] as int * 0x1_0000_0000_0000_0000
            + self.segments[4] as int * 0x1_0000_0000_0000
            + self.segments[5] as int * 0x1_0000_0000
            + self.segments[6] as int * 0x1_0000
            + self.segments[7] as int) as u128
    }

    #[verifier::when_used_as_spec(spec_to_bits)]
    pub fn to_bits(&self) -> (r: u128)
        ensures
            r == self.spec_to_bits(),
    {
        let a: u128 = self.segments[0] as u128;
        let b: u128 = self.segments[1] as u128;
        let c: u128 = self.segments[2] as u128;
        let d: u128 = self.segments[3] as u128;
        let e: u128 = self.segments[4] as u128;
        let f: u128 = self.segments[5] as u128;
        let g: u128 = self.segments[6] as u128;
        let h: u128 = self.segments[7] as u128;
        a * 0x1_0000_0000_0000_0000_0000_0000_0000 + b * 0x1_0000_0000_0000_0000_0000_0000
            + c * 0x1_0000_0000_0000_0000_0000 + d * 0x1_0000_0000_0000_0000 + e
            * 0x1_0000_0000_0000 + f * 0x1_0000_0000 + g * 0x1_0000 + h
    }

    /// Whether two addresses have the same segments.
    pub fn same(&self, other: &Ipv6Addr) -> (r: bool)
        ensures
            r == (*self == *other),
    {
        let mut i: usize = 0;
        while i < 8
            invariant
                i <= 8,
                forall|j: int| 0 <= j < i ==> self.segments[j] == other.segments[j],
            decreases 8 - i,
        {
            if self.segments[i] != other.segments[i] {
                return false;
            }
            i += 1;
        }
        assert(self.segments =~= other.segments);
        true
    }
}

impl IpAddr {
    /// Whether two addresses are of one family and equal.
    pub fn same(&self, other: &IpAddr) -> (r: bool)
        ensures
            r == (*self == *other),
    {
        match (self, other) {
            (IpAddr::V4(a), IpAddr::V4(b)) => a.same(b),
            (IpAddr::V6(a), IpAddr::V6(b)) => a.same(b),
            _ => false,
        }
    }
}

impl SocketAddr {
    /// The address without its port.
    pub open spec fn spec_ip(&self) -> IpAddr {
        match *self {
            SocketAddr::V4 { ip, port } => IpAddr::V4(ip),
            SocketAddr::V6 { ip, port, scope_id } => IpAddr::V6(ip),
        }
    }

    #[verifier::when_used_as_spec(spec_ip)]
    pub fn ip(&self) -> (r: IpAddr)
        ensures
            r == self.spec_ip(),
    {
        match self {
            SocketAddr::V4 { ip, port } => IpAddr::V4(*ip),
            SocketAddr::V6 { ip, port, scope_id } => IpAddr::V6(*ip),
        }
    }

    pub open spec fn spec_port(&self) -> u16 {
        match *self {
            SocketAddr::V4 { ip, port } => port,
            SocketAddr::V6 { ip, port, scope_id } => port,
        }
    }

    #[verifier::when_used_as_spec(spec_port)]
    pub fn port(&self) -> (r: u16)
        ensures
            r == self.spec_port(),
    {
        match self {
            SocketAddr::V4 { ip, port } => *port,
            SocketAddr::V6 { ip, port, scope_id } => *port,
        }
    }
}

} // verus!
