//! Blocks of addresses: all that share the leading bits of a network
//! address.

use vstd::prelude::*;
use vstd::slice::slice_subrange;
use vstd::string::*;
use crate::net::addr::{IpAddr, Ipv4Addr, Ipv6Addr};
use crate::net::grammar;
use crate::net::parse::read_number;

verus! {

pub const SLASH: u8 = 47;

/// An IPv4 block: the addresses whose first `len` bits are those of
/// `addr`. A length above 32 counts as 32.
#[derive(Clone, Copy, Debug, PartialEq, Eq)]
pub struct Cidr4 {
    pub addr: Ipv4Addr,
    pub len: u8,
}

/// An IPv6 block: the addresses whose first `len` bits are those of
/// `addr`. A length above 128 counts as 128.
#[derive(Clone, Copy, Debug, PartialEq, Eq)]
pub struct Cidr6 {
    pub addr: Ipv6Addr,
    pub len: u8,
}

/// A block of either family.
#[derive(Clone, Copy, Debug, PartialEq, Eq)]
pub enum Cidr {
    V4(Cidr4),
    V6(Cidr6),
}

impl Cidr4 {
    /// The number of trailing bits that the block leaves open.
    pub open spec fn host_bits(&self) -> u32 {
        if self.len >= 32 {
            0
        } else {
            (32 - self.len) as u32
        }
    }

    pub open spec fn spec_contains(&self, ip: &Ipv4Addr) -> bool {
        self.len == 0 || (ip.spec_to_bits() >> self.host_bits()) == (self.addr.spec_to_bits()
            >> self.host_bits())
    }

    /// Whether `ip` lies in the block.
    #[verifier::when_used_as_spec(spec_contains)]
    pub fn contains(&self, ip: &Ipv4Addr) -> (r: bool)
        ensures
            r == self.spec_contains(ip),
    {
        if self.len == 0 {
            return true;
        }
        let shift: u32 = if self.len >= 32 {
            0
        } else {
            (32 - self.len) as u32
        };
        (ip.to_bits() >> shift) == (self.addr.to_bits() >> shift)
    }

    /// `127.0.0.0/8`
    pub open spec fn spec_localloop() -> Cidr4 {
        Cidr4 { addr: Ipv4Addr::spec_new(127, 0, 0, 0), len: 8 }
    }

    /// The IPv4 loopback block.
    #[verifier::when_used_as_spec(spec_localloop)]
    pub fn localloop() -> (r: Cidr4)
        ensures
            r == Self::spec_localloop(),
    {
        Cidr4 { addr: Ipv4Addr::new(127, 0, 0, 0), len: 8 }
    }
}

impl Cidr6 {
    /// The number of trailing bits that the block leaves open.
    pub open spec fn host_bits(&self) -> u128 {
        if self.len >= 128 {
            0
        } else {
            (128 - self.len) as u128
        }
    }

    pub open spec fn spec_contains(&self, ip: &Ipv6Addr) -> bool {
        self.len == 0 || (ip.spec_to_bits() >> self.host_bits()) == (self.addr.spec_to_bits()
            >> self.host_bits())
    }

    /// Whether `ip` lies in the block.
    #[verifier::when_used_as_spec(spec_contains)]
    pub fn contains(&self, ip: &Ipv6Addr) -> (r: bool)
        ensures
            r == self.spec_contains(ip),
    {
        if self.len == 0 {
            return true;
        }
        let shift: u128 = if self.len >= 128 {
            0
        } else {
            (128 - self.len) as u128
        };
        (ip.to_bits() >> shift) == (self.addr.to_bits() >> shift)
    }

    /// `::1/128`
    pub open spec fn spec_localloop() -> Cidr6 {
        Cidr6 { addr: Ipv6Addr::spec_new(0, 0, 0, 0, 0, 0, 0, 1), len: 128 }
    }

    /// The IPv6 loopback block.
    #[verifier::when_used_as_spec(spec_localloop)]
    pub fn localloop() -> (r: Cidr6)
        ensures
            r == Self::spec_localloop(),
    {
        Cidr6 { addr: Ipv6Addr::new(0, 0, 0, 0, 0, 0, 0, 1), len: 128 }
    }
}

/// The first position from `i` on that holds the byte `b`.
pub open spec fn find_byte(s: Seq<u8>, b: u8, i: int) -> Option<int>
    decreases s.len() - i,
{
    if i < 0 || i >= s.len() {
        None
    } else if s[i] == b {
        Some(i)
    } else {
        find_byte(s, b, i + 1)
    }
}

/// The longest prefix of a block of the family of `ip`.
pub open spec fn max_prefix_len(ip: IpAddr) -> nat {
    match ip {
        IpAddr::V4(_) => 32,
        IpAddr::V6(_) => 128,
    }
}

/// The block of the network address `ip` and the prefix length `len`.
pub open spec fn block_of(ip: IpAddr, len: u8) -> Cidr {
    match ip {
        IpAddr::V4(addr) => Cidr::V4(Cidr4 { addr, len }),
        IpAddr::V6(addr) => Cidr::V6(Cidr6 { addr, len }),
    }
}

/// The block that a text denotes, if any: an address, a slash, and the
/// prefix length in decimal digits, at most 32 for IPv4 and 128 for IPv6.
/// The text is cut at its first slash.
pub open spec fn parse_cidr(s: Seq<u8>) -> Option<Cidr> {
    match find_byte(s, SLASH, 0) {
        None => None,
        Some(k) => match grammar::parse_ip_addr(s.subrange(0, k)) {
            None => None,
            Some(ip) => match grammar::all_of(
                s,
                grammar::read_number(s, k + 1, false, None, true, max_prefix_len(ip)),
            ) {
                None => None,
                Some(len) => Some(block_of(ip, len as u8)),
            },
        },
    }
}

/// The private networks: `10.0.0.0/8`, `172.16.0.0/12`, `192.168.0.0/16`
/// and `fc00::/7`.
pub open spec fn spec_private_networks() -> Seq<Cidr> {
    seq![
        Cidr::V4(Cidr4 { addr: Ipv4Addr::spec_new(10, 0, 0, 0), len: 8 }),
        Cidr::V4(Cidr4 { addr: Ipv4Addr::spec_new(172, 16, 0, 0), len: 12 }),
        Cidr::V4(Cidr4 { addr: Ipv4Addr::spec_new(192, 168, 0, 0), len: 16 }),
        Cidr::V6(Cidr6 { addr: Ipv6Addr::spec_new(0xfc00, 0, 0, 0, 0, 0, 0, 0), len: 7 }),
    ]
}

fn locate_byte(s: &[u8], b: u8) -> (r: Option<usize>)
    ensures
        match r {
            Some(k) => find_byte(s@, b, 0) == Some(k as int) && k < s.len(),
            None => find_byte(s@, b, 0) is None,
        },
{
    let mut i: usize = 0;
    while i < s.len()
        invariant
            i <= s.len(),
            find_byte(s@, b, 0) == find_byte(s@, b, i as int),
        decreases s.len() - i,
    {
        if s[i] == b {
            return Some(i);
        }
        i += 1;
    }
    None
}

impl Cidr {
    pub open spec fn spec_contains(&self, ip: &IpAddr) -> bool {
        match (*self, *ip) {
            (Cidr::V4(block), IpAddr::V4(addr)) => block.spec_contains(&addr),
            (Cidr::V6(block), IpAddr::V6(addr)) => block.spec_contains(&addr),
            _ => false,
        }
    }

    /// Whether `ip` is of the block's family and lies in the block.
    #[verifier::when_used_as_spec(spec_contains)]
    pub fn contains(&self, ip: &IpAddr) -> (r: bool)
        ensures
            r == self.spec_contains(ip),
    {
        match (self, ip) {
            (Cidr::V4(block), IpAddr::V4(addr)) => block.contains(addr),
            (Cidr::V6(block), IpAddr::V6(addr)) => block.contains(addr),
            _ => false,
        }
    }

    /// The blocks of addresses that are set aside for private networks.
    pub fn private_networks() -> (r: Vec<Cidr>)
        ensures
            r@ == spec_private_networks(),
    {
        let mut r: Vec<Cidr> = Vec::new();
        r.push(Cidr::V4(Cidr4 { addr: Ipv4Addr::new(10, 0, 0, 0), len: 8 }));
        r.push(Cidr::V4(Cidr4 { addr: Ipv4Addr::new(172, 16, 0, 0), len: 12 }));
        r.push(Cidr::V4(Cidr4 { addr: Ipv4Addr::new(192, 168, 0, 0), len: 16 }));
        r.push(Cidr::V6(Cidr6 { addr: Ipv6Addr::new(0xfc00, 0, 0, 0, 0, 0, 0, 0), len: 7 }));
        assert(r@ =~= spec_private_networks());
        r
    }

    /// The block that the whole of `s` denotes, if any.
    pub fn parse_ascii(s: &[u8]) -> (r: Option<Cidr>)
        ensures
            r == parse_cidr(s@),
    {
        let k = match locate_byte(s, SLASH) {
            Some(k) => k,
            None => { return None; },
        };
        let ip = match IpAddr::parse_ascii(slice_subrange(s, 0, k)) {
            Some(ip) => ip,
            None => { return None; },
        };
        let max: u32 = match ip {
            IpAddr::V4(_) => 32,
            IpAddr::V6(_) => 128,
        };
        match read_number(s, k + 1, false, None, true, max) {
            Some((len, end)) => {
                if end == s.len() {
                    Some(
                        match ip {
                            IpAddr::V4(addr) => Cidr::V4(Cidr4 { addr, len: len as u8 }),
                            IpAddr::V6(addr) => Cidr::V6(Cidr6 { addr, len: len as u8 }),
                        },
                    )
                } else {
                    None
                }
            },
            None => None,
        }
    }

    /// The block that `s` denotes, if any.
    pub fn from_str(s: &str) -> (r: Option<Cidr>)
        ensures
            r == parse_cidr(s.spec_bytes()),
    {
        Self::parse_ascii(s.as_bytes())
    }
}

} // verus!
