//! The target of a connection: a host, by name or by address, and a port.

use vstd::prelude::*;
use vstd::slice::slice_subrange;
use vstd::string::*;
use vstd::utf8::encode_utf8;
use crate::ascii::{eq_ignore_ascii_case, eq_ignore_case};
use crate::net::addr::IpAddr;
use crate::net::grammar::DOT;

verus! {

/// The longest domain name, in bytes.
pub const MAX_NAME_LENGTH: usize = 255;

/// Whether `b` may stand in a domain name: a letter, a digit, a hyphen,
/// an underscore or a dot.
pub open spec fn is_name_byte(b: u8) -> bool {
    (48 <= b <= 57) || (65 <= b <= 90) || (97 <= b <= 122) || b == 45 || b == 95 || b == DOT
}

/// Whether `s` is a domain name: between one and 255 bytes, each of which
/// may stand in a name.
pub open spec fn is_domain_name(s: Seq<u8>) -> bool {
    0 < s.len() <= MAX_NAME_LENGTH && forall|i: int| 0 <= i < s.len() ==> is_name_byte(s[i])
}

/// Whether the domain `domain` covers the host `host`: the host is the
/// domain itself or lies below it, so that the domain ends the host's
/// name behind a dot. The case of letters does not count.
pub open spec fn covers(domain: Seq<u8>, host: Seq<u8>) -> bool {
    let n = domain.len() as int;
    let m = host.len() as int;
    eq_ignore_ascii_case(host, domain) || (m > n && host[m - n - 1] == DOT && eq_ignore_ascii_case(
        host.subrange(m - n, m),
        domain,
    ))
}

/// A domain name.
#[derive(Clone, Debug, PartialEq, Eq)]
pub struct DomainName {
    pub name: String,
}

fn name_byte(b: u8) -> (r: bool)
    ensures
        r == is_name_byte(b),
{
    (48 <= b && b <= 57) || (65 <= b && b <= 90) || (97 <= b && b <= 122) || b == 45 || b == 95
        || b == DOT
}

/// Whether `s` is a domain name.
pub fn check_domain_name(s: &[u8]) -> (r: bool)
    ensures
        r == is_domain_name(s@),
{
    if s.len() == 0 || s.len() > MAX_NAME_LENGTH {
        return false;
    }
    let mut i: usize = 0;
    while i < s.len()
        invariant
            i <= s.len(),
            forall|k: int| 0 <= k < i ==> is_name_byte(s@[k]),
        decreases s.len() - i,
    {
        if !name_byte(s[i]) {
            return false;
        }
        i += 1;
    }
    true
}

impl DomainName {
    /// The name in bytes.
    pub open spec fn bytes(&self) -> Seq<u8> {
        encode_utf8(self.name@)
    }

    /// Whether the value holds a domain name.
    pub open spec fn wf(&self) -> bool {
        is_domain_name(self.bytes())
    }

    /// The domain name that `s` holds, if it holds one.
    pub fn from_str(s: &str) -> (r: Option<DomainName>)
        ensures
            r is Some == is_domain_name(s.spec_bytes()),
            r matches Some(d) ==> d.name@ == s@ && d.wf(),
    {
        if check_domain_name(s.as_bytes()) {
            Some(DomainName { name: s.to_owned() })
        } else {
            None
        }
    }

    pub fn as_str(&self) -> (r: &str)
        ensures
            r@ == self.name@,
    {
        self.name.as_str()
    }

    pub open spec fn spec_covers(&self, host: &DomainName) -> bool {
        covers(self.bytes(), host.bytes())
    }

    /// Whether `host` is this domain or lies below it.
    #[verifier::when_used_as_spec(spec_covers)]
    pub fn covers(&self, host: &DomainName) -> (r: bool)
        ensures
            r == self.spec_covers(host),
    {
        let domain = self.name.as_str().as_bytes();
        let name = host.name.as_str().as_bytes();
        let n = domain.len();
        let m = name.len();
        if m == n {
            eq_ignore_case(name, domain)
        } else if m > n {
            name[m - n - 1] == DOT && eq_ignore_case(slice_subrange(name, m - n, m), domain)
        } else {
            false
        }
    }
}

/// A host: a domain name or an address.
#[derive(Clone, Debug, PartialEq, Eq)]
pub enum SocksDestination {
    Name(DomainName),
    Ip(IpAddr),
}

/// A host and a port.
#[derive(Clone, Debug, PartialEq, Eq)]
pub struct SocksAddr {
    pub dest: SocksDestination,
    pub port: u16,
}

impl SocksAddr {
    pub fn new(dest: SocksDestination, port: u16) -> (r: Self)
        ensures
            r.dest == dest,
            r.port == port,
    {
        SocksAddr { dest, port }
    }
}

} // verus!
