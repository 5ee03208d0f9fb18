//! A rule: the targets that it is about, the inbounds that it is for,
//! and the outbound that it sends them to.

use vstd::prelude::*;
use crate::net::addr::IpAddr;
use crate::protocol::socks_addr::{DomainName, SocksAddr, SocksDestination};
use crate::tag::Tag;
use super::cidr::Cidr;

verus! {

/// A set of targets: one address, a domain with all below it, or a block
/// of addresses.
#[derive(Clone, Debug, PartialEq, Eq)]
pub enum Destination {
    Ip(IpAddr),
    Domain(DomainName),
    Cidr(Cidr),
}

/// A `Destination` over the bytes of the name that it may hold.
pub enum DestinationView {
    Ip(IpAddr),
    Domain(Seq<u8>),
    Cidr(Cidr),
}

impl View for Destination {
    type V = DestinationView;

    open spec fn view(&self) -> DestinationView {
        match self {
            Destination::Ip(ip) => DestinationView::Ip(*ip),
            Destination::Domain(domain) => DestinationView::Domain(domain.bytes()),
            Destination::Cidr(block) => DestinationView::Cidr(*block),
        }
    }
}

/// Destinations over the bytes of their names, one for one.
pub open spec fn views(dsts: Seq<Destination>) -> Seq<DestinationView> {
    Seq::new(dsts.len(), |i: int| dsts[i]@)
}

impl Destination {
    /// An address matches itself and the blocks that hold it; a name
    /// matches the domains that cover it. Names are not resolved.
    pub open spec fn spec_matches(&self, addr: &SocksAddr) -> bool {
        match (*self, addr.dest) {
            (Destination::Ip(ip), SocksDestination::Ip(to)) => ip == to,
            (Destination::Cidr(block), SocksDestination::Ip(to)) => block.spec_contains(&to),
            (Destination::Domain(domain), SocksDestination::Name(host)) => domain.spec_covers(
                &host,
            ),
            _ => false,
        }
    }

    /// Whether the target `addr` is one of this set.
    #[verifier::when_used_as_spec(spec_matches)]
    pub fn matches(&self, addr: &SocksAddr) -> (r: bool)
        ensures
            r == self.spec_matches(addr),
    {
        match (self, &addr.dest) {
            (Destination::Ip(ip), SocksDestination::Ip(to)) => ip.same(to),
            (Destination::Cidr(block), SocksDestination::Ip(to)) => block.contains(to),
            (Destination::Domain(domain), SocksDestination::Name(host)) => domain.covers(host),
            _ => false,
        }
    }
}

/// A rule as it is configured, with inbounds and outbound by tag.
///
/// The rule is for the inbounds in `inbound_tags`, for all where the list
/// is empty. It applies to a target that one of `dsts` matches. Without an
/// outbound tag it denies the connection.
#[derive(Clone, Debug, PartialEq, Eq)]
pub struct PlainRule {
    pub inbound_tags: Vec<Tag>,
    pub dsts: Vec<Destination>,
    pub outbound_tag: Option<Tag>,
}

impl Default for PlainRule {
    fn default() -> (r: Self)
        ensures
            r.inbound_tags@.len() == 0,
            r.dsts@.len() == 0,
            r.outbound_tag is None,
    {
        PlainRule { inbound_tags: Vec::new(), dsts: Vec::new(), outbound_tag: None }
    }
}

/// A rule with inbounds and outbound by their positions in the server.
#[derive(Clone, Debug, PartialEq, Eq)]
pub struct Rule {
    pub inbound_inds: Vec<usize>,
    pub dsts: Vec<Destination>,
    pub outbound_ind: Option<usize>,
}

impl Rule {
    /// Whether the rule is for connections from the inbound at `inbound`.
    pub open spec fn is_for(&self, inbound: usize) -> bool {
        self.inbound_inds@.len() == 0 || exists|k: int|
            0 <= k < self.inbound_inds@.len() && #[trigger] self.inbound_inds@[k] == inbound
    }

    /// Whether one of the rule's destinations matches `addr`.
    pub open spec fn hits(&self, addr: &SocksAddr) -> bool {
        exists|k: int| 0 <= k < self.dsts@.len() && (#[trigger] self.dsts@[k]).spec_matches(addr)
    }

    pub open spec fn spec_matches(&self, inbound: usize, addr: &SocksAddr) -> bool {
        self.is_for(inbound) && self.hits(addr)
    }

    fn check_inbound(&self, inbound: usize) -> (r: bool)
        ensures
            r == self.is_for(inbound),
    {
        if self.inbound_inds.len() == 0 {
            return true;
        }
        let mut k: usize = 0;
        while k < self.inbound_inds.len()
            invariant
                k <= self.inbound_inds@.len(),
                forall|j: int| 0 <= j < k ==> self.inbound_inds@[j] != inbound,
            decreases self.inbound_inds.len() - k,
        {
            if self.inbound_inds[k] == inbound {
                return true;
            }
            k += 1;
        }
        false
    }

    fn check_target(&self, addr: &SocksAddr) -> (r: bool)
        ensures
            r == self.hits(addr),
    {
        let mut k: usize = 0;
        while k < self.dsts.len()
            invariant
                k <= self.dsts@.len(),
                forall|j: int| 0 <= j < k ==> !self.dsts@[j].spec_matches(addr),
            decreases self.dsts.len() - k,
        {
            if self.dsts[k].matches(addr) {
                return true;
            }
            k += 1;
        }
        false
    }

    /// Whether the rule applies to a connection from the inbound at
    /// `inbound` to the target `addr`.
    #[verifier::when_used_as_spec(spec_matches)]
    pub fn matches(&self, inbound: usize, addr: &SocksAddr) -> (r: bool)
        ensures
            r == self.spec_matches(inbound, addr),
    {
        self.check_inbound(inbound) && self.check_target(addr)
    }
}

} // verus!
