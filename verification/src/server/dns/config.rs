//! The resolver that the server offers.

use vstd::prelude::*;
use crate::net::addr::SocketAddr;
use super::destination::DnsDestination;

verus! {

/// Where the resolver listens, and where it asks.
#[derive(Clone, Copy, Debug, PartialEq, Eq)]
pub struct Config {
    pub bind_addr: SocketAddr,
    pub server: DnsDestination,
}

} // verus!
