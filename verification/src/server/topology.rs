//! The assembled server.

use vstd::prelude::*;
use crate::router::Router;
use super::api::Api;
use super::dns;
use super::inbound::Inbound;
use super::outbound::Outbound;
use super::tags::TagMap;

verus! {

/// What a server runs on. Nothing in it changes once it is assembled:
/// rules name inbounds and outbounds by their positions in the two
/// lists, and the two maps give the position for each tag.
#[derive(Clone, Debug, PartialEq, Eq)]
pub struct Server {
    pub inbounds: Vec<Inbound>,
    pub outbounds: Vec<Outbound>,
    pub router: Router,
    pub api: Api,
    pub dns: Option<dns::Config>,
    pub inbound_tags: TagMap,
    pub outbound_tags: TagMap,
    /// How long a TCP connection may take to be established, in
    /// milliseconds.
    pub dial_tcp_timeout_ms: u64,
    /// How long the handshake with an upstream may take, all layers
    /// together, in milliseconds.
    pub outbound_handshake_timeout_ms: u64,
    /// The size of a relay buffer, in bytes.
    pub relay_buffer_size: usize,
    /// How long a relay may stay without traffic, in seconds.
    pub relay_timeout_secs: usize,
    /// How long a datagram session may stay without traffic, in
    /// milliseconds.
    pub udp_session_timeout_ms: u64,
}

} // verus!
