//! A listener for clients.

use vstd::prelude::*;
use crate::net::addr::{IpAddr, SocketAddr};
use crate::tag::Tag;
use crate::uri;
use crate::uri::{host_ip, protocol_of, Protocol, UrlParts};
use vstd::string::*;
use vstd::utf8::encode_utf8;

verus! {

/// A listener as it is configured.
#[derive(Clone, Debug, PartialEq, Eq)]
pub struct Builder {
    pub tag: Tag,
    /// What clients speak.
    pub protocol: Protocol,
    /// The addresses to listen on: one at least.
    pub addr: Vec<SocketAddr>,
}

/// A listener that was checked.
#[derive(Clone, Debug, PartialEq, Eq)]
pub struct Inbound {
    pub tag: Tag,
    pub protocol: Protocol,
    pub addr: Vec<SocketAddr>,
}

#[derive(Clone, Copy, Debug, PartialEq, Eq)]
pub enum Error {
    /// There is no address to listen on.
    NoAddress,
}

/// The socket address of `ip` and `port`, without a scope.
pub open spec fn socket_addr_of(ip: IpAddr, port: u16) -> SocketAddr {
    match ip {
        IpAddr::V4(ip) => SocketAddr::V4 { ip, port },
        IpAddr::V6(ip) => SocketAddr::V6 { ip, port, scope_id: 0 },
    }
}

/// Why a URL names no listener, if it names none: the scheme is looked
/// at first, then the host, then the port.
pub open spec fn url_failure(url: uri::UrlText) -> Option<uri::Error> {
    if protocol_of(url.scheme) is None {
        Some(uri::Error::UnknownScheme)
    } else if url.host is None {
        Some(uri::Error::MissingHost)
    } else if host_ip(encode_utf8(url.host->0)) is None {
        Some(uri::Error::InvalidHost)
    } else if url.port is None {
        Some(uri::Error::MissingPort)
    } else {
        None
    }
}

/// Whether `b` is the listener that `url` names.
pub open spec fn url_names(url: uri::UrlText, b: Builder) -> bool {
    &&& b.tag@.len() == 0
    &&& Some(b.protocol) == protocol_of(url.scheme)
    &&& url.host is Some
    &&& url.port is Some
    &&& host_ip(encode_utf8(url.host->0)) is Some
    &&& b.addr@ == seq![socket_addr_of(host_ip(encode_utf8(url.host->0))->0, url.port->0)]
}

impl Builder {
    /// The listener that a URL names: without a tag, for the protocol of
    /// the scheme, on the address that host and port give. The host has
    /// to be an address.
    pub fn parse_url(url: &UrlParts) -> (r: Result<Builder, uri::Error>)
        ensures
            match r {
                Ok(b) => url_failure(url@) is None && url_names(url@, b),
                Err(e) => url_failure(url@) == Some(e),
            },
    {
        let protocol = match Protocol::from_scheme(url.scheme.as_str()) {
            Some(protocol) => protocol,
            None => {
                return Err(uri::Error::UnknownScheme);
            },
        };
        let host = match &url.host {
            Some(host) => host,
            None => {
                return Err(uri::Error::MissingHost);
            },
        };
        let ip = match uri::parse_host_ip(host.as_str()) {
            Some(ip) => ip,
            None => {
                return Err(uri::Error::InvalidHost);
            },
        };
        let port = match url.port {
            Some(port) => port,
            None => {
                return Err(uri::Error::MissingPort);
            },
        };
        let socket_addr = match ip {
            IpAddr::V4(ip) => SocketAddr::V4 { ip, port },
            IpAddr::V6(ip) => SocketAddr::V6 { ip, port, scope_id: 0 },
        };
        let mut addr: Vec<SocketAddr> = Vec::new();
        addr.push(socket_addr);
        assert(addr@ =~= seq![socket_addr]);
        Ok(Builder { tag: String::new(), protocol, addr })
    }

    /// Why the listener cannot be built, if it cannot.
    pub open spec fn failure(&self) -> Option<Error> {
        if self.addr@.len() == 0 {
            Some(Error::NoAddress)
        } else {
            None
        }
    }

    /// Whether `built` is this listener.
    pub open spec fn builds(&self, built: Inbound) -> bool {
        built.tag == self.tag && built.protocol == self.protocol && built.addr == self.addr
    }

    /// Checks the listener.
    pub fn build(self) -> (r: Result<Inbound, Error>)
        ensures
            match r {
                Ok(built) => self.failure() is None && self.builds(built),
                Err(e) => self.failure() == Some(e),
            },
    {
        if self.addr.len() == 0 {
            return Err(Error::NoAddress);
        }
        Ok(Inbound { tag: self.tag, protocol: self.protocol, addr: self.addr })
    }
}

} // verus!
