//! An upstream for connections.

use vstd::prelude::*;
use vstd::string::*;
use vstd::utf8::encode_utf8;
use crate::protocol::socks_addr::{is_domain_name, SocksAddr, SocksDestination};
use crate::uri;
use crate::uri::{host_ip, protocol_of, Protocol, UrlParts};
use crate::tag::Tag;
use crate::transport;

verus! {

/// How an outbound reaches the target, as it is configured.
#[derive(Clone, Debug, PartialEq, Eq)]
pub enum Details {
    /// Straight to the target.
    Freedom,
    /// Through the proxy at `addr` that speaks `protocol`, the stream to
    /// it wrapped in `transport` where there is one.
    Proxy { protocol: Protocol, addr: SocksAddr, transport: Option<transport::outbound::Builder> },
}

/// How an outbound reaches the target.
#[derive(Clone, Debug, PartialEq, Eq)]
pub enum Settings {
    Freedom,
    Proxy { protocol: Protocol, addr: SocksAddr, transport: Option<transport::outbound::Outbound> },
}

/// An upstream as it is configured.
#[derive(Clone, Debug, PartialEq, Eq)]
pub struct Builder {
    pub tag: Tag,
    pub settings: Details,
}

/// An upstream that was checked.
#[derive(Clone, Debug, PartialEq, Eq)]
pub struct Outbound {
    pub tag: Tag,
    pub settings: Settings,
}

#[derive(Clone, Copy, Debug, PartialEq, Eq)]
pub enum Error {
    /// The transport layer cannot be built.
    Transport(transport::outbound::Error),
}

impl Details {
    /// Why the settings cannot be used, if they cannot.
    pub open spec fn failure(&self) -> Option<Error> {
        match self {
            Details::Proxy { protocol, addr, transport: Some(layer) } => match layer.failure() {
                Some(e) => Some(Error::Transport(e)),
                None => None,
            },
            _ => None,
        }
    }

    /// Whether `built` holds these settings.
    pub open spec fn builds(&self, built: Settings) -> bool {
        match (*self, built) {
            (Details::Freedom, Settings::Freedom) => true,
            (
                Details::Proxy { protocol, addr, transport },
                Settings::Proxy {
                    protocol: built_protocol,
                    addr: built_addr,
                    transport: built_transport,
                },
            ) => built_protocol == protocol && built_addr == addr && match (
                transport,
                built_transport,
            ) {
                (Some(layer), Some(built_layer)) => layer.builds(built_layer),
                (None, None) => true,
                _ => false,
            },
            _ => false,
        }
    }

    /// Checks the settings.
    pub fn build(self) -> (r: Result<Settings, Error>)
        ensures
            match r {
                Ok(built) => self.failure() is None && self.builds(built),
                Err(e) => self.failure() == Some(e),
            },
    {
        match self {
            Details::Freedom => Ok(Settings::Freedom),
            Details::Proxy { protocol, addr, transport } => match transport {
                None => Ok(Settings::Proxy { protocol, addr, transport: None }),
                Some(layer) => match layer.build() {
                    Ok(built) => Ok(Settings::Proxy { protocol, addr, transport: Some(built) }),
                    Err(e) => Err(Error::Transport(e)),
                },
            },
        }
    }
}

/// Why a URL names no upstream, if it names none: the scheme is looked
/// at first, then the host, then the port.
pub open spec fn url_failure(url: uri::UrlText) -> Option<uri::Error> {
    if protocol_of(url.scheme) is None {
        Some(uri::Error::UnknownScheme)
    } else if url.host is None {
        Some(uri::Error::MissingHost)
    } else if host_ip(encode_utf8(url.host->0)) is None && !is_domain_name(
        encode_utf8(url.host->0),
    ) {
        Some(uri::Error::InvalidHost)
    } else if url.port is None {
        Some(uri::Error::MissingPort)
    } else {
        None
    }
}

/// Whether `dest` is the host `host`: its address where it is one, else
/// its name.
pub open spec fn is_host(dest: SocksDestination, host: Seq<char>) -> bool {
    match dest {
        SocksDestination::Ip(ip) => host_ip(encode_utf8(host)) == Some(ip),
        SocksDestination::Name(name) => host_ip(encode_utf8(host)) is None && name.name@ == host,
    }
}

/// Whether `b` is the upstream that `url` names.
pub open spec fn url_names(url: uri::UrlText, b: Builder) -> bool {
    &&& b.tag@.len() == 0
    &&& url.host is Some
    &&& b.settings matches Details::Proxy { protocol, addr, transport }
    &&& Some(protocol) == protocol_of(url.scheme)
    &&& is_host(addr.dest, url.host->0)
    &&& Some(addr.port) == url.port
    &&& transport is None
}

impl Builder {
    /// The upstream that a URL names: without a tag, a proxy that speaks
    /// the protocol of the scheme at the host and port of the URL, with
    /// no layer around the stream.
    pub fn parse_url(url: &UrlParts) -> (r: Result<Builder, uri::Error>)
        ensures
            match r {
                Ok(b) => url_failure(url@) is None && url_names(url@, b),
                Err(e) => url_failure(url@) == Some(e),
            },
    {
        let protocol = match Protocol::from_scheme(url.scheme.as_str()) {
            Some(protocol) => protocol,
            None => {
                return Err(uri::Error::UnknownScheme);
            },
        };
        let host = match &url.host {
            Some(host) => host,
            None => {
                return Err(uri::Error::MissingHost);
            },
        };
        let dest = match uri::parse_host(host.as_str()) {
            Some(dest) => dest,
            None => {
                return Err(uri::Error::InvalidHost);
            },
        };
        let port = match url.port {
            Some(port) => port,
            None => {
                return Err(uri::Error::MissingPort);
            },
        };
        Ok(
            Builder {
                tag: String::new(),
                settings: Details::Proxy {
                    protocol,
                    addr: SocksAddr { dest, port },
                    transport: None,
                },
            },
        )
    }

    /// An upstream without a tag that connects straight to the target.
    pub fn new_freedom() -> (r: Self)
        ensures
            r.tag@.len() == 0,
            r.settings == Details::Freedom,
    {
        Builder { tag: String::new(), settings: Details::Freedom }
    }

    /// Why the upstream cannot be built, if it cannot.
    pub open spec fn failure(&self) -> Option<Error> {
        self.settings.failure()
    }

    /// Whether `built` is this upstream.
    pub open spec fn builds(&self, built: Outbound) -> bool {
        built.tag == self.tag && self.settings.builds(built.settings)
    }

    /// Checks the upstream.
    pub fn build(self) -> (r: Result<Outbound, Error>)
        ensures
            match r {
                Ok(built) => self.failure() is None && self.builds(built),
                Err(e) => self.failure() == Some(e),
            },
    {
        match self.settings.build() {
            Ok(settings) => Ok(Outbound { tag: self.tag, settings }),
            Err(e) => Err(e),
        }
    }
}

} // verus!
