//! Endpoints written as URLs: `scheme://host:port`.

use vstd::prelude::*;
use vstd::slice::slice_subrange;
use vstd::string::*;
use crate::net::addr::IpAddr;
use crate::net::grammar::{parse_ip_addr, CLOSE_BRACKET, OPEN_BRACKET};
use crate::protocol::socks_addr::{is_domain_name, DomainName, SocksDestination};
use crate::ascii::str_eq;

verus! {

#[verifier::external_type_specification]
#[verifier::external_body]
pub struct ExParseError(url::ParseError);

/// What the library reads of a URL.
#[derive(Clone, Debug, PartialEq, Eq)]
pub struct UrlParts {
    pub scheme: String,
    pub host: Option<String>,
    /// The port that the URL names, or else the one of its scheme,
    /// where the scheme has one.
    pub port: Option<u16>,
}

/// `UrlParts` over the characters of its texts.
pub struct UrlText {
    pub scheme: Seq<char>,
    pub host: Option<Seq<char>>,
    pub port: Option<u16>,
}

impl View for UrlParts {
    type V = UrlText;

    open spec fn view(&self) -> UrlText {
        UrlText {
            scheme: self.scheme@,
            host: match self.host {
                Some(host) => Some(host@),
                None => None,
            },
            port: self.port,
        }
    }
}

/// The parts of the URL that a text is, by the rules for URLs; `None`
/// where the text is no URL.
pub uninterp spec fn url_parts(text: Seq<char>) -> Option<UrlText>;

/// Reads a URL with `url::Url::parse` and takes its scheme, its host as
/// text and its port from `scheme`, `host_str` and
/// `port_or_known_default`. The contract gives these a name, `url_parts`,
/// and claims only that they depend on the text alone.
#[verifier::external_body]
pub(crate) fn parse(text: &str) -> (r: Result<UrlParts, url::ParseError>)
    ensures
        match r {
            Ok(parts) => url_parts(text@) == Some(parts@),
            Err(_) => url_parts(text@) is None,
        },
{
    let url = url::Url::parse(text)?;
    Ok(
        UrlParts {
            scheme: url.scheme().to_owned(),
            host: url.host_str().map(str::to_owned),
            port: url.port_or_known_default(),
        },
    )
}

/// Why a URL names no endpoint.
#[derive(Clone, Copy, Debug, PartialEq, Eq)]
pub enum Error {
    /// The scheme is no protocol of an endpoint.
    UnknownScheme,
    /// The URL has no host.
    MissingHost,
    /// The host is neither an address nor a domain name, or is a name
    /// where an address is needed.
    InvalidHost,
    /// The URL names no port, and its scheme has none.
    MissingPort,
}

/// What an endpoint speaks with its peer.
#[derive(Clone, Copy, Debug, PartialEq, Eq)]
pub enum Protocol {
    Socks5,
    Http,
}

/// The protocol that a scheme names.
pub open spec fn protocol_of(scheme: Seq<char>) -> Option<Protocol> {
    if scheme == "socks5"@ {
        Some(Protocol::Socks5)
    } else if scheme == "http"@ {
        Some(Protocol::Http)
    } else {
        None
    }
}

/// A host without the square brackets that stand around an IPv6
/// address.
pub open spec fn unbracketed(host: Seq<u8>) -> Seq<u8> {
    if host.len() >= 2 && host[0] == OPEN_BRACKET && host[host.len() - 1] == CLOSE_BRACKET {
        host.subrange(1, host.len() - 1)
    } else {
        host
    }
}

/// The address that a host is, if it is one.
pub open spec fn host_ip(host: Seq<u8>) -> Option<IpAddr> {
    parse_ip_addr(unbracketed(host))
}

impl Protocol {
    /// The protocol that `scheme` names, if it names one.
    pub fn from_scheme(scheme: &str) -> (r: Option<Protocol>)
        ensures
            r == protocol_of(scheme@),
    {
        if str_eq(scheme, "socks5") {
            Some(Protocol::Socks5)
        } else if str_eq(scheme, "http") {
            Some(Protocol::Http)
        } else {
            None
        }
    }
}

/// Reads a host as an address.
pub fn parse_host_ip(host: &str) -> (r: Option<IpAddr>)
    ensures
        r == host_ip(host.spec_bytes()),
{
    let bytes = host.as_bytes();
    let n = bytes.len();
    if n >= 2 && bytes[0] == OPEN_BRACKET && bytes[n - 1] == CLOSE_BRACKET {
        IpAddr::parse_ascii(slice_subrange(bytes, 1, n - 1))
    } else {
        IpAddr::parse_ascii(bytes)
    }
}

/// Reads a host: an address where it is one, else a domain name.
pub fn parse_host(host: &str) -> (r: Option<SocksDestination>)
    ensures
        match r {
            Some(SocksDestination::Ip(ip)) => host_ip(host.spec_bytes()) == Some(ip),
            Some(SocksDestination::Name(name)) => host_ip(host.spec_bytes()) is None
                && is_domain_name(host.spec_bytes()) && name.name@ == host@,
            None => host_ip(host.spec_bytes()) is None && !is_domain_name(host.spec_bytes()),
        },
{
    match parse_host_ip(host) {
        Some(ip) => Some(SocksDestination::Ip(ip)),
        None => match DomainName::from_str(host) {
            Some(name) => Some(SocksDestination::Name(name)),
            None => None,
        },
    }
}

} // verus!
