//! Web-socket framing, over a plain or a secured stream.

use vstd::prelude::*;
use vstd::string::*;
use vstd::utf8::encode_utf8;
use super::tls;

verus! {

pub const SLASH: u8 = 47;

/// Settings as they are configured.
#[derive(Clone, Debug, PartialEq, Eq)]
pub struct OutboundBuilder {
    /// The path to ask for: empty, or starting with a slash.
    pub path: String,
    /// The host to name in the request; the target's where empty.
    pub host: String,
    /// Transport security below the framing, if any.
    pub tls: Option<tls::OutboundBuilder>,
}

/// Settings that were checked.
#[derive(Clone, Debug, PartialEq, Eq)]
pub struct Outbound {
    pub path: String,
    pub host: String,
    pub tls: Option<tls::Outbound>,
}

#[derive(Clone, Copy, Debug, PartialEq, Eq)]
pub enum Error {
    /// The path is not empty and does not start with a slash.
    InvalidPath,
    /// The settings of the transport security below cannot be used.
    Tls(tls::Error),
}

/// Whether `path` can be asked for: it is empty or starts with a slash.
pub open spec fn is_path(path: Seq<char>) -> bool {
    encode_utf8(path).len() == 0 || encode_utf8(path)[0] == SLASH
}

/// Checks a path.
pub fn check_path(path: &str) -> (r: bool)
    ensures
        r == is_path(path@),
{
    let bytes = path.as_bytes();
    bytes.len() == 0 || bytes[0] == SLASH
}

/// Why the settings of the layer below cannot be used, if they cannot.
pub open spec fn tls_failure(tls: Option<tls::OutboundBuilder>) -> Option<tls::Error> {
    match tls {
        Some(b) => b.failure(),
        None => None,
    }
}

/// Whether `built` holds the settings `tls` of the layer below.
pub open spec fn tls_builds(tls: Option<tls::OutboundBuilder>, built: Option<tls::Outbound>) -> bool {
    match (tls, built) {
        (Some(b), Some(o)) => b.builds(o),
        (None, None) => true,
        _ => false,
    }
}

/// Checks the settings of the layer below, if there is one.
pub fn build_tls(tls: Option<tls::OutboundBuilder>) -> (r: Result<Option<tls::Outbound>, tls::Error>)
    ensures
        match r {
            Ok(built) => tls_failure(tls) is None && tls_builds(tls, built),
            Err(e) => tls_failure(tls) == Some(e),
        },
{
    match tls {
        Some(b) => match b.build() {
            Ok(o) => Ok(Some(o)),
            Err(e) => Err(e),
        },
        None => Ok(None),
    }
}

impl OutboundBuilder {
    /// Why the settings cannot be used, if they cannot: the path is
    /// looked at first.
    pub open spec fn failure(&self) -> Option<Error> {
        if !is_path(self.path@) {
            Some(Error::InvalidPath)
        } else {
            match tls_failure(self.tls) {
                Some(e) => Some(Error::Tls(e)),
                None => None,
            }
        }
    }

    /// Whether `built` holds these settings.
    pub open spec fn builds(&self, built: Outbound) -> bool {
        built.path == self.path && built.host == self.host && tls_builds(self.tls, built.tls)
    }

    /// Checks the settings.
    pub fn build(self) -> (r: Result<Outbound, Error>)
        ensures
            match r {
                Ok(built) => self.failure() is None && self.builds(built),
                Err(e) => self.failure() == Some(e),
            },
    {
        if !check_path(self.path.as_str()) {
            return Err(Error::InvalidPath);
        }
        match build_tls(self.tls) {
            Ok(tls) => Ok(Outbound { path: self.path, host: self.host, tls }),
            Err(e) => Err(Error::Tls(e)),
        }
    }

    pub open spec fn brief() -> Seq<char> {
        "ws"@
    }

    pub open spec fn detail(&self) -> Seq<char> {
        "ws(host:'"@ + self.host@ + "',path:'"@ + self.path@ + "')"@
    }

    /// The layer's name.
    pub fn fmt_brief(&self) -> (r: String)
        ensures
            r@ == Self::brief(),
    {
        "ws".to_owned()
    }

    /// The layer's name with host and path.
    pub fn fmt_detail(&self) -> (r: String)
        ensures
            r@ == self.detail(),
    {
        let mut out = "ws(host:'".to_owned();
        out.append(self.host.as_str());
        out.append("',path:'");
        out.append(self.path.as_str());
        out.append("')");
        out
    }
}

} // verus!
