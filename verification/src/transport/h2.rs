//! Streams multiplexed over one connection, plain or secured.

use vstd::prelude::*;
use vstd::string::*;
use super::tls;
use super::ws::{build_tls, check_path, is_path, tls_builds, tls_failure};

verus! {

/// Settings as they are configured.
#[derive(Clone, Debug, PartialEq, Eq)]
pub struct OutboundBuilder {
    /// The path to ask for: empty, or starting with a slash.
    pub path: String,
    /// The host to name in the request; the target's where empty.
    pub host: String,
    /// Transport security below the streams, if any.
    pub tls: Option<tls::OutboundBuilder>,
}

/// Settings that were checked.
#[derive(Clone, Debug, PartialEq, Eq)]
pub struct Outbound {
    pub path: String,
    pub host: String,
    pub tls: Option<tls::Outbound>,
}

#[derive(Clone, Copy, Debug, PartialEq, Eq)]
pub enum Error {
    /// The path is not empty and does not start with a slash.
    InvalidPath,
    /// The settings of the transport security below cannot be used.
    Tls(tls::Error),
}

impl OutboundBuilder {
    /// Why the settings cannot be used, if they cannot: the path is
    /// looked at first.
    pub open spec fn failure(&self) -> Option<Error> {
        if !is_path(self.path@) {
            Some(Error::InvalidPath)
        } else {
            match tls_failure(self.tls) {
                Some(e) => Some(Error::Tls(e)),
                None => None,
            }
        }
    }

    /// Whether `built` holds these settings.
    pub open spec fn builds(&self, built: Outbound) -> bool {
        built.path == self.path && built.host == self.host && tls_builds(self.tls, built.tls)
    }

    /// Checks the settings.
    pub fn build(self) -> (r: Result<Outbound, Error>)
        ensures
            match r {
                Ok(built) => self.failure() is None && self.builds(built),
                Err(e) => self.failure() == Some(e),
            },
    {
        if !check_path(self.path.as_str()) {
            return Err(Error::InvalidPath);
        }
        match build_tls(self.tls) {
            Ok(tls) => Ok(Outbound { path: self.path, host: self.host, tls }),
            Err(e) => Err(Error::Tls(e)),
        }
    }

    pub open spec fn brief() -> Seq<char> {
        "h2"@
    }

    pub open spec fn detail(&self) -> Seq<char> {
        "h2(host:'"@ + self.host@ + "',path:'"@ + self.path@ + "')"@
    }

    /// The layer's name.
    pub fn fmt_brief(&self) -> (r: String)
        ensures
            r@ == Self::brief(),
    {
        "h2".to_owned()
    }

    /// The layer's name with host and path.
    pub fn fmt_detail(&self) -> (r: String)
        ensures
            r@ == self.detail(),
    {
        let mut out = "h2(host:'".to_owned();
        out.append(self.host.as_str());
        out.append("',path:'");
        out.append(self.path.as_str());
        out.append("')");
        out
    }
}

} // verus!
