//! Traffic that a browser carries: the server listens where the browser
//! is told to connect.

use vstd::prelude::*;
use vstd::string::*;
use vstd::utf8::encode_utf8;
use crate::net::addr::SocketAddr;
use crate::net::grammar::parse_socket_addr;

verus! {

/// Settings as they are configured.
#[derive(Clone, Debug, PartialEq, Eq)]
pub struct SettingsBuilder {
    /// Where to wait for the browser, as `IP:PORT`.
    pub addr: String,
}

/// Settings that were checked.
#[derive(Clone, Copy, Debug, PartialEq, Eq)]
pub struct Settings {
    pub addr: SocketAddr,
}

#[derive(Clone, Copy, Debug, PartialEq, Eq)]
pub enum Error {
    /// The address is no `IP:PORT`.
    InvalidAddr,
}

impl SettingsBuilder {
    /// The address that the settings name, if they name one.
    pub open spec fn listens_at(&self) -> Option<SocketAddr> {
        parse_socket_addr(encode_utf8(self.addr@))
    }

    /// Why the settings cannot be used, if they cannot.
    pub open spec fn failure(&self) -> Option<Error> {
        if self.listens_at() is None {
            Some(Error::InvalidAddr)
        } else {
            None
        }
    }

    /// Whether `built` holds these settings.
    pub open spec fn builds(&self, built: Settings) -> bool {
        self.listens_at() == Some(built.addr)
    }

    /// Checks the settings.
    pub fn build(self) -> (r: Result<Settings, Error>)
        ensures
            match r {
                Ok(built) => self.failure() is None && self.builds(built),
                Err(e) => self.failure() == Some(e),
            },
    {
        match SocketAddr::from_str(self.addr.as_str()) {
            Some(addr) => Ok(Settings { addr }),
            None => Err(Error::InvalidAddr),
        }
    }

    pub open spec fn brief() -> Seq<char> {
        "browser"@
    }

    pub open spec fn detail(&self) -> Seq<char> {
        "browser(addr:'"@ + self.addr@ + "')"@
    }

    /// The layer's name.
    pub fn fmt_brief(&self) -> (r: String)
        ensures
            r@ == Self::brief(),
    {
        "browser".to_owned()
    }

    /// The layer's name with the address.
    pub fn fmt_detail(&self) -> (r: String)
        ensures
            r@ == self.detail(),
    {
        let mut out = "browser(addr:'".to_owned();
        out.append(self.addr.as_str());
        out.append("')");
        out
    }
}

} // verus!
