//! The layer of an outbound: one of a closed set, each handled by its
//! own module.

use vstd::prelude::*;
use vstd::string::*;
use super::{browser, h2, tls, ws};

verus! {

/// The layer as it is configured.
#[derive(Clone, Debug, PartialEq, Eq)]
pub enum Builder {
    Tls(tls::OutboundBuilder),
    Ws(ws::OutboundBuilder),
    H2(h2::OutboundBuilder),
    Browser(browser::SettingsBuilder),
}

/// The layer, checked and ready to wrap streams.
#[derive(Clone, Debug, PartialEq, Eq)]
pub enum Outbound {
    Tls(tls::Outbound),
    Ws(ws::Outbound),
    H2(h2::Outbound),
    Browser(browser::Settings),
}

/// Why a layer cannot be built: the error of the layer's own kind.
#[derive(Clone, Copy, Debug, PartialEq, Eq)]
pub enum Error {
    Tls(tls::Error),
    Ws(ws::Error),
    H2(h2::Error),
    Browser(browser::Error),
}

/// An error wrapped by `wrap`, where there is one.
pub open spec fn wrapped<E>(e: Option<E>, wrap: spec_fn(E) -> Error) -> Option<Error> {
    match e {
        Some(e) => Some(wrap(e)),
        None => None,
    }
}

impl Builder {
    /// Why the layer cannot be built, if it cannot.
    pub open spec fn failure(&self) -> Option<Error> {
        match self {
            Builder::Tls(b) => wrapped(b.failure(), |e| Error::Tls(e)),
            Builder::Ws(b) => wrapped(b.failure(), |e| Error::Ws(e)),
            Builder::H2(b) => wrapped(b.failure(), |e| Error::H2(e)),
            Builder::Browser(b) => wrapped(b.failure(), |e| Error::Browser(e)),
        }
    }

    /// Whether `built` is this layer, of the same kind and with the same
    /// settings.
    pub open spec fn builds(&self, built: Outbound) -> bool {
        match (*self, built) {
            (Builder::Tls(b), Outbound::Tls(o)) => b.builds(o),
            (Builder::Ws(b), Outbound::Ws(o)) => b.builds(o),
            (Builder::H2(b), Outbound::H2(o)) => b.builds(o),
            (Builder::Browser(b), Outbound::Browser(o)) => b.builds(o),
            _ => false,
        }
    }

    /// Builds the layer, each kind by its own rules.
    pub fn build(self) -> (r: Result<Outbound, Error>)
        ensures
            match r {
                Ok(built) => self.failure() is None && self.builds(built),
                Err(e) => self.failure() == Some(e),
            },
    {
        match self {
            Builder::Tls(b) => match b.build() {
                Ok(o) => Ok(Outbound::Tls(o)),
                Err(e) => Err(Error::Tls(e)),
            },
            Builder::Ws(b) => match b.build() {
                Ok(o) => Ok(Outbound::Ws(o)),
                Err(e) => Err(Error::Ws(e)),
            },
            Builder::H2(b) => match b.build() {
                Ok(o) => Ok(Outbound::H2(o)),
                Err(e) => Err(Error::H2(e)),
            },
            Builder::Browser(b) => match b.build() {
                Ok(o) => Ok(Outbound::Browser(o)),
                Err(e) => Err(Error::Browser(e)),
            },
        }
    }

    /// The name of the layer's kind.
    pub open spec fn brief(&self) -> Seq<char> {
        match self {
            Builder::Tls(_) => tls::OutboundBuilder::brief(),
            Builder::Ws(_) => ws::OutboundBuilder::brief(),
            Builder::H2(_) => h2::OutboundBuilder::brief(),
            Builder::Browser(_) => browser::SettingsBuilder::brief(),
        }
    }

    /// The name of the layer's kind with its main settings.
    pub open spec fn detail(&self) -> Seq<char> {
        match self {
            Builder::Tls(_) => tls::OutboundBuilder::brief(),
            Builder::Ws(b) => b.detail(),
            Builder::H2(b) => b.detail(),
            Builder::Browser(b) => b.detail(),
        }
    }

    /// A short text for listings.
    pub fn fmt_brief(&self) -> (r: String)
        ensures
            r@ == self.brief(),
    {
        match self {
            Builder::Tls(b) => b.fmt_brief(),
            Builder::Ws(b) => b.fmt_brief(),
            Builder::H2(b) => b.fmt_brief(),
            Builder::Browser(b) => b.fmt_brief(),
        }
    }

    /// A longer text for diagnostics.
    pub fn fmt_detail(&self) -> (r: String)
        ensures
            r@ == self.detail(),
    {
        match self {
            Builder::Tls(b) => b.fmt_detail(),
            Builder::Ws(b) => b.fmt_detail(),
            Builder::H2(b) => b.fmt_detail(),
            Builder::Browser(b) => b.fmt_detail(),
        }
    }
}

} // verus!
