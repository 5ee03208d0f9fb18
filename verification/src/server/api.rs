//! The management interface.

use vstd::prelude::*;
use crate::net::addr::SocketAddr;

verus! {

/// Whether the server is managed over the web, and how.
#[derive(Clone, Debug, PartialEq, Eq)]
pub enum Api {
    /// No management interface.
    Disabled,
    /// A web interface at `addr` that asks for `secret`.
    WebApi { secret: String, addr: SocketAddr },
}

impl Default for Api {
    fn default() -> (r: Self)
        ensures
            r == Api::Disabled,
    {
        Api::Disabled
    }
}

impl Api {
    /// Whether the interface can be offered: a web interface needs a
    /// secret that is not empty.
    pub open spec fn spec_is_valid(&self) -> bool {
        match self {
            Api::Disabled => true,
            Api::WebApi { secret, addr } => secret@.len() > 0,
        }
    }

    #[verifier::when_used_as_spec(spec_is_valid)]
    pub fn is_valid(&self) -> (r: bool)
        ensures
            r == self.spec_is_valid(),
    {
        match self {
            Api::Disabled => true,
            Api::WebApi { secret, addr } => !secret.as_str().is_empty(),
        }
    }
}

} // verus!
