//! Transport security.

use vstd::prelude::*;
use vstd::string::*;
use vstd::utf8::encode_utf8;

verus! {

/// The longest protocol name that can be offered, in bytes.
pub const MAX_ALPN_LENGTH: usize = 255;

/// Settings as they are configured.
#[derive(Clone, Debug, PartialEq, Eq)]
pub struct OutboundBuilder {
    /// Application protocols to offer, most wanted first.
    pub alpns: Vec<String>,
    /// Where the trusted certificates are; the system's where `None`.
    pub ca_file: Option<String>,
}

/// Settings that were checked.
#[derive(Clone, Debug, PartialEq, Eq)]
pub struct Outbound {
    pub alpns: Vec<String>,
    pub ca_file: Option<String>,
}

#[derive(Clone, Copy, Debug, PartialEq, Eq)]
pub enum Error {
    /// The protocol name at `ind` is empty or longer than 255 bytes.
    InvalidAlpn { ind: usize },
}

/// Whether `name` can be offered: between one and 255 bytes.
pub open spec fn is_alpn(name: Seq<char>) -> bool {
    0 < encode_utf8(name).len() <= MAX_ALPN_LENGTH
}

/// The place of the first name from `from` on that cannot be offered.
pub open spec fn first_invalid_alpn(alpns: Seq<String>, from: int) -> Option<usize>
    decreases alpns.len() - from,
{
    if from < 0 || from >= alpns.len() {
        None
    } else if !is_alpn(alpns[from]@) {
        Some(from as usize)
    } else {
        first_invalid_alpn(alpns, from + 1)
    }
}

impl OutboundBuilder {
    /// Why the settings cannot be used, if they cannot.
    pub open spec fn failure(&self) -> Option<Error> {
        match first_invalid_alpn(self.alpns@, 0) {
            Some(ind) => Some(Error::InvalidAlpn { ind }),
            None => None,
        }
    }

    /// Whether `built` holds these settings.
    pub open spec fn builds(&self, built: Outbound) -> bool {
        built.alpns == self.alpns && built.ca_file == self.ca_file
    }

    /// Checks the settings.
    pub fn build(self) -> (r: Result<Outbound, Error>)
        ensures
            match r {
                Ok(built) => self.failure() is None && self.builds(built),
                Err(e) => self.failure() == Some(e),
            },
    {
        let mut k: usize = 0;
        while k < self.alpns.len()
            invariant
                k <= self.alpns@.len(),
                first_invalid_alpn(self.alpns@, 0) == first_invalid_alpn(self.alpns@, k as int),
            decreases self.alpns.len() - k,
        {
            let n = self.alpns[k].as_str().as_bytes().len();
            if n == 0 || n > MAX_ALPN_LENGTH {
                return Err(Error::InvalidAlpn { ind: k });
            }
            k += 1;
        }
        Ok(Outbound { alpns: self.alpns, ca_file: self.ca_file })
    }

    pub open spec fn brief() -> Seq<char> {
        "tls"@
    }

    /// The layer's name.
    pub fn fmt_brief(&self) -> (r: String)
        ensures
            r@ == Self::brief(),
    {
        "tls".to_owned()
    }

    /// The layer's name; there is nothing more to show of it.
    pub fn fmt_detail(&self) -> (r: String)
        ensures
            r@ == Self::brief(),
    {
        "tls".to_owned()
    }
}

} // verus!
