//! Why a few words give no configuration.

use vstd::prelude::*;
use crate::uri;

verus! {

/// Why the words give no configuration.
#[derive(Debug, PartialEq, Eq)]
pub enum Error {
    /// This word of the block list is no address, domain or block.
    InvalidBlock(String),
    /// This text is no URL.
    InvalidUrl(String),
    /// The URL of the inbound names no listener.
    Inbound(uri::Error),
    /// The URL of the outbound names no upstream.
    Outbound(uri::Error),
}

/// An `Error` over the characters of the text that it holds.
pub enum Refusal {
    InvalidBlock(Seq<char>),
    InvalidUrl(Seq<char>),
    Inbound(uri::Error),
    Outbound(uri::Error),
}

impl View for Error {
    type V = Refusal;

    open spec fn view(&self) -> Refusal {
        match self {
            Error::InvalidBlock(part) => Refusal::InvalidBlock(part@),
            Error::InvalidUrl(text) => Refusal::InvalidUrl(text@),
            Error::Inbound(e) => Refusal::Inbound(*e),
            Error::Outbound(e) => Refusal::Outbound(*e),
        }
    }
}

} // verus!
