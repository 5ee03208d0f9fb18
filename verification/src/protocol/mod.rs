//! What the proxy protocols share.

pub mod socks_addr;

pub use socks_addr::{DomainName, SocksAddr, SocksDestination};
