//! Internet addresses and their text forms.

pub mod addr;
pub mod grammar;
pub mod parse;
pub mod display;
pub mod laws;

pub use addr::{IpAddr, Ipv4Addr, Ipv6Addr, SocketAddr};
