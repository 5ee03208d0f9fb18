//! Layers that wrap the stream to an upstream: transport security,
//! web-socket framing, multiplexed streams, and traffic that passes
//! through a browser. Here they are configured and checked; the streams
//! themselves are the embedding program's.

pub mod browser;
pub mod h2;
pub mod outbound;
pub mod tls;
pub mod ws;

pub use outbound::{Builder, Error, Outbound};
