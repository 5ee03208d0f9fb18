//! Assembly and dispatch engine of a forward proxy: address text forms,
//! rule-based routing, transport layer configuration and server assembly.

pub mod ascii;
pub mod config;
pub mod net;
pub mod protocol;
pub mod router;
pub mod server;
pub mod tag;
pub mod transport;
pub mod uri;
