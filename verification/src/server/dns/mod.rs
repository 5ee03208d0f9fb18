//! Name resolution settings.

pub mod config;
pub mod destination;

pub use config::Config;
pub use destination::{DnsDestination, Error};
