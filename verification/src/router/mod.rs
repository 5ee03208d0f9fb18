//! Rules that pick the outbound for a connection by its target.

pub mod cidr;
pub mod rule;
pub mod table;

pub use cidr::{Cidr, Cidr4, Cidr6};
pub use rule::{Destination, DestinationView, PlainRule, Rule};
pub use table::{Builder, Decision, Error, Router};
