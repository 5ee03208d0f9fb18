//! Server assembly: from a declarative configuration to a running
//! topology.

pub mod api;
pub mod builder;
pub mod dns;
pub mod inbound;
pub mod laws;
pub mod outbound;
pub mod registry;
pub mod tags;
pub mod topology;

pub use api::Api;
pub use builder::{BuildError, Builder};
pub use tags::TagMap;
pub use topology::Server;
