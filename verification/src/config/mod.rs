//! A configuration from a few words: two URLs and a list of what to
//! block.

pub mod args;
pub mod blocklist;
pub mod error;

pub use args::make_config_from_args;
pub use error::Error;
pub use blocklist::make_blocklist;
