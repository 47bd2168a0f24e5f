//! Hosts and the addresses they resolve to.

pub mod types;
