//! Utilities shared by the node: sliding-window statistics, admission to the shared CPU pool,
//! and a scriptable chain connector for tests.

pub mod network_types;
pub mod parallelize;
pub mod statistics;
pub mod testing;
pub mod text;
pub mod time;
