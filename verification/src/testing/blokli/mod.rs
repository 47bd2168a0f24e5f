//! An emulated chain for tests: a builder for its state, and a connector to it that tests can perturb.

pub mod builder;
pub mod chain;
pub mod connector;
pub mod faults;
pub mod interop;
pub mod maps;
pub mod model;
pub mod roundtrip;
pub mod state;
pub mod written;

pub use crate::testing::blokli::builder::BlokliTestStateBuilder;
pub use crate::testing::blokli::chain::ChainInfo;
pub use crate::testing::blokli::connector::{NoopKeyMapper, TestChainConnector, TestConnectorError};
pub use crate::testing::blokli::state::BlokliTestState;
