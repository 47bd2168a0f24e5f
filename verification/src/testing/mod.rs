//! Support for tests.

pub mod blokli;
