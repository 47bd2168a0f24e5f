//! Statistics that move along with time.

pub mod windowed;
