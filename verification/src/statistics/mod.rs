//! Statistics over observations.

pub mod moving;
