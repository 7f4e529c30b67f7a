//! The operations the command line exposes.

pub mod generate;
pub mod generate2;
