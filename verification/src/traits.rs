//! Small convenience traits used across the crate.

pub mod append;
pub mod ignore;
