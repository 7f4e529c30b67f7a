//! Diagnostic payloads that the presentation layer renders.

pub mod filename_invalid;
