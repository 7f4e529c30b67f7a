//! Directory browsing state for the interactive picker.
//!
//! The browser itself is pure navigation state over immutable directory
//! snapshots: it decides where entering or leaving a directory leads, and
//! the caller supplies the freshly read entries of the new location.

pub mod browser;
pub mod entry;
