//! Configuration: the template search root and the default variable
//! bindings a generation run starts from, merged from the configuration
//! files the caller found and parsed.

pub mod error;
pub mod toml_config;

use vstd::prelude::*;

use crate::config::toml_config::TomlConfig;

verus! {

/// The resolved configuration of a run.
#[derive(Debug)]
pub struct Config {
    pub toml_config: TomlConfig,
}

} // verus!
