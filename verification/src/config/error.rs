//! Configuration loading errors.

use vstd::prelude::*;

use crate::config::toml_config::error::TomlConfigError;

verus! {

/// Why no configuration could be resolved.
#[derive(Debug)]
pub enum ConfigError {
    /// Neither the executable's directory nor the working directory could
    /// be determined, so there was nowhere to look for a configuration.
    DirectoriesUnaccessable,
    TomlConfigError(TomlConfigError),
}

} // verus!
