//! A project-scaffolding generator: templates are files or directory trees
//! whose names and lines carry placeholders, written `{(variable)}` or
//! `{(variable|pipe|...)}`; generation substitutes bound values for the
//! placeholders and mirrors the template's structure at an output location.

pub mod bindings;
pub mod cli;
pub mod commands;
pub mod config;
pub mod diagnostics;
pub mod dir_browser;
pub mod io;
pub mod path;
pub mod strutil;
pub mod template;
pub mod traits;
