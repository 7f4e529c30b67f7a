//! A newer front end for generation, working from directory-entry
//! snapshots rather than paths. Only its variable attachment is finished;
//! the walk itself still goes through [`super::generate`].

use vstd::prelude::*;

use crate::bindings::Bindings;
use crate::commands::generate::spec_attach;
use crate::dir_browser::entry::Entry;

verus! {

/// A source of directory entries for this front end; implementations live
/// with the caller, next to the filesystem they read.
pub trait EntryReader {
    type Error;

    /// The entry at `path`.
    fn read_entry(&self, path: &str) -> Result<Entry, Self::Error>;

    /// The listing of the directory at `path`.
    fn read_entries(&self, path: &str) -> Result<Vec<Entry>, Self::Error>;
}

/// Why this front end gave up before generating.
#[derive(Debug)]
pub enum Error {
    /// The output path has no resolvable final segment.
    OutputNameInvalid,
    /// The named template could not be read under the templates
    /// directory.
    TemplateNotAccessible(String, String),
}

/// Completes the bindings for a run: binds `name` to the output's final
/// segment unless that segment's own key is already bound, then applies
/// the caller's overrides unconditionally, in order.
pub fn attatch_variables(
    files_variables: &mut Bindings,
    cli_variables: Vec<(String, String)>,
    output_name: String,
)
    ensures
        final(files_variables)@ == spec_attach(
            old(files_variables)@,
            cli_variables@,
            output_name@,
        ),
{
    crate::commands::generate::attatch_variables(files_variables, cli_variables, output_name);
}

} // verus!
