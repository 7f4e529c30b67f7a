//! A path that could not be treated as text.

use vstd::prelude::*;

verus! {

/// A file's name was not valid text; carries the alias the caller knows
/// the file by.
#[derive(Debug)]
pub struct FilenameInvalidDiagnostic {
    pub file_alias: String,
}

impl FilenameInvalidDiagnostic {
    pub fn new(file_alias: String) -> (r: Self)
        ensures
            r.file_alias@ == file_alias@,
    {
        FilenameInvalidDiagnostic { file_alias }
    }
}

} // verus!
