//! Reading directory entries, abstracted from the filesystem.

use vstd::prelude::*;

use crate::dir_browser::entry::Entry;

verus! {

/// A source of directory entries: one entry by path, or a whole
/// directory's listing. Implementations live with the caller, next to the
/// filesystem they read.
pub trait FileSystemReader {
    type Error;

    /// The entry at `path`.
    fn read_entry(&self, path: &str) -> Result<Entry, Self::Error>;

    /// The listing of the directory at `path`.
    fn read_entries(&self, path: &str) -> Result<Vec<Entry>, Self::Error>;
}

} // verus!
