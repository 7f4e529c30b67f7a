//! Navigation state over directory snapshots.

use vstd::prelude::*;

use crate::dir_browser::entry::{ev_name, Entry, EntryV};

verus! {

/// Navigation failed: the index named no entry, or named one that is not
/// a directory.
#[derive(Debug)]
pub enum BrowseError {
    NotFound,
}

/// A position in the file tree: the path walked so far, as segments, and
/// the entries listed at that position.
pub struct DirBrowser {
    entries: Vec<Entry>,
    path: Vec<String>,
}

impl DirBrowser {
    /// The current location, as path segments.
    pub closed spec fn path_view(&self) -> Seq<Seq<char>> {
        self.path.deep_view()
    }

    /// The entries listed at the current location.
    pub closed spec fn entries_view(&self) -> Seq<EntryV> {
        self.entries.deep_view()
    }

    /// A browser standing at `path`, with `entries` the listing there.
    pub fn new(path: Vec<String>, entries: Vec<Entry>) -> (r: Self)
        ensures
            r.path_view() == path.deep_view(),
            r.entries_view() == entries.deep_view(),
    {
        DirBrowser { entries, path }
    }

    /// The name of the directory that entry `i` is, if it is one: the
    /// location a caller must list before calling [`Self::enter`].
    pub fn entry_dir_name(&self, i: usize) -> (r: Option<&String>)
        ensures
            match r {
                Some(name) => i < self.entries_view().len() && self.entries_view()[i as int]
                    == (EntryV::Directory { name: name@ }),
                None => !(i < self.entries_view().len() && self.entries_view()[i as int]
                    is Directory),
            },
    {
        if i >= self.entries.len() {
            return None;
        }
        match &self.entries[i] {
            Entry::Directory(name) => Some(name),
            _ => None,
        }
    }

    /// Steps into entry `i`, which must be a directory; `sub_entries` is
    /// the listing of that directory. On failure the browser is unchanged.
    pub fn enter(&mut self, i: usize, sub_entries: Vec<Entry>) -> (r: Result<(), BrowseError>)
        ensures
            match r {
                Ok(()) => {
                    &&& i < old(self).entries_view().len()
                    &&& old(self).entries_view()[i as int] is Directory
                    &&& final(self).path_view() == old(self).path_view().push(
                        ev_name(old(self).entries_view()[i as int]),
                    )
                    &&& final(self).entries_view() == sub_entries.deep_view()
                },
                Err(BrowseError::NotFound) => {
                    &&& !(i < old(self).entries_view().len() && old(self).entries_view()[i as int]
                        is Directory)
                    &&& final(self).path_view() == old(self).path_view()
                    &&& final(self).entries_view() == old(self).entries_view()
                },
            },
    {
        if i >= self.entries.len() {
            return Err(BrowseError::NotFound);
        }
        let dirname = match &self.entries[i] {
            Entry::Directory(name) => name.clone(),
            _ => {
                return Err(BrowseError::NotFound);
            },
        };
        let ghost path0 = self.path.deep_view();
        self.path.push(dirname);
        self.entries = sub_entries;
        proof {
            assert(self.path.deep_view() =~= path0.push(
                ev_name(old(self).entries_view()[i as int]),
            ));
        }
        Ok(())
    }

    /// Steps back towards the parent by appending a `..` segment;
    /// `parent_entries` is the listing there.
    pub fn back(&mut self, parent_entries: Vec<Entry>)
        ensures
            final(self).path_view() == old(self).path_view().push(".."@),
            final(self).entries_view() == parent_entries.deep_view(),
    {
        let ghost path0 = self.path.deep_view();
        self.path.push("..".to_owned());
        self.entries = parent_entries;
        proof {
            assert(self.path.deep_view() =~= path0.push(".."@));
        }
    }

    /// The entries at the current location.
    pub fn read_dir(&self) -> (r: &Vec<Entry>)
        ensures
            r.deep_view() == self.entries_view(),
    {
        &self.entries
    }

    /// The current location, as path segments.
    pub fn get_path(&self) -> (r: &Vec<String>)
        ensures
            r.deep_view() == self.path_view(),
    {
        &self.path
    }
}

} // verus!
