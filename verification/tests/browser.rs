//! Directory navigation and entry filtering.

use cco::dir_browser::browser::{BrowseError, DirBrowser};
use cco::dir_browser::entry::{entry_name, filter_entries, Entry, Symlink};
use cco::io::file_system_reader::FileSystemReader;
use cco::traits::ignore::Ignore;

fn listing() -> Vec<Entry> {
    vec![
        Entry::File("readme.md".to_owned()),
        Entry::Directory("src".to_owned()),
        Entry::Symlink(Symlink { name: "link".to_owned(), link: "/target".to_owned() }),
    ]
}

#[test]
fn browser_navigation() {
    let mut browser = DirBrowser::new(vec![".".to_owned()], listing());
    assert_eq!(browser.read_dir().len(), 3);
    assert_eq!(browser.get_path().len(), 1);

    // Entry 0 is a file: entering it fails and changes nothing.
    assert!(browser.entry_dir_name(0).is_none());
    assert!(matches!(browser.enter(0, vec![]), Err(BrowseError::NotFound)));
    assert_eq!(browser.read_dir().len(), 3);

    // Entry 1 is a directory.
    assert_eq!(browser.entry_dir_name(1).unwrap(), "src");
    let sub = vec![Entry::File("lib.rs".to_owned())];
    browser.enter(1, sub).unwrap();
    assert_eq!(browser.get_path().last().unwrap(), "src");
    assert_eq!(browser.read_dir().len(), 1);
    assert_eq!(entry_name(&browser.read_dir()[0]), "lib.rs");

    // Stepping back appends a `..` segment and takes the new listing.
    browser.back(listing());
    assert_eq!(browser.get_path().last().unwrap(), "..");
    assert_eq!(browser.read_dir().len(), 3);

    // An out-of-range index is rejected.
    assert!(matches!(browser.enter(9, vec![]), Err(BrowseError::NotFound)));
}

/// An in-memory reader standing in for the filesystem.
struct FixedReader;

impl FileSystemReader for FixedReader {
    type Error = ();

    fn read_entry(&self, path: &str) -> Result<Entry, ()> {
        if path == "./src" {
            Ok(Entry::Directory("src".to_owned()))
        } else {
            Err(())
        }
    }

    fn read_entries(&self, path: &str) -> Result<Vec<Entry>, ()> {
        if path == "." {
            Ok(listing())
        } else {
            Err(())
        }
    }
}

#[test]
fn reader_seam_feeds_the_browser() {
    let reader = FixedReader;
    let entries = reader.read_entries(".").unwrap();
    let browser = DirBrowser::new(vec![".".to_owned()], entries);
    assert_eq!(browser.read_dir().len(), 3);
    assert!(matches!(reader.read_entry("./src"), Ok(Entry::Directory(_))));
    // Deliberately dropped results read as such.
    reader.read_entry("./absent").ignore();
}

#[test]
fn filter_entries_by_substring() {
    let entries = listing();
    let filtered = filter_entries(&entries, "r");
    assert_eq!(filtered.len(), 2);
    assert_eq!(entry_name(&filtered[0]), "readme.md");
    assert_eq!(entry_name(&filtered[1]), "src");

    let all = filter_entries(&entries, "");
    assert_eq!(all.len(), 3);

    let none = filter_entries(&entries, "zzz");
    assert_eq!(none.len(), 0);
}
