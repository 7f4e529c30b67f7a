//! A directory entry: a file, a directory, or a symbolic link.

use vstd::prelude::*;

use crate::strutil::{has_substring, str_contains};

verus! {

/// The mathematical value of an entry: its kind and its name, and for a
/// symbolic link also its target.
pub ghost enum EntryV {
    File { name: Seq<char> },
    Directory { name: Seq<char> },
    Symlink { name: Seq<char>, link: Seq<char> },
}

/// A symbolic link and the path it points to.
#[derive(Debug)]
pub struct Symlink {
    pub name: String,
    pub link: String,
}

/// One entry of a directory listing.
#[derive(Debug)]
pub enum Entry {
    File(String),
    Directory(String),
    Symlink(Symlink),
}

impl View for Entry {
    type V = EntryV;

    open spec fn view(&self) -> EntryV {
        match self {
            Entry::File(name) => EntryV::File { name: name@ },
            Entry::Directory(name) => EntryV::Directory { name: name@ },
            Entry::Symlink(s) => EntryV::Symlink { name: s.name@, link: s.link@ },
        }
    }
}

impl DeepView for Entry {
    type V = EntryV;

    open spec fn deep_view(&self) -> EntryV {
        self.view()
    }
}

impl Clone for Symlink {
    fn clone(&self) -> (r: Self)
        ensures
            r.name@ == self.name@,
            r.link@ == self.link@,
    {
        Symlink { name: self.name.clone(), link: self.link.clone() }
    }
}

impl Clone for Entry {
    fn clone(&self) -> (r: Self)
        ensures
            r@ == self@,
    {
        match self {
            Entry::File(name) => Entry::File(name.clone()),
            Entry::Directory(name) => Entry::Directory(name.clone()),
            Entry::Symlink(s) => Entry::Symlink(s.clone()),
        }
    }
}

/// An entry's name, whatever its kind.
pub open spec fn ev_name(e: EntryV) -> Seq<char> {
    match e {
        EntryV::File { name } => name,
        EntryV::Directory { name } => name,
        EntryV::Symlink { name, link } => name,
    }
}

/// An entry's name, whatever its kind.
pub fn entry_name(e: &Entry) -> (r: &String)
    ensures
        r@ == ev_name(e@),
{
    match e {
        Entry::File(name) => name,
        Entry::Directory(name) => name,
        Entry::Symlink(s) => &s.name,
    }
}

/// The entries whose name contains the filter text, in their original
/// order.
pub fn filter_entries(entries: &Vec<Entry>, filter: &str) -> (r: Vec<Entry>)
    ensures
        r.deep_view() == entries.deep_view().filter(
            |ev: EntryV| has_substring(ev_name(ev), filter@),
        ),
{
    let ghost pred = |ev: EntryV| has_substring(ev_name(ev), filter@);
    let ghost dv = entries.deep_view();
    let mut r: Vec<Entry> = Vec::new();
    let mut i: usize = 0;
    proof {
        reveal(Seq::filter);
        assert(dv.take(0) =~= Seq::<EntryV>::empty());
        assert(r.deep_view() =~= dv.take(0).filter(pred));
    }
    #[verifier::loop_isolation(false)]
    while i < entries.len()
        invariant
            i <= entries.len(),
            r.deep_view() == dv.take(i as int).filter(pred),
        decreases entries.len() - i,
    {
        let ghost r0 = r.deep_view();
        proof {
            reveal(Seq::filter);
            assert(dv.take(i as int + 1).drop_last() =~= dv.take(i as int));
            assert(dv.take(i as int + 1).last() == dv[i as int]);
            assert(entries@[i as int].deep_view() == dv[i as int]);
        }
        if str_contains(entry_name(&entries[i]).as_str(), filter) {
            r.push(entries[i].clone());
            proof {
                reveal(Seq::filter);
                assert(r.deep_view() =~= r0.push(dv[i as int]));
                assert(r.deep_view() =~= dv.take(i as int + 1).filter(pred));
            }
        } else {
            proof {
                reveal(Seq::filter);
                assert(r.deep_view() =~= dv.take(i as int + 1).filter(pred));
            }
        }
        i = i + 1;
    }
    proof {
        assert(dv.take(entries.len() as int) =~= dv);
    }
    r
}

} // verus!
