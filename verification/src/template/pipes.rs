//! The built-in pipes and the pipe registry.
//!
//! A pipe is a pure text transform applied to a placeholder's resolved
//! value; pipes are addressed by name in a registry that is built once per
//! generation run and never changes afterwards.

use vstd::prelude::*;

use crate::strutil::{char_uppercase, push_char, split_char, split_on, str_eq, upper_char};

verus! {

/// The closed set of text transforms a registry can map a name to.
#[derive(Clone, Copy, Debug)]
pub enum Pipe {
    CapitalizeOnce,
    CapitalizeAll,
}

/// `capitalize_once` on views: the first character uppercased, the rest kept.
pub open spec fn cap_once(s: Seq<char>) -> Seq<char> {
    if s.len() == 0 {
        s
    } else {
        seq![upper_char(s[0])] + s.drop_first()
    }
}

/// The first `k` segments, concatenated.
pub open spec fn concat_prefix(segs: Seq<Seq<char>>, k: int) -> Seq<char>
    decreases k,
{
    if k <= 0 {
        Seq::<char>::empty()
    } else {
        concat_prefix(segs, k - 1) + segs[k - 1]
    }
}

/// `capitalize_all` on views: split on the separator, capitalize every
/// segment, and concatenate the segments back with the separators dropped.
pub open spec fn cap_all(s: Seq<char>, sep: char) -> Seq<char> {
    let capped = split_on(s, sep).map_values(|seg: Seq<char>| cap_once(seg));
    concat_prefix(capped, capped.len() as int)
}

/// What a pipe computes, on views.
pub open spec fn spec_apply_pipe(p: Pipe, v: Seq<char>) -> Seq<char> {
    match p {
        Pipe::CapitalizeOnce => cap_once(v),
        Pipe::CapitalizeAll => cap_all(v, '-'),
    }
}

/// Uppercases the first character of the input; an empty input is returned
/// unchanged, and every other character passes through unchanged. On an
/// ASCII lowercase first letter the result's first character is the
/// corresponding uppercase letter.
pub fn capitalize_once(slice: &str) -> (r: String)
    ensures
        r@ == cap_once(slice@),
        slice@.len() > 0 && ('a' as u32) <= (slice@[0] as u32) && (slice@[0] as u32) <= ('z'
            as u32) ==> r@[0] == ((((slice@[0] as u32) - 32) as u8) as char),
{
    let n = slice.unicode_len();
    if n == 0 {
        let r = String::new();
        proof {
            assert(r@ =~= cap_once(slice@));
        }
        r
    } else {
        let first = char_uppercase(slice.get_char(0));
        let mut out = String::new();
        push_char(&mut out, first);
        out.append(slice.substring_char(1, n));
        proof {
            assert(out@ =~= cap_once(slice@));
        }
        out
    }
}

/// Splits the input on `separator`, applies `capitalize_once` to every
/// segment, and concatenates the segments with no separator re-inserted.
pub fn capitalize_all(slice: &str, separator: char) -> (r: String)
    ensures
        r@ == cap_all(slice@, separator),
{
    let segs = split_char(slice, separator);
    let ghost capped = split_on(slice@, separator).map_values(|seg: Seq<char>| cap_once(seg));
    let mut out = String::new();
    let mut i: usize = 0;
    while i < segs.len()
        invariant
            segs.deep_view() == split_on(slice@, separator),
            capped == split_on(slice@, separator).map_values(|seg: Seq<char>| cap_once(seg)),
            i <= segs.len(),
            out@ == concat_prefix(capped, i as int),
        decreases segs.len() - i,
    {
        let capitalized = capitalize_once(segs[i].as_str());
        out.append(capitalized.as_str());
        i = i + 1;
    }
    out
}

/// Applies one pipe to a value.
pub fn apply_pipe(p: Pipe, value: &str) -> (r: String)
    ensures
        r@ == spec_apply_pipe(p, value@),
{
    match p {
        Pipe::CapitalizeOnce => capitalize_once(value),
        Pipe::CapitalizeAll => capitalize_all(value, '-'),
    }
}

/// The name-to-pipe mapping of the pairs, later entries overriding earlier
/// ones, as a `HashMap` filled in the same order would resolve them.
pub closed spec fn pipes_assoc(pairs: Seq<(String, Pipe)>) -> Map<Seq<char>, Pipe>
    decreases pairs.len(),
{
    if pairs.len() == 0 {
        Map::<Seq<char>, Pipe>::empty()
    } else {
        pipes_assoc(pairs.drop_last()).insert(pairs.last().0@, pairs.last().1)
    }
}

/// The pipe registry: an immutable-once-built mapping from names to pipes,
/// looked up by exact name match.
pub struct PipesMap {
    pairs: Vec<(String, Pipe)>,
}

impl View for PipesMap {
    type V = Map<Seq<char>, Pipe>;

    closed spec fn view(&self) -> Map<Seq<char>, Pipe> {
        pipes_assoc(self.pairs@)
    }
}

/// The registry every generation run starts from: the two built-in pipes
/// under their canonical names.
pub open spec fn default_pipes() -> Map<Seq<char>, Pipe> {
    Map::<Seq<char>, Pipe>::empty().insert("capitalize_once"@, Pipe::CapitalizeOnce).insert(
        "capitalize_all"@,
        Pipe::CapitalizeAll,
    )
}

proof fn lemma_pipes_assoc_found(pairs: Seq<(String, Pipe)>, name: Seq<char>, i: int)
    requires
        0 <= i < pairs.len(),
        pairs[i].0@ == name,
        forall|j: int| i < j < pairs.len() ==> pairs[j].0@ != name,
    ensures
        pipes_assoc(pairs).contains_key(name),
        pipes_assoc(pairs)[name] == pairs[i].1,
    decreases pairs.len(),
{
    if i + 1 < pairs.len() {
        lemma_pipes_assoc_found(pairs.drop_last(), name, i);
    }
}

proof fn lemma_pipes_assoc_absent(pairs: Seq<(String, Pipe)>, name: Seq<char>)
    requires
        forall|j: int| 0 <= j < pairs.len() ==> pairs[j].0@ != name,
    ensures
        !pipes_assoc(pairs).contains_key(name),
    decreases pairs.len(),
{
    if pairs.len() > 0 {
        lemma_pipes_assoc_absent(pairs.drop_last(), name);
    }
}

impl PipesMap {
    /// An empty registry.
    pub fn new() -> (r: Self)
        ensures
            r@ == Map::<Seq<char>, Pipe>::empty(),
    {
        PipesMap { pairs: Vec::new() }
    }

    /// Registers a pipe under a name; a later registration of the same name
    /// replaces the earlier one.
    pub fn insert(&mut self, name: String, pipe: Pipe)
        ensures
            final(self)@ == old(self)@.insert(name@, pipe),
    {
        let ghost before = self.pairs@;
        self.pairs.push((name, pipe));
        proof {
            assert(self.pairs@.drop_last() =~= before);
        }
    }

    /// Looks a pipe up by exact name match.
    pub fn get(&self, name: &str) -> (r: Option<Pipe>)
        ensures
            match r {
                Some(p) => self@.contains_key(name@) && self@[name@] == p,
                None => !self@.contains_key(name@),
            },
    {
        let mut i: usize = self.pairs.len();
        while i > 0
            invariant
                i <= self.pairs.len(),
                forall|j: int| i <= j < self.pairs.len() ==> self.pairs@[j].0@ != name@,
            decreases i,
        {
            i = i - 1;
            if str_eq(self.pairs[i].0.as_str(), name) {
                proof {
                    lemma_pipes_assoc_found(self.pairs@, name@, i as int);
                }
                return Some(self.pairs[i].1);
            }
        }
        proof {
            lemma_pipes_assoc_absent(self.pairs@, name@);
        }
        None
    }

    /// The registry with the two built-in pipes registered.
    pub fn with_defaults() -> (r: Self)
        ensures
            r@ == default_pipes(),
    {
        let mut pipes = PipesMap::new();
        pipes.insert("capitalize_once".to_owned(), Pipe::CapitalizeOnce);
        pipes.insert("capitalize_all".to_owned(), Pipe::CapitalizeAll);
        pipes
    }
}

} // verus!
