//! Variable bindings: the case-sensitive name-to-value mapping that a
//! generation run reads and never mutates while it walks the template.
//!
//! The map is kept as a list of pairs in insertion order, viewed as a
//! mathematical map in which a later insertion of a key replaces an earlier
//! one, exactly as a hash map filled in the same order would resolve it.

use vstd::prelude::*;

use crate::strutil::str_eq;
use crate::traits::append::Append;

verus! {

/// The mapping of the pairs, later entries overriding earlier ones.
pub closed spec fn bindings_assoc(pairs: Seq<(String, String)>) -> Map<Seq<char>, Seq<char>>
    decreases pairs.len(),
{
    if pairs.len() == 0 {
        Map::<Seq<char>, Seq<char>>::empty()
    } else {
        bindings_assoc(pairs.drop_last()).insert(pairs.last().0@, pairs.last().1@)
    }
}

/// A mapping from variable names to values, both case-sensitive strings.
#[derive(Debug)]
pub struct Bindings {
    pairs: Vec<(String, String)>,
}

impl View for Bindings {
    type V = Map<Seq<char>, Seq<char>>;

    closed spec fn view(&self) -> Map<Seq<char>, Seq<char>> {
        bindings_assoc(self.pairs@)
    }
}

proof fn lemma_bindings_assoc_found(pairs: Seq<(String, String)>, name: Seq<char>, i: int)
    requires
        0 <= i < pairs.len(),
        pairs[i].0@ == name,
        forall|j: int| i < j < pairs.len() ==> pairs[j].0@ != name,
    ensures
        bindings_assoc(pairs).contains_key(name),
        bindings_assoc(pairs)[name] == pairs[i].1@,
    decreases pairs.len(),
{
    if i + 1 < pairs.len() {
        lemma_bindings_assoc_found(pairs.drop_last(), name, i);
    }
}

proof fn lemma_bindings_assoc_absent(pairs: Seq<(String, String)>, name: Seq<char>)
    requires
        forall|j: int| 0 <= j < pairs.len() ==> pairs[j].0@ != name,
    ensures
        !bindings_assoc(pairs).contains_key(name),
    decreases pairs.len(),
{
    if pairs.len() > 0 {
        lemma_bindings_assoc_absent(pairs.drop_last(), name);
    }
}

/// Concatenating pair lists merges their maps, the right one winning.
proof fn lemma_bindings_assoc_concat(a: Seq<(String, String)>, b: Seq<(String, String)>)
    ensures
        bindings_assoc(a + b) == bindings_assoc(a).union_prefer_right(bindings_assoc(b)),
    decreases b.len(),
{
    if b.len() == 0 {
        assert(a + b =~= a);
        assert(bindings_assoc(a).union_prefer_right(Map::<Seq<char>, Seq<char>>::empty())
            =~= bindings_assoc(a));
    } else {
        lemma_bindings_assoc_concat(a, b.drop_last());
        assert((a + b).drop_last() =~= a + b.drop_last());
        assert((a + b).last() == b.last());
        assert(bindings_assoc(a).union_prefer_right(bindings_assoc(b.drop_last())).insert(
            b.last().0@,
            b.last().1@,
        ) =~= bindings_assoc(a).union_prefer_right(
            bindings_assoc(b.drop_last()).insert(b.last().0@, b.last().1@),
        ));
    }
}

impl Bindings {
    /// An empty mapping.
    pub fn new() -> (r: Self)
        ensures
            r@ == Map::<Seq<char>, Seq<char>>::empty(),
    {
        Bindings { pairs: Vec::new() }
    }

    /// Binds a value to a name, replacing any earlier binding of the name.
    pub fn insert(&mut self, name: String, value: String)
        ensures
            final(self)@ == old(self)@.insert(name@, value@),
    {
        let ghost before = self.pairs@;
        self.pairs.push((name, value));
        proof {
            assert(self.pairs@.drop_last() =~= before);
        }
    }

    /// Looks a name up; `None` exactly when the name is unbound.
    pub fn get(&self, name: &str) -> (r: Option<&String>)
        ensures
            match r {
                Some(v) => self@.contains_key(name@) && self@[name@] == v@,
                None => !self@.contains_key(name@),
            },
    {
        let mut i: usize = self.pairs.len();
        while i > 0
            invariant
                i <= self.pairs.len(),
                forall|j: int| i <= j < self.pairs.len() ==> self.pairs@[j].0@ != name@,
            decreases i,
        {
            i = i - 1;
            if str_eq(self.pairs[i].0.as_str(), name) {
                proof {
                    lemma_bindings_assoc_found(self.pairs@, name@, i as int);
                }
                return Some(&self.pairs[i].1);
            }
        }
        proof {
            lemma_bindings_assoc_absent(self.pairs@, name@);
        }
        None
    }

    /// Whether the name is bound.
    pub fn contains_key(&self, name: &str) -> (r: bool)
        ensures
            r == self@.contains_key(name@),
    {
        self.get(name).is_some()
    }

    /// Merges another mapping into this one; on names bound in both, the
    /// other mapping's value wins.
    pub fn append_all(&mut self, appended: Bindings)
        ensures
            final(self)@ == old(self)@.union_prefer_right(appended@),
    {
        let ghost sp = self.pairs@;
        let ghost ap = appended.pairs@;
        let mut other = appended;
        self.pairs.append(&mut other.pairs);
        proof {
            lemma_bindings_assoc_concat(sp, ap);
        }
    }
}

impl Append for Bindings {
    fn append(&mut self, appended: Self) {
        self.append_all(appended);
    }
}

} // verus!
