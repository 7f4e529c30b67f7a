//! Character-level helpers shared by the substitution engine and the pipes:
//! equality, substring search, splitting on a separator character, and the
//! two small trusted bridges to `std`'s string primitives.

use vstd::prelude::*;

verus! {

/// The first character yielded by `char::to_uppercase`; the mapping depends
/// on the character alone, so it is only given a name here.
pub uninterp spec fn upper_char(c: char) -> char;

/// Relies on `char::to_uppercase`: its iterator always yields at least one
/// character, and the mapping is a function of the character alone; the
/// first yielded character is named `upper_char`. On the ASCII lowercase
/// letters the mapping is the documented shift to the uppercase letters.
#[verifier::external_body]
pub fn char_uppercase(c: char) -> (r: char)
    ensures
        r == upper_char(c),
        ('a' as u32) <= (c as u32) && (c as u32) <= ('z' as u32) ==> r == ((((c as u32) - 32)
            as u8) as char),
{
    c.to_uppercase().next().unwrap_or(c)
}

/// Relies on `String::push`: appends exactly the given character.
#[verifier::external_body]
pub fn push_char(s: &mut String, c: char)
    ensures
        final(s)@ == old(s)@.push(c),
{
    s.push(c);
}

/// Character-wise string equality, equivalent to equality of the views.
pub fn str_eq(a: &str, b: &str) -> (r: bool)
    ensures
        r == (a@ == b@),
{
    let an = a.unicode_len();
    let bn = b.unicode_len();
    if an != bn {
        return false;
    }
    let mut i: usize = 0;
    while i < an
        invariant
            i <= an,
            an == a@.len(),
            an == b@.len(),
            forall|j: int| 0 <= j < i ==> a@[j] == b@[j],
        decreases an - i,
    {
        if a.get_char(i) != b.get_char(i) {
            return false;
        }
        i = i + 1;
    }
    proof {
        assert(a@ =~= b@);
    }
    true
}

/// `needle` occurs in `hay` starting at position `i`.
pub open spec fn contains_at(hay: Seq<char>, needle: Seq<char>, i: int) -> bool {
    0 <= i && i + needle.len() <= hay.len() && hay.subrange(i, i + needle.len() as int) == needle
}

/// `needle` occurs somewhere in `hay`.
pub open spec fn has_substring(hay: Seq<char>, needle: Seq<char>) -> bool {
    exists|i: int| contains_at(hay, needle, i)
}

/// Substring search, equivalent to `has_substring` on the views.
pub fn str_contains(hay: &str, needle: &str) -> (r: bool)
    ensures
        r == has_substring(hay@, needle@),
{
    let hn = hay.unicode_len();
    let nn = needle.unicode_len();
    if nn > hn {
        return false;
    }
    let bound = hn - nn;
    let mut i: usize = 0;
    while i < bound
        invariant
            nn <= hn,
            bound == hn - nn,
            hn == hay@.len(),
            nn == needle@.len(),
            i <= bound,
            forall|j: int| 0 <= j < i ==> !contains_at(hay@, needle@, j),
        decreases bound - i,
    {
        if str_eq(hay.substring_char(i, i + nn), needle) {
            proof {
                assert(contains_at(hay@, needle@, i as int));
            }
            return true;
        }
        i = i + 1;
    }
    if str_eq(hay.substring_char(bound, bound + nn), needle) {
        proof {
            assert(contains_at(hay@, needle@, bound as int));
        }
        true
    } else {
        proof {
            assert forall|j: int| !contains_at(hay@, needle@, j) by {
                if 0 <= j <= bound {
                } else {
                }
            }
        }
        false
    }
}

/// Splitting a character sequence on a separator: the separator characters
/// are dropped, and `n` separators yield `n + 1` (possibly empty) segments.
pub open spec fn split_on(s: Seq<char>, sep: char) -> Seq<Seq<char>>
    decreases s.len(),
{
    if s.len() == 0 {
        seq![Seq::<char>::empty()]
    } else if s[0] == sep {
        seq![Seq::<char>::empty()] + split_on(s.drop_first(), sep)
    } else {
        let rest = split_on(s.drop_first(), sep);
        seq![seq![s[0]] + rest[0]] + rest.drop_first()
    }
}

/// A sequence without the separator splits into itself as the only segment.
pub proof fn lemma_split_on_absent(s: Seq<char>, sep: char)
    requires
        forall|i: int| 0 <= i < s.len() ==> s[i] != sep,
    ensures
        split_on(s, sep) =~~= seq![s],
    decreases s.len(),
{
    if s.len() == 0 {
        assert(split_on(s, sep) =~~= seq![s]);
    } else {
        lemma_split_on_absent(s.drop_first(), sep);
        assert(seq![s[0]] + s.drop_first() =~= s);
    }
}

/// Splitting on a separator character, e.g. `"a-b"` on `'-'` into `["a", "b"]`.
pub fn split_char(s: &str, sep: char) -> (r: Vec<String>)
    ensures
        r.deep_view() == split_on(s@, sep),
        r.len() >= 1,
    decreases s@.len(),
{
    let n = s.unicode_len();
    if n == 0 {
        let mut r: Vec<String> = Vec::new();
        r.push(String::new());
        proof {
            assert(r.deep_view() =~~= split_on(s@, sep));
        }
        r
    } else {
        let c = s.get_char(0);
        let rest = s.substring_char(1, n);
        proof {
            assert(rest@ =~= s@.drop_first());
        }
        if c == sep {
            let mut r = split_char(rest, sep);
            r.insert(0, String::new());
            proof {
                assert(r.deep_view() =~~= split_on(s@, sep));
            }
            r
        } else {
            let mut r = split_char(rest, sep);
            let seg0 = r.remove(0);
            let mut first = String::new();
            push_char(&mut first, c);
            first.append(seg0.as_str());
            r.insert(0, first);
            proof {
                assert(first@ =~= seq![s@[0]] + split_on(s@.drop_first(), sep)[0]);
                assert(r.deep_view() =~~= split_on(s@, sep));
            }
            r
        }
    }
}

} // verus!
