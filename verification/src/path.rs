//! Path handling on plain `/`-separated path strings.
//!
//! Paths run through the generator as strings: the final segment of the
//! output path names the generated artifact, the rest is the directory the
//! files land in. The model here is deliberately simple and documented by
//! the spec functions: trailing separators are ignored, a final segment of
//! `.` or `..` does not name an artifact, and joining inserts a separator
//! only where one is missing.

use vstd::prelude::*;

use crate::bindings::Bindings;
use crate::strutil::push_char;
use crate::template::parse::error::ParamNotFound;
use crate::template::parse::{parse, parse_result_matches};
use crate::template::pipes::default_pipes;

verus! {

/// The position of the last occurrence of `c`, if any.
pub open spec fn last_index_of(s: Seq<char>, c: char) -> Option<int>
    decreases s.len(),
{
    if s.len() == 0 {
        None
    } else if s.last() == c {
        Some(s.len() - 1)
    } else {
        last_index_of(s.drop_last(), c)
    }
}

proof fn lemma_last_index_found(s: Seq<char>, c: char, k: int)
    requires
        0 <= k < s.len(),
        s[k] == c,
        forall|j: int| k < j < s.len() ==> s[j] != c,
    ensures
        last_index_of(s, c) == Some(k),
    decreases s.len(),
{
    if k + 1 < s.len() {
        lemma_last_index_found(s.drop_last(), c, k);
    }
}

proof fn lemma_last_index_absent(s: Seq<char>, c: char)
    requires
        forall|j: int| 0 <= j < s.len() ==> s[j] != c,
    ensures
        last_index_of(s, c) is None,
    decreases s.len(),
{
    if s.len() > 0 {
        lemma_last_index_absent(s.drop_last(), c);
    }
}

/// The text after the last `.` of a filename, or `None` without a dot.
pub fn get_ext(filename: &str) -> (r: Option<&str>)
    ensures
        match last_index_of(filename@, '.') {
            Some(pos) => r is Some && r->0@ == filename@.subrange(pos + 1, filename@.len() as int),
            None => r is None,
        },
{
    let n = filename.unicode_len();
    let mut i: usize = n;
    while i > 0
        invariant
            i <= n,
            n == filename@.len(),
            forall|j: int| i <= j < n ==> filename@[j] != '.',
        decreases i,
    {
        i = i - 1;
        if filename.get_char(i) == '.' {
            proof {
                lemma_last_index_found(filename@, '.', i as int);
            }
            return Some(filename.substring_char(i + 1, n));
        }
    }
    proof {
        lemma_last_index_absent(filename@, '.');
    }
    None
}

/// Substitutes the placeholders of a whole path string, with the default
/// pipe registry.
pub fn parse_path(path: &str, params: &Bindings) -> (r: Result<String, ParamNotFound>)
    ensures
        parse_result_matches(r, path@, params@, default_pipes()),
{
    parse(path, params)
}

/// The path without its trailing separators.
pub open spec fn strip_trailing_slashes(p: Seq<char>) -> Seq<char>
    decreases p.len(),
{
    if p.len() > 0 && p.last() == '/' {
        strip_trailing_slashes(p.drop_last())
    } else {
        p
    }
}

/// The start of the last segment: the position right after the last
/// separator, on a path without trailing separators.
pub open spec fn last_seg_start(p: Seq<char>) -> int
    decreases p.len(),
{
    if p.len() == 0 || p.last() == '/' {
        p.len() as int
    } else {
        last_seg_start(p.drop_last())
    }
}

/// The final path segment naming an artifact: trailing separators are
/// ignored, and there is none on an empty path or when the last segment is
/// `.` or `..`.
pub open spec fn spec_file_name(p: Seq<char>) -> Option<Seq<char>> {
    let q = strip_trailing_slashes(p);
    if q.len() == 0 {
        None
    } else {
        let seg = q.subrange(last_seg_start(q), q.len() as int);
        if seg == seq!['.'] || seg == seq!['.', '.'] {
            None
        } else {
            Some(seg)
        }
    }
}

/// The path with its final segment removed: separators around the segment
/// are dropped, an absolute path keeps its root, and removing the only
/// segment of a relative path leaves the empty path.
pub open spec fn spec_parent(p: Seq<char>) -> Option<Seq<char>> {
    let q = strip_trailing_slashes(p);
    if q.len() == 0 {
        None
    } else {
        let cut = last_seg_start(q);
        if cut == 0 {
            Some(Seq::<char>::empty())
        } else {
            let pre = strip_trailing_slashes(q.subrange(0, cut));
            if pre.len() == 0 {
                Some(seq!['/'])
            } else {
                Some(pre)
            }
        }
    }
}

/// Joining two paths: a separator is inserted unless the left side is
/// empty or already ends with one.
pub open spec fn spec_join(a: Seq<char>, b: Seq<char>) -> Seq<char> {
    if a.len() == 0 {
        b
    } else if a.last() == '/' {
        a + b
    } else {
        a + seq!['/'] + b
    }
}

/// The final segment of a path, per `spec_file_name`.
pub fn file_name(path: &str) -> (r: Option<String>)
    ensures
        match spec_file_name(path@) {
            Some(seg) => r is Some && r->0@ == seg,
            None => r is None,
        },
{
    let n = path.unicode_len();
    proof {
        assert(path@.subrange(0, n as int) =~= path@);
    }
    let mut e: usize = n;
    while e > 0 && path.get_char(e - 1) == '/'
        invariant
            e <= n,
            n == path@.len(),
            strip_trailing_slashes(path@) == strip_trailing_slashes(
                path@.subrange(0, e as int),
            ),
        decreases e,
    {
        proof {
            assert(path@.subrange(0, e as int).drop_last() =~= path@.subrange(0, e as int - 1));
        }
        e = e - 1;
    }
    proof {
        assert(strip_trailing_slashes(path@) == path@.subrange(0, e as int));
    }
    if e == 0 {
        return None;
    }
    let mut s: usize = e;
    while s > 0 && path.get_char(s - 1) != '/'
        invariant
            s <= e,
            e <= n,
            n == path@.len(),
            last_seg_start(path@.subrange(0, e as int)) == last_seg_start(
                path@.subrange(0, s as int),
            ),
        decreases s,
    {
        proof {
            assert(path@.subrange(0, s as int).drop_last() =~= path@.subrange(0, s as int - 1));
        }
        s = s - 1;
    }
    proof {
        assert(last_seg_start(path@.subrange(0, s as int)) == s as int);
        assert(path@.subrange(0, e as int).subrange(s as int, e as int) =~= path@.subrange(
            s as int,
            e as int,
        ));
    }
    let seg = path.substring_char(s, e);
    proof {
        reveal_strlit(".");
        reveal_strlit("..");
        assert("."@ =~= seq!['.']);
        assert(".."@ =~= seq!['.', '.']);
    }
    if crate::strutil::str_eq(seg, ".") || crate::strutil::str_eq(seg, "..") {
        return None;
    }
    Some(seg.to_owned())
}

/// The parent of a path, per `spec_parent`.
pub fn parent_path(path: &str) -> (r: Option<String>)
    ensures
        match spec_parent(path@) {
            Some(pre) => r is Some && r->0@ == pre,
            None => r is None,
        },
{
    let n = path.unicode_len();
    proof {
        assert(path@.subrange(0, n as int) =~= path@);
    }
    let mut e: usize = n;
    while e > 0 && path.get_char(e - 1) == '/'
        invariant
            e <= n,
            n == path@.len(),
            strip_trailing_slashes(path@) == strip_trailing_slashes(
                path@.subrange(0, e as int),
            ),
        decreases e,
    {
        proof {
            assert(path@.subrange(0, e as int).drop_last() =~= path@.subrange(0, e as int - 1));
        }
        e = e - 1;
    }
    proof {
        assert(strip_trailing_slashes(path@) == path@.subrange(0, e as int));
    }
    if e == 0 {
        return None;
    }
    let mut s: usize = e;
    while s > 0 && path.get_char(s - 1) != '/'
        invariant
            s <= e,
            e <= n,
            n == path@.len(),
            last_seg_start(path@.subrange(0, e as int)) == last_seg_start(
                path@.subrange(0, s as int),
            ),
        decreases s,
    {
        proof {
            assert(path@.subrange(0, s as int).drop_last() =~= path@.subrange(0, s as int - 1));
        }
        s = s - 1;
    }
    proof {
        assert(last_seg_start(path@.subrange(0, s as int)) == s as int);
        assert(path@.subrange(0, e as int).subrange(0, s as int) =~= path@.subrange(0, s as int));
    }
    if s == 0 {
        return Some(String::new());
    }
    let mut e2: usize = s;
    while e2 > 0 && path.get_char(e2 - 1) == '/'
        invariant
            e2 <= s,
            s <= n,
            n == path@.len(),
            strip_trailing_slashes(path@.subrange(0, s as int)) == strip_trailing_slashes(
                path@.subrange(0, e2 as int),
            ),
        decreases e2,
    {
        proof {
            assert(path@.subrange(0, e2 as int).drop_last() =~= path@.subrange(0, e2 as int - 1));
        }
        e2 = e2 - 1;
    }
    proof {
        assert(strip_trailing_slashes(path@.subrange(0, s as int)) == path@.subrange(
            0,
            e2 as int,
        ));
    }
    if e2 == 0 {
        proof {
            reveal_strlit("/");
            assert("/"@ =~= seq!['/']);
        }
        return Some("/".to_owned());
    }
    Some(path.substring_char(0, e2).to_owned())
}

/// Joins two path strings, per `spec_join`.
pub fn join_path(a: &str, b: &str) -> (r: String)
    ensures
        r@ == spec_join(a@, b@),
{
    let n = a.unicode_len();
    if n == 0 {
        b.to_owned()
    } else if a.get_char(n - 1) == '/' {
        let mut r = a.to_owned();
        r.append(b);
        r
    } else {
        let mut r = a.to_owned();
        push_char(&mut r, '/');
        r.append(b);
        proof {
            assert(a@.push('/') =~= a@ + seq!['/']);
        }
        r
    }
}

} // verus!
