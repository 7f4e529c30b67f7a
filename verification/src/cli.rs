//! The command-line surface, as plain data: the argument-parser layer
//! around it fills these in and hands them over.

use vstd::prelude::*;

verus! {

/// The whole invocation.
#[derive(Debug)]
pub struct Cli {
    pub commands: Commands,
}

/// The operation asked for.
#[derive(Debug)]
pub enum Commands {
    /// Print the executable's path.
    Path,
    /// Generate from a template.
    Generate(GenerateCommand),
    /// List the templates of the current configuration.
    List,
}

/// The arguments of a generation.
#[derive(Debug)]
pub struct GenerateCommand {
    /// Template name to generate from.
    pub template: String,
    /// Path to generate at.
    pub path: Option<String>,
    /// Additional `key=value` parameters for the template output.
    pub params: Vec<(String, String)>,
}

/// The position of the first occurrence of `c`, if any.
pub open spec fn first_index_of(s: Seq<char>, c: char) -> Option<int>
    decreases s.len(),
{
    if s.len() == 0 {
        None
    } else if s[0] == c {
        Some(0int)
    } else {
        match first_index_of(s.drop_first(), c) {
            Some(i) => Some(i + 1),
            None => None,
        }
    }
}

proof fn lemma_first_index_found(s: Seq<char>, c: char, k: int)
    requires
        0 <= k < s.len(),
        s[k] == c,
        forall|j: int| 0 <= j < k ==> s[j] != c,
    ensures
        first_index_of(s, c) == Some(k),
    decreases k,
{
    if k > 0 {
        lemma_first_index_found(s.drop_first(), c, k - 1);
    }
}

proof fn lemma_first_index_absent(s: Seq<char>, c: char)
    requires
        forall|j: int| 0 <= j < s.len() ==> s[j] != c,
    ensures
        first_index_of(s, c) is None,
    decreases s.len(),
{
    if s.len() > 0 {
        lemma_first_index_absent(s.drop_first(), c);
    }
}

/// Splits a `key=value` argument at its first `=`; `None` without one.
pub fn parse_key_val(s: &str) -> (r: Option<(String, String)>)
    ensures
        match first_index_of(s@, '=') {
            Some(pos) => r is Some && (r->0).0@ == s@.subrange(0, pos) && (r->0).1@
                == s@.subrange(pos + 1, s@.len() as int),
            None => r is None,
        },
{
    let n = s.unicode_len();
    let mut i: usize = 0;
    while i < n
        invariant
            i <= n,
            n == s@.len(),
            forall|j: int| 0 <= j < i ==> s@[j] != '=',
        decreases n - i,
    {
        if s.get_char(i) == '=' {
            proof {
                lemma_first_index_found(s@, '=', i as int);
            }
            let key = s.substring_char(0, i).to_owned();
            let value = s.substring_char(i + 1, n).to_owned();
            return Some((key, value));
        }
        i = i + 1;
    }
    proof {
        lemma_first_index_absent(s@, '=');
    }
    None
}

} // verus!
