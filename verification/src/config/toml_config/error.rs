//! Errors of configuration resolution.

use vstd::prelude::*;

verus! {

/// Why the configuration files yielded no usable configuration.
#[derive(Debug)]
pub enum TomlConfigError {
    /// No configuration file was readable at any of the candidate paths.
    NotFoundIn(NotFoundIn),
    /// A configuration file's text could not be parsed; carries the
    /// parser's message.
    Unparseable(String),
    /// The merged configuration lacks a required field; carries its name.
    MissingField(String),
}

/// The candidate paths at which no configuration file was readable.
#[derive(Debug)]
pub struct NotFoundIn(pub Vec<String>);

/// The first `k` of the paths, joined with ` or` line breaks.
pub open spec fn spec_paths_joined(ps: Seq<Seq<char>>, k: int) -> Seq<char>
    decreases k,
{
    if k <= 0 {
        Seq::<char>::empty()
    } else if k == 1 {
        ps[0]
    } else {
        spec_paths_joined(ps, k - 1) + " or\n"@ + ps[k - 1]
    }
}

impl NotFoundIn {
    /// The human-readable report: the candidate paths, one per line.
    pub fn message(&self) -> (r: String)
        ensures
            r@ == "Toml config not found in:\n"@ + spec_paths_joined(
                self.0.deep_view(),
                self.0.deep_view().len() as int,
            ),
    {
        let ghost dv = self.0.deep_view();
        let mut r = "Toml config not found in:\n".to_owned();
        let mut i: usize = 0;
        proof {
            assert(r@ =~= "Toml config not found in:\n"@ + spec_paths_joined(dv, 0));
        }
        #[verifier::loop_isolation(false)]
        while i < self.0.len()
            invariant
                i <= self.0.len(),
                r@ == "Toml config not found in:\n"@ + spec_paths_joined(dv, i as int),
            decreases self.0.len() - i,
        {
            if i > 0 {
                r.append(" or\n");
            }
            r.append(self.0[i].as_str());
            proof {
                assert(dv[i as int] == self.0@[i as int]@);
                assert(r@ =~= "Toml config not found in:\n"@ + spec_paths_joined(
                    dv,
                    i as int + 1,
                ));
            }
            i = i + 1;
        }
        r
    }
}

} // verus!
