//! Resolution of the TOML configuration.
//!
//! The caller reads each candidate configuration file and parses it into a
//! [`PartialTomlConfig`]; resolution here merges the partial configurations
//! in order — for each field, the last file that sets it wins — and then
//! checks that the merge is complete.

pub mod error;

use vstd::prelude::*;

use crate::bindings::Bindings;
use crate::config::toml_config::error::{NotFoundIn, TomlConfigError};

verus! {

/// What one configuration file contributed: each field is optional.
#[derive(Debug)]
pub struct PartialTomlConfig {
    pub templates_path: Option<String>,
    pub variables: Option<Bindings>,
}

/// The resolved configuration: where the templates live, and the default
/// variable bindings.
#[derive(Debug)]
pub struct TomlConfig {
    pub templates_path: String,
    pub variables: Bindings,
}

/// One candidate configuration file: its path, and its parsed content if
/// the file was readable.
#[derive(Debug)]
pub struct ConfigCandidate {
    pub path: String,
    pub config: Option<PartialTomlConfig>,
}

/// Some candidate was readable.
pub open spec fn spec_found_any(cs: Seq<ConfigCandidate>) -> bool {
    exists|i: int| 0 <= i < cs.len() && (#[trigger] cs[i]).config is Some
}

/// The templates path of the merge: the last readable candidate that sets
/// it wins.
pub open spec fn spec_merged_path(cs: Seq<ConfigCandidate>) -> Option<String>
    decreases cs.len(),
{
    if cs.len() == 0 {
        None
    } else {
        let prev = spec_merged_path(cs.drop_last());
        match cs.last().config {
            Some(pc) => if pc.templates_path is Some {
                pc.templates_path
            } else {
                prev
            },
            None => prev,
        }
    }
}

/// The variables of the merge: the last readable candidate that sets them
/// wins.
pub open spec fn spec_merged_vars(cs: Seq<ConfigCandidate>) -> Option<Bindings>
    decreases cs.len(),
{
    if cs.len() == 0 {
        None
    } else {
        let prev = spec_merged_vars(cs.drop_last());
        match cs.last().config {
            Some(pc) => if pc.variables is Some {
                pc.variables
            } else {
                prev
            },
            None => prev,
        }
    }
}

impl TomlConfig {
    /// Completes a merged partial configuration: the templates path is
    /// required, missing variables default to no bindings.
    pub fn try_from(value: PartialTomlConfig) -> (r: Result<Self, TomlConfigError>)
        ensures
            match r {
                Ok(c) => {
                    &&& value.templates_path is Some
                    &&& c.templates_path == value.templates_path->0
                    &&& (value.variables is Some ==> c.variables == value.variables->0)
                    &&& (value.variables is None ==> c.variables@ == Map::<
                        Seq<char>,
                        Seq<char>,
                    >::empty())
                },
                Err(e) => value.templates_path is None && (e matches TomlConfigError::MissingField(
                    f,
                ) && f@ == "templates_path"@),
            },
    {
        let templates_path = match value.templates_path {
            Some(p) => p,
            None => {
                return Err(TomlConfigError::MissingField("templates_path".to_owned()));
            },
        };
        let variables = match value.variables {
            Some(v) => v,
            None => Bindings::new(),
        };
        Ok(TomlConfig { templates_path, variables })
    }

    /// Merges the candidates in order and completes the merge. With no
    /// readable candidate at all, reports the paths that were tried; with
    /// no templates path in any readable candidate, reports the missing
    /// field.
    pub fn try_new(candidates: Vec<ConfigCandidate>) -> (r: Result<Self, TomlConfigError>)
        ensures
            match r {
                Ok(c) => {
                    &&& spec_found_any(candidates@)
                    &&& spec_merged_path(candidates@) is Some
                    &&& c.templates_path == spec_merged_path(candidates@)->0
                    &&& (spec_merged_vars(candidates@) is Some ==> c.variables == spec_merged_vars(
                        candidates@,
                    )->0)
                    &&& (spec_merged_vars(candidates@) is None ==> c.variables@ == Map::<
                        Seq<char>,
                        Seq<char>,
                    >::empty())
                },
                Err(TomlConfigError::NotFoundIn(nf)) => !spec_found_any(candidates@)
                    && nf.0.deep_view() == candidates@.map_values(|c: ConfigCandidate| c.path@),
                Err(TomlConfigError::MissingField(f)) => spec_found_any(candidates@)
                    && spec_merged_path(candidates@) is None && f@ == "templates_path"@,
                Err(TomlConfigError::Unparseable(_)) => false,
            },
    {
        let ghost all = candidates@;
        let mut cands = candidates;
        let mut base_path: Option<String> = None;
        let mut base_vars: Option<Bindings> = None;
        let mut found_any = false;
        let mut paths: Vec<String> = Vec::new();
        let ghost k: int = 0;
        proof {
            assert(cands@ =~= all.skip(0));
            assert(all.take(0) =~= Seq::<ConfigCandidate>::empty());
            assert(paths.deep_view() =~= all.take(0).map_values(|c: ConfigCandidate| c.path@));
        }
        #[verifier::loop_isolation(false)]
        while cands.len() > 0
            invariant
                0 <= k <= all.len(),
                cands@ == all.skip(k),
                base_path == spec_merged_path(all.take(k)),
                base_vars == spec_merged_vars(all.take(k)),
                found_any == spec_found_any(all.take(k)),
                paths.deep_view() == all.take(k).map_values(|c: ConfigCandidate| c.path@),
            decreases cands.len(),
        {
            let ghost paths0 = paths.deep_view();
            let c = cands.remove(0);
            proof {
                assert(c == all[k]);
                assert(cands@ =~= all.skip(k + 1));
                assert(all.take(k + 1).drop_last() =~= all.take(k));
                assert(all.take(k + 1).last() == all[k]);
            }
            paths.push(c.path.clone());
            proof {
                assert(paths.deep_view() =~= paths0.push(c.path@));
                assert forall|j: int| 0 <= j < k + 1 implies paths0.push(c.path@)[j] == all.take(
                    k + 1,
                ).map_values(|c: ConfigCandidate| c.path@)[j] by {
                    if j < k {
                        assert(paths0[j] == all.take(k).map_values(
                            |c: ConfigCandidate| c.path@,
                        )[j]);
                        assert(all.take(k)[j] == all.take(k + 1)[j]);
                    }
                }
                assert(paths.deep_view() =~= all.take(k + 1).map_values(
                    |c: ConfigCandidate| c.path@,
                ));
            }
            match c.config {
                Some(pc) => {
                    if pc.templates_path.is_some() {
                        base_path = pc.templates_path;
                    }
                    if pc.variables.is_some() {
                        base_vars = pc.variables;
                    }
                    found_any = true;
                },
                None => {
                },
            }
            proof {
                if found_any {
                    assert(spec_found_any(all.take(k + 1)));
                } else {
                    assert forall|i: int|
                        0 <= i < all.take(k + 1).len() implies !((#[trigger] all.take(k + 1)[i]).config
                        is Some) by {
                        if i < k {
                            assert(all.take(k + 1)[i] == all.take(k)[i]);
                        } else {
                            assert(all.take(k + 1)[i] == all[k]);
                        }
                    }
                }
                k = k + 1;
            }
        }
        proof {
            assert(all.take(all.len() as int) =~= all);
        }
        if !found_any {
            return Err(TomlConfigError::NotFoundIn(NotFoundIn(paths)));
        }
        Self::try_from(PartialTomlConfig { templates_path: base_path, variables: base_vars })
    }
}

} // verus!
