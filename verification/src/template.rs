//! Template substitution.
//!
//! The full engine, with pipe chains and positional error spans, lives in
//! [`parse`]; this module additionally offers an early, plain variant of
//! substitution that resolves each placeholder's whole name as a variable,
//! with no pipe handling and no span in its error.

pub mod parse;
pub mod pipes;

use vstd::prelude::*;

use crate::bindings::Bindings;
use crate::template::parse::{
    all_params, lemma_params_from_ok, lemma_prepend_empty, param_ok, params_sorted, prepend_ok,
    ParamsBrowser, SpecParam,
};

verus! {

/// A placeholder named a variable with no binding.
#[derive(Debug)]
pub struct ParamNotFound;

/// Literal text law for the plain variant: a text containing no
/// open/close marker pair substitutes to itself, whatever the bindings.
pub proof fn lemma_literal_identity_simple(s: Seq<char>, vars: Map<Seq<char>, Seq<char>>)
    requires
        crate::template::parse::no_marker_pair(s),
    ensures
        spec_subst_simple(s, vars) == Ok::<Seq<char>, SpecParam>(s),
{
    crate::template::parse::lemma_literal_identity(
        s,
        vars,
        Map::<Seq<char>, crate::template::pipes::Pipe>::empty(),
    );
    assert(s.subrange(0, s.len() as int) =~= s);
}

/// Plain substitution of the placeholders `ps` in `s` from position `i`
/// on: each placeholder's whole name is the variable looked up, and the
/// first placeholder whose name is unbound is the error.
pub open spec fn subst_simple_from(
    s: Seq<char>,
    vars: Map<Seq<char>, Seq<char>>,
    i: int,
    ps: Seq<SpecParam>,
) -> Result<Seq<char>, SpecParam>
    decreases ps.len(),
{
    if ps.len() == 0 {
        Ok(s.subrange(i, s.len() as int))
    } else if !vars.contains_key(ps[0].name(s)) {
        Err(ps[0])
    } else {
        match subst_simple_from(s, vars, ps[0].end, ps.drop_first()) {
            Ok(rest) => Ok(s.subrange(i, ps[0].start) + vars[ps[0].name(s)] + rest),
            Err(e) => Err(e),
        }
    }
}

/// What plain substitution of a whole text yields.
pub open spec fn spec_subst_simple(s: Seq<char>, vars: Map<Seq<char>, Seq<char>>) -> Result<
    Seq<char>,
    SpecParam,
> {
    subst_simple_from(s, vars, 0, all_params(s))
}

/// Substitutes every placeholder of `template` by the value bound to its
/// whole name, with no pipe handling.
pub fn parse(template: &str, params: &Bindings) -> (r: Result<String, ParamNotFound>)
    ensures
        match r {
            Ok(out) => spec_subst_simple(template@, params@) == Ok::<Seq<char>, SpecParam>(out@),
            Err(e) => spec_subst_simple(template@, params@) is Err,
        },
{
    let ghost s = template@;
    let ghost vars = params@;
    let mut parsed = String::new();
    let mut i: usize = 0;
    let mut browser = ParamsBrowser::new(template);
    let n = template.unicode_len();
    proof {
        lemma_params_from_ok(s, 1, None);
        lemma_prepend_empty(subst_simple_from(s, vars, 0, all_params(s)));
    }
    #[verifier::loop_isolation(false)]
    loop
        invariant
            browser.wf(),
            browser.template_view() == s,
            i <= n,
            forall|k: int|
                0 <= k < browser.remaining().len() ==> param_ok(
                    s,
                    #[trigger] browser.remaining()[k],
                ),
            params_sorted(browser.remaining()),
            browser.remaining().len() > 0 ==> i <= browser.remaining()[0].start,
            prepend_ok(parsed@, subst_simple_from(s, vars, i as int, browser.remaining()))
                == spec_subst_simple(s, vars),
        decreases browser.remaining().len(),
    {
        let ghost rem0 = browser.remaining();
        let ghost parsed0 = parsed@;
        let ghost i0 = i as int;
        match browser.next() {
            None => {
                parsed.append(template.substring_char(i, n));
                return Ok(parsed);
            },
            Some(param) => {
                let ghost sp = rem0[0];
                parsed.append(template.substring_char(i, param.start));
                match params.get(param.name.as_str()) {
                    None => {
                        proof {
                            assert(subst_simple_from(s, vars, i0, rem0) == Err::<
                                Seq<char>,
                                SpecParam,
                            >(sp));
                        }
                        return Err(ParamNotFound);
                    },
                    Some(value) => {
                        parsed.append(value.as_str());
                        proof {
                            let rem1 = rem0.drop_first();
                            let tail = subst_simple_from(s, vars, sp.end, rem1);
                            if tail is Ok {
                                let rest = tail->Ok_0;
                                assert(parsed0 + (s.subrange(i0, sp.start) + vars[sp.name(s)]
                                    + rest) =~= parsed@ + rest);
                            }
                            assert forall|k: int| 0 <= k < rem1.len() implies param_ok(
                                s,
                                #[trigger] rem1[k],
                            ) by {
                                assert(rem1[k] == rem0[k + 1]);
                            }
                            assert forall|k: int| 0 <= k && k + 1 < rem1.len() implies (
                            #[trigger] rem1[k]).end <= rem1[k + 1].start by {
                                assert(rem1[k] == rem0[k + 1]);
                                assert(rem1[k + 1] == rem0[k + 2]);
                            }
                            if rem1.len() > 0 {
                                assert(rem1[0] == rem0[1]);
                            }
                        }
                        i = param.end;
                    },
                }
            },
        }
    }
}

} // verus!
