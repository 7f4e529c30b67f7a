//! The substitution engine.
//!
//! A placeholder is delimited by the literal markers `{(` and `)}`. The
//! scanner walks the text once, left to right: an open marker notes the
//! position right after it as the start of a name (a later open marker
//! before any close marker discards the earlier one — only the most recent
//! open marker counts), and a close marker seen while a name is open emits
//! a placeholder spanning from the open marker through the close marker.
//! Dangling open markers at the end of the text are literal text.
//!
//! The engine resolves each placeholder's name — the text before the first
//! `|` is the variable, the following segments are pipe names — and emits
//! the literal text between placeholders unchanged. An unbound variable is
//! an error carrying the placeholder's span; an unregistered pipe name is
//! skipped, passing the value through unchanged (the stricter policy's
//! error type exists in [`error`] for callers that want it).

pub mod error;

use vstd::prelude::*;

use crate::bindings::Bindings;
use crate::strutil::{split_char, split_on};
use crate::template::pipes::{apply_pipe, default_pipes, spec_apply_pipe, Pipe, PipesMap};
use self::error::ParamNotFound;

verus! {

/// A placeholder's position: `[start, end)` spans the markers, and the
/// name is the text of `[name_start, end - 2)`, taken verbatim.
pub ghost struct SpecParam {
    pub start: int,
    pub name_start: int,
    pub end: int,
}

impl SpecParam {
    /// The placeholder's name within the scanned text.
    pub open spec fn name(self, s: Seq<char>) -> Seq<char> {
        s.subrange(self.name_start, self.end - 2)
    }
}

/// The two-character open marker ends at position `p`.
pub open spec fn is_open_at(s: Seq<char>, p: int) -> bool {
    1 <= p < s.len() && s[p - 1] == '{' && s[p] == '('
}

/// The two-character close marker ends at position `p`.
pub open spec fn is_close_at(s: Seq<char>, p: int) -> bool {
    1 <= p < s.len() && s[p - 1] == ')' && s[p] == '}'
}

/// The placeholders found from scan position `p` on, where `p` is the
/// position of the second character of the marker pair under examination
/// and `ns` is the name start noted for the most recent open marker, if one
/// is open.
pub open spec fn params_from(s: Seq<char>, p: int, ns: Option<int>) -> Seq<SpecParam>
    decreases s.len() - p,
{
    if p >= s.len() {
        Seq::<SpecParam>::empty()
    } else if is_open_at(s, p) {
        params_from(s, p + 1, Some(p + 1))
    } else if ns is Some && is_close_at(s, p) {
        seq![SpecParam { start: ns->0 - 2, name_start: ns->0, end: p + 1 }] + params_from(
            s,
            p + 1,
            None,
        )
    } else {
        params_from(s, p + 1, ns)
    }
}

/// All placeholders of a text, in left-to-right order, non-overlapping.
pub open spec fn all_params(s: Seq<char>) -> Seq<SpecParam> {
    params_from(s, 1, None)
}

/// A well-formed intermediate scan state: the noted name start, if any,
/// points right after an open marker no further than the scan position.
pub open spec fn scan_state_ok(s: Seq<char>, p: int, ns: Option<int>) -> bool {
    1 <= p && match ns {
        Some(a) => 2 <= a <= p && a - 1 < s.len() && s[a - 2] == '{' && s[a - 1] == '(',
        None => true,
    }
}

/// No placeholder starts before this position in the given scan state.
pub open spec fn scan_lower(p: int, ns: Option<int>) -> int {
    match ns {
        Some(a) => a - 2,
        None => p - 1,
    }
}

/// A placeholder's span lies within the text, markers included.
pub open spec fn param_ok(s: Seq<char>, q: SpecParam) -> bool {
    q.name_start == q.start + 2 && 0 <= q.start && q.start + 4 <= q.end && q.end <= s.len()
}

/// Placeholders are emitted in order and do not overlap.
pub open spec fn params_sorted(ps: Seq<SpecParam>) -> bool {
    forall|k: int| 0 <= k && k + 1 < ps.len() ==> (#[trigger] ps[k]).end <= ps[k + 1].start
}

/// From a well-formed scan state, every emitted placeholder has a valid
/// span, the placeholders are sorted, and none starts before the scan
/// position allows.
pub proof fn lemma_params_from_ok(s: Seq<char>, p: int, ns: Option<int>)
    requires
        scan_state_ok(s, p, ns),
    ensures
        forall|k: int|
            0 <= k < params_from(s, p, ns).len() ==> param_ok(s, #[trigger] params_from(s, p, ns)[k]),
        params_sorted(params_from(s, p, ns)),
        params_from(s, p, ns).len() > 0 ==> params_from(s, p, ns)[0].start >= scan_lower(p, ns),
    decreases s.len() - p,
{
    let ps = params_from(s, p, ns);
    if p >= s.len() {
    } else if is_open_at(s, p) {
        lemma_params_from_ok(s, p + 1, Some(p + 1));
    } else if ns is Some && is_close_at(s, p) {
        let a = ns->0;
        let q = SpecParam { start: a - 2, name_start: a, end: p + 1 };
        let rest = params_from(s, p + 1, None);
        assert(ps == seq![q] + rest);
        assert(ps.len() == 1 + rest.len());
        lemma_params_from_ok(s, p + 1, None);
        if p + 1 < s.len() {
            assert(!is_open_at(s, p + 1));
            assert(rest == params_from(s, p + 2, None));
            lemma_params_from_ok(s, p + 2, None);
        }
        assert(a < p);
        assert forall|k: int| 0 <= k < ps.len() implies param_ok(s, #[trigger] ps[k]) by {
            if k > 0 {
                assert(ps[k] == (seq![q] + rest)[k]);
                assert(ps[k] == rest[k - 1]);
            }
        }
        assert forall|k: int| 0 <= k && k + 1 < ps.len() implies (#[trigger] ps[k]).end <= ps[k
            + 1].start by {
            assert(seq![q].len() == 1);
            assert(0 <= k < rest.len());
            assert((seq![q] + rest)[k + 1] == rest[k + 1 - 1]);
            assert(ps[k + 1] == rest[k]);
            if k > 0 {
                assert(ps[k] == (seq![q] + rest)[k]);
                assert(ps[k] == rest[k - 1]);
            } else {
                assert(rest.len() > 0);
                assert(rest[0].start >= p + 1);
            }
        }
    } else {
        lemma_params_from_ok(s, p + 1, ns);
    }
}

/// One placeholder occurrence handed out by the scanner: the name's text,
/// and the half-open `[start, end)` span of the whole placeholder.
#[derive(Debug)]
pub struct TemplateParam {
    pub name: String,
    pub start: usize,
    pub end: usize,
}

/// The scanner: a restartable left-to-right iteration over the
/// placeholders of a text.
pub struct ParamsBrowser<'a> {
    template: &'a str,
    pos: usize,
    name_at: Option<usize>,
}

/// The scan-state view of an optional exec name start.
pub open spec fn ns_view(o: Option<usize>) -> Option<int> {
    match o {
        Some(a) => Some(a as int),
        None => None,
    }
}

impl<'a> ParamsBrowser<'a> {
    /// The scanned text.
    pub closed spec fn template_view(self) -> Seq<char> {
        self.template@
    }

    /// The scanner's state is well formed.
    pub closed spec fn wf(self) -> bool {
        scan_state_ok(self.template@, self.pos as int, ns_view(self.name_at))
    }

    /// The placeholders the scanner has not yet handed out.
    pub closed spec fn remaining(self) -> Seq<SpecParam> {
        params_from(self.template@, self.pos as int, ns_view(self.name_at))
    }

    /// A fresh scanner over the whole text.
    pub fn new(template: &'a str) -> (r: Self)
        ensures
            r.wf(),
            r.template_view() == template@,
            r.remaining() == all_params(template@),
    {
        ParamsBrowser { template, pos: 1, name_at: None }
    }

    /// Hands out the next placeholder, or `None` when the text is
    /// exhausted; a dangling open marker at the end of the text yields no
    /// placeholder.
    pub fn next(&mut self) -> (r: Option<TemplateParam>)
        requires
            old(self).wf(),
        ensures
            final(self).wf(),
            final(self).template_view() == old(self).template_view(),
            match r {
                None => old(self).remaining() == Seq::<SpecParam>::empty() && final(self).remaining()
                    == Seq::<SpecParam>::empty(),
                Some(param) => {
                    &&& old(self).remaining().len() > 0
                    &&& param.start as int == old(self).remaining()[0].start
                    &&& param.end as int == old(self).remaining()[0].end
                    &&& param.name@ == old(self).remaining()[0].name(old(self).template_view())
                    &&& final(self).remaining() == old(self).remaining().drop_first()
                },
            },
    {
        let t = self.template;
        let n = t.unicode_len();
        #[verifier::loop_isolation(false)]
        while self.pos < n
            invariant
                self.template == t,
                self.wf(),
                self.remaining() == old(self).remaining(),
            decreases n - self.pos,
        {
            let p = self.pos;
            if t.get_char(p - 1) == '{' && t.get_char(p) == '(' {
                self.name_at = Some(p + 1);
                self.pos = p + 1;
            } else {
                match self.name_at {
                    Some(a) => {
                        if t.get_char(p - 1) == ')' && t.get_char(p) == '}' {
                            proof {
                                assert(t@[a as int - 1] == '(');
                                assert(a < p);
                            }
                            let name = t.substring_char(a, p - 1);
                            let param = TemplateParam {
                                name: name.to_owned(),
                                start: a - 2,
                                end: p + 1,
                            };
                            proof {
                                let s = t@;
                                let q = SpecParam {
                                    start: a as int - 2,
                                    name_start: a as int,
                                    end: p as int + 1,
                                };
                                let rest = params_from(s, p as int + 1, None);
                                assert(params_from(s, p as int, ns_view(Some(a))) == seq![q]
                                    + rest);
                                assert((seq![q] + rest).drop_first() =~= rest);
                                assert(param.name@ == q.name(s));
                            }
                            self.name_at = None;
                            self.pos = p + 1;
                            return Some(param);
                        }
                        self.pos = p + 1;
                    },
                    None => {
                        self.pos = p + 1;
                    },
                }
            }
        }
        None
    }
}

/// A pipe chain applied left to right: each registered name transforms the
/// value, an unregistered name passes it through unchanged.
pub open spec fn apply_pipes_spec(
    v: Seq<char>,
    names: Seq<Seq<char>>,
    reg: Map<Seq<char>, Pipe>,
) -> Seq<char>
    decreases names.len(),
{
    if names.len() == 0 {
        v
    } else {
        let v2 = if reg.contains_key(names[0]) {
            spec_apply_pipe(reg[names[0]], v)
        } else {
            v
        };
        apply_pipes_spec(v2, names.drop_first(), reg)
    }
}

/// The variable a placeholder name denotes: the text before the first `|`.
pub open spec fn var_of(name: Seq<char>) -> Seq<char> {
    split_on(name, '|')[0]
}

/// A placeholder's substituted value: the variable's bound value, run
/// through the placeholder's pipe chain.
pub open spec fn piped_value(
    name: Seq<char>,
    vars: Map<Seq<char>, Seq<char>>,
    reg: Map<Seq<char>, Pipe>,
) -> Seq<char> {
    apply_pipes_spec(vars[var_of(name)], split_on(name, '|').drop_first(), reg)
}

/// Substitution of the placeholders `ps` in `s` from position `i` on:
/// literal text is kept, each placeholder is replaced by its piped value,
/// and the first placeholder whose variable is unbound is the error.
pub open spec fn subst_from(
    s: Seq<char>,
    vars: Map<Seq<char>, Seq<char>>,
    reg: Map<Seq<char>, Pipe>,
    i: int,
    ps: Seq<SpecParam>,
) -> Result<Seq<char>, SpecParam>
    decreases ps.len(),
{
    if ps.len() == 0 {
        Ok(s.subrange(i, s.len() as int))
    } else if !vars.contains_key(var_of(ps[0].name(s))) {
        Err(ps[0])
    } else {
        match subst_from(s, vars, reg, ps[0].end, ps.drop_first()) {
            Ok(rest) => Ok(
                s.subrange(i, ps[0].start) + piped_value(ps[0].name(s), vars, reg) + rest,
            ),
            Err(e) => Err(e),
        }
    }
}

/// What substituting a whole text yields: the substituted text, or the
/// first placeholder whose variable is unbound.
pub open spec fn spec_subst(
    s: Seq<char>,
    vars: Map<Seq<char>, Seq<char>>,
    reg: Map<Seq<char>, Pipe>,
) -> Result<Seq<char>, SpecParam> {
    subst_from(s, vars, reg, 0, all_params(s))
}

/// Prefixing a substitution outcome with already-emitted text.
pub open spec fn prepend_ok(pre: Seq<char>, r: Result<Seq<char>, SpecParam>) -> Result<
    Seq<char>,
    SpecParam,
> {
    match r {
        Ok(t) => Ok(pre + t),
        Err(e) => Err(e),
    }
}

/// Prefixing with no text changes nothing.
pub proof fn lemma_prepend_empty(r: Result<Seq<char>, SpecParam>)
    ensures
        prepend_ok(Seq::<char>::empty(), r) == r,
{
    if r is Ok {
        assert(Seq::<char>::empty() + r->Ok_0 =~= r->Ok_0);
    }
}

/// A substitution result and a spec-level outcome agree: same text on
/// success, same placeholder span on failure.
pub open spec fn parse_result_matches(
    r: Result<String, ParamNotFound>,
    s: Seq<char>,
    vars: Map<Seq<char>, Seq<char>>,
    reg: Map<Seq<char>, Pipe>,
) -> bool {
    match r {
        Ok(out) => spec_subst(s, vars, reg) == Ok::<Seq<char>, SpecParam>(out@),
        Err(e) => spec_subst(s, vars, reg) is Err && e.start as int == spec_subst(
            s,
            vars,
            reg,
        )->Err_0.start && e.end as int == spec_subst(s, vars, reg)->Err_0.end && param_ok(
            s,
            spec_subst(s, vars, reg)->Err_0,
        ),
    }
}

/// Applies the named pipes to the value, left to right; an unregistered
/// pipe name is skipped, passing the value through unchanged.
pub fn apply_pipes(value: &str, pipe_names: &Vec<String>, pipes: &PipesMap) -> (r: String)
    ensures
        r@ == apply_pipes_spec(value@, pipe_names.deep_view(), pipes@),
{
    let ghost dv = pipe_names.deep_view();
    let mut result = value.to_owned();
    let mut k: usize = 0;
    proof {
        assert(dv.skip(0) =~= dv);
    }
    #[verifier::loop_isolation(false)]
    while k < pipe_names.len()
        invariant
            k <= pipe_names.len(),
            apply_pipes_spec(value@, dv, pipes@) == apply_pipes_spec(
                result@,
                dv.skip(k as int),
                pipes@,
            ),
        decreases pipe_names.len() - k,
    {
        proof {
            assert(dv[k as int] == pipe_names@[k as int]@);
            assert(dv.skip(k as int)[0] == dv[k as int]);
            assert(dv.skip(k as int).drop_first() =~= dv.skip(k as int + 1));
        }
        if let Some(p) = pipes.get(pipe_names[k].as_str()) {
            result = apply_pipe(p, result.as_str());
        }
        k = k + 1;
    }
    proof {
        assert(dv.skip(k as int) =~= Seq::<Seq<char>>::empty());
    }
    result
}

/// Substitutes every placeholder of `template` using the given bindings
/// and pipe registry; the whole operation is append-only and single-pass.
pub fn _parse(template: &str, params: &Bindings, pipes: &PipesMap) -> (r: Result<
    String,
    ParamNotFound,
>)
    ensures
        parse_result_matches(r, template@, params@, pipes@),
{
    let ghost s = template@;
    let ghost vars = params@;
    let ghost reg = pipes@;
    let mut parsed = String::new();
    let mut i: usize = 0;
    let mut browser = ParamsBrowser::new(template);
    let n = template.unicode_len();
    proof {
        lemma_params_from_ok(s, 1, None);
        lemma_prepend_empty(subst_from(s, vars, reg, 0, all_params(s)));
    }
    #[verifier::loop_isolation(false)]
    loop
        invariant
            browser.wf(),
            browser.template_view() == s,
            i <= n,
            forall|k: int|
                0 <= k < browser.remaining().len() ==> param_ok(
                    s,
                    #[trigger] browser.remaining()[k],
                ),
            params_sorted(browser.remaining()),
            browser.remaining().len() > 0 ==> i <= browser.remaining()[0].start,
            prepend_ok(parsed@, subst_from(s, vars, reg, i as int, browser.remaining()))
                == spec_subst(s, vars, reg),
        decreases browser.remaining().len(),
    {
        let ghost rem0 = browser.remaining();
        let ghost parsed0 = parsed@;
        let ghost i0 = i as int;
        match browser.next() {
            None => {
                parsed.append(template.substring_char(i, n));
                return Ok(parsed);
            },
            Some(param) => {
                let ghost sp = rem0[0];
                parsed.append(template.substring_char(i, param.start));
                let mut segs = split_char(param.name.as_str(), '|');
                let var_name = segs.remove(0);
                proof {
                    let segs0 = split_on(param.name@, '|');
                    assert(var_name@ == segs0[0]);
                    assert(segs.deep_view() =~~= segs0.drop_first());
                    assert(var_of(sp.name(s)) == var_name@);
                }
                match params.get(var_name.as_str()) {
                    None => {
                        proof {
                            assert(subst_from(s, vars, reg, i0, rem0) == Err::<
                                Seq<char>,
                                SpecParam,
                            >(sp));
                        }
                        return Err(ParamNotFound { start: param.start, end: param.end });
                    },
                    Some(value) => {
                        let piped = apply_pipes(value.as_str(), &segs, pipes);
                        parsed.append(piped.as_str());
                        proof {
                            assert(piped@ == piped_value(sp.name(s), vars, reg));
                            let rem1 = rem0.drop_first();
                            let tail = subst_from(s, vars, reg, sp.end, rem1);
                            if tail is Ok {
                                let rest = tail->Ok_0;
                                assert(parsed0 + (s.subrange(i0, sp.start) + piped_value(
                                    sp.name(s),
                                    vars,
                                    reg,
                                ) + rest) =~= parsed@ + rest);
                            }
                            assert forall|k: int| 0 <= k < rem1.len() implies param_ok(
                                s,
                                #[trigger] rem1[k],
                            ) by {
                                assert(rem1[k] == rem0[k + 1]);
                            }
                            assert forall|k: int| 0 <= k && k + 1 < rem1.len() implies (
                            #[trigger] rem1[k]).end <= rem1[k + 1].start by {
                                assert(rem1[k] == rem0[k + 1]);
                                assert(rem1[k + 1] == rem0[k + 2]);
                            }
                            if rem1.len() > 0 {
                                assert(rem1[0] == rem0[1]);
                            }
                        }
                        i = param.end;
                    },
                }
            },
        }
    }
}

/// Substitutes with the default pipe registry.
pub fn parse(template: &str, params: &Bindings) -> (r: Result<String, ParamNotFound>)
    ensures
        parse_result_matches(r, template@, params@, default_pipes()),
{
    let pipes = PipesMap::with_defaults();
    _parse(template, params, &pipes)
}

/// The substitution engine bundled with its bindings and its registry,
/// both fixed at construction time and shared by a whole generation run.
pub struct DefaultTemplateParse {
    pipes: PipesMap,
    vars: Bindings,
}

impl DefaultTemplateParse {
    /// The registry the engine resolves pipe names against.
    pub closed spec fn spec_pipes(&self) -> Map<Seq<char>, Pipe> {
        self.pipes@
    }

    /// The bindings the engine resolves variables against.
    pub closed spec fn spec_vars(&self) -> Map<Seq<char>, Seq<char>> {
        self.vars@
    }

    /// An engine over the given bindings, with the built-in pipes.
    pub fn with_vars(vars: Bindings) -> (r: Self)
        ensures
            r.spec_pipes() == default_pipes(),
            r.spec_vars() == vars@,
    {
        DefaultTemplateParse { pipes: PipesMap::with_defaults(), vars }
    }

    /// Substitutes every placeholder of `content`.
    pub fn parse(&self, content: &str) -> (r: Result<String, ParamNotFound>)
        ensures
            parse_result_matches(r, content@, self.spec_vars(), self.spec_pipes()),
    {
        _parse(content, &self.vars, &self.pipes)
    }
}

/// The text holds no open marker followed by a close marker.
pub open spec fn no_marker_pair(s: Seq<char>) -> bool {
    forall|p1: int, p2: int| !(is_open_at(s, p1) && p1 < p2 && is_close_at(s, p2))
}

proof fn lemma_no_pair_no_params(s: Seq<char>, p: int, ns: Option<int>)
    requires
        no_marker_pair(s),
        scan_state_ok(s, p, ns),
    ensures
        params_from(s, p, ns) == Seq::<SpecParam>::empty(),
    decreases s.len() - p,
{
    if p >= s.len() {
    } else if is_open_at(s, p) {
        lemma_no_pair_no_params(s, p + 1, Some(p + 1));
    } else if ns is Some && is_close_at(s, p) {
        assert(is_open_at(s, ns->0 - 1));
        assert(false);
    } else {
        lemma_no_pair_no_params(s, p + 1, ns);
    }
}

/// Literal text law: on a text containing no open/close marker pair,
/// substitution is the identity, whatever the bindings and the registry.
pub proof fn lemma_literal_identity(
    s: Seq<char>,
    vars: Map<Seq<char>, Seq<char>>,
    reg: Map<Seq<char>, Pipe>,
)
    requires
        no_marker_pair(s),
    ensures
        all_params(s) == Seq::<SpecParam>::empty(),
        spec_subst(s, vars, reg) == Ok::<Seq<char>, SpecParam>(s),
    decreases s.len(),
{
    lemma_no_pair_no_params(s, 1, None);
    assert(s.subrange(0, s.len() as int) =~= s);
}

/// The name holds none of the marker characters and no pipe separator.
pub open spec fn plain_name(n: Seq<char>) -> bool {
    forall|i: int|
        0 <= i < n.len() ==> (#[trigger] n[i]) != '{' && n[i] != '(' && n[i] != ')' && n[i] != '}'
            && n[i] != '|'
}

proof fn lemma_plain_scan(n: Seq<char>, p: int)
    requires
        plain_name(n),
        2 <= p <= n.len() + 3,
    ensures
        params_from(seq!['{', '('] + n + seq![')', '}'], p, Some(2)) == seq![
            SpecParam { start: 0, name_start: 2, end: n.len() as int + 4 },
        ],
    decreases n.len() + 3 - p,
{
    let t = seq!['{', '('] + n + seq![')', '}'];
    let q = SpecParam { start: 0, name_start: 2, end: n.len() as int + 4 };
    assert(t.len() == n.len() + 4);
    assert(t[0] == '{' && t[1] == '(');
    assert(t[n.len() as int + 2] == ')' && t[n.len() as int + 3] == '}');
    assert(forall|i: int| 2 <= i < n.len() + 2 ==> t[i] == n[i - 2]);
    if p == n.len() + 3 {
        assert(is_close_at(t, p));
        assert(!is_open_at(t, p));
        assert(params_from(t, p + 1, None) == Seq::<SpecParam>::empty());
        assert(seq![q] + Seq::<SpecParam>::empty() =~= seq![q]);
    } else {
        assert(!is_open_at(t, p));
        assert(!is_close_at(t, p));
        lemma_plain_scan(n, p + 1);
    }
}

/// Single placeholder law: a template that is exactly one placeholder over
/// a plain variable name substitutes to the name's bound value; an unbound
/// name yields the error whose span is the whole template, markers
/// included.
pub proof fn lemma_single_placeholder(
    n: Seq<char>,
    vars: Map<Seq<char>, Seq<char>>,
    reg: Map<Seq<char>, Pipe>,
)
    requires
        plain_name(n),
    ensures
        vars.contains_key(n) ==> spec_subst(seq!['{', '('] + n + seq![')', '}'], vars, reg)
            == Ok::<Seq<char>, SpecParam>(vars[n]),
        !vars.contains_key(n) ==> spec_subst(seq!['{', '('] + n + seq![')', '}'], vars, reg)
            == Err::<Seq<char>, SpecParam>(
            SpecParam { start: 0, name_start: 2, end: n.len() as int + 4 },
        ),
{
    let t = seq!['{', '('] + n + seq![')', '}'];
    let q = SpecParam { start: 0, name_start: 2, end: n.len() as int + 4 };
    assert(t.len() == n.len() + 4);
    assert(t[0] == '{' && t[1] == '(');
    assert(is_open_at(t, 1));
    lemma_plain_scan(n, 2);
    assert(all_params(t) == seq![q]);
    assert(q.name(t) =~= n);
    crate::strutil::lemma_split_on_absent(n, '|');
    assert(var_of(n) == n);
    if vars.contains_key(n) {
        let ps = seq![q];
        assert(ps.drop_first() =~= Seq::<SpecParam>::empty());
        assert(subst_from(t, vars, reg, q.end, ps.drop_first()) == Ok::<Seq<char>, SpecParam>(
            t.subrange(q.end, t.len() as int),
        ));
        assert(t.subrange(q.end, t.len() as int) =~= Seq::<char>::empty());
        assert(seq![n].drop_first() =~= Seq::<Seq<char>>::empty());
        assert(piped_value(n, vars, reg) == vars[n]);
        assert(t.subrange(0, q.start) =~= Seq::<char>::empty());
        assert(t.subrange(0, q.start) + piped_value(n, vars, reg) + Seq::<char>::empty()
            =~= vars[n]);
    }
}

} // verus!
