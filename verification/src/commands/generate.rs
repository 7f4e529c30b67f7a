//! The tree generator: given a template directory's tree, already read
//! into memory, it plans the mirrored output tree — every entry name and
//! every line of every file run through the substitution engine — and
//! returns the plan: the directories to create and the files to write, in
//! walk order. Writing the plan out, and reading the template in, are the
//! caller's concern; on the first failing entry the walk stops and nothing
//! after it is planned.

pub mod error;

use vstd::prelude::*;

use crate::bindings::Bindings;
use crate::config::Config;
use crate::path::{file_name, join_path, parent_path, spec_file_name, spec_join, spec_parent};
use crate::template::parse::error::InternalError;
use crate::template::parse::{
    lemma_literal_identity, no_marker_pair, spec_subst, DefaultTemplateParse, SpecParam,
};
use crate::template::pipes::{default_pipes, Pipe};
use self::error::{Error, TemplateError, TemplateNotFoundError};

verus! {

/// A template directory's tree, read into memory: entry names are the raw
/// names on disk, file contents are split into lines.
#[derive(Debug)]
pub enum TemplateNode {
    File { name: String, lines: Vec<String> },
    Dir { name: String, entries: Vec<TemplateNode> },
    Symlink { name: String },
}

/// What looking the template up yielded: nothing, a non-directory, or the
/// directory's tree.
#[derive(Debug)]
pub enum TemplateSource {
    Missing,
    NotADirectory,
    Directory(Vec<TemplateNode>),
}

/// One planned output file: its path and its substituted lines.
#[derive(Debug)]
pub struct GeneratedFile {
    pub path: String,
    pub lines: Vec<String>,
}

/// A planned output file, on views.
pub ghost struct SpecFile {
    pub path: Seq<char>,
    pub lines: Seq<Seq<char>>,
}

impl View for GeneratedFile {
    type V = SpecFile;

    open spec fn view(&self) -> SpecFile {
        SpecFile { path: self.path@, lines: self.lines.deep_view() }
    }
}

impl DeepView for GeneratedFile {
    type V = SpecFile;

    open spec fn deep_view(&self) -> SpecFile {
        self.view()
    }
}

/// The outcome of a successful walk: the directories to create and the
/// files to write, each list in walk order.
#[derive(Debug)]
pub struct GenerationPlan {
    pub dirs: Vec<String>,
    pub files: Vec<GeneratedFile>,
}

/// A plan, on views.
pub ghost struct SpecPlan {
    pub dirs: Seq<Seq<char>>,
    pub files: Seq<SpecFile>,
}

impl View for GenerationPlan {
    type V = SpecPlan;

    open spec fn view(&self) -> SpecPlan {
        SpecPlan { dirs: self.dirs.deep_view(), files: self.files.deep_view() }
    }
}

impl GenerationPlan {
    /// The ordered list of output file paths the plan writes.
    pub fn file_paths(&self) -> (r: Vec<String>)
        ensures
            r.deep_view() == self@.files.map_values(|f: SpecFile| f.path),
    {
        let mut r: Vec<String> = Vec::new();
        let mut i: usize = 0;
        proof {
            assert(r.deep_view() =~= self@.files.map_values(|f: SpecFile| f.path).take(0));
        }
        #[verifier::loop_isolation(false)]
        while i < self.files.len()
            invariant
                i <= self.files.len(),
                r.deep_view() == self@.files.map_values(|f: SpecFile| f.path).take(i as int),
            decreases self.files.len() - i,
        {
            let ghost r0 = r.deep_view();
            r.push(self.files[i].path.clone());
            proof {
                assert(r.deep_view() =~= r0.push(self@.files[i as int].path));
                assert(r.deep_view() =~= self@.files.map_values(|f: SpecFile| f.path).take(
                    i as int + 1,
                ));
            }
            i = i + 1;
        }
        proof {
            let m = self@.files.map_values(|f: SpecFile| f.path);
            assert(m.take(m.len() as int) =~= m);
        }
        r
    }
}

/// Why a walk stopped, on views.
pub ghost enum SpecGenError {
    /// An entry of unsupported kind (a symbolic link) at this template
    /// path.
    Unsupported { path: Seq<char> },
    /// Substituting an entry's raw name failed on this placeholder.
    NameSubst { raw: Seq<char>, param: SpecParam },
    /// Substituting a line of the file at this template path failed.
    LineSubst { file: Seq<char>, line: Seq<char>, param: SpecParam },
}

/// An error value carries exactly what its spec-level outcome says.
pub open spec fn gen_err_matches(e: Error, se: SpecGenError) -> bool {
    match se {
        SpecGenError::Unsupported { path } => e matches Error::UnsupportedEntryKind(p) && p@
            == path,
        SpecGenError::NameSubst { raw, param } => (e matches Error::Template(
            TemplateError::VariableNotFound { filename, source, span },
        ) && filename@ == raw && source@ == raw && span.0 as int == param.start && span.1 as int
            == param.end - param.start),
        SpecGenError::LineSubst { file, line, param } => (e matches Error::Template(
            TemplateError::VariableNotFound { filename, source, span },
        ) && filename@ == file && source@ == line && span.0 as int == param.start && span.1 as int
            == param.end - param.start),
    }
}

/// Substituting each line of a file, stopping at the first line whose
/// substitution fails.
pub open spec fn spec_file_lines(
    lines: Seq<Seq<char>>,
    vars: Map<Seq<char>, Seq<char>>,
    reg: Map<Seq<char>, Pipe>,
) -> Result<Seq<Seq<char>>, (Seq<char>, SpecParam)>
    decreases lines.len(),
{
    if lines.len() == 0 {
        Ok(Seq::<Seq<char>>::empty())
    } else {
        match spec_subst(lines[0], vars, reg) {
            Ok(l) => match spec_file_lines(lines.drop_first(), vars, reg) {
                Ok(ls) => Ok(seq![l] + ls),
                Err(e) => Err(e),
            },
            Err(p) => Err((lines[0], p)),
        }
    }
}

/// The plan with nothing in it.
pub open spec fn plan_empty() -> SpecPlan {
    SpecPlan { dirs: Seq::<Seq<char>>::empty(), files: Seq::<SpecFile>::empty() }
}

/// Two plans, one after the other.
pub open spec fn plan_concat(a: SpecPlan, b: SpecPlan) -> SpecPlan {
    SpecPlan { dirs: a.dirs + b.dirs, files: a.files + b.files }
}

/// The earlier accumulator survives as a prefix of the later one: the
/// walk only appends, and never reorders or drops what was already
/// planned — on the failure path as much as on success.
pub open spec fn plan_prefix_of(before: SpecPlan, after: SpecPlan) -> bool {
    &&& before.dirs.len() <= after.dirs.len()
    &&& after.dirs.take(before.dirs.len() as int) == before.dirs
    &&& before.files.len() <= after.files.len()
    &&& after.files.take(before.files.len() as int) == before.files
}

/// An entry's raw name.
pub open spec fn spec_node_name(node: TemplateNode) -> Seq<char> {
    match node {
        TemplateNode::File { name, lines } => name@,
        TemplateNode::Dir { name, entries } => name@,
        TemplateNode::Symlink { name } => name@,
    }
}

/// The plan for one entry whose template path is `tpath` and whose output
/// path (name already substituted) is `opath`: a file contributes its
/// substituted lines, a directory contributes itself and its children's
/// plans, a symbolic link is unsupported.
pub open spec fn spec_gen_node(
    node: TemplateNode,
    tpath: Seq<char>,
    opath: Seq<char>,
    vars: Map<Seq<char>, Seq<char>>,
    reg: Map<Seq<char>, Pipe>,
) -> Result<SpecPlan, SpecGenError>
    decreases node,
{
    match node {
        TemplateNode::File { name, lines } => match spec_file_lines(
            lines.deep_view(),
            vars,
            reg,
        ) {
            Ok(ls) => Ok(
                SpecPlan {
                    dirs: Seq::<Seq<char>>::empty(),
                    files: seq![SpecFile { path: opath, lines: ls }],
                },
            ),
            Err((line, p)) => Err(SpecGenError::LineSubst { file: tpath, line, param: p }),
        },
        TemplateNode::Dir { name, entries } => match spec_gen_entries(
            entries@,
            tpath,
            opath,
            vars,
            reg,
        ) {
            Ok(sub) => Ok(SpecPlan { dirs: seq![opath] + sub.dirs, files: sub.files }),
            Err(e) => Err(e),
        },
        TemplateNode::Symlink { name } => Err(SpecGenError::Unsupported { path: tpath }),
    }
}

/// The plan for a directory's entries, in order: each entry's output name
/// is its raw name substituted, and the walk stops at the first failure.
pub open spec fn spec_gen_entries(
    entries: Seq<TemplateNode>,
    tdir: Seq<char>,
    odir: Seq<char>,
    vars: Map<Seq<char>, Seq<char>>,
    reg: Map<Seq<char>, Pipe>,
) -> Result<SpecPlan, SpecGenError>
    decreases entries,
{
    if entries.len() == 0 {
        Ok(plan_empty())
    } else {
        let node = entries[0];
        let raw = spec_node_name(node);
        match spec_subst(raw, vars, reg) {
            Err(p) => Err(SpecGenError::NameSubst { raw, param: p }),
            Ok(parsed_name) => match spec_gen_node(
                node,
                spec_join(tdir, raw),
                spec_join(odir, parsed_name),
                vars,
                reg,
            ) {
                Err(e) => Err(e),
                Ok(head) => match spec_gen_entries(entries.drop_first(), tdir, odir, vars, reg) {
                    Ok(rest) => Ok(plan_concat(head, rest)),
                    Err(e) => Err(e),
                },
            },
        }
    }
}

/// An entry's raw name.
pub fn node_name(node: &TemplateNode) -> (r: &String)
    ensures
        r@ == spec_node_name(*node),
{
    match node {
        TemplateNode::File { name, lines } => name,
        TemplateNode::Dir { name, entries } => name,
        TemplateNode::Symlink { name } => name,
    }
}

/// Prefixing a per-file outcome with already-substituted lines.
pub open spec fn prepend_file_lines(
    pre: Seq<Seq<char>>,
    r: Result<Seq<Seq<char>>, (Seq<char>, SpecParam)>,
) -> Result<Seq<Seq<char>>, (Seq<char>, SpecParam)> {
    match r {
        Ok(ls) => Ok(pre + ls),
        Err(e) => Err(e),
    }
}

/// Substitutes every line of one template file and appends the planned
/// output file; on a failing line nothing is appended and the error
/// carries the line and the template file's path.
fn generate_file(
    template_filename: String,
    lines: &Vec<String>,
    output_filename: String,
    generated_files: &mut Vec<GeneratedFile>,
    template_parser: &DefaultTemplateParse,
) -> (r: Result<(), Error>)
    ensures
        match spec_file_lines(
            lines.deep_view(),
            template_parser.spec_vars(),
            template_parser.spec_pipes(),
        ) {
            Ok(ls) => r is Ok && final(generated_files).deep_view() == old(
                generated_files,
            ).deep_view().push(SpecFile { path: output_filename@, lines: ls }),
            Err((line, p)) => r is Err && gen_err_matches(
                r->Err_0,
                SpecGenError::LineSubst { file: template_filename@, line, param: p },
            ) && final(generated_files).deep_view() == old(generated_files).deep_view(),
        },
{
    let ghost vars = template_parser.spec_vars();
    let ghost reg = template_parser.spec_pipes();
    let ghost dv = lines.deep_view();
    let mut out_lines: Vec<String> = Vec::new();
    let mut j: usize = 0;
    proof {
        assert(dv.skip(0) =~= dv);
        assert(out_lines.deep_view() =~= Seq::<Seq<char>>::empty());
    }
    #[verifier::loop_isolation(false)]
    while j < lines.len()
        invariant
            j <= lines.len(),
            prepend_file_lines(out_lines.deep_view(), spec_file_lines(dv.skip(j as int), vars, reg))
                == spec_file_lines(dv, vars, reg),
        decreases lines.len() - j,
    {
        let ghost out0 = out_lines.deep_view();
        proof {
            assert(dv.skip(j as int)[0] == dv[j as int]);
            assert(dv.skip(j as int).drop_first() =~= dv.skip(j as int + 1));
            assert(lines@[j as int]@ == dv[j as int]);
        }
        match template_parser.parse(lines[j].as_str()) {
            Ok(l) => {
                out_lines.push(l);
                proof {
                    assert(out_lines.deep_view() =~= out0.push(
                        spec_subst(dv[j as int], vars, reg)->Ok_0,
                    ));
                    let tail = spec_file_lines(dv.skip(j as int + 1), vars, reg);
                    if tail is Ok {
                        assert(out0 + (seq![spec_subst(dv[j as int], vars, reg)->Ok_0]
                            + tail->Ok_0) =~= out_lines.deep_view() + tail->Ok_0);
                    }
                }
            },
            Err(e) => {
                return Err(
                    Error::from_parse_error(
                        InternalError::ParamNotFound(e),
                        lines[j].clone(),
                        template_filename,
                    ),
                );
            },
        }
        j = j + 1;
    }
    proof {
        assert(dv.skip(lines.len() as int) =~= Seq::<Seq<char>>::empty());
        let total = spec_file_lines(dv, vars, reg);
        assert(out_lines.deep_view() + Seq::<Seq<char>>::empty() =~= out_lines.deep_view());
        assert(total == Ok::<Seq<Seq<char>>, (Seq<char>, SpecParam)>(out_lines.deep_view()));
    }
    let ghost gf0 = generated_files.deep_view();
    generated_files.push(GeneratedFile { path: output_filename, lines: out_lines });
    proof {
        assert(generated_files.deep_view() =~= gf0.push(generated_files@.last()@));
    }
    Ok(())
}

/// Plans one entry: a file's lines are substituted, a directory is
/// planned and recursed into, a symbolic link is reported as unsupported.
fn recursive_generate(
    node: &TemplateNode,
    template_path: String,
    output: String,
    plan: &mut GenerationPlan,
    template_parser: &DefaultTemplateParse,
) -> (r: Result<(), Error>)
    ensures
        match spec_gen_node(
            *node,
            template_path@,
            output@,
            template_parser.spec_vars(),
            template_parser.spec_pipes(),
        ) {
            Ok(p) => r is Ok && final(plan)@.dirs == old(plan)@.dirs + p.dirs && final(plan)@.files
                == old(plan)@.files + p.files,
            Err(se) => r is Err && gen_err_matches(r->Err_0, se) && plan_prefix_of(
                old(plan)@,
                final(plan)@,
            ),
        },
    decreases node,
{
    let ghost vars = template_parser.spec_vars();
    let ghost reg = template_parser.spec_pipes();
    match node {
        TemplateNode::File { name, lines } => {
            let ghost files0 = plan.files.deep_view();
            match generate_file(template_path, lines, output, &mut plan.files, template_parser) {
                Ok(()) => {
                    proof {
                        let ls = spec_file_lines(lines.deep_view(), vars, reg)->Ok_0;
                        assert(plan.files.deep_view() =~= files0 + seq![
                            SpecFile { path: output@, lines: ls },
                        ]);
                        assert(plan@.dirs =~= old(plan)@.dirs + Seq::<Seq<char>>::empty());
                    }
                    Ok(())
                },
                Err(e) => {
                    proof {
                        assert(plan@.dirs.take(old(plan)@.dirs.len() as int) =~= old(plan)@.dirs);
                        assert(plan@.files.take(old(plan)@.files.len() as int) =~= old(
                            plan,
                        )@.files);
                    }
                    Err(e)
                },
            }
        },
        TemplateNode::Dir { name, entries } => {
            let ghost dirs0 = plan.dirs.deep_view();
            plan.dirs.push(output.clone());
            proof {
                assert(plan.dirs.deep_view() =~= dirs0.push(output@));
            }
            match generate_dir(entries, template_path, output, plan, template_parser) {
                Ok(()) => {
                    proof {
                        let sub = spec_gen_entries(entries@, template_path@, output@, vars, reg);
                        assert(plan@.dirs =~= old(plan)@.dirs + (seq![output@] + sub->Ok_0.dirs));
                        assert(plan@.files =~= old(plan)@.files + sub->Ok_0.files);
                    }
                    Ok(())
                },
                Err(e) => {
                    proof {
                        let ob = old(plan)@;
                        let mid_dirs = dirs0.push(output@);
                        assert forall|k: int| 0 <= k < ob.dirs.len() implies plan@.dirs[k]
                            == ob.dirs[k] by {
                            assert(plan@.dirs.take(mid_dirs.len() as int)[k] == plan@.dirs[k]);
                            assert(mid_dirs[k] == ob.dirs[k]);
                        }
                        assert(plan@.dirs.take(ob.dirs.len() as int) =~= ob.dirs);
                    }
                    Err(e)
                },
            }
        },
        TemplateNode::Symlink { name } => {
            proof {
                assert(plan@.dirs.take(old(plan)@.dirs.len() as int) =~= old(plan)@.dirs);
                assert(plan@.files.take(old(plan)@.files.len() as int) =~= old(plan)@.files);
            }
            Err(Error::UnsupportedEntryKind(template_path))
        },
    }
}

/// Plans every entry of a template directory in order: each entry's raw
/// name is substituted to name its output, and the walk stops at the
/// first failure.
fn generate_dir(
    entries: &Vec<TemplateNode>,
    template_dir: String,
    output: String,
    plan: &mut GenerationPlan,
    template_parser: &DefaultTemplateParse,
) -> (r: Result<(), Error>)
    ensures
        match spec_gen_entries(
            entries@,
            template_dir@,
            output@,
            template_parser.spec_vars(),
            template_parser.spec_pipes(),
        ) {
            Ok(p) => r is Ok && final(plan)@.dirs == old(plan)@.dirs + p.dirs && final(plan)@.files
                == old(plan)@.files + p.files,
            Err(se) => r is Err && gen_err_matches(r->Err_0, se) && plan_prefix_of(
                old(plan)@,
                final(plan)@,
            ),
        },
    decreases entries,
{
    let ghost vars = template_parser.spec_vars();
    let ghost reg = template_parser.spec_pipes();
    let ghost all = entries@;
    let ghost d0 = plan@.dirs;
    let ghost f0 = plan@.files;
    let mut i: usize = 0;
    proof {
        assert(all.skip(0) =~= all);
        assert(plan@.dirs.skip(d0.len() as int) =~= Seq::<Seq<char>>::empty());
        assert(plan@.files.skip(f0.len() as int) =~= Seq::<SpecFile>::empty());
    }
    #[verifier::loop_isolation(false)]
    while i < entries.len()
        invariant
            i <= entries.len(),
            plan@.dirs.len() >= d0.len(),
            plan@.files.len() >= f0.len(),
            plan@.dirs.take(d0.len() as int) == d0,
            plan@.files.take(f0.len() as int) == f0,
            match spec_gen_entries(all.skip(i as int), template_dir@, output@, vars, reg) {
                Ok(rest) => spec_gen_entries(all, template_dir@, output@, vars, reg) == Ok::<
                    SpecPlan,
                    SpecGenError,
                >(
                    plan_concat(
                        SpecPlan {
                            dirs: plan@.dirs.skip(d0.len() as int),
                            files: plan@.files.skip(f0.len() as int),
                        },
                        rest,
                    ),
                ),
                Err(e) => spec_gen_entries(all, template_dir@, output@, vars, reg) == Err::<
                    SpecPlan,
                    SpecGenError,
                >(e),
            },
        decreases entries.len() - i,
    {
        proof {
            assert(all.skip(i as int)[0] == all[i as int]);
            assert(all.skip(i as int).drop_first() =~= all.skip(i as int + 1));
        }
        let node = &entries[i];
        let filename = node_name(node);
        let parsed_filename = match template_parser.parse(filename.as_str()) {
            Ok(p) => p,
            Err(e) => {
                return Err(
                    Error::from_parse_error(
                        InternalError::ParamNotFound(e),
                        filename.clone(),
                        filename.clone(),
                    ),
                );
            },
        };
        let sub_template = join_path(template_dir.as_str(), filename.as_str());
        let sub_output = join_path(output.as_str(), parsed_filename.as_str());
        let ghost dirs_before = plan@.dirs;
        let ghost files_before = plan@.files;
        match recursive_generate(node, sub_template, sub_output, plan, template_parser) {
            Ok(()) => {
                proof {
                    let head = spec_gen_node(
                        all[i as int],
                        spec_join(template_dir@, spec_node_name(all[i as int])),
                        spec_join(output@, spec_subst(spec_node_name(all[i as int]), vars, reg)->Ok_0),
                        vars,
                        reg,
                    )->Ok_0;
                    assert(plan@.dirs =~= dirs_before + head.dirs);
                    assert(plan@.files =~= files_before + head.files);
                    assert(plan@.dirs.take(d0.len() as int) =~= d0);
                    assert(plan@.files.take(f0.len() as int) =~= f0);
                    assert(plan@.dirs.skip(d0.len() as int) =~= dirs_before.skip(d0.len() as int)
                        + head.dirs);
                    assert(plan@.files.skip(f0.len() as int) =~= files_before.skip(f0.len() as int)
                        + head.files);
                    let rest1 = spec_gen_entries(
                        all.skip(i as int + 1),
                        template_dir@,
                        output@,
                        vars,
                        reg,
                    );
                    if rest1 is Ok {
                        let delta_d = dirs_before.skip(d0.len() as int);
                        let delta_f = files_before.skip(f0.len() as int);
                        assert(delta_d + (head.dirs + rest1->Ok_0.dirs) =~= (delta_d + head.dirs)
                            + rest1->Ok_0.dirs);
                        assert(delta_f + (head.files + rest1->Ok_0.files) =~= (delta_f
                            + head.files) + rest1->Ok_0.files);
                    }
                }
            },
            Err(e) => {
                proof {
                    assert forall|k: int| 0 <= k < d0.len() implies plan@.dirs[k] == d0[k] by {
                        assert(plan@.dirs.take(dirs_before.len() as int)[k] == plan@.dirs[k]);
                        assert(dirs_before.take(d0.len() as int)[k] == dirs_before[k]);
                    }
                    assert(plan@.dirs.take(d0.len() as int) =~= d0);
                    assert forall|k: int| 0 <= k < f0.len() implies plan@.files[k] == f0[k] by {
                        assert(plan@.files.take(files_before.len() as int)[k] == plan@.files[k]);
                        assert(files_before.take(f0.len() as int)[k] == files_before[k]);
                    }
                    assert(plan@.files.take(f0.len() as int) =~= f0);
                }
                return Err(e);
            },
        }
        i = i + 1;
    }
    proof {
        assert(all.skip(entries.len() as int) =~= Seq::<TemplateNode>::empty());
        assert(plan@.dirs =~= d0 + plan@.dirs.skip(d0.len() as int));
        assert(plan@.files =~= f0 + plan@.files.skip(f0.len() as int));
    }
    Ok(())
}

/// Inserting the caller's overrides in order, each replacing any earlier
/// binding of its key.
pub open spec fn spec_insert_all(
    m: Map<Seq<char>, Seq<char>>,
    cli: Seq<(String, String)>,
) -> Map<Seq<char>, Seq<char>>
    decreases cli.len(),
{
    if cli.len() == 0 {
        m
    } else {
        spec_insert_all(m.insert(cli[0].0@, cli[0].1@), cli.drop_first())
    }
}

/// The bindings a run uses: the configured bindings, then `name` bound to
/// the output's final segment unless that segment's own key is already
/// bound, then the caller's overrides, applied last.
pub open spec fn spec_attach(
    base: Map<Seq<char>, Seq<char>>,
    cli: Seq<(String, String)>,
    output_name: Seq<char>,
) -> Map<Seq<char>, Seq<char>> {
    let with_name = if base.contains_key(output_name) {
        base
    } else {
        base.insert("name"@, output_name)
    };
    spec_insert_all(with_name, cli)
}

/// Completes the bindings for a run, per `spec_attach`.
pub fn attatch_variables(
    files_variables: &mut Bindings,
    cli_variables: Vec<(String, String)>,
    output_name: String,
)
    ensures
        final(files_variables)@ == spec_attach(
            old(files_variables)@,
            cli_variables@,
            output_name@,
        ),
{
    let ghost cli = cli_variables@;
    if !files_variables.contains_key(output_name.as_str()) {
        files_variables.insert("name".to_owned(), output_name);
    }
    let ghost with_name = files_variables@;
    let mut i: usize = 0;
    proof {
        assert(cli.skip(0) =~= cli);
    }
    #[verifier::loop_isolation(false)]
    while i < cli_variables.len()
        invariant
            i <= cli_variables.len(),
            spec_insert_all(files_variables@, cli.skip(i as int)) == spec_insert_all(
                with_name,
                cli,
            ),
        decreases cli_variables.len() - i,
    {
        proof {
            assert(cli.skip(i as int)[0] == cli[i as int]);
            assert(cli.skip(i as int).drop_first() =~= cli.skip(i as int + 1));
        }
        let key = cli_variables[i].0.clone();
        let value = cli_variables[i].1.clone();
        files_variables.insert(key, value);
        i = i + 1;
    }
    proof {
        assert(cli.skip(cli_variables.len() as int) =~= Seq::<(String, String)>::empty());
    }
}

/// Why a run aborted, on views.
pub ghost enum SpecTopError {
    OutputNameInvalid,
    NotFound { template: Seq<char>, templates_dir: Seq<char> },
    NotValid { template_name: Seq<char>, templates_dir: Seq<char> },
    Gen(SpecGenError),
}

/// A run's error value carries exactly what its spec-level outcome says.
pub open spec fn top_err_matches(e: Error, se: SpecTopError) -> bool {
    match se {
        SpecTopError::OutputNameInvalid => e is OutputNameInvalid,
        SpecTopError::NotFound { template, templates_dir } => (e matches Error::TemplateNotFound(
            t,
        ) && t.template@ == template && t.templates_dir@ == templates_dir),
        SpecTopError::NotValid { template_name, templates_dir } => (e
            matches Error::TemplateNotValid { template_name: tn, templates_dir: td } && tn@
            == template_name && td@ == templates_dir),
        SpecTopError::Gen(ge) => gen_err_matches(e, ge),
    }
}

/// What a whole run yields: the plan, or the first error, per the
/// documented walk order.
pub open spec fn spec_generate(
    cli: Seq<(String, String)>,
    template_name: Seq<char>,
    output: Seq<char>,
    config: Config,
    template: TemplateSource,
) -> Result<SpecPlan, SpecTopError> {
    match spec_file_name(output) {
        None => Err(SpecTopError::OutputNameInvalid),
        Some(oname) => {
            let vars = spec_attach(config.toml_config.variables@, cli, oname);
            let tpath = spec_join(config.toml_config.templates_path@, template_name);
            match template {
                TemplateSource::Missing => Err(
                    SpecTopError::NotFound {
                        template: template_name,
                        templates_dir: config.toml_config.templates_path@,
                    },
                ),
                TemplateSource::NotADirectory => Err(
                    SpecTopError::NotValid { template_name, templates_dir: tpath },
                ),
                TemplateSource::Directory(entries) => match spec_parent(output) {
                    None => Err(SpecTopError::OutputNameInvalid),
                    Some(parent) => match spec_gen_entries(
                        entries@,
                        tpath,
                        parent,
                        vars,
                        default_pipes(),
                    ) {
                        Ok(p) => Ok(SpecPlan { dirs: seq![parent] + p.dirs, files: p.files }),
                        Err(e) => Err(SpecTopError::Gen(e)),
                    },
                },
            }
        },
    }
}

/// A run's result and its spec-level outcome agree: the planned views on
/// success, the same error on failure.
pub open spec fn generate_result_matches(
    r: Result<GenerationPlan, Error>,
    cli: Seq<(String, String)>,
    template_name: Seq<char>,
    output: Seq<char>,
    config: Config,
    template: TemplateSource,
) -> bool {
    match r {
        Ok(plan) => spec_generate(cli, template_name, output, config, template) is Ok && plan@
            == spec_generate(cli, template_name, output, config, template)->Ok_0,
        Err(e) => spec_generate(cli, template_name, output, config, template) is Err
            && top_err_matches(
            e,
            spec_generate(cli, template_name, output, config, template)->Err_0,
        ),
    }
}

/// Idempotence law: generation is a function of its inputs. Any two run
/// results over equal inputs agree — they succeed or fail together, and
/// on success they plan byte-identical directories and files.
pub proof fn lemma_generate_deterministic(
    r1: Result<GenerationPlan, Error>,
    r2: Result<GenerationPlan, Error>,
    cli: Seq<(String, String)>,
    template_name: Seq<char>,
    output: Seq<char>,
    config: Config,
    template: TemplateSource,
)
    requires
        generate_result_matches(r1, cli, template_name, output, config, template),
        generate_result_matches(r2, cli, template_name, output, config, template),
    ensures
        r1 is Ok <==> r2 is Ok,
        r1 is Ok ==> r1->Ok_0@ == r2->Ok_0@,
{
}

/// Round-trip law: a template file none of whose lines contains an
/// open/close marker pair reproduces its lines byte-for-byte in the
/// planned output, whatever the bindings and the registry.
pub proof fn lemma_round_trip(
    lines: Seq<Seq<char>>,
    vars: Map<Seq<char>, Seq<char>>,
    reg: Map<Seq<char>, Pipe>,
)
    requires
        forall|i: int| 0 <= i < lines.len() ==> no_marker_pair(#[trigger] lines[i]),
    ensures
        spec_file_lines(lines, vars, reg) == Ok::<Seq<Seq<char>>, (Seq<char>, SpecParam)>(lines),
    decreases lines.len(),
{
    if lines.len() == 0 {
        assert(Seq::<Seq<char>>::empty() =~= lines);
    } else {
        lemma_literal_identity(lines[0], vars, reg);
        lemma_round_trip(lines.drop_first(), vars, reg);
        assert(seq![lines[0]] + lines.drop_first() =~= lines);
    }
}

/// Runs a whole generation: binds the variables, validates the template
/// and the output path, and plans the mirrored tree.
///
/// * `cli_variables`: the caller's key/value overrides,
/// * `template_name`: the template's name under the templates directory,
/// * `output`: the path the artifacts are generated at,
/// * `template`: what looking the template up on disk yielded.
pub fn generate(
    cli_variables: Vec<(String, String)>,
    template_name: String,
    output: String,
    config: Config,
    template: TemplateSource,
) -> (r: Result<GenerationPlan, Error>)
    ensures
        generate_result_matches(r, cli_variables@, template_name@, output@, config, template),
{
    let ghost cli = cli_variables@;
    let mut cfg = config;
    let output_name = match file_name(output.as_str()) {
        None => {
            return Err(Error::OutputNameInvalid);
        },
        Some(n) => n,
    };
    attatch_variables(&mut cfg.toml_config.variables, cli_variables, output_name);
    let template_path = join_path(cfg.toml_config.templates_path.as_str(), template_name.as_str());
    match template {
        TemplateSource::Missing => Err(
            Error::template_not_found(template_name, cfg.toml_config.templates_path),
        ),
        TemplateSource::NotADirectory => Err(
            Error::template_invalid(template_name, template_path),
        ),
        TemplateSource::Directory(entries) => {
            let parent = match parent_path(output.as_str()) {
                None => {
                    return Err(Error::OutputNameInvalid);
                },
                Some(p) => p,
            };
            let template_parser = DefaultTemplateParse::with_vars(cfg.toml_config.variables);
            let mut plan = GenerationPlan { dirs: Vec::new(), files: Vec::new() };
            plan.dirs.push(parent.clone());
            proof {
                assert(plan@.dirs =~= seq![parent@]);
                assert(plan@.files =~= Seq::<SpecFile>::empty());
            }
            match generate_dir(&entries, template_path, parent, &mut plan, &template_parser) {
                Ok(()) => {
                    proof {
                        let p = spec_gen_entries(
                            entries@,
                            spec_join(cfg.toml_config.templates_path@, template_name@),
                            spec_parent(output@)->0,
                            template_parser.spec_vars(),
                            template_parser.spec_pipes(),
                        )->Ok_0;
                        assert(plan@.dirs =~= seq![spec_parent(output@)->0] + p.dirs);
                    }
                    Ok(plan)
                },
                Err(e) => Err(e),
            }
        },
    }
}

} // verus!
