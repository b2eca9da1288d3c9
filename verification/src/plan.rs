//! The order in which a build's static library is made: for each source the
//! rerun directive and its compile command, then the archiver runs, then the
//! link directives. The caller performs the steps in order and stops at the
//! first command that fails.
use vstd::prelude::*;
use crate::builder::{compile_line, Build, BuildView};
use crate::command::{BuildVars, BuildVarsView, CommandLine, CommandLineView};
use crate::error::Error;
use crate::library::{
    archive_commands, archive_lines, chunk_count, lines, no_objects_message, rerun_directive,
};
use crate::path::{
    file_name_outcome, final_component, is_asm_name, is_asm_source, portable_path,
    starts_with_two_separators, windows_final_component,
};
use crate::text::strings;
use crate::tool::{Tool, ToolView};

verus! {

/// One step of making the library.
#[derive(Debug)]
pub enum Step {
    /// Print a directive for Cargo.
    Print(String),
    /// Run a command; a failure ends the build.
    Run(CommandLine),
}

/// The model of a step.
pub enum StepView {
    Print(Seq<char>),
    Run(CommandLineView),
}

impl View for Step {
    type V = StepView;

    open spec fn view(&self) -> StepView {
        match self {
            Step::Print(s) => StepView::Print(s@),
            Step::Run(c) => StepView::Run(c@),
        }
    }
}

/// The steps taken by their models.
pub open spec fn step_views(v: Seq<Step>) -> Seq<StepView> {
    v.map_values(|s: Step| s@)
}

/// Whether `masm` is what the file name of `source` says of it: whether its
/// extension is `asm`, as std finds the file name on this platform.
pub open spec fn source_kind(source: Seq<char>, masm: bool) -> bool {
    &&& exists|n: Option<Seq<char>>| #[trigger]
        file_name_outcome(source, n) && masm == is_asm_name(n)
    &&& portable_path(source) ==> masm == is_asm_name(final_component(source))
    &&& !starts_with_two_separators(source) ==> (masm == is_asm_name(final_component(source))
        || masm == is_asm_name(windows_final_component(source)))
}

/// Whether `kinds` says, source by source, whether each is for MASM.
pub open spec fn source_kinds(files: Seq<Seq<char>>, kinds: Seq<bool>) -> bool {
    &&& kinds.len() == files.len()
    &&& forall|i: int| 0 <= i < files.len() ==> source_kind(files[i], #[trigger] kinds[i])
}

/// For each source in turn: the rerun directive, then the command that
/// compiles it into its object.
pub open spec fn source_steps(
    b: BuildView,
    compiler: ToolView,
    files: Seq<Seq<char>>,
    objects: Seq<Seq<char>>,
    vars: BuildVarsView,
    kinds: Seq<bool>,
) -> Seq<StepView>
    decreases files.len(),
{
    if files.len() == 0 {
        Seq::empty()
    } else {
        let k = files.len() - 1;
        source_steps(b, compiler, files.drop_last(), objects.take(k), vars, kinds.take(k))
            + seq![
            StepView::Print("cargo:rerun-if-changed="@ + files[k]),
            StepView::Run(compile_line(b, compiler, files[k], objects[k], vars, kinds[k])),
        ]
    }
}

/// All the steps that make the library `lib_name` in `archive` under
/// `out_dir`, with the object of each source given by `objects`.
pub open spec fn library_steps(
    b: BuildView,
    compiler: ToolView,
    objects: Seq<Seq<char>>,
    archive: Seq<char>,
    lib_name: Seq<char>,
    out_dir: Seq<char>,
    vars: BuildVarsView,
    kinds: Seq<bool>,
) -> Seq<StepView> {
    source_steps(b, compiler, b.files, objects, vars, kinds) + archive_lines(
        compiler.msvc,
        vars.archiver,
        archive,
        objects,
    ).map_values(|c: CommandLineView| StepView::Run(c)) + if b.cargo_metadata {
        seq![
            StepView::Print("cargo:rustc-link-lib=static="@ + lib_name),
            StepView::Print("cargo:rustc-link-search=native="@ + out_dir),
        ]
    } else {
        Seq::empty()
    }
}

/// The steps that make the library `lib_name` of the build `b` in the
/// archive `archive`, where `objects[i]` is the object of the `i`-th source;
/// an error, before any step, where the build has no source.
pub fn library_plan(
    b: &Build,
    compiler: &Tool,
    objects: &Vec<String>,
    archive: &str,
    lib_name: &str,
    out_dir: &str,
    vars: &BuildVars,
) -> (r: Result<Vec<Step>, Error>)
    requires
        objects@.len() == b@.files.len(),
    ensures
        b@.files.len() == 0 ==> (r matches Err(e) && e@ == no_objects_message()),
        b@.files.len() > 0 ==> (r matches Ok(steps) && exists|kinds: Seq<bool>| #[trigger]
            source_kinds(b@.files, kinds) && step_views(steps@) == library_steps(
                b@,
                compiler@,
                strings(objects@),
                archive@,
                lib_name@,
                out_dir@,
                vars@,
                kinds,
            )),
{
    let files = b.source_files();
    let n = files.len();
    if n == 0 {
        return Err(Error::new("no source files were given to compile"));
    }
    let ghost fv = strings(files@);
    let ghost ov = strings(objects@);
    let mut steps: Vec<Step> = Vec::new();
    let ghost mut kinds: Seq<bool> = Seq::empty();
    let mut i: usize = 0;
    while i < n
        invariant
            n == files@.len(),
            n == objects@.len(),
            fv == strings(files@),
            fv == b@.files,
            ov == strings(objects@),
            i <= n,
            kinds.len() == i,
            forall|j: int| 0 <= j < i ==> source_kind(fv[j], #[trigger] kinds[j]),
            step_views(steps@) == source_steps(
                b@,
                compiler@,
                fv.take(i as int),
                ov.take(i as int),
                vars@,
                kinds,
            ),
        decreases n - i,
    {
        let source = files[i].as_str();
        let masm = is_asm_source(source);
        let ghost before = step_views(steps@);
        steps.push(Step::Print(rerun_directive(source)));
        steps.push(Step::Run(b.compile_command_for(compiler, source, objects[i].as_str(), vars, masm)));
        proof {
            let old_kinds = kinds;
            kinds = kinds.push(masm);
            assert(source_kind(fv[i as int], masm));
            assert forall|j: int| 0 <= j < i + 1 implies source_kind(fv[j], #[trigger] kinds[j]) by {
                if j < i {
                    assert(kinds[j] == old_kinds[j]);
                }
            }
            let ft = fv.take(i + 1);
            let ot = ov.take(i + 1);
            assert(ft.drop_last() =~= fv.take(i as int));
            assert(ot.take(i as int) =~= ov.take(i as int));
            assert(kinds.take(i as int) =~= old_kinds);
            assert(ft[i as int] == source@);
            assert(ot[i as int] == objects@[i as int]@);
            assert(step_views(steps@) =~= before + seq![
                StepView::Print("cargo:rerun-if-changed="@ + ft[i as int]),
                StepView::Run(
                    compile_line(b@, compiler@, ft[i as int], ot[i as int], vars@, kinds[i as int]),
                ),
            ]);
        }
        i += 1;
    }
    proof {
        assert(fv.take(n as int) =~= fv);
        assert(ov.take(n as int) =~= ov);
    }
    let archiver = match &vars.archiver {
        Some(a) => Some(a.as_str()),
        None => None,
    };
    let runs = archive_commands(compiler, archiver, archive, objects)?;
    let ghost after_sources = step_views(steps@);
    let ghost arch = archive_lines(compiler@.msvc, vars@.archiver, archive@, ov);
    let mut runs = runs;
    let ghost all = lines(runs@);
    let ghost start = runs@;
    let mut k: usize = 0;
    let count = runs.len();
    while k < count
        invariant
            count == all.len(),
            count == start.len(),
            all == lines(start),
            k <= count,
            runs@ == start.skip(k as int),
            step_views(steps@) == after_sources + all.take(k as int).map_values(
                |c: CommandLineView| StepView::Run(c),
            ),
        decreases count - k,
    {
        let ghost before = step_views(steps@);
        let line = runs.remove(0);
        assert(line@ == all[k as int]);
        assert(start.skip(k as int).remove(0) =~= start.skip(k + 1));
        steps.push(Step::Run(line));
        assert(step_views(steps@) =~= before.push(StepView::Run(all[k as int])));
        assert(all.take(k + 1) =~= all.take(k as int).push(all[k as int]));
        assert(all.take(k + 1).map_values(|c: CommandLineView| StepView::Run(c)) =~= all.take(
            k as int,
        ).map_values(|c: CommandLineView| StepView::Run(c)).push(StepView::Run(all[k as int])));
        assert(step_views(steps@) =~= after_sources + all.take(k + 1).map_values(
            |c: CommandLineView| StepView::Run(c),
        ));
        k += 1;
    }
    assert(all.take(count as int) =~= all);
    let ghost after_runs = step_views(steps@);
    let directives = b.link_directives(lib_name, out_dir);
    let mut d: usize = 0;
    while d < directives.len()
        invariant
            d <= directives@.len(),
            step_views(steps@) == after_runs + strings(directives@).take(d as int).map_values(
                |s: Seq<char>| StepView::Print(s),
            ),
        decreases directives.len() - d,
    {
        let ghost before = step_views(steps@);
        steps.push(Step::Print(directives[d].clone()));
        let ghost dv = strings(directives@);
        assert(step_views(steps@) =~= before.push(StepView::Print(dv[d as int])));
        assert(dv.take(d + 1) =~= dv.take(d as int).push(dv[d as int]));
        assert(dv.take(d + 1).map_values(|s: Seq<char>| StepView::Print(s)) =~= dv.take(
            d as int,
        ).map_values(|s: Seq<char>| StepView::Print(s)).push(StepView::Print(dv[d as int])));
        assert(step_views(steps@) =~= after_runs + dv.take(d + 1).map_values(
            |s: Seq<char>| StepView::Print(s),
        ));
        d += 1;
    }
    proof {
        let dv = strings(directives@);
        assert(dv.take(dv.len() as int) =~= dv);
        let tail = if b@.cargo_metadata {
            seq![
                StepView::Print("cargo:rustc-link-lib=static="@ + lib_name@),
                StepView::Print("cargo:rustc-link-search=native="@ + out_dir@),
            ]
        } else {
            Seq::empty()
        };
        assert(dv.map_values(|s: Seq<char>| StepView::Print(s)) =~= tail);
        assert(source_kinds(b@.files, kinds));
        assert(step_views(steps@) =~= library_steps(
            b@,
            compiler@,
            ov,
            archive@,
            lib_name@,
            out_dir@,
            vars@,
            kinds,
        ));
    }
    Ok(steps)
}

/// Each source gives two steps: its rerun directive and its compile command.
pub proof fn lemma_source_steps_len(
    b: BuildView,
    compiler: ToolView,
    files: Seq<Seq<char>>,
    objects: Seq<Seq<char>>,
    vars: BuildVarsView,
    kinds: Seq<bool>,
)
    ensures
        source_steps(b, compiler, files, objects, vars, kinds).len() == 2 * files.len(),
    decreases files.len(),
{
    if files.len() > 0 {
        let k = files.len() - 1;
        lemma_source_steps_len(b, compiler, files.drop_last(), objects.take(k), vars, kinds.take(k));
    }
}

/// Where `AR` names an archiver, every archiver run of the plan (the runs
/// after the two steps of each source: one for MSVC, one per forty objects
/// otherwise) runs that archiver.
pub proof fn lemma_plan_runs_named_archiver(
    b: BuildView,
    compiler: ToolView,
    objects: Seq<Seq<char>>,
    archive: Seq<char>,
    lib_name: Seq<char>,
    out_dir: Seq<char>,
    vars: BuildVarsView,
    kinds: Seq<bool>,
    a: Seq<char>,
)
    requires
        vars.archiver == Some(a),
    ensures
        forall|j: int|
            2 * b.files.len() <= j < 2 * b.files.len() + (if compiler.msvc {
                1
            } else {
                chunk_count(objects.len()) as int
            }) ==> (#[trigger] library_steps(
                b,
                compiler,
                objects,
                archive,
                lib_name,
                out_dir,
                vars,
                kinds,
            )[j] matches StepView::Run(c) && c.program == a),
{
    lemma_source_steps_len(b, compiler, b.files, objects, vars, kinds);
    let s = source_steps(b, compiler, b.files, objects, vars, kinds);
    let runs = archive_lines(compiler.msvc, vars.archiver, archive, objects);
    let f = |c: CommandLineView| StepView::Run(c);
    let steps = library_steps(b, compiler, objects, archive, lib_name, out_dir, vars, kinds);
    assert forall|j: int|
        2 * b.files.len() <= j < 2 * b.files.len() + (if compiler.msvc {
            1
        } else {
            chunk_count(objects.len()) as int
        }) implies (#[trigger] steps[j] matches StepView::Run(c) && c.program == a) by {
        let k = j - s.len();
        assert(runs.len() == if compiler.msvc {
            1
        } else {
            chunk_count(objects.len()) as int
        });
        assert(steps[j] == runs.map_values(f)[k]);
        assert(runs[k].program == a);
    }
}

} // verus!
