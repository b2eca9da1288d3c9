//! The static library a build makes: its names, the names of its objects,
//! the commands that archive the objects, and the directives for Cargo.
use vstd::prelude::*;
use crate::command::{CommandLine, CommandLineView};
use crate::error::Error;
use crate::text::{
    concat, decimal, decimal_string, ends_with, skip_str, starts_with, str_ends_with, str_eq,
    str_has_char, str_starts_with, strings, take_str,
};
use crate::tool::Tool;

verus! {

/// Objects handed to one run of a GNU-like archiver at most.
pub open spec fn chunk_size() -> nat {
    40
}

/// A name that `compile` takes for its output: one normal path component,
/// which is not empty.
pub open spec fn valid_output_name(output: Seq<char>) -> bool {
    &&& output.len() > 0
    &&& !output.contains('/')
    &&& !output.contains('\\')
    &&& output != "."@
    &&& output != ".."@
}

/// The library's name for the linker and the GNU-style archive's file name:
/// `libNAME.a` gives `NAME`, any other `NAME` gives `NAME` and `libNAME.a`.
pub open spec fn library_names_of(output: Seq<char>) -> (Seq<char>, Seq<char>) {
    let rest = output.skip("lib"@.len() as int);
    if starts_with(output, "lib"@) && ends_with(rest, ".a"@) {
        (rest.take(rest.len() - ".a"@.len()), output)
    } else {
        (output, "lib"@ + output + ".a"@)
    }
}

/// The message for an output name that is not one normal path component.
pub open spec fn bad_output_message() -> Seq<char> {
    "argument of `compile` must be a single normal path component"@
}

/// The message for an archive without objects.
pub open spec fn no_objects_message() -> Seq<char> {
    "no source files were given to compile"@
}

/// The number of runs of a GNU-like archiver for `n` objects.
pub open spec fn chunk_count(n: nat) -> nat {
    n / chunk_size() + if n % chunk_size() == 0 {
        0nat
    } else {
        1nat
    }
}

/// The objects that the run `k` of a GNU-like archiver adds.
pub open spec fn chunk(objects: Seq<Seq<char>>, k: int) -> Seq<Seq<char>> {
    let start = chunk_size() * k;
    let end = if start + chunk_size() <= objects.len() {
        start + chunk_size()
    } else {
        objects.len() as int
    };
    objects.subrange(start, end)
}

/// The runs of a GNU-like archiver `ar` that put `objects` into `archive`:
/// the first creates the archive with its index (`rcs`), the others add (`r`).
pub open spec fn gnu_archive_lines(
    ar: Seq<char>,
    archive: Seq<char>,
    objects: Seq<Seq<char>>,
) -> Seq<CommandLineView> {
    Seq::new(
        chunk_count(objects.len()),
        |k: int|
            CommandLineView {
                program: ar,
                args: seq![
                    if k == 0 {
                        "rcs"@
                    } else {
                        "r"@
                    },
                    archive,
                ] + chunk(objects, k),
            },
    )
}

/// The commands that put `objects` into `archive`.
pub open spec fn archive_lines(
    msvc: bool,
    archiver: Option<Seq<char>>,
    archive: Seq<char>,
    objects: Seq<Seq<char>>,
) -> Seq<CommandLineView> {
    if msvc {
        seq![
            CommandLineView {
                program: match archiver {
                    Some(a) => a,
                    None => "lib"@,
                },
                args: seq!["/nologo"@, "/OUT:"@ + archive] + objects,
            },
        ]
    } else {
        gnu_archive_lines(
            match archiver {
                Some(a) => a,
                None => "ar"@,
            },
            archive,
            objects,
        )
    }
}

/// The command lines taken by their models.
pub open spec fn lines(v: Seq<CommandLine>) -> Seq<CommandLineView> {
    v.map_values(|c: CommandLine| c@)
}

/// The names of the library that `compile` makes from `output`: the name
/// for the linker and the GNU-style archive's file name.
pub fn library_names(output: &str) -> (r: Result<(String, String), Error>)
    ensures
        !valid_output_name(output@) ==> (r matches Err(e) && e@ == bad_output_message()),
        valid_output_name(output@) ==> (r matches Ok(names) && (names.0@, names.1@)
            == library_names_of(output@)),
{
    if output.unicode_len() == 0 || str_has_char(output, '/') || str_has_char(output, '\\') || str_eq(output, ".") || str_eq(
        output,
        "..",
    ) {
        return Err(Error::new("argument of `compile` must be a single normal path component"));
    }
    if str_starts_with(output, "lib") {
        let rest = skip_str(output, "lib".unicode_len());
        if str_ends_with(rest.as_str(), ".a") {
            let keep = rest.as_str().unicode_len() - ".a".unicode_len();
            let stripped = take_str(rest.as_str(), keep);
            return Ok((stripped, String::from_str(output)));
        }
    }
    let with_lib = concat("lib", output);
    Ok((String::from_str(output), with_lib.concat(".a")))
}

/// The file name of the object compiled from the source at `index`.
pub fn object_file_name(index: usize) -> (r: String)
    ensures
        r@ == decimal(index as nat) + ".o"@,
{
    let n = decimal_string(index as u64);
    n.concat(".o")
}

/// The directories, from the output directory down, that hold the objects
/// of the library `lib_name`.
pub fn object_dir_parts(lib_name: &str) -> (r: Vec<String>)
    ensures
        strings(r@) == seq!["cbuild-objects"@, lib_name@],
{
    let mut r: Vec<String> = Vec::new();
    r.push(String::from_str("cbuild-objects"));
    r.push(String::from_str(lib_name));
    assert(strings(r@) =~= seq!["cbuild-objects"@, lib_name@]);
    r
}

/// The file name of the archive: `NAME.lib` for MSVC, else the GNU-style name.
pub fn archive_file_name(compiler: &Tool, lib_name: &str, gnu_lib_name: &str) -> (r: String)
    ensures
        r@ == if compiler@.msvc {
            lib_name@ + ".lib"@
        } else {
            gnu_lib_name@
        },
{
    if compiler.is_like_msvc() {
        concat(lib_name, ".lib")
    } else {
        String::from_str(gnu_lib_name)
    }
}

/// The directive that has Cargo run the build again when `source` changes.
pub fn rerun_directive(source: &str) -> (r: String)
    ensures
        r@ == "cargo:rerun-if-changed="@ + source@,
{
    concat("cargo:rerun-if-changed=", source)
}

/// The commands that put `objects` into `archive` with the archiver
/// `archiver` (`AR`) or the default one; an error where there are no objects.
pub fn archive_commands(
    compiler: &Tool,
    archiver: Option<&str>,
    archive: &str,
    objects: &Vec<String>,
) -> (r: Result<Vec<CommandLine>, Error>)
    ensures
        objects@.len() == 0 ==> (r matches Err(e) && e@ == no_objects_message()),
        objects@.len() > 0 ==> (r matches Ok(cmds) && lines(cmds@) == archive_lines(
            compiler@.msvc,
            match archiver {
                Some(a) => Some(a@),
                None => None,
            },
            archive@,
            strings(objects@),
        )),
{
    if objects.len() == 0 {
        return Err(Error::new("no source files were given to compile"));
    }
    let ghost objs = strings(objects@);
    let ghost ar_view = match archiver {
        Some(a) => Some(a@),
        None => None,
    };
    if compiler.is_like_msvc() {
        let program = match archiver {
            Some(a) => String::from_str(a),
            None => String::from_str("lib"),
        };
        let mut args: Vec<String> = Vec::new();
        args.push(String::from_str("/nologo"));
        args.push(concat("/OUT:", archive));
        let ghost g = strings(args@);
        let mut i: usize = 0;
        while i < objects.len()
            invariant
                i <= objects@.len(),
                strings(args@) == g + strings(objects@).take(i as int),
            decreases objects.len() - i,
        {
            let ghost before = strings(args@);
            args.push(objects[i].clone());
            assert(strings(args@) =~= before.push(objects@[i as int]@));
            assert(strings(objects@).take(i + 1) =~= strings(objects@).take(i as int).push(
                objects@[i as int]@,
            ));
            i += 1;
        }
        assert(strings(objects@).take(objects@.len() as int) =~= strings(objects@));
        assert(g =~= seq!["/nologo"@, "/OUT:"@ + archive@]);
        assert(strings(args@) =~= seq!["/nologo"@, "/OUT:"@ + archive@] + objs);
        let mut cmds: Vec<CommandLine> = Vec::new();
        cmds.push(CommandLine { program, args });
        assert(cmds@[0]@ == archive_lines(true, ar_view, archive@, objs)[0]);
        assert(lines(cmds@) =~= archive_lines(true, ar_view, archive@, objs));
        return Ok(cmds);
    }
    let n = objects.len();
    let count: usize = n / 40 + if n % 40 == 0 {
        0
    } else {
        1
    };
    let ghost ar = match archiver {
        Some(a) => a@,
        None => "ar"@,
    };
    let mut cmds: Vec<CommandLine> = Vec::new();
    let mut k: usize = 0;
    while k < count
        invariant
            n == objects@.len(),
            count == chunk_count(n as nat),
            k <= count,
            cmds@.len() == k,
            objs == strings(objects@),
            ar == (match archiver {
                Some(a) => a@,
                None => "ar"@,
            }),
            lines(cmds@) == gnu_archive_lines(ar, archive@, objs).take(k as int),
        decreases count - k,
    {
        assert(40 * k < n);
        let start: usize = 40 * k;
        let end: usize = if n - start > 40 {
            start + 40
        } else {
            n
        };
        let program = match archiver {
            Some(a) => String::from_str(a),
            None => String::from_str("ar"),
        };
        let mut args: Vec<String> = Vec::new();
        if k == 0 {
            args.push(String::from_str("rcs"));
        } else {
            args.push(String::from_str("r"));
        }
        args.push(String::from_str(archive));
        let ghost g = strings(args@);
        let mut i: usize = start;
        while i < end
            invariant
                start <= i <= end,
                end <= objects@.len(),
                strings(args@) == g + strings(objects@).subrange(start as int, i as int),
            decreases end - i,
        {
            let ghost before = strings(args@);
            args.push(objects[i].clone());
            assert(strings(args@) =~= before.push(objects@[i as int]@));
            assert(strings(objects@).subrange(start as int, i + 1) =~= strings(
                objects@,
            ).subrange(start as int, i as int).push(objects@[i as int]@));
            i += 1;
        }
        let ghost before = lines(cmds@);
        assert(strings(args@) =~= g + objs.subrange(start as int, end as int));
        cmds.push(CommandLine { program, args });
        proof {
            let line = gnu_archive_lines(ar, archive@, objs)[k as int];
            assert(chunk(objs, k as int) =~= objs.subrange(start as int, end as int));
            assert(g =~= seq![
                if k == 0 {
                    "rcs"@
                } else {
                    "r"@
                },
                archive@,
            ]);
            assert(cmds@[k as int]@ == line);
            assert(lines(cmds@) =~= gnu_archive_lines(ar, archive@, objs).take(k + 1));
        }
        k += 1;
    }
    assert(gnu_archive_lines(ar, archive@, objs).take(count as int) =~= gnu_archive_lines(
        ar,
        archive@,
        objs,
    ));
    Ok(cmds)
}

/// The GNU-style archive's file name is always `lib`, the library's name
/// and `.a`.
pub proof fn lemma_gnu_name_wraps_lib_name(output: Seq<char>)
    ensures
        library_names_of(output).1 == "lib"@ + library_names_of(output).0 + ".a"@,
{
    reveal_strlit("lib");
    reveal_strlit(".a");
    let rest = output.skip(3);
    if starts_with(output, "lib"@) && ends_with(rest, ".a"@) {
        let stripped = rest.take(rest.len() - 2);
        assert(output =~= output.subrange(0, 3) + rest);
        assert(rest =~= stripped + rest.subrange(rest.len() - 2, rest.len() as int));
        assert(output =~= "lib"@ + stripped + ".a"@);
    }
}

/// Naming the output after the GNU-style archive's file name gives back the
/// same names.
pub proof fn lemma_library_names_idempotent(output: Seq<char>)
    ensures
        library_names_of(library_names_of(output).1) == library_names_of(output),
{
    reveal_strlit("lib");
    reveal_strlit(".a");
    lemma_gnu_name_wraps_lib_name(output);
    let (lib, gnu) = library_names_of(output);
    assert(gnu =~= "lib"@ + lib + ".a"@);
    assert(gnu.subrange(0, 3) =~= "lib"@);
    let rest = gnu.skip(3);
    assert(rest =~= lib + ".a"@);
    assert(rest.subrange(rest.len() - 2, rest.len() as int) =~= ".a"@);
    assert(rest.take(rest.len() - 2) =~= lib);
}

/// The objects of the runs of a GNU-like archiver, taken in order, are the
/// objects given, each once.
pub proof fn lemma_archive_runs_cover_objects(ar: Seq<char>, archive: Seq<char>, objects: Seq<Seq<char>>)
    ensures
        Seq::new(
            chunk_count(objects.len()),
            |k: int| chunk(objects, k),
        ).flatten() == objects,
        forall|k: int|
            0 <= k < chunk_count(objects.len()) ==> 0 < #[trigger] chunk(objects, k).len()
                <= chunk_size(),
{
    let c = chunk_count(objects.len());
    let runs = Seq::new(c, |k: int| chunk(objects, k));
    lemma_chunks_prefix(objects, c);
    runs.lemma_flatten_and_flatten_alt_are_equivalent();
    assert(objects.take(objects.len() as int) =~= objects);
}

/// The first `c` runs add the first `40 * c` objects (or all of them).
proof fn lemma_chunks_prefix(objects: Seq<Seq<char>>, c: nat)
    requires
        c <= chunk_count(objects.len()),
    ensures
        Seq::new(c, |k: int| chunk(objects, k)).flatten_alt() == objects.take(
            if chunk_size() * c <= objects.len() {
                (chunk_size() * c) as int
            } else {
                objects.len() as int
            },
        ),
    decreases c,
{
    let runs = Seq::new(c, |k: int| chunk(objects, k));
    if c == 0 {
        assert(objects.take(0) =~= Seq::<Seq<char>>::empty());
    } else {
        lemma_chunks_prefix(objects, (c - 1) as nat);
        assert(runs.drop_last() =~= Seq::new((c - 1) as nat, |k: int| chunk(objects, k)));
        assert(40 * (c - 1) < objects.len());
        let prev_end: int = 40 * (c - 1);
        let end: int = if 40 * c <= objects.len() {
            (40 * c) as int
        } else {
            objects.len() as int
        };
        assert(objects.take(prev_end) + chunk(objects, c - 1) =~= objects.take(end));
    }
}

/// `compile` accepts exactly the names that are one normal path component:
/// not empty, no `/`, no backslash, neither `.` nor `..`; any other character
/// (such as `_` or `-`) is allowed.
pub proof fn lemma_output_names_accepted(output: Seq<char>)
    ensures
        valid_output_name(output) <==> (output.len() > 0 && (forall|i: int|
            0 <= i < output.len() ==> #[trigger] output[i] != '/' && output[i] != '\\')
            && output != "."@ && output != ".."@),
{
    if valid_output_name(output) {
        assert forall|i: int| 0 <= i < output.len() implies #[trigger] output[i] != '/'
            && output[i] != '\\' by {
            if output[i] == '/' {
                assert(output.contains('/'));
            }
            if output[i] == '\\' {
                assert(output.contains('\\'));
            }
        }
    }
}

} // verus!
