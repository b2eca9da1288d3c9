//! The description of a build of C sources into a static library, and the
//! command lines that compile, preprocess and probe with it.
use vstd::prelude::*;
use crate::command::{BuildVars, BuildVarsView, CommandLine, CommandLineView};
use crate::error::Error;
use crate::flags::{
    compile_only_args, flag_for, map_flag, map_opt_level, map_std, opt_level_flag,
    push_compile_only, std_flag,
};
use crate::path::{
    file_name_outcome, final_component, is_asm_name, is_asm_source, portable_path,
    starts_with_two_separators, windows_final_component,
};
use crate::text::{
    concat, decimal, decimal_string, keep_alphanumeric, opt_chars, str_eq, strings,
    alphanumeric_only,
};
use crate::tool::{CompilerSearch, Tool, ToolView};

verus! {

/// A build of C (or C++) sources, compiled one by one and archived into a
/// static library.
#[derive(Debug, Clone)]
pub struct Build {
    files: Vec<String>,
    includes: Vec<String>,
    definitions: Vec<(String, Option<String>)>,
    flags: Vec<String>,
    cpp: bool,
    standard: Option<String>,
    warnings: bool,
    opt_level: Option<String>,
    static_crt: bool,
    cargo_metadata: bool,
    out_dir: Option<String>,
}

/// The model of a build.
pub struct BuildView {
    /// The sources, in the order they are compiled.
    pub files: Seq<Seq<char>>,
    /// The include directories, in order.
    pub includes: Seq<Seq<char>>,
    /// The preprocessor definitions: a name and, where given, its value.
    pub definitions: Seq<(Seq<char>, Option<Seq<char>>)>,
    /// Extra flags, written for GNU-like drivers.
    pub flags: Seq<Seq<char>>,
    pub cpp: bool,
    /// The language standard.
    pub standard: Option<Seq<char>>,
    pub warnings: bool,
    pub opt_level: Option<Seq<char>>,
    pub static_crt: bool,
    pub cargo_metadata: bool,
    pub out_dir: Option<Seq<char>>,
}

/// A definition taken by its characters.
pub open spec fn definition_chars(d: (String, Option<String>)) -> (Seq<char>, Option<Seq<char>>) {
    (d.0@, opt_chars(d.1))
}

impl View for Build {
    type V = BuildView;

    closed spec fn view(&self) -> BuildView {
        BuildView {
            files: strings(self.files@),
            includes: strings(self.includes@),
            definitions: self.definitions@.map_values(
                |d: (String, Option<String>)| definition_chars(d),
            ),
            flags: strings(self.flags@),
            cpp: self.cpp,
            standard: opt_chars(self.standard),
            warnings: self.warnings,
            opt_level: opt_chars(self.opt_level),
            static_crt: self.static_crt,
            cargo_metadata: self.cargo_metadata,
            out_dir: opt_chars(self.out_dir),
        }
    }
}

/// A build with nothing in it: warnings on, directives for Cargo on.
pub open spec fn empty_build() -> BuildView {
    BuildView {
        files: Seq::empty(),
        includes: Seq::empty(),
        definitions: Seq::empty(),
        flags: Seq::empty(),
        cpp: false,
        standard: None,
        warnings: true,
        opt_level: None,
        static_crt: false,
        cargo_metadata: true,
        out_dir: None,
    }
}

/// The arguments for one include directory.
pub open spec fn include_arg(dir: Seq<char>, msvc: bool) -> Seq<Seq<char>> {
    if msvc {
        seq!["/I"@ + dir]
    } else {
        seq!["-I"@, dir]
    }
}

/// The arguments for the include directories, in order.
pub open spec fn include_args(dirs: Seq<Seq<char>>, msvc: bool) -> Seq<Seq<char>>
    decreases dirs.len(),
{
    if dirs.len() == 0 {
        Seq::empty()
    } else {
        include_args(dirs.drop_last(), msvc) + include_arg(dirs.last(), msvc)
    }
}

/// A definition as the preprocessor reads it: `name` or `name=value`.
pub open spec fn definition_text(d: (Seq<char>, Option<Seq<char>>)) -> Seq<char> {
    match d.1 {
        Some(v) => d.0 + "="@ + v,
        None => d.0,
    }
}

/// The argument for one definition.
pub open spec fn define_arg(d: (Seq<char>, Option<Seq<char>>), msvc: bool) -> Seq<char> {
    (if msvc {
        "/D"@
    } else {
        "-D"@
    }) + definition_text(d)
}

/// The arguments for the definitions, in order.
pub open spec fn define_args(defs: Seq<(Seq<char>, Option<Seq<char>>)>, msvc: bool) -> Seq<
    Seq<char>,
> {
    defs.map_values(|d: (Seq<char>, Option<Seq<char>>)| define_arg(d, msvc))
}

/// The extra flags, each in the form the driver takes.
pub open spec fn flag_args(flags: Seq<Seq<char>>, msvc: bool) -> Seq<Seq<char>> {
    flags.map_values(|f: Seq<char>| flag_for(f, msvc))
}

/// The optimisation level used: the build's own, else the one Cargo asks for.
pub open spec fn chosen_opt_level(own: Option<Seq<char>>, asked: Option<Seq<char>>) -> Option<
    Seq<char>,
> {
    match own {
        Some(l) => Some(l),
        None => asked,
    }
}

/// The arguments that compile `source` into `object` with a driver that
/// takes MSVC-style flags or not.
pub open spec fn compile_args(
    b: BuildView,
    msvc: bool,
    source: Seq<char>,
    object: Seq<char>,
    vars: BuildVarsView,
) -> Seq<Seq<char>> {
    compile_only_args(msvc, object) + (if msvc && b.cpp {
        seq!["/TP"@]
    } else {
        Seq::empty()
    }) + (match b.standard {
        Some(s) => seq![std_flag(s, msvc)],
        None => Seq::empty(),
    }) + (if msvc {
        seq![
            if b.static_crt {
                "/MT"@
            } else {
                "/MD"@
            },
        ]
    } else {
        Seq::empty()
    }) + (match chosen_opt_level(b.opt_level, vars.opt_level) {
        Some(l) => seq![opt_level_flag(l, msvc)],
        None => Seq::empty(),
    }) + (if !b.warnings {
        seq![
            if msvc {
                "/w"@
            } else {
                "-w"@
            },
        ]
    } else {
        Seq::empty()
    }) + include_args(b.includes, msvc) + define_args(b.definitions, msvc) + flag_args(
        b.flags,
        msvc,
    ) + (if !msvc && vars.debug == Some("true"@) {
        seq!["-g"@]
    } else {
        Seq::empty()
    }) + seq![source]
}

/// The command that assembles `source` into `object` with MASM.
pub open spec fn assemble_line(source: Seq<char>, object: Seq<char>, vars: BuildVarsView) -> CommandLineView {
    CommandLineView {
        program: match vars.assembler {
            Some(a) => a,
            None => "ml64"@,
        },
        args: seq!["/nologo"@, "/c"@, "/Fo"@ + object, source],
    }
}

/// The command that turns `source` into `object`: MASM for an `asm` source
/// where the driver is MSVC-like, else the driver.
pub open spec fn compile_line(
    b: BuildView,
    compiler: ToolView,
    source: Seq<char>,
    object: Seq<char>,
    vars: BuildVarsView,
    masm: bool,
) -> CommandLineView {
    if compiler.msvc && masm {
        assemble_line(source, object, vars)
    } else {
        CommandLineView {
            program: compiler.path,
            args: compile_args(b, compiler.msvc, source, object, vars),
        }
    }
}

/// The arguments that preprocess the first source to standard output.
pub open spec fn expand_args(b: BuildView, msvc: bool) -> Seq<Seq<char>> {
    (if msvc {
        seq!["/nologo"@, "/E"@]
    } else {
        seq!["-E"@]
    }) + include_args(b.includes, msvc) + define_args(b.definitions, msvc) + flag_args(
        b.flags,
        msvc,
    ) + seq![b.files[0]]
}

/// The message when there is nothing to preprocess.
pub open spec fn no_source_message() -> Seq<char> {
    "try_expand requires a source file"@
}

/// The name of the throw-away source that probes a flag, from the process id
/// and the flag's ASCII letters and digits.
pub open spec fn probe_stem(pid: nat, flag: Seq<char>) -> Seq<char> {
    "cbuild-flag-"@ + decimal(pid) + "-"@ + keep_alphanumeric(flag)
}

impl Default for Build {
    /// A build with nothing in it.
    fn default() -> (b: Build)
        ensures
            b@ == empty_build(),
    {
        let b = Build {
            files: Vec::new(),
            includes: Vec::new(),
            definitions: Vec::new(),
            flags: Vec::new(),
            cpp: false,
            standard: None,
            warnings: true,
            opt_level: None,
            static_crt: false,
            cargo_metadata: true,
            out_dir: None,
        };
        assert(b@.files =~= Seq::<Seq<char>>::empty());
        assert(b@.includes =~= Seq::<Seq<char>>::empty());
        assert(b@.flags =~= Seq::<Seq<char>>::empty());
        assert(b@.definitions =~= Seq::<(Seq<char>, Option<Seq<char>>)>::empty());
        b
    }
}

impl Build {
    /// A build with nothing in it.
    pub fn new() -> (b: Build)
        ensures
            b@ == empty_build(),
    {
        Build::default()
    }

    /// Adds a source file, compiled after those added before.
    pub fn file(&mut self, path: &str) -> (r: &mut Build)
        ensures
            r@ == (BuildView { files: old(self)@.files.push(path@), ..old(self)@ }),
            *final(self) == *final(r),
    {
        self.files.push(String::from_str(path));
        assert(strings(self.files@) =~= strings(old(self).files@).push(path@));
        self
    }

    /// Adds source files, in order.
    pub fn files(&mut self, paths: &[&str]) -> (r: &mut Build)
        ensures
            r@ == (BuildView {
                files: old(self)@.files + paths@.map_values(|p: &str| p@),
                ..old(self)@
            }),
            *final(self) == *final(r),
    {
        let ghost start = self@;
        let mut i: usize = 0;
        while i < paths.len()
            invariant
                i <= paths@.len(),
                self@ == (BuildView {
                    files: start.files + paths@.take(i as int).map_values(|p: &str| p@),
                    ..start
                }),
            decreases paths.len() - i,
        {
            let ghost before = self.files@;
            self.files.push(String::from_str(paths[i]));
            assert(strings(self.files@) =~= strings(before).push(paths@[i as int]@));
            assert(paths@.take(i + 1).map_values(|p: &str| p@) =~= paths@.take(
                i as int,
            ).map_values(|p: &str| p@).push(paths@[i as int]@));
            i += 1;
        }
        assert(paths@.take(paths@.len() as int) =~= paths@);
        self
    }

    /// Adds an include directory, searched after those added before.
    pub fn include_dir(&mut self, path: &str) -> (r: &mut Build)
        ensures
            r@ == (BuildView { includes: old(self)@.includes.push(path@), ..old(self)@ }),
            *final(self) == *final(r),
    {
        self.includes.push(String::from_str(path));
        assert(strings(self.includes@) =~= strings(old(self).includes@).push(path@));
        self
    }

    /// Adds a preprocessor definition of `var`, with the value `val` if given.
    pub fn define(&mut self, var: &str, val: Option<&str>) -> (r: &mut Build)
        ensures
            r@ == (BuildView {
                definitions: old(self)@.definitions.push(
                    (
                        var@,
                        match val {
                            Some(v) => Some(v@),
                            None => None,
                        },
                    ),
                ),
                ..old(self)@
            }),
            *final(self) == *final(r),
    {
        let value = match val {
            Some(v) => Some(String::from_str(v)),
            None => None,
        };
        let ghost before = self.definitions@;
        self.definitions.push((String::from_str(var), value));
        assert(self.definitions@.map_values(|d: (String, Option<String>)| definition_chars(d))
            =~= before.map_values(|d: (String, Option<String>)| definition_chars(d)).push(
            (
                var@,
                match val {
                    Some(v) => Some(v@),
                    None => None,
                },
            ),
        ));
        self
    }

    /// Adds a flag, written as for GNU-like drivers.
    pub fn flag(&mut self, flag: &str) -> (r: &mut Build)
        ensures
            r@ == (BuildView { flags: old(self)@.flags.push(flag@), ..old(self)@ }),
            *final(self) == *final(r),
    {
        self.flags.push(String::from_str(flag));
        assert(strings(self.flags@) =~= strings(old(self).flags@).push(flag@));
        self
    }

    /// Adds `flag` where probing the driver with it said that the driver
    /// takes it; `supported` is the probe's result.
    pub fn flag_if_supported(&mut self, flag: &str, supported: Result<bool, Error>) -> (r:
        &mut Build)
        ensures
            supported == Ok::<bool, Error>(true) ==> r@ == (BuildView {
                flags: old(self)@.flags.push(flag@),
                ..old(self)@
            }),
            supported != Ok::<bool, Error>(true) ==> r@ == old(self)@,
            *final(self) == *final(r),
    {
        let add = match supported {
            Ok(b) => b,
            Err(_) => false,
        };
        if add {
            self.flag(flag)
        } else {
            self
        }
    }

    /// Turns warnings on or off.
    pub fn warnings(&mut self, warnings: bool) -> (r: &mut Build)
        ensures
            r@ == (BuildView { warnings, ..old(self)@ }),
            *final(self) == *final(r),
    {
        self.warnings = warnings;
        self
    }

    /// Accepted for compatibility; changes nothing.
    pub fn extra_warnings(&mut self, extra: bool) -> (r: &mut Build)
        ensures
            r@ == old(self)@,
            *final(self) == *final(r),
    {
        self
    }

    /// Accepted for compatibility; changes nothing.
    pub fn cargo_warnings(&mut self, warnings: bool) -> (r: &mut Build)
        ensures
            r@ == old(self)@,
            *final(self) == *final(r),
    {
        self
    }

    /// Turns the directives for Cargo on or off.
    pub fn cargo_metadata(&mut self, metadata: bool) -> (r: &mut Build)
        ensures
            r@ == (BuildView { cargo_metadata: metadata, ..old(self)@ }),
            *final(self) == *final(r),
    {
        self.cargo_metadata = metadata;
        self
    }

    /// Compiles as C++ or as C.
    pub fn cpp(&mut self, cpp: bool) -> (r: &mut Build)
        ensures
            r@ == (BuildView { cpp, ..old(self)@ }),
            *final(self) == *final(r),
    {
        self.cpp = cpp;
        self
    }

    /// Sets the language standard, such as `c11` or `c++17`.
    pub fn standard(&mut self, standard: &str) -> (r: &mut Build)
        ensures
            r@ == (BuildView { standard: Some(standard@), ..old(self)@ }),
            *final(self) == *final(r),
    {
        self.standard = Some(String::from_str(standard));
        self
    }

    /// Sets a numeric optimisation level.
    pub fn opt_level(&mut self, level: u32) -> (r: &mut Build)
        ensures
            r@ == (BuildView { opt_level: Some(decimal(level as nat)), ..old(self)@ }),
            *final(self) == *final(r),
    {
        self.opt_level = Some(decimal_string(level as u64));
        self
    }

    /// Sets the optimisation level as written, such as `s` or `z`.
    pub fn opt_level_str(&mut self, level: &str) -> (r: &mut Build)
        ensures
            r@ == (BuildView { opt_level: Some(level@), ..old(self)@ }),
            *final(self) == *final(r),
    {
        self.opt_level = Some(String::from_str(level));
        self
    }

    /// Links the C runtime statically (MSVC) or not.
    pub fn static_crt(&mut self, static_crt: bool) -> (r: &mut Build)
        ensures
            r@ == (BuildView { static_crt, ..old(self)@ }),
            *final(self) == *final(r),
    {
        self.static_crt = static_crt;
        self
    }

    /// Sets the directory for objects and the archive.
    pub fn out_dir(&mut self, dir: &str) -> (r: &mut Build)
        ensures
            r@ == (BuildView { out_dir: Some(dir@), ..old(self)@ }),
            *final(self) == *final(r),
    {
        self.out_dir = Some(String::from_str(dir));
        self
    }

    /// The sources, in order.
    pub fn source_files(&self) -> (r: &Vec<String>)
        ensures
            strings(r@) == self@.files,
    {
        &self.files
    }

    /// The directory set for objects and the archive, if any.
    pub fn output_dir(&self) -> (r: Option<&str>)
        ensures
            match r {
                Some(d) => self@.out_dir == Some(d@),
                None => self@.out_dir is None,
            },
    {
        match &self.out_dir {
            Some(d) => Some(d.as_str()),
            None => None,
        }
    }

    /// The search for a driver for this build: `msvc` says whether the
    /// target's environment is MSVC, `configured` is the driver `CC` names.
    pub fn compiler_search(&self, msvc: bool, configured: Option<Tool>) -> (r: CompilerSearch)
        ensures
            r@ == crate::tool::search_start(
                msvc,
                self@.cpp,
                match configured {
                    Some(t) => Some(t@),
                    None => None,
                },
            ),
    {
        CompilerSearch::new(msvc, self.cpp, configured)
    }

    /// Appends the arguments for the include directories.
    fn push_includes(&self, args: &mut Vec<String>, msvc: bool)
        ensures
            strings(final(args)@) == strings(old(args)@) + include_args(self@.includes, msvc),
    {
        let ghost start = strings(args@);
        let mut i: usize = 0;
        while i < self.includes.len()
            invariant
                i <= self.includes@.len(),
                strings(args@) == start + include_args(
                    strings(self.includes@).take(i as int),
                    msvc,
                ),
            decreases self.includes.len() - i,
        {
            let ghost before = strings(args@);
            let dir = self.includes[i].as_str();
            if msvc {
                args.push(concat("/I", dir));
            } else {
                args.push(String::from_str("-I"));
                args.push(String::from_str(dir));
            }
            proof {
                let dirs = strings(self.includes@);
                assert(dirs.take(i + 1).drop_last() =~= dirs.take(i as int));
                assert(dirs.take(i + 1).last() == dir@);
                assert(strings(args@) =~= before + include_arg(dir@, msvc));
            }
            i += 1;
        }
        assert(strings(self.includes@).take(self.includes@.len() as int) =~= strings(
            self.includes@,
        ));
    }

    /// Appends the arguments for the definitions.
    fn push_definitions(&self, args: &mut Vec<String>, msvc: bool)
        ensures
            strings(final(args)@) == strings(old(args)@) + define_args(self@.definitions, msvc),
    {
        let ghost start = strings(args@);
        let mut i: usize = 0;
        while i < self.definitions.len()
            invariant
                i <= self.definitions@.len(),
                strings(args@) == start + define_args(self@.definitions.take(i as int), msvc),
            decreases self.definitions.len() - i,
        {
            let ghost before = strings(args@);
            let name = self.definitions[i].0.as_str();
            let text = match &self.definitions[i].1 {
                Some(v) => {
                    let with_eq = concat(name, "=");
                    with_eq.concat(v.as_str())
                },
                None => String::from_str(name),
            };
            let arg = if msvc {
                concat("/D", text.as_str())
            } else {
                concat("-D", text.as_str())
            };
            args.push(arg);
            proof {
                let defs = self@.definitions;
                assert(defs[i as int] == definition_chars(self.definitions@[i as int]));
                assert(text@ == definition_text(defs[i as int]));
                assert(defs.take(i + 1) =~= defs.take(i as int).push(defs[i as int]));
                assert(define_args(defs.take(i + 1), msvc) =~= define_args(
                    defs.take(i as int),
                    msvc,
                ).push(define_arg(defs[i as int], msvc)));
                assert(strings(args@) =~= before.push(define_arg(defs[i as int], msvc)));
            }
            i += 1;
        }
        assert(self@.definitions.take(self.definitions@.len() as int) =~= self@.definitions);
    }

    /// Appends the extra flags, each in the form the driver takes.
    fn push_flags(&self, args: &mut Vec<String>, msvc: bool)
        ensures
            strings(final(args)@) == strings(old(args)@) + flag_args(self@.flags, msvc),
    {
        let ghost start = strings(args@);
        let mut i: usize = 0;
        while i < self.flags.len()
            invariant
                i <= self.flags@.len(),
                strings(args@) == start + flag_args(strings(self.flags@).take(i as int), msvc),
            decreases self.flags.len() - i,
        {
            let ghost before = strings(args@);
            let mapped = map_flag(self.flags[i].as_str(), msvc);
            args.push(mapped);
            proof {
                let fl = strings(self.flags@);
                assert(fl.take(i + 1) =~= fl.take(i as int).push(fl[i as int]));
                assert(flag_args(fl.take(i + 1), msvc) =~= flag_args(fl.take(i as int), msvc).push(
                    flag_for(fl[i as int], msvc),
                ));
                assert(strings(args@) =~= before.push(flag_for(fl[i as int], msvc)));
            }
            i += 1;
        }
        assert(strings(self.flags@).take(self.flags@.len() as int) =~= strings(self.flags@));
    }

    /// The command that turns `source` into `object`, where `masm` says
    /// whether the source's extension is `asm`.
    pub fn compile_command_for(
        &self,
        compiler: &Tool,
        source: &str,
        object: &str,
        vars: &BuildVars,
        masm: bool,
    ) -> (r: CommandLine)
        ensures
            r@ == compile_line(self@, compiler@, source@, object@, vars@, masm),
    {
        let msvc = compiler.is_like_msvc();
        if msvc && masm {
            let program = match &vars.assembler {
                Some(a) => a.clone(),
                None => String::from_str("ml64"),
            };
            let mut args: Vec<String> = Vec::new();
            args.push(String::from_str("/nologo"));
            args.push(String::from_str("/c"));
            args.push(concat("/Fo", object));
            args.push(String::from_str(source));
            let r = CommandLine { program, args };
            assert(r@.args =~= assemble_line(source@, object@, vars@).args);
            return r;
        }
        let mut args: Vec<String> = Vec::new();
        let ghost g0 = strings(args@);
        push_compile_only(&mut args, msvc, object);
        let ghost g1 = strings(args@);
        if msvc && self.cpp {
            args.push(String::from_str("/TP"));
        }
        let ghost g2 = strings(args@);
        match &self.standard {
            Some(s) => args.push(map_std(s.as_str(), msvc)),
            None => {},
        }
        let ghost g3 = strings(args@);
        if msvc {
            if self.static_crt {
                args.push(String::from_str("/MT"));
            } else {
                args.push(String::from_str("/MD"));
            }
        }
        let ghost g4 = strings(args@);
        let level = match &self.opt_level {
            Some(l) => Some(l.clone()),
            None => match &vars.opt_level {
                Some(l) => Some(l.clone()),
                None => None,
            },
        };
        match &level {
            Some(l) => args.push(map_opt_level(l.as_str(), msvc)),
            None => {},
        }
        let ghost g5 = strings(args@);
        if !self.warnings {
            if msvc {
                args.push(String::from_str("/w"));
            } else {
                args.push(String::from_str("-w"));
            }
        }
        let ghost g6 = strings(args@);
        self.push_includes(&mut args, msvc);
        let ghost g7 = strings(args@);
        self.push_definitions(&mut args, msvc);
        let ghost g8 = strings(args@);
        self.push_flags(&mut args, msvc);
        let ghost g9 = strings(args@);
        let debug = match &vars.debug {
            Some(d) => str_eq(d.as_str(), "true"),
            None => false,
        };
        if !msvc && debug {
            args.push(String::from_str("-g"));
        }
        let ghost g10 = strings(args@);
        args.push(String::from_str(source));
        proof {
            let b = self@;
            let v = vars@;
            assert(g1 =~= compile_only_args(msvc, object@));
            assert(g2 =~= g1 + (if msvc && b.cpp {
                seq!["/TP"@]
            } else {
                Seq::empty()
            }));
            assert(g3 =~= g2 + (match b.standard {
                Some(s) => seq![std_flag(s, msvc)],
                None => Seq::<Seq<char>>::empty(),
            }));
            assert(g4 =~= g3 + (if msvc {
                seq![
                    if b.static_crt {
                        "/MT"@
                    } else {
                        "/MD"@
                    },
                ]
            } else {
                Seq::empty()
            }));
            assert(opt_chars(level) == chosen_opt_level(b.opt_level, v.opt_level));
            assert(g5 =~= g4 + (match chosen_opt_level(b.opt_level, v.opt_level) {
                Some(l) => seq![opt_level_flag(l, msvc)],
                None => Seq::<Seq<char>>::empty(),
            }));
            assert(g6 =~= g5 + (if !b.warnings {
                seq![
                    if msvc {
                        "/w"@
                    } else {
                        "-w"@
                    },
                ]
            } else {
                Seq::empty()
            }));
            assert(g10 =~= g9 + (if !msvc && v.debug == Some("true"@) {
                seq!["-g"@]
            } else {
                Seq::empty()
            }));
            assert(strings(args@) =~= compile_args(b, msvc, source@, object@, v));
        }
        CommandLine { program: String::from_str(compiler.path()), args }
    }

    /// The command that turns `source` into `object` with `compiler`, under
    /// the build variables `vars`.
    pub fn compile_command(&self, compiler: &Tool, source: &str, object: &str, vars: &BuildVars) -> (r:
        CommandLine)
        ensures
            exists|n: Option<Seq<char>>| #[trigger]
                file_name_outcome(source@, n) && r@ == compile_line(
                    self@,
                    compiler@,
                    source@,
                    object@,
                    vars@,
                    is_asm_name(n),
                ),
            portable_path(source@) ==> r@ == compile_line(
                self@,
                compiler@,
                source@,
                object@,
                vars@,
                is_asm_name(final_component(source@)),
            ),
            !starts_with_two_separators(source@) ==> (r@ == compile_line(
                self@,
                compiler@,
                source@,
                object@,
                vars@,
                is_asm_name(final_component(source@)),
            ) || r@ == compile_line(
                self@,
                compiler@,
                source@,
                object@,
                vars@,
                is_asm_name(windows_final_component(source@)),
            )),
            !compiler@.msvc ==> r@ == compile_line(
                self@,
                compiler@,
                source@,
                object@,
                vars@,
                false,
            ),
    {
        let masm = is_asm_source(source);
        self.compile_command_for(compiler, source, object, vars, masm)
    }

    /// The command that preprocesses the first source to standard output;
    /// an error where there is no source.
    pub fn expand_command(&self, compiler: &Tool) -> (r: Result<CommandLine, Error>)
        ensures
            self@.files.len() == 0 ==> (r matches Err(e) && e@ == no_source_message()),
            self@.files.len() > 0 ==> (r matches Ok(c) && c@ == (CommandLineView {
                program: compiler@.path,
                args: expand_args(self@, compiler@.msvc),
            })),
    {
        if self.files.len() == 0 {
            return Err(Error::new("try_expand requires a source file"));
        }
        let msvc = compiler.is_like_msvc();
        let mut args: Vec<String> = Vec::new();
        if msvc {
            args.push(String::from_str("/nologo"));
            args.push(String::from_str("/E"));
        } else {
            args.push(String::from_str("-E"));
        }
        let ghost g1 = strings(args@);
        self.push_includes(&mut args, msvc);
        self.push_definitions(&mut args, msvc);
        self.push_flags(&mut args, msvc);
        let ghost g4 = strings(args@);
        args.push(self.files[0].clone());
        proof {
            assert(g1 =~= (if msvc {
                seq!["/nologo"@, "/E"@]
            } else {
                seq!["-E"@]
            }));
            assert(strings(args@) =~= g4.push(self@.files[0]));
            assert(strings(args@) =~= expand_args(self@, msvc));
        }
        Ok(CommandLine { program: String::from_str(compiler.path()), args })
    }

    /// The directives that have Cargo link the library `lib_name` from
    /// `out_dir`; none where the build's directives for Cargo are off.
    pub fn link_directives(&self, lib_name: &str, out_dir: &str) -> (r: Vec<String>)
        ensures
            self@.cargo_metadata ==> strings(r@) == seq![
                "cargo:rustc-link-lib=static="@ + lib_name@,
                "cargo:rustc-link-search=native="@ + out_dir@,
            ],
            !self@.cargo_metadata ==> r@.len() == 0,
    {
        let mut r: Vec<String> = Vec::new();
        if self.cargo_metadata {
            r.push(concat("cargo:rustc-link-lib=static=", lib_name));
            r.push(concat("cargo:rustc-link-search=native=", out_dir));
            assert(strings(r@) =~= seq![
                "cargo:rustc-link-lib=static="@ + lib_name@,
                "cargo:rustc-link-search=native="@ + out_dir@,
            ]);
        }
        r
    }

    /// The names of the throw-away source and object that probe `flag` in
    /// the process `pid`.
    pub fn flag_probe_names(pid: u32, flag: &str) -> (r: (String, String))
        ensures
            r.0@ == probe_stem(pid as nat, flag@) + ".c"@,
            r.1@ == probe_stem(pid as nat, flag@) + ".o"@,
    {
        let id = decimal_string(pid as u64);
        let kept = alphanumeric_only(flag);
        let s1 = concat("cbuild-flag-", id.as_str());
        let s2 = s1.concat("-");
        let stem = s2.concat(kept.as_str());
        let source = concat(stem.as_str(), ".c");
        let object = concat(stem.as_str(), ".o");
        (source, object)
    }

    /// The text of the throw-away source that probes a flag.
    pub fn flag_probe_source() -> (r: String)
        ensures
            r@ == "int main(void){return 0;}\n"@,
    {
        String::from_str("int main(void){return 0;}\n")
    }

    /// The command that probes whether `compiler` takes `flag`: it compiles
    /// `source` into `object` with that flag alone.
    pub fn flag_check_command(compiler: &Tool, flag: &str, source: &str, object: &str) -> (r:
        CommandLine)
        ensures
            r@ == (CommandLineView {
                program: compiler@.path,
                args: compile_only_args(compiler@.msvc, object@) + seq![flag@, source@],
            }),
    {
        let mut args: Vec<String> = Vec::new();
        push_compile_only(&mut args, compiler.is_like_msvc(), object);
        let ghost g = strings(args@);
        args.push(String::from_str(flag));
        args.push(String::from_str(source));
        assert(strings(args@) =~= g + seq![flag@, source@]);
        CommandLine { program: String::from_str(compiler.path()), args }
    }
}

/// Every compile command starts with the arguments that make the driver
/// compile only, into the object, and ends with the source.
pub proof fn lemma_compile_args_shape(
    b: BuildView,
    msvc: bool,
    source: Seq<char>,
    object: Seq<char>,
    vars: BuildVarsView,
)
    ensures
        compile_args(b, msvc, source, object, vars).last() == source,
        compile_args(b, msvc, source, object, vars).take(
            compile_only_args(msvc, object).len() as int,
        ) == compile_only_args(msvc, object),
{
    let a = compile_args(b, msvc, source, object, vars);
    let n = compile_only_args(msvc, object).len() as int;
    assert(a.take(n) =~= compile_only_args(msvc, object));
}

/// Every preprocessing command ends with the first source.
pub proof fn lemma_expand_args_end_with_first_source(b: BuildView, msvc: bool)
    requires
        b.files.len() > 0,
    ensures
        expand_args(b, msvc).last() == b.files[0],
{
}

/// A definition added to a build shows in its compile commands, in the
/// driver's form, right after the definitions added before it.
pub proof fn lemma_definition_reaches_compile_args(
    b: BuildView,
    d: (Seq<char>, Option<Seq<char>>),
    msvc: bool,
)
    ensures
        define_args(b.definitions.push(d), msvc) == define_args(b.definitions, msvc).push(
            define_arg(d, msvc),
        ),
{
    assert(define_args(b.definitions.push(d), msvc) =~= define_args(b.definitions, msvc).push(
        define_arg(d, msvc),
    ));
}

/// For an MSVC-like driver the runtime flag follows the compile-only
/// arguments, `/TP` and the standard: `/MT` where the build links the C
/// runtime statically and `/MD` where it does not, whatever the language.
pub proof fn lemma_msvc_runtime_flag(
    b: BuildView,
    source: Seq<char>,
    object: Seq<char>,
    vars: BuildVarsView,
)
    ensures
        ({
            let args = compile_args(b, true, source, object, vars);
            let k = 3 + (if b.cpp {
                1int
            } else {
                0int
            }) + (if b.standard is Some {
                1int
            } else {
                0int
            });
            &&& args[k] == if b.static_crt {
                "/MT"@
            } else {
                "/MD"@
            }
            &&& b.static_crt ==> args.contains("/MT"@)
            &&& !b.static_crt ==> args.contains("/MD"@)
        }),
{
    let args = compile_args(b, true, source, object, vars);
    let head = compile_only_args(true, object) + (if b.cpp {
        seq!["/TP"@]
    } else {
        Seq::empty()
    }) + (match b.standard {
        Some(s) => seq![std_flag(s, true)],
        None => Seq::empty(),
    });
    let crt = if b.static_crt {
        "/MT"@
    } else {
        "/MD"@
    };
    let k = 3 + (if b.cpp {
        1int
    } else {
        0int
    }) + (if b.standard is Some {
        1int
    } else {
        0int
    });
    assert(head.len() == k);
    assert((head + seq![crt])[k] == crt);
    assert(args[k] == crt);
}

} // verus!
