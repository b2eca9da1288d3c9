use lib::builder::Build;
use lib::command::BuildVars;
use lib::error::Error;
use lib::plan::{library_plan, Step};
use lib::tool::{candidate_tool, configured_compiler};

fn no_vars() -> BuildVars {
    BuildVars { opt_level: None, debug: None, assembler: None, archiver: None }
}

#[test]
fn minimal_gnu_compile() {
    let mut b = Build::new();
    b.file("src/a.c");
    let gcc = candidate_tool("gcc", false);
    let c = b.compile_command(&gcc, "src/a.c", "out/0.o", &no_vars());
    assert_eq!(c.program, "gcc");
    assert_eq!(c.args, vec!["-c", "-o", "out/0.o", "src/a.c"]);
}

#[test]
fn full_gnu_compile() {
    let mut b = Build::new();
    b.file("a.c")
        .include_dir("inc")
        .include_dir("third/inc")
        .define("FOO", Some("1"))
        .define("BAR", None)
        .flag("-Wall")
        .flag("-O3")
        .standard("c11")
        .opt_level(2)
        .warnings(false)
        .cpp(true)
        .static_crt(true);
    let gcc = candidate_tool("gcc", false);
    let vars = BuildVars {
        opt_level: Some("0".to_string()),
        debug: Some("true".to_string()),
        assembler: None,
        archiver: None,
    };
    let c = b.compile_command(&gcc, "a.c", "a.o", &vars);
    assert_eq!(
        c.args,
        vec![
            "-c", "-o", "a.o", "-std=c11", "-O2", "-w", "-I", "inc", "-I", "third/inc", "-DFOO=1",
            "-DBAR", "-Wall", "-O3", "-g", "a.c",
        ]
    );
}

#[test]
fn full_msvc_compile() {
    let mut b = Build::new();
    b.include_dir("inc")
        .define("FOO", Some("bar"))
        .flag("-Iextra")
        .flag("-O2")
        .standard("c17")
        .warnings(false)
        .cpp(true)
        .static_crt(true);
    let cl = candidate_tool("cl", false);
    let vars = BuildVars {
        opt_level: Some("s".to_string()),
        debug: Some("true".to_string()),
        assembler: None,
        archiver: None,
    };
    let c = b.compile_command(&cl, "a.cpp", "a.obj", &vars);
    assert_eq!(c.program, "cl");
    assert_eq!(
        c.args,
        vec![
            "/nologo", "/c", "/Foa.obj", "/TP", "/std:c11", "/MT", "/O1", "/w", "/Iinc",
            "/DFOO=bar", "/Iextra", "/O2", "a.cpp",
        ]
    );
}

#[test]
fn msvc_dynamic_crt_without_options() {
    let b = Build::new();
    let cl = candidate_tool("cl", false);
    let c = b.compile_command(&cl, "a.c", "a.obj", &no_vars());
    assert_eq!(c.args, vec!["/nologo", "/c", "/Foa.obj", "/MD", "a.c"]);
}

#[test]
fn debug_only_when_true() {
    let b = Build::new();
    let gcc = candidate_tool("gcc", false);
    let vars = BuildVars {
        opt_level: None,
        debug: Some("false".to_string()),
        assembler: None,
        archiver: None,
    };
    let c = b.compile_command(&gcc, "a.c", "a.o", &vars);
    assert_eq!(c.args, vec!["-c", "-o", "a.o", "a.c"]);
}

#[test]
fn opt_level_from_cargo_when_unset() {
    let b = Build::new();
    let gcc = candidate_tool("gcc", false);
    let vars = BuildVars {
        opt_level: Some("3".to_string()),
        debug: None,
        assembler: None,
        archiver: None,
    };
    let c = b.compile_command(&gcc, "a.c", "a.o", &vars);
    assert_eq!(c.args, vec!["-c", "-o", "a.o", "-O3", "a.c"]);
}

#[test]
fn opt_level_str_as_written() {
    let mut b = Build::new();
    b.opt_level_str("z");
    let cl = candidate_tool("cl", false);
    let c = b.compile_command(&cl, "a.c", "a.obj", &no_vars());
    assert_eq!(c.args, vec!["/nologo", "/c", "/Foa.obj", "/MD", "/O1", "a.c"]);
}

#[test]
fn msvc_assembles_asm_with_masm() {
    let b = Build::new();
    let cl = candidate_tool("cl", false);
    let c = b.compile_command(&cl, "src/start.asm", "start.obj", &no_vars());
    assert_eq!(c.program, "ml64");
    assert_eq!(c.args, vec!["/nologo", "/c", "/Fostart.obj", "src/start.asm"]);
    let vars = BuildVars {
        opt_level: None,
        debug: None,
        assembler: Some("ml".to_string()),
        archiver: None,
    };
    let c = b.compile_command(&cl, "start.asm", "start.obj", &vars);
    assert_eq!(c.program, "ml");
}

#[test]
fn gnu_compiles_asm_with_the_driver() {
    let b = Build::new();
    let gcc = candidate_tool("gcc", false);
    let c = b.compile_command(&gcc, "start.asm", "start.o", &no_vars());
    assert_eq!(c.program, "gcc");
    assert_eq!(c.args, vec!["-c", "-o", "start.o", "start.asm"]);
}

#[test]
fn compile_command_for_given_extension() {
    let b = Build::new();
    let cl = candidate_tool("cl", false);
    let c = b.compile_command_for(&cl, "x", "x.obj", &no_vars(), true);
    assert_eq!(c.program, "ml64");
    let c = b.compile_command_for(&cl, "x.asm", "x.obj", &no_vars(), false);
    assert_eq!(c.program, "cl");
}

#[test]
fn expand_needs_a_source() {
    let b = Build::new();
    let gcc = candidate_tool("gcc", false);
    let e = b.expand_command(&gcc).unwrap_err();
    assert_eq!(e.message(), "try_expand requires a source file");
}

#[test]
fn expand_gnu_and_msvc() {
    let mut b = Build::new();
    b.files(&["first.c", "second.c"])
        .include_dir("inc")
        .define("X", None)
        .flag("-O2")
        .warnings(false)
        .standard("c99");
    let gcc = candidate_tool("gcc", false);
    let c = b.expand_command(&gcc).unwrap();
    assert_eq!(c.program, "gcc");
    assert_eq!(c.args, vec!["-E", "-I", "inc", "-DX", "-O2", "first.c"]);
    let cl = candidate_tool("cl", false);
    let c = b.expand_command(&cl).unwrap();
    assert_eq!(c.args, vec!["/nologo", "/E", "/Iinc", "/DX", "/O2", "first.c"]);
}

#[test]
fn files_keep_their_order() {
    let mut b = Build::new();
    b.file("a.c").files(&["b.c", "c.c"]).file("d.c");
    assert_eq!(b.source_files(), &vec!["a.c", "b.c", "c.c", "d.c"]);
    assert_eq!(b.output_dir(), None);
    b.out_dir("/tmp/out");
    assert_eq!(b.output_dir(), Some("/tmp/out"));
}

#[test]
fn flags_added_only_when_supported() {
    let gcc = candidate_tool("gcc", false);
    let mut b = Build::new();
    b.flag_if_supported("-Wextra", Ok(true))
        .flag_if_supported("-Wnope", Ok(false))
        .flag_if_supported("-Wfail", Err(Error::new("could not run")));
    let c = b.compile_command(&gcc, "a.c", "a.o", &no_vars());
    assert_eq!(c.args, vec!["-c", "-o", "a.o", "-Wextra", "a.c"]);
}

#[test]
fn compatibility_switches_change_nothing() {
    let gcc = candidate_tool("gcc", false);
    let mut b = Build::new();
    b.extra_warnings(true).cargo_warnings(false);
    let c = b.compile_command(&gcc, "a.c", "a.o", &no_vars());
    assert_eq!(c.args, vec!["-c", "-o", "a.o", "a.c"]);
}

#[test]
fn flag_probe_names_and_command() {
    let (source, object) = Build::flag_probe_names(42, "-std=c++17");
    assert_eq!(source, "cbuild-flag-42-stdc17.c");
    assert_eq!(object, "cbuild-flag-42-stdc17.o");
    let gcc = candidate_tool("gcc", false);
    let c = Build::flag_check_command(&gcc, "-std=c++17", "/tmp/p.c", "/tmp/p.o");
    assert_eq!(c.program, "gcc");
    assert_eq!(c.args, vec!["-c", "-o", "/tmp/p.o", "-std=c++17", "/tmp/p.c"]);
    let cl = candidate_tool("cl", false);
    let c = Build::flag_check_command(&cl, "-W4", "p.c", "p.o");
    assert_eq!(c.args, vec!["/nologo", "/c", "/Fop.o", "-W4", "p.c"]);
}

#[test]
fn compiler_search_follows_cpp() {
    let mut b = Build::new();
    b.cpp(true);
    let search = b.compiler_search(false, None);
    match search.step() {
        lib::tool::SearchStep::Probe(c) => assert_eq!(c, "c++"),
        _ => panic!("expected a probe"),
    }
    let configured = configured_compiler(Some("tcc"), false);
    let search = b.compiler_search(false, configured);
    assert!(matches!(search.step(), lib::tool::SearchStep::Found(_)));
}

#[test]
fn link_directives_follow_cargo_metadata() {
    let mut b = Build::new();
    assert_eq!(
        b.link_directives("foo", "/out"),
        vec!["cargo:rustc-link-lib=static=foo", "cargo:rustc-link-search=native=/out"]
    );
    b.cargo_metadata(false);
    assert!(b.link_directives("foo", "/out").is_empty());
}

#[test]
fn msvc_compiles_c_source_with_directory() {
    let b = Build::new();
    let cl = candidate_tool("cl", false);
    let c = b.compile_command(&cl, "src/x.c", "x.obj", &no_vars());
    assert_eq!(c.program, "cl");
    assert_eq!(c.args, vec!["/nologo", "/c", "/Fox.obj", "/MD", "src/x.c"]);
}

#[test]
fn library_plan_orders_steps() {
    let mut b = Build::new();
    b.file("a.c").file("b.c");
    let gcc = candidate_tool("gcc", false);
    let objects = vec!["o/0.o".to_string(), "o/1.o".to_string()];
    let steps = library_plan(&b, &gcc, &objects, "out/libx.a", "x", "out", &no_vars()).unwrap();
    let text: Vec<String> = steps
        .iter()
        .map(|s| match s {
            Step::Print(p) => format!("print {p}"),
            Step::Run(c) => format!("run {} {}", c.program, c.args.join(" ")),
        })
        .collect();
    assert_eq!(
        text,
        vec![
            "print cargo:rerun-if-changed=a.c",
            "run gcc -c -o o/0.o a.c",
            "print cargo:rerun-if-changed=b.c",
            "run gcc -c -o o/1.o b.c",
            "run ar rcs out/libx.a o/0.o o/1.o",
            "print cargo:rustc-link-lib=static=x",
            "print cargo:rustc-link-search=native=out",
        ]
    );
    b.cargo_metadata(false);
    let steps = library_plan(&b, &gcc, &objects, "out/libx.a", "x", "out", &no_vars()).unwrap();
    assert_eq!(steps.len(), 5);
}

#[test]
fn library_plan_needs_sources() {
    let b = Build::new();
    let gcc = candidate_tool("gcc", false);
    let e = library_plan(&b, &gcc, &Vec::new(), "libx.a", "x", "out", &no_vars()).unwrap_err();
    assert_eq!(e.message(), "no source files were given to compile");
}

#[test]
fn msvc_assembles_windows_style_asm_path() {
    let b = Build::new();
    let cl = candidate_tool("cl", false);
    let c = b.compile_command(&cl, "C:\\src\\start.asm", "start.obj", &no_vars());
    assert_eq!(c.program, "ml64");
    assert_eq!(c.args, vec!["/nologo", "/c", "/Fostart.obj", "C:\\src\\start.asm"]);
}
