use lib::error::Error;
use lib::path::{extension_of, file_name};
use lib::tool::{
    candidate_tool, compiler_candidates, configured_compiler, is_clang_name, is_msvc_name,
    target_is_msvc, CompilerSearch, SearchStep,
};

#[test]
fn error_keeps_its_message() {
    assert_eq!(Error::new("boom").message(), "boom");
}

#[test]
fn target_environment() {
    assert!(target_is_msvc(Some("msvc")));
    assert!(!target_is_msvc(Some("gnu")));
    assert!(!target_is_msvc(Some("")));
    assert!(!target_is_msvc(None));
}

#[test]
fn configured_compiler_unset_or_empty() {
    assert!(configured_compiler(None, false).is_none());
    assert!(configured_compiler(Some(""), true).is_none());
}

#[test]
fn configured_compiler_kinds() {
    let gcc = configured_compiler(Some("gcc"), false).unwrap();
    assert_eq!(gcc.path(), "gcc");
    assert!(gcc.is_like_gnu());
    assert!(!gcc.is_like_msvc());
    let cl = configured_compiler(Some("cl"), false).unwrap();
    assert!(cl.is_like_msvc());
    assert!(!cl.is_like_gnu());
    let upper = configured_compiler(Some("CL.EXE"), false).unwrap();
    assert!(upper.is_like_msvc());
    let clang_cl = configured_compiler(Some("clang-cl"), false).unwrap();
    assert!(clang_cl.is_like_msvc());
    let clang = configured_compiler(Some("clang"), false).unwrap();
    assert!(clang.is_like_gnu());
    let forced = configured_compiler(Some("gcc"), true).unwrap();
    assert!(forced.is_like_msvc());
}

#[test]
fn configured_compiler_judged_by_file_name() {
    let cl = configured_compiler(Some("/opt/msvc/bin/cl"), false).unwrap();
    assert_eq!(cl.path(), "/opt/msvc/bin/cl");
    assert!(cl.is_like_msvc());
    let upper = configured_compiler(Some("/usr/bin/CL.EXE"), false).unwrap();
    assert!(upper.is_like_msvc());
    let dir = configured_compiler(Some("/opt/cl/gcc"), false).unwrap();
    assert!(dir.is_like_gnu());
}

#[test]
fn clang_detection() {
    assert!(configured_compiler(Some("/usr/bin/clang-15"), false).unwrap().is_like_clang());
    assert!(configured_compiler(Some("CLANG"), false).unwrap().is_like_clang());
    assert!(!configured_compiler(Some("gcc"), false).unwrap().is_like_clang());
    assert!(!configured_compiler(Some("/opt/clang/bin/gcc"), false).unwrap().is_like_clang());
    assert!(configured_compiler(Some("C:\\LLVM\\bin\\clang-cl.exe"), false)
        .unwrap()
        .is_like_clang());
    assert!(is_clang_name("x86_64-Clang++"));
    assert!(!is_clang_name("clan"));
}

#[test]
fn msvc_names() {
    assert!(is_msvc_name("cl"));
    assert!(is_msvc_name("Cl.Exe"));
    assert!(is_msvc_name("my-clang-cl-wrapper"));
    assert!(!is_msvc_name("clang"));
    assert!(!is_msvc_name("cl.exe.bak"));
}

#[test]
fn candidates_and_their_tools() {
    assert_eq!(compiler_candidates(true, false), vec!["cl", "clang-cl"]);
    assert_eq!(compiler_candidates(true, true), vec!["cl", "clang-cl"]);
    assert_eq!(
        compiler_candidates(false, true),
        vec!["c++", "g++", "clang++", "cc", "gcc", "clang"]
    );
    assert_eq!(compiler_candidates(false, false), vec!["cc", "gcc", "clang", "cl"]);
    assert!(candidate_tool("cl", false).is_like_msvc());
    assert!(candidate_tool("clang-cl", false).is_like_msvc());
    assert!(candidate_tool("cc", false).is_like_gnu());
    assert!(candidate_tool("cc", true).is_like_msvc());
}

#[test]
fn search_prefers_configured_driver() {
    let cc = configured_compiler(Some("my-cc"), false);
    let search = CompilerSearch::new(false, false, cc);
    match search.step() {
        SearchStep::Found(t) => assert_eq!(t.path(), "my-cc"),
        _ => panic!("expected the configured driver"),
    }
}

#[test]
fn search_finds_first_working_candidate() {
    let mut search = CompilerSearch::new(false, false, None);
    match search.step() {
        SearchStep::Probe(c) => assert_eq!(c, "cc"),
        _ => panic!("expected a probe"),
    }
    match search.report(false) {
        SearchStep::Probe(c) => assert_eq!(c, "gcc"),
        _ => panic!("expected a probe"),
    }
    match search.report(true) {
        SearchStep::Found(t) => {
            assert_eq!(t.path(), "gcc");
            assert!(t.is_like_gnu());
        }
        _ => panic!("expected a driver"),
    }
}

#[test]
fn search_finds_cl_as_msvc() {
    let mut search = CompilerSearch::new(false, false, None);
    for _ in 0..3 {
        assert!(matches!(search.report(false), SearchStep::Probe(_)));
    }
    match search.report(true) {
        SearchStep::Found(t) => {
            assert_eq!(t.path(), "cl");
            assert!(t.is_like_msvc());
        }
        _ => panic!("expected a driver"),
    }
}

#[test]
fn search_fails_when_nothing_runs() {
    let mut search = CompilerSearch::new(true, false, None);
    assert!(matches!(search.report(false), SearchStep::Probe(_)));
    match search.report(false) {
        SearchStep::Failed(e) => {
            assert_eq!(e.message(), "no C compiler found; set CC to the compiler executable")
        }
        _ => panic!("expected failure"),
    }
}

#[test]
fn file_names() {
    assert_eq!(file_name("gcc"), Some("gcc".to_string()));
    assert_eq!(file_name("/usr/bin/gcc"), Some("gcc".to_string()));
    assert_eq!(file_name("dir/a.c"), Some("a.c".to_string()));
    assert_eq!(file_name(".."), None);
    assert_eq!(file_name(""), None);
    assert_eq!(file_name("a/."), Some("a".to_string()));
    assert_eq!(file_name("a/.."), None);
    assert_eq!(file_name("./"), None);
    assert_eq!(file_name("."), None);
    assert_eq!(file_name("/"), None);
    assert_eq!(file_name("a//b/"), Some("b".to_string()));
    assert_eq!(file_name("./x/../y"), Some("y".to_string()));
}

#[test]
fn extensions() {
    assert_eq!(extension_of("a.asm"), Some("asm".to_string()));
    assert_eq!(extension_of("a.b.c"), Some("c".to_string()));
    assert_eq!(extension_of("a."), Some("".to_string()));
    assert_eq!(extension_of(".hidden"), None);
    assert_eq!(extension_of(".hidden.asm"), Some("asm".to_string()));
    assert_eq!(extension_of("noext"), None);
    assert_eq!(extension_of(".."), None);
    assert_eq!(extension_of(""), None);
}
