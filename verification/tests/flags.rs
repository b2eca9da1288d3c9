use lib::flags::{map_flag, map_opt_level, map_std, push_compile_only};
use lib::text::decimal_string;

#[test]
fn opt_level_gnu_table() {
    assert_eq!(map_opt_level("0", false), "-O0");
    assert_eq!(map_opt_level("1", false), "-O1");
    assert_eq!(map_opt_level("2", false), "-O2");
    assert_eq!(map_opt_level("3", false), "-O3");
    assert_eq!(map_opt_level("s", false), "-Os");
    assert_eq!(map_opt_level("z", false), "-Oz");
    assert_eq!(map_opt_level("g", false), "-Og");
}

#[test]
fn opt_level_msvc_table() {
    assert_eq!(map_opt_level("0", true), "/Od");
    assert_eq!(map_opt_level("1", true), "/O1");
    assert_eq!(map_opt_level("2", true), "/O2");
    assert_eq!(map_opt_level("3", true), "/O2");
    assert_eq!(map_opt_level("s", true), "/O1");
    assert_eq!(map_opt_level("z", true), "/O1");
    assert_eq!(map_opt_level("x", true), "/Ox");
}

#[test]
fn gnu_opt_level_is_prefixed_level() {
    for level in ["0", "1", "2", "3", "s", "z", "fast", ""] {
        assert_eq!(map_opt_level(level, false), format!("-O{level}"));
    }
}

#[test]
fn gnu_flags_pass_unchanged() {
    for flag in ["-DFOO=1", "-Iinc", "-w", "-std=c11", "-O2", "-Wall", "/EHsc"] {
        assert_eq!(map_flag(flag, false), flag);
    }
}

#[test]
fn msvc_flags_are_translated() {
    assert_eq!(map_flag("-DFOO=1", true), "/DFOO=1");
    assert_eq!(map_flag("-Iinclude/dir", true), "/Iinclude/dir");
    assert_eq!(map_flag("-w", true), "/w");
    assert_eq!(map_flag("-std=c++17", true), "/std:c++17");
    assert_eq!(map_flag("-O2", true), "/O2");
    assert_eq!(map_flag("-O0", true), "/Od");
    assert_eq!(map_flag("-Os", true), "/O1");
    assert_eq!(map_flag("-Ox", true), "/Ox");
    assert_eq!(map_flag("-Wall", true), "-Wall");
    assert_eq!(map_flag("-wd4996", true), "-wd4996");
    assert_eq!(map_flag("/EHsc", true), "/EHsc");
    assert_eq!(map_flag("", true), "");
}

#[test]
fn msvc_opt_flag_follows_opt_level() {
    for level in ["0", "1", "2", "3", "s", "z", "y"] {
        assert_eq!(map_flag(&format!("-O{level}"), true), map_opt_level(level, true));
    }
}

#[test]
fn standards() {
    assert_eq!(map_std("c11", true), "/std:c11");
    assert_eq!(map_std("c17", true), "/std:c11");
    assert_eq!(map_std("c99", true), "/std:c11");
    assert_eq!(map_std("c++17", true), "/std:c++17");
    assert_eq!(map_std("c++20", true), "/std:c++20");
    assert_eq!(map_std("gnu11", true), "/std:gnu11");
    assert_eq!(map_std("c99", false), "-std=c99");
    assert_eq!(map_std("c++14", false), "-std=c++14");
}

#[test]
fn compile_only_arguments() {
    let mut args = vec!["first".to_string()];
    push_compile_only(&mut args, false, "out/a.o");
    assert_eq!(args, vec!["first", "-c", "-o", "out/a.o"]);
    let mut args = Vec::new();
    push_compile_only(&mut args, true, "out\\a.obj");
    assert_eq!(args, vec!["/nologo", "/c", "/Foout\\a.obj"]);
}

#[test]
fn decimal_notation() {
    assert_eq!(decimal_string(0), "0");
    assert_eq!(decimal_string(7), "7");
    assert_eq!(decimal_string(10), "10");
    assert_eq!(decimal_string(12345), "12345");
    assert_eq!(decimal_string(u64::MAX), u64::MAX.to_string());
}
