use lib::library::{
    archive_commands, archive_file_name, library_names, object_file_name, rerun_directive,
};
use lib::tool::candidate_tool;

fn names(output: &str) -> (String, String) {
    library_names(output).unwrap()
}

#[test]
fn plain_output_name() {
    assert_eq!(names("foo"), ("foo".to_string(), "libfoo.a".to_string()));
}

#[test]
fn archive_style_output_name() {
    assert_eq!(names("libfoo.a"), ("foo".to_string(), "libfoo.a".to_string()));
    assert_eq!(names("lib.a"), ("".to_string(), "lib.a".to_string()));
    assert_eq!(names("libfoo"), ("libfoo".to_string(), "liblibfoo.a".to_string()));
    assert_eq!(names("foo.a"), ("foo.a".to_string(), "libfoo.a.a".to_string()));
}

#[test]
fn gnu_name_wraps_lib_name_and_is_stable() {
    for output in ["foo", "libbar.a", "lib.a", "x.y"] {
        let (lib, gnu) = names(output);
        assert_eq!(gnu, format!("lib{lib}.a"));
        assert_eq!(names(&gnu), (lib, gnu.clone()));
    }
}

#[test]
fn bad_output_names() {
    for output in ["", "a/b", "a\\b", ".", "..", "/"] {
        let e = library_names(output).unwrap_err();
        assert_eq!(e.message(), "argument of `compile` must be a single normal path component");
    }
}

#[test]
fn object_and_archive_names() {
    assert_eq!(object_file_name(0), "0.o");
    assert_eq!(object_file_name(17), "17.o");
    let cl = candidate_tool("cl", false);
    let gcc = candidate_tool("gcc", false);
    assert_eq!(archive_file_name(&cl, "foo", "libfoo.a"), "foo.lib");
    assert_eq!(archive_file_name(&gcc, "foo", "libfoo.a"), "libfoo.a");
}

#[test]
fn rerun_line() {
    assert_eq!(rerun_directive("src/a.c"), "cargo:rerun-if-changed=src/a.c");
}

#[test]
fn archive_needs_objects() {
    let gcc = candidate_tool("gcc", false);
    let e = archive_commands(&gcc, None, "libx.a", &Vec::new()).unwrap_err();
    assert_eq!(e.message(), "no source files were given to compile");
}

#[test]
fn small_gnu_archive() {
    let gcc = candidate_tool("gcc", false);
    let objects = vec!["0.o".to_string(), "1.o".to_string()];
    let cmds = archive_commands(&gcc, None, "out/libx.a", &objects).unwrap();
    assert_eq!(cmds.len(), 1);
    assert_eq!(cmds[0].program, "ar");
    assert_eq!(cmds[0].args, vec!["rcs", "out/libx.a", "0.o", "1.o"]);
}

#[test]
fn large_gnu_archive_in_runs_of_forty() {
    let gcc = candidate_tool("gcc", false);
    let objects: Vec<String> = (0..85).map(|i| format!("{i}.o")).collect();
    let cmds = archive_commands(&gcc, Some("llvm-ar"), "libx.a", &objects).unwrap();
    assert_eq!(cmds.len(), 3);
    assert_eq!(cmds[0].args[0], "rcs");
    assert_eq!(cmds[1].args[0], "r");
    assert_eq!(cmds[2].args[0], "r");
    let mut all = Vec::new();
    for (k, c) in cmds.iter().enumerate() {
        assert_eq!(c.program, "llvm-ar");
        assert_eq!(c.args[1], "libx.a");
        assert!(c.args.len() - 2 <= 40);
        if k < 2 {
            assert_eq!(c.args.len() - 2, 40);
        }
        all.extend(c.args[2..].iter().cloned());
    }
    assert_eq!(all, objects);
}

#[test]
fn exactly_forty_objects_take_one_run() {
    let gcc = candidate_tool("gcc", false);
    let objects: Vec<String> = (0..40).map(|i| format!("{i}.o")).collect();
    let cmds = archive_commands(&gcc, None, "libx.a", &objects).unwrap();
    assert_eq!(cmds.len(), 1);
    assert_eq!(cmds[0].args.len(), 42);
}

#[test]
fn msvc_archive() {
    let cl = candidate_tool("cl", false);
    let objects = vec!["0.obj".to_string(), "1.obj".to_string()];
    let cmds = archive_commands(&cl, None, "out\\x.lib", &objects).unwrap();
    assert_eq!(cmds.len(), 1);
    assert_eq!(cmds[0].program, "lib");
    assert_eq!(cmds[0].args, vec!["/nologo", "/OUT:out\\x.lib", "0.obj", "1.obj"]);
    let cmds = archive_commands(&cl, Some("llvm-lib"), "x.lib", &objects).unwrap();
    assert_eq!(cmds[0].program, "llvm-lib");
}

#[test]
fn object_directory() {
    assert_eq!(lib::library::object_dir_parts("foo"), vec!["cbuild-objects", "foo"]);
    assert_eq!(lib::Build::flag_probe_source(), "int main(void){return 0;}\n");
}
