//! Compiler flags in the two families the library speaks: GNU-like drivers
//! (`cc`, `gcc`, `clang`) and MSVC-like ones (`cl`, `clang-cl`).
use vstd::prelude::*;
use crate::text::{
    concat, skip_str, starts_with, str_eq, str_starts_with, strings,
};

verus! {

/// The flag that selects the optimisation level `level`.
pub open spec fn opt_level_flag(level: Seq<char>, msvc: bool) -> Seq<char> {
    if msvc {
        if level == "0"@ {
            "/Od"@
        } else if level == "1"@ {
            "/O1"@
        } else if level == "2"@ || level == "3"@ {
            "/O2"@
        } else if level == "s"@ || level == "z"@ {
            "/O1"@
        } else {
            "/O"@ + level
        }
    } else {
        if level == "0"@ {
            "-O0"@
        } else if level == "1"@ {
            "-O1"@
        } else if level == "2"@ {
            "-O2"@
        } else if level == "3"@ {
            "-O3"@
        } else if level == "s"@ {
            "-Os"@
        } else if level == "z"@ {
            "-Oz"@
        } else {
            "-O"@ + level
        }
    }
}

/// A flag written for GNU-like drivers, in the form the given driver takes:
/// MSVC gets `-D`, `-I`, `-w`, `-std=` and `-O` translated, everything else as written.
pub open spec fn flag_for(flag: Seq<char>, msvc: bool) -> Seq<char> {
    if !msvc {
        flag
    } else if starts_with(flag, "-D"@) {
        "/D"@ + flag.skip("-D"@.len() as int)
    } else if starts_with(flag, "-I"@) {
        "/I"@ + flag.skip("-I"@.len() as int)
    } else if flag == "-w"@ {
        "/w"@
    } else if starts_with(flag, "-std="@) {
        "/std:"@ + flag.skip("-std="@.len() as int)
    } else if starts_with(flag, "-O"@) {
        opt_level_flag(flag.skip("-O"@.len() as int), true)
    } else {
        flag
    }
}

/// The flag that selects the language standard `std`.
pub open spec fn std_flag(std: Seq<char>, msvc: bool) -> Seq<char> {
    if msvc {
        if std == "c11"@ || std == "c17"@ || std == "c99"@ {
            "/std:c11"@
        } else {
            "/std:"@ + std
        }
    } else {
        "-std="@ + std
    }
}

/// The arguments that make the driver compile only, into `object`.
pub open spec fn compile_only_args(msvc: bool, object: Seq<char>) -> Seq<Seq<char>> {
    if msvc {
        seq!["/nologo"@, "/c"@, "/Fo"@ + object]
    } else {
        seq!["-c"@, "-o"@, object]
    }
}

/// The driver's flag for the optimisation level `level` (`"0"`, `"1"`, `"2"`,
/// `"3"`, `"s"`, `"z"` or any other level, passed on as written).
pub fn map_opt_level(level: &str, msvc: bool) -> (r: String)
    ensures
        r@ == opt_level_flag(level@, msvc),
{
    if msvc {
        if str_eq(level, "0") {
            String::from_str("/Od")
        } else if str_eq(level, "1") {
            String::from_str("/O1")
        } else if str_eq(level, "2") || str_eq(level, "3") {
            String::from_str("/O2")
        } else if str_eq(level, "s") || str_eq(level, "z") {
            String::from_str("/O1")
        } else {
            concat("/O", level)
        }
    } else {
        if str_eq(level, "0") {
            String::from_str("-O0")
        } else if str_eq(level, "1") {
            String::from_str("-O1")
        } else if str_eq(level, "2") {
            String::from_str("-O2")
        } else if str_eq(level, "3") {
            String::from_str("-O3")
        } else if str_eq(level, "s") {
            String::from_str("-Os")
        } else if str_eq(level, "z") {
            String::from_str("-Oz")
        } else {
            concat("-O", level)
        }
    }
}

/// `flag` with `prefix` taken off, where `flag` starts with `prefix`.
fn after_prefix(flag: &str, prefix: &str) -> (r: String)
    requires
        starts_with(flag@, prefix@),
    ensures
        r@ == flag@.skip(prefix@.len() as int),
{
    let n = prefix.unicode_len();
    skip_str(flag, n)
}

/// A flag written for GNU-like drivers, in the form the driver takes.
pub fn map_flag(flag: &str, msvc: bool) -> (r: String)
    ensures
        r@ == flag_for(flag@, msvc),
{
    if !msvc {
        return String::from_str(flag);
    }
    if str_starts_with(flag, "-D") {
        let rest = after_prefix(flag, "-D");
        concat("/D", rest.as_str())
    } else if str_starts_with(flag, "-I") {
        let rest = after_prefix(flag, "-I");
        concat("/I", rest.as_str())
    } else if str_eq(flag, "-w") {
        String::from_str("/w")
    } else if str_starts_with(flag, "-std=") {
        let rest = after_prefix(flag, "-std=");
        concat("/std:", rest.as_str())
    } else if str_starts_with(flag, "-O") {
        let rest = after_prefix(flag, "-O");
        map_opt_level(rest.as_str(), true)
    } else {
        String::from_str(flag)
    }
}

/// The driver's flag for the language standard `std`.
pub fn map_std(std: &str, msvc: bool) -> (r: String)
    ensures
        r@ == std_flag(std@, msvc),
{
    if msvc {
        if str_eq(std, "c11") || str_eq(std, "c17") || str_eq(std, "c99") {
            String::from_str("/std:c11")
        } else {
            concat("/std:", std)
        }
    } else {
        concat("-std=", std)
    }
}

/// The arguments that make the driver compile only, into `object`.
pub fn push_compile_only(args: &mut Vec<String>, msvc: bool, object: &str)
    ensures
        strings(final(args)@) == strings(old(args)@) + compile_only_args(msvc, object@),
{
    let ghost before = strings(args@);
    if msvc {
        args.push(String::from_str("/nologo"));
        args.push(String::from_str("/c"));
        args.push(concat("/Fo", object));
    } else {
        args.push(String::from_str("-c"));
        args.push(String::from_str("-o"));
        args.push(String::from_str(object));
    }
    assert(strings(args@) =~= before + compile_only_args(msvc, object@));
}

/// For GNU-like drivers the optimisation flag is `-O` followed by the level,
/// whatever the level is.
pub proof fn lemma_gnu_opt_level_is_prefix(level: Seq<char>)
    ensures
        opt_level_flag(level, false) == "-O"@ + level,
{
    reveal_strlit("0");
    reveal_strlit("1");
    reveal_strlit("2");
    reveal_strlit("3");
    reveal_strlit("s");
    reveal_strlit("z");
    reveal_strlit("-O");
    reveal_strlit("-O0");
    reveal_strlit("-O1");
    reveal_strlit("-O2");
    reveal_strlit("-O3");
    reveal_strlit("-Os");
    reveal_strlit("-Oz");
    if level == "0"@ {
        assert("-O0"@ =~= "-O"@ + level);
    } else if level == "1"@ {
        assert("-O1"@ =~= "-O"@ + level);
    } else if level == "2"@ {
        assert("-O2"@ =~= "-O"@ + level);
    } else if level == "3"@ {
        assert("-O3"@ =~= "-O"@ + level);
    } else if level == "s"@ {
        assert("-Os"@ =~= "-O"@ + level);
    } else if level == "z"@ {
        assert("-Oz"@ =~= "-O"@ + level);
    }
}

/// A GNU-like driver takes every flag as written.
pub proof fn lemma_gnu_flags_unchanged(flag: Seq<char>)
    ensures
        flag_for(flag, false) == flag,
{
}

/// A flag that does not start with `-` is passed on unchanged to either driver.
pub proof fn lemma_non_dash_flag_unchanged(flag: Seq<char>, msvc: bool)
    requires
        !starts_with(flag, "-"@),
    ensures
        flag_for(flag, msvc) == flag,
{
    reveal_strlit("-");
    reveal_strlit("-D");
    reveal_strlit("-I");
    reveal_strlit("-w");
    reveal_strlit("-std=");
    reveal_strlit("-O");
    if flag.len() > 0 {
        assert(flag[0] != '-') by {
            if flag[0] == '-' {
                assert(flag.subrange(0, 1) =~= "-"@);
            }
        }
        assert(!starts_with(flag, "-D"@)) by {
            if starts_with(flag, "-D"@) {
                assert(flag.subrange(0, 2)[0] == flag[0]);
            }
        }
        assert(!starts_with(flag, "-I"@)) by {
            if starts_with(flag, "-I"@) {
                assert(flag.subrange(0, 2)[0] == flag[0]);
            }
        }
        assert(!starts_with(flag, "-std="@)) by {
            if starts_with(flag, "-std="@) {
                assert(flag.subrange(0, 5)[0] == flag[0]);
            }
        }
        assert(!starts_with(flag, "-O"@)) by {
            if starts_with(flag, "-O"@) {
                assert(flag.subrange(0, 2)[0] == flag[0]);
            }
        }
        assert(flag != "-w"@) by {
            if flag == "-w"@ {
                assert(flag[0] == '-');
            }
        }
    }
}

/// MSVC gets an `-O` flag as the flag of the level that follows `-O`.
pub proof fn lemma_msvc_opt_flag(level: Seq<char>)
    ensures
        flag_for("-O"@ + level, true) == opt_level_flag(level, true),
{
    reveal_strlit("-O");
    reveal_strlit("-D");
    reveal_strlit("-I");
    reveal_strlit("-w");
    reveal_strlit("-std=");
    let f = "-O"@ + level;
    assert(f[1] == 'O');
    assert(!starts_with(f, "-D"@)) by {
        if starts_with(f, "-D"@) {
            assert(f.subrange(0, 2)[1] == f[1]);
        }
    }
    assert(!starts_with(f, "-I"@)) by {
        if starts_with(f, "-I"@) {
            assert(f.subrange(0, 2)[1] == f[1]);
        }
    }
    assert(f != "-w"@) by {
        if f == "-w"@ {
            assert(f[1] == 'w');
        }
    }
    assert(!starts_with(f, "-std="@)) by {
        if starts_with(f, "-std="@) {
            assert(f.subrange(0, 5)[1] == f[1]);
        }
    }
    assert(starts_with(f, "-O"@)) by {
        assert(f.subrange(0, 2) =~= "-O"@);
    }
    assert(f.skip(2) =~= level);
}

/// For a GNU-like driver the standard flag is `-std=` followed by the
/// standard exactly as given, so the standard can be read back from it; for
/// an MSVC-like driver it always starts with `/std:`.
pub proof fn lemma_std_flag_carries_standard(std: Seq<char>)
    ensures
        std_flag(std, false) == "-std="@ + std,
        std_flag(std, false).skip("-std="@.len() as int) == std,
        starts_with(std_flag(std, true), "/std:"@),
        std != "c11"@ && std != "c17"@ && std != "c99"@ ==> std_flag(std, true).skip(
            "/std:"@.len() as int,
        ) == std,
{
    reveal_strlit("/std:");
    reveal_strlit("/std:c11");
    assert(("-std="@ + std).skip("-std="@.len() as int) =~= std);
    assert(("/std:"@ + std).skip("/std:"@.len() as int) =~= std);
    assert(("/std:"@ + std).subrange(0, 5) =~= "/std:"@);
    assert("/std:c11"@.subrange(0, 5) =~= "/std:"@);
}

} // verus!
