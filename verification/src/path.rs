//! File names and extensions of paths held as strings.
use vstd::prelude::*;
use crate::text::{chars_of, opt_chars, starts_with, str_eq};

verus! {

/// A path that every platform splits alike: no backslash, no drive or
/// stream colon, and no leading `//` (a network share on Windows).
pub open spec fn portable_path(p: Seq<char>) -> bool {
    &&& !p.contains('\\')
    &&& !p.contains(':')
    &&& !starts_with(p, "//"@)
}

/// The parts of `p` between `/` characters, in order, empty parts included.
pub open spec fn slash_segments(p: Seq<char>) -> Seq<Seq<char>>
    decreases p.len(),
{
    if p.len() == 0 {
        seq![Seq::empty()]
    } else {
        let before = slash_segments(p.drop_last());
        if p.last() == '/' {
            before.push(Seq::empty())
        } else {
            before.update(before.len() - 1, before.last().push(p.last()))
        }
    }
}

/// A segment that names nothing: empty, or the current directory `.`.
pub open spec fn idle_segment(s: Seq<char>) -> bool {
    s.len() == 0 || s == "."@
}

/// The segments of `p` that name something, in order.
pub open spec fn named_segments(p: Seq<char>) -> Seq<Seq<char>> {
    slash_segments(p).filter(|s: Seq<char>| !idle_segment(s))
}

/// The final component of a portable path: its last segment once empty and
/// `.` segments are dropped; none where that segment is `..` or none is left.
pub open spec fn final_component(p: Seq<char>) -> Option<Seq<char>> {
    let kept = named_segments(p);
    if kept.len() == 0 || kept.last() == ".."@ {
        None
    } else {
        Some(kept.last())
    }
}

/// A path separator on Windows: `/` or a backslash.
pub open spec fn is_separator(c: char) -> bool {
    c == '/' || c == '\\'
}

/// A path that starts with two separators: on Windows a verbatim, device or
/// network-share prefix.
pub open spec fn starts_with_two_separators(p: Seq<char>) -> bool {
    p.len() >= 2 && is_separator(p[0]) && is_separator(p[1])
}

/// A path that starts with a drive: an ASCII letter and `:`.
pub open spec fn has_drive(p: Seq<char>) -> bool {
    p.len() >= 2 && (('a' <= p[0] && p[0] <= 'z') || ('A' <= p[0] && p[0] <= 'Z')) && p[1] == ':'
}

/// The parts of `p` between separators of either kind, in order, empty parts
/// included.
pub open spec fn separator_segments(p: Seq<char>) -> Seq<Seq<char>>
    decreases p.len(),
{
    if p.len() == 0 {
        seq![Seq::empty()]
    } else {
        let before = separator_segments(p.drop_last());
        if is_separator(p.last()) {
            before.push(Seq::empty())
        } else {
            before.update(before.len() - 1, before.last().push(p.last()))
        }
    }
}

/// The final component of a path as Windows reads it, where the path does
/// not start with two separators: a leading drive is dropped, the rest is
/// split at either separator, and the last segment that names something is
/// the component; none where it is `..` or none is left.
pub open spec fn windows_final_component(p: Seq<char>) -> Option<Seq<char>> {
    last_named_segment(
        if has_drive(p) {
            p.skip(2)
        } else {
            p
        },
    )
}

/// The last segment between separators of either kind that names something;
/// none where it is `..` or none is left.
pub open spec fn last_named_segment(rest: Seq<char>) -> Option<Seq<char>> {
    let kept = separator_segments(rest).filter(|s: Seq<char>| !idle_segment(s));
    if kept.len() == 0 || kept.last() == ".."@ {
        None
    } else {
        Some(kept.last())
    }
}

/// What holds of the final component that std finds in `path`, on whichever
/// platform the library runs: for a portable path it is `final_component`;
/// for a path that does not start with two separators it is the `/`-only
/// reading (`final_component`, as on Unix) or the Windows reading
/// (`windows_final_component`); it is never empty, `.` or `..`, and it holds
/// no `/` where the path holds no backslash (only Windows verbatim paths,
/// which start with a backslash, keep `/` inside a component).
pub open spec fn file_name_outcome(path: Seq<char>, name: Option<Seq<char>>) -> bool {
    &&& portable_path(path) ==> name == final_component(path)
    &&& !starts_with_two_separators(path) ==> (name == final_component(path) || name
        == windows_final_component(path))
    &&& name matches Some(n) ==> {
        &&& n.len() > 0
        &&& n != "."@
        &&& n != ".."@
        &&& !path.contains('\\') ==> !n.contains('/')
    }
}

/// A part without `/` is one segment, after whatever comes before it and a `/`.
proof fn lemma_segments_of_last_part(p: Seq<char>, q: Seq<char>, slash: bool)
    requires
        !q.contains('/'),
    ensures
        slash ==> slash_segments(p.push('/') + q) == slash_segments(p).push(q),
        !slash ==> slash_segments(q) == seq![q],
    decreases q.len(),
{
    if q.len() > 0 {
        let q0 = q.drop_last();
        assert(!q0.contains('/')) by {
            if q0.contains('/') {
                let i = choose|i: int| 0 <= i < q0.len() && q0[i] == '/';
                assert(q[i] == '/');
            }
        }
        assert(q.last() != '/') by {
            assert(q[q.len() - 1] == q.last());
        }
        lemma_segments_of_last_part(p, q0, slash);
        let c = q.last();
        assert(q0.push(c) =~= q);
        if slash {
            let t = p.push('/') + q;
            assert(t.drop_last() =~= p.push('/') + q0);
            assert(t.last() == c);
            let before = slash_segments(p).push(q0);
            assert(slash_segments(t) == before.update(before.len() - 1, before.last().push(c)));
            assert(before.update(before.len() - 1, before.last().push(c)) =~= slash_segments(
                p,
            ).push(q));
        } else {
            let before = seq![q0];
            assert(slash_segments(q) == before.update(before.len() - 1, before.last().push(c)));
            assert(before.update(before.len() - 1, before.last().push(c)) =~= seq![q]);
        }
    } else {
        assert(q =~= Seq::<char>::empty());
        if slash {
            assert(p.push('/') + q =~= p.push('/'));
            assert(p.push('/').drop_last() =~= p);
        }
    }
}

/// The final component of a name that follows a `/` is that name, whatever
/// precedes it; so is that of a bare name.
pub proof fn lemma_final_component_of_last_part(dir: Seq<char>, name: Seq<char>)
    requires
        name.len() > 0,
        !name.contains('/'),
        name != "."@,
        name != ".."@,
    ensures
        final_component(dir + "/"@ + name) == Some(name),
        final_component(name) == Some(name),
{
    reveal_strlit("/");
    assert(dir + "/"@ + name =~= dir.push('/') + name);
    lemma_segments_of_last_part(dir, name, true);
    lemma_segments_of_last_part(dir, name, false);
    assert(!idle_segment(name));
    let segs = slash_segments(dir);
    assert(segs.push(name).drop_last() =~= segs);
    reveal_with_fuel(Seq::<_>::filter, 1);
    assert(named_segments(dir + "/"@ + name) == segs.filter(|s: Seq<char>| !idle_segment(s)).push(name));
    assert(seq![name].drop_last() =~= Seq::<Seq<char>>::empty());
    assert(named_segments(name) == Seq::<Seq<char>>::empty().filter(|s: Seq<char>| !idle_segment(s)).push(name));
}

/// A part without separators is one segment, after whatever comes before it
/// and a separator.
proof fn lemma_separator_segments_of_last_part(p: Seq<char>, sep: char, q: Seq<char>)
    requires
        is_separator(sep),
        forall|i: int| 0 <= i < q.len() ==> !is_separator(#[trigger] q[i]),
    ensures
        separator_segments(p.push(sep) + q) == separator_segments(p).push(q),
    decreases q.len(),
{
    if q.len() > 0 {
        let q0 = q.drop_last();
        let c = q.last();
        assert(!is_separator(c)) by {
            assert(q[q.len() - 1] == c);
        }
        assert forall|i: int| 0 <= i < q0.len() implies !is_separator(#[trigger] q0[i]) by {
            assert(q0[i] == q[i]);
        }
        lemma_separator_segments_of_last_part(p, sep, q0);
        assert(q0.push(c) =~= q);
        let t = p.push(sep) + q;
        assert(t.drop_last() =~= p.push(sep) + q0);
        assert(t.last() == c);
        let before = separator_segments(p).push(q0);
        assert(separator_segments(t) == before.update(before.len() - 1, before.last().push(c)));
        assert(before.update(before.len() - 1, before.last().push(c)) =~= separator_segments(
            p,
        ).push(q));
    } else {
        assert(q =~= Seq::<char>::empty());
        assert(p.push(sep) + q =~= p.push(sep));
        assert(p.push(sep).drop_last() =~= p);
        assert(p.push(sep).last() == sep);
    }
}

/// Read as Windows reads it, a name after a separator is the final part,
/// whatever precedes it.
pub proof fn lemma_last_named_segment_of_last_part(dir: Seq<char>, sep: char, name: Seq<char>)
    requires
        is_separator(sep),
        name.len() > 0,
        forall|i: int| 0 <= i < name.len() ==> !is_separator(#[trigger] name[i]),
        name != "."@,
        name != ".."@,
    ensures
        last_named_segment(dir.push(sep) + name) == Some(name),
{
    lemma_separator_segments_of_last_part(dir, sep, name);
    assert(!idle_segment(name));
    let segs = separator_segments(dir);
    assert(segs.push(name).drop_last() =~= segs);
    reveal_with_fuel(Seq::<_>::filter, 1);
}

/// The index of the last `.` in `s`, or -1 where there is none.
pub open spec fn last_dot(s: Seq<char>) -> int
    decreases s.len(),
{
    if s.len() == 0 {
        -1
    } else if s.last() == '.' {
        s.len() - 1
    } else {
        last_dot(s.drop_last())
    }
}

/// The extension of a file name: what follows its last `.`, where that `.`
/// is not the first character; none for `..` or a name without such a dot.
pub open spec fn name_extension(name: Seq<char>) -> Option<Seq<char>> {
    if name == ".."@ || last_dot(name) <= 0 {
        None
    } else {
        Some(name.skip(last_dot(name) + 1))
    }
}

/// The final component of a path: `Path::file_name` of std, read as UTF-8.
/// Claimed: `file_name_outcome`. Left unsaid: which of the two readings
/// applies, which depends on the platform, and how a path that starts with two
/// separators is split (Windows reads verbatim, device and share prefixes
/// there, each by its own rules).
#[verifier::external_body]
fn path_file_name(path: &str) -> (r: Option<String>)
    ensures
        file_name_outcome(path@, opt_chars(r)),
{
    std::path::Path::new(path).file_name().map(|n| n.to_string_lossy().into_owned())
}

/// The final component of `path`, as std finds it on this platform.
pub fn file_name(path: &str) -> (r: Option<String>)
    ensures
        file_name_outcome(path@, opt_chars(r)),
{
    path_file_name(path)
}

/// The index of the last `.` in `v`, or `None`.
fn find_last_dot(v: &Vec<char>) -> (r: Option<usize>)
    ensures
        match r {
            Some(i) => last_dot(v@) == i as int && i < v@.len(),
            None => last_dot(v@) == -1,
        },
{
    let mut i: usize = v.len();
    assert(v@.take(i as int) =~= v@);
    while i > 0
        invariant
            i <= v.len(),
            last_dot(v@) == last_dot(v@.take(i as int)),
        decreases i,
    {
        assert(v@.take(i as int).drop_last() =~= v@.take(i - 1));
        if v[i - 1] == '.' {
            return Some(i - 1);
        }
        i -= 1;
    }
    None
}

/// The extension of the file name `name`.
pub fn extension_of(name: &str) -> (r: Option<String>)
    ensures
        opt_chars(r) == name_extension(name@),
{
    if str_eq(name, "..") {
        return None;
    }
    let v = chars_of(name);
    match find_last_dot(&v) {
        None => None,
        Some(i) => {
            if i == 0 {
                None
            } else {
                let len = name.unicode_len();
                let part = name.substring_char(i + 1, len);
                assert(name@.subrange(i + 1, len as int) =~= name@.skip(i + 1));
                Some(String::from_str(part))
            }
        },
    }
}

/// Whether a file name says that the file holds assembly for MASM.
pub open spec fn is_asm_name(name: Option<Seq<char>>) -> bool {
    match name {
        Some(n) => name_extension(n) == Some("asm"@),
        None => false,
    }
}

/// Whether the extension of the file `source` is `asm`.
pub fn is_asm_source(source: &str) -> (r: bool)
    ensures
        exists|n: Option<Seq<char>>| #[trigger] file_name_outcome(source@, n) && r == is_asm_name(n),
        portable_path(source@) ==> r == is_asm_name(final_component(source@)),
        !starts_with_two_separators(source@) ==> (r == is_asm_name(final_component(source@)) || r
            == is_asm_name(windows_final_component(source@))),
{
    let name = file_name(source);
    let r = match &name {
        Some(n) => match extension_of(n.as_str()) {
            Some(e) => str_eq(e.as_str(), "asm"),
            None => false,
        },
        None => false,
    };
    assert(file_name_outcome(source@, opt_chars(name)));
    r
}

} // verus!
