//! What kind of environment the program runs in.
use crate::text::{contains, same_text, to_ascii_lowercase, to_chars};
use vstd::prelude::*;

verus! {

/// A kernel release or version text names the Windows subsystem, in whatever case.
pub open spec fn text_is_wsl(text: Seq<char>) -> bool {
    let lower = text.map_values(|c: char| crate::text::ascii_lower(c));
    crate::text::contains_text(lower, "microsoft"@) || crate::text::contains_text(lower, "wsl"@)
}

/// Whether a kernel release or version text names the Windows subsystem.
pub fn text_indicates_wsl(text: &str) -> (wsl: bool)
    ensures
        wsl == text_is_wsl(text@),
{
    let lower: Vec<char> = to_ascii_lowercase(text);
    let microsoft: Vec<char> = to_chars("microsoft");
    let wsl: Vec<char> = to_chars("wsl");
    contains(lower.as_slice(), microsoft.as_slice()) || contains(lower.as_slice(), wsl.as_slice())
}

/// `wsl` is what the file at `path` says; a file that cannot be read says no.
pub open spec fn file_says_wsl<R>(read_text: R, path: &str, wsl: bool) -> bool where
    R: Fn(&str) -> Option<String>,
 {
    exists|text: Option<String>| #[trigger]
        call_ensures(read_text, (path,), text) && wsl == match text {
            Some(text) => text_is_wsl(text@),
            None => false,
        }
}

/// Whether the file at `path` names the Windows subsystem.
pub fn proc_file_indicates_wsl<R>(path: &str, read_text: &R) -> (wsl: bool) where
    R: Fn(&str) -> Option<String>,

    requires
        call_requires(*read_text, (path,)),
    ensures
        file_says_wsl(*read_text, path, wsl),
{
    match read_text(path) {
        Some(text) => text_indicates_wsl(text.as_str()),
        None => false,
    }
}

/// `inside` is what the signs of the Windows subsystem say: one sign is enough for yes, no takes
/// all of them.
pub open spec fn signs_say_wsl<R, E, X>(
    read_text: R,
    env_set: E,
    path_exists: X,
    inside: bool,
) -> bool where R: Fn(&str) -> Option<String>, E: Fn(&str) -> bool, X: Fn(&str) -> bool {
    if inside {
        ||| file_says_wsl(read_text, "/proc/sys/kernel/osrelease", true)
        ||| file_says_wsl(read_text, "/proc/version", true)
        ||| call_ensures(env_set, ("WSL_DISTRO_NAME",), true)
        ||| call_ensures(env_set, ("WSL_INTEROP",), true)
        ||| call_ensures(path_exists, ("/run/WSL",), true)
    } else {
        &&& file_says_wsl(read_text, "/proc/sys/kernel/osrelease", false)
        &&& file_says_wsl(read_text, "/proc/version", false)
        &&& call_ensures(env_set, ("WSL_DISTRO_NAME",), false)
        &&& call_ensures(env_set, ("WSL_INTEROP",), false)
        &&& call_ensures(path_exists, ("/run/WSL",), false)
    }
}

/// Whether the program runs inside the Windows subsystem for Linux.
pub fn running_inside_wsl<R, E, X>(read_text: &R, env_set: &E, path_exists: &X) -> (inside:
    bool) where R: Fn(&str) -> Option<String>, E: Fn(&str) -> bool, X: Fn(&str) -> bool
    requires
        forall|path: &str| call_requires(*read_text, (path,)),
        forall|name: &str| call_requires(*env_set, (name,)),
        forall|path: &str| call_requires(*path_exists, (path,)),
    ensures
        signs_say_wsl(*read_text, *env_set, *path_exists, inside),
{
    proc_file_indicates_wsl("/proc/sys/kernel/osrelease", read_text) || proc_file_indicates_wsl(
        "/proc/version",
        read_text,
    ) || env_set("WSL_DISTRO_NAME") || env_set("WSL_INTEROP") || path_exists("/run/WSL")
}

/// The host cursor is drawn by default inside the Windows subsystem only.
pub fn should_draw_host_cursor_by_default<R, E, X>(
    read_text: &R,
    env_set: &E,
    path_exists: &X,
) -> (draw: bool) where R: Fn(&str) -> Option<String>, E: Fn(&str) -> bool, X: Fn(&str) -> bool
    requires
        forall|path: &str| call_requires(*read_text, (path,)),
        forall|name: &str| call_requires(*env_set, (name,)),
        forall|path: &str| call_requires(*path_exists, (path,)),
    ensures
        signs_say_wsl(*read_text, *env_set, *path_exists, draw),
{
    running_inside_wsl(read_text, env_set, path_exists)
}

/// The host terminal is asked for its palette outside the Windows subsystem only.
pub fn should_query_host_terminal_palette<R, E, X>(
    read_text: &R,
    env_set: &E,
    path_exists: &X,
) -> (query: bool) where R: Fn(&str) -> Option<String>, E: Fn(&str) -> bool, X: Fn(&str) -> bool
    requires
        forall|path: &str| call_requires(*read_text, (path,)),
        forall|name: &str| call_requires(*env_set, (name,)),
        forall|path: &str| call_requires(*path_exists, (path,)),
    ensures
        signs_say_wsl(*read_text, *env_set, *path_exists, !query),
{
    !running_inside_wsl(read_text, env_set, path_exists)
}

/// How the foreground group is found where the terminal does not tell it.
#[derive(Debug, Clone, Copy, PartialEq, Eq)]
pub enum ProcessDetectionMode {
    Native,
    ChildGroups,
}

/// The mode that a value of the detection variable names, if it names one.
pub open spec fn named_mode(value: Option<&str>) -> Option<ProcessDetectionMode> {
    match value {
        None => Some(ProcessDetectionMode::Native),
        Some(value) => if value@ == ""@ || value@ == "native"@ {
            Some(ProcessDetectionMode::Native)
        } else if value@ == "child-groups"@ {
            Some(ProcessDetectionMode::ChildGroups)
        } else {
            None
        },
    }
}

/// Child groups are used only where exactly that was asked for: nothing, an empty value and any
/// other value do not ask for it.
pub proof fn child_groups_must_be_asked_for(value: Option<&str>)
    ensures
        named_mode(value) == Some(ProcessDetectionMode::ChildGroups) <==> value is Some
            && value->0@ == "child-groups"@,
{
    reveal_strlit("");
    reveal_strlit("native");
    reveal_strlit("child-groups");
    assert("native"@.len() == 6 && "child-groups"@.len() == 12);
}

/// The mode that a value of the detection variable names, or the value itself where it names none.
pub fn parse_process_detection_mode<'a>(value: Option<&'a str>) -> (mode: Result<
    ProcessDetectionMode,
    &'a str,
>)
    ensures
        match mode {
            Ok(mode) => named_mode(value) == Some(mode),
            Err(unknown) => named_mode(value) is None && value == Some(unknown),
        },
{
    match value {
        None => Ok(ProcessDetectionMode::Native),
        Some(text) => if same_text(text, "") || same_text(text, "native") {
            Ok(ProcessDetectionMode::Native)
        } else if same_text(text, "child-groups") {
            Ok(ProcessDetectionMode::ChildGroups)
        } else {
            Err(text)
        },
    }
}

/// The mode that the detection variable asks for; an unknown value asks for native detection.
pub fn process_detection_mode(value: Option<&str>) -> (mode: ProcessDetectionMode)
    ensures
        mode == match named_mode(value) {
            Some(mode) => mode,
            None => ProcessDetectionMode::Native,
        },
{
    match parse_process_detection_mode(value) {
        Ok(mode) => mode,
        Err(_) => ProcessDetectionMode::Native,
    }
}

/// A text is read as naming the Windows subsystem wherever it holds "microsoft" or "wsl", each letter
/// in either case, whatever stands before it and behind it.
pub proof fn the_subsystem_is_recognised(before: Seq<char>, name: Seq<char>, behind: Seq<char>)
    requires
        (name.len() == 9 && forall|i: int|
            0 <= i < 9 ==> #[trigger] name[i] == "microsoft"@[i] || name[i] == "MICROSOFT"@[i]) || (
        name.len() == 3 && forall|i: int|
            0 <= i < 3 ==> #[trigger] name[i] == "wsl"@[i] || name[i] == "WSL"@[i]),
    ensures
        text_is_wsl(before + name + behind),
{
    reveal_strlit("microsoft");
    reveal_strlit("MICROSOFT");
    reveal_strlit("wsl");
    reveal_strlit("WSL");
    let text = before + name + behind;
    let lower = text.map_values(|c: char| crate::text::ascii_lower(c));
    let at = before.len() as int;
    let part = lower.subrange(at, at + name.len());
    assert forall|i: int| 0 <= i < name.len() implies #[trigger] part[i]
        == crate::text::ascii_lower(name[i]) by {
        assert(text[at + i] == name[i]);
    }
    if name.len() == 9 {
        assert forall|i: int| 0 <= i < 9 implies part[i] == "microsoft"@[i] by {
            lemma_lower_microsoft(i);
        }
        assert(part =~= "microsoft"@);
    } else {
        assert forall|i: int| 0 <= i < 3 implies part[i] == "wsl"@[i] by {
            lemma_lower_wsl(i);
        }
        assert(part =~= "wsl"@);
    }
}

/// The letters of one name in lower case.
proof fn lemma_lower_microsoft(i: int)
    requires
        0 <= i < 9,
    ensures
        "microsoft"@.len() == 9,
        "MICROSOFT"@.len() == 9,
        crate::text::ascii_lower("MICROSOFT"@[i]) == "microsoft"@[i],
        crate::text::ascii_lower("microsoft"@[i]) == "microsoft"@[i],
{
    reveal_strlit("microsoft");
    reveal_strlit("MICROSOFT");
    assert(i == 0 || i == 1 || i == 2 || i == 3 || i == 4 || i == 5 || i == 6 || i == 7 || i == 8);
}

/// The letters of the other name in lower case.
proof fn lemma_lower_wsl(i: int)
    requires
        0 <= i < 3,
    ensures
        "wsl"@.len() == 3,
        "WSL"@.len() == 3,
        crate::text::ascii_lower("WSL"@[i]) == "wsl"@[i],
        crate::text::ascii_lower("wsl"@[i]) == "wsl"@[i],
{
    reveal_strlit("wsl");
    reveal_strlit("WSL");
    assert(i == 0 || i == 1 || i == 2);
}

/// A character whose lower-case form is a lower-case letter is that letter in either case.
proof fn lemma_either_case(c: char, lower: char, upper: char)
    requires
        crate::text::ascii_lower(c) == lower,
        'a' <= lower <= 'z',
        'A' <= upper <= 'Z',
        crate::text::ascii_lower(upper) == lower,
    ensures
        c == lower || c == upper,
{
}

/// A place of `text` where a name stands, each letter in either case.
pub open spec fn names_at(text: Seq<char>, lower: Seq<char>, upper: Seq<char>, at: int) -> bool {
    &&& 0 <= at <= text.len() - lower.len()
    &&& forall|i: int|
        0 <= i < lower.len() ==> #[trigger] text[at + i] == lower[i] || text[at + i] == upper[i]
}

/// A place of `text` where one of the two names of the Windows subsystem stands.
pub open spec fn names_the_subsystem_at(text: Seq<char>, at: int) -> bool {
    names_at(text, "microsoft"@, "MICROSOFT"@, at) || names_at(text, "wsl"@, "WSL"@, at)
}

/// Nothing else is read as naming the Windows subsystem.
pub proof fn nothing_else_names_the_subsystem(text: Seq<char>)
    requires
        text_is_wsl(text),
    ensures
        exists|at: int| names_the_subsystem_at(text, at),
{
    reveal_strlit("microsoft");
    reveal_strlit("MICROSOFT");
    reveal_strlit("wsl");
    reveal_strlit("WSL");
    let lower = text.map_values(|c: char| crate::text::ascii_lower(c));
    let needle = if crate::text::contains_text(lower, "microsoft"@) {
        "microsoft"@
    } else {
        "wsl"@
    };
    let upper = if crate::text::contains_text(lower, "microsoft"@) {
        "MICROSOFT"@
    } else {
        "WSL"@
    };
    let at = choose|at: int|
        0 <= at <= lower.len() - needle.len() && #[trigger] lower.subrange(at, at + needle.len())
            == needle;
    assert forall|i: int| 0 <= i < needle.len() implies #[trigger] text[at + i] == needle[i]
        || text[at + i] == upper[i] by {
        assert(lower.subrange(at, at + needle.len())[i] == lower[at + i]);
        if needle.len() == 9 {
            lemma_lower_microsoft(i);
            assert(i == 0 || i == 1 || i == 2 || i == 3 || i == 4 || i == 5 || i == 6 || i == 7 || i
                == 8);
        } else {
            lemma_lower_wsl(i);
            assert(i == 0 || i == 1 || i == 2);
        }
        lemma_either_case(text[at + i], needle[i], upper[i]);
    }
    assert(names_at(text, needle, upper, at));
    assert(names_the_subsystem_at(text, at));
}

/// One sign of the Windows subsystem is enough, whichever it is, and without any there is none.
pub proof fn one_sign_is_enough<R, E, X>(
    read_text: R,
    env_set: E,
    path_exists: X,
    inside: bool,
) where R: Fn(&str) -> Option<String>, E: Fn(&str) -> bool, X: Fn(&str) -> bool
    requires
        signs_say_wsl(read_text, env_set, path_exists, inside),
    ensures
        (forall|said: bool| #[trigger]
            file_says_wsl(read_text, "/proc/sys/kernel/osrelease", said) ==> said) ==> inside,
        (forall|said: bool| #[trigger]
            file_says_wsl(read_text, "/proc/version", said) ==> said) ==> inside,
        (forall|text: Option<String>| #[trigger]
            call_ensures(read_text, ("/proc/sys/kernel/osrelease",), text) ==> text is Some
                && text_is_wsl(text->0@)) ==> inside,
        (forall|text: Option<String>| #[trigger]
            call_ensures(read_text, ("/proc/version",), text) ==> text is Some && text_is_wsl(
                text->0@,
            )) ==> inside,
        (forall|set: bool| #[trigger]
            call_ensures(env_set, ("WSL_DISTRO_NAME",), set) ==> set) ==> inside,
        (forall|set: bool| #[trigger]
            call_ensures(env_set, ("WSL_INTEROP",), set) ==> set) ==> inside,
        (forall|there: bool| #[trigger]
            call_ensures(path_exists, ("/run/WSL",), there) ==> there) ==> inside,
        (forall|path: &str, text: Option<String>| #[trigger]
            call_ensures(read_text, (path,), text) ==> text is None || !text_is_wsl(text->0@)) && (
        forall|name: &str, set: bool| #[trigger] call_ensures(env_set, (name,), set) ==> !set) && (
        forall|path: &str, there: bool| #[trigger]
            call_ensures(path_exists, (path,), there) ==> !there) ==> !inside,
{
}

/// A value names a mode exactly where it is missing, empty or one of the two names.
pub proof fn other_modes_are_unknown(value: Option<&str>)
    ensures
        named_mode(value) is None <==> value is Some && value->0@.len() > 0 && value->0@
            != "native"@ && value->0@ != "child-groups"@,
        value is None || value->0@.len() == 0 || value->0@ == "native"@ ==> named_mode(value)
            == Some(ProcessDetectionMode::Native),
{
    reveal_strlit("");
    reveal_strlit("native");
    reveal_strlit("child-groups");
    assert("native"@.len() == 6 && "child-groups"@.len() == 12);
    if value is Some && value->0@.len() == 0 {
        assert(value->0@ =~= ""@);
    }
}

} // verus!
