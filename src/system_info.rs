use vstd::prelude::*;
use crate::json::text_eq;

verus! {

/// What the application reports about itself and the machine.
#[derive(Debug, Clone)]
pub struct SystemInfo {
    pub app_version: String,
    pub os_name: String,
    pub os_version: String,
    pub arch: String,
}

/// The characters that Rust's `char::is_whitespace` accepts (Unicode `White_Space`).
pub open spec fn is_white(c: char) -> bool {
    let u = c as u32;
    (0x9 <= u <= 0xD) || u == 0x20 || u == 0x85 || u == 0xA0 || u == 0x1680 || (0x2000 <= u
        <= 0x200A) || u == 0x2028 || u == 0x2029 || u == 0x202F || u == 0x205F || u == 0x3000
}

pub open spec fn trim_start(s: Seq<char>) -> Seq<char>
    decreases s.len(),
{
    if s.len() > 0 && is_white(s[0]) {
        trim_start(s.drop_first())
    } else {
        s
    }
}

pub open spec fn trim_end(s: Seq<char>) -> Seq<char>
    decreases s.len(),
{
    if s.len() > 0 && is_white(s.last()) {
        trim_end(s.drop_last())
    } else {
        s
    }
}

/// The text without leading and trailing white space.
pub open spec fn trim(s: Seq<char>) -> Seq<char> {
    trim_end(trim_start(s))
}

/// The text with every occurrence of `p` removed, scanning from the left.
pub open spec fn remove_all(s: Seq<char>, p: Seq<char>) -> Seq<char>
    decreases s.len(),
{
    if s.len() == 0 || p.len() == 0 {
        s
    } else if p.len() <= s.len() && s.subrange(0, p.len() as int) == p {
        remove_all(s.subrange(p.len() as int, s.len() as int), p)
    } else {
        seq![s[0]] + remove_all(s.drop_first(), p)
    }
}

/// Position of the first line feed at or after `from`; the length where there is none.
pub open spec fn next_newline(s: Seq<char>, from: int) -> int
    decreases s.len() - from,
{
    if from < 0 || from >= s.len() {
        s.len() as int
    } else if s[from] == '\n' {
        from
    } else {
        next_newline(s, from + 1)
    }
}

/// The line that starts at `from`: up to the next line feed, without the carriage
/// return before it.
pub open spec fn line_at(s: Seq<char>, from: int) -> Seq<char> {
    let e = next_newline(s, from);
    let raw = s.subrange(from, e);
    if e < s.len() && raw.len() > 0 && raw.last() == '\r' {
        raw.drop_last()
    } else {
        raw
    }
}

/// The caption that a `Caption=` line of `wmic` output names, where it names one.
pub open spec fn caption_value(line: Seq<char>) -> Option<Seq<char>> {
    if line.len() >= 8 && line.subrange(0, 8) == "Caption="@ {
        let v = trim(remove_all(line, "Caption="@));
        if v.len() > 0 {
            Some(v)
        } else {
            None
        }
    } else {
        None
    }
}

proof fn lemma_next_newline_bounds(s: Seq<char>, from: int)
    requires
        0 <= from <= s.len(),
    ensures
        from <= next_newline(s, from) <= s.len(),
        forall|k: int| from <= k < next_newline(s, from) ==> s[k] != '\n',
        next_newline(s, from) < s.len() ==> s[next_newline(s, from)] == '\n',
    decreases s.len() - from,
{
    if from < s.len() && s[from] != '\n' {
        lemma_next_newline_bounds(s, from + 1);
    }
}

#[via_fn]
proof fn first_caption_decreases(s: Seq<char>, from: int) {
    if 0 <= from <= s.len() {
        lemma_next_newline_bounds(s, from);
    }
}

/// The first caption among the lines from `from` on.
pub open spec fn first_caption(s: Seq<char>, from: int) -> Option<Seq<char>>
    decreases s.len() - from,
    when 0 <= from <= s.len()
    via first_caption_decreases
{
    match caption_value(line_at(s, from)) {
        Some(v) => Some(v),
        None => if next_newline(s, from) >= s.len() {
            None
        } else {
            first_caption(s, next_newline(s, from) + 1)
        },
    }
}

/// The Windows edition that `wmic os get Caption /value` reported: the first non-empty
/// caption in its output, or just `Windows` where there is none or the command failed.
pub open spec fn windows_version_of(output: Option<Seq<char>>) -> Seq<char> {
    match output {
        Some(s) => match first_caption(s, 0) {
            Some(v) => v,
            None => "Windows"@,
        },
        None => "Windows"@,
    }
}

pub fn is_whitespace(c: char) -> (r: bool)
    ensures
        r == is_white(c),
{
    let u = c as u32;
    (0x9 <= u && u <= 0xD) || u == 0x20 || u == 0x85 || u == 0xA0 || u == 0x1680 || (0x2000 <= u
        && u <= 0x200A) || u == 0x2028 || u == 0x2029 || u == 0x202F || u == 0x205F || u == 0x3000
}

/// The text without leading and trailing white space.
pub fn trim_text(s: &str) -> (r: String)
    ensures
        r@ == trim(s@),
{
    let n = s.unicode_len();
    assert(s@.subrange(0, n as int) =~= s@);
    let mut a: usize = 0;
    while a < n && is_whitespace(s.get_char(a))
        invariant
            n == s@.len(),
            a <= n,
            trim_start(s@) == trim_start(s@.subrange(a as int, n as int)),
        decreases n - a,
    {
        assert(s@.subrange(a as int, n as int).drop_first() =~= s@.subrange(a + 1, n as int));
        a = a + 1;
    }
    assert(trim_start(s@.subrange(a as int, n as int)) == s@.subrange(a as int, n as int));
    let mut b: usize = n;
    while b > a && is_whitespace(s.get_char(b - 1))
        invariant
            n == s@.len(),
            a <= b <= n,
            trim_end(s@.subrange(a as int, n as int)) == trim_end(s@.subrange(a as int, b as int)),
        decreases b - a,
    {
        assert(s@.subrange(a as int, b as int).drop_last() =~= s@.subrange(a as int, b - 1));
        b = b - 1;
    }
    assert(trim_end(s@.subrange(a as int, b as int)) == s@.subrange(a as int, b as int));
    s.substring_char(a, b).to_owned()
}

/// The text with every occurrence of `Caption=` removed.
fn strip_caption_marks(s: &str) -> (r: String)
    ensures
        r@ == remove_all(s@, "Caption="@),
{
    proof {
        reveal_strlit("Caption=");
    }
    let ghost p = "Caption="@;
    let n = s.unicode_len();
    let mut out = String::new();
    let mut i: usize = 0;
    assert(s@.subrange(0, n as int) =~= s@);
    assert(out@ + remove_all(s@, p) =~= remove_all(s@, p));
    while i < n
        invariant
            n == s@.len(),
            p == "Caption="@,
            p.len() == 8,
            i <= n,
            out@ + remove_all(s@.subrange(i as int, n as int), p) == remove_all(s@, p),
        decreases n - i,
    {
        let ghost rest = s@.subrange(i as int, n as int);
        if n - i >= 8 && text_eq(s.substring_char(i, i + 8), "Caption=") {
            assert(rest.subrange(0, 8) =~= s@.subrange(i as int, i + 8));
            assert(rest.subrange(8, rest.len() as int) =~= s@.subrange(i + 8, n as int));
            i = i + 8;
        } else {
            if n - i >= 8 {
                assert(rest.subrange(0, 8) =~= s@.subrange(i as int, i + 8));
            }
            let ghost before = out@;
            out.append(s.substring_char(i, i + 1));
            assert(s@.subrange(i as int, i + 1) =~= seq![rest[0]]);
            assert(rest.drop_first() =~= s@.subrange(i + 1, n as int));
            assert(out@ + remove_all(s@.subrange(i + 1, n as int), p) =~= before + (seq![rest[0]] + remove_all(rest.drop_first(), p)));
            i = i + 1;
        }
    }
    assert(s@.subrange(n as int, n as int) =~= Seq::<char>::empty());
    assert(out@ + Seq::<char>::empty() =~= out@);
    out
}

/// The caption a line names, where it is a `Caption=` line with a non-empty value.
fn caption_of_line(line: &str) -> (r: Option<String>)
    ensures
        r matches Some(v) ==> caption_value(line@) == Some(v@),
        r is None ==> caption_value(line@) is None,
{
    proof {
        reveal_strlit("Caption=");
    }
    let n = line.unicode_len();
    if n < 8 || !text_eq(line.substring_char(0, 8), "Caption=") {
        return None;
    }
    let stripped = strip_caption_marks(line);
    let v = trim_text(stripped.as_str());
    if v.unicode_len() > 0 {
        Some(v)
    } else {
        None
    }
}

/// The Windows edition, from the output of `wmic os get Caption /value` (nothing where the
/// command failed).
pub fn get_windows_version(output: Option<&str>) -> (r: String)
    ensures
        r@ == windows_version_of(
            match output {
                Some(s) => Some(s@),
                None => None,
            },
        ),
{
    let s = match output {
        Some(s) => s,
        None => return String::from_str("Windows"),
    };
    assert(output == Some(s));
    let n = s.unicode_len();
    let mut pos: usize = 0;
    let mut done = false;
    while !done
        invariant
            n == s@.len(),
            output == Some(s),
            pos <= n,
            !done ==> first_caption(s@, 0) == first_caption(s@, pos as int),
            done ==> first_caption(s@, 0) is None,
        decreases 2 * (n - pos) + (if done { 0int } else { 1int }),
    {
        proof {
            lemma_next_newline_bounds(s@, pos as int);
        }
        let mut e: usize = pos;
        while e < n && s.get_char(e) != '\n'
            invariant
                n == s@.len(),
                pos <= e <= n,
                output == Some(s),
                next_newline(s@, pos as int) == next_newline(s@, e as int),
                first_caption(s@, 0) == first_caption(s@, pos as int),
            decreases n - e,
        {
            e = e + 1;
        }
        let mut end = e;
        if e < n && end > pos && s.get_char(end - 1) == '\r' {
            end = end - 1;
        }
        let line = s.substring_char(pos, end);
        assert(line@ =~= line_at(s@, pos as int));
        match caption_of_line(line) {
            Some(v) => {
                assert(first_caption(s@, pos as int) == Some(v@));
                assert(windows_version_of(Some(s@)) == v@);
                return v;
            },
            None => {},
        }
        assert(e == next_newline(s@, pos as int));
        if e >= n {
            done = true;
        } else {
            pos = e + 1;
        }
    }
    String::from_str("Windows")
}

/// The name shown for an operating system, by Rust's name for it.
pub open spec fn os_display_name(os: Seq<char>) -> Seq<char> {
    if os == "windows"@ {
        "Windows"@
    } else if os == "macos"@ {
        "macOS"@
    } else if os == "linux"@ {
        "Linux"@
    } else {
        "Unknown"@
    }
}

/// The name shown for a processor architecture, by Rust's name for it.
pub open spec fn arch_display_name(arch: Seq<char>) -> Seq<char> {
    if arch == "x86_64"@ {
        "64-Bit"@
    } else if arch == "x86"@ {
        "32-Bit"@
    } else if arch == "aarch64"@ {
        "ARM64"@
    } else {
        arch
    }
}

/// What the application reports about itself: its version, and the system it runs on,
/// named by Rust's names for the operating system and architecture. The edition is read
/// from `wmic` output on Windows only.
pub fn get_system_info(app_version: &str, os: &str, arch: &str, wmic_output: Option<&str>) -> (r: SystemInfo)
    ensures
        r.app_version@ == app_version@,
        r.os_name@ == os_display_name(os@),
        r.arch@ == arch_display_name(arch@),
        r.os_version@ == (if os@ == "windows"@ {
            windows_version_of(
                match wmic_output {
                    Some(s) => Some(s@),
                    None => None,
                },
            )
        } else {
            "Unknown"@
        }),
{
    let windows = text_eq(os, "windows");
    let os_name = if windows {
        String::from_str("Windows")
    } else if text_eq(os, "macos") {
        String::from_str("macOS")
    } else if text_eq(os, "linux") {
        String::from_str("Linux")
    } else {
        String::from_str("Unknown")
    };
    let arch_name = if text_eq(arch, "x86_64") {
        String::from_str("64-Bit")
    } else if text_eq(arch, "x86") {
        String::from_str("32-Bit")
    } else if text_eq(arch, "aarch64") {
        String::from_str("ARM64")
    } else {
        arch.to_owned()
    };
    let os_version = if windows {
        get_windows_version(wmic_output)
    } else {
        String::from_str("Unknown")
    };
    SystemInfo { app_version: app_version.to_owned(), os_name, os_version, arch: arch_name }
}

} // verus!
