//! Process facts for tab titles and new-tab working directories: the tty's
//! foreground process, a process's name and the name it was invoked by,
//! and its working directory. The lookups themselves read `/proc`, call
//! `tcgetpgrp`, `proc_name`, `proc_pidinfo` or `sysctl` at the edge; the
//! functions here interpret what those return. A lookup that failed is
//! handed in as `None` (or a non-positive count), and yields `None`.

use vstd::prelude::*;
use vstd::utf8::*;
use crate::terminal::{min_int, opt_view};
use crate::text::{chars_of, copy_range, string_from_chars, trim, trimmed};

verus! {

/// The foreground process of a terminal, from what `tcgetpgrp` returned
/// for its pty master: the pid of the foreground process group's leader,
/// or `None` when the call failed or there is no foreground group.
pub fn foreground_pid(pgrp: i32) -> (p: Option<u32>)
    ensures
        p == (if pgrp <= 0 {
            None
        } else {
            Some(pgrp as u32)
        }),
{
    if pgrp <= 0 {
        return None;
    }
    Some(pgrp as u32)
}

/// `s` if it is not empty.
pub open spec fn non_empty(s: Seq<char>) -> Option<Seq<char>> {
    if s.len() == 0 {
        None
    } else {
        Some(s)
    }
}

/// A process name as the kernel records it (`/proc/<pid>/comm`, which is
/// newline-terminated, or the `proc_name` buffer): white space trimmed,
/// `None` when nothing is left.
pub fn process_name_impl(comm: &str) -> (name: Option<String>)
    ensures
        opt_view(name) == non_empty(trim(comm@)),
{
    let t = trimmed(&chars_of(comm));
    if t.len() == 0 {
        None
    } else {
        Some(string_from_chars(t.as_slice()))
    }
}

/// Human-readable name of a process (`htop`, `vim`, `node`) from its
/// `comm` record, or `None` when the record could not be read (the
/// process exited, or the platform has none).
pub fn process_name(comm: Option<String>) -> (name: Option<String>)
    ensures
        opt_view(name) == (match comm {
            Some(c) => non_empty(trim(c@)),
            None => None,
        }),
{
    match comm {
        Some(c) => process_name_impl(c.as_str()),
        None => None,
    }
}

/// The decoding of `bytes` as UTF-8, each invalid sequence replaced by
/// U+FFFD (what `String::from_utf8_lossy` returns).
pub uninterp spec fn utf8_lossy(bytes: Seq<u8>) -> Seq<char>;

/// `bytes` is ASCII.
pub open spec fn is_ascii_bytes(bytes: Seq<u8>) -> bool {
    forall|i: int| 0 <= i < bytes.len() ==> #[trigger] bytes[i] < 128
}

/// `String::from_utf8_lossy`, as an owned string. Its result is named
/// [`utf8_lossy`]; of it the contract states what the documentation
/// gives: valid UTF-8 comes back as the text it encodes (ASCII as its own
/// bytes), and since only invalid sequences are replaced (by U+FFFD) and
/// `/` is encoded by the byte 0x2F alone, bytes without 0x2F give text
/// without `/`.
#[verifier::external_body]
fn decode_lossy(bytes: &[u8]) -> (s: String)
    ensures
        s@ == utf8_lossy(bytes@),
        forall|t: Seq<char>| #[trigger] encode_utf8(t) == bytes@ ==> s@ == t,
        is_ascii_bytes(bytes@) ==> s@ == bytes@.map_values(|b: u8| b as char),
        !bytes@.contains(47u8) ==> !s@.contains('/'),
{
    String::from_utf8_lossy(bytes).into_owned()
}

/// Where the last run of non-`/` bytes of `s` starts.
pub open spec fn run_start(s: Seq<u8>) -> int
    decreases s.len(),
{
    if s.len() == 0 {
        0
    } else if s.last() == 47u8 {
        s.len() as int
    } else {
        run_start(s.drop_last())
    }
}

pub proof fn lemma_run_start(s: Seq<u8>)
    ensures
        0 <= run_start(s) <= s.len(),
        s.len() > 0 && s.last() != 47u8 ==> run_start(s) < s.len(),
        run_start(s) > 0 ==> s[run_start(s) - 1] == 47u8,
        forall|k: int| run_start(s) <= k < s.len() ==> #[trigger] s[k] != 47u8,
    decreases s.len(),
{
    if s.len() > 0 && s.last() != 47u8 {
        lemma_run_start(s.drop_last());
        assert forall|k: int| run_start(s) <= k < s.len() implies #[trigger] s[k] != 47u8 by {
            if k < s.len() - 1 {
                assert(s.drop_last()[k] == s[k]);
            }
        }
    }
}

/// The last component of a Unix path (what `Path::file_name` gives):
/// trailing `/` and `.` components are passed over; `None` for an empty
/// path, the root, or a path ending in `..`.
pub open spec fn file_name_spec(s: Seq<u8>) -> Option<Seq<u8>>
    decreases s.len(),
{
    if s.len() == 0 {
        None
    } else if s.last() == 47u8 {
        file_name_spec(s.drop_last())
    } else {
        let a = run_start(s);
        proof {
            lemma_run_start(s);
        }
        let comp = s.subrange(a, s.len() as int);
        if comp == seq![46u8] {
            file_name_spec(s.take(a))
        } else if comp == seq![46u8, 46u8] {
            None
        } else {
            Some(comp)
        }
    }
}

/// The last component of the Unix path `s`, as a byte range.
fn file_name_range(s: &[u8]) -> (r: Option<(usize, usize)>)
    ensures
        match r {
            Some((a, b)) => a <= b <= s@.len() && file_name_spec(s@) == Some(
                s@.subrange(a as int, b as int),
            ),
            None => file_name_spec(s@) is None,
        },
{
    let mut j: usize = s.len();
    assert(s@.take(j as int) =~= s@);
    loop
        invariant
            j <= s@.len(),
            file_name_spec(s@) == file_name_spec(s@.take(j as int)),
        decreases j,
    {
        let ghost t = s@.take(j as int);
        if j == 0 {
            return None;
        }
        if s[j - 1] == 47u8 {
            assert(t.drop_last() =~= s@.take(j - 1));
            j -= 1;
            continue;
        }
        let mut a: usize = j;
        while a > 0 && s[a - 1] != 47u8
            invariant
                a <= j,
                j <= s@.len(),
                t == s@.take(j as int),
                forall|k: int| a <= k < j ==> #[trigger] s@[k] != 47u8,
            decreases a,
        {
            a -= 1;
        }
        proof {
            assert forall|k: int| a <= k < t.len() implies #[trigger] t[k] != 47u8 by {
                assert(t[k] == s@[k]);
            }
            lemma_run_start(t);
            lemma_run_start_is(t, a as int);
        }
        let comp_len = j - a;
        let ghost comp = t.subrange(a as int, t.len() as int);
        assert(comp =~= s@.subrange(a as int, j as int));
        if comp_len == 1 && s[a] == 46u8 {
            assert(comp =~= seq![46u8]);
            assert(t.take(a as int) =~= s@.take(a as int));
            j = a;
            continue;
        }
        assert(comp.len() != 1 || comp[0] != 46u8);
        assert(comp != seq![46u8]);
        if comp_len == 2 && s[a] == 46u8 && s[a + 1] == 46u8 {
            assert(comp =~= seq![46u8, 46u8]);
            assert(file_name_spec(t) is None);
            return None;
        }
        assert(comp.len() != 2 || comp[0] != 46u8 || comp[1] != 46u8);
        assert(comp != seq![46u8, 46u8]);
        assert(file_name_spec(t) == Some(comp));
        return Some((a, j));
    }
}

proof fn lemma_run_start_is(t: Seq<u8>, a: int)
    requires
        0 <= a <= t.len(),
        a == 0 || t[a - 1] == 47u8,
        forall|k: int| a <= k < t.len() ==> #[trigger] t[k] != 47u8,
    ensures
        run_start(t) == a,
    decreases t.len(),
{
    if t.len() > a {
        assert forall|k: int| a <= k < t.drop_last().len() implies #[trigger] t.drop_last()[k] != 47u8 by {
            assert(t.drop_last()[k] == t[k]);
        }
        lemma_run_start_is(t.drop_last(), a);
    }
}


/// The bytes `s[from..to]`.
fn bytes_range(s: &[u8], from: usize, to: usize) -> (out: Vec<u8>)
    requires
        from <= to <= s@.len(),
    ensures
        out@ == s@.subrange(from as int, to as int),
{
    let mut out: Vec<u8> = Vec::new();
    let mut i: usize = from;
    while i < to
        invariant
            from <= i <= to,
            to <= s@.len(),
            out@ == s@.subrange(from as int, i as int),
        decreases to - i,
    {
        out.push(s[i]);
        assert(s@.subrange(from as int, i + 1) =~= s@.subrange(from as int, i as int).push(s@[i as int]));
        i += 1;
    }
    out
}

/// `s` without one leading `-` (the mark a login shell's `argv[0]` carries).
pub open spec fn strip_login_dash(s: Seq<char>) -> Seq<char> {
    if s.len() > 0 && s[0] == '-' {
        s.drop_first()
    } else {
        s
    }
}

/// The name a command was invoked by, from its raw `argv[0]`: the last
/// path component, decoded lossily, without a login shell's leading `-`;
/// `None` when that leaves nothing.
pub open spec fn basename_spec(arg: Seq<u8>) -> Option<Seq<char>> {
    match file_name_spec(arg) {
        None => None,
        Some(c) => non_empty(strip_login_dash(utf8_lossy(c))),
    }
}

/// The name in a decoded path component: without a login shell's leading
/// `-`, and `None` when that leaves nothing.
pub fn name_from_component(decoded: &str) -> (name: Option<String>)
    ensures
        opt_view(name) == non_empty(strip_login_dash(decoded@)),
{
    let chars = chars_of(decoded);
    let start: usize = if chars.len() > 0 && chars[0] == '-' { 1 } else { 0 };
    let rest = copy_range(chars.as_slice(), start, chars.len());
    assert(rest@ =~= strip_login_dash(decoded@));
    if rest.len() == 0 {
        None
    } else {
        Some(string_from_chars(rest.as_slice()))
    }
}

proof fn lemma_file_name_no_slash(s: Seq<u8>)
    ensures
        file_name_spec(s) matches Some(c) ==> !c.contains(47u8),
    decreases s.len(),
{
    if s.len() == 0 {
    } else if s.last() == 47u8 {
        lemma_file_name_no_slash(s.drop_last());
    } else {
        let a = run_start(s);
        lemma_run_start(s);
        let comp = s.subrange(a, s.len() as int);
        if comp == seq![46u8] {
            lemma_file_name_no_slash(s.take(a));
        } else if comp != seq![46u8, 46u8] {
            assert forall|k: int| 0 <= k < comp.len() implies comp[k] != 47u8 by {
                assert(comp[k] == s[a + k]);
            }
        }
    }
}

proof fn lemma_strip_dash_no_slash(d: Seq<char>)
    requires
        !d.contains('/'),
    ensures
        !strip_login_dash(d).contains('/'),
{
    if d.len() > 0 && d[0] == '-' {
        assert forall|k: int| 0 <= k < d.drop_first().len() implies d.drop_first()[k] != '/' by {
            assert(d.drop_first()[k] == d[k + 1]);
        }
    }
}

/// Basename of a raw `argv[0]`, stripping the leading `-` a login shell
/// adds (`-zsh` gives `zsh`). `None` for an empty argument. A name is never
/// empty and holds no `/`; an ASCII component comes back as its own text.
pub fn basename_of(arg: &[u8]) -> (name: Option<String>)
    ensures
        opt_view(name) == basename_spec(arg@),
        name matches Some(n) ==> n@.len() > 0 && !n@.contains('/'),
        file_name_spec(arg@) matches Some(c) ==> (is_ascii_bytes(c) ==> opt_view(name)
            == non_empty(strip_login_dash(c.map_values(|b: u8| b as char)))),
{
    let (a, b) = match file_name_range(arg) {
        Some(r) => r,
        None => {
            return None;
        },
    };
    let comp = bytes_range(arg, a, b);
    proof {
        lemma_file_name_no_slash(arg@);
    }
    let decoded = decode_lossy(comp.as_slice());
    proof {
        lemma_strip_dash_no_slash(decoded@);
    }
    name_from_component(decoded.as_str())
}

/// Index of the first NUL of `s` at or after `i`, or its length.
pub open spec fn next_nul(s: Seq<u8>, i: int) -> int
    decreases s.len() - i,
{
    if i >= s.len() {
        s.len() as int
    } else if s[i] == 0 {
        i
    } else {
        next_nul(s, i + 1)
    }
}

/// Index of the first non-NUL byte of `s` at or after `i`, or its length.
pub open spec fn next_non_nul(s: Seq<u8>, i: int) -> int
    decreases s.len() - i,
{
    if i >= s.len() {
        s.len() as int
    } else if s[i] != 0 {
        i
    } else {
        next_non_nul(s, i + 1)
    }
}

fn find_nul(s: &[u8], from: usize) -> (i: usize)
    requires
        from <= s@.len(),
    ensures
        i == next_nul(s@, from as int),
        from <= i <= s@.len(),
{
    let mut i = from;
    while i < s.len() && s[i] != 0
        invariant
            from <= i <= s@.len(),
            next_nul(s@, from as int) == next_nul(s@, i as int),
        decreases s@.len() - i,
    {
        i += 1;
    }
    i
}

fn skip_nuls(s: &[u8], from: usize) -> (i: usize)
    requires
        from <= s@.len(),
    ensures
        i == next_non_nul(s@, from as int),
        from <= i <= s@.len(),
{
    let mut i = from;
    while i < s.len() && s[i] == 0
        invariant
            from <= i <= s@.len(),
            next_non_nul(s@, from as int) == next_non_nul(s@, i as int),
        decreases s@.len() - i,
    {
        i += 1;
    }
    i
}

/// The name a process was invoked by, from `/proc/<pid>/cmdline` (the
/// NUL-separated argv): the basename of `argv[0]`.
pub fn invoked_name_impl(cmdline: &[u8]) -> (name: Option<String>)
    ensures
        opt_view(name) == basename_spec(cmdline@.take(next_nul(cmdline@, 0))),
        name matches Some(n) ==> n@.len() > 0 && !n@.contains('/'),
{
    let end = find_nul(cmdline, 0);
    let argv0 = bytes_range(cmdline, 0, end);
    assert(argv0@ =~= cmdline@.take(end as int));
    basename_of(argv0.as_slice())
}

/// Name of the command as the user invoked it, from its argv record
/// (`None` when that could not be read). Unlike [`process_name`] this
/// follows the symlink the user typed: a tool installed as
/// `.../versions/2.1.150` behind a `mytool` symlink reports `mytool`.
pub fn invoked_name(cmdline: Option<Vec<u8>>) -> (name: Option<String>)
    ensures
        opt_view(name) == (match cmdline {
            Some(c) => basename_spec(c@.take(next_nul(c@, 0))),
            None => None,
        }),
        name matches Some(n) ==> n@.len() > 0 && !n@.contains('/'),
{
    match cmdline {
        Some(c) => invoked_name_impl(c.as_slice()),
        None => None,
    }
}

/// Where `argv[0]` lies in a `KERN_PROCARGS2` record, laid out as
/// `[i32 argc][exec_path NUL][NUL padding][argv[0] NUL][argv[1] NUL]...`.
pub open spec fn procargs_argv0(blob: Seq<u8>) -> (int, int) {
    let start = next_non_nul(blob, next_nul(blob, 4));
    (start, next_nul(blob, start))
}

/// The name a process was invoked by, from its `KERN_PROCARGS2` record:
/// the basename of `argv[0]`; `None` when the record is too short to hold
/// the argument count.
pub fn invoked_name_from_procargs(blob: &[u8]) -> (name: Option<String>)
    ensures
        opt_view(name) == (if blob@.len() < 4 {
            None
        } else {
            basename_spec(blob@.subrange(procargs_argv0(blob@).0, procargs_argv0(blob@).1))
        }),
        name matches Some(n) ==> n@.len() > 0 && !n@.contains('/'),
{
    if blob.len() < 4 {
        return None;
    }
    let path_end = find_nul(blob, 4);
    let start = skip_nuls(blob, path_end);
    let end = find_nul(blob, start);
    let argv0 = bytes_range(blob, start, end);
    basename_of(argv0.as_slice())
}

/// A process name from the `proc_name` buffer, of which the call reports
/// `written` bytes: up to the first NUL, decoded lossily and trimmed;
/// `None` when the call failed or the name is blank.
pub fn proc_name_text(buf: &[u8], written: i32) -> (name: Option<String>)
    ensures
        opt_view(name) == (if written <= 0 {
            None
        } else {
            let w = min_int(written as int, buf@.len() as int);
            non_empty(trim(utf8_lossy(buf@.take(next_nul(buf@.take(w), 0)))))
        }),
{
    if written <= 0 {
        return None;
    }
    let w: usize = if (written as usize) < buf.len() { written as usize } else { buf.len() };
    let head = bytes_range(buf, 0, w);
    assert(head@ =~= buf@.take(w as int));
    let end = find_nul(head.as_slice(), 0);
    let name_bytes = bytes_range(head.as_slice(), 0, end);
    assert(name_bytes@ =~= buf@.take(end as int));
    let text = decode_lossy(name_bytes.as_slice());
    process_name_impl(text.as_str())
}

/// A working directory as `proc_pidinfo` reports it: the NUL-terminated
/// path buffer, up to its first NUL; `None` for an empty path.
pub fn cwd_of_pid_impl(vip_path: &[u8]) -> (path: Option<Vec<u8>>)
    ensures
        next_nul(vip_path@, 0) == 0 ==> path is None,
        next_nul(vip_path@, 0) > 0 ==> (path matches Some(p) && p@ == vip_path@.take(
            next_nul(vip_path@, 0),
        )),
{
    let end = find_nul(vip_path, 0);
    if end == 0 {
        return None;
    }
    Some(bytes_range(vip_path, 0, end))
}


/// The working directory of a process from the platform lookup (the
/// `/proc/<pid>/cwd` link, or the path [`cwd_of_pid_impl`] extracted):
/// `None` when the lookup failed (the process exited, the OS denied it,
/// or the platform has none) or gave an empty path.
pub fn cwd_of_pid(lookup: Option<Vec<u8>>) -> (path: Option<Vec<u8>>)
    ensures
        match lookup {
            Some(p) => if p@.len() == 0 {
                path is None
            } else {
                path == Some(p)
            },
            None => path is None,
        },
{
    match lookup {
        Some(p) => if p.len() == 0 {
            None
        } else {
            Some(p)
        },
        None => None,
    }
}

} // verus!
