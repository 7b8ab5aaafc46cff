//! Whether a recorded pid still belongs to its task.
//!
//! PIDs are recycled, so a dead task's stale pid can match an unrelated live
//! process. Liveness is therefore judged together with identity: the live
//! process's name must match the executable the task runs. When identity
//! cannot be established the process is treated as not ours (better to mark
//! the task Crashed than to later kill a stranger).

use vstd::prelude::*;
use vstd::utf8::{encode_utf8, valid_utf8, decode_utf8};
use vstd::slice::slice_subrange;
use crate::task::Task;
use crate::text::{
    trim, trim_str, words, split_whitespace, eq_ignore_ascii_case, eq_ignore_case, starts_with,
    parse_u32, parse_u32_spec, string_from_chars, utf8_str,
};

verus! {

/// A path separator, on either platform.
pub open spec fn is_path_sep(c: char) -> bool {
    c == '/' || c == '\\'
}

/// The position of the last path separator in `s`, or -1.
pub open spec fn last_sep(s: Seq<char>) -> int
    decreases s.len(),
{
    if s.len() == 0 {
        -1
    } else if is_path_sep(s.last()) {
        s.len() - 1
    } else {
        last_sep(s.drop_last())
    }
}

/// The position of the last `c` in `s`, or -1.
pub open spec fn last_index_of(s: Seq<char>, c: char) -> int
    decreases s.len(),
{
    if s.len() == 0 {
        -1
    } else if s.last() == c {
        s.len() - 1
    } else {
        last_index_of(s.drop_last(), c)
    }
}

/// The stem of a path-like string: its last component (after `/` or `\`)
/// without its extension, for a trimmed, non-empty input. A leading dot is
/// part of the name (`.bashrc` keeps its dot); an empty stem is `None`.
pub open spec fn file_stem_spec(raw: Seq<char>) -> Option<Seq<char>> {
    let t = trim(raw);
    if t.len() == 0 {
        None
    } else {
        let comp = t.skip(last_sep(t) + 1);
        let dot = last_index_of(comp, '.');
        let stem = if dot > 0 {
            comp.take(dot)
        } else {
            comp
        };
        if stem.len() == 0 {
            None
        } else {
            Some(stem)
        }
    }
}

proof fn lemma_last_sep(s: Seq<char>)
    ensures
        -1 <= last_sep(s) < s.len(),
    decreases s.len(),
{
    if s.len() > 0 {
        lemma_last_sep(s.drop_last());
    }
}

proof fn lemma_last_index_of(s: Seq<char>, c: char)
    ensures
        -1 <= last_index_of(s, c) < s.len(),
    decreases s.len(),
{
    if s.len() > 0 {
        lemma_last_index_of(s.drop_last(), c);
    }
}

fn find_last_sep(s: &str) -> (r: usize)
    ensures
        r == last_sep(s@) + 1,
{
    let n = s.unicode_len();
    let mut j: usize = n;
    proof {
        assert(s@.take(n as int) =~= s@);
    }
    while j > 0 && !(s.get_char(j - 1) == '/' || s.get_char(j - 1) == '\\')
        invariant
            n == s@.len(),
            j <= n,
            last_sep(s@) == last_sep(s@.take(j as int)),
        decreases j,
    {
        proof {
            assert(s@.take(j as int).drop_last() =~= s@.take(j as int - 1));
        }
        j = j - 1;
    }
    proof {
        if j > 0 {
            assert(s@.take(j as int).last() == s@[j - 1]);
        }
    }
    j
}

fn find_last_char(s: &str, c: char) -> (r: Option<usize>)
    ensures
        match r {
            Some(k) => k == last_index_of(s@, c) && k < s@.len(),
            None => last_index_of(s@, c) == -1,
        },
{
    let n = s.unicode_len();
    let mut j: usize = n;
    proof {
        assert(s@.take(n as int) =~= s@);
    }
    while j > 0
        invariant
            n == s@.len(),
            j <= n,
            last_index_of(s@, c) == last_index_of(s@.take(j as int), c),
        decreases j,
    {
        if s.get_char(j - 1) == c {
            proof {
                assert(s@.take(j as int).last() == c);
            }
            return Some(j - 1);
        }
        proof {
            assert(s@.take(j as int).drop_last() =~= s@.take(j as int - 1));
        }
        j = j - 1;
    }
    None
}

/// The stem of a path-like string (`/usr/bin/python3` is `python3`,
/// `C:\bin\app.exe` is `app`); `None` when it is blank or has no stem.
pub fn file_stem(raw: &str) -> (r: Option<String>)
    ensures
        match r {
            Some(s) => file_stem_spec(raw@) == Some(s@),
            None => file_stem_spec(raw@) is None,
        },
{
    let t = trim_str(raw);
    let n = t.unicode_len();
    if n == 0 {
        return None;
    }
    let start = find_last_sep(t);
    proof {
        lemma_last_sep(t@);
    }
    let comp = t.substring_char(start, n);
    proof {
        assert(comp@ =~= t@.skip(last_sep(t@) + 1));
    }
    let m = comp.unicode_len();
    let stem = match find_last_char(comp, '.') {
        Some(dot) => {
            if dot > 0 {
                comp.substring_char(0, dot)
            } else {
                comp
            }
        },
        None => comp,
    };
    proof {
        lemma_last_index_of(comp@, '.');
        if last_index_of(comp@, '.') > 0 {
            assert(stem@ =~= comp@.take(last_index_of(comp@, '.')));
        }
    }
    if stem.unicode_len() == 0 {
        None
    } else {
        Some(String::from_str(stem))
    }
}

/// The stem a text has for matching: its file stem, or the text itself when it has none.
pub open spec fn stem_or_self(s: Seq<char>) -> Seq<char> {
    match file_stem_spec(s) {
        Some(x) => x,
        None => s,
    }
}

/// The name the process of a task is expected to report: the first word of
/// its runner prefix when it has one (`uv run` runs as `uv`), else its
/// executable; reduced to a file stem.
pub open spec fn expected_stem_spec(runner_prefix: Option<Seq<char>>, executable: Seq<char>) -> Option<Seq<char>> {
    let raw = match runner_prefix {
        Some(p) => if words(p).len() > 0 {
            words(p)[0]
        } else {
            executable
        },
        None => executable,
    };
    file_stem_spec(raw)
}

/// The executable name the OS process backing `task` is expected to report.
pub fn expected_process_stem(task: &Task) -> (r: Option<String>)
    ensures
        match r {
            Some(s) => expected_stem_spec(
                match task.runner_prefix {
                    Some(p) => Some(p@),
                    None => None,
                },
                task.executable@,
            ) == Some(s@),
            None => expected_stem_spec(
                match task.runner_prefix {
                    Some(p) => Some(p@),
                    None => None,
                },
                task.executable@,
            ) is None,
        },
{
    match &task.runner_prefix {
        Some(prefix) => {
            let parts = split_whitespace(prefix.as_str());
            if parts.len() > 0 {
                proof {
                    assert(parts.deep_view()[0] == parts@[0]@);
                }
                return file_stem(parts[0]);
            }
            file_stem(task.executable.as_str())
        },
        None => file_stem(task.executable.as_str()),
    }
}

/// Whether a `/proc` identity string (the kernel's `comm`, truncated to 15
/// bytes, or `argv[0]`, maybe a full path) names the expected stem: equal
/// stems ignoring ASCII case, or a 15-byte `comm` that is a prefix of a
/// longer expected name.
pub open spec fn comm_matches_spec(candidate: Seq<char>, expected: Seq<char>) -> bool {
    let c = stem_or_self(candidate);
    ||| eq_ignore_ascii_case(c, expected)
    ||| (encode_utf8(c).len() == 15 && encode_utf8(expected).len() > 15 && c.is_prefix_of(expected))
}

/// The stem of `s`, or `s` itself when it has none.
fn stem_or_self_exec(s: &str) -> (r: String)
    ensures
        r@ == stem_or_self(s@),
{
    match file_stem(s) {
        Some(x) => x,
        None => String::from_str(s),
    }
}

/// Matches a `/proc` identity string against the expected stem.
pub fn comm_matches(candidate: &str, expected_stem: &str) -> (r: bool)
    ensures
        r == comm_matches_spec(candidate@, expected_stem@),
{
    let cand = stem_or_self_exec(candidate);
    if eq_ignore_case(cand.as_str(), expected_stem) {
        return true;
    }
    crate::text::utf8_len(cand.as_str()) == 15 && crate::text::utf8_len(expected_stem) > 15
        && starts_with(expected_stem, cand.as_str())
}

/// Whether a Windows image name (`python.exe`) names the expected stem
/// (`python`), ignoring ASCII case and the extension.
pub open spec fn image_name_matches_spec(image_name: Seq<char>, expected: Seq<char>) -> bool {
    eq_ignore_ascii_case(stem_or_self(image_name), expected)
}

/// Compares a Windows image name against an expected stem.
pub fn image_name_matches(image_name: &str, expected_stem: &str) -> (r: bool)
    ensures
        r == image_name_matches_spec(image_name@, expected_stem@),
{
    let stem = stem_or_self_exec(image_name);
    eq_ignore_case(stem.as_str(), expected_stem)
}

/// The state of a quoted-CSV scan after `s`: the fields already closed, the
/// field being read, and whether a quote is open.
pub open spec fn csv_scan(s: Seq<char>) -> (Seq<Seq<char>>, Seq<char>, bool)
    decreases s.len(),
{
    if s.len() == 0 {
        (Seq::empty(), Seq::empty(), false)
    } else {
        let (fields, cur, quoted) = csv_scan(s.drop_last());
        let c = s.last();
        if c == '"' {
            (fields, cur, !quoted)
        } else if c == ',' && !quoted {
            (fields.push(cur), Seq::empty(), quoted)
        } else {
            (fields, cur.push(c), quoted)
        }
    }
}

/// The fields of a line of quoted CSV: commas separate fields except inside
/// quotes, and the quotes themselves are dropped.
pub open spec fn csv_fields(s: Seq<char>) -> Seq<Seq<char>> {
    csv_scan(s).0.push(csv_scan(s).1)
}

/// Splits a line of `tasklist`'s quoted CSV into its fields.
pub fn parse_csv_fields(line: &str) -> (r: Vec<String>)
    ensures
        r@.map_values(|f: String| f@) == csv_fields(line@),
{
    let n = line.unicode_len();
    let mut fields: Vec<String> = Vec::new();
    let mut current: Vec<char> = Vec::new();
    let mut in_quotes = false;
    let mut i: usize = 0;
    while i < n
        invariant
            n == line@.len(),
            i <= n,
            csv_scan(line@.take(i as int)) == (fields@.map_values(|f: String| f@), current@, in_quotes),
        decreases n - i,
    {
        let ch = line.get_char(i);
        proof {
            assert(line@.take(i as int + 1).drop_last() =~= line@.take(i as int));
            assert(line@.take(i as int + 1).last() == ch);
        }
        if ch == '"' {
            in_quotes = !in_quotes;
        } else if ch == ',' && !in_quotes {
            let f = string_from_chars(&current);
            let ghost before = fields@;
            fields.push(f);
            proof {
                assert(fields@.map_values(|f: String| f@) =~= before.map_values(|f: String| f@).push(
                    current@,
                ));
            }
            current = Vec::new();
        } else {
            current.push(ch);
        }
        i = i + 1;
    }
    proof {
        assert(line@.take(n as int) =~= line@);
    }
    let last = string_from_chars(&current);
    let ghost before = fields@;
    fields.push(last);
    proof {
        assert(fields@.map_values(|f: String| f@) =~= before.map_values(|f: String| f@).push(current@));
    }
    fields
}

/// The pieces of `s` between line breaks.
pub open spec fn split_lines(s: Seq<char>) -> Seq<Seq<char>>
    decreases s.len(),
{
    if s.len() == 0 {
        seq![Seq::empty()]
    } else {
        let prev = split_lines(s.drop_last());
        if s.last() == '\n' {
            prev.push(Seq::empty())
        } else {
            prev.update(prev.len() - 1, prev.last().push(s.last()))
        }
    }
}

proof fn lemma_split_lines_nonempty(s: Seq<char>)
    ensures
        split_lines(s).len() > 0,
    decreases s.len(),
{
    if s.len() > 0 {
        lemma_split_lines_nonempty(s.drop_last());
    }
}

/// The image name on the first row of `tasklist` output whose PID column is
/// exactly `pid`. Rows are trimmed (so `\r\n` line ends do not matter) and
/// blank rows and rows with fewer than two fields are skipped.
pub open spec fn tasklist_image(rows: Seq<Seq<char>>, pid: u32) -> Option<Seq<char>>
    decreases rows.len(),
{
    if rows.len() == 0 {
        None
    } else {
        let row = trim(rows[0]);
        let f = csv_fields(row);
        if row.len() > 0 && f.len() >= 2 && parse_u32_spec(trim(f[1])) == Some(pid) {
            Some(trim(f[0]))
        } else {
            tasklist_image(rows.drop_first(), pid)
        }
    }
}

/// Splits text at its line breaks.
fn split_at_newlines(s: &str) -> (r: Vec<&str>)
    ensures
        r.deep_view() =~= split_lines(s@),
{
    let n = s.unicode_len();
    let mut out: Vec<&str> = Vec::new();
    let mut start: usize = 0;
    let mut i: usize = 0;
    assert(s@.subrange(0, 0) =~= Seq::<char>::empty());
    assert(s@.take(0) =~= Seq::<char>::empty());
    assert(out.deep_view().push(s@.subrange(0, 0)) =~= seq![Seq::<char>::empty()]);
    while i < n
        invariant
            n == s@.len(),
            start <= i <= n,
            split_lines(s@.take(i as int)) =~= out.deep_view().push(s@.subrange(start as int, i as int)),
        decreases n - i,
    {
        let c = s.get_char(i);
        proof {
            assert(s@.take(i as int + 1).drop_last() =~= s@.take(i as int));
            assert(s@.take(i as int + 1).last() == c);
            lemma_split_lines_nonempty(s@.take(i as int));
        }
        if c == '\n' {
            out.push(s.substring_char(start, i));
            start = i + 1;
            proof {
                assert(s@.subrange(start as int, i as int + 1) =~= Seq::<char>::empty());
            }
        } else {
            proof {
                assert(s@.subrange(start as int, i as int + 1) =~= s@.subrange(start as int, i as int).push(c));
            }
        }
        i = i + 1;
    }
    out.push(s.substring_char(start, n));
    proof {
        assert(s@.take(n as int) =~= s@);
    }
    out
}

/// The text held by an optional string.
pub open spec fn text_of(o: Option<String>) -> Option<Seq<char>> {
    match o {
        Some(s) => Some(s@),
        None => None,
    }
}

/// Reads `tasklist /FO CSV /NH` output and returns the image name whose PID
/// column is exactly `pid`, or `None` (for example for the "INFO: No tasks"
/// banner tasklist prints when its filter matches nothing).
pub fn parse_tasklist_csv(stdout: &str, pid: u32) -> (r: Option<String>)
    ensures
        tasklist_image(split_lines(stdout@), pid) == text_of(r),
{
    let rows = split_at_newlines(stdout);
    let ghost all = split_lines(stdout@);
    let n = rows.len();
    let mut i: usize = 0;
    let mut found: Option<String> = None;
    assert(all.skip(0) =~= all);
    while i < n
        invariant_except_break
            found is None,
            tasklist_image(all, pid) == tasklist_image(all.skip(i as int), pid),
        invariant
            n == rows@.len(),
            rows.deep_view() =~= all,
            i <= n,
        ensures
            tasklist_image(all, pid) == text_of(found),
        decreases n - i,
    {
        let row = trim_str(rows[i]);
        proof {
            assert(all.skip(i as int)[0] == rows@[i as int]@);
            assert(all.skip(i as int).drop_first() =~= all.skip(i as int + 1));
        }
        if row.unicode_len() > 0 {
            let fields = parse_csv_fields(row);
            proof {
                let fs = fields@.map_values(|f: String| f@);
                assert(fs.len() == fields@.len());
            }
            if fields.len() >= 2 {
                proof {
                    let fs = fields@.map_values(|f: String| f@);
                    assert(fs[1] == fields@[1]@);
                    assert(fs[0] == fields@[0]@);
                }
                let id_text = trim_str(fields[1].as_str());
                if parse_u32(id_text) == Some(pid) {
                    let img = trim_str(fields[0].as_str());
                    found = Some(String::from_str(img));
                    break;
                }
            }
        }
        i = i + 1;
    }
    found
}

/// The position of the first NUL byte of `b`, or its length when it has none.
pub open spec fn first_nul(b: Seq<u8>) -> nat
    decreases b.len(),
{
    if b.len() == 0 {
        0
    } else if b[0] == 0 {
        0
    } else {
        1 + first_nul(b.drop_first())
    }
}

/// The identity `/proc/<pid>/comm` gives: its trimmed text, when not blank.
pub open spec fn comm_identity(comm: Option<Seq<char>>) -> Seq<Seq<char>> {
    match comm {
        Some(c) => if trim(c).len() > 0 {
            seq![trim(c)]
        } else {
            Seq::empty()
        },
        None => Seq::empty(),
    }
}

/// The identity `/proc/<pid>/cmdline` gives: its first NUL-separated segment
/// (`argv[0]`), trimmed, when it is valid UTF-8 and not blank.
pub open spec fn argv0_identity(cmdline: Option<Seq<u8>>) -> Seq<Seq<char>> {
    match cmdline {
        Some(b) => {
            let a = b.take(first_nul(b) as int);
            if valid_utf8(a) && trim(decode_utf8(a)).len() > 0 {
                seq![trim(decode_utf8(a))]
            } else {
                Seq::empty()
            }
        },
        None => Seq::empty(),
    }
}

/// The identity strings of a process: that of its `comm`, then that of its
/// `argv[0]`; `None` when neither gives one.
pub open spec fn proc_identities_spec(comm: Option<Seq<char>>, cmdline: Option<Seq<u8>>) -> Option<Seq<Seq<char>>> {
    let ids = comm_identity(comm) + argv0_identity(cmdline);
    if ids.len() == 0 {
        None
    } else {
        Some(ids)
    }
}

/// The texts held by an optional list of strings.
pub open spec fn texts_of(o: Option<Vec<String>>) -> Option<Seq<Seq<char>>> {
    match o {
        Some(v) => Some(v@.map_values(|s: String| s@)),
        None => None,
    }
}

/// The view of an optional string slice.
pub open spec fn opt_str(o: Option<&str>) -> Option<Seq<char>> {
    match o {
        Some(s) => Some(s@),
        None => None,
    }
}

/// The view of an optional byte slice.
pub open spec fn opt_bytes(o: Option<&[u8]>) -> Option<Seq<u8>> {
    match o {
        Some(b) => Some(b@),
        None => None,
    }
}

fn first_nul_exec(b: &[u8]) -> (k: usize)
    ensures
        k == first_nul(b@),
        k <= b@.len(),
{
    let n = b.len();
    let mut i: usize = 0;
    assert(b@.skip(0) =~= b@);
    while i < n && b[i] != 0
        invariant
            n == b@.len(),
            i <= n,
            first_nul(b@) == i + first_nul(b@.skip(i as int)),
        decreases n - i,
    {
        proof {
            assert(b@.skip(i as int).drop_first() =~= b@.skip(i as int + 1));
        }
        i = i + 1;
    }
    proof {
        if i < n {
            assert(b@.skip(i as int)[0] == 0);
        }
    }
    i
}

/// The identity strings of a process from the text of its `/proc/<pid>/comm`
/// and the bytes of its `/proc/<pid>/cmdline` (each `None` when it could not
/// be read): the trimmed `comm`, then the trimmed `argv[0]`, each when not
/// blank; `None` when there is neither.
pub fn proc_identities(comm: Option<&str>, cmdline: Option<&[u8]>) -> (r: Option<Vec<String>>)
    ensures
        texts_of(r) == proc_identities_spec(opt_str(comm), opt_bytes(cmdline)),
{
    let mut ids: Vec<String> = Vec::new();
    match comm {
        Some(c) => {
            let t = trim_str(c);
            if t.unicode_len() > 0 {
                ids.push(String::from_str(t));
            }
        },
        None => {},
    }
    let ghost after_comm = ids@.map_values(|s: String| s@);
    assert(after_comm =~= comm_identity(opt_str(comm)));
    match cmdline {
        Some(b) => {
            let k = first_nul_exec(b);
            let argv0 = slice_subrange(b, 0, k);
            assert(argv0@ =~= b@.take(k as int));
            match utf8_str(argv0) {
                Some(text) => {
                    let t = trim_str(text);
                    if t.unicode_len() > 0 {
                        let ghost before = ids@;
                        ids.push(String::from_str(t));
                        assert(ids@.map_values(|s: String| s@) =~= before.map_values(|s: String| s@).push(t@));
                    }
                },
                None => {},
            }
        },
        None => {},
    }
    assert(ids@.map_values(|s: String| s@) =~= comm_identity(opt_str(comm)) + argv0_identity(opt_bytes(cmdline)));
    if ids.len() == 0 {
        None
    } else {
        Some(ids)
    }
}

/// Whether any identity string of a live process names the expected stem;
/// with no identity to read, the process is not taken to be ours.
pub open spec fn identities_match_spec(ids: Option<Seq<Seq<char>>>, expected: Seq<char>) -> bool {
    match ids {
        Some(v) => some_identity_matches(v, expected),
        None => false,
    }
}

/// Whether one of `ids` names the expected stem.
pub open spec fn some_identity_matches(ids: Seq<Seq<char>>, expected: Seq<char>) -> bool {
    exists|i: int| 0 <= i < ids.len() && comm_matches_spec(#[trigger] ids[i], expected)
}

/// Best-effort identity check on a platform with `/proc`: does one of the
/// identity strings read for the process name `expected_stem`? Conservative:
/// when none could be read, the answer is `false`.
pub fn process_identity_matches(identities: Option<&Vec<String>>, expected_stem: &str) -> (r: bool)
    ensures
        r == identities_match_spec(
            match identities {
                Some(v) => Some(v@.map_values(|s: String| s@)),
                None => None,
            },
            expected_stem@,
        ),
{
    match identities {
        Some(v) => {
            let ghost names = v@.map_values(|s: String| s@);
            let mut i: usize = 0;
            while i < v.len()
                invariant
                    identities == Some(v),
                    i <= v@.len(),
                    names == v@.map_values(|s: String| s@),
                    forall|j: int| 0 <= j < i ==> !comm_matches_spec(#[trigger] names[j], expected_stem@),
                decreases v.len() - i,
            {
                if comm_matches(v[i].as_str(), expected_stem) {
                    assert(names[i as int] == v@[i as int]@);
                    assert(names.len() == v@.len());
                    assert(comm_matches_spec(names[i as int], expected_stem@));
                    assert(some_identity_matches(names, expected_stem@));
                    return true;
                }
                assert(names[i as int] == v@[i as int]@);
                i = i + 1;
            }
            false
        },
        None => false,
    }
}

/// What the operating system reports about the process holding a pid.
pub enum ProcessProbe {
    /// No live process holds the pid.
    Gone,
    /// A live process holds it, on a platform with no cheap identity source
    /// (a Unix without `/proc`): liveness alone must stand.
    AliveUnverifiable,
    /// A live process holds it; these are the identity strings `/proc` gave
    /// for it (`None` when it could not be read).
    AliveWithIdentities(Option<Vec<String>>),
    /// `tasklist` listed the pid, under this image name.
    ImageName(String),
}

/// Whether the probed process is alive and, as far as can be told, runs the
/// expected stem; with no expected stem, liveness alone decides.
pub open spec fn task_process_alive_spec(probe: ProcessProbe, expected: Option<Seq<char>>) -> bool {
    match probe {
        ProcessProbe::Gone => false,
        ProcessProbe::AliveUnverifiable => true,
        ProcessProbe::AliveWithIdentities(ids) => match expected {
            Some(e) => identities_match_spec(texts_of(ids), e),
            None => true,
        },
        ProcessProbe::ImageName(img) => match expected {
            Some(e) => image_name_matches_spec(img@, e),
            None => true,
        },
    }
}

/// Whether the process reported by `probe` is alive and (best effort) belongs
/// to the task whose expected process stem is `expected_stem`. A recycled pid
/// running a different program is reported as not alive.
pub fn is_task_process_alive(probe: &ProcessProbe, expected_stem: Option<&str>) -> (r: bool)
    ensures
        r == task_process_alive_spec(*probe, opt_str(expected_stem)),
{
    match probe {
        ProcessProbe::Gone => false,
        ProcessProbe::AliveUnverifiable => true,
        ProcessProbe::AliveWithIdentities(ids) => match expected_stem {
            Some(stem) => {
                let r = process_identity_matches(ids.as_ref(), stem);
                r
            },
            None => true,
        },
        ProcessProbe::ImageName(img) => match expected_stem {
            Some(stem) => image_name_matches(img.as_str(), stem),
            None => true,
        },
    }
}

/// Whether the process reported by `probe` is still running and belongs to
/// the task whose expected process stem is `expected_stem`.
pub fn is_process_running(probe: &ProcessProbe, expected_stem: Option<&str>) -> (r: bool)
    ensures
        r == task_process_alive_spec(*probe, opt_str(expected_stem)),
{
    is_task_process_alive(probe, expected_stem)
}

/// The entries of `pids` whose flag in `keep` is set, in order.
pub open spec fn select(pids: Seq<u32>, keep: Seq<bool>) -> Seq<u32>
    decreases pids.len(),
{
    if pids.len() == 0 || keep.len() == 0 {
        Seq::empty()
    } else {
        let rest = select(pids.drop_last(), keep.drop_last());
        if keep.last() {
            rest.push(pids.last())
        } else {
            rest
        }
    }
}

/// Keeps the pids that `is_alive` reports alive, in the order given.
pub fn prune_pids<F: Fn(u32) -> bool>(pids: &[u32], is_alive: F) -> (r: Vec<u32>)
    requires
        forall|p: u32| is_alive.requires((p,)),
    ensures
        exists|keep: Seq<bool>|
            {
                &&& keep.len() == pids@.len()
                &&& forall|i: int| 0 <= i < pids@.len() ==> is_alive.ensures((pids@[i],), #[trigger] keep[i])
                &&& r@ == select(pids@, keep)
            },
{
    let n = pids.len();
    let mut out: Vec<u32> = Vec::new();
    let ghost mut keep: Seq<bool> = Seq::empty();
    let mut i: usize = 0;
    while i < n
        invariant
            n == pids@.len(),
            i <= n,
            forall|p: u32| is_alive.requires((p,)),
            keep.len() == i,
            forall|j: int| 0 <= j < i ==> is_alive.ensures((pids@[j],), #[trigger] keep[j]),
            out@ == select(pids@.take(i as int), keep),
        decreases n - i,
    {
        let pid = pids[i];
        let alive = is_alive(pid);
        proof {
            let t = pids@.take(i as int + 1);
            assert(t.drop_last() =~= pids@.take(i as int));
            assert(keep.push(alive).drop_last() =~= keep);
        }
        if alive {
            out.push(pid);
        }
        proof {
            keep = keep.push(alive);
        }
        i = i + 1;
    }
    assert(pids@.take(n as int) =~= pids@);
    out
}

/// The identity check accepts a process as soon as any one of its identity
/// strings names the expected stem, whatever its place in the list (the
/// `comm` of a shebang script names the script while its `argv[0]` names the
/// interpreter), and it accepts nothing else: with no identity naming the
/// stem, or no identities read at all, the answer is no.
pub proof fn lemma_any_identity_suffices(ids: Seq<Seq<char>>, expected: Seq<char>, i: int)
    ensures
        0 <= i < ids.len() && comm_matches_spec(ids[i], expected) ==> identities_match_spec(
            Some(ids),
            expected,
        ),
        identities_match_spec(Some(ids), expected) ==> exists|j: int|
            0 <= j < ids.len() && comm_matches_spec(#[trigger] ids[j], expected),
        !identities_match_spec(None, expected),
{
    if 0 <= i < ids.len() && comm_matches_spec(ids[i], expected) {
        assert(comm_matches_spec(ids[i], expected));
    }
}

} // verus!
