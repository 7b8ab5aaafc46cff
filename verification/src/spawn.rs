//! What is actually run for a task.
//!
//! A runner prefix wraps the executable: `uv run` on `app.py` runs `uv` with
//! the arguments `run app.py` followed by the task's own arguments. A task
//! that must run elevated on Windows is started through a PowerShell
//! `Start-Process -Verb RunAs` script.

use vstd::prelude::*;
use crate::task::Task;
use crate::text::{words, split_whitespace};

verus! {

/// Spawns task processes on the operating system.
#[derive(Debug, Clone, Copy)]
pub struct OsProcessSpawner;

/// The texts of a list of strings.
pub open spec fn texts(v: Seq<String>) -> Seq<Seq<char>> {
    v.map_values(|s: String| s@)
}

/// The program and arguments run for a task with runner prefix `runner`,
/// executable `exe` and arguments `args`: the prefix's first word, then its
/// other words, the executable and the arguments; a missing or blank prefix
/// runs the executable directly.
pub open spec fn resolved_command(runner: Option<Seq<char>>, exe: Seq<char>, args: Seq<Seq<char>>) -> (Seq<char>, Seq<Seq<char>>) {
    match runner {
        Some(r) => if words(r).len() > 0 {
            (words(r)[0], words(r).drop_first().push(exe) + args)
        } else {
            (exe, args)
        },
        None => (exe, args),
    }
}

/// Copies a list of strings.
fn copy_strings(v: &Vec<String>) -> (r: Vec<String>)
    ensures
        texts(r@) == texts(v@),
{
    let mut out: Vec<String> = Vec::new();
    let mut i: usize = 0;
    while i < v.len()
        invariant
            i <= v@.len(),
            texts(out@) =~= texts(v@.take(i as int)),
        decreases v.len() - i,
    {
        let ghost before = out@;
        out.push(String::from_str(v[i].as_str()));
        proof {
            assert(v@.take(i as int + 1) =~= v@.take(i as int).push(v@[i as int]));
            assert(texts(out@) =~= texts(before).push(v@[i as int]@));
            assert(texts(v@.take(i as int + 1)) =~= texts(v@.take(i as int)).push(v@[i as int]@));
        }
        i = i + 1;
    }
    assert(v@.take(v@.len() as int) =~= v@);
    out
}

/// The program and argument list to spawn for `task`.
pub fn resolve_command(task: &Task) -> (r: (String, Vec<String>))
    ensures
        (r.0@, texts(r.1@)) == resolved_command(
            match task.runner_prefix {
                Some(p) => Some(p@),
                None => None,
            },
            task.executable@,
            texts(task.arguments@),
        ),
{
    match &task.runner_prefix {
        Some(runner) => {
            let parts = split_whitespace(runner.as_str());
            if parts.len() == 0 {
                return (String::from_str(task.executable.as_str()), copy_strings(&task.arguments));
            }
            let ghost w = words(runner@);
            assert(parts.deep_view()[0] == parts@[0]@);
            let exe = String::from_str(parts[0]);
            let mut args: Vec<String> = Vec::new();
            let mut i: usize = 1;
            while i < parts.len()
                invariant
                    1 <= i <= parts@.len(),
                    parts.deep_view() =~= w,
                    texts(args@) =~= w.subrange(1, i as int),
                decreases parts.len() - i,
            {
                assert(parts.deep_view()[i as int] == parts@[i as int]@);
                args.push(String::from_str(parts[i]));
                proof {
                    assert(w.subrange(1, i as int + 1) =~= w.subrange(1, i as int).push(w[i as int]));
                }
                i = i + 1;
            }
            args.push(String::from_str(task.executable.as_str()));
            let mut j: usize = 0;
            let ghost head = texts(args@);
            assert(head =~= w.drop_first().push(task.executable@));
            while j < task.arguments.len()
                invariant
                    j <= task.arguments@.len(),
                    texts(args@) =~= head + texts(task.arguments@.take(j as int)),
                decreases task.arguments.len() - j,
            {
                let ghost before = args@;
                args.push(String::from_str(task.arguments[j].as_str()));
                proof {
                    let a = task.arguments@;
                    assert(a.take(j as int + 1) =~= a.take(j as int).push(a[j as int]));
                    assert(texts(args@) =~= texts(before).push(a[j as int]@));
                    assert(texts(a.take(j as int + 1)) =~= texts(a.take(j as int)).push(a[j as int]@));
                }
                j = j + 1;
            }
            assert(task.arguments@.take(task.arguments@.len() as int) =~= task.arguments@);
            (exe, args)
        },
        None => (String::from_str(task.executable.as_str()), copy_strings(&task.arguments)),
    }
}

/// `s` with every `'` doubled, as a PowerShell single-quoted string needs.
pub open spec fn quote_escaped(s: Seq<char>) -> Seq<char>
    decreases s.len(),
{
    if s.len() == 0 {
        s
    } else {
        let rest = quote_escaped(s.drop_last());
        if s.last() == '\'' {
            rest + seq!['\'', '\'']
        } else {
            rest.push(s.last())
        }
    }
}

/// The strings of `parts` joined with single spaces.
pub open spec fn joined(parts: Seq<Seq<char>>) -> Seq<char>
    decreases parts.len(),
{
    if parts.len() == 0 {
        Seq::empty()
    } else if parts.len() == 1 {
        parts[0]
    } else {
        joined(parts.drop_last()) + seq![' '] + parts.last()
    }
}

/// Appends `s` to `out` with every `'` doubled.
fn push_escaped(out: &mut String, s: &str)
    ensures
        final(out)@ == old(out)@ + quote_escaped(s@),
{
    let n = s.unicode_len();
    let mut i: usize = 0;
    while i < n
        invariant
            n == s@.len(),
            i <= n,
            out@ == old(out)@ + quote_escaped(s@.take(i as int)),
        decreases n - i,
    {
        let c = s.get_char(i);
        proof {
            assert(s@.take(i as int + 1).drop_last() =~= s@.take(i as int));
            assert(s@.take(i as int + 1).last() == c);
        }
        if c == '\'' {
            out.append("''");
            proof {
                reveal_strlit("''");
                assert(out@ =~= old(out)@ + quote_escaped(s@.take(i as int + 1)));
            }
        } else {
            let one = vec![c];
            let piece = crate::text::string_from_chars(&one);
            out.append(piece.as_str());
            proof {
                assert(piece@ =~= seq![c]);
                assert(out@ =~= old(out)@ + quote_escaped(s@.take(i as int + 1)));
            }
        }
        i = i + 1;
    }
    assert(s@.take(n as int) =~= s@);
}

/// The PowerShell command that starts `exe` elevated with the argument line
/// `args` and waits for it.
pub open spec fn elevation_script_spec(exe: Seq<char>, args: Seq<Seq<char>>) -> Seq<char> {
    "Start-Process -FilePath '"@ + quote_escaped(exe) + "' -ArgumentList '"@
        + quote_escaped(joined(args)) + "' -Verb RunAs -Wait"@
}

/// The arguments of a task joined with single spaces.
fn join_arguments(args: &Vec<String>) -> (r: String)
    ensures
        r@ == joined(texts(args@)),
{
    let mut out = String::new();
    let mut i: usize = 0;
    while i < args.len()
        invariant
            i <= args@.len(),
            out@ == joined(texts(args@.take(i as int))),
        decreases args.len() - i,
    {
        let ghost before = texts(args@.take(i as int));
        let ghost after = texts(args@.take(i as int + 1));
        proof {
            assert(after.drop_last() =~= before);
            assert(after.last() == args@[i as int]@);
        }
        if i > 0 {
            out.append(" ");
            proof {
                reveal_strlit(" ");
            }
        }
        out.append(args[i].as_str());
        proof {
            if i == 0 {
                assert(after.len() == 1);
                assert(out@ =~= joined(after));
            } else {
                assert(out@ =~= joined(after));
            }
        }
        i = i + 1;
    }
    assert(args@.take(args@.len() as int) =~= args@);
    out
}

/// The PowerShell script that starts `task` elevated (`RunAs`) and waits
/// for it; quotes in the executable and arguments are doubled.
pub fn elevation_script(task: &Task) -> (s: String)
    ensures
        s@ == elevation_script_spec(task.executable@, texts(task.arguments@)),
{
    let args_line = join_arguments(&task.arguments);
    let mut s = String::from_str("Start-Process -FilePath '");
    push_escaped(&mut s, task.executable.as_str());
    s.append("' -ArgumentList '");
    push_escaped(&mut s, args_line.as_str());
    s.append("' -Verb RunAs -Wait");
    s
}


/// Whether `keys` holds `k`.
fn has_key(keys: &Vec<String>, k: &str) -> (r: bool)
    ensures
        r == texts(keys@).contains(k@),
{
    let mut i: usize = 0;
    while i < keys.len()
        invariant
            i <= keys@.len(),
            forall|j: int| 0 <= j < i ==> keys@[j]@ != k@,
        decreases keys.len() - i,
    {
        if crate::text::eq_exact(keys[i].as_str(), k) {
            assert(texts(keys@)[i as int] == k@);
            return true;
        }
        i = i + 1;
    }
    assert forall|j: int| 0 <= j < texts(keys@).len() implies texts(keys@)[j] != k@ by {
        assert(texts(keys@)[j] == keys@[j]@);
    }
    false
}

/// The environment settings a spawned task gets unless its own environment
/// (with variable names `keys`) sets them: on a pseudo-terminal `NO_COLOR=1`
/// and `TERM=xterm-256color`, on a pipe `PYTHONUNBUFFERED=1` and `NO_COLOR=1`
/// (seeing a terminal, or a pipe, programs colour or buffer their output).
pub open spec fn env_defaults_spec(keys: Seq<Seq<char>>, on_pipe: bool) -> Seq<(Seq<char>, Seq<char>)> {
    let no_color = if keys.contains("NO_COLOR"@) {
        Seq::empty()
    } else {
        seq![("NO_COLOR"@, "1"@)]
    };
    if on_pipe {
        let unbuffered = if keys.contains("PYTHONUNBUFFERED"@) {
            Seq::empty()
        } else {
            seq![("PYTHONUNBUFFERED"@, "1"@)]
        };
        unbuffered + no_color
    } else {
        let term = if keys.contains("TERM"@) {
            Seq::empty()
        } else {
            seq![("TERM"@, "xterm-256color"@)]
        };
        no_color + term
    }
}

/// The view of a list of name/value pairs.
pub open spec fn pairs_view(v: Seq<(&str, &str)>) -> Seq<(Seq<char>, Seq<char>)> {
    v.map_values(|p: (&str, &str)| (p.0@, p.1@))
}

/// The default environment settings for a task whose environment sets the
/// variables named `keys`, spawned on a pipe or on a pseudo-terminal.
pub fn env_defaults(keys: &Vec<String>, on_pipe: bool) -> (r: Vec<(&'static str, &'static str)>)
    ensures
        pairs_view(r@) == env_defaults_spec(texts(keys@), on_pipe),
{
    let mut r: Vec<(&'static str, &'static str)> = Vec::new();
    if on_pipe && !has_key(keys, "PYTHONUNBUFFERED") {
        r.push(("PYTHONUNBUFFERED", "1"));
    }
    if !has_key(keys, "NO_COLOR") {
        r.push(("NO_COLOR", "1"));
    }
    if !on_pipe && !has_key(keys, "TERM") {
        r.push(("TERM", "xterm-256color"));
    }
    assert(pairs_view(r@) =~= env_defaults_spec(texts(keys@), on_pipe));
    r
}

} // verus!
