//! The values the daemon's HTTP API exchanges, and the rules of its edges:
//! who is authorised, how many log lines a query asks for by default, and
//! which interpreters a script kind may run under.

use vstd::prelude::*;
use crate::text::{eq_exact, starts_with};

verus! {

/// The envelope of every API answer.
#[derive(Debug)]
pub struct ApiResponse<T> {
    pub success: bool,
    pub data: Option<T>,
    pub error: Option<String>,
}

impl<T> ApiResponse<T> {
    /// A successful answer carrying `data`.
    pub fn ok(data: T) -> (r: Self)
        ensures
            r.success,
            r.data == Some(data),
            r.error is None,
    {
        ApiResponse { success: true, data: Some(data), error: None }
    }

    /// A failed answer carrying the message `msg`.
    pub fn err(msg: &str) -> (r: Self)
        ensures
            !r.success,
            r.data is None,
            r.error matches Some(e) && e@ == msg@,
    {
        ApiResponse { success: false, data: None, error: Some(String::from_str(msg)) }
    }
}

/// The answer of the public health probe.
#[derive(Debug, Clone)]
pub struct HealthInfo {
    pub status: String,
    pub version: String,
}

/// The answer of the version query.
#[derive(Debug, Clone)]
pub struct VersionInfo {
    pub version: String,
}

/// The health of a daemon running `version`: status `ok`.
pub fn health_info(version: &str) -> (h: HealthInfo)
    ensures
        h.status@ == "ok"@,
        h.version@ == version@,
{
    HealthInfo { status: String::from_str("ok"), version: String::from_str(version) }
}

/// The version answer of a daemon running `version`.
pub fn version_info(version: &str) -> (v: VersionInfo)
    ensures
        v.version@ == version@,
{
    VersionInfo { version: String::from_str(version) }
}

/// The number of log lines a history query returns when it names none.
pub fn default_limit() -> (n: usize)
    ensures
        n == 500,
{
    500
}

/// A history query: how many of the newest lines to return.
#[derive(Debug, Clone)]
pub struct LogsQuery {
    pub lines: usize,
}

impl Default for LogsQuery {
    fn default() -> (q: Self)
        ensures
            q.lines == 500,
    {
        LogsQuery { lines: default_limit() }
    }
}

/// A request to find the interpreter for a kind of script.
#[derive(Debug, Clone)]
pub struct DetectInterpreterRequest {
    pub kind: String,
}

/// The scheme prefix of an `Authorization` header.
pub open spec fn bearer_prefix() -> Seq<char> {
    "Bearer "@
}

/// Whether an `Authorization` header value grants access: it must be
/// `Bearer ` followed by exactly the daemon's token.
pub open spec fn authorized_spec(header: Option<Seq<char>>, token: Seq<char>) -> bool {
    match header {
        Some(h) => bearer_prefix().is_prefix_of(h) && h.skip(7) == token,
        None => false,
    }
}

/// Decides whether a request carrying the `Authorization` header value
/// `header` (`None` when absent or not text) may use the protected API.
pub fn is_authorized(header: Option<&str>, token: &str) -> (r: bool)
    ensures
        r == authorized_spec(
            match header {
                Some(h) => Some(h@),
                None => None,
            },
            token@,
        ),
{
    match header {
        Some(h) => {
            let prefix = "Bearer ";
            proof {
                reveal_strlit("Bearer ");
            }
            if !starts_with(h, prefix) {
                return false;
            }
            let rest = h.substring_char(7, h.unicode_len());
            assert(rest@ =~= h@.skip(7));
            eq_exact(rest, token)
        },
        None => false,
    }
}

/// Whether the `token` query parameter of a log stream request grants
/// access: it must be present and exactly the daemon's token.
pub open spec fn ws_authorized_spec(query_token: Option<Seq<char>>, token: Seq<char>) -> bool {
    match query_token {
        Some(q) => q == token,
        None => false,
    }
}

/// Decides whether a log stream request whose `?token=` parameter is
/// `query_token` (`None` when absent) may open the stream.
pub fn ws_authorized(query_token: Option<&str>, token: &str) -> (r: bool)
    ensures
        r == ws_authorized_spec(
            match query_token {
                Some(q) => Some(q@),
                None => None,
            },
            token@,
        ),
{
    match query_token {
        Some(q) => eq_exact(q, token),
        None => false,
    }
}

/// Where the interpreter for a kind of script is looked for.
#[derive(Debug, Clone)]
pub enum InterpreterSource {
    /// The first of these programs found on `PATH`, in order of preference.
    Search(Vec<&'static str>),
    /// The `ComSpec` setting when it is not empty, else the first of these
    /// programs found on `PATH`.
    ComSpecOr(Vec<&'static str>),
}

/// The programs tried for each kind of script, matched to its extension
/// where that matters (a `.zsh` prefers `zsh`) and always ending with a more
/// universal shell.
pub open spec fn interpreter_source_spec(kind: Seq<char>) -> Option<(bool, Seq<Seq<char>>)> {
    if kind == "sh"@ {
        Some((false, seq!["bash"@, "zsh"@, "sh"@]))
    } else if kind == "bash"@ {
        Some((false, seq!["bash"@, "sh"@]))
    } else if kind == "zsh"@ {
        Some((false, seq!["zsh"@, "bash"@, "sh"@]))
    } else if kind == "ps1"@ {
        Some((false, seq!["pwsh"@, "powershell"@]))
    } else if kind == "bat"@ {
        Some((true, seq!["cmd"@]))
    } else {
        None
    }
}

/// The view of an interpreter source: whether `ComSpec` comes first, and the
/// programs searched for.
pub open spec fn source_view(s: InterpreterSource) -> (bool, Seq<Seq<char>>) {
    match s {
        InterpreterSource::Search(v) => (false, v@.map_values(|p: &str| p@)),
        InterpreterSource::ComSpecOr(v) => (true, v@.map_values(|p: &str| p@)),
    }
}

/// Where to look for the interpreter of a script of kind `kind`; `None` for
/// an unknown kind.
pub fn interpreter_source(kind: &str) -> (r: Option<InterpreterSource>)
    ensures
        match r {
            Some(s) => interpreter_source_spec(kind@) == Some(source_view(s)),
            None => interpreter_source_spec(kind@) is None,
        },
{
    proof {
        reveal_strlit("sh");
        reveal_strlit("bash");
        reveal_strlit("zsh");
        reveal_strlit("ps1");
        reveal_strlit("bat");
        reveal_strlit("powershell");
        reveal_strlit("pwsh");
        reveal_strlit("cmd");
    }
    if eq_exact(kind, "sh") {
        let v = vec!["bash", "zsh", "sh"];
        assert(v@.map_values(|p: &str| p@) =~= seq!["bash"@, "zsh"@, "sh"@]);
        Some(InterpreterSource::Search(v))
    } else if eq_exact(kind, "bash") {
        let v = vec!["bash", "sh"];
        assert(v@.map_values(|p: &str| p@) =~= seq!["bash"@, "sh"@]);
        Some(InterpreterSource::Search(v))
    } else if eq_exact(kind, "zsh") {
        let v = vec!["zsh", "bash", "sh"];
        assert(v@.map_values(|p: &str| p@) =~= seq!["zsh"@, "bash"@, "sh"@]);
        Some(InterpreterSource::Search(v))
    } else if eq_exact(kind, "ps1") {
        let v = vec!["pwsh", "powershell"];
        assert(v@.map_values(|p: &str| p@) =~= seq!["pwsh"@, "powershell"@]);
        Some(InterpreterSource::Search(v))
    } else if eq_exact(kind, "bat") {
        let v = vec!["cmd"];
        assert(v@.map_values(|p: &str| p@) =~= seq!["cmd"@]);
        Some(InterpreterSource::ComSpecOr(v))
    } else {
        None
    }
}

/// The `ComSpec` setting as an interpreter: used only when set and not empty.
pub fn usable_comspec(value: Option<String>) -> (r: Option<String>)
    ensures
        match value {
            Some(v) => if v@.len() > 0 {
                r == Some(v)
            } else {
                r is None
            },
            None => r is None,
        },
{
    match value {
        Some(v) => {
            if v.as_str().unicode_len() > 0 {
                Some(v)
            } else {
                None
            }
        },
        None => None,
    }
}

} // verus!
