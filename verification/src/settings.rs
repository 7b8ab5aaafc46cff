//! Application settings, their defaults, and where the data they point at
//! lives.

use vstd::prelude::*;

verus! {

/// The settings of the application. A value missing from the settings file
/// takes its default.
#[derive(Debug, Clone)]
pub struct AppSettings {
    pub theme: String,
    pub daemon_port: u16,
    pub log_buffer_lines: usize,
    pub config_path: String,
    pub notifications_enabled: bool,
    pub auto_check_updates: bool,
    pub update_check_interval_hours: u64,
    pub launch_on_startup: bool,
    pub log_dir: String,
    pub log_max_file_size_mb: usize,
    pub log_max_rotated_files: usize,
}

/// The default colour theme.
pub fn default_theme() -> (s: String)
    ensures
        s@ == "dark"@,
{
    String::from_str("dark")
}

/// The default port of the daemon.
pub fn default_port() -> (p: u16)
    ensures
        p == 27015,
{
    27015
}

/// The default number of log lines kept in memory per task.
pub fn default_log_buffer() -> (n: usize)
    ensures
        n == 5000,
{
    5000
}

/// The default path of the task list.
pub fn default_config_path() -> (s: String)
    ensures
        s@ == "./tasks.yaml"@,
{
    String::from_str("./tasks.yaml")
}

/// The default of the switches that are on unless turned off.
pub fn default_true() -> (b: bool)
    ensures
        b,
{
    true
}

/// The default pause between update checks, in hours.
pub fn default_update_interval() -> (h: u64)
    ensures
        h == 24,
{
    24
}

/// The default directory of the task logs.
pub fn default_log_dir() -> (s: String)
    ensures
        s@ == "./logs"@,
{
    String::from_str("./logs")
}

/// The default size, in MiB, at which a log file is rotated.
pub fn default_log_max_file_size_mb() -> (n: usize)
    ensures
        n == 10,
{
    10
}

/// The default number of rotated log files kept.
pub fn default_log_max_rotated_files() -> (n: usize)
    ensures
        n == 5,
{
    5
}

/// Whether `s` holds every default value.
pub open spec fn is_default_settings(s: AppSettings) -> bool {
    &&& s.theme@ == "dark"@
    &&& s.daemon_port == 27015
    &&& s.log_buffer_lines == 5000
    &&& s.config_path@ == "./tasks.yaml"@
    &&& s.notifications_enabled
    &&& s.auto_check_updates
    &&& s.update_check_interval_hours == 24
    &&& !s.launch_on_startup
    &&& s.log_dir@ == "./logs"@
    &&& s.log_max_file_size_mb == 10
    &&& s.log_max_rotated_files == 5
}

impl Default for AppSettings {
    fn default() -> (s: Self)
        ensures
            is_default_settings(s),
    {
        AppSettings {
            theme: default_theme(),
            daemon_port: default_port(),
            log_buffer_lines: default_log_buffer(),
            config_path: default_config_path(),
            notifications_enabled: default_true(),
            auto_check_updates: default_true(),
            update_check_interval_hours: default_update_interval(),
            launch_on_startup: false,
            log_dir: default_log_dir(),
            log_max_file_size_mb: default_log_max_file_size_mb(),
            log_max_rotated_files: default_log_max_rotated_files(),
        }
    }
}

/// `p` with every leading `./` removed (`././a` is `a`).
pub open spec fn without_dot_slash(p: Seq<char>) -> Seq<char>
    decreases p.len(),
{
    if p.len() >= 2 && p[0] == '.' && p[1] == '/' {
        without_dot_slash(p.skip(2))
    } else {
        p
    }
}

/// The part of a relative setting path that is joined to the data
/// directory: the path with every leading `./` removed.
pub fn strip_dot_slash(p: &str) -> (r: &str)
    ensures
        r@ == without_dot_slash(p@),
{
    let n = p.unicode_len();
    let mut i: usize = 0;
    assert(p@.skip(0) =~= p@);
    while i < n && n - i >= 2 && p.get_char(i) == '.' && p.get_char(i + 1) == '/'
        invariant
            n == p@.len(),
            i <= n,
            without_dot_slash(p@) == without_dot_slash(p@.skip(i as int)),
        decreases n - i,
    {
        assert(p@.skip(i as int).skip(2) =~= p@.skip(i as int + 2));
        i = i + 2;
    }
    let r = p.substring_char(i, n);
    assert(r@ =~= p@.skip(i as int));
    r
}

/// A path the purge removes.
#[derive(Debug, Clone)]
pub enum PurgeTarget {
    /// A fixed name inside the data directory.
    InDataDir(&'static str),
    /// A path from the settings, resolved against the data directory.
    FromSettings(String),
}

/// One step of a purge of the user data.
#[derive(Debug, Clone)]
pub enum PurgeStep {
    /// Remove this file, when it exists.
    RemoveFile(PurgeTarget),
    /// Remove this directory and all it holds, when it exists.
    RemoveTree(PurgeTarget),
    /// Remove the portable-mode marker, when it exists, and then the data
    /// directory, only if it is left empty.
    RemoveMarkerThenEmptyDataDir,
}

/// Whether `t` is the fixed name `name` in the data directory.
pub open spec fn is_data_file(t: PurgeTarget, name: Seq<char>) -> bool {
    t matches PurgeTarget::InDataDir(n) && n@ == name
}

/// Whether `t` is the setting path `p`, or, with no settings, the fixed name
/// `default_name`.
pub open spec fn is_configured(t: PurgeTarget, p: Option<Seq<char>>, default_name: Seq<char>) -> bool {
    match p {
        Some(path) => t matches PurgeTarget::FromSettings(s) && s@ == path,
        None => is_data_file(t, default_name),
    }
}

/// The steps of a factory reset of the user data: the token, the task list
/// and the settings file, then the log directory, and, in portable mode, the
/// marker last of all (it is the flag that says where the data is, so no
/// data step comes after it). The task list and the log directory are those the
/// settings name, or the defaults when the settings could not be read.
pub fn purge_user_data(settings: Option<&AppSettings>, portable: bool) -> (steps: Vec<PurgeStep>)
    ensures
        steps@.len() == if portable { 5int } else { 4int },
        steps@[0] matches PurgeStep::RemoveFile(t) && is_data_file(t, "daemon.token"@),
        steps@[1] matches PurgeStep::RemoveFile(t) && is_configured(
            t,
            match settings {
                Some(s) => Some(s.config_path@),
                None => None,
            },
            "tasks.yaml"@,
        ),
        steps@[2] matches PurgeStep::RemoveFile(t) && is_data_file(t, "settings.yaml"@),
        steps@[3] matches PurgeStep::RemoveTree(t) && is_configured(
            t,
            match settings {
                Some(s) => Some(s.log_dir@),
                None => None,
            },
            "logs"@,
        ),
        portable ==> steps@[4] is RemoveMarkerThenEmptyDataDir,
        forall|i: int|
            0 <= i < 4 ==> !(#[trigger] steps@[i] is RemoveMarkerThenEmptyDataDir),
{
    let mut steps: Vec<PurgeStep> = Vec::new();
    steps.push(PurgeStep::RemoveFile(PurgeTarget::InDataDir("daemon.token")));
    let (config, logs) = match settings {
        Some(s) => (
            PurgeTarget::FromSettings(String::from_str(s.config_path.as_str())),
            PurgeTarget::FromSettings(String::from_str(s.log_dir.as_str())),
        ),
        None => (PurgeTarget::InDataDir("tasks.yaml"), PurgeTarget::InDataDir("logs")),
    };
    steps.push(PurgeStep::RemoveFile(config));
    steps.push(PurgeStep::RemoveFile(PurgeTarget::InDataDir("settings.yaml")));
    steps.push(PurgeStep::RemoveTree(logs));
    if portable {
        steps.push(PurgeStep::RemoveMarkerThenEmptyDataDir);
    }
    steps
}

} // verus!
