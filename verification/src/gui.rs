//! What the desktop front end decides about the daemon it drives: where to
//! reach it, whether a daemon already on the port may be reused, and the
//! autostart entries that launch it at login.

use vstd::prelude::*;
use crate::text::{decimal, decimal_text, eq_exact};

verus! {

/// How the front end reaches a running daemon.
#[derive(Debug, Clone)]
pub struct DaemonConnection {
    pub base_url: String,
    pub ws_url: String,
    pub token: String,
}

/// What the front end shows about the daemon.
#[derive(Debug, Clone, Copy)]
pub struct DaemonStatus {
    pub running: bool,
    pub port: u16,
    pub autostart: bool,
}

/// Where the data lives and whether it can be moved.
#[derive(Debug, Clone)]
pub struct DataLocation {
    /// Where the daemon reads and writes today.
    pub data_dir: String,
    /// What the file explorer is pointed at.
    pub reveal_path: String,
    pub portable_active: bool,
    /// Whether this platform supports portable mode at all.
    pub portable_supported: bool,
    /// Whether the toggle can be used right now.
    pub portable_available: bool,
    /// Why not, when it cannot.
    pub reason: Option<String>,
    /// Where a toggle would move the data to.
    pub target_dir: Option<String>,
    /// The target already holds a task file.
    pub target_has_data: bool,
    /// When that task file was last modified, in epoch milliseconds.
    pub target_modified_ms: Option<u64>,
}

/// The HTTP base URL of a daemon on `port` of the loopback interface.
pub open spec fn base_url_spec(port: u16) -> Seq<char> {
    "http://127.0.0.1:"@ + decimal(port as nat)
}

/// The WebSocket base URL of a daemon on `port` of the loopback interface.
pub open spec fn ws_url_spec(port: u16) -> Seq<char> {
    "ws://127.0.0.1:"@ + decimal(port as nat)
}

/// The connection to a daemon on `port` of the loopback interface that
/// accepts `token`.
pub fn daemon_connection(port: u16, token: String) -> (c: DaemonConnection)
    ensures
        c.base_url@ == base_url_spec(port),
        c.ws_url@ == ws_url_spec(port),
        c.token == token,
{
    let digits = decimal_text(port as usize);
    let mut base_url = String::from_str("http://127.0.0.1:");
    base_url.append(digits.as_str());
    let mut ws_url = String::from_str("ws://127.0.0.1:");
    ws_url.append(digits.as_str());
    DaemonConnection { base_url, ws_url, token }
}

/// The file name of the daemon binary on the platform (`.exe` on Windows).
pub fn daemon_name(windows: bool) -> (s: &'static str)
    ensures
        windows ==> s@ == "labalaba-daemon.exe"@,
        !windows ==> s@ == "labalaba-daemon"@,
{
    if windows {
        "labalaba-daemon.exe"
    } else {
        "labalaba-daemon"
    }
}

/// Whether a daemon already listening on the port is reused: only when it
/// answered the health probe with the version the front end bundles.
pub open spec fn reuse_spec(health_version: Option<Seq<char>>, bundled: Seq<char>) -> bool {
    health_version == Some(bundled)
}

/// Decides whether to reuse a daemon that answered the health probe with
/// `health_version` (`None` when it did not answer).
pub fn should_reuse_daemon(health_version: Option<&str>, bundled: &str) -> (r: bool)
    ensures
        r == reuse_spec(
            match health_version {
                Some(v) => Some(v@),
                None => None,
            },
            bundled@,
        ),
{
    match health_version {
        Some(v) => eq_exact(v, bundled),
        None => false,
    }
}

/// The text of the systemd user unit that starts the daemon at `daemon_path`.
pub open spec fn unit_text(daemon_path: Seq<char>) -> Seq<char> {
    "[Unit]\nDescription=Labalaba Daemon\nAfter=network.target\n\n[Service]\nExecStart="@ + daemon_path
        + "\nRestart=on-failure\n\n[Install]\nWantedBy=default.target\n"@
}

/// The systemd user unit that starts the daemon at `daemon_path`.
pub fn unit_contents(daemon_path: &str) -> (s: String)
    ensures
        s@ == unit_text(daemon_path@),
{
    let mut s = String::from_str(
        "[Unit]\nDescription=Labalaba Daemon\nAfter=network.target\n\n[Service]\nExecStart=",
    );
    s.append(daemon_path);
    s.append("\nRestart=on-failure\n\n[Install]\nWantedBy=default.target\n");
    s
}

/// The text of the launchd agent that keeps the daemon at `daemon_path`
/// running from login.
pub open spec fn plist_text(daemon_path: Seq<char>) -> Seq<char> {
    "<?xml version=\"1.0\" encoding=\"UTF-8\"?>\n<!DOCTYPE plist PUBLIC \"-//Apple//DTD PLIST 1.0//EN\" \"http://www.apple.com/DTDs/PropertyList-1.0.dtd\">\n<plist version=\"1.0\">\n<dict>\n\t<key>Label</key>\n\t<string>com.rizquuula.labalaba.daemon</string>\n\t<key>ProgramArguments</key>\n\t<array>\n\t\t<string>"@
        + daemon_path
        + "</string>\n\t</array>\n\t<key>RunAtLoad</key>\n\t<true/>\n\t<key>KeepAlive</key>\n\t<true/>\n</dict>\n</plist>\n"@
}

/// The launchd agent that keeps the daemon at `daemon_path` running.
pub fn plist_contents(daemon_path: &str) -> (s: String)
    ensures
        s@ == plist_text(daemon_path@),
{
    let mut s = String::from_str(
        "<?xml version=\"1.0\" encoding=\"UTF-8\"?>\n<!DOCTYPE plist PUBLIC \"-//Apple//DTD PLIST 1.0//EN\" \"http://www.apple.com/DTDs/PropertyList-1.0.dtd\">\n<plist version=\"1.0\">\n<dict>\n\t<key>Label</key>\n\t<string>com.rizquuula.labalaba.daemon</string>\n\t<key>ProgramArguments</key>\n\t<array>\n\t\t<string>",
    );
    s.append(daemon_path);
    s.append(
        "</string>\n\t</array>\n\t<key>RunAtLoad</key>\n\t<true/>\n\t<key>KeepAlive</key>\n\t<true/>\n</dict>\n</plist>\n",
    );
    s
}


/// The URL of the daemon's shutdown endpoint on `port`.
pub fn shutdown_url(port: u16) -> (s: String)
    ensures
        s@ == base_url_spec(port) + "/api/system/shutdown"@,
{
    let digits = decimal_text(port as usize);
    let mut s = String::from_str("http://127.0.0.1:");
    s.append(digits.as_str());
    s.append("/api/system/shutdown");
    s
}

/// The URL of the daemon's public health endpoint on `port`.
pub fn health_url(port: u16) -> (s: String)
    ensures
        s@ == base_url_spec(port) + "/api/health"@,
{
    let digits = decimal_text(port as usize);
    let mut s = String::from_str("http://127.0.0.1:");
    s.append(digits.as_str());
    s.append("/api/health");
    s
}

/// The `Authorization` header value that presents `token`.
pub fn bearer_header(token: &str) -> (s: String)
    ensures
        s@ == "Bearer "@ + token@,
{
    let mut s = String::from_str("Bearer ");
    s.append(token);
    s
}

/// Why the data-location switch is unavailable, if it is: the platform has
/// no portable mode, a development override pins the location, or the
/// install directory could not be written (the probe's error).
pub open spec fn unavailable_reason_spec(
    supported: bool,
    env_override: Option<Seq<char>>,
    probe_error: Option<Seq<char>>,
) -> Option<Seq<char>> {
    if !supported {
        Some("Portable mode is available on Windows only."@)
    } else if env_override is Some {
        Some("Unavailable because "@ + env_override->0 + "."@)
    } else if probe_error is Some {
        Some(
            "Labalaba is installed somewhere that needs administrator rights, so it cannot keep data there: "@
                + probe_error->0,
        )
    } else {
        None
    }
}

/// The view of an optional string slice.
pub open spec fn opt_text(o: Option<&str>) -> Option<Seq<char>> {
    match o {
        Some(s) => Some(s@),
        None => None,
    }
}

/// The message shown beside a disabled data-location toggle.
pub fn unavailable_reason(supported: bool, env_override: Option<&str>, probe_error: Option<&str>) -> (r: Option<String>)
    ensures
        text_opt(r) == unavailable_reason_spec(supported, opt_text(env_override), opt_text(probe_error)),
{
    if !supported {
        return Some(String::from_str("Portable mode is available on Windows only."));
    }
    match env_override {
        Some(o) => {
            let mut s = String::from_str("Unavailable because ");
            s.append(o);
            s.append(".");
            return Some(s);
        },
        None => {},
    }
    match probe_error {
        Some(e) => {
            let mut s = String::from_str(
                "Labalaba is installed somewhere that needs administrator rights, so it cannot keep data there: ",
            );
            s.append(e);
            Some(s)
        },
        None => None,
    }
}

/// The view of an optional string.
pub open spec fn text_opt(o: Option<String>) -> Option<Seq<char>> {
    match o {
        Some(s) => Some(s@),
        None => None,
    }
}

/// The development override that pins the data location, if any: a
/// non-empty `LABALABA_DATA_DIR` first, then a non-empty
/// `LABALABA_DAEMON_BIN` (given here as their values, `None` when unset).
pub open spec fn env_override_spec(data_dir_var: Option<Seq<char>>, daemon_bin_var: Option<Seq<char>>) -> Option<Seq<char>> {
    if data_dir_var is Some && data_dir_var->0.len() > 0 {
        Some("the data directory is pinned by LABALABA_DATA_DIR (development override)"@)
    } else if daemon_bin_var is Some && daemon_bin_var->0.len() > 0 {
        Some("the daemon binary is overridden by LABALABA_DAEMON_BIN (development override)"@)
    } else {
        None
    }
}

/// Describes the development override in force, from the values of the two
/// environment variables that pin the data location.
pub fn env_override(data_dir_var: Option<&str>, daemon_bin_var: Option<&str>) -> (r: Option<String>)
    ensures
        text_opt(r) == env_override_spec(opt_text(data_dir_var), opt_text(daemon_bin_var)),
{
    let pinned = match data_dir_var {
        Some(v) => v.unicode_len() > 0,
        None => false,
    };
    if pinned {
        return Some(String::from_str("the data directory is pinned by LABALABA_DATA_DIR (development override)"));
    }
    let overridden = match daemon_bin_var {
        Some(v) => v.unicode_len() > 0,
        None => false,
    };
    if overridden {
        return Some(String::from_str("the daemon binary is overridden by LABALABA_DAEMON_BIN (development override)"));
    }
    None
}


/// How a switch of the data location ended.
#[derive(Debug, Clone, Copy, PartialEq, Eq, Structural)]
pub enum SwitchOutcome {
    /// The daemon runs on the new location.
    Switched,
    /// The data already lives where the switch would move it.
    AlreadyThere,
    /// A pre-check refused the switch; nothing was touched.
    Refused,
    /// The old daemon could not be stopped; nothing was touched.
    StillRunning,
    /// The marker could not be changed; the old daemon was brought back.
    FlipFailed,
    /// The daemon would not start on the new location; the marker was put
    /// back and the old daemon restarted.
    Reverted,
    /// As `Reverted`, but the old daemon would not restart either.
    RevertFailed,
    /// The daemon would not start on the new location and the marker could
    /// not be put back.
    UndoFailed,
}

/// Where a switch of the data location stands. The marker flip is the one
/// commit point: everything before it is read-only or a copy nobody reads.
#[derive(Debug, Clone, Copy, PartialEq, Eq, Structural)]
pub enum SwitchPhase {
    /// Checking the platform, overrides and writability.
    Precheck,
    /// Stopping the daemon, still under the old data directory.
    StopOld,
    /// Copying the data to the new directory.
    Copy,
    /// Writing or removing the marker: the commit point.
    Flip,
    /// Starting the daemon on the new directory.
    StartNew,
    /// Putting the marker back after a failed start.
    UndoFlip,
    /// Restarting the daemon on the old directory; `after_flip_failure`
    /// says whether the marker flip itself failed.
    RestartOld(bool),
    /// The switch is over.
    Done(SwitchOutcome),
}

/// What the work of a phase reported.
#[derive(Debug, Clone, Copy, PartialEq, Eq, Structural)]
pub enum SwitchEvent {
    Succeeded,
    Failed,
    /// The pre-check found the data already in place.
    AlreadyThere,
}

/// The phase that follows `phase` once its work reported `event`.
pub open spec fn switch_step(phase: SwitchPhase, event: SwitchEvent) -> SwitchPhase {
    match phase {
        SwitchPhase::Precheck => match event {
            SwitchEvent::Succeeded => SwitchPhase::StopOld,
            SwitchEvent::Failed => SwitchPhase::Done(SwitchOutcome::Refused),
            SwitchEvent::AlreadyThere => SwitchPhase::Done(SwitchOutcome::AlreadyThere),
        },
        SwitchPhase::StopOld => if event == SwitchEvent::Succeeded {
            SwitchPhase::Copy
        } else {
            SwitchPhase::Done(SwitchOutcome::StillRunning)
        },
        SwitchPhase::Copy => SwitchPhase::Flip,
        SwitchPhase::Flip => if event == SwitchEvent::Succeeded {
            SwitchPhase::StartNew
        } else {
            SwitchPhase::RestartOld(true)
        },
        SwitchPhase::StartNew => if event == SwitchEvent::Succeeded {
            SwitchPhase::Done(SwitchOutcome::Switched)
        } else {
            SwitchPhase::UndoFlip
        },
        SwitchPhase::UndoFlip => if event == SwitchEvent::Succeeded {
            SwitchPhase::RestartOld(false)
        } else {
            SwitchPhase::Done(SwitchOutcome::UndoFailed)
        },
        SwitchPhase::RestartOld(after_flip_failure) => if after_flip_failure {
            SwitchPhase::Done(SwitchOutcome::FlipFailed)
        } else if event == SwitchEvent::Succeeded {
            SwitchPhase::Done(SwitchOutcome::Reverted)
        } else {
            SwitchPhase::Done(SwitchOutcome::RevertFailed)
        },
        SwitchPhase::Done(o) => SwitchPhase::Done(o),
    }
}

/// Advances a switch of the data location by one phase.
pub fn switch_next(phase: SwitchPhase, event: SwitchEvent) -> (next: SwitchPhase)
    ensures
        next == switch_step(phase, event),
{
    match phase {
        SwitchPhase::Precheck => match event {
            SwitchEvent::Succeeded => SwitchPhase::StopOld,
            SwitchEvent::Failed => SwitchPhase::Done(SwitchOutcome::Refused),
            SwitchEvent::AlreadyThere => SwitchPhase::Done(SwitchOutcome::AlreadyThere),
        },
        SwitchPhase::StopOld => if event == SwitchEvent::Succeeded {
            SwitchPhase::Copy
        } else {
            SwitchPhase::Done(SwitchOutcome::StillRunning)
        },
        SwitchPhase::Copy => SwitchPhase::Flip,
        SwitchPhase::Flip => if event == SwitchEvent::Succeeded {
            SwitchPhase::StartNew
        } else {
            SwitchPhase::RestartOld(true)
        },
        SwitchPhase::StartNew => if event == SwitchEvent::Succeeded {
            SwitchPhase::Done(SwitchOutcome::Switched)
        } else {
            SwitchPhase::UndoFlip
        },
        SwitchPhase::UndoFlip => if event == SwitchEvent::Succeeded {
            SwitchPhase::RestartOld(false)
        } else {
            SwitchPhase::Done(SwitchOutcome::UndoFailed)
        },
        SwitchPhase::RestartOld(after_flip_failure) => if after_flip_failure {
            SwitchPhase::Done(SwitchOutcome::FlipFailed)
        } else if event == SwitchEvent::Succeeded {
            SwitchPhase::Done(SwitchOutcome::Reverted)
        } else {
            SwitchPhase::Done(SwitchOutcome::RevertFailed)
        },
        SwitchPhase::Done(o) => SwitchPhase::Done(o),
    }
}

/// The phases a switch goes through from `phase` when its work reports
/// `events` in turn (the starting phase first).
pub open spec fn switch_trace(phase: SwitchPhase, events: Seq<SwitchEvent>) -> Seq<SwitchPhase>
    decreases events.len(),
{
    if events.len() == 0 {
        seq![phase]
    } else {
        seq![phase] + switch_trace(switch_step(phase, events[0]), events.drop_first())
    }
}

proof fn lemma_trace_shape(phase: SwitchPhase, events: Seq<SwitchEvent>)
    ensures
        switch_trace(phase, events).len() == events.len() + 1,
        switch_trace(phase, events)[0] == phase,
        forall|i: int|
            0 <= i < events.len() ==> #[trigger] switch_trace(phase, events)[i + 1] == switch_step(
                switch_trace(phase, events)[i],
                events[i],
            ),
    decreases events.len(),
{
    if events.len() > 0 {
        let next = switch_step(phase, events[0]);
        let rest = events.drop_first();
        lemma_trace_shape(next, rest);
        let t = switch_trace(phase, events);
        assert forall|i: int| 0 <= i < events.len() implies #[trigger] t[i + 1] == switch_step(t[i], events[i]) by {
            if i > 0 {
                assert(t[i + 1] == switch_trace(next, rest)[i]);
                assert(t[i] == switch_trace(next, rest)[i - 1]);
                assert(events[i] == rest[i - 1]);
                assert(switch_trace(next, rest)[(i - 1) + 1] == switch_step(switch_trace(next, rest)[i - 1], rest[i - 1]));
            }
        }
    }
}

/// The marker is flipped only once the old daemon has been stopped and the
/// data copied: in every run of a switch, a `Flip` phase comes right after
/// `Copy`, which comes right after a `StopOld` that succeeded. A switch that
/// ends `Switched` went through the flip, and one that fails before the flip
/// ends `Refused`, `AlreadyThere` or `StillRunning`, with nothing touched.
pub proof fn lemma_flip_only_after_stop(events: Seq<SwitchEvent>, i: int)
    requires
        0 < i <= events.len(),
    ensures
        switch_trace(SwitchPhase::Precheck, events)[i] == SwitchPhase::Flip ==> i >= 3
            && switch_trace(SwitchPhase::Precheck, events)[i - 1] == SwitchPhase::Copy
            && switch_trace(SwitchPhase::Precheck, events)[i - 2] == SwitchPhase::StopOld
            && events[i - 2] == SwitchEvent::Succeeded,
{
    lemma_trace_shape(SwitchPhase::Precheck, events);
    let t = switch_trace(SwitchPhase::Precheck, events);
    if t[i] == SwitchPhase::Flip {
        assert(t[(i - 1) + 1] == switch_step(t[i - 1], events[i - 1]));
        assert(t[i - 1] == SwitchPhase::Copy);
        assert(i - 1 > 0);
        assert(t[(i - 2) + 1] == switch_step(t[i - 2], events[i - 2]));
        assert(t[i - 2] == SwitchPhase::StopOld);
        assert(i - 2 > 0);
    }
}

/// A switch that ends `Switched` started the daemon on the new location
/// after the flip: the phase before the end is `StartNew`.
pub proof fn lemma_switched_only_after_start(events: Seq<SwitchEvent>, i: int)
    requires
        0 < i <= events.len(),
        switch_trace(SwitchPhase::Precheck, events)[i] == SwitchPhase::Done(SwitchOutcome::Switched),
        switch_trace(SwitchPhase::Precheck, events)[i - 1] != SwitchPhase::Done(SwitchOutcome::Switched),
    ensures
        switch_trace(SwitchPhase::Precheck, events)[i - 1] == SwitchPhase::StartNew,
        events[i - 1] == SwitchEvent::Succeeded,
{
    lemma_trace_shape(SwitchPhase::Precheck, events);
    let t = switch_trace(SwitchPhase::Precheck, events);
    assert(t[(i - 1) + 1] == switch_step(t[i - 1], events[i - 1]));
}

/// Starting a switch while another is in flight: the answer and the flag
/// after it. Only one switch runs at a time; a second is refused (`None`) and
/// leaves everything as it was, while a first raises the flag and begins at
/// the pre-check.
pub open spec fn switch_claim(switching: bool) -> (Option<SwitchPhase>, bool) {
    if switching {
        (None, true)
    } else {
        (Some(SwitchPhase::Precheck), true)
    }
}

/// Claims the right to switch the data location. `switching` is the flag
/// that a switch is in progress; a claim while it is raised is refused and
/// changes nothing, otherwise the flag is raised and the switch begins.
pub fn begin_switch(switching: &mut bool) -> (r: Option<SwitchPhase>)
    ensures
        (r, *final(switching)) == switch_claim(*old(switching)),
{
    if *switching {
        None
    } else {
        *switching = true;
        Some(SwitchPhase::Precheck)
    }
}

/// Ends a switch, however it ended: the flag is lowered.
pub fn end_switch(switching: &mut bool)
    ensures
        !*final(switching),
{
    *switching = false;
}

/// The message a refused second switch answers with.
pub open spec fn switch_busy_text() -> Seq<char> {
    "a data-location switch is already running"@
}

/// The message of a switch refused because another is in progress.
pub fn switch_busy_message() -> (s: String)
    ensures
        s@ == switch_busy_text(),
{
    String::from_str("a data-location switch is already running")
}

/// A second switch touches nothing: once a switch has begun, any further
/// claim is refused, starts no phase, and leaves the flag raised, until the
/// running switch ends, after which a new one can begin.
pub proof fn lemma_second_switch_touches_nothing(switching: bool)
    ensures
        switch_claim(switching).1,
        switch_claim(switch_claim(switching).1) == (None::<SwitchPhase>, true),
        switch_claim(false).0 == Some(SwitchPhase::Precheck),
{
}

} // verus!
