use labalaba::gui::{
    bearer_header, daemon_connection, daemon_name, env_override, health_url, plist_contents,
    should_reuse_daemon, shutdown_url, unavailable_reason, unit_contents,
};
use labalaba::token::{new_token, token_from_contents};

#[test]
fn connection_urls_for_a_port() {
    let c = daemon_connection(27015, "tok".to_string());
    assert_eq!(c.base_url, "http://127.0.0.1:27015");
    assert_eq!(c.ws_url, "ws://127.0.0.1:27015");
    assert_eq!(c.token, "tok");
    assert_eq!(daemon_connection(0, String::new()).base_url, "http://127.0.0.1:0");
    assert_eq!(shutdown_url(8080), "http://127.0.0.1:8080/api/system/shutdown");
    assert_eq!(health_url(65535), "http://127.0.0.1:65535/api/health");
    assert_eq!(bearer_header("abc"), "Bearer abc");
}

#[test]
fn daemon_binary_name_per_platform() {
    assert_eq!(daemon_name(true), "labalaba-daemon.exe");
    assert_eq!(daemon_name(false), "labalaba-daemon");
}

#[test]
fn only_a_healthy_same_version_daemon_is_reused() {
    assert!(should_reuse_daemon(Some("1.2.0"), "1.2.0"));
    assert!(!should_reuse_daemon(Some("1.1.0"), "1.2.0"));
    assert!(!should_reuse_daemon(None, "1.2.0"));
}

#[test]
fn autostart_entries_name_the_daemon() {
    let unit = unit_contents("/opt/labalaba/labalaba-daemon");
    assert_eq!(
        unit,
        "[Unit]\nDescription=Labalaba Daemon\nAfter=network.target\n\n[Service]\nExecStart=/opt/labalaba/labalaba-daemon\nRestart=on-failure\n\n[Install]\nWantedBy=default.target\n"
    );
    let plist = plist_contents("/Applications/L.app/labalaba-daemon");
    assert!(plist.contains("\t\t<string>/Applications/L.app/labalaba-daemon</string>\n"));
    assert!(plist.starts_with("<?xml version=\"1.0\" encoding=\"UTF-8\"?>\n"));
    assert!(plist.ends_with("</dict>\n</plist>\n"));
}

#[test]
fn data_location_reasons() {
    assert_eq!(
        unavailable_reason(false, Some("x"), Some("y")).as_deref(),
        Some("Portable mode is available on Windows only.")
    );
    assert_eq!(
        unavailable_reason(true, Some("the daemon is pinned"), Some("y")).as_deref(),
        Some("Unavailable because the daemon is pinned.")
    );
    assert_eq!(
        unavailable_reason(true, None, Some("denied")).as_deref(),
        Some("Labalaba is installed somewhere that needs administrator rights, so it cannot keep data there: denied")
    );
    assert_eq!(unavailable_reason(true, None, None), None);
    assert_eq!(
        env_override(Some("/tmp/d"), Some("/x")).as_deref(),
        Some("the data directory is pinned by LABALABA_DATA_DIR (development override)")
    );
    assert_eq!(
        env_override(Some(""), Some("/x")).as_deref(),
        Some("the daemon binary is overridden by LABALABA_DAEMON_BIN (development override)")
    );
    assert_eq!(env_override(None, Some("")), None);
}

#[test]
fn token_file_contents() {
    assert_eq!(token_from_contents("  abc\n").as_deref(), Some("abc"));
    assert_eq!(token_from_contents(" \n\t"), None);
    let t = new_token();
    assert_eq!(t.len(), 64);
    assert!(t.chars().all(|c| c.is_ascii_hexdigit() && !c.is_ascii_uppercase()));
    assert_eq!(token_from_contents(&t).as_deref(), Some(t.as_str()));
    assert_ne!(new_token(), t);
}

use labalaba::gui::{switch_next, SwitchEvent, SwitchOutcome, SwitchPhase};

fn run(events: &[SwitchEvent]) -> Vec<SwitchPhase> {
    let mut phase = SwitchPhase::Precheck;
    let mut trace = vec![phase];
    for e in events {
        phase = switch_next(phase, *e);
        trace.push(phase);
    }
    trace
}

#[test]
fn switch_commits_only_after_stop_and_copy() {
    let t = run(&[SwitchEvent::Succeeded, SwitchEvent::Succeeded, SwitchEvent::Succeeded, SwitchEvent::Succeeded, SwitchEvent::Succeeded]);
    assert_eq!(
        t,
        vec![
            SwitchPhase::Precheck,
            SwitchPhase::StopOld,
            SwitchPhase::Copy,
            SwitchPhase::Flip,
            SwitchPhase::StartNew,
            SwitchPhase::Done(SwitchOutcome::Switched),
        ]
    );
    assert_eq!(run(&[SwitchEvent::Failed]).last(), Some(&SwitchPhase::Done(SwitchOutcome::Refused)));
    assert_eq!(run(&[SwitchEvent::AlreadyThere]).last(), Some(&SwitchPhase::Done(SwitchOutcome::AlreadyThere)));
    assert_eq!(run(&[SwitchEvent::Succeeded, SwitchEvent::Failed]).last(), Some(&SwitchPhase::Done(SwitchOutcome::StillRunning)));
}

#[test]
fn switch_rolls_back_a_failed_start() {
    assert_eq!(
        run(&[SwitchEvent::Succeeded, SwitchEvent::Succeeded, SwitchEvent::Succeeded, SwitchEvent::Failed]).last(),
        Some(&SwitchPhase::RestartOld(true))
    );
    assert_eq!(
        run(&[SwitchEvent::Succeeded, SwitchEvent::Succeeded, SwitchEvent::Succeeded, SwitchEvent::Failed, SwitchEvent::Failed]).last(),
        Some(&SwitchPhase::Done(SwitchOutcome::FlipFailed))
    );
    assert_eq!(
        run(&[SwitchEvent::Succeeded, SwitchEvent::Succeeded, SwitchEvent::Succeeded, SwitchEvent::Succeeded, SwitchEvent::Failed, SwitchEvent::Succeeded, SwitchEvent::Succeeded]).last(),
        Some(&SwitchPhase::Done(SwitchOutcome::Reverted))
    );
    assert_eq!(
        run(&[SwitchEvent::Succeeded, SwitchEvent::Succeeded, SwitchEvent::Succeeded, SwitchEvent::Succeeded, SwitchEvent::Failed, SwitchEvent::Succeeded, SwitchEvent::Failed]).last(),
        Some(&SwitchPhase::Done(SwitchOutcome::RevertFailed))
    );
    assert_eq!(
        run(&[SwitchEvent::Succeeded, SwitchEvent::Succeeded, SwitchEvent::Succeeded, SwitchEvent::Succeeded, SwitchEvent::Failed, SwitchEvent::Failed]).last(),
        Some(&SwitchPhase::Done(SwitchOutcome::UndoFailed))
    );
    // A finished switch stays finished.
    assert_eq!(
        switch_next(SwitchPhase::Done(SwitchOutcome::Switched), SwitchEvent::Failed),
        SwitchPhase::Done(SwitchOutcome::Switched)
    );
}

#[test]
fn token_halves_are_version_4_uuids() {
    let t = new_token();
    let b = t.as_bytes();
    for half in [0, 32] {
        assert_eq!(b[half + 12], b'4');
        assert!(matches!(b[half + 16], b'8' | b'9' | b'a' | b'b'));
    }
}

use labalaba::gui::{begin_switch, end_switch, switch_busy_message};

#[test]
fn a_second_switch_is_refused_until_the_first_ends() {
    let mut switching = false;
    assert_eq!(begin_switch(&mut switching), Some(SwitchPhase::Precheck));
    assert!(switching);
    assert_eq!(begin_switch(&mut switching), None);
    assert!(switching);
    end_switch(&mut switching);
    assert!(!switching);
    assert_eq!(begin_switch(&mut switching), Some(SwitchPhase::Precheck));
    assert_eq!(switch_busy_message(), "a data-location switch is already running");
}
