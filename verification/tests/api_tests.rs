use labalaba::api::{
    default_limit, health_info, interpreter_source, is_authorized, usable_comspec, version_info, ws_authorized,
    ApiResponse, InterpreterSource, LogsQuery,
};
use labalaba::settings::{purge_user_data, strip_dot_slash, AppSettings, PurgeStep, PurgeTarget};

#[test]
fn test_api_response_ok() {
    let response = ApiResponse::ok("test data");

    assert!(response.success);
    assert_eq!(response.data, Some("test data"));
    assert!(response.error.is_none());
}

#[test]
fn test_api_response_err() {
    let response: ApiResponse<()> = ApiResponse::err("something went wrong");

    assert!(!response.success);
    assert!(response.data.is_none());
    assert_eq!(response.error, Some("something went wrong".to_string()));
}

#[test]
fn test_default_settings_values() {
    let settings = AppSettings::default();

    // Check that defaults are set (actual values from default_* functions)
    assert_eq!(settings.theme, "dark");
    assert_eq!(settings.daemon_port, 27015);
    assert_eq!(settings.log_buffer_lines, 5000);
    assert_eq!(settings.config_path, "./tasks.yaml");
    assert!(settings.notifications_enabled);
    assert!(settings.auto_check_updates);
    assert_eq!(settings.update_check_interval_hours, 24);
    assert!(!settings.launch_on_startup);
    assert_eq!(settings.log_dir, "./logs");
    assert_eq!(settings.log_max_file_size_mb, 10);
    assert_eq!(settings.log_max_rotated_files, 5);
}

#[test]
fn health_and_version_answers() {
    let h = health_info("1.2.3");
    assert_eq!(h.status, "ok");
    assert_eq!(h.version, "1.2.3");
    assert_eq!(version_info("1.2.3").version, "1.2.3");
}

#[test]
fn logs_query_defaults_to_five_hundred_lines() {
    assert_eq!(default_limit(), 500);
    assert_eq!(LogsQuery::default().lines, 500);
}

#[test]
fn bearer_token_must_match_exactly() {
    assert!(is_authorized(Some("Bearer s3cret"), "s3cret"));
    assert!(!is_authorized(Some("Bearer s3cret "), "s3cret"));
    assert!(!is_authorized(Some("bearer s3cret"), "s3cret"));
    assert!(!is_authorized(Some("s3cret"), "s3cret"));
    assert!(!is_authorized(Some("Bearer "), "s3cret"));
    assert!(!is_authorized(None, "s3cret"));
    assert!(is_authorized(Some("Bearer "), ""));
}

#[test]
fn interpreter_candidates_per_kind() {
    match interpreter_source("sh") {
        Some(InterpreterSource::Search(v)) => assert_eq!(v, vec!["bash", "zsh", "sh"]),
        other => panic!("unexpected {other:?}"),
    }
    match interpreter_source("zsh") {
        Some(InterpreterSource::Search(v)) => assert_eq!(v, vec!["zsh", "bash", "sh"]),
        other => panic!("unexpected {other:?}"),
    }
    match interpreter_source("bash") {
        Some(InterpreterSource::Search(v)) => assert_eq!(v, vec!["bash", "sh"]),
        other => panic!("unexpected {other:?}"),
    }
    match interpreter_source("ps1") {
        Some(InterpreterSource::Search(v)) => assert_eq!(v, vec!["pwsh", "powershell"]),
        other => panic!("unexpected {other:?}"),
    }
    match interpreter_source("bat") {
        Some(InterpreterSource::ComSpecOr(v)) => assert_eq!(v, vec!["cmd"]),
        other => panic!("unexpected {other:?}"),
    }
    assert!(interpreter_source("py").is_none());
    assert_eq!(usable_comspec(Some("C:\\cmd.exe".to_string())), Some("C:\\cmd.exe".to_string()));
    assert_eq!(usable_comspec(Some(String::new())), None);
    assert_eq!(usable_comspec(None), None);
}

#[test]
fn dot_slash_prefixes_are_removed() {
    assert_eq!(strip_dot_slash("./tasks.yaml"), "tasks.yaml");
    assert_eq!(strip_dot_slash("././logs"), "logs");
    assert_eq!(strip_dot_slash("../x"), "../x");
    assert_eq!(strip_dot_slash("/abs/path"), "/abs/path");
    assert_eq!(strip_dot_slash("."), ".");
}

fn target_name(t: &PurgeTarget) -> String {
    match t {
        PurgeTarget::InDataDir(n) => format!("data:{n}"),
        PurgeTarget::FromSettings(p) => format!("setting:{p}"),
    }
}

#[test]
fn purge_plan_removes_data_before_the_marker() {
    let mut settings = AppSettings::default();
    settings.config_path = "/pinned/my-tasks.yaml".to_string();
    let steps = purge_user_data(Some(&settings), true);
    let names: Vec<String> = steps
        .iter()
        .map(|s| match s {
            PurgeStep::RemoveFile(t) => format!("file {}", target_name(t)),
            PurgeStep::RemoveTree(t) => format!("tree {}", target_name(t)),
            PurgeStep::RemoveMarkerThenEmptyDataDir => "marker".to_string(),
        })
        .collect();
    assert_eq!(
        names,
        vec![
            "file data:daemon.token",
            "file setting:/pinned/my-tasks.yaml",
            "file data:settings.yaml",
            "tree setting:./logs",
            "marker",
        ]
    );
}

#[test]
fn purge_plan_without_settings_uses_defaults_and_no_marker() {
    let steps = purge_user_data(None, false);
    assert_eq!(steps.len(), 4);
    assert!(matches!(&steps[1], PurgeStep::RemoveFile(PurgeTarget::InDataDir("tasks.yaml"))));
    assert!(matches!(&steps[3], PurgeStep::RemoveTree(PurgeTarget::InDataDir("logs"))));
    assert!(!steps.iter().any(|s| matches!(s, PurgeStep::RemoveMarkerThenEmptyDataDir)));
}

#[test]
fn log_stream_needs_the_token_in_its_query() {
    assert!(ws_authorized(Some("secret"), "secret"));
    assert!(!ws_authorized(Some("secre"), "secret"));
    assert!(!ws_authorized(Some("Bearer secret"), "secret"));
    assert!(!ws_authorized(Some(""), "secret"));
    assert!(!ws_authorized(None, "secret"));
}
