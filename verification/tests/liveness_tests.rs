use std::collections::HashMap;

use labalaba::liveness::{
    comm_matches, expected_process_stem, file_stem, image_name_matches, is_process_running,
    is_task_process_alive, parse_csv_fields, parse_tasklist_csv, proc_identities,
    process_identity_matches, prune_pids, ProcessProbe,
};
use labalaba::task::{Task, TaskId};

fn task_with(executable: &str, runner_prefix: Option<&str>) -> Task {
    Task {
        id: TaskId::new(),
        description: "t".to_string(),
        executable: executable.to_string(),
        arguments: vec![],
        working_directory: None,
        environment: HashMap::new(),
        run_as_admin: false,
        auto_restart: false,
        schedule: None,
        startup_delay_ms: 0,
        depends_on: vec![],
        runner_prefix: runner_prefix.map(str::to_string),
        pids: vec![],
    }
}

#[test]
fn file_stem_strips_dir_and_ext() {
    assert_eq!(file_stem("/usr/bin/python3").as_deref(), Some("python3"));
    assert_eq!(file_stem("C:\\bin\\app.exe").as_deref(), Some("app"));
    assert_eq!(file_stem("node").as_deref(), Some("node"));
    assert_eq!(file_stem("./run.sh").as_deref(), Some("run"));
    assert_eq!(file_stem("   ").as_deref(), None);
    assert_eq!(file_stem("").as_deref(), None);
    // Leading-dot names keep their name (no extension to strip).
    assert_eq!(file_stem(".bashrc").as_deref(), Some(".bashrc"));
}

#[test]
fn file_stem_edge_cases() {
    assert_eq!(file_stem("archive.tar.gz").as_deref(), Some("archive.tar"));
    assert_eq!(file_stem("/usr/bin/").as_deref(), None);
    assert_eq!(file_stem("  /opt/x/tool.bin  ").as_deref(), Some("tool"));
}

#[test]
fn expected_stem_uses_runner_first_token() {
    let t = task_with("/proj/app.py", Some("uv run"));
    assert_eq!(expected_process_stem(&t).as_deref(), Some("uv"));

    let t = task_with("/proj/app.py", Some("python3"));
    assert_eq!(expected_process_stem(&t).as_deref(), Some("python3"));
}

#[test]
fn expected_stem_uses_executable_without_runner() {
    let t = task_with("/usr/local/bin/myserver", None);
    assert_eq!(expected_process_stem(&t).as_deref(), Some("myserver"));

    let t = task_with("C:\\svc\\worker.exe", None);
    assert_eq!(expected_process_stem(&t).as_deref(), Some("worker"));
}

#[test]
fn expected_stem_blank_runner_falls_back_to_executable() {
    let t = task_with("/bin/app", Some("   "));
    assert_eq!(expected_process_stem(&t).as_deref(), Some("app"));
}

#[test]
fn comm_matches_exact_and_path_forms() {
    assert!(comm_matches("python3", "python3"));
    assert!(comm_matches("/usr/bin/python3", "python3"));
    assert!(comm_matches("Python3", "python3"));
    assert!(!comm_matches("bash", "python3"));
}

#[test]
fn comm_matches_truncated_15_char_prefix() {
    // comm truncates to 15 chars; a 20-char expected name should still match.
    let expected = "averylongbinaryname_v2"; // > 15 chars
    let comm = &expected[..15]; // kernel-truncated comm
    assert_eq!(comm.len(), 15);
    assert!(comm_matches(comm, expected));
    // But a non-prefix 15-char comm must not match.
    assert!(!comm_matches("totallydifferent", expected));
}

#[test]
fn parse_tasklist_csv_exact_pid_no_substring() {
    let out = "\"python.exe\",\"123\",\"Console\",\"1\",\"12,345 K\"\r\n\
               \"node.exe\",\"1234\",\"Console\",\"1\",\"9,000 K\"\r\n";
    // Exact match for 123 returns python.exe, NOT node.exe (1234).
    assert_eq!(parse_tasklist_csv(out, 123).as_deref(), Some("python.exe"));
    assert_eq!(parse_tasklist_csv(out, 1234).as_deref(), Some("node.exe"));
    // A pid present only as a substring (e.g. 23 inside 123/1234) must miss.
    assert_eq!(parse_tasklist_csv(out, 23), None);
    // The "no tasks" banner yields no match.
    assert_eq!(
        parse_tasklist_csv("INFO: No tasks are running which match the criteria.", 123),
        None
    );
}

#[test]
fn image_name_matches_ignores_exe_and_case() {
    assert!(image_name_matches("python.exe", "python"));
    assert!(image_name_matches("Python.EXE", "python"));
    assert!(image_name_matches("uv.exe", "uv"));
    assert!(!image_name_matches("node.exe", "python"));
}

#[test]
fn parse_csv_fields_splits_quoted_commas() {
    let fields = parse_csv_fields("\"a,b\",\"123\",\"c\"");
    assert_eq!(fields, vec!["a,b".to_string(), "123".to_string(), "c".to_string()]);
}

#[test]
fn proc_identities_reads_comm_and_argv0() {
    let ids = proc_identities(Some("python3\n"), Some(&b"/usr/bin/python3\0app.py\0"[..]));
    assert_eq!(ids, Some(vec!["python3".to_string(), "/usr/bin/python3".to_string()]));
    assert_eq!(proc_identities(Some("  \n"), Some(&b"\0x\0"[..])), None);
    assert_eq!(proc_identities(None, Some(&[0xff, 0xfe, 0][..])), None);
    assert_eq!(proc_identities(None, Some(&b"node"[..])), Some(vec!["node".to_string()]));
}

#[test]
fn identity_check_is_conservative() {
    let ids = vec!["bash".to_string(), "/usr/bin/python3".to_string()];
    assert!(process_identity_matches(Some(&ids), "python3"));
    assert!(!process_identity_matches(Some(&ids), "node"));
    assert!(!process_identity_matches(None, "python3"));
}

#[test]
fn task_process_alive_from_probes() {
    assert!(!is_task_process_alive(&ProcessProbe::Gone, Some("python3")));
    assert!(!is_task_process_alive(&ProcessProbe::Gone, None));
    assert!(is_task_process_alive(&ProcessProbe::AliveUnverifiable, Some("python3")));
    let ours = ProcessProbe::AliveWithIdentities(Some(vec!["python3".to_string()]));
    assert!(is_task_process_alive(&ours, Some("python3")));
    assert!(!is_task_process_alive(&ours, Some("node")));
    assert!(is_task_process_alive(&ours, None));
    let unreadable = ProcessProbe::AliveWithIdentities(None);
    assert!(!is_task_process_alive(&unreadable, Some("python3")));
    assert!(is_task_process_alive(&unreadable, None));
    let image = ProcessProbe::ImageName("Node.EXE".to_string());
    assert!(is_process_running(&image, Some("node")));
    assert!(!is_process_running(&image, Some("python")));
}

#[test]
fn prune_keeps_only_alive_pids_in_order() {
    let pids_before = vec![10, 20, 30, 40];
    // Treat even PIDs as alive.
    let pruned = prune_pids(&pids_before, |pid| pid % 20 == 0);
    assert_eq!(pruned, vec![20, 40]);
}

#[test]
fn prune_all_dead_yields_empty() {
    let pids_before = vec![1, 2, 3];
    let pruned = prune_pids(&pids_before, |_| false);
    assert!(pruned.is_empty());
}

#[test]
fn prune_all_alive_is_identity() {
    let pids_before = vec![5, 6, 7];
    let pruned = prune_pids(&pids_before, |_| true);
    assert_eq!(pruned, pids_before);
}
