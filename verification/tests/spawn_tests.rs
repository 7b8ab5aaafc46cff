use std::collections::HashMap;

use labalaba::spawn::{elevation_script, env_defaults, resolve_command};
use labalaba::task::{Task, TaskId};

fn task_with(runner_prefix: Option<&str>) -> Task {
    Task {
        id: TaskId::new(),
        description: "Test Python Script".to_string(),
        executable: "C:\\project\\app.py".to_string(),
        arguments: vec!["--port".to_string(), "8080".to_string()],
        working_directory: Some("C:\\project".to_string()),
        environment: HashMap::new(),
        run_as_admin: false,
        auto_restart: false,
        schedule: None,
        startup_delay_ms: 0,
        depends_on: vec![],
        runner_prefix: runner_prefix.map(String::from),
        pids: vec![],
    }
}

#[test]
fn test_runner_prefix_parsing() {
    let (exe, args) = resolve_command(&task_with(Some("python")));
    assert_eq!(exe, "python");
    assert_eq!(args, vec!["C:\\project\\app.py", "--port", "8080"]);

    let (exe, args) = resolve_command(&task_with(Some("pipenv run python")));
    assert_eq!(exe, "pipenv");
    assert_eq!(args, vec!["run", "python", "C:\\project\\app.py", "--port", "8080"]);

    // A whitespace-only prefix is treated as no prefix at all.
    let (exe, args) = resolve_command(&task_with(Some("   ")));
    assert_eq!(exe, "C:\\project\\app.py");
    assert_eq!(args, vec!["--port", "8080"]);
}

#[test]
fn test_command_construction_with_runner_prefix() {
    let (executable, args) = resolve_command(&task_with(Some("uv run")));
    assert_eq!(executable, "uv");
    assert_eq!(args, vec!["run", "C:\\project\\app.py", "--port", "8080"]);

    let (executable, args) = resolve_command(&task_with(None));
    assert_eq!(executable, "C:\\project\\app.py");
    assert_eq!(args, vec!["--port", "8080"]);
}

#[test]
fn elevation_script_doubles_quotes() {
    let mut task = task_with(None);
    task.executable = "C:\\it's\\tool.exe".to_string();
    task.arguments = vec!["--name".to_string(), "o'clock".to_string()];
    assert_eq!(
        elevation_script(&task),
        "Start-Process -FilePath 'C:\\it''s\\tool.exe' -ArgumentList '--name o''clock' -Verb RunAs -Wait"
    );
    task.arguments = vec![];
    assert_eq!(
        elevation_script(&task),
        "Start-Process -FilePath 'C:\\it''s\\tool.exe' -ArgumentList '' -Verb RunAs -Wait"
    );
}

#[test]
fn default_environment_yields_to_the_task() {
    assert_eq!(env_defaults(&vec![], false), vec![("NO_COLOR", "1"), ("TERM", "xterm-256color")]);
    assert_eq!(env_defaults(&vec!["TERM".to_string()], false), vec![("NO_COLOR", "1")]);
    assert_eq!(env_defaults(&vec![], true), vec![("PYTHONUNBUFFERED", "1"), ("NO_COLOR", "1")]);
    assert_eq!(
        env_defaults(&vec!["NO_COLOR".to_string(), "PYTHONUNBUFFERED".to_string()], true),
        Vec::<(&str, &str)>::new()
    );
}
