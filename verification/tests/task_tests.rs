use std::collections::HashMap;

use labalaba::task::{
    compute_stats, config_to_task, task_to_config, Task, TaskId, TaskRequest, TaskStats,
    TaskStatus, TaskValidationError,
};

fn create_valid_task() -> Task {
    let mut env = HashMap::new();
    env.insert("NODE_ENV".to_string(), "production".to_string());
    Task {
        id: TaskId::new(),
        description: "Test Task".to_string(),
        executable: "node".to_string(),
        arguments: vec!["app.js".to_string()],
        working_directory: Some("/app".to_string()),
        environment: env,
        run_as_admin: false,
        auto_restart: true,
        schedule: None,
        startup_delay_ms: 1000,
        depends_on: vec![],
        runner_prefix: None,
        pids: vec![],
    }
}

fn request(description: &str, executable: &str) -> TaskRequest {
    TaskRequest {
        description: description.to_string(),
        executable: executable.to_string(),
        arguments: vec![],
        working_directory: None,
        environment: HashMap::new(),
        run_as_admin: false,
        auto_restart: false,
        schedule: None,
        startup_delay_ms: 0,
        depends_on: vec![],
        runner_prefix: None,
        pids: vec![],
    }
}

#[test]
fn test_valid_task_creation() {
    let task = create_valid_task();
    assert!(task.validate().is_ok());
    assert_eq!(task.description, "Test Task");
    assert_eq!(task.executable, "node");
    assert!(task.auto_restart);
}

#[test]
fn test_validation_fails_on_empty_description() {
    let mut task = create_valid_task();
    task.description = "   ".to_string();

    let result = task.validate();
    assert!(result.is_err());
    match result.unwrap_err() {
        TaskValidationError::EmptyDescription => (),
        _ => panic!("Expected EmptyDescription error"),
    }
}

#[test]
fn test_validation_fails_on_empty_executable() {
    let mut task = create_valid_task();
    task.executable = "".to_string();

    let result = task.validate();
    assert!(result.is_err());
    match result.unwrap_err() {
        TaskValidationError::EmptyExecutable => (),
        _ => panic!("Expected EmptyExecutable error"),
    }
}

#[test]
fn test_validation_fails_on_whitespace_only_description() {
    let mut task = create_valid_task();
    task.description = "   \t\n  ".to_string();

    let result = task.validate();
    assert!(result.is_err());
    assert!(matches!(result.unwrap_err(), TaskValidationError::EmptyDescription));
}

#[test]
fn test_task_with_optional_fields() {
    let mut env = HashMap::new();
    env.insert("ENV1".to_string(), "val1".to_string());
    env.insert("ENV2".to_string(), "val2".to_string());

    let task = Task {
        id: TaskId::new(),
        description: "Task with options".to_string(),
        executable: "python".to_string(),
        arguments: vec!["script.py".to_string(), "--verbose".to_string()],
        working_directory: Some("/home/user/project".to_string()),
        environment: env,
        run_as_admin: true,
        auto_restart: false,
        schedule: None,
        startup_delay_ms: 5000,
        depends_on: vec![TaskId::new(), TaskId::new()],
        runner_prefix: None,
        pids: vec![1234, 5678],
    };

    assert!(task.validate().is_ok());
    assert_eq!(task.arguments.len(), 2);
    assert_eq!(task.environment.len(), 2);
    assert_eq!(task.depends_on.len(), 2);
    assert_eq!(task.pids.len(), 2);
}

#[test]
fn test_task_with_minimum_fields() {
    let task = Task {
        id: TaskId::new(),
        description: "Minimal task".to_string(),
        executable: "bash".to_string(),
        arguments: vec![],
        working_directory: None,
        environment: HashMap::new(),
        run_as_admin: false,
        auto_restart: false,
        schedule: None,
        startup_delay_ms: 0,
        depends_on: vec![],
        runner_prefix: None,
        pids: vec![],
    };

    assert!(task.validate().is_ok());
    assert!(task.working_directory.is_none());
    assert!(task.environment.is_empty());
    assert_eq!(task.startup_delay_ms, 0);
}

#[test]
fn test_create_task_success() {
    let mut req = request("Test Task", "node");
    req.arguments = vec!["app.js".to_string()];
    req.working_directory = Some("/app".to_string());
    req.auto_restart = true;
    let id = TaskId::new();
    let task = Task::from_request(id, req).unwrap();

    assert!(task.validate().is_ok());
    assert_eq!(task.id, id);
    assert_eq!(task.description, "Test Task");
    assert_eq!(task.executable, "node");
    assert!(task.auto_restart);
}

#[test]
fn test_create_task_fails_on_empty_description() {
    let result = Task::from_request(TaskId::new(), request("   ", "node"));
    assert!(result.is_err());
    assert!(matches!(result.unwrap_err(), TaskValidationError::EmptyDescription));
}

#[test]
fn test_create_task_fails_on_empty_executable() {
    let result = Task::from_request(TaskId::new(), request("Test Task", ""));
    assert!(result.is_err());
    assert!(matches!(result.unwrap_err(), TaskValidationError::EmptyExecutable));
}

#[test]
fn edit_keeps_identity_and_pids() {
    let mut existing = create_valid_task();
    existing.pids = vec![11, 12];
    let id = existing.id;
    let edited = Task::edited(existing, request("Renamed", "python")).unwrap();
    assert_eq!(edited.id, id);
    assert_eq!(edited.pids, vec![11, 12]);
    assert_eq!(edited.description, "Renamed");
    assert_eq!(edited.executable, "python");
}

#[test]
fn validation_error_messages() {
    assert_eq!(TaskValidationError::EmptyDescription.message(), "Task description must not be empty");
    assert_eq!(TaskValidationError::EmptyExecutable.message(), "Executable path must not be empty");
}

#[test]
fn config_round_trip_keeps_every_field() {
    let task = create_valid_task();
    let id = task.id;
    let back = config_to_task(task_to_config(task));
    assert_eq!(back.id, id);
    assert_eq!(back.description, "Test Task");
    assert_eq!(back.startup_delay_ms, 1000);
    assert_eq!(back.environment.get("NODE_ENV").map(String::as_str), Some("production"));
}

#[test]
fn test_task_id_generation() {
    let id1 = TaskId::new();
    let id2 = TaskId::new();
    assert_ne!(id1, id2); // UUIDs should be unique
}

#[test]
fn test_task_id_default() {
    let id = TaskId::default();
    assert!(id.0 != 0); // Should be a valid UUID
}

#[test]
fn test_task_id_display() {
    let id = TaskId::new();
    let display = id.to_text();

    // UUID format: 8-4-4-4-12 hex characters with hyphens
    assert_eq!(display.len(), 36);
    assert_eq!(display.chars().filter(|c| *c == '-').count(), 4);
}

#[test]
fn task_id_text_round_trip() {
    let id = TaskId::new();
    assert_eq!(TaskId::parse(&id.to_text()), Some(id));
    assert_eq!(
        TaskId::parse("123e4567-e89b-12d3-a456-426614174000").map(|t| t.to_text()),
        Some("123e4567-e89b-12d3-a456-426614174000".to_string())
    );
    assert_eq!(TaskId::parse("not-a-uuid"), None);
    assert_eq!(TaskId(0x0123_4567_89ab_cdef_0123_4567_89ab_cdef).to_text(), "01234567-89ab-cdef-0123-456789abcdef");
}

#[test]
fn test_task_stats_default() {
    let stats = TaskStats { total: 5, running: 2, stopped: 2, crashed: 1 };

    assert_eq!(stats.total, 5);
    assert_eq!(stats.running, 2);
    assert_eq!(stats.stopped, 2);
    assert_eq!(stats.crashed, 1);
}

#[test]
fn stats_count_each_status() {
    let states = vec![
        Some(TaskStatus::Running),
        Some(TaskStatus::Starting),
        Some(TaskStatus::Crashed),
        Some(TaskStatus::Stopped),
        None,
        Some(TaskStatus::Stopping),
    ];
    let stats = compute_stats(&states);
    assert_eq!(stats, TaskStats { total: 6, running: 2, stopped: 3, crashed: 1 });
}
