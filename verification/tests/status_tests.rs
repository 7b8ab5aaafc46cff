use labalaba::status::{
    ExitAction, TaskRuntimeState, BASE_RESTART_DELAY_SECS, MAX_CONSECUTIVE_RESTARTS,
    MAX_RESTART_DELAY_SECS, RESTART_RESET_AFTER_SECS,
};
use labalaba::task::TaskStatus;

fn now_ms() -> i64 {
    chrono::Utc::now().timestamp_millis()
}

#[test]
fn test_default_state_is_stopped() {
    let state = TaskRuntimeState::default();
    assert_eq!(state.status, TaskStatus::Stopped);
    assert!(state.pid.is_none());
    assert!(state.started_at.is_none());
    assert!(state.exit_code.is_none());
}

#[test]
fn test_state_transition_starting() {
    let mut state = TaskRuntimeState::default();
    state.mark_starting();

    assert_eq!(state.status, TaskStatus::Starting);
    assert!(state.pid.is_none());
    assert!(state.started_at.is_none());
    assert!(state.exit_code.is_none());
}

#[test]
fn test_state_transition_running() {
    let mut state = TaskRuntimeState::default();
    let pid = 12345u32;
    state.mark_running(pid);

    assert_eq!(state.status, TaskStatus::Running);
    assert_eq!(state.pid, Some(pid));
    assert!(state.started_at.is_some());
    assert!(state.exit_code.is_none());
}

#[test]
fn test_state_transition_stopping() {
    let mut state = TaskRuntimeState::default();
    state.mark_starting();
    state.mark_running(12345);
    state.mark_stopping();

    assert_eq!(state.status, TaskStatus::Stopping);
}

#[test]
fn test_state_transition_stopped() {
    let mut state = TaskRuntimeState::default();
    state.mark_stopped(Some(0));

    assert_eq!(state.status, TaskStatus::Stopped);
    assert!(state.pid.is_none());
    assert_eq!(state.exit_code, Some(0));
}

#[test]
fn test_state_transition_stopped_with_exit_code() {
    let mut state = TaskRuntimeState::default();
    state.mark_stopped(Some(42));

    assert_eq!(state.status, TaskStatus::Stopped);
    assert_eq!(state.exit_code, Some(42));
}

#[test]
fn test_state_transition_stopped_without_exit_code() {
    let mut state = TaskRuntimeState::default();
    state.mark_stopped(None);

    assert_eq!(state.status, TaskStatus::Stopped);
    assert!(state.exit_code.is_none());
}

#[test]
fn test_state_transition_crashed() {
    let mut state = TaskRuntimeState::default();
    state.mark_crashed(Some(1));

    assert_eq!(state.status, TaskStatus::Crashed);
    assert!(state.pid.is_none());
    assert_eq!(state.exit_code, Some(1));
}

#[test]
fn test_state_transition_crashed_no_exit_code() {
    let mut state = TaskRuntimeState::default();
    state.mark_crashed(None);

    assert_eq!(state.status, TaskStatus::Crashed);
    assert!(state.exit_code.is_none());
}

#[test]
fn test_is_running_returns_true_for_starting() {
    let mut state = TaskRuntimeState::default();
    state.mark_starting();
    assert!(state.is_running());
}

#[test]
fn test_is_running_returns_true_for_running() {
    let mut state = TaskRuntimeState::default();
    state.mark_running(12345);
    assert!(state.is_running());
}

#[test]
fn test_is_running_returns_false_for_stopped() {
    let mut state = TaskRuntimeState::default();
    state.mark_stopped(Some(0));
    assert!(!state.is_running());
}

#[test]
fn test_is_running_returns_false_for_crashed() {
    let mut state = TaskRuntimeState::default();
    state.mark_crashed(Some(1));
    assert!(!state.is_running());
}

#[test]
fn test_full_lifecycle() {
    let mut state = TaskRuntimeState::default();

    // Initial state
    assert!(!state.is_running());

    // Start
    state.mark_starting();
    assert!(state.is_running());

    // Running
    state.mark_running(12345);
    assert!(state.is_running());
    assert!(state.pid.is_some());

    // Stop
    state.mark_stopping();
    assert!(!state.is_running());

    state.mark_stopped(Some(0));
    assert!(!state.is_running());
    assert!(state.pid.is_none());
    assert_eq!(state.exit_code, Some(0));
}

#[test]
fn test_crash_resets_pid() {
    let mut state = TaskRuntimeState::default();
    state.mark_running(12345);
    assert!(state.pid.is_some());

    state.mark_crashed(Some(1));
    assert!(state.pid.is_none());
    assert_eq!(state.exit_code, Some(1));
}

#[test]
fn test_mark_starting_if_stopped_claims_when_stopped() {
    let mut state = TaskRuntimeState::default();
    assert!(state.mark_starting_if_stopped());
    assert_eq!(state.status, TaskStatus::Starting);
}

#[test]
fn test_mark_starting_if_stopped_rejects_when_running() {
    let mut state = TaskRuntimeState::default();
    state.mark_running(123);
    assert!(!state.mark_starting_if_stopped());
    assert_eq!(state.status, TaskStatus::Running);
}

#[test]
fn test_mark_starting_if_stopped_rejects_when_already_starting() {
    let mut state = TaskRuntimeState::default();
    state.mark_starting();
    // A second concurrent start must NOT win the claim.
    assert!(!state.mark_starting_if_stopped());
}

#[test]
fn test_intentional_stop_detection() {
    let mut state = TaskRuntimeState::default();
    state.mark_running(123);
    assert!(!state.is_stopping_or_stopped());

    state.mark_stopping();
    assert!(state.is_stopping_or_stopped());

    state.mark_stopped(None);
    assert!(state.is_stopping_or_stopped());

    state.mark_crashed(Some(1));
    assert!(!state.is_stopping_or_stopped());
}

#[test]
fn test_backoff_is_exponential_and_capped() {
    let mut state = TaskRuntimeState::default();
    // started_at stays None so the survival reset never fires.
    let mut delays = Vec::new();
    for _ in 0..MAX_CONSECUTIVE_RESTARTS {
        delays.push(state.register_restart_attempt());
    }
    // 3, 6, 12, 24, 48 — doubling from the base, all below the 60s cap.
    assert_eq!(delays, vec![3, 6, 12, 24, 48]);
    assert!(delays.iter().all(|&d| d <= MAX_RESTART_DELAY_SECS));
}

#[test]
fn test_backoff_caps_at_max() {
    let mut state = TaskRuntimeState::default();
    // Force the counter high enough that the raw doubling would exceed 60.
    state.consecutive_restarts = 10;
    assert_eq!(state.register_restart_attempt(), MAX_RESTART_DELAY_SECS);
}

#[test]
fn test_restart_cap_reached_after_max_attempts() {
    let mut state = TaskRuntimeState::default();
    assert!(!state.restart_cap_reached());
    for _ in 0..MAX_CONSECUTIVE_RESTARTS {
        state.register_restart_attempt();
    }
    assert!(state.restart_cap_reached());
}

#[test]
fn test_counter_resets_after_long_survival() {
    let mut state = TaskRuntimeState::default();
    state.consecutive_restarts = 3;
    // Simulate a run that survived well past the reset threshold.
    state.started_at = Some(now_ms() - (RESTART_RESET_AFTER_SECS + 5) * 1000);
    // The reset happens first, so the returned delay is the base again.
    assert_eq!(state.register_restart_attempt(), BASE_RESTART_DELAY_SECS);
    // And after this attempt the counter is at 1, not 4.
    assert_eq!(state.consecutive_restarts, 1);
}

#[test]
fn backoff_saturates_for_huge_counters() {
    let mut state = TaskRuntimeState::default();
    state.consecutive_restarts = u32::MAX;
    assert_eq!(state.register_restart_attempt_at(0), MAX_RESTART_DELAY_SECS);
    assert_eq!(state.consecutive_restarts, u32::MAX);
    assert_eq!(state.last_restart, Some(0));
}

#[test]
fn exit_during_stop_is_intentional() {
    let mut state = TaskRuntimeState::default();
    state.mark_running(7);
    state.mark_stopping();
    assert_eq!(state.record_exit_at(Some(137), true, 1_000), ExitAction::Intentional);
    assert_eq!(state.status, TaskStatus::Stopped);
    assert_eq!(state.pid, None);
}

#[test]
fn clean_exit_is_intentional_and_crash_restarts() {
    let mut state = TaskRuntimeState::default();
    state.mark_running_at(7, 0);
    assert_eq!(state.record_exit_at(Some(0), true, 1_000), ExitAction::Intentional);

    let mut state = TaskRuntimeState::default();
    state.mark_running_at(7, 0);
    assert_eq!(state.record_exit_at(Some(1), true, 1_000), ExitAction::Restart(3));
    assert_eq!(state.status, TaskStatus::Crashed);
    assert_eq!(state.consecutive_restarts, 1);

    let mut state = TaskRuntimeState::default();
    state.mark_running_at(7, 0);
    assert_eq!(state.record_exit_at(None, false, 1_000), ExitAction::CrashedNoRestart);

    let mut state = TaskRuntimeState::default();
    state.consecutive_restarts = MAX_CONSECUTIVE_RESTARTS;
    state.mark_running_at(7, 0);
    assert_eq!(state.record_exit_at(Some(2), true, 1_000), ExitAction::CrashedNoRestart);
}

#[test]
fn recovery_marks_running_or_crashed() {
    let mut state = TaskRuntimeState::default();
    assert_eq!(state.recover_at(&vec![42, 43], 5), Some(42));
    assert_eq!(state.status, TaskStatus::Running);
    assert_eq!(state.pid, Some(42));
    assert_eq!(state.started_at, Some(5));

    let mut state = TaskRuntimeState::default();
    assert_eq!(state.recover_at(&vec![], 5), None);
    assert_eq!(state.status, TaskStatus::Crashed);
    assert_eq!(state.exit_code, None);
}
