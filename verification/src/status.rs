//! The in-memory lifecycle of a task: starting, running, stopping, crashing,
//! and the crash-restart backoff that decides when a crashed task is tried
//! again.

use vstd::prelude::*;
use vstd::arithmetic::power2::{pow2, lemma_pow2_strictly_increases, lemma_pow2_pos};
use crate::task::TaskStatus;
use crate::clock::now_millis;

verus! {

/// Max consecutive rapid crash-restarts before a task is left Crashed.
pub const MAX_CONSECUTIVE_RESTARTS: u32 = 5;

/// Base auto-restart backoff delay in seconds (doubles each consecutive failure).
pub const BASE_RESTART_DELAY_SECS: u64 = 3;

/// Cap on the exponential backoff delay in seconds.
pub const MAX_RESTART_DELAY_SECS: u64 = 60;

/// A process must survive at least this long for the restart counter to reset.
pub const RESTART_RESET_AFTER_SECS: i64 = 30;

/// Runtime state tracked in memory for a task. Instants are milliseconds
/// since the Unix epoch.
#[derive(Debug, Clone)]
pub struct TaskRuntimeState {
    pub status: TaskStatus,
    pub pid: Option<u32>,
    pub started_at: Option<i64>,
    pub exit_code: Option<i32>,
    /// Consecutive rapid auto-restart attempts (reset once a run survives long enough).
    pub consecutive_restarts: u32,
    /// When the last auto-restart was queued.
    pub last_restart: Option<i64>,
}

/// How the daemon reacts to a managed process that has exited.
#[derive(Debug, Clone, Copy, PartialEq, Eq, Structural)]
pub enum ExitAction {
    /// The exit was asked for (a stop) or was clean: the task is Stopped.
    Intentional,
    /// The task crashed and is restarted after this many seconds.
    Restart(u64),
    /// The task crashed and stays Crashed: auto-restart is off or the retry cap was hit.
    CrashedNoRestart,
}

/// The backoff before the restart that follows `k` consecutive rapid
/// restarts: three seconds, doubled per restart, capped at sixty.
pub open spec fn backoff_secs(k: nat) -> int {
    let raw = BASE_RESTART_DELAY_SECS * pow2(k);
    if raw < MAX_RESTART_DELAY_SECS {
        raw as int
    } else {
        MAX_RESTART_DELAY_SECS as int
    }
}

/// Whether a run that started at `started_at` has survived long enough by
/// `now` for the restart counter to reset.
pub open spec fn survived_long_enough(started_at: Option<i64>, now: i64) -> bool {
    match started_at {
        Some(s) => now - s >= RESTART_RESET_AFTER_SECS * 1000,
        None => false,
    }
}

/// An exit with no code (killed by a signal) counts as a failure.
pub open spec fn is_failure_exit(exit_code: Option<i32>) -> bool {
    match exit_code {
        Some(c) => c != 0,
        None => true,
    }
}

impl TaskRuntimeState {
    /// A fresh state: Stopped, no process, no restarts recorded.
    pub open spec fn spec_default() -> Self {
        TaskRuntimeState {
            status: TaskStatus::Stopped,
            pid: None,
            started_at: None,
            exit_code: None,
            consecutive_restarts: 0,
            last_restart: None,
        }
    }

    /// Whether the task counts as running: a start has been claimed or the process is up.
    pub open spec fn spec_is_running(self) -> bool {
        self.status.spec_is_active()
    }

    /// Whether the task is being (or has been) deliberately stopped.
    pub open spec fn spec_is_stopping_or_stopped(self) -> bool {
        self.status == TaskStatus::Stopping || self.status == TaskStatus::Stopped
    }

    /// Whether consecutive rapid restarts have hit the cap.
    pub open spec fn spec_restart_cap_reached(self) -> bool {
        self.consecutive_restarts >= MAX_CONSECUTIVE_RESTARTS
    }

    pub open spec fn starting(self) -> Self {
        TaskRuntimeState { status: TaskStatus::Starting, pid: None, started_at: None, exit_code: None, ..self }
    }

    pub open spec fn running(self, pid: u32, now: i64) -> Self {
        TaskRuntimeState {
            status: TaskStatus::Running,
            pid: Some(pid),
            started_at: Some(now),
            exit_code: None,
            ..self
        }
    }

    pub open spec fn stopping(self) -> Self {
        TaskRuntimeState { status: TaskStatus::Stopping, ..self }
    }

    pub open spec fn stopped(self, exit_code: Option<i32>) -> Self {
        TaskRuntimeState { status: TaskStatus::Stopped, pid: None, exit_code, ..self }
    }

    pub open spec fn crashed(self, exit_code: Option<i32>) -> Self {
        TaskRuntimeState { status: TaskStatus::Crashed, pid: None, exit_code, ..self }
    }

    /// Claiming a start: granted (and the state moves to Starting) only when
    /// the task is not already running.
    pub open spec fn claim_start(self) -> (bool, Self) {
        if self.spec_is_running() {
            (false, self)
        } else {
            (true, self.starting())
        }
    }

    /// Recording a crash-driven restart attempt at `now`: the counter resets
    /// first when the last run survived long enough, the delay is the backoff
    /// for the counter, and the counter then advances (saturating).
    pub open spec fn restart_attempt(self, now: i64) -> (u64, Self) {
        let k = if survived_long_enough(self.started_at, now) {
            0u32
        } else {
            self.consecutive_restarts
        };
        let next = if k == u32::MAX {
            k
        } else {
            (k + 1) as u32
        };
        (
            backoff_secs(k as nat) as u64,
            TaskRuntimeState { consecutive_restarts: next, last_restart: Some(now), ..self },
        )
    }

    /// The reaction to the task's process exiting with `exit_code`, and the
    /// state that follows.
    pub open spec fn exit_outcome(self, exit_code: Option<i32>, auto_restart: bool, now: i64) -> (
        ExitAction,
        Self,
    ) {
        if self.spec_is_stopping_or_stopped() || !is_failure_exit(exit_code) {
            (ExitAction::Intentional, self.stopped(exit_code))
        } else if !auto_restart || self.spec_restart_cap_reached() {
            (ExitAction::CrashedNoRestart, self.crashed(exit_code))
        } else {
            let (delay, after) = self.restart_attempt(now);
            (ExitAction::Restart(delay), after.crashed(exit_code))
        }
    }

    /// A state with nothing recorded yet.
    pub fn new() -> (s: Self)
        ensures
            s == Self::spec_default(),
    {
        TaskRuntimeState {
            status: TaskStatus::Stopped,
            pid: None,
            started_at: None,
            exit_code: None,
            consecutive_restarts: 0,
            last_restart: None,
        }
    }

    pub fn mark_starting(&mut self)
        ensures
            *final(self) == old(self).starting(),
    {
        self.status = TaskStatus::Starting;
        self.pid = None;
        self.started_at = None;
        self.exit_code = None;
    }

    /// Marks the task Running as process `pid`, started at `now`.
    pub fn mark_running_at(&mut self, pid: u32, now: i64)
        ensures
            *final(self) == old(self).running(pid, now),
    {
        self.status = TaskStatus::Running;
        self.pid = Some(pid);
        self.started_at = Some(now);
        self.exit_code = None;
    }

    /// Marks the task Running as process `pid`, started now.
    pub fn mark_running(&mut self, pid: u32)
        ensures
            exists|now: i64| *final(self) == old(self).running(pid, now),
    {
        let now = now_millis();
        self.mark_running_at(pid, now);
    }

    pub fn mark_stopping(&mut self)
        ensures
            *final(self) == old(self).stopping(),
    {
        self.status = TaskStatus::Stopping;
    }

    pub fn mark_stopped(&mut self, exit_code: Option<i32>)
        ensures
            *final(self) == old(self).stopped(exit_code),
    {
        self.status = TaskStatus::Stopped;
        self.pid = None;
        self.exit_code = exit_code;
    }

    pub fn mark_crashed(&mut self, exit_code: Option<i32>)
        ensures
            *final(self) == old(self).crashed(exit_code),
    {
        self.status = TaskStatus::Crashed;
        self.pid = None;
        self.exit_code = exit_code;
    }

    pub fn is_running(&self) -> (r: bool)
        ensures
            r == self.spec_is_running(),
    {
        match self.status {
            TaskStatus::Running | TaskStatus::Starting => true,
            _ => false,
        }
    }

    /// Atomically claim the Starting state if the task is not already running.
    /// Returns true if the transition was made (the caller proceeds to spawn),
    /// false if the task was already Starting/Running (the caller aborts).
    pub fn mark_starting_if_stopped(&mut self) -> (claimed: bool)
        ensures
            (claimed, *final(self)) == old(self).claim_start(),
    {
        if self.is_running() {
            return false;
        }
        self.mark_starting();
        true
    }

    /// True if the task is being deliberately stopped, so an exiting process
    /// must be treated as intentional rather than a crash.
    pub fn is_stopping_or_stopped(&self) -> (r: bool)
        ensures
            r == self.spec_is_stopping_or_stopped(),
    {
        match self.status {
            TaskStatus::Stopping | TaskStatus::Stopped => true,
            _ => false,
        }
    }

    /// True once consecutive rapid restarts have hit the cap.
    pub fn restart_cap_reached(&self) -> (r: bool)
        ensures
            r == self.spec_restart_cap_reached(),
    {
        self.consecutive_restarts >= MAX_CONSECUTIVE_RESTARTS
    }

    /// Record a crash-driven restart attempt at `now`. If the previous run
    /// survived at least RESTART_RESET_AFTER_SECS the counter resets first.
    /// Returns the backoff delay (seconds) to wait before restarting.
    pub fn register_restart_attempt_at(&mut self, now: i64) -> (delay: u64)
        ensures
            (delay, *final(self)) == old(self).restart_attempt(now),
    {
        let survived = match self.started_at {
            Some(s) => (now as i128) - (s as i128) >= (RESTART_RESET_AFTER_SECS as i128) * 1000,
            None => false,
        };
        if survived {
            self.consecutive_restarts = 0;
        }
        let k = self.consecutive_restarts;
        let delay = restart_delay(k);
        self.consecutive_restarts = self.consecutive_restarts.saturating_add(1);
        self.last_restart = Some(now);
        delay
    }

    /// Record a crash-driven restart attempt now; see `register_restart_attempt_at`.
    pub fn register_restart_attempt(&mut self) -> (delay: u64)
        ensures
            exists|now: i64| (delay, *final(self)) == old(self).restart_attempt(now),
    {
        let now = now_millis();
        self.register_restart_attempt_at(now)
    }

    /// Decide how to react to the task's process exiting with `exit_code`,
    /// at `now`: a deliberate stop or a clean exit is intentional; a failure
    /// restarts only when auto-restart is on and the retry cap is not reached.
    pub fn record_exit_at(&mut self, exit_code: Option<i32>, auto_restart: bool, now: i64) -> (action: ExitAction)
        ensures
            (action, *final(self)) == old(self).exit_outcome(exit_code, auto_restart, now),
    {
        let nonzero_exit = match exit_code {
            Some(c) => c != 0,
            None => true,
        };
        if self.is_stopping_or_stopped() {
            self.mark_stopped(exit_code);
            ExitAction::Intentional
        } else if !nonzero_exit {
            self.mark_stopped(exit_code);
            ExitAction::Intentional
        } else if !auto_restart {
            self.mark_crashed(exit_code);
            ExitAction::CrashedNoRestart
        } else if self.restart_cap_reached() {
            self.mark_crashed(exit_code);
            ExitAction::CrashedNoRestart
        } else {
            let delay = self.register_restart_attempt_at(now);
            self.mark_crashed(exit_code);
            ExitAction::Restart(delay)
        }
    }

    /// Restores the state of a task found at daemon start with the pids in
    /// `alive` still running and its own: Running as the first of them
    /// (started at `now`), or Crashed when none survived. Returns the pid
    /// the task is now tracked by.
    pub fn recover_at(&mut self, alive: &Vec<u32>, now: i64) -> (pid: Option<u32>)
        ensures
            alive@.len() > 0 ==> pid == Some(alive@[0]) && *final(self) == old(self).running(alive@[0], now),
            alive@.len() == 0 ==> pid is None && *final(self) == old(self).crashed(None),
    {
        if alive.len() > 0 {
            let pid = alive[0];
            self.mark_running_at(pid, now);
            Some(pid)
        } else {
            self.mark_crashed(None);
            None
        }
    }

    /// `record_exit_at` at the current time.
    pub fn record_exit(&mut self, exit_code: Option<i32>, auto_restart: bool) -> (action: ExitAction)
        ensures
            exists|now: i64| (action, *final(self)) == old(self).exit_outcome(exit_code, auto_restart, now),
    {
        let now = now_millis();
        self.record_exit_at(exit_code, auto_restart, now)
    }
}

impl Default for TaskRuntimeState {
    fn default() -> (s: Self)
        ensures
            s == Self::spec_default(),
    {
        TaskRuntimeState::new()
    }
}

/// The backoff delay after `k` consecutive restarts, computed as
/// `BASE.saturating_mul(1 << min(k, 63)).min(MAX)`.
fn restart_delay(k: u32) -> (d: u64)
    ensures
        d == backoff_secs(k as nat),
{
    let m: u64 = if k < 63 {
        k as u64
    } else {
        63
    };
    proof {
        vstd::bits::lemma_u64_pow2_no_overflow(m as nat);
        vstd::bits::lemma_u64_shl_is_mul(1, m);
    }
    let factor: u64 = 1u64 << m;
    let raw: u64 = match BASE_RESTART_DELAY_SECS.checked_mul(factor) {
        Some(v) => v,
        None => u64::MAX,
    };
    let d = if raw < MAX_RESTART_DELAY_SECS {
        raw
    } else {
        MAX_RESTART_DELAY_SECS
    };
    proof {
        lemma_pow2_pos(k as nat);
        vstd::arithmetic::power2::lemma2_to64();
        assert(factor == pow2(m as nat));
        if k >= 5 {
            if k > 5 {
                lemma_pow2_strictly_increases(5, k as nat);
            }
            if m > 5 {
                lemma_pow2_strictly_increases(5, m as nat);
            }
            assert(pow2(m as nat) >= 32);
            assert(raw >= 60);
        } else {
            assert(m == k);
        }
    }
    d
}

/// Consecutive restart attempts at the same instant `now`, `n` of them,
/// with the delays they return in order.
pub open spec fn repeated_attempts(s: TaskRuntimeState, n: nat, now: i64) -> (Seq<u64>, TaskRuntimeState)
    decreases n,
{
    if n == 0 {
        (Seq::empty(), s)
    } else {
        let (delays, before) = repeated_attempts(s, (n - 1) as nat, now);
        let (d, after) = before.restart_attempt(now);
        (delays.push(d), after)
    }
}

/// A start claimed while another is in flight is refused: after any claim the
/// task counts as running, so a second claim fails and changes nothing.
pub proof fn lemma_second_claim_fails(s: TaskRuntimeState)
    ensures
        s.claim_start().1.spec_is_running(),
        !s.claim_start().1.claim_start().0,
        s.claim_start().1.claim_start().1 == s.claim_start().1,
        s.claim_start().0 == !s.spec_is_running(),
{
}

/// The backoff starts at the base delay, never exceeds the cap, and never
/// shrinks as the consecutive-restart counter grows.
pub proof fn lemma_backoff_bounded_and_monotone(k: nat)
    ensures
        BASE_RESTART_DELAY_SECS <= backoff_secs(k) <= MAX_RESTART_DELAY_SECS,
        backoff_secs(k) <= backoff_secs(k + 1),
        backoff_secs(0) == BASE_RESTART_DELAY_SECS,
{
    lemma_pow2_pos(k);
    vstd::arithmetic::power2::lemma2_to64();
    lemma_pow2_strictly_increases(k, k + 1);
    if k > 0 {
        lemma_pow2_strictly_increases(0, k);
    }
}

/// Without a run that survived long enough, each attempt returns the backoff
/// for the attempts already counted and advances the counter by one.
pub proof fn lemma_repeated_attempts(s: TaskRuntimeState, n: nat, now: i64)
    requires
        s.started_at is None,
        s.consecutive_restarts + n <= u32::MAX,
    ensures
        repeated_attempts(s, n, now).0.len() == n,
        forall|i: int| 0 <= i < n ==> repeated_attempts(s, n, now).0[i] == backoff_secs(
            (s.consecutive_restarts + i) as nat,
        ),
        repeated_attempts(s, n, now).1.consecutive_restarts == s.consecutive_restarts + n,
        repeated_attempts(s, n, now).1.started_at is None,
    decreases n,
{
    if n > 0 {
        lemma_repeated_attempts(s, (n - 1) as nat, now);
    }
}

/// From a fresh state the delays double from three seconds (3, 6, 12, 24, 48)
/// and after MAX_CONSECUTIVE_RESTARTS attempts the retry cap is reached.
pub proof fn lemma_backoff_sequence_reaches_cap(now: i64)
    ensures
        repeated_attempts(TaskRuntimeState::spec_default(), MAX_CONSECUTIVE_RESTARTS as nat, now).0
            =~= seq![3u64, 6, 12, 24, 48],
        repeated_attempts(TaskRuntimeState::spec_default(), MAX_CONSECUTIVE_RESTARTS as nat, now).1.spec_restart_cap_reached(),
        !repeated_attempts(TaskRuntimeState::spec_default(), (MAX_CONSECUTIVE_RESTARTS - 1) as nat, now).1.spec_restart_cap_reached(),
{
    let s = TaskRuntimeState::spec_default();
    lemma_repeated_attempts(s, 5, now);
    lemma_repeated_attempts(s, 4, now);
    vstd::arithmetic::power2::lemma2_to64();
}

/// A run that survived at least RESTART_RESET_AFTER_SECS resets the counter:
/// the next attempt waits the base delay and leaves the counter at one.
pub proof fn lemma_long_survival_resets_backoff(s: TaskRuntimeState, now: i64)
    requires
        survived_long_enough(s.started_at, now),
    ensures
        s.restart_attempt(now).0 == BASE_RESTART_DELAY_SECS,
        s.restart_attempt(now).1.consecutive_restarts == 1,
{
    vstd::arithmetic::power2::lemma2_to64();
}

/// A deliberate stop is never taken for a crash: whatever the exit code and
/// the auto-restart setting, the exit is intentional and the task ends Stopped.
pub proof fn lemma_deliberate_stop_never_restarts(
    s: TaskRuntimeState,
    exit_code: Option<i32>,
    auto_restart: bool,
    now: i64,
)
    requires
        s.spec_is_stopping_or_stopped(),
    ensures
        s.exit_outcome(exit_code, auto_restart, now).0 == ExitAction::Intentional,
        s.exit_outcome(exit_code, auto_restart, now).1.status == TaskStatus::Stopped,
{
}

/// A restart is queued only for a failed exit of a task that is not being
/// stopped, has auto-restart on, and is under the retry cap; its delay lies
/// between the base delay and the cap.
pub proof fn lemma_restart_only_when_allowed(
    s: TaskRuntimeState,
    exit_code: Option<i32>,
    auto_restart: bool,
    now: i64,
)
    ensures
        s.exit_outcome(exit_code, auto_restart, now).0 matches ExitAction::Restart(d) ==> {
            &&& auto_restart
            &&& is_failure_exit(exit_code)
            &&& !s.spec_is_stopping_or_stopped()
            &&& !s.spec_restart_cap_reached()
            &&& BASE_RESTART_DELAY_SECS <= d <= MAX_RESTART_DELAY_SECS
        },
{
    let k = if survived_long_enough(s.started_at, now) {
        0u32
    } else {
        s.consecutive_restarts
    };
    lemma_backoff_bounded_and_monotone(k as nat);
}

/// Whatever the reaction, once the process has exited the task holds no pid
/// and no longer counts as running, and it records the exit code.
pub proof fn lemma_exit_releases_process(
    s: TaskRuntimeState,
    exit_code: Option<i32>,
    auto_restart: bool,
    now: i64,
)
    ensures
        s.exit_outcome(exit_code, auto_restart, now).1.pid is None,
        !s.exit_outcome(exit_code, auto_restart, now).1.spec_is_running(),
        s.exit_outcome(exit_code, auto_restart, now).1.exit_code == exit_code,
{
}

/// Stopping a task takes it out of the running count at once, before its
/// process has exited.
pub proof fn lemma_stopping_is_not_running(s: TaskRuntimeState)
    ensures
        !s.stopping().spec_is_running(),
        s.stopping().spec_is_stopping_or_stopped(),
{
}


/// The process a state records agrees with its status: a Running task has a
/// pid, and a task that is Starting, Stopped or Crashed has none.
pub open spec fn pid_consistent(s: TaskRuntimeState) -> bool {
    &&& s.status == TaskStatus::Running ==> s.pid is Some
    &&& (s.status == TaskStatus::Starting || s.status == TaskStatus::Stopped || s.status
        == TaskStatus::Crashed) ==> s.pid is None
}

/// Every transition keeps the recorded process in agreement with the
/// status: it holds of a fresh state and after each of them.
pub proof fn lemma_transitions_keep_pid_consistent(
    s: TaskRuntimeState,
    pid: u32,
    now: i64,
    exit_code: Option<i32>,
    auto_restart: bool,
)
    requires
        pid_consistent(s),
    ensures
        pid_consistent(TaskRuntimeState::spec_default()),
        pid_consistent(s.starting()),
        pid_consistent(s.running(pid, now)),
        pid_consistent(s.stopping()),
        pid_consistent(s.stopped(exit_code)),
        pid_consistent(s.crashed(exit_code)),
        pid_consistent(s.claim_start().1),
        pid_consistent(s.restart_attempt(now).1),
        pid_consistent(s.exit_outcome(exit_code, auto_restart, now).1),
{
}

/// A failed exit (a non-zero exit code, or none at all, as when a signal
/// killed the process) of a task that is not being stopped, has auto-restart
/// on and is under the retry cap is always answered with a restart: after
/// the backoff delay, between the base delay and the cap, with the task
/// marked crashed and its exit code kept; a first restart waits the base
/// delay and counts one attempt.
pub proof fn lemma_failed_exit_restarts_when_allowed(s: TaskRuntimeState, exit_code: Option<i32>, now: i64)
    requires
        exit_code matches Some(c) ==> c != 0,
        s.status != TaskStatus::Stopping,
        s.status != TaskStatus::Stopped,
        s.consecutive_restarts < MAX_CONSECUTIVE_RESTARTS,
    ensures
        s.exit_outcome(exit_code, true, now).0 matches ExitAction::Restart(d) && BASE_RESTART_DELAY_SECS
            <= d <= MAX_RESTART_DELAY_SECS,
        s.exit_outcome(exit_code, true, now).1.status == TaskStatus::Crashed,
        s.exit_outcome(exit_code, true, now).1.pid is None,
        s.exit_outcome(exit_code, true, now).1.exit_code == exit_code,
        s.consecutive_restarts == 0 ==> s.exit_outcome(exit_code, true, now).0 == ExitAction::Restart(
            BASE_RESTART_DELAY_SECS,
        ) && s.exit_outcome(exit_code, true, now).1.consecutive_restarts == 1,
{
    let k = if survived_long_enough(s.started_at, now) {
        0u32
    } else {
        s.consecutive_restarts
    };
    lemma_backoff_bounded_and_monotone(k as nat);
    if s.consecutive_restarts == 0 {
        lemma_backoff_bounded_and_monotone(0);
        vstd::arithmetic::power2::lemma2_to64();
    }
}

} // verus!
