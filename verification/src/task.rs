//! Tasks: their identity, configuration, validation and lifecycle status,
//! and the statistics shown to the user.

use std::collections::HashMap;
use vstd::prelude::*;
use vstd::arithmetic::power2::pow2;
use crate::text::{all_ws, is_blank};

verus! {

/// The lower-case hexadecimal digit for `n` in `0..16`.
pub open spec fn hex_digit(n: int) -> char {
    if n < 10 {
        (('0' as int) + n) as char
    } else {
        (('a' as int) + n - 10) as char
    }
}

/// The `j`-th hexadecimal digit (from the most significant) of a 128-bit value.
pub open spec fn nibble(v: u128, j: int) -> int {
    ((v as int) / (pow2((4 * (31 - j)) as nat) as int)) % 16
}

/// A 128-bit value as 32 lower-case hexadecimal digits, most significant first
/// (the "simple" UUID format).
pub open spec fn uuid_simple_text(v: u128) -> Seq<char> {
    Seq::new(32, |j: int| hex_digit(nibble(v, j)))
}

/// A 128-bit value in the hyphenated UUID format, 8-4-4-4-12 lower-case
/// hexadecimal digits.
pub open spec fn uuid_hyphenated_text(v: u128) -> Seq<char> {
    let s = uuid_simple_text(v);
    s.subrange(0, 8) + seq!['-'] + s.subrange(8, 12) + seq!['-'] + s.subrange(12, 16) + seq!['-']
        + s.subrange(16, 20) + seq!['-'] + s.subrange(20, 32)
}

/// Whether a 128-bit value carries the bits of a version-4 UUID: version
/// nibble 4 and variant bits `10`.
pub open spec fn is_v4_uuid(v: u128) -> bool {
    v & 0xF000_C000_0000_0000_0000 == 0x4000_8000_0000_0000_0000
}

/// A random version-4 UUID as its 128-bit value.
///
/// Calls `uuid::Uuid::new_v4` and `Uuid::as_u128`. The value is random; the
/// source sets the version nibble to 4 and the variant bits to `10`, which is
/// all that is stated.
#[verifier::external_body]
fn random_uuid() -> (v: u128)
    ensures
        v & 0xF000_C000_0000_0000_0000 == 0x4000_8000_0000_0000_0000,
{
    uuid::Uuid::new_v4().as_u128()
}

/// The hyphenated lower-case text of a UUID.
///
/// Calls `uuid::Uuid::from_u128` and its `Display` (`to_string`), which the
/// source writes as the 8-4-4-4-12 lower-case hexadecimal digits of the
/// value, most significant first.
#[verifier::external_body]
fn uuid_text(v: u128) -> (s: String)
    ensures
        s@ == uuid_hyphenated_text(v),
{
    uuid::Uuid::from_u128(v).to_string()
}

/// The simple (unhyphenated) lower-case text of a UUID.
///
/// Calls `uuid::Uuid::from_u128`, `Uuid::simple` and its `Display`, which the
/// source writes as the 32 lower-case hexadecimal digits of the value.
#[verifier::external_body]
pub(crate) fn uuid_simple(v: u128) -> (s: String)
    ensures
        s@ == uuid_simple_text(v),
{
    uuid::Uuid::from_u128(v).simple().to_string()
}

/// What `uuid::Uuid::parse_str` reads from a text, as a 128-bit value
/// (`None` when it refuses the text).
pub uninterp spec fn uuid_parsed(s: Seq<char>) -> Option<u128>;

/// Reads a UUID written in any of the formats the `uuid` crate writes.
///
/// Calls `uuid::Uuid::parse_str` and `Uuid::as_u128`. The answer is a
/// function of the text, named `uuid_parsed`; as the crate documents, the
/// simple and hyphenated texts it writes for a value parse back to it.
#[verifier::external_body]
fn uuid_parse(s: &str) -> (r: Option<u128>)
    ensures
        r == uuid_parsed(s@),
        forall|v: u128| s@ == uuid_hyphenated_text(v) ==> r == Some(v),
        forall|v: u128| s@ == uuid_simple_text(v) ==> r == Some(v),
{
    match uuid::Uuid::parse_str(s) {
        Ok(u) => Some(u.as_u128()),
        Err(_) => None,
    }
}

/// A fresh random version-4 UUID, as its 128-bit value.
pub fn new_uuid() -> (v: u128)
    ensures
        v != 0,
        v & 0xF000_C000_0000_0000_0000 == 0x4000_8000_0000_0000_0000,
{
    let v = random_uuid();
    assert(v & 0xF000_C000_0000_0000_0000 == 0x4000_8000_0000_0000_0000 ==> v != 0) by (bit_vector);
    v
}

/// Unique identifier for a task: a UUID, held as its 128-bit value.
#[derive(Debug, Clone, Copy, PartialEq, Eq, Hash, Structural)]
pub struct TaskId(pub u128);

impl TaskId {
    /// A fresh random (version 4) identifier.
    pub fn new() -> (id: Self)
        ensures
            id.0 != 0,
            id.0 & 0xF000_C000_0000_0000_0000 == 0x4000_8000_0000_0000_0000,
    {
        TaskId(new_uuid())
    }

    /// Reads an identifier from its text (hyphenated, simple, URN or braced
    /// UUID); `None` when the text is not a UUID.
    pub fn parse(text: &str) -> (r: Option<TaskId>)
        ensures
            match r {
                Some(id) => uuid_parsed(text@) == Some(id.0),
                None => uuid_parsed(text@) is None,
            },
            forall|v: u128| text@ == uuid_hyphenated_text(v) ==> r == Some(TaskId(v)),
    {
        match uuid_parse(text) {
            Some(v) => Some(TaskId(v)),
            None => None,
        }
    }

    /// The identifier in the hyphenated UUID format, as it is displayed.
    pub fn to_text(&self) -> (s: String)
        ensures
            s@ == uuid_hyphenated_text(self.0),
    {
        uuid_text(self.0)
    }
}

impl Default for TaskId {
    fn default() -> (id: Self)
        ensures
            id.0 != 0,
    {
        TaskId::new()
    }
}

/// The hyphenated UUID text is 36 characters with a hyphen at positions 8,
/// 13, 18 and 23 and hexadecimal digits everywhere else.
pub proof fn lemma_uuid_text_shape(v: u128)
    ensures
        uuid_hyphenated_text(v).len() == 36,
        uuid_hyphenated_text(v)[8] == '-',
        uuid_hyphenated_text(v)[13] == '-',
        uuid_hyphenated_text(v)[18] == '-',
        uuid_hyphenated_text(v)[23] == '-',
        uuid_simple_text(v).len() == 32,
{
}

/// Current lifecycle state of a managed task.
#[derive(Debug, Clone, Copy, PartialEq, Eq, Structural)]
pub enum TaskStatus {
    Stopped,
    Starting,
    Running,
    Stopping,
    Crashed,
}

impl TaskStatus {
    /// A task counts as running from the moment a start is claimed.
    pub open spec fn spec_is_active(self) -> bool {
        self == TaskStatus::Running || self == TaskStatus::Starting
    }
}

impl Default for TaskStatus {
    fn default() -> (s: Self)
        ensures
            s == TaskStatus::Stopped,
    {
        TaskStatus::Stopped
    }
}

/// Optional cron-based schedule for a task.
#[derive(Debug, Clone)]
pub struct Schedule {
    pub cron: String,
}

/// Core task entity.
#[derive(Debug, Clone)]
pub struct Task {
    pub id: TaskId,
    pub description: String,
    pub executable: String,
    pub arguments: Vec<String>,
    pub working_directory: Option<String>,
    pub environment: HashMap<String, String>,
    pub run_as_admin: bool,
    pub auto_restart: bool,
    pub schedule: Option<Schedule>,
    pub startup_delay_ms: u64,
    pub depends_on: Vec<TaskId>,
    pub runner_prefix: Option<String>,
    pub pids: Vec<u32>,
}

/// Full task configuration as persisted in the task file.
#[derive(Debug, Clone)]
pub struct TaskConfig {
    pub id: TaskId,
    pub description: String,
    pub executable: String,
    pub arguments: Vec<String>,
    pub working_directory: Option<String>,
    pub environment: HashMap<String, String>,
    pub run_as_admin: bool,
    pub auto_restart: bool,
    pub schedule: Option<Schedule>,
    pub startup_delay_ms: u64,
    pub depends_on: Vec<TaskId>,
    pub runner_prefix: Option<String>,
    pub pids: Vec<u32>,
}

/// Payload for creating or updating a task.
#[derive(Debug, Clone)]
pub struct TaskRequest {
    pub description: String,
    pub executable: String,
    pub arguments: Vec<String>,
    pub working_directory: Option<String>,
    pub environment: HashMap<String, String>,
    pub run_as_admin: bool,
    pub auto_restart: bool,
    pub schedule: Option<Schedule>,
    pub startup_delay_ms: u64,
    pub depends_on: Vec<TaskId>,
    pub runner_prefix: Option<String>,
    pub pids: Vec<u32>,
}

/// Why a task configuration was refused.
#[derive(Debug, Clone, Copy, PartialEq, Eq, Structural)]
pub enum TaskValidationError {
    EmptyDescription,
    EmptyExecutable,
}

impl TaskValidationError {
    /// The message shown to the user.
    pub fn message(&self) -> (s: &'static str)
        ensures
            *self == TaskValidationError::EmptyDescription ==> s@ == "Task description must not be empty"@,
            *self == TaskValidationError::EmptyExecutable ==> s@ == "Executable path must not be empty"@,
    {
        match self {
            TaskValidationError::EmptyDescription => "Task description must not be empty",
            TaskValidationError::EmptyExecutable => "Executable path must not be empty",
        }
    }
}

/// The outcome of validating a task with this description and executable:
/// the description is checked first, then the executable.
pub open spec fn validation(description: Seq<char>, executable: Seq<char>) -> Result<(), TaskValidationError> {
    if all_ws(description) {
        Err(TaskValidationError::EmptyDescription)
    } else if all_ws(executable) {
        Err(TaskValidationError::EmptyExecutable)
    } else {
        Ok(())
    }
}

/// The task a create request describes, under identifier `id`.
pub open spec fn request_task(id: TaskId, req: TaskRequest) -> Task {
    Task {
        id,
        description: req.description,
        executable: req.executable,
        arguments: req.arguments,
        working_directory: req.working_directory,
        environment: req.environment,
        run_as_admin: req.run_as_admin,
        auto_restart: req.auto_restart,
        schedule: req.schedule,
        startup_delay_ms: req.startup_delay_ms,
        depends_on: req.depends_on,
        runner_prefix: req.runner_prefix,
        pids: req.pids,
    }
}

/// The task `existing` with everything but its identifier and pids taken from `req`.
pub open spec fn edited_task(existing: Task, req: TaskRequest) -> Task {
    Task { id: existing.id, pids: existing.pids, ..request_task(existing.id, req) }
}

/// `t` itself if it validates, else the validation error.
pub open spec fn validated(t: Task) -> Result<Task, TaskValidationError> {
    match validation(t.description@, t.executable@) {
        Ok(_) => Ok(t),
        Err(e) => Err(e),
    }
}

/// The persisted form of a task.
pub open spec fn config_of(task: Task) -> TaskConfig {
    TaskConfig {
        id: task.id,
        description: task.description,
        executable: task.executable,
        arguments: task.arguments,
        working_directory: task.working_directory,
        environment: task.environment,
        run_as_admin: task.run_as_admin,
        auto_restart: task.auto_restart,
        schedule: task.schedule,
        startup_delay_ms: task.startup_delay_ms,
        depends_on: task.depends_on,
        runner_prefix: task.runner_prefix,
        pids: task.pids,
    }
}

/// The task a persisted configuration describes.
pub open spec fn task_of(config: TaskConfig) -> Task {
    Task {
        id: config.id,
        description: config.description,
        executable: config.executable,
        arguments: config.arguments,
        working_directory: config.working_directory,
        environment: config.environment,
        run_as_admin: config.run_as_admin,
        auto_restart: config.auto_restart,
        schedule: config.schedule,
        startup_delay_ms: config.startup_delay_ms,
        depends_on: config.depends_on,
        runner_prefix: config.runner_prefix,
        pids: config.pids,
    }
}

impl Task {
    /// Validate the task configuration before persisting or spawning: neither
    /// the description nor the executable may be empty once trimmed.
    pub fn validate(&self) -> (r: Result<(), TaskValidationError>)
        ensures
            r == validation(self.description@, self.executable@),
    {
        if is_blank(self.description.as_str()) {
            return Err(TaskValidationError::EmptyDescription);
        }
        if is_blank(self.executable.as_str()) {
            return Err(TaskValidationError::EmptyExecutable);
        }
        Ok(())
    }

    /// A new task with identifier `id` built from a create request, validated.
    pub fn from_request(id: TaskId, req: TaskRequest) -> (r: Result<Task, TaskValidationError>)
        ensures
            r == validated(request_task(id, req)),
    {
        let task = Task {
            id,
            description: req.description,
            executable: req.executable,
            arguments: req.arguments,
            working_directory: req.working_directory,
            environment: req.environment,
            run_as_admin: req.run_as_admin,
            auto_restart: req.auto_restart,
            schedule: req.schedule,
            startup_delay_ms: req.startup_delay_ms,
            depends_on: req.depends_on,
            runner_prefix: req.runner_prefix,
            pids: req.pids,
        };
        match task.validate() {
            Ok(()) => Ok(task),
            Err(e) => Err(e),
        }
    }

    /// The task `existing` edited by `req`: everything is replaced except the
    /// identifier and the recorded pids, which are kept; the result is validated.
    pub fn edited(existing: Task, req: TaskRequest) -> (r: Result<Task, TaskValidationError>)
        ensures
            r == validated(edited_task(existing, req)),
    {
        let updated = Task {
            id: existing.id,
            description: req.description,
            executable: req.executable,
            arguments: req.arguments,
            working_directory: req.working_directory,
            environment: req.environment,
            run_as_admin: req.run_as_admin,
            auto_restart: req.auto_restart,
            schedule: req.schedule,
            startup_delay_ms: req.startup_delay_ms,
            depends_on: req.depends_on,
            runner_prefix: req.runner_prefix,
            pids: existing.pids,
        };
        match updated.validate() {
            Ok(()) => Ok(updated),
            Err(e) => Err(e),
        }
    }
}

/// Convert a domain task into its persisted configuration.
pub fn task_to_config(task: Task) -> (c: TaskConfig)
    ensures
        c == config_of(task),
{
    TaskConfig {
        id: task.id,
        description: task.description,
        executable: task.executable,
        arguments: task.arguments,
        working_directory: task.working_directory,
        environment: task.environment,
        run_as_admin: task.run_as_admin,
        auto_restart: task.auto_restart,
        schedule: task.schedule,
        startup_delay_ms: task.startup_delay_ms,
        depends_on: task.depends_on,
        runner_prefix: task.runner_prefix,
        pids: task.pids,
    }
}

/// Convert a persisted configuration into a domain task.
pub fn config_to_task(config: TaskConfig) -> (t: Task)
    ensures
        t == task_of(config),
{
    Task {
        id: config.id,
        description: config.description,
        executable: config.executable,
        arguments: config.arguments,
        working_directory: config.working_directory,
        environment: config.environment,
        run_as_admin: config.run_as_admin,
        auto_restart: config.auto_restart,
        schedule: config.schedule,
        startup_delay_ms: config.startup_delay_ms,
        depends_on: config.depends_on,
        runner_prefix: config.runner_prefix,
        pids: config.pids,
    }
}

/// Converting a task to its configuration and back gives the same task, and
/// a configuration to a task and back gives the same configuration.
pub proof fn lemma_config_round_trip(task: Task, config: TaskConfig)
    ensures
        task_of(config_of(task)) == task,
        config_of(task_of(config)) == config,
{
}

/// Summary counts shown in the top statistics bar.
#[derive(Debug, Clone, Copy, PartialEq, Eq, Structural)]
pub struct TaskStats {
    pub total: usize,
    pub running: usize,
    pub stopped: usize,
    pub crashed: usize,
}

/// How many of the known states count as running.
pub open spec fn count_running(states: Seq<Option<TaskStatus>>) -> nat
    decreases states.len(),
{
    if states.len() == 0 {
        0
    } else {
        count_running(states.drop_last()) + if states.last() matches Some(s) && s.spec_is_active() {
            1nat
        } else {
            0nat
        }
    }
}

/// How many of the known states are Crashed.
pub open spec fn count_crashed(states: Seq<Option<TaskStatus>>) -> nat
    decreases states.len(),
{
    if states.len() == 0 {
        0
    } else {
        count_crashed(states.drop_last()) + if states.last() == Some(TaskStatus::Crashed) {
            1nat
        } else {
            0nat
        }
    }
}

proof fn lemma_counts_bounded(states: Seq<Option<TaskStatus>>)
    ensures
        count_running(states) + count_crashed(states) <= states.len(),
    decreases states.len(),
{
    if states.len() > 0 {
        lemma_counts_bounded(states.drop_last());
    }
}

/// The statistics for a list of tasks, given each task's runtime status
/// (`None` for a task that has none yet): running counts Starting and
/// Running, crashed counts Crashed, and everything else is stopped.
pub fn compute_stats(states: &Vec<Option<TaskStatus>>) -> (r: TaskStats)
    ensures
        r.total == states@.len(),
        r.running == count_running(states@),
        r.crashed == count_crashed(states@),
        r.stopped == r.total - r.running - r.crashed,
{
    let n = states.len();
    let mut running: usize = 0;
    let mut crashed: usize = 0;
    let mut i: usize = 0;
    while i < n
        invariant
            n == states@.len(),
            i <= n,
            running == count_running(states@.take(i as int)),
            crashed == count_crashed(states@.take(i as int)),
            running + crashed <= i,
        decreases n - i,
    {
        proof {
            assert(states@.take(i as int + 1).drop_last() =~= states@.take(i as int));
            lemma_counts_bounded(states@.take(i as int + 1));
        }
        match states[i] {
            Some(TaskStatus::Running) | Some(TaskStatus::Starting) => {
                running = running + 1;
            },
            Some(TaskStatus::Crashed) => {
                crashed = crashed + 1;
            },
            _ => {},
        }
        i = i + 1;
    }
    proof {
        assert(states@.take(n as int) =~= states@);
    }
    TaskStats { total: n, running, stopped: n - running - crashed, crashed }
}

/// The statistics always add up: every task is counted exactly once as
/// running, stopped or crashed.
pub proof fn lemma_stats_partition(states: Seq<Option<TaskStatus>>)
    ensures
        count_running(states) + count_crashed(states) <= states.len(),
{
    lemma_counts_bounded(states);
}

/// An edit replaces every user-editable field with the request's and keeps
/// only the task's identifier and recorded pids; it succeeds exactly when the
/// request's description and executable validate.
pub proof fn lemma_edit_takes_request_fields(existing: Task, req: TaskRequest)
    ensures
        validated(edited_task(existing, req)) is Ok <==> validation(req.description@, req.executable@) is Ok,
        validated(edited_task(existing, req)) matches Ok(t) ==> {
            &&& t.id == existing.id
            &&& t.pids == existing.pids
            &&& t.description == req.description
            &&& t.executable == req.executable
            &&& t.arguments == req.arguments
            &&& t.working_directory == req.working_directory
            &&& t.environment == req.environment
            &&& t.run_as_admin == req.run_as_admin
            &&& t.auto_restart == req.auto_restart
            &&& t.schedule == req.schedule
            &&& t.startup_delay_ms == req.startup_delay_ms
            &&& t.depends_on == req.depends_on
            &&& t.runner_prefix == req.runner_prefix
        },
{
}

/// A new task is the request as given, under the new identifier; it is
/// created exactly when the request's description and executable validate.
pub proof fn lemma_create_takes_request_fields(id: TaskId, req: TaskRequest)
    ensures
        validated(request_task(id, req)) is Ok <==> validation(req.description@, req.executable@) is Ok,
        validated(request_task(id, req)) matches Ok(t) ==> {
            &&& t.id == id
            &&& t.pids == req.pids
            &&& t.description == req.description
            &&& t.executable == req.executable
            &&& t.arguments == req.arguments
            &&& t.working_directory == req.working_directory
            &&& t.environment == req.environment
            &&& t.run_as_admin == req.run_as_admin
            &&& t.auto_restart == req.auto_restart
            &&& t.schedule == req.schedule
            &&& t.startup_delay_ms == req.startup_delay_ms
            &&& t.depends_on == req.depends_on
            &&& t.runner_prefix == req.runner_prefix
        },
{
}

} // verus!
