//! Cron schedules of tasks.
//!
//! Both the classic 5-field form (`min hour dom month dow`) and the 6-field
//! form of the `cron` crate (`sec min hour dom month dow`) are accepted: a
//! 5-field expression gets a `0` seconds field in front before it is parsed.
//! The schedule keeps the expression exactly as it was given.

use vstd::prelude::*;
use crate::text::{words, split_whitespace};
use crate::clock::now_millis;
use cron::Schedule as CronSchedule;

verus! {

/// Declares the `cron` crate's parsed schedule.
#[verifier::external_type_specification]
#[verifier::external_body]
pub struct ExCronSchedule(CronSchedule);

/// The expression the `cron` crate is given for `expr`: a 5-field expression
/// gets `"0 "` in front, any other is passed on unchanged.
pub open spec fn normalized_cron(expr: Seq<char>) -> Seq<char> {
    if words(expr).len() == 5 {
        seq!['0', ' '] + expr
    } else {
        expr
    }
}

/// Whether the `cron` crate's grammar accepts `expr` as a schedule.
pub uninterp spec fn cron_accepts(expr: Seq<char>) -> bool;

/// The text of every parse error of the `cron` crate.
pub open spec fn cron_error_text() -> Seq<char> {
    "Invalid expression: Invalid cron expression."@
}

/// Parses a 6-field cron expression.
///
/// Calls `cron::Schedule::from_str`. Whether it succeeds is a function of the
/// text alone, named `cron_accepts`; on failure the crate's error displays as
/// the constant text of `cron_error_text` (its source builds every parse
/// error from that one message).
#[verifier::external_body]
fn cron_parse(expr: &str) -> (r: Result<CronSchedule, String>)
    ensures
        r is Ok <==> cron_accepts(expr@),
        r matches Err(e) ==> e@ == cron_error_text(),
{
    match <CronSchedule as std::str::FromStr>::from_str(expr) {
        Ok(s) => Ok(s),
        Err(e) => Err(e.to_string()),
    }
}

/// 2101-01-01T00:00:00Z in milliseconds since the epoch: the `cron` crate
/// only knows the years 1970 to 2100, so no schedule fires at or after it.
pub const CRON_YEARS_END_MS: i64 = 4133980800000;

/// Brings a 5-field cron expression to the 6-field form by prepending a `0`
/// seconds field; any other field count is returned unchanged.
pub fn normalize_cron(expr: &str) -> (r: String)
    ensures
        r@ == normalized_cron(expr@),
{
    let fields = split_whitespace(expr);
    if fields.len() == 5 {
        let head = "0 ";
        proof {
            reveal_strlit("0 ");
        }
        let r = String::from_str(head).concat(expr);
        assert(r@ =~= seq!['0', ' '] + expr@);
        r
    } else {
        String::from_str(expr)
    }
}

/// A cron expression that did not parse.
#[derive(Debug, Clone)]
pub struct ScheduleError {
    /// The expression as it was given.
    pub expression: String,
    /// What the `cron` crate said of it.
    pub reason: String,
}

/// The message of a schedule error.
pub open spec fn schedule_error_message(expression: Seq<char>, reason: Seq<char>) -> Seq<char> {
    "Invalid cron expression '"@ + expression + "': "@ + reason
}

impl ScheduleError {
    /// The message: `Invalid cron expression '<expression>': <reason>`.
    pub fn message(&self) -> (s: String)
        ensures
            s@ == schedule_error_message(self.expression@, self.reason@),
    {
        let mut s = String::from_str("Invalid cron expression '");
        s.append(self.expression.as_str());
        s.append("': ");
        s.append(self.reason.as_str());
        s
    }
}

/// The `cron` crate's schedule together with the normalised expression it
/// was parsed from. Its fields are private and set together, by
/// `ValidatedSchedule::parse` alone.
#[derive(Debug)]
pub struct CompiledSchedule {
    cron_text: String,
    inner: CronSchedule,
}

/// A compiled schedule is viewed as the normalised expression it was parsed
/// from.
impl View for CompiledSchedule {
    type V = Seq<char>;

    closed spec fn view(&self) -> Seq<char> {
        self.cron_text@
    }
}

/// A cron schedule that parsed.
#[derive(Debug)]
pub struct ValidatedSchedule {
    /// The expression exactly as it was given (before normalisation).
    pub expression: String,
    /// The schedule the `cron` crate parsed from the normalised expression.
    pub compiled: CompiledSchedule,
}

/// The first instant strictly after `after_ms` (milliseconds since the
/// epoch) at which the schedule that the `cron` crate parses from `expr`
/// fires, in milliseconds since the epoch, or `None` if it never does.
pub uninterp spec fn cron_next(expr: Seq<char>, after_ms: i64) -> Option<i64>;

/// The first instant strictly after `after_ms` at which `schedule` fires.
///
/// Calls `after(..).next()` on the `cron` crate's schedule held by
/// `schedule`, with `after_ms` converted by `DateTime::from_timestamp_millis`.
/// The schedule was parsed from `schedule@` (only `ValidatedSchedule::parse`
/// builds one), and
/// the crate's search is a function of the schedule and the instant alone,
/// so the result is `cron_next(schedule@, after_ms)`. Its source also shows
/// that the search starts one second after the given instant and builds each
/// candidate from whole years (1970 to 2100), months, days, hours, minutes
/// and seconds, so an instant it returns lies after `after_ms`, on a whole
/// second, before 2101. The range of `after_ms` keeps the conversion and the
/// crate's one-second step inside `chrono`'s range of dates.
#[verifier::external_body]
fn cron_next_after(schedule: &CompiledSchedule, after_ms: i64) -> (r: Option<i64>)
    requires
        -CRON_YEARS_END_MS <= after_ms < CRON_YEARS_END_MS,
    ensures
        r == cron_next(schedule@, after_ms),
        r matches Some(t) ==> after_ms < t < CRON_YEARS_END_MS && t % 1000 == 0,
{
    match chrono::DateTime::from_timestamp_millis(after_ms) {
        Some(start) => match schedule.inner.after(&start).next() {
            Some(t) => Some(t.timestamp_millis()),
            None => None,
        },
        None => None,
    }
}

/// The next fire time after `after_ms` of the schedule parsed from `expr`:
/// none from 2101 on, the `cron` crate's answer before.
pub open spec fn next_run_at(expr: Seq<char>, after_ms: i64) -> Option<i64> {
    if after_ms >= CRON_YEARS_END_MS {
        None
    } else {
        cron_next(expr, after_ms)
    }
}

impl ValidatedSchedule {
    /// Parses a 5- or 6-field cron expression. It is accepted exactly when
    /// the `cron` crate accepts its normalised form; the schedule keeps the
    /// expression as given, and a refusal names the expression.
    pub fn parse(expr: &str) -> (r: Result<ValidatedSchedule, ScheduleError>)
        ensures
            r is Ok <==> cron_accepts(normalized_cron(expr@)),
            r matches Ok(s) ==> s.expression@ == expr@ && s.compiled@ == normalized_cron(expr@),
            r matches Err(e) ==> e.expression@ == expr@ && e.reason@ == cron_error_text(),
    {
        let normalized = normalize_cron(expr);
        match cron_parse(normalized.as_str()) {
            Ok(inner) => Ok(
                ValidatedSchedule {
                    expression: String::from_str(expr),
                    compiled: CompiledSchedule { cron_text: normalized, inner },
                },
            ),
            Err(reason) => Err(ScheduleError { expression: String::from_str(expr), reason }),
        }
    }

    /// The first instant strictly after `after_ms` at which the schedule
    /// fires, in milliseconds since the epoch: on a whole second and before
    /// 2101, so there is none once `after_ms` is within a second of 2101.
    /// `after_ms` may not lie before 1839, which keeps the search inside
    /// `chrono`'s range of dates.
    pub fn next_run_after(&self, after_ms: i64) -> (r: Option<i64>)
        requires
            after_ms >= -CRON_YEARS_END_MS,
        ensures
            r == next_run_at(self.compiled@, after_ms),
            r matches Some(t) ==> after_ms < t < CRON_YEARS_END_MS && t % 1000 == 0,
            after_ms >= CRON_YEARS_END_MS - 1000 ==> r is None,
    {
        if after_ms >= CRON_YEARS_END_MS {
            None
        } else {
            cron_next_after(&self.compiled, after_ms)
        }
    }

    /// The next instant after now at which the schedule fires, in
    /// milliseconds since the epoch: after the clock reading taken by the
    /// call (never before the epoch), on a whole second, and before 2101.
    pub fn next_run(&self) -> (r: Option<i64>)
        ensures
            exists|now: i64| now >= 0 && r == #[trigger] next_run_at(self.compiled@, now),
            r matches Some(t) ==> 0 < t < CRON_YEARS_END_MS && t % 1000 == 0,
    {
        let now = now_millis();
        self.next_run_after(now)
    }
}

/// How long to sleep before firing at `next_ms` when it is `now_ms`: the
/// time left, or one second when the instant has already passed.
pub open spec fn fire_delay(next_ms: i64, now_ms: i64) -> int {
    if next_ms >= now_ms {
        next_ms - now_ms
    } else {
        1000
    }
}

/// The delay, in milliseconds, before a scheduled start due at `next_ms`.
pub fn fire_delay_millis(next_ms: i64, now_ms: i64) -> (d: u64)
    ensures
        d == fire_delay(next_ms, now_ms),
{
    if next_ms >= now_ms {
        let d: i128 = next_ms as i128 - now_ms as i128;
        d as u64
    } else {
        1000
    }
}

} // verus!
