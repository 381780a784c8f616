//! Task lifecycle statuses and log levels.

use vstd::prelude::*;

use crate::strutil::str_eq;

verus! {

/// Lifecycle status of a task. `Queued` and `Running` are transient;
/// `Completed`, `Failed` and `Timeout` are terminal.
#[derive(Debug, Clone, Copy, PartialEq, Eq, Structural)]
pub enum TaskStatus {
    Queued,
    Running,
    Completed,
    Failed,
    Timeout,
}

/// Severity of one execution-log line.
#[derive(Debug, Clone, Copy, PartialEq, Eq, Structural)]
pub enum LogLevel {
    Info,
    Warning,
    Error,
    Debug,
}

/// A status is terminal when the task will never run again.
pub open spec fn spec_is_terminal(s: TaskStatus) -> bool {
    s == TaskStatus::Completed || s == TaskStatus::Failed || s == TaskStatus::Timeout
}

/// Whether `s` is one of the terminal statuses.
pub fn is_terminal(s: TaskStatus) -> (r: bool)
    ensures
        r == spec_is_terminal(s),
{
    match s {
        TaskStatus::Completed => true,
        TaskStatus::Failed => true,
        TaskStatus::Timeout => true,
        TaskStatus::Queued => false,
        TaskStatus::Running => false,
    }
}

/// The lower-case name a status is stored under.
pub open spec fn spec_status_name(s: TaskStatus) -> Seq<char> {
    match s {
        TaskStatus::Queued => "queued"@,
        TaskStatus::Running => "running"@,
        TaskStatus::Completed => "completed"@,
        TaskStatus::Failed => "failed"@,
        TaskStatus::Timeout => "timeout"@,
    }
}

/// Returns the lower-case name a status is stored under.
pub fn status_name(s: TaskStatus) -> (r: String)
    ensures
        r@ == spec_status_name(s),
{
    match s {
        TaskStatus::Queued => String::from_str("queued"),
        TaskStatus::Running => String::from_str("running"),
        TaskStatus::Completed => String::from_str("completed"),
        TaskStatus::Failed => String::from_str("failed"),
        TaskStatus::Timeout => String::from_str("timeout"),
    }
}

/// The status a stored name maps back to; unknown names fall back to `Queued`.
pub open spec fn spec_parse_status(s: Seq<char>) -> TaskStatus {
    if s == "running"@ {
        TaskStatus::Running
    } else if s == "completed"@ {
        TaskStatus::Completed
    } else if s == "failed"@ {
        TaskStatus::Failed
    } else if s == "timeout"@ {
        TaskStatus::Timeout
    } else {
        TaskStatus::Queued
    }
}

/// Parses a stored status name; unknown names fall back to `Queued`.
pub fn parse_status(s: &str) -> (r: TaskStatus)
    ensures
        r == spec_parse_status(s@),
{
    if str_eq(s, "running") {
        TaskStatus::Running
    } else if str_eq(s, "completed") {
        TaskStatus::Completed
    } else if str_eq(s, "failed") {
        TaskStatus::Failed
    } else if str_eq(s, "timeout") {
        TaskStatus::Timeout
    } else {
        TaskStatus::Queued
    }
}

/// The name a log level is written under in a log line.
pub open spec fn spec_level_name(l: LogLevel) -> Seq<char> {
    match l {
        LogLevel::Info => "Info"@,
        LogLevel::Warning => "Warning"@,
        LogLevel::Error => "Error"@,
        LogLevel::Debug => "Debug"@,
    }
}

/// Returns the name a log level is written under in a log line.
pub fn level_name(l: LogLevel) -> (r: String)
    ensures
        r@ == spec_level_name(l),
{
    match l {
        LogLevel::Info => String::from_str("Info"),
        LogLevel::Warning => String::from_str("Warning"),
        LogLevel::Error => String::from_str("Error"),
        LogLevel::Debug => String::from_str("Debug"),
    }
}

} // verus!
