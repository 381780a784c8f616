//! Task records and the request/result types that travel with them.

use vstd::prelude::*;

use crate::status::TaskStatus;
use crate::status::spec_is_terminal;

verus! {

/// A request to run one task: the prompt, an optional source workspace to
/// copy in, and an optional timeout overriding the default.
pub struct TaskRequest {
    pub prompt: String,
    pub workspace_path: Option<String>,
    pub timeout_secs: Option<u64>,
}

impl Clone for TaskRequest {
    fn clone(&self) -> (r: Self)
        ensures
            r == *self,
    {
        TaskRequest {
            prompt: self.prompt.clone(),
            workspace_path: match &self.workspace_path {
                Some(p) => Some(p.clone()),
                None => None,
            },
            timeout_secs: self.timeout_secs,
        }
    }
}

/// One task record: identity, the request's prompt, lifecycle status,
/// outcome fields, and timestamps in abstract time units.
pub struct Task {
    pub id: String,
    pub prompt: String,
    pub status: TaskStatus,
    pub workspace_path: Option<String>,
    pub result: Option<String>,
    pub error: Option<String>,
    pub log_file: Option<String>,
    pub priority: i64,
    pub created_at: u64,
    pub completed_at: Option<u64>,
}

impl Task {
    /// A record is well formed when its completion stamp is present
    /// exactly on the terminal statuses.
    pub open spec fn wf(self) -> bool {
        self.completed_at is Some <==> spec_is_terminal(self.status)
    }
}

impl Clone for Task {
    fn clone(&self) -> (r: Self)
        ensures
            r == *self,
    {
        Task {
            id: self.id.clone(),
            prompt: self.prompt.clone(),
            status: self.status,
            workspace_path: match &self.workspace_path {
                Some(p) => Some(p.clone()),
                None => None,
            },
            result: match &self.result {
                Some(p) => Some(p.clone()),
                None => None,
            },
            error: match &self.error {
                Some(p) => Some(p.clone()),
                None => None,
            },
            log_file: match &self.log_file {
                Some(p) => Some(p.clone()),
                None => None,
            },
            priority: self.priority,
            created_at: self.created_at,
            completed_at: self.completed_at,
        }
    }
}

/// The terminal outcome of one execution: status, captured output, the
/// files present in the workspace afterwards, error text, and duration.
pub struct TaskResult {
    pub task_id: String,
    pub status: TaskStatus,
    pub output: Option<String>,
    pub files_modified: Vec<String>,
    pub error: Option<String>,
    pub duration_ms: Option<u64>,
}

} // verus!
