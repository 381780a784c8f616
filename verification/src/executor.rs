//! The task executor's decision core. Running a task means: check that
//! the agent CLI is authenticated, create an isolated workspace, copy the
//! requested source workspace in, run the agent process under a timeout
//! while streaming its output, list every file left in the workspace, and
//! always clean the workspace up. The process, file and stream work is
//! the hosting application's; the paths, the timeout, the admission
//! decision and the classification of the outcome live here.

use vstd::prelude::*;

use crate::logger::ClaudeLogger;
use crate::session::SessionState;
use crate::status::TaskStatus;
use crate::strutil::spec_idec;
use crate::strutil::i32_to_string;
use crate::task::TaskRequest;
use crate::task::TaskResult;

verus! {

/// The timeout applied when a request names none, in time units.
pub const DEFAULT_TIMEOUT_UNITS: u64 = 300;

/// What waiting on the agent process observed.
#[derive(Debug, Clone, Copy, PartialEq, Eq, Structural)]
pub enum ProcessWait {
    /// The process exited with this code.
    Exited(i32),
    /// Waiting on the process itself failed.
    WaitFailed,
    /// The timeout elapsed and the process was terminated.
    TimedOut,
}

/// The executor: where isolated workspaces are created, and the logger
/// the execution writes to.
pub struct ClaudeExecutor {
    pub workspace_base: String,
    pub logger: ClaudeLogger,
}

impl Clone for ClaudeExecutor {
    fn clone(&self) -> (r: Self)
        ensures
            r == *self,
    {
        ClaudeExecutor {
            workspace_base: self.workspace_base.clone(),
            logger: self.logger.clone(),
        }
    }
}

impl ClaudeExecutor {
    /// An executor rooted at `workspace_base`, logging under its `logs`
    /// subdirectory. The hosting application creates the directory.
    pub fn new(workspace_base: String) -> (r: Self)
        ensures
            r.workspace_base == workspace_base,
            r.logger.log_dir@ == workspace_base@ + "/logs"@,
    {
        let mut log_dir = workspace_base.clone();
        log_dir.append("/logs");
        ClaudeExecutor { workspace_base, logger: ClaudeLogger::new(log_dir) }
    }

    /// The isolated workspace of a task: `<workspace_base>/<task_id>`.
    pub fn workspace_dir(&self, task_id: &str) -> (r: String)
        ensures
            r@ == self.workspace_base@ + "/"@ + task_id@,
    {
        let mut dir = self.workspace_base.clone();
        dir.append("/");
        dir.append(task_id);
        dir
    }

    /// Gate before any execution: fails, before any workspace exists,
    /// exactly when the session is not authenticated.
    pub fn check_auth(&self, session: &SessionState) -> (r: Result<(), String>)
        ensures
            session.authenticated <==> r is Ok,
            r matches Err(e) ==> e@
                == "Agent CLI not authenticated. Log in to it first."@,
    {
        if session.authenticated {
            Ok(())
        } else {
            Err(String::from_str("Agent CLI not authenticated. Log in to it first."))
        }
    }

    /// Whether the request names a source workspace whose contents must
    /// be copied into the isolated workspace before execution.
    pub fn needs_copy(&self, request: &TaskRequest) -> (r: bool)
        ensures
            r == (request.workspace_path is Some),
    {
        request.workspace_path.is_some()
    }

    /// The timeout of a request: what it names, or the default.
    pub fn effective_timeout(&self, request: &TaskRequest) -> (r: u64)
        ensures
            r == (match request.timeout_secs {
                Some(t) => t,
                None => DEFAULT_TIMEOUT_UNITS,
            }),
    {
        match request.timeout_secs {
            Some(t) => t,
            None => DEFAULT_TIMEOUT_UNITS,
        }
    }

    /// Classifies the outcome of one execution. Exit code zero is a
    /// completed task carrying the captured output; a non-zero exit, and
    /// a failed wait, are failures with the cause in the error text; a
    /// timeout is the `Timeout` status with a non-empty error. The files
    /// listed in the workspace and the elapsed duration are carried in
    /// every case; the workspace is cleaned up in every case.
    pub fn conclude_execution(
        &self,
        task_id: &str,
        wait: ProcessWait,
        output: String,
        files_modified: Vec<String>,
        duration_ms: u64,
    ) -> (r: TaskResult)
        ensures
            r.task_id@ == task_id@,
            r.files_modified == files_modified,
            r.duration_ms == Some(duration_ms),
            wait == ProcessWait::Exited(0i32) ==> {
                &&& r.status == TaskStatus::Completed
                &&& r.output == Some(output)
                &&& r.error is None
            },
            (wait matches ProcessWait::Exited(c) && c != 0) ==> {
                &&& r.status == TaskStatus::Failed
                &&& r.output is None
                &&& r.error matches Some(e) && e@ == "Agent exited with status: "@ + spec_idec(
                    wait->Exited_0 as int,
                )
            },
            wait == ProcessWait::WaitFailed ==> {
                &&& r.status == TaskStatus::Failed
                &&& r.output is None
                &&& r.error matches Some(e) && e@ == "Failed to wait for process"@
            },
            wait == ProcessWait::TimedOut ==> {
                &&& r.status == TaskStatus::Timeout
                &&& r.output is None
                &&& r.error matches Some(e) && e@ == "Task timeout"@ && e@.len() > 0
            },
    {
        let task_id_owned = String::from_str(task_id);
        match wait {
            ProcessWait::Exited(code) => {
                if code == 0 {
                    TaskResult {
                        task_id: task_id_owned,
                        status: TaskStatus::Completed,
                        output: Some(output),
                        files_modified,
                        error: None,
                        duration_ms: Some(duration_ms),
                    }
                } else {
                    let mut err = String::from_str("Agent exited with status: ");
                    let code_text = i32_to_string(code);
                    err.append(code_text.as_str());
                    TaskResult {
                        task_id: task_id_owned,
                        status: TaskStatus::Failed,
                        output: None,
                        files_modified,
                        error: Some(err),
                        duration_ms: Some(duration_ms),
                    }
                }
            },
            ProcessWait::WaitFailed => TaskResult {
                task_id: task_id_owned,
                status: TaskStatus::Failed,
                output: None,
                files_modified,
                error: Some(String::from_str("Failed to wait for process")),
                duration_ms: Some(duration_ms),
            },
            ProcessWait::TimedOut => {
                let err = String::from_str("Task timeout");
                proof {
                    reveal_strlit("Task timeout");
                }
                TaskResult {
                    task_id: task_id_owned,
                    status: TaskStatus::Timeout,
                    output: None,
                    files_modified,
                    error: Some(err),
                    duration_ms: Some(duration_ms),
                }
            },
        }
    }
}

} // verus!
