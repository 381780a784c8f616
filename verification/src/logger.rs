//! The execution logger: path and line formatting, and the cleanup
//! decision. Each log line is formatted here as one atomic string; the
//! hosting application appends it to the task's log file, reads files
//! back, and removes expired ones.

use vstd::prelude::*;

use crate::status::LogLevel;
use crate::status::spec_level_name;

verus! {

/// One structured log entry of a task's execution.
pub struct ExecutionLog {
    pub task_id: String,
    pub timestamp: String,
    pub level: LogLevel,
    pub message: String,
    pub context: Option<String>,
}

/// The per-task execution logger: one append-only log file per task,
/// all under one directory.
pub struct ClaudeLogger {
    pub log_dir: String,
}

impl Clone for ClaudeLogger {
    fn clone(&self) -> (r: Self)
        ensures
            r == *self,
    {
        ClaudeLogger { log_dir: self.log_dir.clone() }
    }
}

impl ClaudeLogger {
    /// A logger writing under `log_dir`. The hosting application creates
    /// the directory.
    pub fn new(log_dir: String) -> (r: Self)
        ensures
            r.log_dir == log_dir,
    {
        ClaudeLogger { log_dir }
    }

    /// The log file of a task: `<log_dir>/<task_id>.log`.
    pub fn get_log_path(&self, task_id: &str) -> (r: String)
        ensures
            r@ == self.log_dir@ + "/"@ + task_id@ + ".log"@,
    {
        let mut path = self.log_dir.clone();
        path.append("/");
        path.append(task_id);
        path.append(".log");
        path
    }

    /// The path of a task's fresh log file; the hosting application
    /// creates the (empty) file there.
    pub fn create_task_log(&self, task_id: &str) -> (r: String)
        ensures
            r@ == self.log_dir@ + "/"@ + task_id@ + ".log"@,
    {
        self.get_log_path(task_id)
    }

    /// Formats one log line: `[<timestamp>] <Level>: <message>` and a
    /// trailing newline. One line is one atomic append.
    pub fn format_log_line(&self, timestamp: &str, level: LogLevel, message: &str) -> (r: String)
        ensures
            r@ == "["@ + timestamp@ + "] "@ + spec_level_name(level) + ": "@ + message@ + "\n"@,
    {
        let mut line = String::from_str("[");
        line.append(timestamp);
        line.append("] ");
        let name = crate::status::level_name(level);
        line.append(name.as_str());
        line.append(": ");
        line.append(message);
        line.append("\n");
        line
    }

    /// Whether a log file whose last modification is `modified` is
    /// expired at cutoff time `cutoff`.
    pub fn should_remove(&self, modified: u64, cutoff: u64) -> (r: bool)
        ensures
            r == (modified < cutoff),
    {
        modified < cutoff
    }

    /// How many of the given last-modification times are expired at
    /// `cutoff`: the count the cleanup pass reports after removing them.
    pub fn count_expired(&self, modified_times: &Vec<u64>, cutoff: u64) -> (r: usize)
        ensures
            r == modified_times@.filter(|t: u64| t < cutoff).len(),
    {
        let ghost pred = |t: u64| t < cutoff;
        let mut count: usize = 0;
        let n = modified_times.len();
        let mut k: usize = 0;
        proof {
            reveal(Seq::filter);
            assert(modified_times@.subrange(0, 0) =~= Seq::<u64>::empty());
        }
        while k < n
            invariant
                n == modified_times@.len(),
                k <= n,
                count == modified_times@.subrange(0, k as int).filter(pred).len(),
                count <= k,
                pred == (|t: u64| t < cutoff),
            decreases n - k,
        {
            let ghost prefix = modified_times@.subrange(0, k as int);
            let ghost prefix1 = modified_times@.subrange(0, k as int + 1);
            proof {
                reveal(Seq::filter);
                assert(prefix1.drop_last() =~= prefix);
                assert(prefix1.last() == modified_times@[k as int]);
            }
            if modified_times[k] < cutoff {
                count = count + 1;
            }
            k += 1;
        }
        proof {
            assert(modified_times@.subrange(0, n as int) =~= modified_times@);
        }
        count
    }
}

} // verus!
