//! The durable task record store, modelled as a sequence of task records
//! in creation order. The hosting application mirrors every change to its
//! persistence layer; the logic of each operation lives here.

use vstd::prelude::*;

use crate::status::TaskStatus;
use crate::status::is_terminal;
use crate::status::spec_is_terminal;
use crate::strutil::str_eq;
use crate::task::Task;

verus! {

/// Errors of store operations.
#[derive(Debug, Clone, Copy, PartialEq, Eq, Structural)]
pub enum StoreError {
    /// A freshly drawn task id collided with an existing record.
    DuplicateId,
    /// The task id names no record.
    NotFound,
    /// The requested status change would move a record backwards.
    InvalidTransition,
}

impl StoreError {
    /// A human-readable description of the error.
    pub fn message(&self) -> (r: String)
        ensures
            *self is DuplicateId ==> r@ == "task id already exists"@,
            *self is NotFound ==> r@ == "task not found"@,
            *self is InvalidTransition ==> r@ == "invalid status transition"@,
    {
        match self {
            StoreError::DuplicateId => String::from_str("task id already exists"),
            StoreError::NotFound => String::from_str("task not found"),
            StoreError::InvalidTransition => String::from_str("invalid status transition"),
        }
    }
}

/// A status may only advance: a queued task may start running or reach a
/// terminal status directly (cancellation), a running task may only reach
/// a terminal status, and a terminal status never changes again.
pub open spec fn transition_ok(from: TaskStatus, to: TaskStatus) -> bool {
    ||| (from == TaskStatus::Queued && (to == TaskStatus::Running || spec_is_terminal(to)))
    ||| (from == TaskStatus::Running && spec_is_terminal(to))
}

/// The task record store: records in creation order, ids unique.
pub struct TaskStore {
    pub tasks: Vec<Task>,
}

impl TaskStore {
    /// Whether some record carries the id.
    pub open spec fn contains_id(self, id: Seq<char>) -> bool {
        exists|i: int| 0 <= i < self.tasks@.len() && self.tasks@[i].id@ == id
    }

    /// The index of the record carrying the id (unique when `wf()`).
    pub open spec fn index_of(self, id: Seq<char>) -> int {
        choose|i: int| 0 <= i < self.tasks@.len() && self.tasks@[i].id@ == id
    }

    /// The record carrying the id.
    pub open spec fn task_for(self, id: Seq<char>) -> Task {
        self.tasks@[self.index_of(id)]
    }

    /// Well-formedness: ids are unique and every record is well formed
    /// (completion stamp present exactly on terminal statuses).
    pub open spec fn wf(self) -> bool {
        &&& forall|i: int, j: int|
            0 <= i < j < self.tasks@.len() ==> self.tasks@[i].id@ != self.tasks@[j].id@
        &&& forall|i: int| 0 <= i < self.tasks@.len() ==> self.tasks@[i].wf()
    }

    /// The completion stamp tracks the lifecycle exactly: a record's
    /// `completed_at` is `None` until its status is terminal and `Some`
    /// exactly from then on — never set for a queued or running task,
    /// and, since statuses never move backwards, never unset again.
    pub proof fn lemma_completion_stamp(self, i: int)
        requires
            self.wf(),
            0 <= i < self.tasks@.len(),
        ensures
            self.tasks@[i].completed_at is Some <==> spec_is_terminal(self.tasks@[i].status),
    {
    }

    /// Under unique ids, a matching index is the index `index_of` picks.
    pub proof fn lemma_index_unique(self, id: Seq<char>, i: int)
        requires
            self.wf(),
            0 <= i < self.tasks@.len(),
            self.tasks@[i].id@ == id,
        ensures
            self.index_of(id) == i,
            self.contains_id(id),
    {
        assert(self.contains_id(id));
        let j = self.index_of(id);
        if j != i {
            if j < i {
                assert(self.tasks@[j].id@ != self.tasks@[i].id@);
            } else {
                assert(self.tasks@[i].id@ != self.tasks@[j].id@);
            }
        }
    }

    /// Finds the index of the record carrying `task_id`, if any.
    fn find_index(&self, task_id: &str) -> (r: Option<usize>)
        requires
            self.wf(),
        ensures
            match r {
                Some(i) => i < self.tasks@.len() && self.tasks@[i as int].id@ == task_id@
                    && self.index_of(task_id@) == i,
                None => !self.contains_id(task_id@),
            },
    {
        let mut k: usize = 0;
        while k < self.tasks.len()
            invariant
                self.wf(),
                k <= self.tasks@.len(),
                forall|j: int| 0 <= j < k ==> self.tasks@[j].id@ != task_id@,
            decreases self.tasks@.len() - k,
        {
            if str_eq(self.tasks[k].id.as_str(), task_id) {
                proof {
                    self.lemma_index_unique(task_id@, k as int);
                }
                return Some(k);
            }
            k += 1;
        }
        None
    }

    /// Inserts a fresh record for `id` with status `Queued`, no outcome
    /// and no completion stamp; refuses an id already present.
    pub fn create_task_with_id(
        &mut self,
        id: String,
        prompt: String,
        workspace_path: Option<String>,
        priority: Option<i64>,
        created_at: u64,
    ) -> (r: Result<(), StoreError>)
        requires
            old(self).wf(),
        ensures
            final(self).wf(),
            old(self).contains_id(id@) ==> r == Err::<(), StoreError>(StoreError::DuplicateId)
                && *final(self) == *old(self),
            !old(self).contains_id(id@) ==> r == Ok::<(), StoreError>(())
                && final(self).tasks@ == old(self).tasks@.push(
                (Task {
                    id: id,
                    prompt: prompt,
                    status: TaskStatus::Queued,
                    workspace_path: workspace_path,
                    result: None,
                    error: None,
                    log_file: None,
                    priority: (match priority {
                        Some(p) => p,
                        None => 5,
                    }),
                    created_at: created_at,
                    completed_at: None,
                })),
    {
        if self.find_index(id.as_str()).is_some() {
            return Err(StoreError::DuplicateId);
        }
        let task = Task {
            id,
            prompt,
            status: TaskStatus::Queued,
            workspace_path,
            result: None,
            error: None,
            log_file: None,
            priority: match priority {
                Some(p) => p,
                None => 5,
            },
            created_at,
            completed_at: None,
        };
        self.tasks.push(task);
        proof {
            assert forall|i: int, j: int|
                0 <= i < j < self.tasks@.len() implies self.tasks@[i].id@ != self.tasks@[j].id@ by {
                if j == self.tasks@.len() - 1 {
                    assert(old(self).tasks@[i].id@ != self.tasks@[j].id@);
                }
            }
        }
        Ok(())
    }

    /// Creates a record under a freshly drawn task id and returns the id.
    /// The id is random: if it collides with an existing record, the store
    /// is left unchanged and `DuplicateId` is returned.
    pub fn create_task(
        &mut self,
        prompt: String,
        workspace_path: Option<String>,
        priority: Option<i64>,
        created_at: u64,
    ) -> (r: Result<String, StoreError>)
        requires
            old(self).wf(),
        ensures
            final(self).wf(),
            match r {
                Ok(id) => !old(self).contains_id(id@) && id@.len() == 36
                    && final(self).tasks@ == old(self).tasks@.push(
                    (Task {
                        id: id,
                        prompt: prompt,
                        status: TaskStatus::Queued,
                        workspace_path: workspace_path,
                        result: None,
                        error: None,
                        log_file: None,
                        priority: (match priority {
                            Some(p) => p,
                            None => 5,
                        }),
                        created_at: created_at,
                        completed_at: None,
                    })),
                Err(e) => e == StoreError::DuplicateId && *final(self) == *old(self),
            },
    {
        let id = fresh_task_id();
        let id_copy = id.clone();
        match self.create_task_with_id(id, prompt, workspace_path, priority, created_at) {
            Ok(()) => Ok(id_copy),
            Err(e) => Err(e),
        }
    }

    /// Sets the status of the record for `task_id`, overwriting result and
    /// error, and stamps the completion time exactly when the new status is
    /// terminal. Backwards transitions are refused, so a completion stamp,
    /// once set, never changes or disappears.
    pub fn update_task_status(
        &mut self,
        task_id: &str,
        status: TaskStatus,
        result: Option<String>,
        error: Option<String>,
        now: u64,
    ) -> (r: Result<(), StoreError>)
        requires
            old(self).wf(),
        ensures
            final(self).wf(),
            !old(self).contains_id(task_id@) ==> r == Err::<(), StoreError>(StoreError::NotFound)
                && *final(self) == *old(self),
            old(self).contains_id(task_id@)
                && !transition_ok(old(self).task_for(task_id@).status, status)
                ==> r == Err::<(), StoreError>(StoreError::InvalidTransition)
                    && *final(self) == *old(self),
            old(self).contains_id(task_id@)
                && transition_ok(old(self).task_for(task_id@).status, status)
                ==> r == Ok::<(), StoreError>(())
                    && final(self).tasks@ == old(self).tasks@.update(
                    old(self).index_of(task_id@),
                    (Task {
                        status: status,
                        result: result,
                        error: error,
                        completed_at: if spec_is_terminal(status) {
                            Some(now)
                        } else {
                            old(self).task_for(task_id@).completed_at
                        },
                        ..old(self).task_for(task_id@)
                    })),
    {
        let idx = match self.find_index(task_id) {
            Some(i) => i,
            None => {
                return Err(StoreError::NotFound);
            },
        };
        let from = self.tasks[idx].status;
        let allowed = match from {
            TaskStatus::Queued => status == TaskStatus::Running || is_terminal(status),
            TaskStatus::Running => is_terminal(status),
            _ => false,
        };
        if !allowed {
            return Err(StoreError::InvalidTransition);
        }
        let old_task = &self.tasks[idx];
        let updated = Task {
            id: old_task.id.clone(),
            prompt: old_task.prompt.clone(),
            status,
            workspace_path: match &old_task.workspace_path {
                Some(p) => Some(p.clone()),
                None => None,
            },
            result,
            error,
            log_file: match &old_task.log_file {
                Some(p) => Some(p.clone()),
                None => None,
            },
            priority: old_task.priority,
            created_at: old_task.created_at,
            completed_at: if is_terminal(status) {
                Some(now)
            } else {
                old_task.completed_at
            },
        };
        self.tasks.set(idx, updated);
        Ok(())
    }

    /// Records the log file of the task, if the id names a record;
    /// otherwise leaves the store unchanged.
    pub fn set_task_log_file(&mut self, task_id: &str, log_file: String)
        requires
            old(self).wf(),
        ensures
            final(self).wf(),
            !old(self).contains_id(task_id@) ==> *final(self) == *old(self),
            old(self).contains_id(task_id@) ==> final(self).tasks@ == old(self).tasks@.update(
                old(self).index_of(task_id@),
                (Task { log_file: Some(log_file), ..old(self).task_for(task_id@) }),
            ),
    {
        let idx = match self.find_index(task_id) {
            Some(i) => i,
            None => {
                return;
            },
        };
        let old_task = &self.tasks[idx];
        let updated = Task {
            id: old_task.id.clone(),
            prompt: old_task.prompt.clone(),
            status: old_task.status,
            workspace_path: match &old_task.workspace_path {
                Some(p) => Some(p.clone()),
                None => None,
            },
            result: match &old_task.result {
                Some(p) => Some(p.clone()),
                None => None,
            },
            error: match &old_task.error {
                Some(p) => Some(p.clone()),
                None => None,
            },
            log_file: Some(log_file),
            priority: old_task.priority,
            created_at: old_task.created_at,
            completed_at: old_task.completed_at,
        };
        self.tasks.set(idx, updated);
    }

    /// Returns a copy of the record for `task_id`, or `None` if the id
    /// names no record.
    pub fn get_task(&self, task_id: &str) -> (r: Option<Task>)
        requires
            self.wf(),
        ensures
            match r {
                Some(t) => self.contains_id(task_id@) && t == self.task_for(task_id@),
                None => !self.contains_id(task_id@),
            },
    {
        match self.find_index(task_id) {
            Some(i) => Some(self.tasks[i].clone()),
            None => None,
        }
    }

    /// Returns all records, most recently created first.
    pub fn get_all_tasks(&self) -> (r: Vec<Task>)
        ensures
            r@.len() == self.tasks@.len(),
            forall|i: int|
                0 <= i < r@.len() ==> r@[i] == self.tasks@[self.tasks@.len() - 1 - i],
    {
        let mut out: Vec<Task> = Vec::new();
        let n = self.tasks.len();
        let mut k: usize = 0;
        while k < n
            invariant
                n == self.tasks@.len(),
                k <= n,
                out@.len() == k,
                forall|i: int| 0 <= i < k ==> out@[i] == self.tasks@[n - 1 - i],
            decreases n - k,
        {
            out.push(self.tasks[n - 1 - k].clone());
            k += 1;
        }
        out
    }
}

/// Creates an empty task record store.
pub fn init_tasks_table() -> (s: TaskStore)
    ensures
        s.tasks@.len() == 0,
        s.wf(),
{
    TaskStore { tasks: Vec::new() }
}

/// Relies on `uuid::Uuid::new_v4` and its `Display` impl: a random
/// version-4 UUID rendered as the 36-character lower-case hyphenated form.
/// The id is random, so nothing beyond its length is promised.
#[verifier::external_body]
fn fresh_task_id() -> (r: String)
    ensures
        r@.len() == 36,
{
    uuid::Uuid::new_v4().to_string()
}

} // verus!
