//! The task system: the queue and the record store moving together.
//!
//! Every pending entry is backed by a `Queued` record, every in-flight id
//! by a `Running` record, and ids never repeat. The hosting application
//! owns the asynchronous side (spawning executions, aborting handles,
//! sleeping between dispatch polls) and calls these operations at each
//! decision point.

use vstd::prelude::*;

use crate::queue::CancelKind;
use crate::queue::PendingEntry;
use crate::queue::QueueConfig;
use crate::queue::QueueError;
use crate::queue::QueueStats;
use crate::queue::TaskQueue;
use crate::status::TaskStatus;
use crate::status::spec_is_terminal;
use crate::store::TaskStore;
use crate::strutil::clone_opt_string;
use crate::task::Task;
use crate::task::TaskRequest;

verus! {

/// Errors of task submission.
#[derive(Debug, Clone, Copy, PartialEq, Eq, Structural)]
pub enum SubmitError {
    /// The pending queue is at its configured maximum; nothing was stored.
    QueueFull,
    /// The freshly drawn task id collided with an existing record;
    /// nothing was stored.
    DuplicateId,
}

/// The relation between a record and its state after a cancellation
/// stamped at `now`: failed with the cancellation error, everything else
/// untouched.
pub open spec fn cancelled_record(before: Task, after: Task, now: u64) -> bool {
    &&& after.id == before.id
    &&& after.prompt == before.prompt
    &&& after.status == TaskStatus::Failed
    &&& after.workspace_path == before.workspace_path
    &&& after.result is None
    &&& after.error matches Some(e) && e@ == "Task cancelled by user"@
    &&& after.log_file == before.log_file
    &&& after.priority == before.priority
    &&& after.created_at == before.created_at
    &&& after.completed_at == Some(now)
}

/// The queue and the record store of one task system.
pub struct TaskSystem {
    pub queue: TaskQueue,
    pub store: TaskStore,
}

impl TaskSystem {
    /// Every pending entry is backed by a `Queued` record.
    pub open spec fn pending_backed(self) -> bool {
        forall|i: int|
            0 <= i < self.queue.pending@.len() ==> self.store.contains_id(
                #[trigger] self.queue.pending@[i].task_id@,
            ) && self.store.task_for(self.queue.pending@[i].task_id@).status == TaskStatus::Queued
    }

    /// Every in-flight id is backed by a `Running` record.
    pub open spec fn active_backed(self) -> bool {
        forall|i: int|
            0 <= i < self.queue.active@.len() ==> self.store.contains_id(
                #[trigger] self.queue.active@[i]@,
            ) && self.store.task_for(self.queue.active@[i]@).status == TaskStatus::Running
    }

    /// Pending ids are pairwise distinct.
    pub open spec fn pending_distinct(self) -> bool {
        forall|i: int, j: int|
            0 <= i < j < self.queue.pending@.len() ==> self.queue.pending@[i].task_id@
                != self.queue.pending@[j].task_id@
    }

    /// In-flight ids are pairwise distinct.
    pub open spec fn active_distinct(self) -> bool {
        forall|i: int, j: int|
            0 <= i < j < self.queue.active@.len() ==> self.queue.active@[i]@
                != self.queue.active@[j]@
    }

    /// Well-formedness of the whole system.
    pub open spec fn wf(self) -> bool {
        &&& self.queue.wf()
        &&& self.store.wf()
        &&& self.pending_backed()
        &&& self.active_backed()
        &&& self.pending_distinct()
        &&& self.active_distinct()
    }

    /// A task whose record is terminal is out of dispatch consideration:
    /// it is neither pending nor in flight, so it can never start running.
    pub proof fn lemma_terminal_out_of_dispatch(self, id: Seq<char>)
        requires
            self.wf(),
            self.store.contains_id(id),
            spec_is_terminal(self.store.task_for(id).status),
        ensures
            !self.queue.pending_contains(id),
            !self.queue.active_contains(id),
    {
        if self.queue.pending_contains(id) {
            let i = choose|i: int|
                0 <= i < self.queue.pending@.len() && self.queue.pending@[i].task_id@ == id;
            assert(self.store.task_for(self.queue.pending@[i].task_id@).status
                == TaskStatus::Queued);
        }
        if self.queue.active_contains(id) {
            let i = choose|i: int|
                0 <= i < self.queue.active@.len() && self.queue.active@[i]@ == id;
            assert(self.store.task_for(self.queue.active@[i]@).status == TaskStatus::Running);
        }
    }

    /// The number of in-flight executions never exceeds the configured
    /// maximum.
    pub proof fn lemma_active_bounded(self)
        requires
            self.wf(),
        ensures
            self.queue.active@.len() <= self.queue.config.max_concurrent,
    {
        self.queue.lemma_active_bounded();
    }

    /// Whenever the system is below its concurrency cap — in particular,
    /// right after a cancellation released a permit — a permit is free, so
    /// a pending task is dispatched rather than held back.
    pub proof fn lemma_capacity_available(self)
        requires
            self.wf(),
            self.queue.active@.len() < self.queue.config.max_concurrent,
        ensures
            self.queue.available_permits > 0,
    {
        self.queue.lemma_capacity_available();
    }

    /// Submits a task: creates a `Queued` record under a freshly drawn id
    /// and appends the id and request to the pending queue. Fails with
    /// `QueueFull`, without side effects, exactly when the pending queue
    /// is at its configured maximum; fails with `DuplicateId`, without
    /// side effects, when the random id collided with an existing record.
    /// On success the id is immediately retrievable with status `Queued`
    /// and no completion stamp.
    pub fn submit_task(
        &mut self,
        prompt: String,
        workspace_path: Option<String>,
        timeout_secs: Option<u64>,
        priority: Option<i64>,
        now: u64,
    ) -> (r: Result<String, SubmitError>)
        requires
            old(self).wf(),
        ensures
            final(self).wf(),
            final(self).queue.config == old(self).queue.config,
            old(self).queue.pending@.len() >= old(self).queue.config.max_queue_size <==> r
                == Err::<String, SubmitError>(SubmitError::QueueFull),
            r is Err ==> *final(self) == *old(self),
            match r {
                Ok(id) => {
                    &&& !old(self).store.contains_id(id@)
                    &&& id@.len() == 36
                    &&& final(self).store.tasks@ == old(self).store.tasks@.push(
                        (Task {
                            id: id,
                            prompt: prompt,
                            status: TaskStatus::Queued,
                            workspace_path: workspace_path,
                            result: None,
                            error: None,
                            log_file: None,
                            priority: (match priority {
                                Some(p) => p,
                                None => 5,
                            }),
                            created_at: now,
                            completed_at: None,
                        }),
                    )
                    &&& final(self).queue.pending@ == old(self).queue.pending@.push(
                        (PendingEntry {
                            task_id: id,
                            request: (TaskRequest {
                                prompt: prompt,
                                workspace_path: workspace_path,
                                timeout_secs: timeout_secs,
                            }),
                        }),
                    )
                    &&& final(self).queue.active@ == old(self).queue.active@
                    &&& final(self).queue.available_permits == old(self).queue.available_permits
                    &&& final(self).queue.shutdown_requested == old(
                        self,
                    ).queue.shutdown_requested
                    &&& final(self).store.contains_id(id@)
                    &&& final(self).store.task_for(id@).status == TaskStatus::Queued
                    &&& final(self).store.task_for(id@).completed_at is None
                },
                Err(e) => e == SubmitError::QueueFull || e == SubmitError::DuplicateId,
            },
    {
        if self.queue.pending.len() >= self.queue.config.max_queue_size {
            return Err(SubmitError::QueueFull);
        }
        let prompt_q = prompt.clone();
        let ws_q = clone_opt_string(&workspace_path);
        let id = match self.store.create_task(prompt, workspace_path, priority, now) {
            Ok(id) => id,
            Err(_) => {
                return Err(SubmitError::DuplicateId);
            },
        };
        let id_q = id.clone();
        let request = TaskRequest { prompt: prompt_q, workspace_path: ws_q, timeout_secs };
        let ghost mid = *self;
        let submitted = self.queue.submit(id, request);
        proof {
            if submitted is Err {
                assert(false);
            }
            self.lemma_restore_wf_after_submit(*old(self), mid, id_q@);
        }
        match submitted {
            Ok(()) => Ok(id_q),
            Err(_) => unreached(),
        }
    }

    /// After a successful record insertion and queue append, the system
    /// invariants hold again.
    proof fn lemma_restore_wf_after_submit(self, orig: TaskSystem, mid: TaskSystem, id: Seq<char>)
        requires
            orig.wf(),
            !orig.store.contains_id(id),
            mid.store.tasks@.len() == orig.store.tasks@.len() + 1,
            mid.store.tasks@ == orig.store.tasks@.push(mid.store.tasks@.last()),
            mid.store.tasks@.last().id@ == id,
            mid.store.tasks@.last().status == TaskStatus::Queued,
            mid.store.wf(),
            mid.queue == orig.queue,
            self.store == mid.store,
            self.queue.pending@.len() == orig.queue.pending@.len() + 1,
            self.queue.pending@ == orig.queue.pending@.push(self.queue.pending@.last()),
            self.queue.pending@.last().task_id@ == id,
            self.queue.active@ == orig.queue.active@,
            self.queue.wf(),
        ensures
            self.wf(),
            self.store.contains_id(id),
            self.store.task_for(id) == mid.store.tasks@.last(),
    {
        let n = orig.store.tasks@.len() as int;
        self.store.lemma_index_unique(id, n);
        assert forall|i: int| 0 <= i < orig.store.tasks@.len() implies {
            &&& self.store.contains_id(#[trigger] orig.store.tasks@[i].id@)
            &&& self.store.task_for(orig.store.tasks@[i].id@) == orig.store.tasks@[i]
            &&& self.store.index_of(orig.store.tasks@[i].id@) == i
        } by {
            assert(self.store.tasks@[i] == orig.store.tasks@[i]);
            self.store.lemma_index_unique(orig.store.tasks@[i].id@, i);
        }
        assert forall|i: int| 0 <= i < orig.store.tasks@.len() implies {
            &&& orig.store.contains_id(#[trigger] orig.store.tasks@[i].id@)
            &&& orig.store.task_for(orig.store.tasks@[i].id@) == orig.store.tasks@[i]
        } by {
            orig.store.lemma_index_unique(orig.store.tasks@[i].id@, i);
        }
        assert forall|i: int| 0 <= i < self.queue.pending@.len() implies {
            &&& self.store.contains_id(#[trigger] self.queue.pending@[i].task_id@)
            &&& self.store.task_for(self.queue.pending@[i].task_id@).status == TaskStatus::Queued
        } by {
            if i < orig.queue.pending@.len() {
                let pid = self.queue.pending@[i].task_id@;
                assert(orig.store.contains_id(pid));
                let oi = orig.store.index_of(pid);
                assert(orig.store.tasks@[oi].id@ == pid);
                assert(self.store.task_for(pid) == orig.store.tasks@[oi]);
            } else {
                assert(self.queue.pending@[i].task_id@ == id);
            }
        }
        assert forall|i: int| 0 <= i < self.queue.active@.len() implies {
            &&& self.store.contains_id(#[trigger] self.queue.active@[i]@)
            &&& self.store.task_for(self.queue.active@[i]@).status == TaskStatus::Running
        } by {
            let aid = self.queue.active@[i]@;
            assert(orig.store.contains_id(aid));
            let oi = orig.store.index_of(aid);
            assert(orig.store.tasks@[oi].id@ == aid);
            assert(self.store.task_for(aid) == orig.store.tasks@[oi]);
        }
        assert forall|i: int, j: int|
            0 <= i < j < self.queue.pending@.len() implies self.queue.pending@[i].task_id@
            != self.queue.pending@[j].task_id@ by {
            if j == self.queue.pending@.len() - 1 {
                let pid = self.queue.pending@[i].task_id@;
                assert(orig.store.contains_id(pid));
            }
        }
    }

    /// One dispatch decision of the loop. When shutdown has not been
    /// requested, a permit is free and something is pending, the oldest
    /// pending entry is moved into the active set, its record marked
    /// `Running`, and the entry returned for the caller to spawn; the
    /// record was `Queued`, so a cancelled (terminal) task is never
    /// dispatched. Otherwise nothing changes and `None` is returned.
    pub fn dispatch_next(&mut self) -> (r: Option<PendingEntry>)
        requires
            old(self).wf(),
        ensures
            final(self).wf(),
            final(self).queue.config == old(self).queue.config,
            final(self).queue.shutdown_requested == old(self).queue.shutdown_requested,
            match r {
                None => {
                    &&& *final(self) == *old(self)
                    &&& (old(self).queue.shutdown_requested || old(self).queue.available_permits
                        == 0 || old(self).queue.pending@.len() == 0)
                },
                Some(e) => {
                    &&& e == old(self).queue.pending@[0]
                    &&& final(self).queue.pending@ == old(self).queue.pending@.drop_first()
                    &&& final(self).queue.active@ == old(self).queue.active@.push(e.task_id)
                    &&& final(self).queue.available_permits == old(self).queue.available_permits
                        - 1
                    &&& old(self).store.contains_id(e.task_id@)
                    &&& old(self).store.task_for(e.task_id@).status == TaskStatus::Queued
                    &&& final(self).store.tasks@ == old(self).store.tasks@.update(
                        old(self).store.index_of(e.task_id@),
                        (Task {
                            status: TaskStatus::Running,
                            result: None,
                            error: None,
                            ..old(self).store.task_for(e.task_id@)
                        }),
                    )
                    &&& final(self).store.contains_id(e.task_id@)
                    &&& final(self).store.task_for(e.task_id@).status == TaskStatus::Running
                },
            },
    {
        let entry = match self.queue.dispatch_next() {
            None => {
                return None;
            },
            Some(e) => e,
        };
        let updated = self.store.update_task_status(
            entry.task_id.as_str(),
            TaskStatus::Running,
            None,
            None,
            0,
        );
        proof {
            if updated is Err {
                assert(false);
            }
            self.lemma_restore_wf_after_record_update(*old(self), entry.task_id@);
        }
        Some(entry)
    }

    /// After the record of the dispatched, finished or cancelled id was
    /// updated in place — same id, every other record untouched — the
    /// backing invariants hold again, provided the id is out of both the
    /// new pending and the new active sequences or its new status matches
    /// its new place.
    proof fn lemma_restore_wf_after_record_update(self, orig: TaskSystem, id: Seq<char>)
        requires
            orig.wf(),
            orig.store.contains_id(id),
            self.store.tasks@.len() == orig.store.tasks@.len(),
            self.store.tasks@ == orig.store.tasks@.update(
                orig.store.index_of(id),
                self.store.tasks@[orig.store.index_of(id)],
            ),
            self.store.tasks@[orig.store.index_of(id)].id@ == id,
            self.store.wf(),
            self.queue.wf(),
            forall|i: int|
                0 <= i < self.queue.pending@.len() ==> orig.queue.pending_contains(
                    #[trigger] self.queue.pending@[i].task_id@,
                ),
            forall|i: int, j: int|
                0 <= i < j < self.queue.pending@.len() ==> self.queue.pending@[i].task_id@
                    != self.queue.pending@[j].task_id@,
            forall|i: int|
                0 <= i < self.queue.pending@.len() ==> self.queue.pending@[i].task_id@ != id,
            forall|i: int|
                0 <= i < self.queue.active@.len() ==> (orig.queue.active_contains(
                    #[trigger] self.queue.active@[i]@,
                ) && self.queue.active@[i]@ != id) || self.queue.active@[i]@ == id,
            forall|i: int, j: int|
                0 <= i < j < self.queue.active@.len() ==> self.queue.active@[i]@
                    != self.queue.active@[j]@,
            self.queue.active_contains(id) ==> self.store.tasks@[orig.store.index_of(id)].status
                == TaskStatus::Running,
        ensures
            self.wf(),
            self.store.contains_id(id),
            self.store.task_for(id) == self.store.tasks@[orig.store.index_of(id)],
    {
        let oi = orig.store.index_of(id);
        assert(orig.store.tasks@[oi].id@ == id);
        self.store.lemma_index_unique(id, oi);
        assert forall|i: int| 0 <= i < self.queue.pending@.len() implies {
            &&& self.store.contains_id(#[trigger] self.queue.pending@[i].task_id@)
            &&& self.store.task_for(self.queue.pending@[i].task_id@).status == TaskStatus::Queued
        } by {
            let pid = self.queue.pending@[i].task_id@;
            let k = choose|k: int|
                0 <= k < orig.queue.pending@.len() && orig.queue.pending@[k].task_id@ == pid;
            assert(orig.store.contains_id(pid) && orig.store.task_for(pid).status
                == TaskStatus::Queued);
            let pi = orig.store.index_of(pid);
            assert(orig.store.tasks@[pi].id@ == pid);
            assert(pi != oi);
            assert(self.store.tasks@[pi] == orig.store.tasks@[pi]);
            self.store.lemma_index_unique(pid, pi);
        }
        assert forall|i: int| 0 <= i < self.queue.active@.len() implies {
            &&& self.store.contains_id(#[trigger] self.queue.active@[i]@)
            &&& self.store.task_for(self.queue.active@[i]@).status == TaskStatus::Running
        } by {
            let aid = self.queue.active@[i]@;
            if aid == id {
                assert(self.queue.active_contains(id));
            } else {
                let k = choose|k: int|
                    0 <= k < orig.queue.active@.len() && orig.queue.active@[k]@ == aid;
                assert(orig.store.contains_id(aid) && orig.store.task_for(aid).status
                    == TaskStatus::Running);
                let ai = orig.store.index_of(aid);
                assert(orig.store.tasks@[ai].id@ == aid);
                assert(ai != oi);
                assert(self.store.tasks@[ai] == orig.store.tasks@[ai]);
                self.store.lemma_index_unique(aid, ai);
            }
        }
    }

    /// Reports one execution finished with a terminal outcome: releases
    /// the permit, removes the id from the active set, and stamps the
    /// record with the terminal status, outcome and completion time.
    /// Returns `false`, changing nothing, if the id is not in flight
    /// (for instance because it was cancelled meanwhile).
    pub fn complete_task(
        &mut self,
        task_id: &str,
        status: TaskStatus,
        result: Option<String>,
        error: Option<String>,
        now: u64,
    ) -> (r: bool)
        requires
            old(self).wf(),
            spec_is_terminal(status),
        ensures
            final(self).wf(),
            final(self).queue.config == old(self).queue.config,
            final(self).queue.shutdown_requested == old(self).queue.shutdown_requested,
            !old(self).queue.active_contains(task_id@) ==> !r && *final(self) == *old(self),
            old(self).queue.active_contains(task_id@) ==> {
                &&& r
                &&& final(self).queue.pending@ == old(self).queue.pending@
                &&& final(self).queue.active@ == old(self).queue.active@.remove(
                    old(self).queue.first_active_index(task_id@),
                )
                &&& final(self).queue.available_permits == old(self).queue.available_permits + 1
                &&& old(self).store.contains_id(task_id@)
                &&& final(self).store.tasks@ == old(self).store.tasks@.update(
                    old(self).store.index_of(task_id@),
                    (Task {
                        status: status,
                        result: result,
                        error: error,
                        completed_at: Some(now),
                        ..old(self).store.task_for(task_id@)
                    }),
                )
                &&& final(self).store.task_for(task_id@).status == status
                &&& final(self).store.task_for(task_id@).completed_at == Some(now)
            },
    {
        if !self.queue.finish_task(task_id) {
            return false;
        }
        proof {
            let ai = old(self).queue.first_active_index(task_id@);
            assert(old(self).queue.active@[ai]@ == task_id@);
            assert(old(self).store.task_for(task_id@).status == TaskStatus::Running);
        }
        let updated = self.store.update_task_status(task_id, status, result, error, now);
        proof {
            if updated is Err {
                assert(false);
            }
            let oldq = old(self).queue;
            let ai = oldq.first_active_index(task_id@);
            assert forall|i: int| 0 <= i < self.queue.active@.len() implies (oldq.active_contains(
                #[trigger] self.queue.active@[i]@,
            ) && self.queue.active@[i]@ != task_id@) || self.queue.active@[i]@ == task_id@ by {
                if i < ai {
                    assert(self.queue.active@[i] == oldq.active@[i]);
                } else {
                    assert(self.queue.active@[i] == oldq.active@[i + 1]);
                }
                if self.queue.active@[i]@ != task_id@ {
                }
            }
            assert forall|i: int|
                0 <= i < self.queue.pending@.len() implies #[trigger] self.queue.pending@[i].task_id@
                != task_id@ by {
                assert(old(self).store.task_for(self.queue.pending@[i].task_id@).status
                    == TaskStatus::Queued);
            }
            assert forall|i: int, j: int|
                0 <= i < j < self.queue.active@.len() implies self.queue.active@[i]@
                != self.queue.active@[j]@ by {
                let oi = if i < ai { i } else { i + 1 };
                let oj = if j < ai { j } else { j + 1 };
                assert(self.queue.active@[i] == oldq.active@[oi]);
                assert(self.queue.active@[j] == oldq.active@[oj]);
            }
            if self.queue.active_contains(task_id@) {
                let w = choose|i: int|
                    0 <= i < self.queue.active@.len() && self.queue.active@[i]@ == task_id@;
                let ow = if w < ai { w } else { w + 1 };
                assert(oldq.active@[ow]@ == task_id@);
                assert(ow != ai ==> oldq.active@[ow]@ != oldq.active@[ai]@);
                assert(false);
            }
            self.lemma_restore_wf_after_record_update(*old(self), task_id@);
        }
        true
    }

    /// Cancels a task. A still-pending task is removed from the pending
    /// queue and its record marked failed with the cancellation error;
    /// an in-flight task's id is removed from the active set, its permit
    /// returned — so the freed slot is immediately dispatchable — and its
    /// record marked failed likewise; the caller must then abort the
    /// execution handle it holds. An id in neither place — unknown, or
    /// already terminal — is `NotFound`, and nothing changes.
    pub fn cancel_task(&mut self, task_id: &str, now: u64) -> (r: Result<CancelKind, QueueError>)
        requires
            old(self).wf(),
        ensures
            final(self).wf(),
            final(self).queue.config == old(self).queue.config,
            final(self).queue.shutdown_requested == old(self).queue.shutdown_requested,
            old(self).queue.pending_contains(task_id@) ==> {
                &&& r == Ok::<CancelKind, QueueError>(CancelKind::Pending)
                &&& final(self).queue.pending@ == old(self).queue.pending@.filter(
                    |e: PendingEntry| e.task_id@ != task_id@,
                )
                &&& final(self).queue.active@ == old(self).queue.active@
                &&& final(self).queue.available_permits == old(self).queue.available_permits
            },
            !old(self).queue.pending_contains(task_id@) && old(self).queue.active_contains(
                task_id@,
            ) ==> {
                &&& r == Ok::<CancelKind, QueueError>(CancelKind::Active)
                &&& final(self).queue.pending@ == old(self).queue.pending@
                &&& final(self).queue.active@ == old(self).queue.active@.remove(
                    old(self).queue.first_active_index(task_id@),
                )
                &&& final(self).queue.available_permits == old(self).queue.available_permits + 1
            },
            r is Ok ==> {
                &&& old(self).store.contains_id(task_id@)
                &&& final(self).store.tasks@.len() == old(self).store.tasks@.len()
                &&& forall|j: int|
                    0 <= j < final(self).store.tasks@.len() && j != old(self).store.index_of(
                        task_id@,
                    ) ==> final(self).store.tasks@[j] == old(self).store.tasks@[j]
                &&& cancelled_record(
                    old(self).store.task_for(task_id@),
                    final(self).store.task_for(task_id@),
                    now,
                )
            },
            !old(self).queue.pending_contains(task_id@) && !old(self).queue.active_contains(
                task_id@,
            ) ==> r == Err::<CancelKind, QueueError>(QueueError::NotFound) && *final(self) == *old(
                self,
            ),
    {
        let kind = match self.queue.cancel_task(task_id) {
            Ok(k) => k,
            Err(e) => {
                return Err(e);
            },
        };
        proof {
            if old(self).queue.pending_contains(task_id@) {
                let i = choose|i: int|
                    0 <= i < old(self).queue.pending@.len()
                        && old(self).queue.pending@[i].task_id@ == task_id@;
                assert(old(self).store.task_for(task_id@).status == TaskStatus::Queued);
            } else {
                let i = old(self).queue.first_active_index(task_id@);
                assert(old(self).queue.active@[i]@ == task_id@);
                assert(old(self).store.task_for(task_id@).status == TaskStatus::Running);
            }
        }
        let updated = self.store.update_task_status(
            task_id,
            TaskStatus::Failed,
            None,
            Some(String::from_str("Task cancelled by user")),
            now,
        );
        proof {
            if updated is Err {
                assert(false);
            }
            let oldq = old(self).queue;
            if oldq.pending_contains(task_id@) {
                crate::queue::lemma_pending_filter_distinct(
                    oldq.pending@,
                    |e: PendingEntry| e.task_id@ != task_id@,
                    self.queue.pending@,
                );
                assert forall|i: int|
                    0 <= i < self.queue.pending@.len() implies oldq.pending_contains(
                    #[trigger] self.queue.pending@[i].task_id@,
                ) && self.queue.pending@[i].task_id@ != task_id@ by {
                    let k = choose|k: int|
                        0 <= k < oldq.pending@.len() && oldq.pending@[k] == self.queue.pending@[i];
                    assert(oldq.pending@[k].task_id@ == self.queue.pending@[i].task_id@);
                }
                assert forall|i: int|
                    0 <= i < self.queue.active@.len() implies oldq.active_contains(
                    #[trigger] self.queue.active@[i]@,
                ) && self.queue.active@[i]@ != task_id@ by {
                    assert(oldq.active@[i]@ == self.queue.active@[i]@);
                    if self.queue.active@[i]@ == task_id@ {
                        assert(old(self).store.task_for(task_id@).status == TaskStatus::Running);
                        assert(old(self).store.task_for(task_id@).status == TaskStatus::Queued);
                    }
                }
            } else {
                let ai = oldq.first_active_index(task_id@);
                assert forall|i: int|
                    0 <= i < self.queue.active@.len() implies (oldq.active_contains(
                    #[trigger] self.queue.active@[i]@,
                ) && self.queue.active@[i]@ != task_id@) || self.queue.active@[i]@ == task_id@ by {
                    if i < ai {
                        assert(self.queue.active@[i] == oldq.active@[i]);
                    } else {
                        assert(self.queue.active@[i] == oldq.active@[i + 1]);
                    }
                }
                assert forall|i: int, j: int|
                    0 <= i < j < self.queue.active@.len() implies self.queue.active@[i]@
                    != self.queue.active@[j]@ by {
                    let oi = if i < ai { i } else { i + 1 };
                    let oj = if j < ai { j } else { j + 1 };
                    assert(self.queue.active@[i] == oldq.active@[oi]);
                    assert(self.queue.active@[j] == oldq.active@[oj]);
                }
                if self.queue.active_contains(task_id@) {
                    let w = choose|i: int|
                        0 <= i < self.queue.active@.len() && self.queue.active@[i]@ == task_id@;
                    let ow = if w < ai { w } else { w + 1 };
                    assert(oldq.active@[ow]@ == task_id@);
                    assert(ow != ai ==> oldq.active@[ow]@ != oldq.active@[ai]@);
                    assert(false);
                }
            }
            assert forall|i: int|
                0 <= i < self.queue.pending@.len() implies #[trigger] self.queue.pending@[i].task_id@
                != task_id@ by {
                if !oldq.pending_contains(task_id@) {
                    assert(self.queue.pending@[i] == oldq.pending@[i]);
                    assert(oldq.pending_contains(oldq.pending@[i].task_id@));
                }
            }
            self.lemma_restore_wf_after_record_update(*old(self), task_id@);
        }
        Ok(kind)
    }

    /// Returns a copy of the record for `task_id`, or `None` if the id
    /// names no record.
    pub fn get_task(&self, task_id: &str) -> (r: Option<Task>)
        requires
            self.wf(),
        ensures
            match r {
                Some(t) => self.store.contains_id(task_id@) && t == self.store.task_for(task_id@),
                None => !self.store.contains_id(task_id@),
            },
    {
        self.store.get_task(task_id)
    }

    /// Returns all records, most recently created first.
    pub fn get_all_tasks(&self) -> (r: Vec<Task>)
        ensures
            r@.len() == self.store.tasks@.len(),
            forall|i: int|
                0 <= i < r@.len() ==> r@[i] == self.store.tasks@[self.store.tasks@.len() - 1 - i],
    {
        self.store.get_all_tasks()
    }

    /// A point-in-time snapshot of the queue counters.
    pub fn get_stats(&self) -> (r: QueueStats)
        ensures
            r.pending_count == self.queue.pending@.len(),
            r.active_count == self.queue.active@.len(),
            r.available_slots == self.queue.available_permits,
            r.max_concurrent == self.queue.config.max_concurrent,
    {
        self.queue.get_stats()
    }

    /// Signals the dispatch loop to stop pulling pending entries. The
    /// caller then polls [`TaskSystem::shutdown_wait_done`] until it
    /// reports done, sleeping between polls.
    pub fn shutdown(&mut self)
        requires
            old(self).wf(),
        ensures
            final(self).wf(),
            final(self).store == old(self).store,
            final(self).queue.config == old(self).queue.config,
            final(self).queue.pending@ == old(self).queue.pending@,
            final(self).queue.active@ == old(self).queue.active@,
            final(self).queue.available_permits == old(self).queue.available_permits,
            final(self).queue.shutdown_requested,
    {
        self.queue.shutdown();
    }

    /// Whether the shutdown wait may stop: every in-flight execution has
    /// finished, or the grace period has elapsed. A task that finishes
    /// within the grace period is observed — the wait does not stop
    /// before the active set is empty or time runs out.
    pub fn shutdown_wait_done(&self, elapsed: u64) -> (r: bool)
        ensures
            r == (self.queue.active@.len() == 0 || elapsed
                >= crate::queue::SHUTDOWN_GRACE_UNITS),
    {
        self.queue.shutdown_wait_done(elapsed)
    }

    /// Creates an idle system: no records, nothing pending, every permit
    /// free.
    pub fn new(config: QueueConfig) -> (s: TaskSystem)
        ensures
            s.wf(),
            s.queue.config == config,
            s.queue.pending@.len() == 0,
            s.queue.active@.len() == 0,
            s.queue.available_permits == config.max_concurrent,
            !s.queue.shutdown_requested,
            s.store.tasks@.len() == 0,
    {
        TaskSystem { queue: TaskQueue::new(config), store: crate::store::init_tasks_table() }
    }
}

} // verus!
