//! The bounded concurrent task queue: admission control, FIFO dispatch
//! under a fixed concurrency cap, cancellation, and graceful-shutdown
//! signalling.
//!
//! The queue is a synchronous state machine. The hosting application runs
//! the dispatch loop: it repeatedly calls [`TaskQueue::dispatch_next`],
//! spawns the returned entry's execution, and reports completion through
//! [`TaskQueue::finish_task`]. Concurrency permits are plain counters
//! here; the invariant `active + available == max_concurrent` is what
//! bounds parallel executions.

use vstd::prelude::*;

use crate::strutil::str_eq;
use crate::task::TaskRequest;

verus! {

/// How long shutdown waits for in-flight executions, in time units.
pub const SHUTDOWN_GRACE_UNITS: u64 = 30;

/// Immutable queue configuration.
#[derive(Debug, Clone, Copy)]
pub struct QueueConfig {
    /// Upper bound on simultaneously running executions.
    pub max_concurrent: usize,
    /// Upper bound on the pending queue's length.
    pub max_queue_size: usize,
}

impl Default for QueueConfig {
    /// The default configuration: at most 5 concurrent executions and at
    /// most 100 pending entries.
    fn default() -> (r: Self)
        ensures
            r.max_concurrent == 5,
            r.max_queue_size == 100,
    {
        QueueConfig { max_concurrent: 5, max_queue_size: 100 }
    }
}

/// Point-in-time queue counters.
#[derive(Debug, Clone, Copy)]
pub struct QueueStats {
    pub pending_count: usize,
    pub active_count: usize,
    pub available_slots: usize,
    pub max_concurrent: usize,
}

/// Errors of queue operations.
#[derive(Debug, Clone, Copy, PartialEq, Eq, Structural)]
pub enum QueueError {
    /// The pending queue is at its configured maximum.
    QueueFull,
    /// The task id is neither pending nor active.
    NotFound,
}

impl QueueError {
    /// A human-readable description of the error.
    pub fn message(&self) -> (r: String)
        ensures
            *self is QueueFull ==> r@ == "Task queue full"@,
            *self is NotFound ==> r@ == "Task not found"@,
    {
        match self {
            QueueError::QueueFull => String::from_str("Task queue full"),
            QueueError::NotFound => String::from_str("Task not found"),
        }
    }
}

/// Where a cancelled task was found: still pending, or already executing.
/// For an active task the caller must also abort the execution handle it
/// holds for the id.
#[derive(Debug, Clone, Copy, PartialEq, Eq, Structural)]
pub enum CancelKind {
    Pending,
    Active,
}

/// One pending entry: the task id and its request, awaiting a free slot.
pub struct PendingEntry {
    pub task_id: String,
    pub request: TaskRequest,
}

impl Clone for PendingEntry {
    fn clone(&self) -> (r: Self)
        ensures
            r == *self,
    {
        PendingEntry { task_id: self.task_id.clone(), request: self.request.clone() }
    }
}

/// Removing one id from a pending sequence with pairwise-distinct ids
/// keeps every surviving entry an entry of the unfiltered sequence, and
/// keeps the ids pairwise distinct.
pub proof fn lemma_pending_filter_distinct(
    s: Seq<PendingEntry>,
    pred: spec_fn(PendingEntry) -> bool,
    f: Seq<PendingEntry>,
)
    requires
        forall|i: int, j: int| 0 <= i < j < s.len() ==> s[i].task_id@ != s[j].task_id@,
        f == s.filter(pred),
    ensures
        forall|i: int|
            0 <= i < f.len() ==> exists|k: int| 0 <= k < s.len() && s[k] == #[trigger] f[i],
        forall|i: int, j: int| 0 <= i < j < f.len() ==> f[i].task_id@ != f[j].task_id@,
    decreases s.len(),
{
    reveal(Seq::filter);
    if s.len() > 0 {
        let prefix = s.drop_last();
        let fp = prefix.filter(pred);
        lemma_pending_filter_distinct(prefix, pred, fp);
        assert forall|i: int| 0 <= i < f.len() implies exists|k: int|
            0 <= k < s.len() && s[k] == #[trigger] f[i] by {
            if pred(s.last()) && i == f.len() - 1 {
                assert(s[s.len() - 1] == f[i]);
            } else {
                assert(f[i] == fp[i]);
                let k = choose|k: int| 0 <= k < prefix.len() && prefix[k] == fp[i];
                assert(s[k] == f[i]);
            }
        }
        assert forall|i: int, j: int|
            0 <= i < j < f.len() implies f[i].task_id@ != f[j].task_id@ by {
            if pred(s.last()) && j == f.len() - 1 {
                assert(f[i] == fp[i]);
                let k = choose|k: int| 0 <= k < prefix.len() && prefix[k] == fp[i];
                assert(s[k].task_id@ != s[s.len() - 1].task_id@);
            } else {
                assert(f[i] == fp[i] && f[j] == fp[j]);
            }
        }
    }
}

/// The queue state: configuration, the FIFO pending sequence, the ids of
/// in-flight executions, the free-permit counter, and the shutdown flag.
pub struct TaskQueue {
    pub config: QueueConfig,
    pub pending: Vec<PendingEntry>,
    pub active: Vec<String>,
    pub available_permits: usize,
    pub shutdown_requested: bool,
}

impl TaskQueue {
    /// Whether some pending entry carries the id.
    pub open spec fn pending_contains(self, id: Seq<char>) -> bool {
        exists|i: int| 0 <= i < self.pending@.len() && self.pending@[i].task_id@ == id
    }

    /// Whether the id is among the in-flight executions.
    pub open spec fn active_contains(self, id: Seq<char>) -> bool {
        exists|i: int| 0 <= i < self.active@.len() && self.active@[i]@ == id
    }

    /// The position of the first in-flight occurrence of the id.
    pub open spec fn first_active_index(self, id: Seq<char>) -> int {
        choose|i: int|
            0 <= i < self.active@.len() && self.active@[i]@ == id && (forall|j: int|
                0 <= j < i ==> self.active@[j]@ != id)
    }

    /// Well-formedness: outstanding permits and free permits always sum
    /// to the configured maximum, and admission respects the bound.
    pub open spec fn wf(self) -> bool {
        &&& self.active@.len() + self.available_permits == self.config.max_concurrent
        &&& self.pending@.len() <= self.config.max_queue_size
    }

    /// At no instant do in-flight executions exceed the configured cap:
    /// the permit counter accounts for every active entry.
    pub proof fn lemma_active_bounded(self)
        requires
            self.wf(),
        ensures
            self.active@.len() <= self.config.max_concurrent,
    {
    }

    /// A queue below its concurrency cap always has a free permit, so a
    /// released slot is immediately available to dispatch.
    pub proof fn lemma_capacity_available(self)
        requires
            self.wf(),
            self.active@.len() < self.config.max_concurrent,
        ensures
            self.available_permits > 0,
    {
    }

    /// Creates an idle queue with every permit free.
    pub fn new(config: QueueConfig) -> (q: TaskQueue)
        ensures
            q.wf(),
            q.config == config,
            q.pending@.len() == 0,
            q.active@.len() == 0,
            q.available_permits == config.max_concurrent,
            !q.shutdown_requested,
    {
        TaskQueue {
            available_permits: config.max_concurrent,
            config,
            pending: Vec::new(),
            active: Vec::new(),
            shutdown_requested: false,
        }
    }

    /// Appends a task to the pending queue, unless the queue is already at
    /// its configured maximum, in which case it fails without side effects.
    pub fn submit(&mut self, task_id: String, request: TaskRequest) -> (r: Result<
        (),
        QueueError,
    >)
        requires
            old(self).wf(),
        ensures
            final(self).wf(),
            final(self).config == old(self).config,
            final(self).active@ == old(self).active@,
            final(self).available_permits == old(self).available_permits,
            final(self).shutdown_requested == old(self).shutdown_requested,
            old(self).pending@.len() >= old(self).config.max_queue_size ==> r == Err::<
                (),
                QueueError,
            >(QueueError::QueueFull) && final(self).pending@ == old(self).pending@,
            old(self).pending@.len() < old(self).config.max_queue_size ==> r == Ok::<
                (),
                QueueError,
            >(()) && final(self).pending@ == old(self).pending@.push(
                (PendingEntry { task_id: task_id, request: request }),
            ),
    {
        if self.pending.len() >= self.config.max_queue_size {
            return Err(QueueError::QueueFull);
        }
        self.pending.push(PendingEntry { task_id, request });
        Ok(())
    }

    /// One dispatch decision. Returns the oldest pending entry after
    /// moving its id into the active set and consuming one permit; returns
    /// `None`, changing nothing, when shutdown has been requested, no
    /// permit is free, or nothing is pending.
    pub fn dispatch_next(&mut self) -> (r: Option<PendingEntry>)
        requires
            old(self).wf(),
        ensures
            final(self).wf(),
            final(self).config == old(self).config,
            final(self).shutdown_requested == old(self).shutdown_requested,
            match r {
                None => {
                    &&& *final(self) == *old(self)
                    &&& (old(self).shutdown_requested || old(self).available_permits == 0
                        || old(self).pending@.len() == 0)
                },
                Some(e) => {
                    &&& !old(self).shutdown_requested
                    &&& old(self).available_permits > 0
                    &&& old(self).pending@.len() > 0
                    &&& e == old(self).pending@[0]
                    &&& final(self).pending@ == old(self).pending@.drop_first()
                    &&& final(self).active@ == old(self).active@.push(e.task_id)
                    &&& final(self).available_permits == old(self).available_permits - 1
                },
            },
    {
        if self.shutdown_requested {
            return None;
        }
        if self.available_permits == 0 {
            return None;
        }
        if self.pending.len() == 0 {
            return None;
        }
        let entry = self.pending.remove(0);
        self.active.push(entry.task_id.clone());
        self.available_permits = self.available_permits - 1;
        proof {
            assert(final(self).pending@ =~= old(self).pending@.drop_first());
        }
        Some(entry)
    }

    /// Marks an in-flight execution finished: removes the first active
    /// occurrence of the id and returns its permit. Returns `false`,
    /// changing nothing, if the id is not active.
    pub fn finish_task(&mut self, task_id: &str) -> (r: bool)
        requires
            old(self).wf(),
        ensures
            final(self).wf(),
            final(self).config == old(self).config,
            final(self).pending@ == old(self).pending@,
            final(self).shutdown_requested == old(self).shutdown_requested,
            !old(self).active_contains(task_id@) ==> !r && *final(self) == *old(self),
            old(self).active_contains(task_id@) ==> {
                &&& r
                &&& final(self).active@ == old(self).active@.remove(
                    old(self).first_active_index(task_id@),
                )
                &&& final(self).available_permits == old(self).available_permits + 1
            },
    {
        let mut k: usize = 0;
        while k < self.active.len()
            invariant
                *self == *old(self),
                self.wf(),
                k <= self.active@.len(),
                forall|j: int| 0 <= j < k ==> self.active@[j]@ != task_id@,
            decreases self.active@.len() - k,
        {
            if str_eq(self.active[k].as_str(), task_id) {
                proof {
                    let i = self.first_active_index(task_id@);
                    assert(self.active@[k as int]@ == task_id@ && forall|j: int|
                        0 <= j < k ==> self.active@[j]@ != task_id@);
                    assert(i == k as int);
                }
                self.active.remove(k);
                self.available_permits = self.available_permits + 1;
                return true;
            }
            k += 1;
        }
        false
    }

    /// Cancels a task. A pending task is removed from the pending queue
    /// (every entry under that id); an active task's id is removed from
    /// the active set and its permit returned, and the caller must abort
    /// the execution handle. An id in neither place is `NotFound`.
    pub fn cancel_task(&mut self, task_id: &str) -> (r: Result<CancelKind, QueueError>)
        requires
            old(self).wf(),
        ensures
            final(self).wf(),
            final(self).config == old(self).config,
            final(self).shutdown_requested == old(self).shutdown_requested,
            old(self).pending_contains(task_id@) ==> {
                &&& r == Ok::<CancelKind, QueueError>(CancelKind::Pending)
                &&& final(self).pending@ == old(self).pending@.filter(
                    |e: PendingEntry| e.task_id@ != task_id@,
                )
                &&& final(self).active@ == old(self).active@
                &&& final(self).available_permits == old(self).available_permits
            },
            !old(self).pending_contains(task_id@) && old(self).active_contains(task_id@) ==> {
                &&& r == Ok::<CancelKind, QueueError>(CancelKind::Active)
                &&& final(self).pending@ == old(self).pending@
                &&& final(self).active@ == old(self).active@.remove(
                    old(self).first_active_index(task_id@),
                )
                &&& final(self).available_permits == old(self).available_permits + 1
            },
            !old(self).pending_contains(task_id@) && !old(self).active_contains(task_id@) ==> {
                &&& r == Err::<CancelKind, QueueError>(QueueError::NotFound)
                &&& *final(self) == *old(self)
            },
    {
        if self.remove_pending(task_id) {
            return Ok(CancelKind::Pending);
        }
        if self.finish_task(task_id) {
            return Ok(CancelKind::Active);
        }
        Err(QueueError::NotFound)
    }

    /// Removes every pending entry under the id; reports whether any
    /// entry was removed.
    fn remove_pending(&mut self, task_id: &str) -> (r: bool)
        requires
            old(self).wf(),
        ensures
            final(self).wf(),
            final(self).config == old(self).config,
            final(self).active@ == old(self).active@,
            final(self).available_permits == old(self).available_permits,
            final(self).shutdown_requested == old(self).shutdown_requested,
            r == old(self).pending_contains(task_id@),
            r ==> final(self).pending@ == old(self).pending@.filter(
                |e: PendingEntry| e.task_id@ != task_id@,
            ),
            !r ==> *final(self) == *old(self),
    {
        let ghost pred = |e: PendingEntry| e.task_id@ != task_id@;
        let mut kept: Vec<PendingEntry> = Vec::new();
        let mut found = false;
        let n = self.pending.len();
        let mut k: usize = 0;
        proof {
            reveal(Seq::filter);
            assert(old(self).pending@.subrange(0, 0) =~= Seq::<PendingEntry>::empty());
        }
        while k < n
            invariant
                n == self.pending@.len(),
                self.pending@ == old(self).pending@,
                k <= n,
                kept@ == old(self).pending@.subrange(0, k as int).filter(pred),
                found == exists|i: int| 0 <= i < k && old(self).pending@[i].task_id@ == task_id@,
                pred == (|e: PendingEntry| e.task_id@ != task_id@),
            decreases n - k,
        {
            let ghost prefix = old(self).pending@.subrange(0, k as int);
            let ghost prefix1 = old(self).pending@.subrange(0, k as int + 1);
            proof {
                reveal(Seq::filter);
                assert(prefix1.drop_last() =~= prefix);
                assert(prefix1.last() == old(self).pending@[k as int]);
            }
            if str_eq(self.pending[k].task_id.as_str(), task_id) {
                found = true;
                proof {
                    assert(prefix1.filter(pred) =~= prefix.filter(pred));
                }
            } else {
                kept.push(self.pending[k].clone());
                proof {
                    assert(prefix1.filter(pred) =~= prefix.filter(pred).push(
                        old(self).pending@[k as int],
                    ));
                }
            }
            k += 1;
        }
        proof {
            assert(old(self).pending@.subrange(0, n as int) =~= old(self).pending@);
        }
        if found {
            self.pending = kept;
            proof {
                old(self).pending@.lemma_filter_len(pred);
            }
        }
        found
    }

    /// A point-in-time snapshot of the queue counters.
    pub fn get_stats(&self) -> (r: QueueStats)
        ensures
            r.pending_count == self.pending@.len(),
            r.active_count == self.active@.len(),
            r.available_slots == self.available_permits,
            r.max_concurrent == self.config.max_concurrent,
    {
        QueueStats {
            pending_count: self.pending.len(),
            active_count: self.active.len(),
            available_slots: self.available_permits,
            max_concurrent: self.config.max_concurrent,
        }
    }

    /// Signals the dispatch loop to stop pulling pending entries. The
    /// caller then waits, polling [`TaskQueue::shutdown_wait_done`], up to
    /// the grace period; in-flight executions are not aborted.
    pub fn shutdown(&mut self)
        requires
            old(self).wf(),
        ensures
            final(self).wf(),
            final(self).config == old(self).config,
            final(self).pending@ == old(self).pending@,
            final(self).active@ == old(self).active@,
            final(self).available_permits == old(self).available_permits,
            final(self).shutdown_requested,
    {
        self.shutdown_requested = true;
    }

    /// Whether the shutdown wait may stop: every in-flight execution has
    /// finished, or the grace period has elapsed. Until then the wait
    /// continues; executions past the grace period are left running.
    pub fn shutdown_wait_done(&self, elapsed: u64) -> (r: bool)
        ensures
            r == (self.active@.len() == 0 || elapsed >= SHUTDOWN_GRACE_UNITS),
    {
        self.active.len() == 0 || elapsed >= SHUTDOWN_GRACE_UNITS
    }
}

} // verus!
