use vstd::prelude::*;

verus! {

/// Where one task stands in the pool.
#[derive(Clone, Copy, Debug, PartialEq, Eq, Structural)]
pub enum TaskStatus {
    Queued,
    Running,
    Succeeded,
    Failed,
}

/// Why a completion report was refused.
#[derive(Debug, PartialEq, Eq, Structural)]
pub enum PoolError {
    /// The task is unknown or is not running.
    NotRunning,
}

/// What the driver of a pool should do next.
#[derive(Debug, PartialEq, Eq, Structural)]
pub enum PoolStep {
    /// Run the task with this index.
    Start(usize),
    /// Ask the producer for another task.
    Produce,
    /// Wait for a running task to end and report it.
    Wait,
    /// The producer is exhausted and every task has ended.
    Finished,
}

/// How many entries of `s` are `t`.
pub open spec fn count_status(s: Seq<TaskStatus>, t: TaskStatus) -> nat
    decreases s.len(),
{
    if s.len() == 0 {
        0
    } else {
        count_status(s.drop_last(), t) + if s.last() == t {
            1nat
        } else {
            0nat
        }
    }
}

/// A task that has ended, well or not.
pub open spec fn is_settled(t: TaskStatus) -> bool {
    t == TaskStatus::Succeeded || t == TaskStatus::Failed
}

proof fn lemma_count_push(s: Seq<TaskStatus>, v: TaskStatus, t: TaskStatus)
    ensures
        count_status(s.push(v), t) == count_status(s, t) + if v == t {
            1nat
        } else {
            0nat
        },
{
    assert(s.push(v).drop_last() =~= s);
}

proof fn lemma_count_update(s: Seq<TaskStatus>, i: int, v: TaskStatus, t: TaskStatus)
    requires
        0 <= i < s.len(),
    ensures
        count_status(s.update(i, v), t) + (if s[i] == t {
            1nat
        } else {
            0nat
        }) == count_status(s, t) + (if v == t {
            1nat
        } else {
            0nat
        }),
    decreases s.len(),
{
    if i < s.len() - 1 {
        assert(s.update(i, v).drop_last() =~= s.drop_last().update(i, v));
        lemma_count_update(s.drop_last(), i, v, t);
    } else {
        assert(s.update(i, v).drop_last() =~= s.drop_last());
    }
}

/// Runs tasks with at most `limit` of them at once. Tasks are started in the
/// order they were submitted; a failed task is recorded and the others go on.
pub struct WorkerPool {
    limit: usize,
    status: Vec<TaskStatus>,
    next: usize,
    running: usize,
    succeeded: usize,
    failed: usize,
    closed: bool,
}

impl WorkerPool {
    /// The status of each task submitted so far, by submission index.
    pub closed spec fn statuses(&self) -> Seq<TaskStatus> {
        self.status@
    }

    /// The concurrency ceiling.
    pub closed spec fn limit(&self) -> nat {
        self.limit as nat
    }

    /// The producer has said that no more tasks will come.
    pub closed spec fn is_closed(&self) -> bool {
        self.closed
    }

    pub closed spec fn wf(&self) -> bool {
        &&& self.limit > 0
        &&& self.next <= self.status@.len()
        &&& forall|i: int| 0 <= i < self.next ==> #[trigger] self.status@[i] != TaskStatus::Queued
        &&& forall|i: int|
            self.next <= i < self.status@.len() ==> #[trigger] self.status@[i] == TaskStatus::Queued
        &&& self.running == count_status(self.status@, TaskStatus::Running)
        &&& self.succeeded == count_status(self.status@, TaskStatus::Succeeded)
        &&& self.failed == count_status(self.status@, TaskStatus::Failed)
        &&& self.running <= self.limit
    }

    /// The number of tasks running now.
    pub open spec fn running_count(&self) -> nat {
        count_status(self.statuses(), TaskStatus::Running)
    }

    /// Whether some submitted task has not started yet.
    pub open spec fn has_queued(&self) -> bool {
        exists|i: int| 0 <= i < self.statuses().len() && self.statuses()[i] == TaskStatus::Queued
    }

    pub fn new(limit: usize) -> (r: WorkerPool)
        requires
            limit > 0,
        ensures
            r.wf(),
            r.limit() == limit,
            r.statuses() == Seq::<TaskStatus>::empty(),
            !r.is_closed(),
    {
        WorkerPool {
            limit,
            status: Vec::new(),
            next: 0,
            running: 0,
            succeeded: 0,
            failed: 0,
            closed: false,
        }
    }

    /// Adds a task to the queue and returns its index.
    pub fn submit(&mut self) -> (idx: usize)
        requires
            old(self).wf(),
            old(self).statuses().len() < usize::MAX,
        ensures
            final(self).wf(),
            idx == old(self).statuses().len(),
            final(self).statuses() == old(self).statuses().push(TaskStatus::Queued),
            final(self).limit() == old(self).limit(),
            final(self).is_closed() == old(self).is_closed(),
    {
        proof {
            lemma_count_push(self.status@, TaskStatus::Queued, TaskStatus::Running);
            lemma_count_push(self.status@, TaskStatus::Queued, TaskStatus::Succeeded);
            lemma_count_push(self.status@, TaskStatus::Queued, TaskStatus::Failed);
        }
        let idx = self.status.len();
        self.status.push(TaskStatus::Queued);
        idx
    }

    /// Records that the producer is exhausted.
    pub fn close(&mut self)
        requires
            old(self).wf(),
        ensures
            final(self).wf(),
            final(self).is_closed(),
            final(self).statuses() == old(self).statuses(),
            final(self).limit() == old(self).limit(),
    {
        self.closed = true;
    }

    /// Starts the oldest queued task if a slot is free, and returns its index.
    pub fn start_next(&mut self) -> (r: Option<usize>)
        requires
            old(self).wf(),
        ensures
            final(self).wf(),
            final(self).limit() == old(self).limit(),
            final(self).is_closed() == old(self).is_closed(),
            r is Some <==> old(self).running_count() < old(self).limit() && old(self).has_queued(),
            r matches Some(i) ==> {
                &&& old(self).statuses()[i as int] == TaskStatus::Queued
                &&& forall|j: int| 0 <= j < i ==> old(self).statuses()[j] != TaskStatus::Queued
                &&& final(self).statuses() == old(self).statuses().update(i as int, TaskStatus::Running)
            },
            r is None ==> final(self).statuses() == old(self).statuses(),
    {
        if self.running < self.limit && self.next < self.status.len() {
            let i = self.next;
            proof {
                lemma_count_update(self.status@, i as int, TaskStatus::Running, TaskStatus::Running);
                lemma_count_update(self.status@, i as int, TaskStatus::Running, TaskStatus::Succeeded);
                lemma_count_update(self.status@, i as int, TaskStatus::Running, TaskStatus::Failed);
            }
            self.status.set(i, TaskStatus::Running);
            self.next = i + 1;
            self.running = self.running + 1;
            Some(i)
        } else {
            proof {
                if self.has_queued() {
                    let i = choose|i: int|
                        0 <= i < self.status@.len() && self.status@[i] == TaskStatus::Queued;
                    assert(i >= self.next);
                }
            }
            None
        }
    }

    /// Records that a running task ended, well (`ok`) or not. Only that task
    /// changes; a report on a task that is not running is refused.
    pub fn finish(&mut self, idx: usize, ok: bool) -> (r: Result<(), PoolError>)
        requires
            old(self).wf(),
        ensures
            final(self).wf(),
            final(self).limit() == old(self).limit(),
            final(self).is_closed() == old(self).is_closed(),
            r is Ok <==> idx < old(self).statuses().len() && old(self).statuses()[idx as int]
                == TaskStatus::Running,
            r is Ok ==> final(self).statuses() == old(self).statuses().update(
                idx as int,
                if ok {
                    TaskStatus::Succeeded
                } else {
                    TaskStatus::Failed
                },
            ),
            r is Err ==> final(self).statuses() == old(self).statuses(),
    {
        if idx >= self.status.len() || self.status[idx] != TaskStatus::Running {
            return Err(PoolError::NotRunning);
        }
        let v = if ok {
            TaskStatus::Succeeded
        } else {
            TaskStatus::Failed
        };
        proof {
            lemma_count_update(self.status@, idx as int, v, TaskStatus::Running);
            lemma_count_update(self.status@, idx as int, v, TaskStatus::Succeeded);
            lemma_count_update(self.status@, idx as int, v, TaskStatus::Failed);
        }
        self.status.set(idx, v);
        proof {
            lemma_count_bounded(self.status@, TaskStatus::Succeeded);
            lemma_count_bounded(self.status@, TaskStatus::Failed);
        }
        self.running = self.running - 1;
        if ok {
            self.succeeded = self.succeeded + 1;
        } else {
            self.failed = self.failed + 1;
        }
        Ok(())
    }

    /// Whether all work is done: the producer is exhausted and every task
    /// submitted has ended.
    pub fn is_finished(&self) -> (r: bool)
        requires
            self.wf(),
        ensures
            r == (self.is_closed() && forall|i: int|
                0 <= i < self.statuses().len() ==> is_settled(#[trigger] self.statuses()[i])),
    {
        let r = self.closed && self.next == self.status.len() && self.running == 0;
        proof {
            if self.closed && forall|i: int|
                0 <= i < self.statuses().len() ==> is_settled(#[trigger] self.statuses()[i]) {
                if self.next < self.status@.len() {
                    assert(is_settled(self.statuses()[self.next as int]));
                }
                if self.running > 0 {
                    lemma_count_positive(self.status@, TaskStatus::Running);
                    let i = choose|i: int|
                        0 <= i < self.status@.len() && self.status@[i] == TaskStatus::Running;
                    assert(is_settled(self.statuses()[i]));
                }
            }
            if r {
                assert forall|i: int| 0 <= i < self.statuses().len() implies is_settled(
                    #[trigger] self.statuses()[i],
                ) by {
                    if !is_settled(self.status@[i]) {
                        lemma_count_positive_at(self.status@, i, TaskStatus::Running);
                    }
                }
            }
        }
        r
    }

    /// Chooses the next step: start the oldest queued task while a slot is
    /// free; else ask for another task while the producer goes on and fewer
    /// than `limit` tasks wait; else wait for a running task; else finished.
    pub fn next_step(&mut self) -> (r: PoolStep)
        requires
            old(self).wf(),
        ensures
            final(self).wf(),
            final(self).limit() == old(self).limit(),
            final(self).is_closed() == old(self).is_closed(),
            r matches PoolStep::Start(i) ==> {
                &&& old(self).running_count() < old(self).limit()
                &&& old(self).statuses()[i as int] == TaskStatus::Queued
                &&& forall|j: int| 0 <= j < i ==> old(self).statuses()[j] != TaskStatus::Queued
                &&& final(self).statuses() == old(self).statuses().update(i as int, TaskStatus::Running)
            },
            !(r is Start) ==> final(self).statuses() == old(self).statuses(),
            r is Start <==> old(self).running_count() < old(self).limit() && old(self).has_queued(),
            r is Produce <==> !(old(self).running_count() < old(self).limit() && old(self).has_queued())
                && !old(self).is_closed() && count_status(old(self).statuses(), TaskStatus::Queued)
                < old(self).limit(),
            r is Finished <==> (old(self).is_closed() && forall|i: int|
                0 <= i < old(self).statuses().len() ==> is_settled(#[trigger] old(self).statuses()[i])),
    {
        match self.start_next() {
            Some(i) => PoolStep::Start(i),
            None => {
                if !self.closed && self.queued_count() < self.limit {
                    PoolStep::Produce
                } else if self.is_finished() {
                    PoolStep::Finished
                } else {
                    PoolStep::Wait
                }
            },
        }
    }

    /// The number of tasks submitted.
    pub fn task_count(&self) -> (r: usize)
        ensures
            r == self.statuses().len(),
    {
        self.status.len()
    }

    /// Whether task `idx` is running.
    pub fn is_running(&self, idx: usize) -> (r: bool)
        requires
            self.wf(),
        ensures
            r == (idx < self.statuses().len() && self.statuses()[idx as int] == TaskStatus::Running),
    {
        idx < self.status.len() && self.status[idx] == TaskStatus::Running
    }

    /// The concurrency ceiling.
    pub fn limit_value(&self) -> (r: usize)
        requires
            self.wf(),
        ensures
            r == self.limit(),
    {
        self.limit
    }

    /// The number of tasks submitted but not started.
    pub fn queued_count(&self) -> (r: usize)
        requires
            self.wf(),
        ensures
            r == count_status(self.statuses(), TaskStatus::Queued),
    {
        proof {
            lemma_count_suffix(self.status@, self.next as int);
        }
        self.status.len() - self.next
    }

    /// The number of tasks running now.
    pub fn running(&self) -> (r: usize)
        requires
            self.wf(),
        ensures
            r == self.running_count(),
    {
        self.running
    }

    /// The number of tasks that ended well.
    pub fn succeeded(&self) -> (r: usize)
        requires
            self.wf(),
        ensures
            r == count_status(self.statuses(), TaskStatus::Succeeded),
    {
        self.succeeded
    }

    /// The number of tasks that failed.
    pub fn failed(&self) -> (r: usize)
        requires
            self.wf(),
        ensures
            r == count_status(self.statuses(), TaskStatus::Failed),
    {
        self.failed
    }
}

proof fn lemma_count_suffix(s: Seq<TaskStatus>, k: int)
    requires
        0 <= k <= s.len(),
        forall|i: int| 0 <= i < k ==> #[trigger] s[i] != TaskStatus::Queued,
        forall|i: int| k <= i < s.len() ==> #[trigger] s[i] == TaskStatus::Queued,
    ensures
        count_status(s, TaskStatus::Queued) == s.len() - k,
    decreases s.len(),
{
    if s.len() > 0 {
        if k < s.len() {
            lemma_count_suffix(s.drop_last(), k);
        } else {
            lemma_count_suffix(s.drop_last(), k - 1);
        }
    }
}

proof fn lemma_count_bounded(s: Seq<TaskStatus>, t: TaskStatus)
    ensures
        count_status(s, t) <= s.len(),
    decreases s.len(),
{
    if s.len() > 0 {
        lemma_count_bounded(s.drop_last(), t);
    }
}

proof fn lemma_count_positive(s: Seq<TaskStatus>, t: TaskStatus)
    requires
        count_status(s, t) > 0,
    ensures
        exists|i: int| 0 <= i < s.len() && s[i] == t,
    decreases s.len(),
{
    if s.last() != t {
        lemma_count_positive(s.drop_last(), t);
        let i = choose|i: int| 0 <= i < s.drop_last().len() && s.drop_last()[i] == t;
        assert(s[i] == t);
    } else {
        assert(s[s.len() - 1] == t);
    }
}

proof fn lemma_count_positive_at(s: Seq<TaskStatus>, i: int, t: TaskStatus)
    requires
        0 <= i < s.len(),
        s[i] == t,
    ensures
        count_status(s, t) > 0,
    decreases s.len(),
{
    if i < s.len() - 1 {
        lemma_count_positive_at(s.drop_last(), i, t);
    }
}

/// However many tasks are submitted, no more than the ceiling run at once.
pub proof fn lemma_concurrency_ceiling(p: &WorkerPool)
    requires
        p.wf(),
    ensures
        p.running_count() <= p.limit(),
{
}

} // verus!
