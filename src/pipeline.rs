use vstd::prelude::*;

use crate::listing::{string_views, ListPage, Lister};
use crate::pool::{count_status, is_settled, TaskStatus, WorkerPool};
use crate::utils::concat_all;

verus! {

/// What the driver of a key pipeline should do next.
#[derive(Debug, PartialEq, Eq)]
pub enum Step {
    /// Fetch a listing page, with this continuation token.
    List(Option<String>),
    /// Run the task with this index on this object key.
    Start(usize, String),
    /// Wait for a running task to end and report it.
    Wait,
    /// Every listed key has been handled.
    Finished,
}

/// Object keys from a paginated listing, handed to a bounded worker pool as
/// they arrive. The queue of keys not yet started is held to the pool's
/// limit: listing waits while it is full.
pub struct KeyPipeline {
    lister: Lister,
    pool: WorkerPool,
    keys: Vec<String>,
}

impl KeyPipeline {
    pub closed spec fn lister(&self) -> Lister {
        self.lister
    }

    pub closed spec fn pool(&self) -> WorkerPool {
        self.pool
    }

    /// The key of each task, by task index.
    pub closed spec fn keys(&self) -> Seq<Seq<char>> {
        string_views(self.keys@)
    }

    pub closed spec fn wf(&self) -> bool {
        &&& self.lister.wf()
        &&& self.pool.wf()
        &&& string_views(self.keys@) == self.lister.yielded()
        &&& self.pool.statuses().len() == self.keys@.len()
        &&& self.pool.is_closed() == self.lister.is_done()
    }

    /// The keys are those the listing handed out, one task each.
    pub proof fn lemma_wf_facts(&self)
        requires
            self.wf(),
        ensures
            self.keys() == concat_all(self.lister().pages()),
            self.keys().len() == self.pool().statuses().len(),
            self.pool().running_count() <= self.pool().limit(),
    {
        crate::listing::lemma_listing_yields_every_page(&self.lister);
        crate::pool::lemma_concurrency_ceiling(&self.pool);
    }

    /// Every task has ended and the listing is over.
    pub open spec fn all_handled(&self) -> bool {
        &&& self.lister().is_done()
        &&& forall|i: int|
            0 <= i < self.pool().statuses().len() ==> is_settled(#[trigger] self.pool().statuses()[i])
    }

    pub fn new(limit: usize) -> (r: KeyPipeline)
        requires
            limit > 0,
        ensures
            r.wf(),
            r.pool().limit() == limit,
            !r.lister().is_done(),
            r.lister().token() is None,
            r.keys() == Seq::<Seq<char>>::empty(),
    {
        let r = KeyPipeline { lister: Lister::new(), pool: WorkerPool::new(limit), keys: Vec::new() };
        assert(string_views(r.keys@) =~= Seq::<Seq<char>>::empty());
        r
    }

    /// Chooses the next step: start a queued task while a slot is free; else
    /// fetch a page while the listing goes on and fewer than `limit` tasks
    /// wait; else wait for a running task; else the work is finished.
    pub fn next_step(&mut self) -> (r: Step)
        requires
            old(self).wf(),
        ensures
            final(self).wf(),
            final(self).lister() == old(self).lister(),
            final(self).keys() == old(self).keys(),
            final(self).pool().limit() == old(self).pool().limit(),
            r matches Step::Start(i, k) ==> {
                &&& i < old(self).keys().len()
                &&& k@ == old(self).keys()[i as int]
                &&& old(self).pool().statuses()[i as int] == TaskStatus::Queued
                &&& final(self).pool().statuses() == old(self).pool().statuses().update(
                    i as int,
                    TaskStatus::Running,
                )
            },
            !(r is Start) ==> final(self).pool().statuses() == old(self).pool().statuses(),
            r matches Step::List(t) ==> t == old(self).lister().token(),
            r is Start <==> old(self).pool().running_count() < old(self).pool().limit()
                && old(self).pool().has_queued(),
            r is List <==> !(old(self).pool().running_count() < old(self).pool().limit()
                && old(self).pool().has_queued()) && !old(self).lister().is_done() && count_status(
                old(self).pool().statuses(),
                TaskStatus::Queued,
            ) < old(self).pool().limit(),
            r is Finished <==> old(self).all_handled(),
    {
        match self.pool.start_next() {
            Some(i) => {
                let k = self.keys[i].clone();
                Step::Start(i, k)
            },
            None => {
                if !self.lister.done() && self.pool.queued_count() < self.pool.limit_value() {
                    match self.lister.next_request() {
                        Some(t) => Step::List(t),
                        None => Step::Finished,
                    }
                } else if self.pool.is_finished() {
                    Step::Finished
                } else {
                    Step::Wait
                }
            },
        }
    }

    /// Takes a fetched page: each key in it becomes a queued task.
    pub fn on_page(&mut self, page: ListPage) -> (r: Vec<String>)
        requires
            old(self).wf(),
            !old(self).lister().is_done(),
            old(self).keys().len() + page.keys@.len() < usize::MAX,
        ensures
            final(self).wf(),
            string_views(r@) == crate::listing::present_keys(page.keys@),
            final(self).keys() == old(self).keys() + string_views(r@),
            final(self).pool().statuses().len() == final(self).keys().len(),
            final(self).pool().statuses().subrange(0, old(self).keys().len() as int)
                == old(self).pool().statuses(),
            forall|j: int|
                old(self).keys().len() <= j < final(self).keys().len()
                    ==> #[trigger] final(self).pool().statuses()[j] == TaskStatus::Queued,
            final(self).pool().limit() == old(self).pool().limit(),
            final(self).lister().pages() == old(self).lister().pages().push(
                crate::listing::present_keys(page.keys@),
            ),
            final(self).lister().is_done() == !(crate::listing::page_truncated(page)
                && page.next_continuation_token is Some),
            !final(self).lister().is_done() ==> final(self).lister().token()
                == page.next_continuation_token,
    {
        let ghost old_keys = self.keys@;
        let ghost old_status = self.pool.statuses();
        let fresh = self.lister.accept_page(page);
        let ghost listed = self.lister;
        let mut i: usize = 0;
        while i < fresh.len()
            invariant
                self.lister == listed,
                self.pool.wf(),
                !self.pool.is_closed(),
                i <= fresh@.len(),
                self.keys@ == old_keys + fresh@.subrange(0, i as int),
                self.pool.statuses().len() == self.keys@.len(),
                self.pool.statuses().subrange(0, old_keys.len() as int) == old_status,
                forall|j: int|
                    old_keys.len() <= j < self.keys@.len() ==> #[trigger] self.pool.statuses()[j]
                        == TaskStatus::Queued,
                old_keys.len() == old_status.len(),
                old_keys.len() + fresh@.len() < usize::MAX,
                self.pool.limit() == old(self).pool.limit(),
            decreases fresh@.len() - i,
        {
            self.pool.submit();
            self.keys.push(fresh[i].clone());
            i = i + 1;
            assert(self.keys@ =~= old_keys + fresh@.subrange(0, i as int));
            assert(self.pool.statuses().subrange(0, old_keys.len() as int) =~= old_status);
        }
        assert(fresh@.subrange(0, fresh@.len() as int) =~= fresh@);
        assert(string_views(self.keys@) =~= string_views(old_keys) + string_views(fresh@));
        if self.lister.done() {
            self.pool.close();
        }
        fresh
    }

    /// Ends the listing after a failed request: the keys already listed are
    /// still handled.
    pub fn on_listing_failed(&mut self)
        requires
            old(self).wf(),
            !old(self).lister().is_done(),
        ensures
            final(self).wf(),
            final(self).lister().is_done(),
            final(self).lister().pages() == old(self).lister().pages(),
            final(self).keys() == old(self).keys(),
            final(self).pool().statuses() == old(self).pool().statuses(),
            final(self).pool().limit() == old(self).pool().limit(),
    {
        self.lister.abandon();
        self.pool.close();
    }

    /// Reports that task `idx` ended, well (`ok`) or not.
    pub fn on_task_end(&mut self, idx: usize, ok: bool) -> (r: Result<(), crate::pool::PoolError>)
        requires
            old(self).wf(),
        ensures
            final(self).wf(),
            final(self).lister() == old(self).lister(),
            final(self).keys() == old(self).keys(),
            final(self).pool().limit() == old(self).pool().limit(),
            r is Ok <==> idx < old(self).pool().statuses().len()
                && old(self).pool().statuses()[idx as int] == TaskStatus::Running,
            r is Ok ==> final(self).pool().statuses() == old(self).pool().statuses().update(
                idx as int,
                if ok {
                    TaskStatus::Succeeded
                } else {
                    TaskStatus::Failed
                },
            ),
            r is Err ==> final(self).pool().statuses() == old(self).pool().statuses(),
    {
        self.pool.finish(idx, ok)
    }

    /// The number of tasks that ended well.
    pub fn succeeded(&self) -> (r: usize)
        requires
            self.wf(),
        ensures
            r == crate::pool::count_status(self.pool().statuses(), TaskStatus::Succeeded),
    {
        self.pool.succeeded()
    }

    /// The number of tasks that failed.
    pub fn failed(&self) -> (r: usize)
        requires
            self.wf(),
        ensures
            r == crate::pool::count_status(self.pool().statuses(), TaskStatus::Failed),
    {
        self.pool.failed()
    }
}

} // verus!
