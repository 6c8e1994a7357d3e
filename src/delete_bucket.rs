use vstd::prelude::*;

use crate::listing::ListPage;
use crate::pipeline::{KeyPipeline, Step};
use crate::pool::{count_status, is_settled, PoolError, TaskStatus};
use crate::utils::{concat_all, concurrency_limit, default_endpoint, resolve_endpoint, DEFAULT_DELETE_CONCURRENCY};

verus! {

/// Settings of a bulk delete followed by removal of the bucket.
pub struct Args {
    /// The command word.
    pub db: Option<String>,
    pub bucket: String,
    pub region: String,
    pub aws_access_key_id: String,
    pub aws_secret_access_key: String,
    pub endpoint: Option<String>,
    pub concurrency: Option<usize>,
}

impl Args {
    /// How many objects are deleted at once.
    pub fn concurrency_limit(&self) -> (r: usize)
        ensures
            r == match self.concurrency {
                Some(n) => if n > 0 {
                    n
                } else {
                    DEFAULT_DELETE_CONCURRENCY
                },
                None => DEFAULT_DELETE_CONCURRENCY,
            },
    {
        concurrency_limit(self.concurrency, DEFAULT_DELETE_CONCURRENCY)
    }

    /// The endpoint of the backend.
    pub fn endpoint(&self) -> (r: String)
        ensures
            r@ == match self.endpoint {
                Some(e) => e@,
                None => default_endpoint(self.region@),
            },
    {
        resolve_endpoint(&self.endpoint, self.region.as_str())
    }
}

/// What the driver of a bulk delete should do next.
#[derive(Debug, PartialEq, Eq)]
pub enum DeleteStep {
    /// Fetch a listing page, with this continuation token.
    List(Option<String>),
    /// Delete this object (task index, key), bypassing retention.
    Delete(usize, String),
    /// Wait for a running delete to end and report it.
    Wait,
    /// Remove the bucket itself.
    RemoveBucket,
    /// Nothing is left to do.
    Done,
}

/// A bulk delete: every listed object is deleted, then the bucket is removed.
pub struct DeleteRun {
    objects: KeyPipeline,
    bucket_removed: bool,
}

impl DeleteRun {
    pub closed spec fn objects(&self) -> KeyPipeline {
        self.objects
    }

    /// The bucket-removal call has been made.
    pub closed spec fn bucket_removed(&self) -> bool {
        self.bucket_removed
    }

    pub open spec fn wf(&self) -> bool {
        self.objects().wf()
    }

    pub fn new(limit: usize) -> (r: DeleteRun)
        requires
            limit > 0,
        ensures
            r.wf(),
            r.objects().pool().limit() == limit,
            !r.objects().lister().is_done(),
            r.objects().lister().token() is None,
            !r.bucket_removed(),
    {
        DeleteRun { objects: KeyPipeline::new(limit), bucket_removed: false }
    }

    /// Chooses the next step. The bucket is removed once, and only when the
    /// listing is over and every delete has ended, well or not.
    pub fn next_step(&mut self) -> (r: DeleteStep)
        requires
            old(self).wf(),
        ensures
            final(self).wf(),
            final(self).bucket_removed() == old(self).bucket_removed(),
            final(self).objects().lister() == old(self).objects().lister(),
            final(self).objects().keys() == old(self).objects().keys(),
            r matches DeleteStep::Delete(i, k) ==> {
                &&& i < old(self).objects().keys().len()
                &&& k@ == old(self).objects().keys()[i as int]
                &&& old(self).objects().pool().statuses()[i as int] == TaskStatus::Queued
                &&& final(self).objects().pool().statuses() == old(self).objects().pool().statuses().update(
                    i as int,
                    TaskStatus::Running,
                )
            },
            !(r is Delete) ==> final(self).objects().pool().statuses()
                == old(self).objects().pool().statuses(),
            r matches DeleteStep::List(t) ==> t == old(self).objects().lister().token(),
            r is Delete <==> old(self).objects().pool().running_count() < old(self).objects().pool().limit()
                && old(self).objects().pool().has_queued(),
            r is List <==> !(old(self).objects().pool().running_count()
                < old(self).objects().pool().limit() && old(self).objects().pool().has_queued())
                && !old(self).objects().lister().is_done() && count_status(
                old(self).objects().pool().statuses(),
                TaskStatus::Queued,
            ) < old(self).objects().pool().limit(),
            r is RemoveBucket <==> old(self).objects().all_handled() && !old(self).bucket_removed(),
            r is Done <==> old(self).objects().all_handled() && old(self).bucket_removed(),
    {
        match self.objects.next_step() {
            Step::List(t) => DeleteStep::List(t),
            Step::Start(i, k) => DeleteStep::Delete(i, k),
            Step::Wait => DeleteStep::Wait,
            Step::Finished => if self.bucket_removed {
                DeleteStep::Done
            } else {
                DeleteStep::RemoveBucket
            },
        }
    }

    /// Takes a fetched page: each key in it becomes a queued delete.
    pub fn on_page(&mut self, page: ListPage) -> (r: Vec<String>)
        requires
            old(self).wf(),
            !old(self).objects().lister().is_done(),
            old(self).objects().keys().len() + page.keys@.len() < usize::MAX,
        ensures
            final(self).wf(),
            final(self).bucket_removed() == old(self).bucket_removed(),
            crate::listing::string_views(r@) == crate::listing::present_keys(page.keys@),
            final(self).objects().keys() == old(self).objects().keys() + crate::listing::string_views(r@),
            final(self).objects().lister().pages() == old(self).objects().lister().pages().push(
                crate::listing::present_keys(page.keys@),
            ),
            final(self).objects().lister().is_done() == !(crate::listing::page_truncated(page)
                && page.next_continuation_token is Some),
            !final(self).objects().lister().is_done() ==> final(self).objects().lister().token()
                == page.next_continuation_token,
    {
        self.objects.on_page(page)
    }

    /// Ends the listing after a failed request: the keys already listed are
    /// still deleted, and the bucket removal is still attempted.
    pub fn on_listing_failed(&mut self)
        requires
            old(self).wf(),
            !old(self).objects().lister().is_done(),
        ensures
            final(self).wf(),
            final(self).bucket_removed() == old(self).bucket_removed(),
            final(self).objects().lister().is_done(),
            final(self).objects().keys() == old(self).objects().keys(),
            final(self).objects().pool().statuses() == old(self).objects().pool().statuses(),
    {
        self.objects.on_listing_failed();
    }

    /// Reports that delete `idx` ended, well (`ok`) or not; a failure touches
    /// no other delete.
    pub fn on_deleted(&mut self, idx: usize, ok: bool) -> (r: Result<(), PoolError>)
        requires
            old(self).wf(),
        ensures
            final(self).wf(),
            final(self).bucket_removed() == old(self).bucket_removed(),
            final(self).objects().keys() == old(self).objects().keys(),
            final(self).objects().lister() == old(self).objects().lister(),
            r is Ok <==> idx < old(self).objects().pool().statuses().len()
                && old(self).objects().pool().statuses()[idx as int] == TaskStatus::Running,
            r is Ok ==> final(self).objects().pool().statuses()
                == old(self).objects().pool().statuses().update(
                idx as int,
                if ok {
                    TaskStatus::Succeeded
                } else {
                    TaskStatus::Failed
                },
            ),
            r is Err ==> final(self).objects().pool().statuses()
                == old(self).objects().pool().statuses(),
    {
        self.objects.on_task_end(idx, ok)
    }

    /// Records that the bucket-removal call was made.
    pub fn on_bucket_removed(&mut self)
        requires
            old(self).wf(),
        ensures
            final(self).wf(),
            final(self).bucket_removed(),
            final(self).objects() == old(self).objects(),
    {
        self.bucket_removed = true;
    }
}

/// When the bucket is due for removal, every key of every listing page has
/// had its delete run to the end, empty pages included.
pub proof fn lemma_removal_follows_all_deletes(run: &DeleteRun)
    requires
        run.wf(),
        run.objects().all_handled(),
    ensures
        run.objects().keys() == concat_all(run.objects().lister().pages()),
        run.objects().lister().is_done(),
        forall|i: int|
            0 <= i < run.objects().keys().len() ==> is_settled(
                #[trigger] run.objects().pool().statuses()[i],
            ),
{
    run.objects().lemma_wf_facts();
}

} // verus!
