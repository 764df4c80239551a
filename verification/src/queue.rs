//! The job queue.
use crate::jobs;
use crate::jobs::{
    Job, JobError, JobId, JobPayload, JobResult, JobStatus, JobType, JobView, PayloadView,
    SubmitJobRequest, WebhookConfig, WebhookView,
};
use crate::time;
use crate::time::Timestamp;
use dashmap::DashMap;
use std::hash::RandomState;
use vstd::prelude::*;

verus! {

// ── The table of jobs ──────────────────────────────────────────────────────

/// `dashmap::DashMap`, carried as an opaque value: [`jobs_held`] names what one of jobs holds.
#[verifier::external_type_specification]
#[verifier::external_body]
#[verifier::reject_recursive_types(K)]
#[verifier::reject_recursive_types(V)]
#[verifier::reject_recursive_types(S)]
pub struct ExDashMap<K, V, S>(dashmap::DashMap<K, V, S>);

/// The jobs that a table holds, each under its identifier. The queue owns its table, and changes it
/// through `&mut` alone.
pub uninterp spec fn jobs_held(table: DashMap<u128, Job, RandomState>) -> Map<u128, JobView>;

/// Calls `DashMap::new`. Claims that the table is empty.
#[verifier::external_body]
fn table_new() -> (r: DashMap<u128, Job, RandomState>)
    ensures
        (jobs_held(r) == Map::<u128, JobView>::empty()),
{
    DashMap::new()
}

/// Calls `DashMap::insert`. Claims that the table then holds the job under the identifier, and all
/// else as before.
#[verifier::external_body]
fn table_insert(table: &mut DashMap<u128, Job, RandomState>, id: u128, job: Job)
    ensures
        jobs_held(*final(table)) == jobs_held(*old(table)).insert(id, job@),
{
    table.insert(id, job);
}

/// Calls `DashMap::remove`. Claims that it hands out the job under the identifier, if there is one,
/// and that the table then holds all else as before.
#[verifier::external_body]
fn table_remove(table: &mut DashMap<u128, Job, RandomState>, id: u128) -> (r: Option<Job>)
    ensures
        jobs_held(*final(table)) == jobs_held(*old(table)).remove(id),
        match r {
            Some(job) => jobs_held(*old(table)).dom().contains(id) && jobs_held(*old(table))[id]
                == job@,
            None => !jobs_held(*old(table)).dom().contains(id),
        },
{
    table.remove(&id).map(|entry| entry.1)
}

/// Calls `DashMap::get` and copies the job that it shows. Claims that this is the job under the
/// identifier, if there is one.
#[verifier::external_body]
fn table_get(table: &DashMap<u128, Job, RandomState>, id: u128) -> (r: Option<Job>)
    ensures
        match r {
            Some(job) => jobs_held(*table).dom().contains(id) && jobs_held(*table)[id] == job@,
            None => !jobs_held(*table).dom().contains(id),
        },
{
    table.get(&id).map(|entry| entry.value().clone())
}

/// Calls `DashMap::iter` and takes the key of each entry. Claims that these are the identifiers in
/// the table, each once. Their order is left open.
#[verifier::external_body]
fn table_ids(table: &DashMap<u128, Job, RandomState>) -> (r: Vec<u128>)
    ensures
        r@.no_duplicates(),
        forall|id: u128| #[trigger] r@.contains(id) <==> jobs_held(*table).dom().contains(id),
{
    table.iter().map(|entry| *entry.key()).collect()
}

// ── The queue ──────────────────────────────────────────────────────────────

/// Configuration for the job queue
#[derive(Clone, Copy, Debug, PartialEq, Eq, Structural)]
pub struct JobQueueConfig {
    /// Default job timeout in seconds
    pub job_timeout_secs: u64,
    /// How often to run cleanup (seconds)
    pub cleanup_interval_secs: u64,
    /// How long to retain completed jobs (seconds)
    pub retention_secs: u64,
    /// Webhook call timeout (seconds)
    pub webhook_timeout_secs: u64,
    /// Max webhook retry attempts
    pub webhook_max_retries: u32,
}

impl Default for JobQueueConfig {
    fn default() -> (r: JobQueueConfig)
        ensures
            r == (JobQueueConfig {
                job_timeout_secs: 300,
                cleanup_interval_secs: 3600,
                retention_secs: 3600,
                webhook_timeout_secs: 10,
                webhook_max_retries: 3,
            }),
    {
        JobQueueConfig {
            job_timeout_secs: 300,  // 5 minutes
            cleanup_interval_secs: 3600,  // 1 hour
            retention_secs: 3600,  // 1 hour
            webhook_timeout_secs: 10,  // 10 seconds
            webhook_max_retries: 3,
        }
    }
}

/// The jobs that were submitted, each under its identifier.
pub struct JobQueue {
    jobs: DashMap<u128, Job, RandomState>,
    config: JobQueueConfig,
}

impl View for JobQueue {
    type V = Map<u128, JobView>;

    closed spec fn view(&self) -> Map<u128, JobView> {
        jobs_held(self.jobs)
    }
}

/// Whether an ended job is older than the retention period.
pub open spec fn expired(job: JobView, retention_secs: u64, now: Timestamp) -> bool {
    jobs::is_finished(job.status) && job.completed_at is Some && time::seconds_from(
        job.completed_at->0,
        now,
    ) > retention_secs
}

/// The jobs that are left when those older than the retention period are gone.
pub open spec fn retained(
    held: Map<u128, JobView>,
    retention_secs: u64,
    now: Timestamp,
) -> Map<u128, JobView> {
    held.remove_keys(
        Set::new(
            |id: u128| held.dom().contains(id) && expired(held[id], retention_secs, now),
        ),
    )
}

/// The jobs after one of them changed; nothing changes where there is no such job.
pub open spec fn with_change(
    held: Map<u128, JobView>,
    id: JobId,
    change: spec_fn(JobView) -> JobView,
) -> Map<u128, JobView> {
    if held.dom().contains(id.0) {
        held.insert(id.0, change(held[id.0]))
    } else {
        held
    }
}

/// Whether this error says why a job cannot be cancelled: there is none, or it has ended.
pub open spec fn cancel_refused(held: Map<u128, JobView>, id: JobId, error: JobError) -> bool {
    if !held.dom().contains(id.0) {
        error == JobError::NotFound(id)
    } else {
        !held[id.0].cancellable() && error == JobError::CannotCancel(held[id.0].status)
    }
}

/// A job after it was started. One that was cancelled stays as it is.
pub open spec fn started_unless_cancelled(job: JobView, now: Timestamp) -> JobView {
    if job.status == JobStatus::Cancelled {
        job
    } else {
        job.started(now)
    }
}

/// Whether a job is in order under an identifier, and the identifier is its own.
pub open spec fn in_place(job: JobView, id: u128) -> bool {
    job.wf() && job.id.0 == id
}

/// The time that a job may take: what was asked for, or else what the queue has for all.
pub open spec fn timeout_of(asked: Option<u64>, config: JobQueueConfig) -> u64 {
    match asked {
        Some(secs) => secs,
        None => config.job_timeout_secs,
    }
}

impl JobQueue {
    /// The configuration of the queue.
    pub closed spec fn settings(self) -> JobQueueConfig {
        self.config
    }

    /// Whether every job in the queue is in order under its identifier.
    pub open spec fn wf(self) -> bool {
        forall|id: u128| #[trigger] self@.dom().contains(id) ==> in_place(self@[id], id)
    }

    /// An empty queue.
    pub fn new(config: JobQueueConfig) -> (r: JobQueue)
        ensures
            r@ == Map::<u128, JobView>::empty(),
            r.settings() == config,
            r.wf(),
    {
        JobQueue { jobs: table_new(), config }
    }

    /// Submits a job as it was requested, under an identifier at a point in time. A custom timeout
    /// overrides that of the queue.
    pub fn submit_request_at(&mut self, id: JobId, request: SubmitJobRequest, now: Timestamp)
        requires
            old(self).wf(),
        ensures
            final(self)@ == old(self)@.insert(
                id.0,
                jobs::queued(
                    id,
                    request.job_type,
                    request.payload@,
                    jobs::webhook_view(request.webhook),
                    timeout_of(request.timeout_secs, old(self).settings()),
                    now,
                ),
            ),
            final(self).settings() == old(self).settings(),
            final(self).wf(),
    {
        let timeout_secs: u64 = match request.timeout_secs {
            Some(secs) => secs,
            None => self.config.job_timeout_secs,
        };
        let job = Job::new_at(
            id,
            request.job_type,
            request.payload,
            request.webhook,
            timeout_secs,
            now,
        );
        let ghost new_job = job@;
        table_insert(&mut self.jobs, id.0, job);
        assert(in_place(new_job, id.0));
        assert(self@ == old(self)@.insert(id.0, new_job));
    }

    /// Submits a job as it was requested. A custom timeout overrides that of the queue.
    pub fn submit_request(&mut self, request: SubmitJobRequest) -> (id: JobId)
        requires
            old(self).wf(),
        ensures
            jobs::marked_random(id.0),
            final(self)@.dom().contains(id.0),
            final(self)@[id.0].created_at.wf(),
            final(self)@ == old(self)@.insert(
                id.0,
                jobs::queued(
                    id,
                    request.job_type,
                    request.payload@,
                    jobs::webhook_view(request.webhook),
                    timeout_of(request.timeout_secs, old(self).settings()),
                    final(self)@[id.0].created_at,
                ),
            ),
            final(self).settings() == old(self).settings(),
            final(self).wf(),
    {
        let id = JobId::new();
        self.submit_request_at(id, request, Timestamp::now());
        id
    }

    /// Submits a job under an identifier at a point in time.
    pub fn submit_at(
        &mut self,
        id: JobId,
        job_type: JobType,
        payload: JobPayload,
        webhook: Option<WebhookConfig>,
        now: Timestamp,
    )
        requires
            old(self).wf(),
        ensures
            final(self)@ == old(self)@.insert(
                id.0,
                jobs::queued(
                    id,
                    job_type,
                    payload@,
                    jobs::webhook_view(webhook),
                    old(self).settings().job_timeout_secs,
                    now,
                ),
            ),
            final(self).settings() == old(self).settings(),
            final(self).wf(),
    {
        let request = SubmitJobRequest { job_type, payload, webhook, timeout_secs: None };
        self.submit_request_at(id, request, now);
    }

    /// Submit a new job to the queue
    pub fn submit(
        &mut self,
        job_type: JobType,
        payload: JobPayload,
        webhook: Option<WebhookConfig>,
    ) -> (id: JobId)
        requires
            old(self).wf(),
        ensures
            jobs::marked_random(id.0),
            final(self)@.dom().contains(id.0),
            final(self)@[id.0].created_at.wf(),
            final(self)@ == old(self)@.insert(
                id.0,
                jobs::queued(
                    id,
                    job_type,
                    payload@,
                    jobs::webhook_view(webhook),
                    old(self).settings().job_timeout_secs,
                    final(self)@[id.0].created_at,
                ),
            ),
            final(self).settings() == old(self).settings(),
            final(self).wf(),
    {
        self.submit_request(SubmitJobRequest { job_type, payload, webhook, timeout_secs: None })
    }

    /// Get the current status of a job
    pub fn get_status(&self, id: &JobId) -> (r: Option<Job>)
        ensures
            match r {
                Some(job) => self@.dom().contains(id.0) && job@ == self@[id.0],
                None => !self@.dom().contains(id.0),
            },
    {
        table_get(&self.jobs, id.0)
    }

    /// Cancel a job at a point in time if it's queued or processing
    pub fn cancel_at(&mut self, id: &JobId, now: Timestamp) -> (r: Result<Job, JobError>)
        requires
            old(self).wf(),
            now.wf(),
        ensures
            final(self).settings() == old(self).settings(),
            final(self).wf(),
            match r {
                Ok(job) => old(self)@.dom().contains(id.0) && old(self)@[id.0].cancellable() && job@
                    == old(self)@[id.0].cancelled(now) && final(self)@ == old(self)@.insert(
                    id.0,
                    job@,
                ),
                Err(error) => cancel_refused(old(self)@, *id, error) && final(self)@
                    == old(self)@,
            },
    {
        let mut job = match table_get(&self.jobs, id.0) {
            Some(job) => job,
            None => return Err(JobError::NotFound(*id)),
        };
        assert(self@.dom().contains(id.0));
        match job.status {
            JobStatus::Queued | JobStatus::Processing => {
                job.cancel_at(now);
                table_insert(&mut self.jobs, id.0, job.clone());
                Ok(job)
            },
            status => Err(JobError::CannotCancel(status)),
        }
    }

    /// Cancel a job if it's queued or processing
    pub fn cancel(&mut self, id: &JobId) -> (r: Result<Job, JobError>)
        requires
            old(self).wf(),
        ensures
            final(self).settings() == old(self).settings(),
            final(self).wf(),
            match r {
                Ok(job) => old(self)@.dom().contains(id.0) && old(self)@[id.0].cancellable()
                    && job.progress.updated_at.wf() && job@ == old(self)@[id.0].cancelled(
                    job.progress.updated_at,
                ) && final(self)@ == old(self)@.insert(id.0, job@),
                Err(error) => cancel_refused(old(self)@, *id, error) && final(self)@
                    == old(self)@,
            },
    {
        self.cancel_at(id, Timestamp::now())
    }

    /// Takes a job out, if it is there, to put it back changed.
    fn take(&mut self, id: &JobId) -> (r: Option<Job>)
        ensures
            final(self).settings() == old(self).settings(),
            final(self)@ == old(self)@.remove(id.0),
            match r {
                Some(job) => old(self)@.dom().contains(id.0) && job@ == old(self)@[id.0],
                None => !old(self)@.dom().contains(id.0),
            },
    {
        table_remove(&mut self.jobs, id.0)
    }

    /// Starts a job at a point in time, and hands out a copy of it as it then is. A job that was
    /// cancelled is left as it is.
    pub fn start_job_at(&mut self, id: &JobId, now: Timestamp) -> (r: Option<Job>)
        requires
            old(self).wf(),
        ensures
            final(self).settings() == old(self).settings(),
            final(self).wf(),
            final(self)@ == with_change(
                old(self)@,
                *id,
                |job: JobView| started_unless_cancelled(job, now),
            ),
            match r {
                Some(job) => old(self)@.dom().contains(id.0) && old(self)@[id.0].status
                    != JobStatus::Cancelled && job@ == old(self)@[id.0].started(now),
                None => !old(self)@.dom().contains(id.0) || old(self)@[id.0].status
                    == JobStatus::Cancelled,
            },
    {
        let ghost before = self@;
        let r = match self.take(id) {
            Some(job) => {
                let mut job = job;
                let cancelled = matches!(job.status, JobStatus::Cancelled);
                if !cancelled {
                    job.start_at(now);
                }
                table_insert(&mut self.jobs, id.0, job.clone());
                if cancelled {
                    None
                } else {
                    Some(job)
                }
            },
            None => None,
        };
        proof {
            lemma_put_back(before, self@, *id, |job: JobView| started_unless_cancelled(job, now));
        }
        r
    }

    /// Update job progress at a point in time
    pub fn update_progress_at(&mut self, id: &JobId, percent: u8, message: &str, now: Timestamp)
        requires
            old(self).wf(),
        ensures
            final(self).settings() == old(self).settings(),
            final(self).wf(),
            final(self)@ == with_change(
                old(self)@,
                *id,
                |job: JobView| job.progressed(percent, message@, now),
            ),
    {
        let ghost before = self@;
        if let Some(job) = self.take(id) {
            let mut job = job;
            job.update_progress_at(percent, message, now);
            table_insert(&mut self.jobs, id.0, job);
        }
        proof {
            lemma_put_back(
                before,
                self@,
                *id,
                |job: JobView| job.progressed(percent, message@, now),
            );
        }
    }

    /// Complete a job with a result at a point in time
    pub fn complete_job_at(&mut self, id: &JobId, result: JobResult, now: Timestamp)
        requires
            old(self).wf(),
            now.wf(),
        ensures
            final(self).settings() == old(self).settings(),
            final(self).wf(),
            final(self)@ == with_change(
                old(self)@,
                *id,
                |job: JobView| job.completed(result@, now),
            ),
    {
        let ghost (before, outcome) = (self@, result@);
        if let Some(job) = self.take(id) {
            let mut job = job;
            job.complete_at(result, now);
            table_insert(&mut self.jobs, id.0, job);
        }
        proof {
            lemma_put_back(before, self@, *id, |job: JobView| job.completed(outcome, now));
        }
    }

    /// Mark a job as failed at a point in time
    pub fn fail_job_at(&mut self, id: &JobId, error: String, error_type: String, now: Timestamp)
        requires
            old(self).wf(),
            now.wf(),
        ensures
            final(self).settings() == old(self).settings(),
            final(self).wf(),
            final(self)@ == with_change(
                old(self)@,
                *id,
                |job: JobView| job.failed(error@, error_type@, now),
            ),
    {
        let ghost (before, what, kind) = (self@, error@, error_type@);
        if let Some(job) = self.take(id) {
            let mut job = job;
            job.fail_at(error, error_type, now);
            table_insert(&mut self.jobs, id.0, job);
        }
        proof {
            lemma_put_back(before, self@, *id, |job: JobView| job.failed(what, kind, now));
        }
    }

    /// Update job progress
    pub fn update_progress(&mut self, id: &JobId, percent: u8, message: &str)
        requires
            old(self).wf(),
        ensures
            final(self).settings() == old(self).settings(),
            final(self).wf(),
            exists|now: Timestamp|
                #[trigger] now.wf() && final(self)@ == with_change(
                    old(self)@,
                    *id,
                    |job: JobView| job.progressed(percent, message@, now),
                ),
    {
        let now = Timestamp::now();
        self.update_progress_at(id, percent, message, now);
    }

    /// Complete a job with a result
    pub fn complete_job(&mut self, id: &JobId, result: JobResult)
        requires
            old(self).wf(),
        ensures
            final(self).settings() == old(self).settings(),
            final(self).wf(),
            exists|now: Timestamp|
                #[trigger] now.wf() && final(self)@ == with_change(
                    old(self)@,
                    *id,
                    |job: JobView| job.completed(result@, now),
                ),
    {
        let now = Timestamp::now();
        self.complete_job_at(id, result, now);
    }

    /// Mark a job as failed
    pub fn fail_job(&mut self, id: &JobId, error: String, error_type: String)
        requires
            old(self).wf(),
        ensures
            final(self).settings() == old(self).settings(),
            final(self).wf(),
            exists|now: Timestamp|
                #[trigger] now.wf() && final(self)@ == with_change(
                    old(self)@,
                    *id,
                    |job: JobView| job.failed(error@, error_type@, now),
                ),
    {
        let now = Timestamp::now();
        self.fail_job_at(id, error, error_type, now);
    }

    /// Removes the ended jobs that are older than the retention period, and says which they were.
    pub fn cleanup_at(&mut self, now: Timestamp) -> (removed: Vec<JobId>)
        requires
            old(self).wf(),
            now.wf(),
        ensures
            final(self).settings() == old(self).settings(),
            final(self).wf(),
            final(self)@ == retained(old(self)@, old(self).settings().retention_secs, now),
            removed@.no_duplicates(),
            forall|id: JobId|
                #[trigger] removed@.contains(id) <==> old(self)@.dom().contains(id.0) && expired(
                    old(self)@[id.0],
                    old(self).settings().retention_secs,
                    now,
                ),
    {
        let ghost before = self@;
        let retention: u64 = self.config.retention_secs;
        let ids = table_ids(&self.jobs);
        let mut removed: Vec<JobId> = Vec::new();
        let mut i: usize = 0;
        while i < ids.len()
            invariant
                i <= ids@.len(),
                now.wf(),
                self.settings() == old(self).settings(),
                self.settings().retention_secs == retention,
                old(self).wf(),
                before == old(self)@,
                ids@.no_duplicates(),
                forall|id: u128| #[trigger] ids@.contains(id) <==> before.dom().contains(id),
                forall|id: u128|
                    #![trigger self@.dom().contains(id)]
                    #![trigger self@[id]]
                    self@.dom().contains(id) <==> before.dom().contains(id) && !(expired(
                        before[id],
                        retention,
                        now,
                    ) && ids@.take(i as int).contains(id)),
                forall|id: u128| #[trigger] self@.dom().contains(id) ==> self@[id] == before[id],
                removed@.no_duplicates(),
                forall|id: JobId|
                    #[trigger] removed@.contains(id) <==> expired(before[id.0], retention, now)
                        && ids@.take(i as int).contains(id.0),
            decreases ids@.len() - i,
        {
            let id: u128 = ids[i];
            let ghost (passed, next) = (ids@.take(i as int), ids@.take(i + 1));
            let ghost (held, gone) = (self@, removed@);
            proof {
                assert(ids@.contains(ids@[i as int]));
                assert(before.dom().contains(id));
                assert(!passed.contains(id));
                assert(!gone.contains(JobId(id)));
                assert(held.dom().contains(id));
                assert(next =~= passed.push(id));
                assert forall|other: u128| #[trigger] next.contains(other) <==> passed.contains(
                    other,
                ) || other == id by {
                    if passed.contains(other) {
                        let k = choose|k: int| 0 <= k < passed.len() && passed[k] == other;
                        assert(next[k] == other);
                    }
                    if other == id {
                        assert(next[i as int] == other);
                    }
                }
            }
            let old_enough = match table_get(&self.jobs, id) {
                Some(job) => Self::is_expired(&job, retention, now),
                None => false,
            };
            if old_enough {
                let _gone = table_remove(&mut self.jobs, id);
                removed.push(JobId(id));
            }
            proof {
                assert(old_enough == expired(before[id], retention, now));
                assert forall|other: JobId| #[trigger] removed@.contains(other) <==> expired(
                    before[other.0],
                    retention,
                    now,
                ) && next.contains(other.0) by {
                    if gone.contains(other) {
                        let k = choose|k: int| 0 <= k < gone.len() && gone[k] == other;
                        assert(removed@[k] == other);
                    }
                    if old_enough && other.0 == id {
                        assert(removed@[gone.len() as int] == other);
                    }
                }
            }
            i += 1;
        }
        proof {
            assert(ids@.take(i as int) =~= ids@);
            assert(self@ =~= retained(before, retention, now));
        }
        removed
    }

    /// Removes the ended jobs that are older than the retention period now.
    pub fn cleanup(&mut self) -> (removed: Vec<JobId>)
        requires
            old(self).wf(),
        ensures
            final(self).settings() == old(self).settings(),
            final(self).wf(),
            removed@.no_duplicates(),
            exists|now: Timestamp|
                now.wf() && final(self)@ == #[trigger] retained(
                    old(self)@,
                    old(self).settings().retention_secs,
                    now,
                ) && forall|id: JobId|
                    #[trigger] removed@.contains(id) <==> old(self)@.dom().contains(id.0)
                        && expired(old(self)@[id.0], old(self).settings().retention_secs, now),
    {
        let now = Timestamp::now();
        self.cleanup_at(now)
    }

    /// Whether an ended job is older than the retention period.
    fn is_expired(job: &Job, retention_secs: u64, now: Timestamp) -> (r: bool)
        requires
            job@.wf(),
            now.wf(),
        ensures
            r == expired(job@, retention_secs, now),
    {
        match job.status {
            JobStatus::Completed | JobStatus::Failed | JobStatus::Cancelled => {
                match job.completed_at {
                    Some(completed_at) => {
                        let age: i64 = time::seconds_since(now, completed_at);
                        age > 0 && age as u64 > retention_secs
                    },
                    None => false,
                }
            },
            _ => false,
        }
    }
}

/// A job that is taken out and put back changed is a job that changed.
proof fn lemma_put_back(
    before: Map<u128, JobView>,
    after: Map<u128, JobView>,
    id: JobId,
    change: spec_fn(JobView) -> JobView,
)
    requires
        after == if before.dom().contains(id.0) {
            before.remove(id.0).insert(id.0, change(before[id.0]))
        } else {
            before.remove(id.0)
        },
    ensures
        after == with_change(before, id, change),
{
    assert(after =~= with_change(before, id, change));
}

// ── Laws ───────────────────────────────────────────────────────────────────

/// A job that was submitted is found in the queue as it was submitted, waiting and without progress,
/// and all others are found as before.
pub proof fn law_submitted_job_is_found(
    held: Map<u128, JobView>,
    id: JobId,
    job_type: JobType,
    payload: PayloadView,
    webhook: Option<WebhookView>,
    timeout_secs: u64,
    now: Timestamp,
    other: u128,
)
    requires
        other != id.0,
    ensures
        ({
            let job = jobs::queued(id, job_type, payload, webhook, timeout_secs, now);
            let after = held.insert(id.0, job);
            &&& after.dom().contains(id.0)
            &&& after[id.0] == job
            &&& job.status == JobStatus::Queued
            &&& job.progress.percent == 0
            &&& job.payload == payload
            &&& job.webhook == webhook
            &&& job.timeout_secs == timeout_secs
            &&& after.dom().contains(other) == held.dom().contains(other)
            &&& held.dom().contains(other) ==> after[other] == held[other]
        }),
{
}

/// A job that was cancelled cannot be cancelled again: the error then names its status.
pub proof fn law_cancel_only_once(
    held: Map<u128, JobView>,
    id: JobId,
    now: Timestamp,
    error: JobError,
)
    requires
        held.dom().contains(id.0),
    ensures
        ({
            let after = held.insert(id.0, held[id.0].cancelled(now));
            &&& !after[id.0].cancellable()
            &&& cancel_refused(after, id, error) <==> error == JobError::CannotCancel(
                JobStatus::Cancelled,
            )
        }),
{
}

/// What is done to one job leaves all others as they were, and adds and removes none.
pub proof fn law_jobs_are_independent(
    held: Map<u128, JobView>,
    id: JobId,
    change: spec_fn(JobView) -> JobView,
    other: u128,
)
    requires
        other != id.0,
    ensures
        with_change(held, id, change).dom() == held.dom(),
        held.dom().contains(other) ==> with_change(held, id, change)[other] == held[other],
{
    assert(with_change(held, id, change).dom() =~= held.dom());
}

/// Cleaning up never removes a job that waits or runs, nor changes one that it keeps.
pub proof fn law_cleanup_spares_live_jobs(
    held: Map<u128, JobView>,
    retention_secs: u64,
    now: Timestamp,
    id: u128,
)
    requires
        held.dom().contains(id),
    ensures
        !jobs::is_finished(held[id].status) ==> retained(
            held,
            retention_secs,
            now,
        ).dom().contains(id),
        retained(held, retention_secs, now).dom().contains(id) ==> retained(
            held,
            retention_secs,
            now,
        )[id] == held[id],
{
}

/// Cleaning up a second time at the same moment removes nothing.
pub proof fn law_cleanup_idempotent(
    held: Map<u128, JobView>,
    retention_secs: u64,
    now: Timestamp,
)
    ensures
        retained(retained(held, retention_secs, now), retention_secs, now) == retained(
            held,
            retention_secs,
            now,
        ),
{
    let once = retained(held, retention_secs, now);
    assert(retained(once, retention_secs, now) =~= once);
}

/// Once the retention period has passed, every ended job in order is removed.
pub proof fn law_cleanup_removes_old_jobs(
    held: Map<u128, JobView>,
    retention_secs: u64,
    now: Timestamp,
    id: u128,
)
    requires
        held.dom().contains(id),
        held[id].wf(),
        jobs::is_finished(held[id].status),
        time::seconds_from(held[id].completed_at->0, now) > retention_secs,
    ensures
        !retained(held, retention_secs, now).dom().contains(id),
{
}

/// What is done to a job is done to it as it is held, and what is done to one that is not there
/// changes nothing.
pub proof fn law_the_named_job_changes(
    held: Map<u128, JobView>,
    id: JobId,
    change: spec_fn(JobView) -> JobView,
)
    ensures
        held.dom().contains(id.0) ==> with_change(held, id, change).dom().contains(id.0)
            && with_change(held, id, change)[id.0] == change(held[id.0]),
        !held.dom().contains(id.0) ==> with_change(held, id, change) == held,
{
}

/// Cleaning up removes a job if and only if it was completed, failed or was cancelled, and at least
/// one second more than the retention period has passed since then.
pub proof fn law_cleanup_goes_by_age(
    held: Map<u128, JobView>,
    retention_secs: u64,
    now: Timestamp,
    id: u128,
)
    ensures
        ({
            let job = held[id];
            let ended = job.status == JobStatus::Completed || job.status == JobStatus::Failed
                || job.status == JobStatus::Cancelled;
            let age = |at: Timestamp|
                (now.secs - at.secs) * 1_000_000_000 + now.nanos as int - at.nanos as int;
            let old = job.completed_at matches Some(at) && age(at) >= (retention_secs + 1)
                * 1_000_000_000;
            let left = retained(held, retention_secs, now);
            &&& expired(job, retention_secs, now) <==> ended && old
            &&& left.dom().contains(id) <==> held.dom().contains(id) && !(ended && old)
            &&& left.dom().contains(id) ==> left[id] == held[id]
        }),
{
    if let Some(at) = held[id].completed_at {
        time::law_seconds_are_whole(at, now);
        time::law_seconds_are_whole(now, at);
    }
}

/// Cancelling is refused if there is no such job, which is then named, or if the job has come to its
/// end, and then its status is named; in no other case, and with no other error.
pub proof fn law_refusals_say_why(held: Map<u128, JobView>, id: JobId, error: JobError)
    ensures
        !held.dom().contains(id.0) ==> (cancel_refused(held, id, error) <==> error
            == JobError::NotFound(id)),
        held.dom().contains(id.0) ==> (cancel_refused(held, id, error) <==> (held[id.0].status
            == JobStatus::Completed || held[id.0].status == JobStatus::Failed || held[id.0].status
            == JobStatus::Cancelled) && error == JobError::CannotCancel(held[id.0].status)),
{
}

/// Whatever its status, a job is started, unless it was cancelled: then it is left as it is.
pub proof fn law_all_but_cancelled_jobs_start(job: JobView, now: Timestamp)
    ensures
        ({
            let after = started_unless_cancelled(job, now);
            &&& job.status == JobStatus::Cancelled ==> after == job
            &&& job.status != JobStatus::Cancelled ==> {
                &&& after.status == JobStatus::Processing
                &&& after.started_at == Some(now)
                &&& after.progress.percent == 10
                &&& after.progress.updated_at == now
                &&& after == (JobView {
                    status: after.status,
                    started_at: after.started_at,
                    progress: after.progress,
                    ..job
                })
            }
        }),
{
}

/// A job may take the time that was asked for, whatever the queue is set to; only if none was asked
/// for, what the queue has for all.
pub proof fn law_custom_timeouts_override(secs: u64, config: JobQueueConfig)
    ensures
        timeout_of(Some(secs), config) == secs,
        timeout_of(None, config) == config.job_timeout_secs,
{
}

/// In a queue that is in order each job is held under its own identifier, has the time of its end if
/// it has ended, and its error if it failed.
pub proof fn law_jobs_are_held_in_order(queue: JobQueue, id: u128)
    requires
        queue.wf(),
        queue@.dom().contains(id),
    ensures
        ({
            let job = queue@[id];
            &&& job.id == JobId(id)
            &&& job.status == JobStatus::Completed || job.status == JobStatus::Failed || job.status
                == JobStatus::Cancelled ==> job.completed_at is Some
            &&& job.status == JobStatus::Failed ==> job.error_message is Some && job.result is Some
                && job.result->0 is Failed && job.result->0->error == job.error_message->0
        }),
{
}

} // verus!
