//! The worker that carries jobs out. What takes time (a simulation, an optimization, a notification)
//! happens outside: the worker says what to do next, and takes in what came of it.
use crate::double::Double;
use crate::jobs;
use crate::jobs::{
    Job, JobId, JobPayload, JobResult, JobResultView, JobStatus, JobView, PayloadView,
    WebhookConfig, WebhookView,
};
use crate::json;
use crate::json::{Json, JsonMember, JsonTree, MemberTree};
use crate::queue;
use crate::queue::{JobQueue, JobQueueConfig};
use crate::simulation;
use crate::simulation::{ResultView, SimulationResult};
use crate::text;
use crate::time::Timestamp;
use std::collections::HashMap;
use vstd::prelude::*;

verus! {

/// What has to be done for a job.
#[allow(inconsistent_fields)]
#[derive(Debug)]
pub enum JobStep {
    /// Simulate a contract call.
    Simulate {
        contract_id: String,
        function_name: String,
        args: Vec<String>,
        ledger_overrides: Option<HashMap<String, String>>,
    },
    /// Look for the tightest limits under which a contract call still succeeds.
    Optimize {
        contract_id: String,
        function_name: String,
        args: Vec<String>,
        safety_margin: Double,
    },
    /// Nothing more: the result is there.
    Finish(JobResult),
}

/// What a [`JobStep`] stands for.
#[allow(inconsistent_fields)]
pub enum StepView {
    Simulate {
        contract_id: Seq<char>,
        function_name: Seq<char>,
        args: Seq<Seq<char>>,
        ledger_overrides: Option<Map<String, String>>,
    },
    Optimize {
        contract_id: Seq<char>,
        function_name: Seq<char>,
        args: Seq<Seq<char>>,
        safety_margin: Double,
    },
    Finish(JobResultView),
}

impl View for JobStep {
    type V = StepView;

    open spec fn view(&self) -> StepView {
        match *self {
            JobStep::Simulate { contract_id, function_name, args, ledger_overrides } => {
                StepView::Simulate {
                    contract_id: contract_id@,
                    function_name: function_name@,
                    args: simulation::texts(args@),
                    ledger_overrides: jobs::table_view(ledger_overrides),
                }
            },
            JobStep::Optimize { contract_id, function_name, args, safety_margin } => {
                StepView::Optimize {
                    contract_id: contract_id@,
                    function_name: function_name@,
                    args: simulation::texts(args@),
                    safety_margin,
                }
            },
            JobStep::Finish(result) => StepView::Finish(result@),
        }
    }
}

/// How the work on a job ended.
#[derive(Debug)]
pub enum JobOutcome {
    Finished(JobResult),
    Failed(String),
    TimedOut,
}

/// What a [`JobOutcome`] stands for.
pub enum OutcomeView {
    Finished(JobResultView),
    Failed(Seq<char>),
    TimedOut,
}

impl View for JobOutcome {
    type V = OutcomeView;

    open spec fn view(&self) -> OutcomeView {
        match *self {
            JobOutcome::Finished(result) => OutcomeView::Finished(result@),
            JobOutcome::Failed(error) => OutcomeView::Failed(error@),
            JobOutcome::TimedOut => OutcomeView::TimedOut,
        }
    }
}

/// A notification that is due when a job has ended.
#[derive(Debug)]
pub struct WebhookNotice {
    pub webhook: WebhookConfig,
    pub job_id: JobId,
    pub status: JobStatus,
    pub result: Option<JobResult>,
    /// How long one delivery may take (seconds)
    pub timeout_secs: u64,
    /// How often delivery is tried
    pub max_retries: u32,
}

/// What a [`WebhookNotice`] stands for.
pub struct NoticeView {
    pub webhook: WebhookView,
    pub job_id: JobId,
    pub status: JobStatus,
    pub result: Option<JobResultView>,
    pub timeout_secs: u64,
    pub max_retries: u32,
}

impl View for WebhookNotice {
    type V = NoticeView;

    open spec fn view(&self) -> NoticeView {
        NoticeView {
            webhook: self.webhook@,
            job_id: self.job_id,
            status: self.status,
            result: jobs::result_view(self.result),
            timeout_secs: self.timeout_secs,
            max_retries: self.max_retries,
        }
    }
}

// ── What the worker does ───────────────────────────────────────────────────

/// The result of a job that compares contracts in a mode: a remark that this cannot be done yet.
pub open spec fn comparison_remark(mode: Seq<char>) -> JobResultView {
    JobResultView::Success {
        resources: None,
        simulation_result: None,
        optimization: None,
        comparison: Some(
            JsonTree::Object(
                seq![
                    MemberTree { key: "mode"@, value: JsonTree::String(mode) },
                    MemberTree {
                        key: "status"@,
                        value: JsonTree::String("Compare jobs not yet fully implemented"@),
                    },
                ],
            ),
        ),
    }
}

/// What has to be done for a payload.
pub open spec fn first_step(payload: PayloadView) -> StepView {
    match payload {
        PayloadView::Analyze { contract_id, function_name, args, ledger_overrides } => {
            StepView::Simulate {
                contract_id,
                function_name,
                args: match args {
                    Some(args) => args,
                    None => Seq::empty(),
                },
                ledger_overrides,
            }
        },
        PayloadView::Compare { mode, .. } => StepView::Finish(comparison_remark(mode)),
        PayloadView::OptimizeLimits { contract_id, function_name, args, safety_margin } => {
            StepView::Optimize { contract_id, function_name, args, safety_margin }
        },
    }
}

/// A job when the work on it begins.
pub open spec fn begun(job: JobView, payload: PayloadView, now: Timestamp) -> JobView {
    match payload {
        PayloadView::Analyze { .. } => job.progressed(30, "Running simulation"@, now),
        PayloadView::Compare { .. } => job,
        PayloadView::OptimizeLimits { .. } => job.progressed(30, "Running optimization"@, now),
    }
}

/// The result of an analysis that rests on a simulation.
pub open spec fn analysis(simulated: ResultView) -> JobResultView {
    JobResultView::Success {
        resources: Some(simulated.resources),
        simulation_result: Some(simulated),
        optimization: None,
        comparison: None,
    }
}

/// The result of an optimization with a report.
pub open spec fn optimization(report: JsonTree) -> JobResultView {
    JobResultView::Success {
        resources: None,
        simulation_result: None,
        optimization: Some(report),
        comparison: None,
    }
}

/// The message of a job that ran for too long.
pub open spec fn timeout_message(timeout_secs: u64) -> Seq<char> {
    "Job timed out after "@ + text::decimal(timeout_secs as nat) + " seconds"@
}

/// A job after the work on it ended. One that was cancelled meanwhile stays cancelled.
pub open spec fn ended(
    job: JobView,
    outcome: OutcomeView,
    timeout_secs: u64,
    now: Timestamp,
) -> JobView {
    if job.status == JobStatus::Cancelled {
        job
    } else {
        match outcome {
            OutcomeView::Finished(result) => job.completed(result, now),
            OutcomeView::Failed(error) => job.failed(error, "ProcessingError"@, now),
            OutcomeView::TimedOut => job.failed(timeout_message(timeout_secs), "Timeout"@, now),
        }
    }
}

/// Whether a job is in the queue and was cancelled.
pub open spec fn called_off(held: Map<u128, JobView>, id: JobId) -> bool {
    held.dom().contains(id.0) && held[id.0].status == JobStatus::Cancelled
}

/// The notification that is due when the work on a job ended: none where nobody asked for one.
pub open spec fn notice(
    job: JobView,
    outcome: OutcomeView,
    config: JobQueueConfig,
) -> Option<NoticeView> {
    match job.webhook {
        Some(webhook) => Some(
            NoticeView {
                webhook,
                job_id: job.id,
                status: match outcome {
                    OutcomeView::Finished(_) => JobStatus::Completed,
                    _ => JobStatus::Failed,
                },
                result: match outcome {
                    OutcomeView::Finished(result) => Some(result),
                    _ => None,
                },
                timeout_secs: config.webhook_timeout_secs,
                max_retries: config.webhook_max_retries,
            },
        ),
        None => None,
    }
}

/// The notification that is due when the work on a job ended, given the jobs in the queue: none for
/// a job that was cancelled meanwhile.
pub open spec fn notice_due(
    held: Map<u128, JobView>,
    job: JobView,
    outcome: OutcomeView,
    config: JobQueueConfig,
) -> Option<NoticeView> {
    if called_off(held, job.id) {
        None
    } else {
        notice(job, outcome, config)
    }
}

/// Worker that processes jobs from the queue
pub struct JobWorker {
    pub config: JobQueueConfig,
}

impl JobWorker {
    pub fn new(config: JobQueueConfig) -> (r: JobWorker)
        ensures
            r.config == config,
    {
        JobWorker { config }
    }

    /// Begins the work on a job, and says what has to be done for it.
    pub fn process_job(queue: &mut JobQueue, job: &Job, now: Timestamp) -> (step: JobStep)
        requires
            old(queue).wf(),
        ensures
            step@ == first_step(job@.payload),
            final(queue).wf(),
            final(queue).settings() == old(queue).settings(),
            final(queue)@ == queue::with_change(
                old(queue)@,
                job.id,
                |held: JobView| begun(held, job@.payload, now),
            ),
    {
        let ghost before = queue@;
        let step = match &job.payload {
            JobPayload::Analyze { contract_id, function_name, args, ledger_overrides } => {
                queue.update_progress_at(&job.id, 30, "Running simulation", now);
                let args = match args {
                    Some(args) => simulation::copy_texts(args),
                    None => Vec::new(),
                };
                assert(simulation::texts(args@) =~= first_step(job@.payload)->Simulate_args);
                JobStep::Simulate {
                    contract_id: contract_id.clone(),
                    function_name: function_name.clone(),
                    args,
                    ledger_overrides: jobs::copy_table(ledger_overrides),
                }
            },
            JobPayload::Compare { mode, .. } => JobStep::Finish(Self::remark(mode)),
            JobPayload::OptimizeLimits { contract_id, function_name, args, safety_margin } => {
                queue.update_progress_at(&job.id, 30, "Running optimization", now);
                JobStep::Optimize {
                    contract_id: contract_id.clone(),
                    function_name: function_name.clone(),
                    args: simulation::copy_texts(args),
                    safety_margin: *safety_margin,
                }
            },
        };
        assert(queue@ =~= queue::with_change(
            before,
            job.id,
            |held: JobView| begun(held, job@.payload, now),
        ));
        step
    }

    /// The result of a job that compares contracts.
    fn remark(mode: &String) -> (r: JobResult)
        ensures
            r@ == comparison_remark(mode@),
    {
        let mut members: Vec<JsonMember> = Vec::new();
        members.push(json::member("mode", json::text(mode.as_str())));
        members.push(
            json::member("status", json::text("Compare jobs not yet fully implemented")),
        );
        let remark = json::object(members);
        assert(remark@->Object_0 =~= comparison_remark(mode@)->comparison->0->Object_0);
        JobResult::Success {
            resources: None,
            simulation_result: None,
            optimization: None,
            comparison: Some(remark),
        }
    }

    /// Takes in what the simulation for a job found. Where it failed, so does the job.
    pub fn simulated(
        queue: &mut JobQueue,
        id: &JobId,
        outcome: Result<SimulationResult, String>,
        now: Timestamp,
    ) -> (r: Result<SimulationResult, String>)
        requires
            old(queue).wf(),
        ensures
            r == outcome,
            final(queue).wf(),
            final(queue).settings() == old(queue).settings(),
            match outcome {
                Ok(_) => final(queue)@ == queue::with_change(
                    old(queue)@,
                    *id,
                    |held: JobView| held.progressed(70, "Generating insights"@, now),
                ),
                Err(_) => final(queue)@ == old(queue)@,
            },
    {
        if outcome.is_ok() {
            queue.update_progress_at(id, 70, "Generating insights", now);
        }
        outcome
    }

    /// Process an analyze job: makes the result of what the simulation found.
    pub fn process_analyze_job(
        queue: &mut JobQueue,
        id: &JobId,
        simulated: SimulationResult,
        now: Timestamp,
    ) -> (r: JobResult)
        requires
            old(queue).wf(),
        ensures
            r@ == analysis(simulated@),
            final(queue).wf(),
            final(queue).settings() == old(queue).settings(),
            final(queue)@ == queue::with_change(
                old(queue)@,
                *id,
                |held: JobView| held.progressed(90, "Finalizing results"@, now),
            ),
    {
        queue.update_progress_at(id, 90, "Finalizing results", now);
        JobResult::Success {
            resources: Some(simulated.resources),
            simulation_result: Some(simulated),
            optimization: None,
            comparison: None,
        }
    }

    /// Process an optimize limits job: makes the result of what the optimization found. The outer
    /// error is that of the optimization, the inner one says that its report could not be written.
    pub fn process_optimize_job(
        queue: &mut JobQueue,
        id: &JobId,
        outcome: Result<Result<Json, String>, String>,
        now: Timestamp,
    ) -> (r: Result<JobResult, String>)
        requires
            old(queue).wf(),
        ensures
            match outcome {
                Ok(Ok(report)) => r is Ok && r->Ok_0@ == optimization(report@),
                Ok(Err(error)) => r is Err && r->Err_0@ == error@,
                Err(error) => r is Err && r->Err_0@ == error@,
            },
            final(queue).wf(),
            final(queue).settings() == old(queue).settings(),
            match outcome {
                Ok(_) => final(queue)@ == queue::with_change(
                    old(queue)@,
                    *id,
                    |held: JobView| held.progressed(90, "Finalizing results"@, now),
                ),
                Err(_) => final(queue)@ == old(queue)@,
            },
    {
        let report = match outcome {
            Ok(report) => report,
            Err(error) => return Err(error),
        };
        queue.update_progress_at(id, 90, "Finalizing results", now);
        match report {
            Ok(report) => Ok(
                JobResult::Success {
                    resources: None,
                    simulation_result: None,
                    optimization: Some(report),
                    comparison: None,
                },
            ),
            Err(error) => Err(error),
        }
    }

    /// Ends the work on a job, and says who has to be told. A job that was cancelled meanwhile is left
    /// as it is, and nobody is told.
    pub fn conclude(
        &self,
        queue: &mut JobQueue,
        job: &Job,
        outcome: JobOutcome,
        now: Timestamp,
    ) -> (r: Option<WebhookNotice>)
        requires
            old(queue).wf(),
            now.wf(),
        ensures
            match r {
                Some(due) => notice_due(old(queue)@, job@, outcome@, self.config) == Some(due@),
                None => notice_due(old(queue)@, job@, outcome@, self.config) is None,
            },
            final(queue).wf(),
            final(queue).settings() == old(queue).settings(),
            final(queue)@ == queue::with_change(
                old(queue)@,
                job.id,
                |held: JobView| ended(held, outcome@, job.timeout_secs, now),
            ),
    {
        let ghost (before, how) = (queue@, outcome@);
        if let Some(held) = queue.get_status(&job.id) {
            if matches!(held.status, JobStatus::Cancelled) {
                assert(queue@ =~= queue::with_change(
                    before,
                    job.id,
                    |held: JobView| ended(held, how, job.timeout_secs, now),
                ));
                return None;
            }
        }
        let (status, result) = match outcome {
            JobOutcome::Finished(result) => {
                queue.complete_job_at(&job.id, result.clone(), now);
                (JobStatus::Completed, Some(result))
            },
            JobOutcome::Failed(error) => {
                queue.fail_job_at(&job.id, error, "ProcessingError".to_owned(), now);
                (JobStatus::Failed, None)
            },
            JobOutcome::TimedOut => {
                let mut error = "Job timed out after ".to_owned();
                error.append(text::decimal_text(job.timeout_secs).as_str());
                error.append(" seconds");
                queue.fail_job_at(&job.id, error, "Timeout".to_owned(), now);
                (JobStatus::Failed, None)
            },
        };
        assert(queue@ =~= queue::with_change(
            before,
            job.id,
            |held: JobView| ended(held, how, job.timeout_secs, now),
        ));
        match &job.webhook {
            Some(webhook) => Some(
                WebhookNotice {
                    webhook: webhook.clone(),
                    job_id: job.id,
                    status,
                    result,
                    timeout_secs: self.config.webhook_timeout_secs,
                    max_retries: self.config.webhook_max_retries,
                },
            ),
            None => None,
        }
    }
}

// ── Laws ───────────────────────────────────────────────────────────────────

/// However the work on a job ends, the job has ended with it and stays what it was asked to be, and
/// whoever is told is told the status that the job then has. Of a job that was cancelled meanwhile
/// nobody is told, and nothing changes.
pub proof fn law_work_ends_the_job(
    held: Map<u128, JobView>,
    job: JobView,
    outcome: OutcomeView,
    config: JobQueueConfig,
    now: Timestamp,
)
    requires
        held.dom().contains(job.id.0),
        held[job.id.0].wf(),
        now.wf(),
    ensures
        ({
            let before = held[job.id.0];
            let after = ended(before, outcome, job.timeout_secs, now);
            let due = notice_due(held, job, outcome, config);
            &&& after.wf()
            &&& jobs::is_finished(after.status)
            &&& !after.cancellable()
            &&& jobs::same_request(after, before)
            &&& before.status == JobStatus::Cancelled ==> after == before && due is None
            &&& before.status != JobStatus::Cancelled ==> after.completed_at == Some(now) && (due
                is Some <==> job.webhook is Some)
            &&& due matches Some(told) ==> told.status == after.status && told.job_id == job.id && (
            told.result is Some ==> told.result == after.result)
        }),
{
}

/// Something that is done to a job on its way through the worker.
pub enum Handling {
    Start { now: Timestamp },
    Begin { payload: PayloadView, now: Timestamp },
    Note { percent: u8, message: Seq<char>, now: Timestamp },
    End { outcome: OutcomeView, timeout_secs: u64, now: Timestamp },
}

/// A job after something was done to it.
pub open spec fn after_handling(job: JobView, handling: Handling) -> JobView {
    match handling {
        Handling::Start { now } => queue::started_unless_cancelled(job, now),
        Handling::Begin { payload, now } => begun(job, payload, now),
        Handling::Note { percent, message, now } => job.progressed(percent, message, now),
        Handling::End { outcome, timeout_secs, now } => ended(job, outcome, timeout_secs, now),
    }
}

/// A job after several things were done to it, one after the other.
pub open spec fn after_all(job: JobView, handlings: Seq<Handling>) -> JobView
    decreases handlings.len(),
{
    if handlings.len() == 0 {
        job
    } else {
        after_handling(after_all(job, handlings.drop_last()), handlings.last())
    }
}

/// The jobs in the queue after several things were done to them, in whatever order they came.
pub open spec fn handled(
    held: Map<u128, JobView>,
    events: Seq<(JobId, Handling)>,
) -> Map<u128, JobView>
    decreases events.len(),
{
    if events.len() == 0 {
        held
    } else {
        queue::with_change(
            handled(held, events.drop_last()),
            events.last().0,
            |job: JobView| after_handling(job, events.last().1),
        )
    }
}

/// What was done to one job among all.
pub open spec fn of_one(events: Seq<(JobId, Handling)>, id: JobId) -> Seq<Handling>
    decreases events.len(),
{
    if events.len() == 0 {
        Seq::empty()
    } else if events.last().0 == id {
        of_one(events.drop_last(), id).push(events.last().1)
    } else {
        of_one(events.drop_last(), id)
    }
}

/// Handling one job leaves the handling of another as it was: however the work on several is mixed,
/// each is in the end what its own handling alone makes of it. What is done to a job that is not in
/// the queue changes nothing.
pub proof fn law_handling_is_independent(
    held: Map<u128, JobView>,
    events: Seq<(JobId, Handling)>,
    id: JobId,
)
    ensures
        handled(held, events).dom() == held.dom(),
        held.dom().contains(id.0) ==> handled(held, events)[id.0] == after_all(
            held[id.0],
            of_one(events, id),
        ),
        (forall|i: int|
            0 <= i < events.len() ==> !held.dom().contains((#[trigger] events[i]).0.0)) ==> handled(
            held,
            events,
        ) == held,
    decreases events.len(),
{
    if events.len() > 0 {
        let rest = events.drop_last();
        law_handling_is_independent(held, rest, id);
        assert(handled(held, events).dom() =~= held.dom());
        if events.last().0 == id {
            assert(of_one(events, id).drop_last() =~= of_one(rest, id));
        }
        if forall|i: int|
            0 <= i < events.len() ==> !held.dom().contains((#[trigger] events[i]).0.0) {
            assert(forall|i: int| 0 <= i < rest.len() ==> #[trigger] rest[i] == events[i]);
            assert(!held.dom().contains(events[events.len() - 1].0.0));
        }
    }
}

/// A job that was cancelled stays cancelled, whatever the worker still does: it gets no result that it
/// did not have before, it is not started any more, and nobody is told of it.
pub proof fn law_cancelled_stays_cancelled(
    held: Map<u128, JobView>,
    id: JobId,
    now: Timestamp,
    events: Seq<(JobId, Handling)>,
    job: JobView,
    outcome: OutcomeView,
    config: JobQueueConfig,
)
    requires
        held.dom().contains(id.0),
        held[id.0].cancellable(),
        job.id == id,
    ensures
        ({
            let after = handled(held.insert(id.0, held[id.0].cancelled(now)), events);
            &&& after.dom().contains(id.0)
            &&& after[id.0].status == JobStatus::Cancelled
            &&& after[id.0].result == held[id.0].result
            &&& after[id.0].started_at == held[id.0].started_at
            &&& notice_due(after, job, outcome, config) is None
        }),
    decreases events.len(),
{
    if events.len() > 0 {
        law_cancelled_stays_cancelled(held, id, now, events.drop_last(), job, outcome, config);
    }
}

/// An analysis of a job that was not cancelled, carried out to its end, leaves the job in the queue
/// completed, with the result of the simulation, and touches no other job.
pub proof fn law_analysis_runs_to_its_end(
    held: Map<u128, JobView>,
    job: JobView,
    simulated: ResultView,
    times: Seq<Timestamp>,
    other: u128,
)
    requires
        held.dom().contains(job.id.0),
        held[job.id.0] == job,
        job.status != JobStatus::Cancelled,
        job.payload is Analyze,
        times.len() == 5,
        other != job.id.0,
    ensures
        ({
            let id = job.id;
            let s1 = queue::with_change(
                held,
                id,
                |j: JobView| queue::started_unless_cancelled(j, times[0]),
            );
            let s2 = queue::with_change(s1, id, |j: JobView| begun(j, job.payload, times[1]));
            let s3 = queue::with_change(
                s2,
                id,
                |j: JobView| j.progressed(70, "Generating insights"@, times[2]),
            );
            let s4 = queue::with_change(
                s3,
                id,
                |j: JobView| j.progressed(90, "Finalizing results"@, times[3]),
            );
            let s5 = queue::with_change(
                s4,
                id,
                |j: JobView|
                    ended(
                        j,
                        OutcomeView::Finished(analysis(simulated)),
                        job.timeout_secs,
                        times[4],
                    ),
            );
            &&& first_step(job.payload) is Simulate
            &&& s5.dom() == held.dom()
            &&& s5[id.0].status == JobStatus::Completed
            &&& s5[id.0].result == Some(analysis(simulated))
            &&& s5[id.0].started_at == Some(times[0])
            &&& s5[id.0].completed_at == Some(times[4])
            &&& jobs::same_request(s5[id.0], job)
            &&& held.dom().contains(other) ==> s5[other] == held[other]
        }),
{
    let id = job.id;
    let s1 = queue::with_change(
        held,
        id,
        |j: JobView| queue::started_unless_cancelled(j, times[0]),
    );
    let s2 = queue::with_change(s1, id, |j: JobView| begun(j, job.payload, times[1]));
    let s3 = queue::with_change(
        s2,
        id,
        |j: JobView| j.progressed(70, "Generating insights"@, times[2]),
    );
    let s4 = queue::with_change(
        s3,
        id,
        |j: JobView| j.progressed(90, "Finalizing results"@, times[3]),
    );
    let s5 = queue::with_change(
        s4,
        id,
        |j: JobView|
            ended(j, OutcomeView::Finished(analysis(simulated)), job.timeout_secs, times[4]),
    );
    assert(s5.dom() =~= held.dom());
}

/// Work does what the payload asks for: an analysis simulates the call that the payload names, with
/// its arguments or none and its overrides; an optimization looks at the call that the payload names,
/// with its margin; and a comparison is at its end at once.
pub proof fn law_work_does_what_is_asked(payload: JobPayload, step: JobStep)
    requires
        step@ == first_step(payload@),
    ensures
        payload matches JobPayload::Analyze { contract_id, function_name, args, ledger_overrides }
            ==> step matches JobStep::Simulate {
            contract_id: id,
            function_name: name,
            args: texts,
            ledger_overrides: table,
        } && id@ == contract_id@ && name@ == function_name@ && (match args {
            Some(args) => jobs::are_texts(Some(args), Some(simulation::texts(texts@))),
            None => texts@.len() == 0,
        }) && (ledger_overrides is None <==> table is None) && (
        ledger_overrides matches Some(overrides) ==> table->0@ == overrides@),
        payload matches JobPayload::OptimizeLimits {
            contract_id,
            function_name,
            args,
            safety_margin,
        } ==> step matches JobStep::Optimize {
            contract_id: id,
            function_name: name,
            args: texts,
            safety_margin: margin,
        } && id@ == contract_id@ && name@ == function_name@ && jobs::are_texts(
            Some(args),
            Some(simulation::texts(texts@)),
        ) && margin == safety_margin,
        payload matches JobPayload::Compare { mode, .. } ==> step matches JobStep::Finish(result)
            && result@ == comparison_remark(mode@),
{
    if step is Simulate {
        assert(simulation::texts(step->Simulate_args@).len() == step->Simulate_args@.len());
    }
}

/// The step for a payload holds what the payload holds, each in its own place.
pub proof fn law_steps_carry_the_payload(payload: PayloadView)
    ensures
        payload matches PayloadView::Analyze { contract_id, function_name, args, ledger_overrides }
            ==> first_step(payload) matches StepView::Simulate {
            contract_id: id,
            function_name: name,
            args: texts,
            ledger_overrides: table,
        } && id == contract_id && name == function_name && table == ledger_overrides && (args
            matches Some(listed) ==> texts == listed) && (args is None ==> texts.len() == 0),
        payload matches PayloadView::OptimizeLimits {
            contract_id,
            function_name,
            args,
            safety_margin,
        } ==> first_step(payload) matches StepView::Optimize {
            contract_id: id,
            function_name: name,
            args: texts,
            safety_margin: margin,
        } && id == contract_id && name == function_name && texts == args && margin
            == safety_margin,
        payload is Compare ==> first_step(payload) is Finish,
{
}

/// The result of a comparison has nothing but a remark, which names the mode and says that this
/// cannot be done yet.
pub proof fn law_comparisons_are_remarked_on(mode: Seq<char>)
    ensures
        comparison_remark(mode) matches JobResultView::Success {
            resources,
            simulation_result,
            optimization,
            comparison,
        } && resources is None && simulation_result is None && optimization is None
            && (comparison matches Some(JsonTree::Object(members)) && members.len() == 2
            && members[0].key == "mode"@ && members[0].value == JsonTree::String(mode)
            && members[1].key == "status"@ && members[1].value == JsonTree::String(
            "Compare jobs not yet fully implemented"@,
        )),
{
}

/// When the work on an analysis or an optimization begins, the job is at thirty percent, and nothing
/// else of it changes; a comparison leaves it as it was.
pub proof fn law_begun_work_is_noted(job: JobView, payload: PayloadView, now: Timestamp)
    ensures
        ({
            let after = begun(job, payload, now);
            &&& payload is Compare ==> after == job
            &&& payload !is Compare ==> {
                &&& after.progress.percent == 30
                &&& after.progress.updated_at == now
                &&& after.progress.message == if payload is Analyze {
                    "Running simulation"@
                } else {
                    "Running optimization"@
                }
                &&& after == (JobView { progress: after.progress, ..job })
            }
        }),
{
}

/// The result of an analysis is the simulation with the resources that it used, and that of an
/// optimization its report; neither has anything else.
pub proof fn law_results_hold_what_was_found(simulated: ResultView, report: JsonTree)
    ensures
        analysis(simulated) matches JobResultView::Success {
            resources,
            simulation_result,
            optimization,
            comparison,
        } && resources == Some(simulated.resources) && simulation_result == Some(simulated)
            && optimization is None && comparison is None,
        optimization(report) matches JobResultView::Success {
            resources,
            simulation_result,
            optimization,
            comparison,
        } && resources is None && simulation_result is None && optimization == Some(report)
            && comparison is None,
{
}

/// How the work ended is how the job ends: it has the result, or fails with the error, or fails with a
/// message that it ran for more than the seconds it was given. What it was asked to do stays.
pub proof fn law_outcome_decides_how_a_job_ends(
    job: JobView,
    result: JobResultView,
    error: Seq<char>,
    timeout_secs: u64,
    now: Timestamp,
)
    requires
        job.status != JobStatus::Cancelled,
    ensures
        ({
            let after = ended(job, OutcomeView::Finished(result), timeout_secs, now);
            &&& after.status == JobStatus::Completed
            &&& after.result == Some(result)
            &&& after.completed_at == Some(now)
            &&& after.progress.percent == 100
            &&& after.progress.updated_at == now
            &&& after.error_message == job.error_message
            &&& after == (JobView {
                status: after.status,
                result: after.result,
                completed_at: after.completed_at,
                progress: after.progress,
                ..job
            })
        }),
        ({
            let after = ended(job, OutcomeView::Failed(error), timeout_secs, now);
            &&& after.status == JobStatus::Failed
            &&& after.error_message == Some(error)
            &&& after.result == Some(
                JobResultView::Failed { error, error_type: "ProcessingError"@ },
            )
            &&& after.completed_at == Some(now)
            &&& after.progress.percent == 0
            &&& after.progress.updated_at == now
            &&& after == (JobView {
                status: after.status,
                error_message: after.error_message,
                result: after.result,
                completed_at: after.completed_at,
                progress: after.progress,
                ..job
            })
        }),
        ({
            let message = "Job timed out after "@ + text::decimal(timeout_secs as nat)
                + " seconds"@;
            let after = ended(job, OutcomeView::TimedOut, timeout_secs, now);
            &&& after.status == JobStatus::Failed
            &&& after.error_message == Some(message)
            &&& after.result == Some(
                JobResultView::Failed { error: message, error_type: "Timeout"@ },
            )
            &&& after.completed_at == Some(now)
            &&& after.progress.percent == 0
            &&& after.progress.updated_at == now
            &&& after == (JobView {
                status: after.status,
                error_message: after.error_message,
                result: after.result,
                completed_at: after.completed_at,
                progress: after.progress,
                ..job
            })
        }),
{
}

/// Of a job that was not cancelled meanwhile, whoever asked to be told is told at the address, with
/// the headers and under the secret that they gave, by the limits that are set: that it was completed,
/// and with what result, or that it failed.
pub proof fn law_told_as_asked(
    held: Map<u128, JobView>,
    job: JobView,
    outcome: OutcomeView,
    config: JobQueueConfig,
)
    ensures
        ({
            let due = notice_due(held, job, outcome, config);
            &&& due is Some <==> job.webhook is Some && !(held.dom().contains(job.id.0)
                && held[job.id.0].status == JobStatus::Cancelled)
            &&& due matches Some(told) ==> {
                &&& job.webhook == Some(told.webhook)
                &&& told.job_id == job.id
                &&& told.timeout_secs == config.webhook_timeout_secs
                &&& told.max_retries == config.webhook_max_retries
                &&& told.status == if outcome is Finished {
                    JobStatus::Completed
                } else {
                    JobStatus::Failed
                }
                &&& outcome matches OutcomeView::Finished(result) ==> told.result == Some(result)
                &&& outcome !is Finished ==> told.result is None
            }
        }),
{
}

/// A notification goes to the address of the job, with its headers and its secret, each as it was
/// given, and carries what came of the job.
pub proof fn law_notices_carry_the_webhook(
    held: Map<u128, JobView>,
    job: Job,
    outcome: JobOutcome,
    config: JobQueueConfig,
    told: WebhookNotice,
)
    requires
        notice_due(held, job@, outcome@, config) == Some(told@),
    ensures
        job.webhook matches Some(webhook) && {
            &&& told.webhook.callback_url@ == webhook.callback_url@
            &&& told.webhook.headers is None <==> webhook.headers is None
            &&& webhook.headers matches Some(headers) ==> told.webhook.headers->0@ == headers@
            &&& told.webhook.secret is None <==> webhook.secret is None
            &&& webhook.secret matches Some(secret) ==> told.webhook.secret->0@ == secret@
        },
        told.job_id == job.id,
        told.timeout_secs == config.webhook_timeout_secs,
        told.max_retries == config.webhook_max_retries,
        outcome matches JobOutcome::Finished(result) ==> told.status == JobStatus::Completed
            && told.result is Some && told.result->0@ == result@,
        outcome !is Finished ==> told.status == JobStatus::Failed && told.result is None,
{
    jobs::law_webhooks_stand_for_their_fields(told.webhook);
    jobs::law_webhooks_stand_for_their_fields(job.webhook->0);
}

/// Steps, outcomes and notices stand for what they hold.
pub proof fn law_steps_and_outcomes_stand_for_themselves(
    step: JobStep,
    outcome: JobOutcome,
    told: WebhookNotice,
)
    ensures
        step matches JobStep::Simulate { contract_id, function_name, args, ledger_overrides }
            ==> step@ matches StepView::Simulate {
            contract_id: id,
            function_name: name,
            args: texts,
            ledger_overrides: table,
        } && id == contract_id@ && name == function_name@ && jobs::are_texts(
            Some(args),
            Some(texts),
        ) && (ledger_overrides is None <==> table is None) && (
        ledger_overrides matches Some(overrides) ==> table == Some(overrides@)),
        step matches JobStep::Optimize { contract_id, function_name, args, safety_margin }
            ==> step@ matches StepView::Optimize {
            contract_id: id,
            function_name: name,
            args: texts,
            safety_margin: margin,
        } && id == contract_id@ && name == function_name@ && jobs::are_texts(
            Some(args),
            Some(texts),
        ) && margin == safety_margin,
        told@.webhook == told.webhook@,
        told@.job_id == told.job_id,
        told@.status == told.status,
        told.result is None <==> told@.result is None,
        told.result matches Some(result) ==> told@.result == Some(result@),
        told@.timeout_secs == told.timeout_secs,
        told@.max_retries == told.max_retries,
        step matches JobStep::Finish(result) ==> step@ == StepView::Finish(result@),
        outcome matches JobOutcome::Finished(result) ==> outcome@ == OutcomeView::Finished(result@),
        outcome matches JobOutcome::Failed(error) ==> outcome@ == OutcomeView::Failed(error@),
        outcome is TimedOut <==> outcome@ is TimedOut,
{
}

} // verus!
