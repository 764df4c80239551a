//! Jobs: what they are and how they change.
use crate::double::Double;
use crate::json;
use crate::json::{Json, JsonTree};
use crate::simulation;
use crate::simulation::{ResultView, SimulationResult, SorobanResources};
use crate::time;
use crate::time::Timestamp;
use std::collections::HashMap;
use vstd::arithmetic::power::pow;
use vstd::prelude::*;
use vstd::string::*;

verus! {

// ── Identifiers ────────────────────────────────────────────────────────────

/// Unique identifier for a job: the 128 bits of a UUID.
#[derive(Clone, Copy, Debug, PartialEq, Eq, Hash, Structural)]
pub struct JobId(pub u128);

/// `uuid::Error`, carried as an opaque value.
#[verifier::external_type_specification]
#[verifier::external_body]
pub struct ExUuidError(uuid::Error);

/// The character of one hex digit, in lower case.
pub open spec fn hex_char(digit: int) -> char {
    if digit < 10 {
        (48 + digit) as char
    } else {
        (87 + digit) as char
    }
}

/// One of the 32 hex digits of an identifier, the highest first.
pub open spec fn id_digit(id: u128, place: int) -> int {
    (id as int / pow(16, (31 - place) as nat)) % 16
}

/// An identifier as a text: its hex digits in groups of 8, 4, 4, 4 and 12, with hyphens between.
pub open spec fn hyphenated(id: u128) -> Seq<char> {
    Seq::new(
        36,
        |i: int|
            if i == 8 || i == 13 || i == 18 || i == 23 {
                '-'
            } else if i < 8 {
                hex_char(id_digit(id, i))
            } else if i < 13 {
                hex_char(id_digit(id, i - 1))
            } else if i < 18 {
                hex_char(id_digit(id, i - 2))
            } else if i < 23 {
                hex_char(id_digit(id, i - 3))
            } else {
                hex_char(id_digit(id, i - 4))
            },
    )
}

/// Whether an identifier is marked as a random one: version 4, variant 1.
pub open spec fn marked_random(id: u128) -> bool {
    (id / 0x1000_0000_0000_0000_0000) % 16 == 4 && (id / 0x4000_0000_0000_0000) % 4 == 2
}

/// What `uuid::Uuid::parse_str` makes of a text; `None` where it refuses it.
pub uninterp spec fn uuid_parsed(text: Seq<char>) -> Option<u128>;

/// Calls `uuid::Uuid::new_v4`. Claims that the identifier is marked as a random one. The other bits
/// are left to chance.
#[verifier::external_body]
fn random_uuid() -> (r: u128)
    ensures
        marked_random(r),
{
    uuid::Uuid::new_v4().as_u128()
}

/// Calls `uuid::Uuid::parse_str`. Claims that the outcome is the one which [`uuid_parsed`] names, and
/// that the text which [`hyphenated`] states is read back as the identifier.
#[verifier::external_body]
fn parse_uuid(text: &str) -> (r: Result<u128, uuid::Error>)
    ensures
        match r {
            Ok(id) => uuid_parsed(text@) == Some(id),
            Err(_) => uuid_parsed(text@) is None,
        },
        forall|id: u128| text@ == #[trigger] hyphenated(id) ==> (r is Ok && r->Ok_0 == id),
{
    uuid::Uuid::parse_str(text).map(|id| id.as_u128())
}

/// Calls `to_string` on a `uuid::Uuid`. Claims that it writes the text which [`hyphenated`] states.
#[verifier::external_body]
fn uuid_text(id: u128) -> (r: String)
    ensures
        r@ == hyphenated(id),
{
    uuid::Uuid::from_u128(id).to_string()
}

impl JobId {
    /// A fresh identifier.
    pub fn new() -> (r: JobId)
        ensures
            marked_random(r.0),
    {
        JobId(random_uuid())
    }

    /// Reads an identifier. What [`JobId::to_string`] writes is read back as it was.
    pub fn parse_str(s: &str) -> (r: Result<JobId, uuid::Error>)
        ensures
            match r {
                Ok(id) => uuid_parsed(s@) == Some(id.0),
                Err(_) => uuid_parsed(s@) is None,
            },
            forall|id: JobId| s@ == #[trigger] hyphenated(id.0) ==> (r is Ok && r->Ok_0 == id),
    {
        match parse_uuid(s) {
            Ok(id) => Ok(JobId(id)),
            Err(error) => Err(error),
        }
    }

    /// Writes an identifier.
    pub fn to_string(&self) -> (text: String)
        ensures
            text@ == hyphenated(self.0),
    {
        uuid_text(self.0)
    }
}

impl Default for JobId {
    fn default() -> (r: JobId)
        ensures
            marked_random(r.0),
    {
        JobId::new()
    }
}

impl std::str::FromStr for JobId {
    type Err = uuid::Error;

    /// Reads an identifier, as [`JobId::parse_str`] does.
    fn from_str(s: &str) -> (r: Result<JobId, uuid::Error>)
        ensures
            match r {
                Ok(id) => uuid_parsed(s@) == Some(id.0),
                Err(_) => uuid_parsed(s@) is None,
            },
            forall|id: JobId| s@ == #[trigger] hyphenated(id.0) ==> (r is Ok && r->Ok_0 == id),
    {
        JobId::parse_str(s)
    }
}

// ── Data ───────────────────────────────────────────────────────────────────

/// Status of a job in its lifecycle
#[derive(Clone, Copy, Debug, PartialEq, Eq, Structural)]
pub enum JobStatus {
    /// Job is waiting to be processed
    Queued,
    /// Job is currently being processed
    Processing,
    /// Job completed successfully
    Completed,
    /// Job failed with an error
    Failed,
    /// Job was cancelled by user
    Cancelled,
}

/// Type of analysis job
#[derive(Clone, Copy, Debug, PartialEq, Eq, Structural)]
pub enum JobType {
    /// Single contract analysis
    Analyze,
    /// Compare two contracts
    Compare,
    /// Optimize resource limits
    OptimizeLimits,
}

/// Payload for different job types
#[allow(inconsistent_fields)]
#[derive(Debug)]
pub enum JobPayload {
    Analyze {
        contract_id: String,
        function_name: String,
        args: Option<Vec<String>>,
        ledger_overrides: Option<HashMap<String, String>>,
    },
    Compare {
        mode: String,
        current_wasm: Option<Vec<u8>>,
        base_wasm: Option<Vec<u8>>,
        contract_id: Option<String>,
        function_name: Option<String>,
        args: Vec<String>,
    },
    OptimizeLimits {
        contract_id: String,
        function_name: String,
        args: Vec<String>,
        safety_margin: Double,
    },
}

/// Progress information for a job
#[derive(Debug)]
pub struct JobProgress {
    /// Progress percentage (0-100)
    pub percent: u8,
    /// Human-readable status message
    pub message: String,
    /// Timestamp of last update
    pub updated_at: Timestamp,
}

/// Result of a completed job
#[derive(Debug)]
pub enum JobResult {
    Success {
        /// Resource report for analyze jobs
        resources: Option<SorobanResources>,
        /// Full simulation result
        simulation_result: Option<SimulationResult>,
        /// Optimization report
        optimization: Option<Json>,
        /// Comparison report
        comparison: Option<Json>,
    },
    Failed { error: String, error_type: String },
}

/// Webhook configuration for job notifications
#[derive(Debug)]
pub struct WebhookConfig {
    /// URL to POST when job completes or fails
    pub callback_url: String,
    /// Optional custom headers to send along
    pub headers: Option<HashMap<String, String>>,
    /// Secret for HMAC signature (optional)
    pub secret: Option<String>,
}

/// A job in the queue
#[derive(Debug)]
pub struct Job {
    pub id: JobId,
    pub job_type: JobType,
    pub status: JobStatus,
    pub payload: JobPayload,
    pub progress: JobProgress,
    pub result: Option<JobResult>,
    pub webhook: Option<WebhookConfig>,
    pub created_at: Timestamp,
    pub started_at: Option<Timestamp>,
    pub completed_at: Option<Timestamp>,
    /// Job timeout in seconds
    pub timeout_secs: u64,
    /// Error message if job failed
    pub error_message: Option<String>,
}

/// Request to submit a new job
#[derive(Debug)]
pub struct SubmitJobRequest {
    pub job_type: JobType,
    pub payload: JobPayload,
    pub webhook: Option<WebhookConfig>,
    /// Optional custom timeout in seconds (overrides default)
    pub timeout_secs: Option<u64>,
}

/// Response from submitting a job
#[derive(Debug)]
pub struct SubmitJobResponse {
    pub job_id: String,
    pub status: JobStatus,
    pub message: String,
}

// ── What the data stands for ───────────────────────────────────────────────

/// What a [`JobPayload`] stands for.
#[allow(inconsistent_fields)]
pub enum PayloadView {
    Analyze {
        contract_id: Seq<char>,
        function_name: Seq<char>,
        args: Option<Seq<Seq<char>>>,
        ledger_overrides: Option<Map<String, String>>,
    },
    Compare {
        mode: Seq<char>,
        current_wasm: Option<Seq<u8>>,
        base_wasm: Option<Seq<u8>>,
        contract_id: Option<Seq<char>>,
        function_name: Option<Seq<char>>,
        args: Seq<Seq<char>>,
    },
    OptimizeLimits {
        contract_id: Seq<char>,
        function_name: Seq<char>,
        args: Seq<Seq<char>>,
        safety_margin: Double,
    },
}

/// What a [`JobProgress`] stands for.
pub struct ProgressView {
    pub percent: u8,
    pub message: Seq<char>,
    pub updated_at: Timestamp,
}

/// What a [`JobResult`] stands for.
pub enum JobResultView {
    Success {
        resources: Option<SorobanResources>,
        simulation_result: Option<ResultView>,
        optimization: Option<JsonTree>,
        comparison: Option<JsonTree>,
    },
    Failed { error: Seq<char>, error_type: Seq<char> },
}

/// What a [`WebhookConfig`] stands for.
pub struct WebhookView {
    pub callback_url: Seq<char>,
    pub headers: Option<Map<String, String>>,
    pub secret: Option<Seq<char>>,
}

/// What a [`Job`] stands for.
pub struct JobView {
    pub id: JobId,
    pub job_type: JobType,
    pub status: JobStatus,
    pub payload: PayloadView,
    pub progress: ProgressView,
    pub result: Option<JobResultView>,
    pub webhook: Option<WebhookView>,
    pub created_at: Timestamp,
    pub started_at: Option<Timestamp>,
    pub completed_at: Option<Timestamp>,
    pub timeout_secs: u64,
    pub error_message: Option<Seq<char>>,
}

/// An optional text by its view.
pub open spec fn text_view(text: Option<String>) -> Option<Seq<char>> {
    match text {
        Some(text) => Some(text@),
        None => None,
    }
}

/// Optional texts by their views.
pub open spec fn texts_view(items: Option<Vec<String>>) -> Option<Seq<Seq<char>>> {
    match items {
        Some(items) => Some(simulation::texts(items@)),
        None => None,
    }
}

/// Optional bytes by their view.
pub open spec fn bytes_view(bytes: Option<Vec<u8>>) -> Option<Seq<u8>> {
    match bytes {
        Some(bytes) => Some(bytes@),
        None => None,
    }
}

/// An optional table of texts by its view.
pub open spec fn table_view(table: Option<HashMap<String, String>>) -> Option<Map<String, String>> {
    match table {
        Some(table) => Some(table@),
        None => None,
    }
}

/// An optional document by its view.
pub open spec fn document_view(json: Option<Json>) -> Option<JsonTree> {
    match json {
        Some(json) => Some(json@),
        None => None,
    }
}

/// An optional simulation result by its view.
pub open spec fn simulation_view(result: Option<SimulationResult>) -> Option<ResultView> {
    match result {
        Some(result) => Some(result@),
        None => None,
    }
}

/// An optional webhook by its view.
pub open spec fn webhook_view(webhook: Option<WebhookConfig>) -> Option<WebhookView> {
    match webhook {
        Some(webhook) => Some(webhook@),
        None => None,
    }
}

/// An optional job result by its view.
pub open spec fn result_view(result: Option<JobResult>) -> Option<JobResultView> {
    match result {
        Some(result) => Some(result@),
        None => None,
    }
}

impl View for JobPayload {
    type V = PayloadView;

    open spec fn view(&self) -> PayloadView {
        match *self {
            JobPayload::Analyze { contract_id, function_name, args, ledger_overrides } => {
                PayloadView::Analyze {
                    contract_id: contract_id@,
                    function_name: function_name@,
                    args: texts_view(args),
                    ledger_overrides: table_view(ledger_overrides),
                }
            },
            JobPayload::Compare {
                mode,
                current_wasm,
                base_wasm,
                contract_id,
                function_name,
                args,
            } => PayloadView::Compare {
                mode: mode@,
                current_wasm: bytes_view(current_wasm),
                base_wasm: bytes_view(base_wasm),
                contract_id: text_view(contract_id),
                function_name: text_view(function_name),
                args: simulation::texts(args@),
            },
            JobPayload::OptimizeLimits { contract_id, function_name, args, safety_margin } => {
                PayloadView::OptimizeLimits {
                    contract_id: contract_id@,
                    function_name: function_name@,
                    args: simulation::texts(args@),
                    safety_margin,
                }
            },
        }
    }
}

impl View for JobProgress {
    type V = ProgressView;

    open spec fn view(&self) -> ProgressView {
        ProgressView {
            percent: self.percent,
            message: self.message@,
            updated_at: self.updated_at,
        }
    }
}

impl View for JobResult {
    type V = JobResultView;

    open spec fn view(&self) -> JobResultView {
        match *self {
            JobResult::Success { resources, simulation_result, optimization, comparison } => {
                JobResultView::Success {
                    resources,
                    simulation_result: simulation_view(simulation_result),
                    optimization: document_view(optimization),
                    comparison: document_view(comparison),
                }
            },
            JobResult::Failed { error, error_type } => JobResultView::Failed {
                error: error@,
                error_type: error_type@,
            },
        }
    }
}

impl View for WebhookConfig {
    type V = WebhookView;

    open spec fn view(&self) -> WebhookView {
        WebhookView {
            callback_url: self.callback_url@,
            headers: table_view(self.headers),
            secret: text_view(self.secret),
        }
    }
}

impl View for Job {
    type V = JobView;

    open spec fn view(&self) -> JobView {
        JobView {
            id: self.id,
            job_type: self.job_type,
            status: self.status,
            payload: self.payload@,
            progress: self.progress@,
            result: result_view(self.result),
            webhook: webhook_view(self.webhook),
            created_at: self.created_at,
            started_at: self.started_at,
            completed_at: self.completed_at,
            timeout_secs: self.timeout_secs,
            error_message: text_view(self.error_message),
        }
    }
}

// ── Copies ─────────────────────────────────────────────────────────────────

/// Copies an optional text.
fn copy_text(text: &Option<String>) -> (r: Option<String>)
    ensures
        text_view(r) == text_view(*text),
{
    match text {
        Some(text) => Some(text.clone()),
        None => None,
    }
}

/// Copies bytes.
fn copy_bytes(bytes: &Vec<u8>) -> (r: Vec<u8>)
    ensures
        r@ == bytes@,
{
    let mut r: Vec<u8> = Vec::new();
    let mut i: usize = 0;
    while i < bytes.len()
        invariant
            i <= bytes@.len(),
            r@ == bytes@.take(i as int),
        decreases bytes@.len() - i,
    {
        r.push(bytes[i]);
        assert(bytes@.take(i + 1) =~= bytes@.take(i as int).push(bytes@[i as int]));
        i += 1;
    }
    assert(bytes@.take(i as int) =~= bytes@);
    r
}

/// Copies optional bytes.
fn copy_optional_bytes(bytes: &Option<Vec<u8>>) -> (r: Option<Vec<u8>>)
    ensures
        bytes_view(r) == bytes_view(*bytes),
{
    match bytes {
        Some(bytes) => Some(copy_bytes(bytes)),
        None => None,
    }
}

/// Copies an optional table of texts.
pub(crate) fn copy_table(table: &Option<HashMap<String, String>>) -> (r: Option<
    HashMap<String, String>,
>)
    ensures
        table_view(r) == table_view(*table),
{
    match table {
        Some(table) => Some(table.clone()),
        None => None,
    }
}

/// Copies an optional document.
fn copy_document(json: &Option<Json>) -> (r: Option<Json>)
    ensures
        document_view(r) == document_view(*json),
{
    match json {
        Some(json) => Some(json.clone()),
        None => None,
    }
}

impl Clone for JobPayload {
    /// Copies a payload.
    fn clone(&self) -> (r: JobPayload)
        ensures
            r@ == self@,
    {
        match self {
            JobPayload::Analyze { contract_id, function_name, args, ledger_overrides } => {
                let args = match args {
                    Some(args) => Some(simulation::copy_texts(args)),
                    None => None,
                };
                JobPayload::Analyze {
                    contract_id: contract_id.clone(),
                    function_name: function_name.clone(),
                    args,
                    ledger_overrides: copy_table(ledger_overrides),
                }
            },
            JobPayload::Compare {
                mode,
                current_wasm,
                base_wasm,
                contract_id,
                function_name,
                args,
            } => JobPayload::Compare {
                mode: mode.clone(),
                current_wasm: copy_optional_bytes(current_wasm),
                base_wasm: copy_optional_bytes(base_wasm),
                contract_id: copy_text(contract_id),
                function_name: copy_text(function_name),
                args: simulation::copy_texts(args),
            },
            JobPayload::OptimizeLimits { contract_id, function_name, args, safety_margin } => {
                JobPayload::OptimizeLimits {
                    contract_id: contract_id.clone(),
                    function_name: function_name.clone(),
                    args: simulation::copy_texts(args),
                    safety_margin: *safety_margin,
                }
            },
        }
    }
}

impl Clone for JobResult {
    /// Copies a result.
    fn clone(&self) -> (r: JobResult)
        ensures
            r@ == self@,
    {
        match self {
            JobResult::Success { resources, simulation_result, optimization, comparison } => {
                let simulation_result = match simulation_result {
                    Some(result) => Some(result.clone()),
                    None => None,
                };
                JobResult::Success {
                    resources: *resources,
                    simulation_result,
                    optimization: copy_document(optimization),
                    comparison: copy_document(comparison),
                }
            },
            JobResult::Failed { error, error_type } => JobResult::Failed {
                error: error.clone(),
                error_type: error_type.clone(),
            },
        }
    }
}

impl Clone for WebhookConfig {
    /// Copies a webhook configuration.
    fn clone(&self) -> (r: WebhookConfig)
        ensures
            r@ == self@,
    {
        WebhookConfig {
            callback_url: self.callback_url.clone(),
            headers: copy_table(&self.headers),
            secret: copy_text(&self.secret),
        }
    }
}

impl Clone for Job {
    /// Copies a job.
    fn clone(&self) -> (r: Job)
        ensures
            r@ == self@,
    {
        let result = match &self.result {
            Some(result) => Some(result.clone()),
            None => None,
        };
        let webhook = match &self.webhook {
            Some(webhook) => Some(webhook.clone()),
            None => None,
        };
        Job {
            id: self.id,
            job_type: self.job_type,
            status: self.status,
            payload: self.payload.clone(),
            progress: JobProgress {
                percent: self.progress.percent,
                message: self.progress.message.clone(),
                updated_at: self.progress.updated_at,
            },
            result,
            webhook,
            created_at: self.created_at,
            started_at: self.started_at,
            completed_at: self.completed_at,
            timeout_secs: self.timeout_secs,
            error_message: copy_text(&self.error_message),
        }
    }
}

// ── The life of a job ──────────────────────────────────────────────────────

/// A percentage: what is more than a hundred counts as a hundred.
pub open spec fn as_percentage(percent: u8) -> u8 {
    if percent > 100 {
        100
    } else {
        percent
    }
}

/// The progress that is noted at a point in time.
pub open spec fn progress_at(percent: u8, message: Seq<char>, now: Timestamp) -> ProgressView {
    ProgressView { percent: as_percentage(percent), message, updated_at: now }
}

/// A job that is submitted at a point in time.
pub open spec fn queued(
    id: JobId,
    job_type: JobType,
    payload: PayloadView,
    webhook: Option<WebhookView>,
    timeout_secs: u64,
    now: Timestamp,
) -> JobView {
    JobView {
        id,
        job_type,
        status: JobStatus::Queued,
        payload,
        progress: progress_at(0, "Queued"@, now),
        result: None,
        webhook,
        created_at: now,
        started_at: None,
        completed_at: None,
        timeout_secs,
        error_message: None,
    }
}

/// Whether a job in this status has come to its end.
pub open spec fn is_finished(status: JobStatus) -> bool {
    status == JobStatus::Completed || status == JobStatus::Failed || status == JobStatus::Cancelled
}

impl JobView {
    /// The job after it was started.
    pub open spec fn started(self, now: Timestamp) -> JobView {
        JobView {
            status: JobStatus::Processing,
            started_at: Some(now),
            progress: progress_at(10, "Processing started"@, now),
            ..self
        }
    }

    /// The job after it was completed.
    pub open spec fn completed(self, result: JobResultView, now: Timestamp) -> JobView {
        JobView {
            status: JobStatus::Completed,
            result: Some(result),
            completed_at: Some(now),
            progress: progress_at(100, "Completed"@, now),
            ..self
        }
    }

    /// The job after it failed.
    pub open spec fn failed(
        self,
        error: Seq<char>,
        error_type: Seq<char>,
        now: Timestamp,
    ) -> JobView {
        JobView {
            status: JobStatus::Failed,
            error_message: Some(error),
            result: Some(JobResultView::Failed { error, error_type }),
            completed_at: Some(now),
            progress: progress_at(0, "Failed"@, now),
            ..self
        }
    }

    /// The job after it was cancelled.
    pub open spec fn cancelled(self, now: Timestamp) -> JobView {
        JobView {
            status: JobStatus::Cancelled,
            completed_at: Some(now),
            progress: progress_at(0, "Cancelled"@, now),
            ..self
        }
    }

    /// The job after progress was noted.
    pub open spec fn progressed(self, percent: u8, message: Seq<char>, now: Timestamp) -> JobView {
        JobView { progress: progress_at(percent, message, now), ..self }
    }

    /// Whether the job can be cancelled.
    pub open spec fn cancellable(self) -> bool {
        self.status == JobStatus::Queued || self.status == JobStatus::Processing
    }

    /// Whether the times of the job are points that the calendar holds, and what its status says of
    /// it is there: an ended job has the time of its end, and a failed one its error.
    pub open spec fn wf(self) -> bool {
        &&& self.completed_at matches Some(at) ==> at.wf()
        &&& is_finished(self.status) ==> self.completed_at is Some
        &&& self.status == JobStatus::Failed ==> {
            &&& self.error_message is Some
            &&& self.result matches Some(JobResultView::Failed { error, error_type })
                && self.error_message == Some(error)
        }
    }
}

impl JobProgress {
    /// Notes progress at a point in time. More than a hundred percent is a hundred.
    pub fn new_at(percent: u8, message: &str, now: Timestamp) -> (r: JobProgress)
        ensures
            r@ == progress_at(percent, message@, now),
    {
        let percent: u8 = if percent > 100 {
            100
        } else {
            percent
        };
        JobProgress { percent, message: message.to_owned(), updated_at: now }
    }

    /// Notes progress now.
    pub fn new(percent: u8, message: &str) -> (r: JobProgress)
        ensures
            r.updated_at.wf(),
            r@ == progress_at(percent, message@, r.updated_at),
    {
        JobProgress::new_at(percent, message, Timestamp::now())
    }
}

impl Job {
    /// A job that is submitted at a point in time.
    pub fn new_at(
        id: JobId,
        job_type: JobType,
        payload: JobPayload,
        webhook: Option<WebhookConfig>,
        timeout_secs: u64,
        now: Timestamp,
    ) -> (r: Job)
        ensures
            r@ == queued(id, job_type, payload@, webhook_view(webhook), timeout_secs, now),
    {
        Job {
            id,
            job_type,
            status: JobStatus::Queued,
            payload,
            progress: JobProgress::new_at(0, "Queued", now),
            result: None,
            webhook,
            created_at: now,
            started_at: None,
            completed_at: None,
            timeout_secs,
            error_message: None,
        }
    }

    /// A job that is submitted now.
    pub fn new(
        id: JobId,
        job_type: JobType,
        payload: JobPayload,
        webhook: Option<WebhookConfig>,
        timeout_secs: u64,
    ) -> (r: Job)
        ensures
            r.created_at.wf(),
            r@ == queued(
                id,
                job_type,
                payload@,
                webhook_view(webhook),
                timeout_secs,
                r.created_at,
            ),
    {
        Job::new_at(id, job_type, payload, webhook, timeout_secs, Timestamp::now())
    }

    /// Starts the job at a point in time.
    pub fn start_at(&mut self, now: Timestamp)
        ensures
            final(self)@ == old(self)@.started(now),
    {
        self.status = JobStatus::Processing;
        self.started_at = Some(now);
        self.progress = JobProgress::new_at(10, "Processing started", now);
    }

    /// Starts the job.
    pub fn start(&mut self)
        ensures
            final(self).progress.updated_at.wf(),
            final(self)@ == old(self)@.started(final(self).progress.updated_at),
    {
        self.start_at(Timestamp::now());
    }

    /// Completes the job at a point in time.
    pub fn complete_at(&mut self, result: JobResult, now: Timestamp)
        ensures
            final(self)@ == old(self)@.completed(result@, now),
    {
        self.status = JobStatus::Completed;
        self.result = Some(result);
        self.completed_at = Some(now);
        self.progress = JobProgress::new_at(100, "Completed", now);
    }

    /// Completes the job.
    pub fn complete(&mut self, result: JobResult)
        ensures
            final(self).progress.updated_at.wf(),
            final(self)@ == old(self)@.completed(result@, final(self).progress.updated_at),
    {
        self.complete_at(result, Timestamp::now());
    }

    /// Fails the job at a point in time.
    pub fn fail_at(&mut self, error: String, error_type: String, now: Timestamp)
        ensures
            final(self)@ == old(self)@.failed(error@, error_type@, now),
    {
        self.status = JobStatus::Failed;
        self.error_message = Some(error.clone());
        self.result = Some(JobResult::Failed { error, error_type });
        self.completed_at = Some(now);
        self.progress = JobProgress::new_at(0, "Failed", now);
    }

    /// Fails the job.
    pub fn fail(&mut self, error: String, error_type: String)
        ensures
            final(self).progress.updated_at.wf(),
            final(self)@ == old(self)@.failed(
                error@,
                error_type@,
                final(self).progress.updated_at,
            ),
    {
        self.fail_at(error, error_type, Timestamp::now());
    }

    /// Cancels the job at a point in time.
    pub fn cancel_at(&mut self, now: Timestamp)
        ensures
            final(self)@ == old(self)@.cancelled(now),
    {
        self.status = JobStatus::Cancelled;
        self.completed_at = Some(now);
        self.progress = JobProgress::new_at(0, "Cancelled", now);
    }

    /// Cancels the job.
    pub fn cancel(&mut self)
        ensures
            final(self).progress.updated_at.wf(),
            final(self)@ == old(self)@.cancelled(final(self).progress.updated_at),
    {
        self.cancel_at(Timestamp::now());
    }

    /// Notes progress of the job at a point in time.
    pub fn update_progress_at(&mut self, percent: u8, message: &str, now: Timestamp)
        ensures
            final(self)@ == old(self)@.progressed(percent, message@, now),
    {
        self.progress = JobProgress::new_at(percent, message, now);
    }

    /// Notes progress of the job.
    pub fn update_progress(&mut self, percent: u8, message: &str)
        ensures
            final(self).progress.updated_at.wf(),
            final(self)@ == old(self)@.progressed(
                percent,
                message@,
                final(self).progress.updated_at,
            ),
    {
        self.update_progress_at(percent, message, Timestamp::now());
    }
}

// ── Errors ─────────────────────────────────────────────────────────────────

/// Errors that can occur in job operations
#[derive(Debug)]
pub enum JobError {
    NotFound(JobId),
    CannotCancel(JobStatus),
    ProcessingFailed(String),
    WebhookFailed(String),
}

/// The name of a status.
pub open spec fn status_name(status: JobStatus) -> Seq<char> {
    match status {
        JobStatus::Queued => "Queued"@,
        JobStatus::Processing => "Processing"@,
        JobStatus::Completed => "Completed"@,
        JobStatus::Failed => "Failed"@,
        JobStatus::Cancelled => "Cancelled"@,
    }
}

/// The name of a status in documents.
pub open spec fn status_code(status: JobStatus) -> Seq<char> {
    match status {
        JobStatus::Queued => "QUEUED"@,
        JobStatus::Processing => "PROCESSING"@,
        JobStatus::Completed => "COMPLETED"@,
        JobStatus::Failed => "FAILED"@,
        JobStatus::Cancelled => "CANCELLED"@,
    }
}

impl JobStatus {
    /// The name of the status.
    pub fn name(self) -> (text: &'static str)
        ensures
            text@ == status_name(self),
    {
        match self {
            JobStatus::Queued => "Queued",
            JobStatus::Processing => "Processing",
            JobStatus::Completed => "Completed",
            JobStatus::Failed => "Failed",
            JobStatus::Cancelled => "Cancelled",
        }
    }

    /// The name of the status in documents.
    pub fn code(self) -> (text: &'static str)
        ensures
            text@ == status_code(self),
    {
        match self {
            JobStatus::Queued => "QUEUED",
            JobStatus::Processing => "PROCESSING",
            JobStatus::Completed => "COMPLETED",
            JobStatus::Failed => "FAILED",
            JobStatus::Cancelled => "CANCELLED",
        }
    }
}

/// The message of an error.
pub open spec fn job_error_message(error: JobError) -> Seq<char> {
    match error {
        JobError::NotFound(id) => "Job not found: "@ + hyphenated(id.0),
        JobError::CannotCancel(status) => "Job cannot be cancelled in status: "@ + status_name(
            status,
        ),
        JobError::ProcessingFailed(details) => "Job processing failed: "@ + details@,
        JobError::WebhookFailed(details) => "Webhook delivery failed: "@ + details@,
    }
}

impl JobError {
    /// The message for people.
    pub fn to_string(&self) -> (text: String)
        ensures
            text@ == job_error_message(*self),
    {
        match self {
            JobError::NotFound(id) => {
                let mut text = "Job not found: ".to_owned();
                text.append(id.to_string().as_str());
                text
            },
            JobError::CannotCancel(status) => {
                let mut text = "Job cannot be cancelled in status: ".to_owned();
                text.append(status.name());
                text
            },
            JobError::ProcessingFailed(details) => {
                let mut text = "Job processing failed: ".to_owned();
                text.append(details.as_str());
                text
            },
            JobError::WebhookFailed(details) => {
                let mut text = "Webhook delivery failed: ".to_owned();
                text.append(details.as_str());
                text
            },
        }
    }
}

// ── Laws ───────────────────────────────────────────────────────────────────

/// Whatever happens to a job, it stays in order: an ended job has the time of its end, and a failed
/// one its error. A new job is in order.
pub proof fn law_jobs_stay_in_order(
    job: JobView,
    id: JobId,
    job_type: JobType,
    payload: PayloadView,
    webhook: Option<WebhookView>,
    timeout_secs: u64,
    result: JobResultView,
    error: Seq<char>,
    error_type: Seq<char>,
    percent: u8,
    message: Seq<char>,
    now: Timestamp,
)
    requires
        job.wf(),
        now.wf(),
    ensures
        queued(id, job_type, payload, webhook, timeout_secs, now).wf(),
        job.started(now).wf(),
        job.completed(result, now).wf(),
        job.failed(error, error_type, now).wf(),
        job.cancelled(now).wf(),
        job.progressed(percent, message, now).wf(),
{
}

/// Progress is a percentage: whatever is noted of a job, it is at most a hundred, and a percentage is
/// noted as it is.
pub proof fn law_progress_is_a_percentage(
    job: JobView,
    id: JobId,
    job_type: JobType,
    payload: PayloadView,
    webhook: Option<WebhookView>,
    timeout_secs: u64,
    result: JobResultView,
    error: Seq<char>,
    error_type: Seq<char>,
    percent: u8,
    message: Seq<char>,
    now: Timestamp,
)
    ensures
        queued(id, job_type, payload, webhook, timeout_secs, now).progress.percent <= 100,
        job.started(now).progress.percent <= 100,
        job.completed(result, now).progress.percent <= 100,
        job.failed(error, error_type, now).progress.percent <= 100,
        job.cancelled(now).progress.percent <= 100,
        job.progressed(percent, message, now).progress.percent <= 100,
        percent <= 100 ==> job.progressed(percent, message, now).progress.percent == percent,
{
}

/// Whether two states of a job agree on what it is and what it was asked to do.
pub open spec fn same_request(a: JobView, b: JobView) -> bool {
    &&& a.id == b.id
    &&& a.job_type == b.job_type
    &&& a.payload == b.payload
    &&& a.webhook == b.webhook
    &&& a.created_at == b.created_at
    &&& a.timeout_secs == b.timeout_secs
}

/// What a job is and what it was asked to do never changes.
pub proof fn law_jobs_keep_their_request(
    job: JobView,
    result: JobResultView,
    error: Seq<char>,
    error_type: Seq<char>,
    percent: u8,
    message: Seq<char>,
    now: Timestamp,
)
    ensures
        same_request(job.started(now), job),
        same_request(job.completed(result, now), job),
        same_request(job.failed(error, error_type, now), job),
        same_request(job.cancelled(now), job),
        same_request(job.progressed(percent, message, now), job),
{
}

/// A cancelled job cannot be cancelled again, and neither can a completed or a failed one.
pub proof fn law_no_cancelling_twice(
    job: JobView,
    result: JobResultView,
    error: Seq<char>,
    error_type: Seq<char>,
    now: Timestamp,
)
    ensures
        !job.cancelled(now).cancellable(),
        !job.completed(result, now).cancellable(),
        !job.failed(error, error_type, now).cancellable(),
{
}

/// A job stands for what its fields hold: none is lost, and none stands for another.
pub proof fn law_jobs_stand_for_their_fields(job: Job)
    ensures
        job@.id == job.id,
        job@.job_type == job.job_type,
        job@.status == job.status,
        job@.payload == job.payload@,
        job@.progress.percent == job.progress.percent,
        job@.progress.message == job.progress.message@,
        job@.progress.updated_at == job.progress.updated_at,
        job.result is None <==> job@.result is None,
        job.result matches Some(result) ==> job@.result == Some(result@),
        job.webhook is None <==> job@.webhook is None,
        job.webhook matches Some(webhook) ==> job@.webhook == Some(webhook@),
        job@.created_at == job.created_at,
        job@.started_at == job.started_at,
        job@.completed_at == job.completed_at,
        job@.timeout_secs == job.timeout_secs,
        job.error_message is None <==> job@.error_message is None,
        job.error_message matches Some(error) ==> job@.error_message == Some(error@),
{
}

/// Whether optional texts are the texts that are listed, if any are.
pub open spec fn are_texts(items: Option<Vec<String>>, texts: Option<Seq<Seq<char>>>) -> bool {
    match (items, texts) {
        (None, None) => true,
        (Some(items), Some(texts)) => items@.len() == texts.len() && forall|i: int|
            0 <= i < items@.len() ==> #[trigger] texts[i] == items@[i]@,
        _ => false,
    }
}

/// A payload stands for what its fields hold.
pub proof fn law_payloads_stand_for_their_fields(payload: JobPayload)
    ensures
        payload matches JobPayload::Analyze { contract_id, function_name, args, ledger_overrides }
            ==> payload@ matches PayloadView::Analyze {
            contract_id: id,
            function_name: name,
            args: texts,
            ledger_overrides: table,
        } && id == contract_id@ && name == function_name@ && are_texts(args, texts) && (
        ledger_overrides is None <==> table is None) && (ledger_overrides matches Some(overrides)
            ==> table == Some(overrides@)),
        payload matches JobPayload::Compare {
            mode,
            current_wasm,
            base_wasm,
            contract_id,
            function_name,
            args,
        } ==> payload@ matches PayloadView::Compare {
            mode: how,
            current_wasm: current,
            base_wasm: base,
            contract_id: id,
            function_name: name,
            args: texts,
        } && how == mode@ && (current_wasm is None <==> current is None) && (
        current_wasm matches Some(bytes) ==> current == Some(bytes@)) && (base_wasm is None
            <==> base is None) && (base_wasm matches Some(bytes) ==> base == Some(bytes@)) && (
        contract_id is None <==> id is None) && (contract_id matches Some(text) ==> id == Some(
            text@,
        )) && (function_name is None <==> name is None) && (function_name matches Some(text)
            ==> name == Some(text@)) && are_texts(Some(args), Some(texts)),
        payload matches JobPayload::OptimizeLimits {
            contract_id,
            function_name,
            args,
            safety_margin,
        } ==> payload@ matches PayloadView::OptimizeLimits {
            contract_id: id,
            function_name: name,
            args: texts,
            safety_margin: margin,
        } && id == contract_id@ && name == function_name@ && are_texts(Some(args), Some(texts))
            && margin == safety_margin,
{
}

/// A webhook stands for what its fields hold.
pub proof fn law_webhooks_stand_for_their_fields(webhook: WebhookConfig)
    ensures
        webhook@.callback_url == webhook.callback_url@,
        webhook.headers is None <==> webhook@.headers is None,
        webhook.headers matches Some(headers) ==> webhook@.headers == Some(headers@),
        webhook.secret is None <==> webhook@.secret is None,
        webhook.secret matches Some(secret) ==> webhook@.secret == Some(secret@),
{
}

/// A result stands for what its fields hold.
pub proof fn law_results_stand_for_their_fields(result: JobResult)
    ensures
        result matches JobResult::Success {
            resources,
            simulation_result,
            optimization,
            comparison,
        } ==> result@ matches JobResultView::Success {
            resources: used,
            simulation_result: simulated,
            optimization: optimized,
            comparison: compared,
        } && used == resources && (simulation_result is None <==> simulated is None) && (
        simulation_result matches Some(found) ==> simulated == Some(found@)) && (optimization
            is None <==> optimized is None) && (optimization matches Some(report) ==> optimized
            == Some(report@)) && (comparison is None <==> compared is None) && (
        comparison matches Some(report) ==> compared == Some(report@)),
        result matches JobResult::Failed { error, error_type } ==> result@ == (
        JobResultView::Failed { error: error@, error_type: error_type@ }),
{
}

/// A submitted job waits with what was asked for: it has made no progress, was neither started nor
/// ended, and has neither a result nor an error.
pub proof fn law_submitted_jobs_wait(
    id: JobId,
    job_type: JobType,
    payload: PayloadView,
    webhook: Option<WebhookView>,
    timeout_secs: u64,
    now: Timestamp,
)
    ensures
        ({
            let job = queued(id, job_type, payload, webhook, timeout_secs, now);
            &&& job.id == id
            &&& job.job_type == job_type
            &&& job.payload == payload
            &&& job.webhook == webhook
            &&& job.timeout_secs == timeout_secs
            &&& job.status == JobStatus::Queued
            &&& job.created_at == now
            &&& job.started_at is None
            &&& job.completed_at is None
            &&& job.result is None
            &&& job.error_message is None
            &&& job.progress.percent == 0
            &&& job.progress.message == "Queued"@
            &&& job.progress.updated_at == now
        }),
{
}

/// Starting a job notes when, and that it is at ten percent; nothing else changes.
pub proof fn law_started_jobs_are_processed(job: JobView, now: Timestamp)
    ensures
        ({
            let after = job.started(now);
            &&& after.status == JobStatus::Processing
            &&& after.started_at == Some(now)
            &&& after.progress.percent == 10
            &&& after.progress.message == "Processing started"@
            &&& after.progress.updated_at == now
            &&& after.id == job.id
            &&& after.job_type == job.job_type
            &&& after.payload == job.payload
            &&& after.webhook == job.webhook
            &&& after.created_at == job.created_at
            &&& after.timeout_secs == job.timeout_secs
            &&& after.completed_at == job.completed_at
            &&& after.result == job.result
            &&& after.error_message == job.error_message
        }),
{
}

/// Completing a job notes its result and when it came, and that it is at a hundred percent; nothing
/// else changes.
pub proof fn law_completed_jobs_have_their_result(
    job: JobView,
    result: JobResultView,
    now: Timestamp,
)
    ensures
        ({
            let after = job.completed(result, now);
            &&& after.status == JobStatus::Completed
            &&& after.result == Some(result)
            &&& after.completed_at == Some(now)
            &&& after.progress.percent == 100
            &&& after.progress.message == "Completed"@
            &&& after.progress.updated_at == now
            &&& after.id == job.id
            &&& after.job_type == job.job_type
            &&& after.payload == job.payload
            &&& after.webhook == job.webhook
            &&& after.created_at == job.created_at
            &&& after.timeout_secs == job.timeout_secs
            &&& after.started_at == job.started_at
            &&& after.error_message == job.error_message
        }),
{
}

/// Failing a job notes its error, as its message and with its type as its result, and when it came;
/// its progress is lost, and nothing else changes.
pub proof fn law_failed_jobs_have_their_error(
    job: JobView,
    error: Seq<char>,
    error_type: Seq<char>,
    now: Timestamp,
)
    ensures
        ({
            let after = job.failed(error, error_type, now);
            &&& after.status == JobStatus::Failed
            &&& after.error_message == Some(error)
            &&& after.result matches Some(JobResultView::Failed { error: e, error_type: t })
            &&& e == error && t == error_type
            &&& after.completed_at == Some(now)
            &&& after.progress.percent == 0
            &&& after.progress.message == "Failed"@
            &&& after.progress.updated_at == now
            &&& after.id == job.id
            &&& after.job_type == job.job_type
            &&& after.payload == job.payload
            &&& after.webhook == job.webhook
            &&& after.created_at == job.created_at
            &&& after.timeout_secs == job.timeout_secs
            &&& after.started_at == job.started_at
        }),
{
}

/// Cancelling a job notes when; its progress is lost, and nothing else changes. A job can be cancelled
/// if and only if it was not completed, did not fail and was not cancelled before.
pub proof fn law_cancelled_jobs_have_ended(job: JobView, now: Timestamp)
    ensures
        ({
            let after = job.cancelled(now);
            &&& after.status == JobStatus::Cancelled
            &&& after.completed_at == Some(now)
            &&& after.progress.percent == 0
            &&& after.progress.message == "Cancelled"@
            &&& after.progress.updated_at == now
            &&& after.id == job.id
            &&& after.job_type == job.job_type
            &&& after.payload == job.payload
            &&& after.webhook == job.webhook
            &&& after.created_at == job.created_at
            &&& after.timeout_secs == job.timeout_secs
            &&& after.started_at == job.started_at
            &&& after.result == job.result
            &&& after.error_message == job.error_message
        }),
        job.cancellable() <==> job.status != JobStatus::Completed && job.status != JobStatus::Failed
            && job.status != JobStatus::Cancelled,
        is_finished(job.status) <==> !job.cancellable(),
{
}

/// Noting progress notes the percentage, at most a hundred, the message and the time; nothing else
/// changes.
pub proof fn law_progress_is_noted(
    job: JobView,
    percent: u8,
    message: Seq<char>,
    now: Timestamp,
)
    ensures
        ({
            let after = job.progressed(percent, message, now);
            &&& after.progress == progress_at(percent, message, now)
            &&& after.progress.message == message
            &&& after.progress.updated_at == now
            &&& after.status == job.status
            &&& after.id == job.id
            &&& after.job_type == job.job_type
            &&& after.payload == job.payload
            &&& after.webhook == job.webhook
            &&& after.created_at == job.created_at
            &&& after.timeout_secs == job.timeout_secs
            &&& after.started_at == job.started_at
            &&& after.completed_at == job.completed_at
            &&& after.result == job.result
            &&& after.error_message == job.error_message
        }),
        percent <= 100 ==> progress_at(percent, message, now).percent == percent,
        percent > 100 ==> progress_at(percent, message, now).percent == 100,
{
}

/// Each status has its own name, and in documents its own in upper case.
pub proof fn law_statuses_have_their_names(a: JobStatus, b: JobStatus)
    ensures
        status_name(a) == status_name(b) ==> a == b,
        status_code(a) == status_code(b) ==> a == b,
        status_name(JobStatus::Queued) == "Queued"@ && status_code(JobStatus::Queued) == "QUEUED"@,
        status_name(JobStatus::Processing) == "Processing"@ && status_code(JobStatus::Processing)
            == "PROCESSING"@,
        status_name(JobStatus::Completed) == "Completed"@ && status_code(JobStatus::Completed)
            == "COMPLETED"@,
        status_name(JobStatus::Failed) == "Failed"@ && status_code(JobStatus::Failed) == "FAILED"@,
        status_name(JobStatus::Cancelled) == "Cancelled"@ && status_code(JobStatus::Cancelled)
            == "CANCELLED"@,
{
    reveal_strlit("Queued");
    reveal_strlit("Processing");
    reveal_strlit("Completed");
    reveal_strlit("Failed");
    reveal_strlit("Cancelled");
    reveal_strlit("QUEUED");
    reveal_strlit("PROCESSING");
    reveal_strlit("COMPLETED");
    reveal_strlit("FAILED");
    reveal_strlit("CANCELLED");
    let (names, codes) = (
        seq!["Queued"@, "Processing"@, "Completed"@, "Failed"@, "Cancelled"@],
        seq!["QUEUED"@, "PROCESSING"@, "COMPLETED"@, "FAILED"@, "CANCELLED"@],
    );
    assert(names[0][0] == 'Q' && names[1][0] == 'P' && names[2][1] == 'o' && names[3][0] == 'F'
        && names[4][1] == 'a');
    assert(codes[0][0] == 'Q' && codes[1][0] == 'P' && codes[2][1] == 'O' && codes[3][0] == 'F'
        && codes[4][1] == 'A');
    assert(names[2][0] == 'C' && names[4][0] == 'C' && codes[2][0] == 'C' && codes[4][0] == 'C');
}

/// An error's message says what is wrong, and then which job, in which status, or why.
pub proof fn law_errors_say_what_is_wrong(
    id: JobId,
    status: JobStatus,
    details: String,
)
    ensures
        job_error_message(JobError::NotFound(id)) == "Job not found: "@ + hyphenated(id.0),
        job_error_message(JobError::CannotCancel(status)) == "Job cannot be cancelled in status: "@
            + status_name(status),
        job_error_message(JobError::ProcessingFailed(details)) == "Job processing failed: "@
            + details@,
        job_error_message(JobError::WebhookFailed(details)) == "Webhook delivery failed: "@
            + details@,
{
}

/// A job that is in order has the time of its end if it has come to it, one that the calendar holds;
/// and a failed one has its error, as its message and in its result.
pub proof fn law_jobs_in_order(job: JobView)
    ensures
        job.wf() <==> {
            &&& job.completed_at is Some ==> 0 <= job.completed_at->0.secs <= 8_210_266_876_799
                && job.completed_at->0.nanos <= 999_999_999
            &&& job.completed_at is None ==> job.status == JobStatus::Queued || job.status
                == JobStatus::Processing
            &&& job.status == JobStatus::Failed ==> job.error_message is Some && job.result is Some
                && job.result->0 is Failed && job.result->0->error == job.error_message->0
        },
{
}

} // verus!
