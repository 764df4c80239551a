//! The requests that the server answers, and its answers.
use crate::comparison::RegressionReport;
use crate::double::Double;
use crate::jobs;
use crate::simulation;
use crate::simulation::{
    CallView, DependencyView, ResultView, SimulationCall, SimulationResult, SorobanResources,
};
use std::collections::{BTreeMap, HashMap};
use vstd::prelude::*;

verus! {

// ── Data ───────────────────────────────────────────────────────────────────

/// Why a request is refused.
#[derive(Debug)]
pub enum AppError {
    BadRequest(String),
    Internal(String),
}

/// What an [`AppError`] stands for.
pub enum ErrorView {
    BadRequest(Seq<char>),
    Internal(Seq<char>),
}

impl View for AppError {
    type V = ErrorView;

    open spec fn view(&self) -> ErrorView {
        match *self {
            AppError::BadRequest(message) => ErrorView::BadRequest(message@),
            AppError::Internal(message) => ErrorView::Internal(message@),
        }
    }
}

/// A message and what it is about, one behind the other.
pub(crate) fn told(message: &str, details: &str) -> (r: String)
    ensures
        r@ == message@ + details@,
{
    let mut r = message.to_owned();
    r.append(details);
    r
}

/// A request to analyze a contract call.
#[derive(Debug)]
pub struct AnalyzeRequest {
    pub contract_id: String,
    pub function_name: String,
    pub args: Option<Vec<String>>,
    /// Map of Key-Base64 to Value-Base64 ledger entry overrides
    pub ledger_overrides: Option<HashMap<String, String>>,
}

/// The answer to a request to analyze.
#[derive(Debug)]
pub struct ResourceReport {
    /// CPU instructions consumed
    pub cpu_instructions: u64,
    /// RAM bytes consumed
    pub ram_bytes: u64,
    /// Ledger read bytes
    pub ledger_read_bytes: u64,
    /// Ledger write bytes
    pub ledger_write_bytes: u64,
    /// Transaction size in bytes
    pub transaction_size_bytes: u64,
    /// Report showing which data was injected vs live
    pub state_dependency: Option<Vec<StateDependencyReport>>,
    /// Efficiency score (0 to 100) and optimisation insights.
    pub nutrition: NutritionReport,
}

/// "Nutrition label" for the contract invocation.
#[derive(Debug)]
pub struct NutritionReport {
    /// Weighted efficiency score (0 = poor, 100 = optimal).
    pub efficiency_score: u32,
    /// Actionable optimisation insights.
    pub insights: Vec<InsightEntry>,
}

/// A single optimisation insight.
#[derive(Debug)]
pub struct InsightEntry {
    pub severity: String,
    pub rule: String,
    pub message: String,
    pub suggested_fix: String,
}

/// What the insights engine found out about the resources of a contract call.
#[derive(Debug)]
pub struct InsightsReport {
    pub efficiency_score: u32,
    pub insights: Vec<Insight>,
}

/// A finding of the insights engine.
#[derive(Debug)]
pub struct Insight {
    /// The name of the severity.
    pub severity: String,
    pub rule: String,
    pub message: String,
    pub suggested_fix: String,
}

/// A ledger entry that a simulation read, and where it came from.
#[derive(Debug)]
pub struct StateDependencyReport {
    pub key: String,
    pub source: String,
}

/// A request to look for the tightest limits of a contract call.
#[derive(Debug)]
pub struct OptimizeLimitsRequest {
    pub contract_id: String,
    pub function_name: String,
    pub args: Vec<String>,
    pub safety_margin: Double,
}

/// What an optimization found, with a buffer for each of two resources.
#[derive(Debug)]
pub struct OptimizationReport<B> {
    pub cpu: B,
    pub ram: B,
    pub recommended: SorobanResources,
}

/// The answer to a request to optimize.
#[derive(Debug)]
pub struct OptimizeLimitsResponse<B> {
    pub cpu: B,
    pub ram: B,
    pub recommended: SorobanResources,
}

/// The answer to a request to compare.
#[derive(Debug)]
pub struct CompareApiResponse {
    pub report: RegressionReport,
}

// ── Reports ────────────────────────────────────────────────────────────────

/// What a [`ResourceReport`] stands for.
pub struct ResourceReportView {
    pub resources: SorobanResources,
    pub state_dependency: Option<Seq<DependencyView>>,
    pub efficiency_score: u32,
    pub insights: Seq<InsightView>,
}

/// What an [`Insight`] and an [`InsightEntry`] stand for.
pub struct InsightView {
    pub severity: Seq<char>,
    pub rule: Seq<char>,
    pub message: Seq<char>,
    pub suggested_fix: Seq<char>,
}

impl View for StateDependencyReport {
    type V = DependencyView;

    open spec fn view(&self) -> DependencyView {
        DependencyView { key: self.key@, source: self.source@ }
    }
}

impl View for InsightEntry {
    type V = InsightView;

    open spec fn view(&self) -> InsightView {
        InsightView {
            severity: self.severity@,
            rule: self.rule@,
            message: self.message@,
            suggested_fix: self.suggested_fix@,
        }
    }
}

impl View for Insight {
    type V = InsightView;

    open spec fn view(&self) -> InsightView {
        InsightView {
            severity: self.severity@,
            rule: self.rule@,
            message: self.message@,
            suggested_fix: self.suggested_fix@,
        }
    }
}

/// Findings by their views.
pub open spec fn insights_found(insights: Seq<Insight>) -> Seq<InsightView> {
    insights.map_values(|i: Insight| i@)
}

/// Insights by their views.
pub open spec fn insight_views(insights: Seq<InsightEntry>) -> Seq<InsightView> {
    insights.map_values(|i: InsightEntry| i@)
}

/// Reports on dependencies by their views.
pub open spec fn dependency_views(items: Seq<StateDependencyReport>) -> Seq<DependencyView> {
    items.map_values(|d: StateDependencyReport| d@)
}

impl View for ResourceReport {
    type V = ResourceReportView;

    open spec fn view(&self) -> ResourceReportView {
        ResourceReportView {
            resources: SorobanResources {
                cpu_instructions: self.cpu_instructions,
                ram_bytes: self.ram_bytes,
                ledger_read_bytes: self.ledger_read_bytes,
                ledger_write_bytes: self.ledger_write_bytes,
                transaction_size_bytes: self.transaction_size_bytes,
            },
            state_dependency: match self.state_dependency {
                Some(items) => Some(dependency_views(items@)),
                None => None,
            },
            efficiency_score: self.nutrition.efficiency_score,
            insights: insight_views(self.nutrition.insights@),
        }
    }
}

/// Reports on dependencies, one for each.
fn dependency_reports(items: &Vec<simulation::StateDependency>) -> (r: Vec<StateDependencyReport>)
    ensures
        dependency_views(r@) == simulation::dependencies(items@),
{
    let ghost views = simulation::dependencies(items@);
    let mut r: Vec<StateDependencyReport> = Vec::new();
    let mut i: usize = 0;
    while i < items.len()
        invariant
            i <= items@.len(),
            views == simulation::dependencies(items@),
            dependency_views(r@) == views.take(i as int),
        decreases items@.len() - i,
    {
        let ghost before = r@;
        let item = &items[i];
        r.push(StateDependencyReport { key: item.key.clone(), source: item.source.clone() });
        proof {
            assert(dependency_views(r@) =~= dependency_views(before).push(item@));
            assert(views.take(i + 1) =~= views.take(i as int).push(views[i as int]));
        }
        i += 1;
    }
    assert(views.take(i as int) =~= views);
    r
}

/// Insights, one for each finding.
fn insight_entries(found: &Vec<Insight>) -> (r: Vec<InsightEntry>)
    ensures
        insight_views(r@) == insights_found(found@),
{
    let ghost views = insights_found(found@);
    let mut r: Vec<InsightEntry> = Vec::new();
    let mut i: usize = 0;
    while i < found.len()
        invariant
            i <= found@.len(),
            views == insights_found(found@),
            insight_views(r@) == views.take(i as int),
        decreases found@.len() - i,
    {
        let ghost before = r@;
        let insight = &found[i];
        r.push(
            InsightEntry {
                severity: insight.severity.clone(),
                rule: insight.rule.clone(),
                message: insight.message.clone(),
                suggested_fix: insight.suggested_fix.clone(),
            },
        );
        proof {
            assert(insight_views(r@) =~= insight_views(before).push(insight@));
            assert(views.take(i + 1) =~= views.take(i as int).push(views[i as int]));
        }
        i += 1;
    }
    assert(views.take(i as int) =~= views);
    r
}

/// The answer to a request to analyze: what the simulation found, and what the insights engine made
/// of its resources.
pub fn to_report(result: &SimulationResult, insights_report: &InsightsReport) -> (r: ResourceReport)
    ensures
        r@ == (ResourceReportView {
            resources: result@.resources,
            state_dependency: result@.state_dependency,
            efficiency_score: insights_report.efficiency_score,
            insights: insights_found(insights_report.insights@),
        }),
{
    let state_dependency = match &result.state_dependency {
        Some(items) => Some(dependency_reports(items)),
        None => None,
    };
    ResourceReport {
        cpu_instructions: result.resources.cpu_instructions,
        ram_bytes: result.resources.ram_bytes,
        ledger_read_bytes: result.resources.ledger_read_bytes,
        ledger_write_bytes: result.resources.ledger_write_bytes,
        transaction_size_bytes: result.resources.transaction_size_bytes,
        state_dependency,
        nutrition: NutritionReport {
            efficiency_score: insights_report.efficiency_score,
            insights: insight_entries(&insights_report.insights),
        },
    }
}

// ── Answers ────────────────────────────────────────────────────────────────

/// The contract call that a request to analyze is about. Missing arguments are none.
pub open spec fn call_of(request: AnalyzeRequest) -> CallView {
    CallView {
        contract_id: request.contract_id@,
        function_name: request.function_name@,
        args: match request.args {
            Some(args) => simulation::texts(args@),
            None => Seq::empty(),
        },
    }
}

/// The contract call that a request to analyze is about. Missing arguments are none.
pub fn analyzed_call(request: &AnalyzeRequest) -> (call: SimulationCall)
    ensures
        call@ == call_of(*request),
{
    let args = match &request.args {
        Some(args) => simulation::copy_texts(args),
        None => Vec::new(),
    };
    assert(request.args is None ==> simulation::texts(args@) =~= Seq::<Seq<char>>::empty());
    SimulationCall {
        contract_id: request.contract_id.clone(),
        function_name: request.function_name.clone(),
        args,
    }
}

/// What a kept result is found again by: the contract call, and the ledger entries that were
/// overridden for it.
#[derive(Debug, PartialEq, Eq, Hash)]
pub struct CacheKey {
    pub contract_id: String,
    pub function_name: String,
    pub args: Vec<String>,
    pub ledger_overrides: Option<BTreeMap<String, String>>,
}

/// What a [`CacheKey`] stands for.
pub struct KeyView {
    pub call: CallView,
    pub ledger_overrides: Option<Map<String, String>>,
}

impl View for CacheKey {
    type V = KeyView;

    open spec fn view(&self) -> KeyView {
        KeyView {
            call: CallView {
                contract_id: self.contract_id@,
                function_name: self.function_name@,
                args: simulation::texts(self.args@),
            },
            ledger_overrides: match self.ledger_overrides {
                Some(table) => Some(table@),
                None => None,
            },
        }
    }
}

/// Calls `BTreeMap::from_iter` of std on the entries of a table. Claims that the sorted table holds
/// the same entries.
#[verifier::external_body]
fn sorted_table(table: HashMap<String, String>) -> (r: BTreeMap<String, String>)
    ensures
        r@ == table@,
{
    BTreeMap::from_iter(table)
}

/// What the result of a request to analyze is kept under.
pub open spec fn key_of(request: AnalyzeRequest) -> KeyView {
    KeyView {
        call: call_of(request),
        ledger_overrides: jobs::table_view(request.ledger_overrides),
    }
}

/// What the result of a request to analyze is kept under. Requests with other ledger entries have
/// other keys.
pub fn cache_key(request: &AnalyzeRequest) -> (key: CacheKey)
    ensures
        key@ == key_of(*request),
{
    let call = analyzed_call(request);
    let ledger_overrides = match jobs::copy_table(&request.ledger_overrides) {
        Some(table) => Some(sorted_table(table)),
        None => None,
    };
    CacheKey {
        contract_id: call.contract_id,
        function_name: call.function_name,
        args: call.args,
        ledger_overrides,
    }
}

/// What a request to analyze asks for next.
#[derive(Debug)]
pub enum AnalyzeStep {
    /// It can be answered with a result that was kept, and with how the cache served it.
    Answer { result: SimulationResult, cache_status: &'static str },
    /// The contract call has to be simulated with the ledger entries of the request.
    Simulate { call: SimulationCall, ledger_overrides: Option<HashMap<String, String>> },
}

/// What an [`AnalyzeStep`] stands for.
pub enum AnalyzeStepView {
    Answer { result: ResultView, cache_status: Seq<char> },
    Simulate { call: CallView, ledger_overrides: Option<Map<String, String>> },
}

impl View for AnalyzeStep {
    type V = AnalyzeStepView;

    open spec fn view(&self) -> AnalyzeStepView {
        match *self {
            AnalyzeStep::Answer { result, cache_status } => AnalyzeStepView::Answer {
                result: result@,
                cache_status: cache_status@,
            },
            AnalyzeStep::Simulate { call, ledger_overrides } => AnalyzeStepView::Simulate {
                call: call@,
                ledger_overrides: jobs::table_view(ledger_overrides),
            },
        }
    }
}

/// What a request to analyze asks for next, given what the cache holds under its key: a result that
/// is there answers it (`HIT`), and else the call has to be simulated.
pub open spec fn next_step(cached: Option<ResultView>, request: AnalyzeRequest) -> AnalyzeStepView {
    match cached {
        Some(result) => AnalyzeStepView::Answer { result, cache_status: "HIT"@ },
        None => AnalyzeStepView::Simulate {
            call: call_of(request),
            ledger_overrides: jobs::table_view(request.ledger_overrides),
        },
    }
}

/// Looks a request to analyze up, given what the cache holds under its key.
pub fn look_up(cached: Option<SimulationResult>, request: &AnalyzeRequest) -> (step: AnalyzeStep)
    ensures
        step@ == next_step(jobs::simulation_view(cached), *request),
{
    match cached {
        Some(result) => AnalyzeStep::Answer { result, cache_status: "HIT" },
        None => AnalyzeStep::Simulate {
            call: analyzed_call(request),
            ledger_overrides: jobs::copy_table(&request.ledger_overrides),
        },
    }
}

/// The answer to a request to analyze that was not found: the result and how the cache served it.
pub type MissedAnswer = Result<(SimulationResult, &'static str), AppError>;

/// Takes in what came of the simulation for a request to analyze. Hands out the answer (`MISS`, or
/// why there is none), and what has to be kept under the key of the request: the result, and nothing
/// where the simulation failed.
pub fn simulated(outcome: Result<SimulationResult, String>) -> (r: (
    MissedAnswer,
    Option<SimulationResult>,
))
    ensures
        match outcome {
            Ok(result) => {
                &&& r.0 is Ok
                &&& r.0->Ok_0.0@ == result@
                &&& r.0->Ok_0.1@ == "MISS"@
                &&& r.1 is Some
                &&& r.1->0@ == result@
            },
            Err(error) => {
                &&& r.0 is Err
                &&& r.0->Err_0@ == ErrorView::Internal("Simulation failed: "@ + error@)
                &&& r.1 is None
            },
        },
{
    match outcome {
        Ok(result) => {
            let kept = result.clone();
            (Ok((result, "MISS")), Some(kept))
        },
        Err(error) => (
            Err(AppError::Internal(told("Simulation failed: ", error.as_str()))),
            None,
        ),
    }
}

/// The answer to a request to optimize, made of what came of the optimization.
pub fn optimize_limits<B>(outcome: Result<OptimizationReport<B>, String>) -> (r: Result<
    OptimizeLimitsResponse<B>,
    AppError,
>)
    ensures
        match outcome {
            Ok(report) => r is Ok && r->Ok_0 == (OptimizeLimitsResponse {
                cpu: report.cpu,
                ram: report.ram,
                recommended: report.recommended,
            }),
            Err(error) => r is Err && r->Err_0@ == ErrorView::Internal(error@),
        },
{
    match outcome {
        Ok(report) => Ok(
            OptimizeLimitsResponse {
                cpu: report.cpu,
                ram: report.ram,
                recommended: report.recommended,
            },
        ),
        Err(error) => Err(AppError::Internal(error)),
    }
}

/// The answer to a request to compare, made of what came of the comparison.
pub fn compared(outcome: Result<RegressionReport, String>) -> (r: Result<
    CompareApiResponse,
    AppError,
>)
    ensures
        match outcome {
            Ok(report) => r is Ok && r->Ok_0.report@ == report@,
            Err(error) => r is Err && r->Err_0@ == ErrorView::Internal(
                "Comparison failed: "@ + error@,
            ),
        },
{
    match outcome {
        Ok(report) => Ok(CompareApiResponse { report }),
        Err(error) => Err(AppError::Internal(told("Comparison failed: ", error.as_str()))),
    }
}

/// The answer to whoever asks whether the server is up.
pub fn health_check() -> (text: &'static str)
    ensures
        text@ == "OK"@,
{
    "OK"
}

// ── Laws ───────────────────────────────────────────────────────────────────

/// What a cache holds under a key.
pub open spec fn found(cache: Map<KeyView, ResultView>, key: KeyView) -> Option<ResultView> {
    if cache.dom().contains(key) {
        Some(cache[key])
    } else {
        None
    }
}

/// Requests have one key if and only if they are about one contract call with one set of ledger
/// entries.
pub proof fn law_keys_tell_requests_apart(a: AnalyzeRequest, b: AnalyzeRequest)
    ensures
        key_of(a) == key_of(b) <==> call_of(a) == call_of(b) && jobs::table_view(a.ledger_overrides)
            == jobs::table_view(b.ledger_overrides),
{
}

/// What was kept for a request answers that request when it comes again.
pub proof fn law_kept_results_are_found(
    cache: Map<KeyView, ResultView>,
    request: AnalyzeRequest,
    again: AnalyzeRequest,
    result: ResultView,
)
    requires
        key_of(again) == key_of(request),
    ensures
        next_step(found(cache.insert(key_of(request), result), key_of(again)), again) == (
        AnalyzeStepView::Answer { result, cache_status: "HIT"@ }),
{
}

/// What was kept for a request does not answer one with other ledger entries: that one is served as
/// if nothing had been kept, and simulated with its own entries where it was not found before.
pub proof fn law_other_overrides_are_simulated(
    cache: Map<KeyView, ResultView>,
    request: AnalyzeRequest,
    other: AnalyzeRequest,
    result: ResultView,
)
    requires
        jobs::table_view(request.ledger_overrides) != jobs::table_view(other.ledger_overrides),
    ensures
        ({
            let kept = cache.insert(key_of(request), result);
            let step = next_step(found(kept, key_of(other)), other);
            &&& step == next_step(found(cache, key_of(other)), other)
            &&& found(cache, key_of(other)) is None ==> step == (AnalyzeStepView::Simulate {
                call: call_of(other),
                ledger_overrides: jobs::table_view(other.ledger_overrides),
            })
        }),
{
}

/// The call that is simulated for a request is the one that the request names, with its arguments or
/// none.
pub proof fn law_requests_are_called_as_asked(request: AnalyzeRequest, call: SimulationCall)
    requires
        call@ == call_of(request),
    ensures
        call.contract_id@ == request.contract_id@,
        call.function_name@ == request.function_name@,
        match request.args {
            Some(args) => call.args@.len() == args@.len() && forall|i: int|
                #![trigger call.args@[i]]
                0 <= i < args@.len() ==> call.args@[i]@ == args@[i]@,
            None => call.args@.len() == 0,
        },
{
    let texts = simulation::texts(call.args@);
    assert(texts.len() == call.args@.len());
    assert(texts == call_of(request).args);
    if let Some(args) = request.args {
        assert(texts == simulation::texts(args@));
        assert forall|i: int| #![trigger call.args@[i]] 0 <= i < args@.len() implies call.args@[i]@
            == args@[i]@ by {
            assert(texts[i] == simulation::texts(args@)[i]);
        }
    }
}

/// A key holds the call of its request, and the ledger entries of its request.
pub proof fn law_keys_hold_the_request(request: AnalyzeRequest, key: CacheKey)
    requires
        key@ == key_of(request),
    ensures
        key.contract_id@ == request.contract_id@,
        key.function_name@ == request.function_name@,
        request.args matches Some(args) ==> simulation::texts(key.args@) == simulation::texts(args@),
        request.args is None ==> key.args@.len() == 0,
        request.ledger_overrides is None <==> key.ledger_overrides is None,
        request.ledger_overrides matches Some(table) ==> key.ledger_overrides->0@ == table@,
{
    assert(simulation::texts(key.args@).len() == key.args@.len());
}

/// A result that is kept answers a request, as it was kept; one that is not found is simulated, with
/// the ledger entries of the request.
pub proof fn law_kept_or_simulated(
    cached: Option<SimulationResult>,
    request: AnalyzeRequest,
    step: AnalyzeStep,
)
    requires
        step@ == next_step(jobs::simulation_view(cached), request),
    ensures
        cached matches Some(result) ==> step matches AnalyzeStep::Answer {
            result: answer,
            cache_status,
        } && answer.resources == result.resources && answer@ == result@ && cache_status@ == "HIT"@,
        cached is None ==> (step matches AnalyzeStep::Simulate { call, ledger_overrides } && call@
            == call_of(request) && (request.ledger_overrides is None <==> ledger_overrides is None)
            && (request.ledger_overrides matches Some(table) ==> ledger_overrides->0@ == table@)),
{
}

/// A report holds the resources of the simulation, each under its own name, what the simulation
/// rests on, and the score and the findings of the insights engine, each at its place.
pub proof fn law_reports_hold_what_was_found(
    result: SimulationResult,
    found: InsightsReport,
    report: ResourceReport,
)
    requires
        report@ == (ResourceReportView {
            resources: result@.resources,
            state_dependency: result@.state_dependency,
            efficiency_score: found.efficiency_score,
            insights: insights_found(found.insights@),
        }),
    ensures
        report.cpu_instructions == result.resources.cpu_instructions,
        report.ram_bytes == result.resources.ram_bytes,
        report.ledger_read_bytes == result.resources.ledger_read_bytes,
        report.ledger_write_bytes == result.resources.ledger_write_bytes,
        report.transaction_size_bytes == result.resources.transaction_size_bytes,
        report.nutrition.efficiency_score == found.efficiency_score,
        report.nutrition.insights@.len() == found.insights@.len(),
        forall|i: int|
            #![trigger report.nutrition.insights@[i]]
            0 <= i < found.insights@.len() ==> {
                let (entry, insight) = (report.nutrition.insights@[i], found.insights@[i]);
                &&& entry.severity@ == insight.severity@
                &&& entry.rule@ == insight.rule@
                &&& entry.message@ == insight.message@
                &&& entry.suggested_fix@ == insight.suggested_fix@
            },
        report.state_dependency is None <==> result.state_dependency is None,
        result.state_dependency matches Some(entries) ==> report.state_dependency->0@.len()
            == entries@.len() && forall|i: int|
            #![trigger report.state_dependency->0@[i]]
            0 <= i < entries@.len() ==> report.state_dependency->0@[i].key@ == entries@[i].key@
                && report.state_dependency->0@[i].source@ == entries@[i].source@,
{
    let insights = insight_views(report.nutrition.insights@);
    assert(insights == insights_found(found.insights@));
    assert(insights.len() == report.nutrition.insights@.len());
    assert forall|i: int|
        #![trigger report.nutrition.insights@[i]]
        0 <= i < found.insights@.len() implies {
        let (entry, insight) = (report.nutrition.insights@[i], found.insights@[i]);
        &&& entry.severity@ == insight.severity@
        &&& entry.rule@ == insight.rule@
        &&& entry.message@ == insight.message@
        &&& entry.suggested_fix@ == insight.suggested_fix@
    } by {
        assert(insights[i] == insights_found(found.insights@)[i]);
    }
    if let Some(entries) = result.state_dependency {
        let told = dependency_views(report.state_dependency->0@);
        assert(told == simulation::dependencies(entries@));
        assert(told.len() == report.state_dependency->0@.len());
        assert forall|i: int|
            #![trigger report.state_dependency->0@[i]]
            0 <= i < entries@.len() implies report.state_dependency->0@[i].key@ == entries@[i].key@
            && report.state_dependency->0@[i].source@ == entries@[i].source@ by {
            assert(told[i] == simulation::dependencies(entries@)[i]);
        }
    }
}

/// An error stands for its message, and for whose fault it is.
pub proof fn law_errors_stand_for_their_message(message: String)
    ensures
        AppError::BadRequest(message)@ == ErrorView::BadRequest(message@),
        AppError::Internal(message)@ == ErrorView::Internal(message@),
{
}

} // verus!
