//! Comparing what two versions of a contract consume.
use crate::double;
use crate::double::Double;
use crate::rounding;
use crate::simulation;
use crate::simulation::{CallView, SimulationCall, SimulationResult, SorobanResources};
use crate::text;
use std::path::PathBuf;
use vstd::prelude::*;
use vstd::string::*;

verus! {

/// Any resource that increases by more than this percentage is flagged: ten, by its bits.
pub const REGRESSION_THRESHOLD: u64 = 0x4024_0000_0000_0000;

/// Any increase by more than this percentage is critical: twenty-five, by its bits.
pub const CRITICAL_THRESHOLD: u64 = 0x4039_0000_0000_0000;

/// `std::path::PathBuf`, carried as an opaque value: [`path_text`] names the text of one.
#[verifier::external_type_specification]
#[verifier::external_body]
pub struct ExPathBuf(std::path::PathBuf);

/// The text of a path, with what is no Unicode replaced.
pub uninterp spec fn path_text(path: std::path::PathBuf) -> Seq<char>;

/// Calls `std::path::Path::to_string_lossy`. Claims that the text is the one which [`path_text`]
/// names.
#[verifier::external_body]
fn path_to_text(path: &PathBuf) -> (r: String)
    ensures
        r@ == path_text(*path),
{
    path.to_string_lossy().to_string()
}

/// What `str::to_uppercase` makes of a text.
pub uninterp spec fn uppercase(text: Seq<char>) -> Seq<char>;

/// Calls `str::to_uppercase`. Claims that the text is the one which [`uppercase`] names, and what
/// the two names of a severity become.
#[verifier::external_body]
fn to_uppercase(text: &str) -> (r: String)
    ensures
        r@ == uppercase(text@),
        text@ == "high"@ ==> r@ == "HIGH"@,
        text@ == "critical"@ ==> r@ == "CRITICAL"@,
{
    text.to_uppercase()
}

/// How the two contract versions are provided for comparison.
#[derive(Debug)]
pub enum CompareMode {
    /// Two local WASM files (current = new version, base = reference version).
    LocalVsLocal { current_wasm: PathBuf, base_wasm: PathBuf },
    /// A local WASM file compared against a deployed contract on the network.
    LocalVsDeployed {
        current_wasm: PathBuf,
        contract_id: String,
        function_name: String,
        args: Vec<String>,
    },
}

/// Percentage change for each tracked resource metric.
#[derive(Clone, Copy, Debug)]
pub struct ResourceDelta {
    /// CPU instruction change (+15.4 means a 15.4% increase)
    pub cpu_instructions: Double,
    /// RAM byte change
    pub ram_bytes: Double,
    /// Ledger read bytes change
    pub ledger_read_bytes: Double,
    /// Ledger write bytes change
    pub ledger_write_bytes: Double,
    /// Transaction size bytes change
    pub transaction_size_bytes: Double,
}

/// A single regression alert for a resource that exceeds the threshold.
#[derive(Debug)]
pub struct RegressionFlag {
    /// The resource that regressed, by the name of its metric
    pub resource: String,
    /// Percentage change
    pub change_percent: Double,
    /// "critical" if above 25%, else "high"
    pub severity: String,
}

/// Full comparison report.
#[derive(Debug)]
pub struct RegressionReport {
    /// Resource metrics for the new (current) version
    pub current: SorobanResources,
    /// Resource metrics for the reference (base) version
    pub base: SorobanResources,
    /// Percentage change per resource metric
    pub deltas: ResourceDelta,
    /// Alerts for any resource that increased by more than the threshold
    pub regression_flags: Vec<RegressionFlag>,
    /// Human-readable summary of the comparison
    pub summary: String,
}

/// What a [`RegressionFlag`] stands for.
pub struct FlagView {
    pub resource: Seq<char>,
    pub change_percent: Double,
    pub severity: Seq<char>,
}

/// What a [`RegressionReport`] stands for.
pub struct ReportView {
    pub current: SorobanResources,
    pub base: SorobanResources,
    pub deltas: ResourceDelta,
    pub regression_flags: Seq<FlagView>,
    pub summary: Seq<char>,
}

impl View for RegressionFlag {
    type V = FlagView;

    open spec fn view(&self) -> FlagView {
        FlagView {
            resource: self.resource@,
            change_percent: self.change_percent,
            severity: self.severity@,
        }
    }
}

/// Flags by their views.
pub open spec fn flag_views(flags: Seq<RegressionFlag>) -> Seq<FlagView> {
    flags.map_values(|f: RegressionFlag| f@)
}

impl View for RegressionReport {
    type V = ReportView;

    open spec fn view(&self) -> ReportView {
        ReportView {
            current: self.current,
            base: self.base,
            deltas: self.deltas,
            regression_flags: flag_views(self.regression_flags@),
            summary: self.summary@,
        }
    }
}

// ── Deltas ─────────────────────────────────────────────────────────────────

/// By how many percent a metric changed: `((current - base) / base) * 100`, each step rounded to
/// the nearest number, and zero where the base is zero.
pub open spec fn change(current: u64, base: u64) -> Double {
    if base == 0 {
        Double { bits: 0 }
    } else {
        double::percent_more(current as nat, base as nat)
    }
}

/// The changes of all metrics.
pub open spec fn changes(current: SorobanResources, base: SorobanResources) -> ResourceDelta {
    ResourceDelta {
        cpu_instructions: change(current.cpu_instructions, base.cpu_instructions),
        ram_bytes: change(current.ram_bytes, base.ram_bytes),
        ledger_read_bytes: change(current.ledger_read_bytes, base.ledger_read_bytes),
        ledger_write_bytes: change(current.ledger_write_bytes, base.ledger_write_bytes),
        transaction_size_bytes: change(current.transaction_size_bytes, base.transaction_size_bytes),
    }
}

/// By how many percent a metric changed.
pub fn pct_change(current: u64, base: u64) -> (r: Double)
    ensures
        r == change(current, base),
{
    if base == 0 {
        return Double { bits: 0 };
    }
    double::percent_of(current, base)
}

/// Compute percentage change for each resource metric.
///
/// If `base` is zero for a metric, the delta is reported as zero (a change from zero to any value
/// is informational, not a percentage).
pub fn calculate_deltas(current: &SorobanResources, base: &SorobanResources) -> (r: ResourceDelta)
    ensures
        r == changes(*current, *base),
{
    ResourceDelta {
        cpu_instructions: pct_change(current.cpu_instructions, base.cpu_instructions),
        ram_bytes: pct_change(current.ram_bytes, base.ram_bytes),
        ledger_read_bytes: pct_change(current.ledger_read_bytes, base.ledger_read_bytes),
        ledger_write_bytes: pct_change(current.ledger_write_bytes, base.ledger_write_bytes),
        transaction_size_bytes: pct_change(
            current.transaction_size_bytes,
            base.transaction_size_bytes,
        ),
    }
}

// ── Regressions ────────────────────────────────────────────────────────────

/// Whether a change is an increase that exceeds a threshold.
pub open spec fn regressed(change: Double, threshold: Double) -> bool {
    change.above(threshold) && !(Double { bits: 0 }).above(change)
}

/// How severe a change is.
pub open spec fn severity(change: Double) -> Seq<char> {
    if change.above(Double { bits: CRITICAL_THRESHOLD }) {
        "critical"@
    } else {
        "high"@
    }
}

/// The alert for one metric, if there is one.
pub open spec fn alert(resource: Seq<char>, change: Double, threshold: Double) -> Seq<FlagView> {
    if regressed(change, threshold) {
        seq![FlagView { resource, change_percent: change, severity: severity(change) }]
    } else {
        Seq::empty()
    }
}

/// The alerts for all metrics, in the order of the metrics.
pub open spec fn alerts(deltas: ResourceDelta, threshold: Double) -> Seq<FlagView> {
    alert("cpu_instructions"@, deltas.cpu_instructions, threshold) + alert(
        "ram_bytes"@,
        deltas.ram_bytes,
        threshold,
    ) + alert("ledger_read_bytes"@, deltas.ledger_read_bytes, threshold) + alert(
        "ledger_write_bytes"@,
        deltas.ledger_write_bytes,
        threshold,
    ) + alert("transaction_size_bytes"@, deltas.transaction_size_bytes, threshold)
}

/// Puts the alert for one metric behind others, if there is one.
fn flag_metric(flags: &mut Vec<RegressionFlag>, resource: &str, change: Double, threshold: Double)
    ensures
        flag_views(final(flags)@) == flag_views(old(flags)@) + alert(resource@, change, threshold),
{
    let ghost before = flags@;
    if change.is_above(threshold) && !(Double { bits: 0 }).is_above(change) {
        let severity = if change.is_above(Double { bits: CRITICAL_THRESHOLD }) {
            "critical"
        } else {
            "high"
        };
        flags.push(
            RegressionFlag {
                resource: resource.to_owned(),
                change_percent: change,
                severity: severity.to_owned(),
            },
        );
    }
    assert(flag_views(flags@) =~= flag_views(before) + alert(resource@, change, threshold));
}

/// Identify metrics whose **increase** exceeds `threshold` percent.
///
/// Negative deltas (improvements) are never flagged.
pub fn detect_regressions(deltas: &ResourceDelta, threshold: Double) -> (r: Vec<RegressionFlag>)
    ensures
        flag_views(r@) == alerts(*deltas, threshold),
{
    let mut flags: Vec<RegressionFlag> = Vec::new();
    assert(flag_views(flags@) =~= Seq::<FlagView>::empty());
    flag_metric(&mut flags, "cpu_instructions", deltas.cpu_instructions, threshold);
    flag_metric(&mut flags, "ram_bytes", deltas.ram_bytes, threshold);
    flag_metric(&mut flags, "ledger_read_bytes", deltas.ledger_read_bytes, threshold);
    flag_metric(&mut flags, "ledger_write_bytes", deltas.ledger_write_bytes, threshold);
    flag_metric(&mut flags, "transaction_size_bytes", deltas.transaction_size_bytes, threshold);
    assert(flag_views(flags@) =~= alerts(*deltas, threshold));
    flags
}

// ── The report ─────────────────────────────────────────────────────────────

/// One alert in the summary.
pub open spec fn flag_text(flag: FlagView) -> Seq<char> {
    flag.resource + " ("@ + double::one_decimal(flag.change_percent) + "%)"@
}

/// Alerts in the summary, with commas between them.
pub open spec fn flag_list(flags: Seq<FlagView>) -> Seq<char>
    decreases flags.len(),
{
    if flags.len() == 0 {
        Seq::empty()
    } else if flags.len() == 1 {
        flag_text(flags[0])
    } else {
        flag_list(flags.drop_last()) + ", "@ + flag_text(flags.last())
    }
}

/// The summary of a comparison.
pub open spec fn summary(flags: Seq<FlagView>) -> Seq<char> {
    if flags.len() == 0 {
        "No significant regressions detected. All resource changes are within acceptable limits."@
    } else {
        "\u{26a0} "@ + text::decimal(flags.len()) + " regression(s) detected: "@ + flag_list(flags)
    }
}

/// The report on two sets of metrics.
pub open spec fn report(current: SorobanResources, base: SorobanResources) -> ReportView {
    let deltas = changes(current, base);
    let flags = alerts(deltas, Double { bits: REGRESSION_THRESHOLD });
    ReportView { current, base, deltas, regression_flags: flags, summary: summary(flags) }
}

/// Writes one alert of the summary.
fn flag_entry(flag: &RegressionFlag) -> (text: String)
    ensures
        text@ == flag_text(flag@),
{
    let mut text = flag.resource.clone();
    text.append(" (");
    text.append(double::one_decimal_text(flag.change_percent).as_str());
    text.append("%)");
    text
}

/// Writes the summary of a comparison.
fn summary_text(flags: &Vec<RegressionFlag>) -> (text: String)
    ensures
        text@ == summary(flag_views(flags@)),
{
    let ghost views = flag_views(flags@);
    if flags.len() == 0 {
        return
            "No significant regressions detected. All resource changes are within acceptable limits."
            .to_owned();
    }
    let mut text = "\u{26a0} ".to_owned();
    text.append(text::decimal_text(flags.len() as u64).as_str());
    text.append(" regression(s) detected: ");
    let ghost head = text@;
    let mut i: usize = 0;
    assert(views.take(0) =~= Seq::<FlagView>::empty());
    while i < flags.len()
        invariant
            i <= flags@.len(),
            views == flag_views(flags@),
            text@ == head + flag_list(views.take(i as int)),
        decreases flags@.len() - i,
    {
        let ghost (before, next) = (views.take(i as int), views.take(i + 1));
        if i > 0 {
            text.append(", ");
        }
        text.append(flag_entry(&flags[i]).as_str());
        proof {
            assert(next.drop_last() =~= before);
            assert(next.last() == flags@[i as int]@);
            assert(text@ =~= head + flag_list(next));
        }
        i += 1;
    }
    assert(views.take(i as int) =~= views);
    text
}

/// Build a report from two sets of resource metrics.
pub fn build_report(current: SorobanResources, base: SorobanResources) -> (r: RegressionReport)
    ensures
        r@ == report(current, base),
{
    let deltas = calculate_deltas(&current, &base);
    let regression_flags = detect_regressions(&deltas, Double { bits: REGRESSION_THRESHOLD });
    let summary = summary_text(&regression_flags);
    RegressionReport { current, base, deltas, regression_flags, summary }
}

// ── Running a comparison ───────────────────────────────────────────────────

/// The two calls to simulate for a comparison: that of the current version and that of the base.
pub open spec fn calls(mode: CompareMode) -> (CallView, CallView) {
    match mode {
        CompareMode::LocalVsLocal { current_wasm, base_wasm } => (
            CallView {
                contract_id: path_text(current_wasm),
                function_name: "compare"@,
                args: Seq::empty(),
            },
            CallView {
                contract_id: path_text(base_wasm),
                function_name: "compare"@,
                args: Seq::empty(),
            },
        ),
        CompareMode::LocalVsDeployed { current_wasm, contract_id, function_name, args } => (
            CallView {
                contract_id: path_text(current_wasm),
                function_name: function_name@,
                args: simulation::texts(args@),
            },
            CallView {
                contract_id: contract_id@,
                function_name: function_name@,
                args: simulation::texts(args@),
            },
        ),
    }
}

/// The two calls to simulate for a comparison. A local file stands in for a contract by its path.
pub fn comparison_calls(mode: CompareMode) -> (r: (SimulationCall, SimulationCall))
    ensures
        (r.0@, r.1@) == calls(mode),
{
    match mode {
        CompareMode::LocalVsLocal { current_wasm, base_wasm } => {
            let no_args: (Vec<String>, Vec<String>) = (Vec::new(), Vec::new());
            assert(simulation::texts(no_args.0@) =~= Seq::<Seq<char>>::empty());
            assert(simulation::texts(no_args.1@) =~= Seq::<Seq<char>>::empty());
            (
                SimulationCall {
                    contract_id: path_to_text(&current_wasm),
                    function_name: "compare".to_owned(),
                    args: no_args.0,
                },
                SimulationCall {
                    contract_id: path_to_text(&base_wasm),
                    function_name: "compare".to_owned(),
                    args: no_args.1,
                },
            )
        },
        CompareMode::LocalVsDeployed { current_wasm, contract_id, function_name, args } => (
            SimulationCall {
                contract_id: path_to_text(&current_wasm),
                function_name: function_name.clone(),
                args: simulation::copy_texts(&args),
            },
            SimulationCall { contract_id, function_name, args },
        ),
    }
}

/// Concludes a comparison from what the two simulations returned. An error of the current version
/// comes first.
pub fn run_comparison<E>(
    current: Result<SimulationResult, E>,
    base: Result<SimulationResult, E>,
) -> (r: Result<RegressionReport, E>)
    ensures
        match (current, base) {
            (Err(error), _) => r == Err::<RegressionReport, E>(error),
            (Ok(_), Err(error)) => r == Err::<RegressionReport, E>(error),
            (Ok(c), Ok(b)) => r is Ok && r->Ok_0@ == report(c.resources, b.resources),
        },
{
    match (current, base) {
        (Err(error), _) => Err(error),
        (Ok(_), Err(error)) => Err(error),
        (Ok(c), Ok(b)) => Ok(build_report(c.resources, b.resources)),
    }
}

// ── Printing a report ──────────────────────────────────────────────────────

/// The sign of a change: up, down or unchanged.
pub open spec fn arrow(delta: Double) -> Seq<char> {
    if delta.above(Double { bits: 0 }) {
        "\u{25b2}"@
    } else if (Double { bits: 0 }).above(delta) {
        "\u{25bc}"@
    } else {
        "="@
    }
}

/// One row of the table of metrics.
pub open spec fn metric_row(label: Seq<char>, current: u64, base: u64, delta: Double) -> Seq<char> {
    "  "@ + text::left_in(label, 25) + " "@ + text::right_in(text::decimal(current as nat), 12)
        + " "@ + text::right_in(text::decimal(base as nat), 12) + " "@ + text::right_in(
        double::one_decimal(delta),
        8,
    ) + "% "@ + arrow(delta) + "\n"@
}

/// The rows of the table of metrics.
pub open spec fn metric_rows(report: ReportView) -> Seq<char> {
    let (c, b, d) = (report.current, report.base, report.deltas);
    metric_row("CPU Instructions"@, c.cpu_instructions, b.cpu_instructions, d.cpu_instructions)
        + metric_row("RAM Bytes"@, c.ram_bytes, b.ram_bytes, d.ram_bytes) + metric_row(
        "Ledger Read Bytes"@,
        c.ledger_read_bytes,
        b.ledger_read_bytes,
        d.ledger_read_bytes,
    ) + metric_row(
        "Ledger Write Bytes"@,
        c.ledger_write_bytes,
        b.ledger_write_bytes,
        d.ledger_write_bytes,
    ) + metric_row(
        "Transaction Size"@,
        c.transaction_size_bytes,
        b.transaction_size_bytes,
        d.transaction_size_bytes,
    )
}

/// A severity as it is printed: in upper case.
pub open spec fn severity_label(severity: Seq<char>) -> Seq<char> {
    if severity == "high"@ {
        "HIGH"@
    } else if severity == "critical"@ {
        "CRITICAL"@
    } else {
        uppercase(severity)
    }
}

/// One alert on a line of its own.
pub open spec fn flag_row(flag: FlagView) -> Seq<char> {
    "    ["@ + text::right_in(severity_label(flag.severity), 8) + "] "@ + flag.resource + " \u{2014} "@
        + double::one_decimal(flag.change_percent) + "%\n"@
}

/// Alerts, each on a line of its own.
pub open spec fn flag_rows(flags: Seq<FlagView>) -> Seq<char>
    decreases flags.len(),
{
    if flags.len() == 0 {
        Seq::empty()
    } else {
        flag_rows(flags.drop_last()) + flag_row(flags.last())
    }
}

/// What follows the table: the alerts, or that there are none.
pub open spec fn verdict(flags: Seq<FlagView>) -> Seq<char> {
    if flags.len() == 0 {
        "  \u{2713} No regressions detected.\n"@
    } else {
        "  \u{26a0} "@ + text::decimal(flags.len()) + " REGRESSION(S) DETECTED:\n\n"@ + flag_rows(
            flags,
        )
    }
}

/// A line of sixty equals signs.
pub open spec fn ruler() -> Seq<char> {
    text::repeated("="@, 60)
}

/// The head of the table.
pub open spec fn table_head() -> Seq<char> {
    "  "@ + text::left_in("Metric"@, 25) + " "@ + text::right_in("Current"@, 12) + " "@
        + text::right_in("Base"@, 12) + " "@ + text::right_in("Delta"@, 10) + "\n"@ + "  "@
        + text::repeated("-"@, 59) + "\n"@
}

/// A whole report as it is printed.
pub open spec fn printed(report: ReportView) -> Seq<char> {
    "\n"@ + ruler() + "\n"@ + "  SoroScope \u{2014} Contract Regression Report\n"@ + ruler()
        + "\n\n"@ + table_head() + metric_rows(report) + "\n"@ + verdict(report.regression_flags)
        + "\n  Summary: "@ + report.summary + "\n"@ + ruler() + "\n\n"@
}

/// Writes one row of the table.
fn print_metric_row(label: &str, current: u64, base: u64, delta: Double) -> (row: String)
    ensures
        row@ == metric_row(label@, current, base, delta),
{
    let arrow = if delta.is_above(Double { bits: 0 }) {
        "\u{25b2}"
    } else if (Double { bits: 0 }).is_above(delta) {
        "\u{25bc}"
    } else {
        "="
    };
    let mut row = "  ".to_owned();
    text::append_left(&mut row, label, 25);
    row.append(" ");
    text::append_right(&mut row, text::decimal_text(current).as_str(), 12);
    row.append(" ");
    text::append_right(&mut row, text::decimal_text(base).as_str(), 12);
    row.append(" ");
    text::append_right(&mut row, double::one_decimal_text(delta).as_str(), 8);
    row.append("% ");
    row.append(arrow);
    row.append("\n");
    row
}

/// Writes the rows of the table.
fn print_metric_rows(report: &RegressionReport) -> (rows: String)
    ensures
        rows@ == metric_rows(report@),
{
    let (c, b, d) = (&report.current, &report.base, &report.deltas);
    let mut rows = print_metric_row(
        "CPU Instructions",
        c.cpu_instructions,
        b.cpu_instructions,
        d.cpu_instructions,
    );
    let ram = print_metric_row("RAM Bytes", c.ram_bytes, b.ram_bytes, d.ram_bytes);
    let read = print_metric_row(
        "Ledger Read Bytes",
        c.ledger_read_bytes,
        b.ledger_read_bytes,
        d.ledger_read_bytes,
    );
    let write = print_metric_row(
        "Ledger Write Bytes",
        c.ledger_write_bytes,
        b.ledger_write_bytes,
        d.ledger_write_bytes,
    );
    let size = print_metric_row(
        "Transaction Size",
        c.transaction_size_bytes,
        b.transaction_size_bytes,
        d.transaction_size_bytes,
    );
    rows.append(ram.as_str());
    rows.append(read.as_str());
    rows.append(write.as_str());
    rows.append(size.as_str());
    rows
}

/// Writes one alert on a line of its own.
fn print_flag(flag: &RegressionFlag) -> (row: String)
    ensures
        row@ == flag_row(flag@),
{
    let mut row = "    [".to_owned();
    text::append_right(&mut row, to_uppercase(flag.severity.as_str()).as_str(), 8);
    row.append("] ");
    row.append(flag.resource.as_str());
    row.append(" \u{2014} ");
    row.append(double::one_decimal_text(flag.change_percent).as_str());
    row.append("%\n");
    row
}

/// Writes the alerts, each on a line of its own.
fn print_flags(flags: &Vec<RegressionFlag>) -> (rows: String)
    ensures
        rows@ == flag_rows(flag_views(flags@)),
{
    let ghost views = flag_views(flags@);
    let mut rows = String::new();
    let mut i: usize = 0;
    assert(views.take(0) =~= Seq::<FlagView>::empty());
    while i < flags.len()
        invariant
            i <= flags@.len(),
            views == flag_views(flags@),
            rows@ == flag_rows(views.take(i as int)),
        decreases flags@.len() - i,
    {
        let ghost next = views.take(i + 1);
        rows.append(print_flag(&flags[i]).as_str());
        proof {
            assert(next.drop_last() =~= views.take(i as int));
            assert(next.last() == flags@[i as int]@);
        }
        i += 1;
    }
    assert(views.take(i as int) =~= views);
    rows
}

/// Writes the alerts, or that there are none.
fn print_verdict(flags: &Vec<RegressionFlag>) -> (text: String)
    ensures
        text@ == verdict(flag_views(flags@)),
{
    if flags.len() == 0 {
        return "  \u{2713} No regressions detected.\n".to_owned();
    }
    let mut text = "  \u{26a0} ".to_owned();
    text.append(text::decimal_text(flags.len() as u64).as_str());
    text.append(" REGRESSION(S) DETECTED:\n\n");
    text.append(print_flags(flags).as_str());
    text
}

/// Writes the head of the table.
fn print_table_head() -> (head: String)
    ensures
        head@ == table_head(),
{
    let mut head = "  ".to_owned();
    text::append_left(&mut head, "Metric", 25);
    head.append(" ");
    text::append_right(&mut head, "Current", 12);
    head.append(" ");
    text::append_right(&mut head, "Base", 12);
    head.append(" ");
    text::append_right(&mut head, "Delta", 10);
    head.append("\n");
    head.append("  ");
    text::append_repeated(&mut head, "-", 59);
    head.append("\n");
    head
}

/// Writes a report out as it is printed.
pub fn report_text(report: &RegressionReport) -> (text: String)
    ensures
        text@ == printed(report@),
{
    let mut out = "\n".to_owned();
    text::append_repeated(&mut out, "=", 60);
    out.append("\n");
    out.append("  SoroScope \u{2014} Contract Regression Report\n");
    text::append_repeated(&mut out, "=", 60);
    out.append("\n\n");
    out.append(print_table_head().as_str());
    out.append(print_metric_rows(report).as_str());
    out.append("\n");
    out.append(print_verdict(&report.regression_flags).as_str());
    out.append("\n  Summary: ");
    out.append(report.summary.as_str());
    out.append("\n");
    text::append_repeated(&mut out, "=", 60);
    out.append("\n\n");
    out
}

// ── Laws ───────────────────────────────────────────────────────────────────

/// Negative deltas (improvements) are never flagged, whatever the threshold, and neither is a delta
/// that just reaches it.
pub proof fn law_only_increases_beyond_the_threshold_are_flagged(delta: Double, threshold: Double)
    ensures
        regressed(delta, threshold) ==> delta.value() >= 0 && delta.value() > threshold.value(),
        !regressed(threshold, threshold),
        delta.value() < 0 ==> !regressed(delta, threshold),
{
    double::lemma_units_zero(0);
}

/// What a threshold flags, a lower one flags too.
pub proof fn law_lower_thresholds_flag_more(delta: Double, threshold: Double, lower: Double)
    requires
        !lower.is_nan(),
        lower.value() <= threshold.value(),
        regressed(delta, threshold),
    ensures
        regressed(delta, lower),
{
}

/// A metric whose base is zero has a change of zero and is not flagged.
pub proof fn law_zero_base_is_not_flagged(current: u64)
    ensures
        change(current, 0) == (Double { bits: 0 }),
        !regressed(change(current, 0), Double { bits: REGRESSION_THRESHOLD }),
{
    double::lemma_units_zero(0);
}

/// A metric that did not grow is not flagged.
pub proof fn law_improvements_are_not_flagged(current: u64, base: u64)
    requires
        current <= base,
    ensures
        change(current, base).value() <= 0,
        !regressed(change(current, base), Double { bits: REGRESSION_THRESHOLD }),
{
    double::lemma_units_zero(0);
    if base > 0 {
        rounding::law_percent_has_the_right_sign(current as nat, base as nat);
    }
}

/// What did not change has deltas of zero, and its report has no alerts.
pub proof fn law_no_change_no_alerts(resources: SorobanResources)
    ensures
        ({
            let zero = Double { bits: 0 };
            changes(resources, resources) == (ResourceDelta {
                cpu_instructions: zero,
                ram_bytes: zero,
                ledger_read_bytes: zero,
                ledger_write_bytes: zero,
                transaction_size_bytes: zero,
            })
        }),
        report(resources, resources).regression_flags.len() == 0,
{
    lemma_unchanged(resources.cpu_instructions);
    lemma_unchanged(resources.ram_bytes);
    lemma_unchanged(resources.ledger_read_bytes);
    lemma_unchanged(resources.ledger_write_bytes);
    lemma_unchanged(resources.transaction_size_bytes);
}

/// A metric that did not change has a delta of zero.
proof fn lemma_unchanged(metric: u64)
    ensures
        change(metric, metric) == (Double { bits: 0 }),
        !regressed(change(metric, metric), Double { bits: REGRESSION_THRESHOLD }),
{
    double::lemma_units_zero(0);
    if metric > 0 {
        rounding::law_no_change_is_zero(metric as nat);
    }
}

/// Below this base a metric is flagged exactly when it grew by more than ten percent.
pub const EXACT_FLAG_LIMIT: u64 = 8_006_399_337_547_549;

/// Below this base an increase is critical exactly when it is more than a quarter.
pub const EXACT_SEVERITY_LIMIT: u64 = 7_205_759_403_792_794;

/// A metric is flagged if and only if it grew from a base other than zero by more than ten percent,
/// as long as that base is below the limit to which rounding hides nothing.
pub proof fn law_flagged_above_ten_percent(current: u64, base: u64)
    requires
        base < EXACT_FLAG_LIMIT,
    ensures
        regressed(change(current, base), Double { bits: REGRESSION_THRESHOLD }) <==> base > 0 && 10
            * current > 11 * base,
{
    double::lemma_units_zero(0);
    if base > 0 {
        rounding::law_above_ten_percent(current as nat, base as nat);
        if current >= base {
            rounding::law_percent_has_the_right_sign(current as nat, base as nat);
        }
    }
}

/// A flagged metric is critical if and only if it grew by more than twenty-five percent, and high if
/// not, as long as its base is below the limit to which rounding hides nothing.
pub proof fn law_critical_above_twenty_five_percent(current: u64, base: u64)
    requires
        0 < base < EXACT_SEVERITY_LIMIT,
    ensures
        severity(change(current, base)) == if 4 * current > 5 * base {
            "critical"@
        } else {
            "high"@
        },
{
    rounding::law_above_twenty_five_percent(current as nat, base as nat);
}

/// With any base, a metric that grew by clearly more than ten percent is flagged, and one that grew
/// by clearly less is not: by one part of the base in two to the power of 48.
pub proof fn law_flagged_clearly_above_ten_percent(current: u64, base: u64)
    requires
        base > 0,
    ensures
        (10 * current - 11 * base) * 0x1_0000_0000_0000 > base ==> regressed(
            change(current, base),
            Double { bits: REGRESSION_THRESHOLD },
        ),
        (11 * base - 10 * current) * 0x1_0000_0000_0000 > base ==> !regressed(
            change(current, base),
            Double { bits: REGRESSION_THRESHOLD },
        ),
{
    double::lemma_units_zero(0);
    rounding::law_above_ten_percent_closely(current as nat, base as nat);
    rounding::law_percent_has_the_right_sign(current as nat, base as nat);
}

/// With any base, a metric that grew by clearly more than twenty-five percent is critical, and one
/// that grew by clearly less is not: by one part of the base in two to the power of 48.
pub proof fn law_critical_clearly_above_twenty_five_percent(current: u64, base: u64)
    requires
        base > 0,
    ensures
        (4 * current - 5 * base) * 0x1_0000_0000_0000 > base ==> severity(change(current, base))
            == "critical"@,
        (5 * base - 4 * current) * 0x1_0000_0000_0000 > base ==> severity(change(current, base))
            == "high"@,
{
    rounding::law_above_twenty_five_percent_closely(current as nat, base as nat);
}

/// Whether a metric grew from a base other than zero by more than ten percent.
pub open spec fn grew(current: u64, base: u64) -> bool {
    base > 0 && 10 * current > 11 * base
}

/// A report has no alerts if and only if no metric grew by more than ten percent, as long as the
/// bases are below the limit to which rounding hides nothing.
pub proof fn law_report_without_alerts(current: SorobanResources, base: SorobanResources)
    requires
        base.cpu_instructions < EXACT_FLAG_LIMIT,
        base.ram_bytes < EXACT_FLAG_LIMIT,
        base.ledger_read_bytes < EXACT_FLAG_LIMIT,
        base.ledger_write_bytes < EXACT_FLAG_LIMIT,
        base.transaction_size_bytes < EXACT_FLAG_LIMIT,
    ensures
        report(current, base).regression_flags.len() == 0 <==> {
            &&& !grew(current.cpu_instructions, base.cpu_instructions)
            &&& !grew(current.ram_bytes, base.ram_bytes)
            &&& !grew(current.ledger_read_bytes, base.ledger_read_bytes)
            &&& !grew(current.ledger_write_bytes, base.ledger_write_bytes)
            &&& !grew(current.transaction_size_bytes, base.transaction_size_bytes)
        },
{
    law_flagged_above_ten_percent(current.cpu_instructions, base.cpu_instructions);
    law_flagged_above_ten_percent(current.ram_bytes, base.ram_bytes);
    law_flagged_above_ten_percent(current.ledger_read_bytes, base.ledger_read_bytes);
    law_flagged_above_ten_percent(current.ledger_write_bytes, base.ledger_write_bytes);
    law_flagged_above_ten_percent(current.transaction_size_bytes, base.transaction_size_bytes);
}

/// Whether alerts tell of one metric as they should: there is one for it if and only if it is to be
/// `flagged`, and any for it has its change, and is critical or high as it should be.
pub open spec fn tell_of(
    flags: Seq<FlagView>,
    name: Seq<char>,
    delta: Double,
    flagged: bool,
    critical: bool,
) -> bool {
    &&& flagged <==> exists|i: int| 0 <= i < flags.len() && (#[trigger] flags[i]).resource == name
    &&& forall|i: int|
        0 <= i < flags.len() && (#[trigger] flags[i]).resource == name ==> {
            &&& flags[i].change_percent == delta
            &&& flags[i].severity == if critical {
                "critical"@
            } else {
                "high"@
            }
        }
}

/// The place of a metric among the metrics.
pub open spec fn metric_place(name: Seq<char>) -> int {
    if name == "cpu_instructions"@ {
        0
    } else if name == "ram_bytes"@ {
        1
    } else if name == "ledger_read_bytes"@ {
        2
    } else if name == "ledger_write_bytes"@ {
        3
    } else if name == "transaction_size_bytes"@ {
        4
    } else {
        5
    }
}

/// No two metrics have one name.
proof fn lemma_metric_names()
    ensures
        metric_place("cpu_instructions"@) == 0,
        metric_place("ram_bytes"@) == 1,
        metric_place("ledger_read_bytes"@) == 2,
        metric_place("ledger_write_bytes"@) == 3,
        metric_place("transaction_size_bytes"@) == 4,
{
    reveal_strlit("cpu_instructions");
    reveal_strlit("ram_bytes");
    reveal_strlit("ledger_read_bytes");
    reveal_strlit("ledger_write_bytes");
    reveal_strlit("transaction_size_bytes");
    assert("cpu_instructions"@.len() == 16);
    assert("ram_bytes"@.len() == 9);
    assert("ledger_read_bytes"@.len() == 17);
    assert("ledger_write_bytes"@.len() == 18);
    assert("transaction_size_bytes"@.len() == 22);
}

/// Whether alerts are among the metrics before a place, in the order of the metrics, none twice.
pub open spec fn in_metric_order(flags: Seq<FlagView>, before: int) -> bool {
    &&& forall|i: int|
        0 <= i < flags.len() ==> 0 <= metric_place((#[trigger] flags[i]).resource) < before
    &&& forall|i: int, j: int|
        0 <= i < j < flags.len() ==> metric_place((#[trigger] flags[i]).resource) < metric_place(
            (#[trigger] flags[j]).resource,
        )
}

/// The alert for the next metric behind those for the metrics before it.
proof fn lemma_next_alert(
    flags: Seq<FlagView>,
    name: Seq<char>,
    delta: Double,
    threshold: Double,
    place: int,
)
    requires
        in_metric_order(flags, place),
        metric_place(name) == place,
        0 <= place < 5,
    ensures
        ({
            let all = flags + alert(name, delta, threshold);
            &&& in_metric_order(all, place + 1)
            &&& tell_of(
                all,
                name,
                delta,
                regressed(delta, threshold),
                delta.above(Double { bits: CRITICAL_THRESHOLD }),
            )
            &&& forall|other: Seq<char>, d: Double, flagged: bool, critical: bool|
                #![trigger tell_of(all, other, d, flagged, critical)]
                other != name && tell_of(flags, other, d, flagged, critical) ==> tell_of(
                    all,
                    other,
                    d,
                    flagged,
                    critical,
                )
        }),
{
    let more = alert(name, delta, threshold);
    let all = flags + more;
    assert forall|i: int| 0 <= i < all.len() implies all[i] == if i < flags.len() {
        flags[i]
    } else {
        more[i - flags.len()]
    } by {}
    if regressed(delta, threshold) {
        assert(all[flags.len() as int] == more[0]);
    }
    assert forall|other: Seq<char>, d: Double, flagged: bool, critical: bool|
        #![trigger tell_of(all, other, d, flagged, critical)]
        other != name && tell_of(flags, other, d, flagged, critical) implies tell_of(
        all,
        other,
        d,
        flagged,
        critical,
    ) by {
        if flagged {
            let i = choose|i: int|
                0 <= i < flags.len() && (#[trigger] flags[i]).resource == other;
            assert(all[i].resource == other);
        }
    }
}

/// Each metric has its alert, with its own change and the severity of that change, if and only if
/// the change is an increase beyond the threshold; the alerts stand in the order of the metrics, and
/// there are no others.
pub proof fn law_every_metric_is_judged_alike(deltas: ResourceDelta, threshold: Double)
    ensures
        ({
            let flags = alerts(deltas, threshold);
            let flagged = |d: Double| d.above(threshold) && d.value() >= 0;
            let critical = |d: Double| d.above(Double { bits: 0x4039_0000_0000_0000 });
            let told = |name: Seq<char>, d: Double|
                tell_of(flags, name, d, flagged(d), critical(d));
            &&& told("cpu_instructions"@, deltas.cpu_instructions)
            &&& told("ram_bytes"@, deltas.ram_bytes)
            &&& told("ledger_read_bytes"@, deltas.ledger_read_bytes)
            &&& told("ledger_write_bytes"@, deltas.ledger_write_bytes)
            &&& told("transaction_size_bytes"@, deltas.transaction_size_bytes)
            &&& in_metric_order(flags, 5)
        }),
{
    double::lemma_units_zero(0);
    lemma_metric_names();
    let none = Seq::<FlagView>::empty();
    let cpu = alert("cpu_instructions"@, deltas.cpu_instructions, threshold);
    let ram = cpu + alert("ram_bytes"@, deltas.ram_bytes, threshold);
    let read = ram + alert("ledger_read_bytes"@, deltas.ledger_read_bytes, threshold);
    let write = read + alert("ledger_write_bytes"@, deltas.ledger_write_bytes, threshold);
    lemma_next_alert(none, "cpu_instructions"@, deltas.cpu_instructions, threshold, 0);
    assert(none + cpu =~= cpu);
    lemma_next_alert(cpu, "ram_bytes"@, deltas.ram_bytes, threshold, 1);
    lemma_next_alert(ram, "ledger_read_bytes"@, deltas.ledger_read_bytes, threshold, 2);
    lemma_next_alert(read, "ledger_write_bytes"@, deltas.ledger_write_bytes, threshold, 3);
    lemma_next_alert(write, "transaction_size_bytes"@, deltas.transaction_size_bytes, threshold, 4);
}

/// Whether a report tells of one metric as it should: there is an alert for it if and only if it grew
/// from a base other than zero by more than ten percent, and the alert is critical if it grew by more
/// than twenty-five percent, and high if not.
pub open spec fn reports(flags: Seq<FlagView>, name: Seq<char>, current: u64, base: u64) -> bool {
    &&& (exists|i: int| 0 <= i < flags.len() && (#[trigger] flags[i]).resource == name) <==> base > 0
        && 10 * current > 11 * base
    &&& forall|i: int|
        0 <= i < flags.len() && (#[trigger] flags[i]).resource == name ==> {
            &&& flags[i].change_percent == double::percent_more(current as nat, base as nat)
            &&& flags[i].severity == if 4 * current > 5 * base {
                "critical"@
            } else {
                "high"@
            }
        }
}

/// What is told of a metric by its change is what is told by how it grew.
proof fn lemma_told_by_growth(flags: Seq<FlagView>, name: Seq<char>, current: u64, base: u64)
    requires
        base < 7_205_759_403_792_794,
        ({
            let delta = change(current, base);
            tell_of(
                flags,
                name,
                delta,
                delta.above(Double { bits: 0x4024_0000_0000_0000 }) && delta.value() >= 0,
                delta.above(Double { bits: 0x4039_0000_0000_0000 }),
            )
        }),
    ensures
        reports(flags, name, current, base),
{
    let delta = change(current, base);
    double::lemma_units_zero(0);
    law_flagged_above_ten_percent(current, base);
    if base > 0 {
        rounding::law_above_twenty_five_percent(current as nat, base as nat);
    }
    assert(regressed(delta, Double { bits: 0x4024_0000_0000_0000 }) <==> delta.above(
        Double { bits: 0x4024_0000_0000_0000 },
    ) && delta.value() >= 0);
}

/// A report tells of each metric by how that metric grew, whichever it is, as long as the bases are
/// below the limit to which rounding hides nothing; it has no other alerts, and none twice.
pub proof fn law_report_tells_of_every_metric(current: SorobanResources, base: SorobanResources)
    requires
        base.cpu_instructions < 7_205_759_403_792_794,
        base.ram_bytes < 7_205_759_403_792_794,
        base.ledger_read_bytes < 7_205_759_403_792_794,
        base.ledger_write_bytes < 7_205_759_403_792_794,
        base.transaction_size_bytes < 7_205_759_403_792_794,
    ensures
        ({
            let flags = report(current, base).regression_flags;
            &&& reports(
                flags,
                "cpu_instructions"@,
                current.cpu_instructions,
                base.cpu_instructions,
            )
            &&& reports(flags, "ram_bytes"@, current.ram_bytes, base.ram_bytes)
            &&& reports(
                flags,
                "ledger_read_bytes"@,
                current.ledger_read_bytes,
                base.ledger_read_bytes,
            )
            &&& reports(
                flags,
                "ledger_write_bytes"@,
                current.ledger_write_bytes,
                base.ledger_write_bytes,
            )
            &&& reports(
                flags,
                "transaction_size_bytes"@,
                current.transaction_size_bytes,
                base.transaction_size_bytes,
            )
            &&& in_metric_order(flags, 5)
        }),
{
    let flags = report(current, base).regression_flags;
    law_every_metric_is_judged_alike(changes(current, base), Double { bits: 0x4024_0000_0000_0000 });
    lemma_told_by_growth(
        flags,
        "cpu_instructions"@,
        current.cpu_instructions,
        base.cpu_instructions,
    );
    lemma_told_by_growth(flags, "ram_bytes"@, current.ram_bytes, base.ram_bytes);
    lemma_told_by_growth(
        flags,
        "ledger_read_bytes"@,
        current.ledger_read_bytes,
        base.ledger_read_bytes,
    );
    lemma_told_by_growth(
        flags,
        "ledger_write_bytes"@,
        current.ledger_write_bytes,
        base.ledger_write_bytes,
    );
    lemma_told_by_growth(
        flags,
        "transaction_size_bytes"@,
        current.transaction_size_bytes,
        base.transaction_size_bytes,
    );
}

/// A report holds the metrics that were compared, and for each metric by how many percent it changed:
/// none if its base is zero.
pub proof fn law_report_holds_what_was_compared(current: SorobanResources, base: SorobanResources)
    ensures
        report(current, base).current == current,
        report(current, base).base == base,
        ({
            let deltas = report(current, base).deltas;
            let percent = |c: u64, b: u64, d: Double|
                if b == 0 {
                    d.bits == 0
                } else {
                    d == double::percent_more(c as nat, b as nat)
                };
            &&& percent(
                current.cpu_instructions,
                base.cpu_instructions,
                deltas.cpu_instructions,
            )
            &&& percent(current.ram_bytes, base.ram_bytes, deltas.ram_bytes)
            &&& percent(
                current.ledger_read_bytes,
                base.ledger_read_bytes,
                deltas.ledger_read_bytes,
            )
            &&& percent(
                current.ledger_write_bytes,
                base.ledger_write_bytes,
                deltas.ledger_write_bytes,
            )
            &&& percent(
                current.transaction_size_bytes,
                base.transaction_size_bytes,
                deltas.transaction_size_bytes,
            )
        }),
{
}

/// The summary of no alerts says that there are none. That of some counts them, and then lists them
/// with commas between them: each by its metric, with its change in percent.
pub proof fn law_summary_lists_the_alerts(flags: Seq<FlagView>, next: FlagView)
    ensures
        summary(Seq::empty())
            == "No significant regressions detected. All resource changes are within acceptable limits."@,
        summary(flags.push(next)) == "\u{26a0} "@ + text::decimal(flags.len() + 1)
            + " regression(s) detected: "@ + flag_list(flags.push(next)),
        flag_list(seq![next]) == next.resource + " ("@ + double::one_decimal(next.change_percent)
            + "%)"@,
        flags.len() > 0 ==> flag_list(flags.push(next)) == flag_list(flags) + ", "@ + flag_list(
            seq![next],
        ),
{
    assert(flags.push(next).drop_last() =~= flags);
    assert(seq![next].drop_last() =~= Seq::<FlagView>::empty());
}

/// The summary of a report is that of its alerts.
pub proof fn law_report_is_summed_up(current: SorobanResources, base: SorobanResources)
    ensures
        report(current, base).summary == summary(report(current, base).regression_flags),
{
}

/// Two files are compared by calling `compare` without arguments on each, the current one first.
/// A file is compared with what is deployed by calling the same function with the same arguments on
/// both, the file first.
pub proof fn law_both_versions_are_called_alike(mode: CompareMode)
    ensures
        match mode {
            CompareMode::LocalVsLocal { current_wasm, base_wasm } => {
                let (current, base) = calls(mode);
                &&& current.contract_id == path_text(current_wasm)
                &&& base.contract_id == path_text(base_wasm)
                &&& current.function_name == "compare"@ && base.function_name == "compare"@
                &&& current.args.len() == 0 && base.args.len() == 0
            },
            CompareMode::LocalVsDeployed { current_wasm, contract_id, function_name, args } => {
                let (current, base) = calls(mode);
                &&& current.contract_id == path_text(current_wasm)
                &&& base.contract_id == contract_id@
                &&& current.function_name == function_name@ && base.function_name == function_name@
                &&& current.args == base.args && base.args.len() == args@.len()
                &&& forall|i: int| 0 <= i < args@.len() ==> #[trigger] base.args[i] == args@[i]@
            },
        },
{
}

/// A change is marked by its sign: upwards if it is more than nothing, downwards if it is less, and
/// as unchanged if it is nothing.
pub proof fn law_arrows_show_the_sign(delta: Double)
    requires
        !delta.is_nan(),
    ensures
        delta.value() > 0 ==> arrow(delta) == "\u{25b2}"@,
        delta.value() < 0 ==> arrow(delta) == "\u{25bc}"@,
        delta.value() == 0 ==> arrow(delta) == "="@,
{
    double::lemma_units_zero(0);
}

/// A row of the table shows a metric's name, its two values and its change in percent with its mark,
/// in columns of 25, 12, 12 and 8 characters.
pub proof fn law_rows_show_both_values(label: Seq<char>, current: u64, base: u64, delta: Double)
    ensures
        metric_row(label, current, base, delta) == "  "@ + text::left_in(label, 25) + " "@
            + text::right_in(text::decimal(current as nat), 12) + " "@ + text::right_in(
            text::decimal(base as nat),
            12,
        ) + " "@ + text::right_in(double::one_decimal(delta), 8) + "% "@ + arrow(delta) + "\n"@,
{
}

/// The table has one row for each metric, with that metric's values in the report.
pub proof fn law_table_shows_every_metric(report: ReportView)
    ensures
        metric_rows(report) == metric_row(
            "CPU Instructions"@,
            report.current.cpu_instructions,
            report.base.cpu_instructions,
            report.deltas.cpu_instructions,
        ) + metric_row(
            "RAM Bytes"@,
            report.current.ram_bytes,
            report.base.ram_bytes,
            report.deltas.ram_bytes,
        ) + metric_row(
            "Ledger Read Bytes"@,
            report.current.ledger_read_bytes,
            report.base.ledger_read_bytes,
            report.deltas.ledger_read_bytes,
        ) + metric_row(
            "Ledger Write Bytes"@,
            report.current.ledger_write_bytes,
            report.base.ledger_write_bytes,
            report.deltas.ledger_write_bytes,
        ) + metric_row(
            "Transaction Size"@,
            report.current.transaction_size_bytes,
            report.base.transaction_size_bytes,
            report.deltas.transaction_size_bytes,
        ),
{
}

/// Behind the table stands that there are no alerts, or how many there are, and then each on a line
/// of its own: its severity in upper case, its metric and its change in percent.
pub proof fn law_every_alert_is_printed(flags: Seq<FlagView>, next: FlagView)
    ensures
        verdict(Seq::empty()) == "  \u{2713} No regressions detected.\n"@,
        verdict(flags.push(next)) == "  \u{26a0} "@ + text::decimal(flags.len() + 1)
            + " REGRESSION(S) DETECTED:\n\n"@ + flag_rows(flags.push(next)),
        flag_rows(Seq::empty()) == Seq::<char>::empty(),
        flag_rows(flags.push(next)) == flag_rows(flags) + "    ["@ + text::right_in(
            severity_label(next.severity),
            8,
        ) + "] "@ + next.resource + " \u{2014} "@ + double::one_decimal(next.change_percent)
            + "%\n"@,
        next.severity == "critical"@ ==> severity_label(next.severity) == "CRITICAL"@,
        next.severity == "high"@ ==> severity_label(next.severity) == "HIGH"@,
        next.severity != "critical"@ && next.severity != "high"@ ==> severity_label(next.severity)
            == uppercase(next.severity),
{
    assert(flags.push(next).drop_last() =~= flags);
    assert("critical"@ != "high"@) by {
        reveal_strlit("critical");
        reveal_strlit("high");
        assert("critical"@.len() != "high"@.len());
    }
    assert(flag_rows(flags.push(next)) =~= flag_rows(flags) + "    ["@ + text::right_in(
        severity_label(next.severity),
        8,
    ) + "] "@ + next.resource + " \u{2014} "@ + double::one_decimal(next.change_percent) + "%\n"@);
}

/// A report is printed as its heading, the table with its head, the verdict on its alerts, and its
/// summary, with rulers of sixty equals signs around the heading and at the end.
pub proof fn law_report_is_printed_in_full(report: ReportView)
    ensures
        ({
            let line = text::repeated("="@, 60);
            let head = "  "@ + text::left_in("Metric"@, 25) + " "@ + text::right_in("Current"@, 12)
                + " "@ + text::right_in("Base"@, 12) + " "@ + text::right_in("Delta"@, 10) + "\n"@
                + "  "@ + text::repeated("-"@, 59) + "\n"@;
            printed(report) == "\n"@ + line + "\n"@
                + "  SoroScope \u{2014} Contract Regression Report\n"@ + line + "\n\n"@ + head
                + metric_rows(report) + "\n"@ + verdict(report.regression_flags)
                + "\n  Summary: "@ + report.summary + "\n"@ + line + "\n\n"@
        }),
{
}

/// A report stands for what its fields hold, and so does each of its alerts, at its place.
pub proof fn law_reports_stand_for_their_fields(report: RegressionReport)
    ensures
        report@.current == report.current,
        report@.base == report.base,
        report@.deltas == report.deltas,
        report@.summary == report.summary@,
        report@.regression_flags.len() == report.regression_flags@.len(),
        forall|i: int|
            0 <= i < report.regression_flags@.len() ==> {
                let (flag, held) = (
                    #[trigger] report@.regression_flags[i],
                    report.regression_flags@[i],
                );
                &&& flag.resource == held.resource@
                &&& flag.change_percent == held.change_percent
                &&& flag.severity == held.severity@
            },
{
}

} // verus!
