use soroscope::comparison::{
    build_report, calculate_deltas, comparison_calls, detect_regressions, pct_change, report_text,
    run_comparison, CompareMode, RegressionFlag, RegressionReport, ResourceDelta,
};
use soroscope::double::Double;
use soroscope::simulation::{SimulationResult, SorobanResources};
use serde_json::{Number, Value};
use std::path::PathBuf;

fn double(x: f64) -> Double {
    Double { bits: x.to_bits() }
}

fn float(x: Double) -> f64 {
    f64::from_bits(x.bits)
}

fn make_resources(cpu: u64, ram: u64, lr: u64, lw: u64, tx: u64) -> SorobanResources {
    SorobanResources {
        cpu_instructions: cpu,
        ram_bytes: ram,
        ledger_read_bytes: lr,
        ledger_write_bytes: lw,
        transaction_size_bytes: tx,
    }
}

fn make_deltas(cpu: f64, ram: f64, lr: f64, lw: f64, tx: f64) -> ResourceDelta {
    ResourceDelta {
        cpu_instructions: double(cpu),
        ram_bytes: double(ram),
        ledger_read_bytes: double(lr),
        ledger_write_bytes: double(lw),
        transaction_size_bytes: double(tx),
    }
}

fn native_change(current: u64, base: u64) -> f64 {
    if base == 0 {
        return 0.0;
    }
    ((current as f64 - base as f64) / base as f64) * 100.0
}

#[test]
fn test_calculate_deltas_basic() {
    let current = make_resources(1150, 2000, 500, 300, 100);
    let base = make_resources(1000, 2000, 400, 300, 100);

    let deltas = calculate_deltas(&current, &base);

    assert!((float(deltas.cpu_instructions) - 15.0).abs() < 0.001);
    assert!((float(deltas.ram_bytes) - 0.0).abs() < 0.001);
    assert!((float(deltas.ledger_read_bytes) - 25.0).abs() < 0.001);
    assert!((float(deltas.ledger_write_bytes) - 0.0).abs() < 0.001);
    assert!((float(deltas.transaction_size_bytes) - 0.0).abs() < 0.001);
}

#[test]
fn test_calculate_deltas_zero_base() {
    let current = make_resources(500, 0, 0, 0, 0);
    let base = make_resources(0, 0, 0, 0, 0);

    let deltas = calculate_deltas(&current, &base);

    // When base is zero, delta should be 0.0 (no meaningful percentage)
    assert!((float(deltas.cpu_instructions) - 0.0).abs() < 0.001);
    assert!((float(deltas.ram_bytes) - 0.0).abs() < 0.001);
}

#[test]
fn test_calculate_deltas_no_change() {
    let resources = make_resources(1000, 2000, 300, 400, 500);

    let deltas = calculate_deltas(&resources, &resources);

    assert!(float(deltas.cpu_instructions).abs() < 0.001);
    assert!(float(deltas.ram_bytes).abs() < 0.001);
    assert!(float(deltas.ledger_read_bytes).abs() < 0.001);
    assert!(float(deltas.ledger_write_bytes).abs() < 0.001);
    assert!(float(deltas.transaction_size_bytes).abs() < 0.001);
}

#[test]
fn test_detect_regressions_above_threshold() {
    let deltas = make_deltas(15.4, 5.0, 30.0, 0.0, 11.0);

    let flags = detect_regressions(&deltas, double(10.0));

    assert_eq!(flags.len(), 3);
    assert!(flags.iter().any(|f| f.resource == "cpu_instructions"));
    assert!(flags.iter().any(|f| f.resource == "ledger_read_bytes"));
    assert!(flags.iter().any(|f| f.resource == "transaction_size_bytes"));
    // ram_bytes (5.0) and ledger_write_bytes (0.0) are under threshold
}

#[test]
fn test_detect_regressions_below_threshold() {
    let deltas = make_deltas(5.0, 3.0, 9.9, 0.0, -5.0);

    let flags = detect_regressions(&deltas, double(10.0));

    assert!(flags.is_empty());
}

#[test]
fn test_detect_regressions_exact_threshold() {
    let deltas = make_deltas(10.0, 10.0, 10.0, 10.0, 10.0);

    // Exactly at threshold should NOT flag (must be strictly greater)
    let flags = detect_regressions(&deltas, double(10.0));
    assert!(flags.is_empty());
}

#[test]
fn test_detect_regressions_improvements_ignored() {
    let deltas = make_deltas(-20.0, -50.0, -5.0, -100.0, -0.1);

    let flags = detect_regressions(&deltas, double(10.0));
    assert!(flags.is_empty());
}

fn resources_value(resources: &SorobanResources) -> Value {
    let mut members = serde_json::Map::new();
    members.insert("cpu_instructions".to_string(), Value::from(resources.cpu_instructions));
    members.insert("ram_bytes".to_string(), Value::from(resources.ram_bytes));
    members.insert("ledger_read_bytes".to_string(), Value::from(resources.ledger_read_bytes));
    members.insert("ledger_write_bytes".to_string(), Value::from(resources.ledger_write_bytes));
    members.insert(
        "transaction_size_bytes".to_string(),
        Value::from(resources.transaction_size_bytes),
    );
    Value::Object(members)
}

fn deltas_value(deltas: &ResourceDelta) -> Value {
    let number = |x: Double| Value::Number(Number::from_f64(float(x)).unwrap());
    let mut members = serde_json::Map::new();
    members.insert("cpu_instructions".to_string(), number(deltas.cpu_instructions));
    members.insert("ram_bytes".to_string(), number(deltas.ram_bytes));
    members.insert("ledger_read_bytes".to_string(), number(deltas.ledger_read_bytes));
    members.insert("ledger_write_bytes".to_string(), number(deltas.ledger_write_bytes));
    members.insert("transaction_size_bytes".to_string(), number(deltas.transaction_size_bytes));
    Value::Object(members)
}

fn resources_of(value: &Value) -> SorobanResources {
    let field = |name: &str| value[name].as_u64().unwrap();
    make_resources(
        field("cpu_instructions"),
        field("ram_bytes"),
        field("ledger_read_bytes"),
        field("ledger_write_bytes"),
        field("transaction_size_bytes"),
    )
}

fn deltas_of(value: &Value) -> ResourceDelta {
    let field = |name: &str| value[name].as_f64().unwrap();
    make_deltas(
        field("cpu_instructions"),
        field("ram_bytes"),
        field("ledger_read_bytes"),
        field("ledger_write_bytes"),
        field("transaction_size_bytes"),
    )
}

fn flags_value(flags: &Vec<RegressionFlag>) -> Value {
    let flag = |f: &RegressionFlag| {
        let mut members = serde_json::Map::new();
        members.insert("resource".to_string(), Value::from(f.resource.clone()));
        members.insert(
            "change_percent".to_string(),
            Value::Number(Number::from_f64(float(f.change_percent)).unwrap()),
        );
        members.insert("severity".to_string(), Value::from(f.severity.clone()));
        Value::Object(members)
    };
    Value::Array(flags.iter().map(flag).collect())
}

fn flags_of(value: &Value) -> Vec<RegressionFlag> {
    let flag = |f: &Value| RegressionFlag {
        resource: f["resource"].as_str().unwrap().to_string(),
        change_percent: double(f["change_percent"].as_f64().unwrap()),
        severity: f["severity"].as_str().unwrap().to_string(),
    };
    value.as_array().unwrap().iter().map(flag).collect()
}

#[test]
fn test_regression_report_serialization() {
    let report = build_report(
        make_resources(1150, 2000, 500, 300, 100),
        make_resources(1000, 2000, 400, 300, 100),
    );

    let mut members = serde_json::Map::new();
    members.insert("current".to_string(), resources_value(&report.current));
    members.insert("base".to_string(), resources_value(&report.base));
    members.insert("deltas".to_string(), deltas_value(&report.deltas));
    members.insert("regression_flags".to_string(), flags_value(&report.regression_flags));
    members.insert("summary".to_string(), Value::from(report.summary.clone()));
    let json = serde_json::to_string(&Value::Object(members)).expect("should serialize");
    let value: Value = serde_json::from_str(&json).expect("should deserialize");
    let deserialized = RegressionReport {
        current: resources_of(&value["current"]),
        base: resources_of(&value["base"]),
        deltas: deltas_of(&value["deltas"]),
        regression_flags: flags_of(&value["regression_flags"]),
        summary: value["summary"].as_str().unwrap().to_string(),
    };

    assert_eq!(deserialized.current.cpu_instructions, 1150);
    assert_eq!(deserialized.base.cpu_instructions, 1000);
    assert!((float(deserialized.deltas.cpu_instructions) - 15.0).abs() < 0.001);
    assert_eq!(deserialized.deltas.cpu_instructions.bits, report.deltas.cpu_instructions.bits);
    assert_eq!(deserialized.regression_flags.len(), report.regression_flags.len());
    assert_eq!(report_text(&deserialized), report_text(&report));
}

#[test]
fn test_regression_severity_levels() {
    let deltas = make_deltas(12.0, 30.0, 0.0, 0.0, 0.0);

    let flags = detect_regressions(&deltas, double(10.0));

    let cpu_flag = flags.iter().find(|f| f.resource == "cpu_instructions").unwrap();
    assert_eq!(cpu_flag.severity, "high");

    let ram_flag = flags.iter().find(|f| f.resource == "ram_bytes").unwrap();
    assert_eq!(ram_flag.severity, "critical");
}

#[test]
fn test_compare_mode_variants() {
    let local = CompareMode::LocalVsLocal {
        current_wasm: PathBuf::from("v2.wasm"),
        base_wasm: PathBuf::from("v1.wasm"),
    };
    assert!(matches!(local, CompareMode::LocalVsLocal { .. }));

    let deployed = CompareMode::LocalVsDeployed {
        current_wasm: PathBuf::from("v2.wasm"),
        contract_id: "CABC123".to_string(),
        function_name: "hello".to_string(),
        args: vec![],
    };
    assert!(matches!(deployed, CompareMode::LocalVsDeployed { .. }));
}

#[test]
fn test_build_report_no_regressions() {
    let report = build_report(
        make_resources(1000, 2000, 300, 400, 500),
        make_resources(1000, 2000, 300, 400, 500),
    );

    assert!(report.regression_flags.is_empty());
    assert!(report.summary.contains("No significant regressions"));
}

#[test]
fn test_build_report_with_regressions() {
    let report = build_report(
        make_resources(1500, 2000, 300, 400, 500),
        make_resources(1000, 2000, 300, 400, 500),
    );

    assert_eq!(report.regression_flags.len(), 1);
    assert_eq!(report.regression_flags[0].resource, "cpu_instructions");
    assert!(report.summary.contains("regression(s) detected"));
}

#[test]
fn changes_have_the_bits_of_native_arithmetic() {
    let values: Vec<u64> = vec![
        0,
        1,
        2,
        3,
        7,
        9,
        10,
        11,
        99,
        100,
        101,
        110,
        1000,
        1150,
        12_345,
        999_999,
        u32::MAX as u64,
        1 << 52,
        (1 << 52) + 1,
        (1 << 53) - 1,
        1 << 53,
        (1 << 53) + 1,
        (1 << 53) + 2,
        (1 << 53) + 3,
        (1 << 54) + 2,
        (1 << 54) + 6,
        7_205_759_403_792_794,
        8_006_399_337_547_549,
        8_807_039_271_302_304,
        9_007_199_254_740_993,
        (1 << 63) - 1,
        1 << 63,
        (1 << 63) + 1025,
        u64::MAX - 1024,
        u64::MAX - 1,
        u64::MAX,
    ];
    for current in values.iter() {
        for base in values.iter() {
            let expected = native_change(*current, *base);
            let found = pct_change(*current, *base);
            assert_eq!(found.bits, expected.to_bits(), "{} over {}", current, base);
        }
    }
}

#[test]
fn changes_of_many_values_have_the_bits_of_native_arithmetic() {
    let mut state: u64 = 0x9E37_79B9_7F4A_7C15;
    let mut next = move || {
        state ^= state << 13;
        state ^= state >> 7;
        state ^= state << 17;
        state
    };
    for round in 0..20_000u32 {
        let current = next() >> (round % 64);
        let base = next() >> ((round / 7) % 64);
        let expected = native_change(current, base);
        assert_eq!(pct_change(current, base).bits, expected.to_bits(), "{} over {}", current, base);
    }
}

#[test]
fn a_zero_base_and_no_change_have_no_sign() {
    assert_eq!(pct_change(500, 0).bits, 0);
    assert_eq!(pct_change(0, 0).bits, 0);
    assert_eq!(pct_change(77, 77).bits, 0);
    assert_eq!(pct_change(u64::MAX, u64::MAX).bits, 0);
}

#[test]
fn a_metric_is_flagged_from_ten_percent_on() {
    let flagged = |current: u64, base: u64| {
        !build_report(
            make_resources(current, 0, 0, 0, 0),
            make_resources(base, 0, 0, 0, 0),
        )
        .regression_flags
        .is_empty()
    };
    let bases: Vec<u64> = vec![1, 9, 10, 11, 100, 1000, 999_999_999, 8_006_399_337_547_540];
    for base in bases {
        let least = 11 * base / 10 + 1;
        assert!(flagged(least, base), "{}", base);
        assert!(!flagged(least - 1, base), "{}", base);
    }
    // One base further, rounding hides an increase of one part in ten and a little more.
    assert!(10 * 8_807_039_271_302_304u128 > 11 * 8_006_399_337_547_549u128);
    assert!(!flagged(8_807_039_271_302_304, 8_006_399_337_547_549));
    // Far beyond, only what is close to ten percent can be hidden.
    assert!(flagged(1 << 63, (1 << 63) / 10 * 9));
    assert!(!flagged(1 << 63, (1 << 63) / 100 * 92));
}

#[test]
fn an_alert_is_critical_from_twenty_five_percent_on() {
    let severity = |current: u64, base: u64| {
        let report = build_report(
            make_resources(0, current, 0, 0, 0),
            make_resources(0, base, 0, 0, 0),
        );
        report.regression_flags[0].severity.clone()
    };
    let bases: Vec<u64> = vec![4, 5, 8, 100, 12_345, 7_205_759_403_792_793];
    for base in bases {
        let least = 5 * base / 4 + 1;
        assert_eq!(severity(least, base), "critical", "{}", base);
        assert_eq!(severity(least - 1, base), "high", "{}", base);
    }
    assert_eq!(severity(9_007_199_254_740_993, 7_205_759_403_792_794), "high");
    assert_eq!(severity(1 << 63, (1 << 63) / 10 * 7), "critical");
    assert_eq!(severity(1 << 63, (1 << 63) / 10 * 9), "high");
}

#[test]
fn improvements_are_not_flagged_even_under_a_negative_threshold() {
    let deltas = make_deltas(-1.0, 0.0, -0.0, 0.5, f64::NAN);
    let flags = detect_regressions(&deltas, double(-5.0));
    let names: Vec<&str> = flags.iter().map(|f| f.resource.as_str()).collect();
    assert_eq!(names, vec!["ram_bytes", "ledger_read_bytes", "ledger_write_bytes"]);
    assert!(detect_regressions(&deltas, double(f64::NAN)).is_empty());
}

#[test]
fn flags_come_in_the_order_of_the_metrics() {
    let deltas = make_deltas(10.5, 25.0, 25.1, f64::INFINITY, 11.0);
    let flags = detect_regressions(&deltas, double(10.0));
    let found: Vec<(&str, &str, f64)> = flags
        .iter()
        .map(|f| (f.resource.as_str(), f.severity.as_str(), float(f.change_percent)))
        .collect();
    assert_eq!(
        found,
        vec![
            ("cpu_instructions", "high", 10.5),
            ("ram_bytes", "high", 25.0),
            ("ledger_read_bytes", "critical", 25.1),
            ("ledger_write_bytes", "critical", f64::INFINITY),
            ("transaction_size_bytes", "high", 11.0),
        ]
    );
}

#[test]
fn the_summary_lists_the_alerts() {
    let report = build_report(
        make_resources(1500, 2000, 330, 400, 601),
        make_resources(1000, 2000, 300, 400, 500),
    );
    assert_eq!(
        report.summary,
        "\u{26a0} 2 regression(s) detected: cpu_instructions (+50.0%), transaction_size_bytes (+20.2%)"
    );
}

#[test]
fn a_report_is_printed_as_a_table() {
    let report = build_report(
        make_resources(1500, 1900, 300, 0, 12),
        make_resources(1000, 2000, 300, 400, 10),
    );
    let rule = "=".repeat(60);
    let expected = format!(
        "\n{}\n  SoroScope \u{2014} Contract Regression Report\n{}\n\n  {:<25} {:>12} {:>12} {:>10}\n  {}\n{}{}{}{}{}\n  \u{26a0} 2 REGRESSION(S) DETECTED:\n\n    [{:>8}] {} \u{2014} {:+.1}%\n    [{:>8}] {} \u{2014} {:+.1}%\n\n  Summary: {}\n{}\n\n",
        rule,
        rule,
        "Metric",
        "Current",
        "Base",
        "Delta",
        "-".repeat(59),
        format!("  {:<25} {:>12} {:>12} {:>+8.1}% {}\n", "CPU Instructions", 1500, 1000, 50.0, "\u{25b2}"),
        format!("  {:<25} {:>12} {:>12} {:>+8.1}% {}\n", "RAM Bytes", 1900, 2000, -5.0, "\u{25bc}"),
        format!("  {:<25} {:>12} {:>12} {:>+8.1}% {}\n", "Ledger Read Bytes", 300, 300, 0.0, "="),
        format!("  {:<25} {:>12} {:>12} {:>+8.1}% {}\n", "Ledger Write Bytes", 0, 400, -100.0, "\u{25bc}"),
        format!("  {:<25} {:>12} {:>12} {:>+8.1}% {}\n", "Transaction Size", 12, 10, 20.0, "\u{25b2}"),
        "CRITICAL",
        "cpu_instructions",
        50.0,
        "HIGH",
        "transaction_size_bytes",
        20.0,
        report.summary,
        rule,
    );
    assert_eq!(report_text(&report), expected);
}

#[test]
fn a_report_without_alerts_says_so() {
    let resources = make_resources(1, 2, 3, 4, 5);
    let text = report_text(&build_report(resources, resources));
    assert!(text.contains("\n  \u{2713} No regressions detected.\n\n  Summary: No significant"));
    assert!(!text.contains("REGRESSION(S)"));
}

#[test]
fn local_files_are_called_by_their_paths() {
    let (current, base) = comparison_calls(CompareMode::LocalVsLocal {
        current_wasm: PathBuf::from("out/v2.wasm"),
        base_wasm: PathBuf::from("out/v1.wasm"),
    });
    assert_eq!(current.contract_id, "out/v2.wasm");
    assert_eq!(current.function_name, "compare");
    assert!(current.args.is_empty());
    assert_eq!(base.contract_id, "out/v1.wasm");
    assert_eq!(base.function_name, "compare");
    assert!(base.args.is_empty());
}

#[test]
fn a_deployed_contract_is_called_like_the_local_file() {
    let (current, base) = comparison_calls(CompareMode::LocalVsDeployed {
        current_wasm: PathBuf::from("v2.wasm"),
        contract_id: "CABC123".to_string(),
        function_name: "hello".to_string(),
        args: vec!["1".to_string(), "2".to_string()],
    });
    assert_eq!(current.contract_id, "v2.wasm");
    assert_eq!(base.contract_id, "CABC123");
    assert_eq!(current.function_name, "hello");
    assert_eq!(base.function_name, "hello");
    assert_eq!(current.args, vec!["1".to_string(), "2".to_string()]);
    assert_eq!(base.args, current.args);
}

fn simulated(cpu: u64) -> SimulationResult {
    SimulationResult { resources: make_resources(cpu, 1, 1, 1, 1), state_dependency: None }
}

#[test]
fn a_comparison_fails_with_the_first_error() {
    let ok = run_comparison::<String>(Ok(simulated(20)), Ok(simulated(10))).unwrap();
    assert_eq!(float(ok.deltas.cpu_instructions), 100.0);
    let both = run_comparison(Err("current".to_string()), Err("base".to_string()));
    assert_eq!(both.unwrap_err(), "current");
    let base = run_comparison(Ok(simulated(1)), Err("base".to_string()));
    assert_eq!(base.unwrap_err(), "base");
    let current = run_comparison(Err("current".to_string()), Ok(simulated(1)));
    assert_eq!(current.unwrap_err(), "current");
}
