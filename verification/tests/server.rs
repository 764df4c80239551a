use soroscope::api::{
    analyzed_call, cache_key, compared, health_check, look_up, optimize_limits, simulated, to_report,
    AnalyzeRequest, AnalyzeStep, AppError, CacheKey, Insight, InsightsReport, OptimizationReport,
};
use soroscope::cli::{command, compare_usage, missing_file, Command};
use soroscope::comparison::build_report;
use soroscope::config::{
    bind_address, build_providers, default_health_check_interval, default_safety_margin, AppConfig,
    RpcProvider,
};
use soroscope::form::{
    field_error, field_kind, file_error, CompareForm, CompareInput, FieldKind, FileStep,
};
use soroscope::simulation::{SimulationResult, SorobanResources, StateDependency};

fn resources() -> SorobanResources {
    SorobanResources {
        cpu_instructions: 1500,
        ram_bytes: 3000,
        ledger_read_bytes: 1024,
        ledger_write_bytes: 512,
        transaction_size_bytes: 450,
    }
}

fn simulation() -> SimulationResult {
    SimulationResult { resources: resources(), state_dependency: None }
}

fn bad_request(error: AppError) -> String {
    match error {
        AppError::BadRequest(message) => message,
        AppError::Internal(message) => panic!("internal: {}", message),
    }
}

fn internal(error: AppError) -> String {
    match error {
        AppError::Internal(message) => message,
        AppError::BadRequest(message) => panic!("bad request: {}", message),
    }
}

#[test]
fn the_settings_have_defaults() {
    let config = AppConfig::default();
    assert_eq!(config.server_port, 8080);
    assert_eq!(config.rust_log, "info");
    assert_eq!(config.soroban_rpc_url, "https://soroban-testnet.stellar.org");
    assert_eq!(config.jwt_secret, "dev-secret-change-in-production");
    assert_eq!(config.network_passphrase, "Test SDF Network ; September 2015");
    assert_eq!(config.redis_url, "redis://127.0.0.1:6379");
    assert_eq!(config.rpc_providers, "");
    assert_eq!(config.health_check_interval_secs, 30);
    assert_eq!(default_health_check_interval(), 30);
    assert_eq!(f64::from_bits(default_safety_margin().bits), 0.05);
    assert_eq!(bind_address(&config), "0.0.0.0:8080");
    assert_eq!(health_check(), "OK");
}

fn provider(name: &str) -> RpcProvider {
    RpcProvider {
        name: name.to_string(),
        url: format!("https://{}", name),
        auth_header: Some("X-API-Key".to_string()),
        auth_value: None,
    }
}

#[test]
fn listed_providers_are_taken() {
    let config = AppConfig { rpc_providers: "[..]".to_string(), ..AppConfig::default() };
    let providers = build_providers(&config, Some(vec![provider("a"), provider("b")]));
    let names: Vec<&str> = providers.iter().map(|p| p.name.as_str()).collect();
    assert_eq!(names, vec!["a", "b"]);
    assert_eq!(providers[0].auth_header.as_ref().unwrap(), "X-API-Key");
}

#[test]
fn the_primary_url_stands_in_for_missing_providers() {
    let set = AppConfig { rpc_providers: "[..]".to_string(), ..AppConfig::default() };
    let unset = AppConfig::default();
    let all = vec![
        build_providers(&set, None),
        build_providers(&set, Some(vec![])),
        build_providers(&unset, Some(vec![provider("a")])),
        build_providers(&unset, None),
    ];
    for providers in all {
        assert_eq!(providers.len(), 1);
        assert_eq!(providers[0].name, "default");
        assert_eq!(providers[0].url, "https://soroban-testnet.stellar.org");
        assert!(providers[0].auth_header.is_none() && providers[0].auth_value.is_none());
    }
}

#[test]
fn a_report_holds_resources_and_insights() {
    let result = SimulationResult {
        resources: resources(),
        state_dependency: Some(vec![
            StateDependency { key: "k1".to_string(), source: "Injected".to_string() },
            StateDependency { key: "k2".to_string(), source: "Live".to_string() },
        ]),
    };
    let found = InsightsReport {
        efficiency_score: 87,
        insights: vec![Insight {
            severity: "High".to_string(),
            rule: "r".to_string(),
            message: "m".to_string(),
            suggested_fix: "s".to_string(),
        }],
    };
    let report = to_report(&result, &found);
    assert_eq!(report.cpu_instructions, 1500);
    assert_eq!(report.ram_bytes, 3000);
    assert_eq!(report.ledger_read_bytes, 1024);
    assert_eq!(report.ledger_write_bytes, 512);
    assert_eq!(report.transaction_size_bytes, 450);
    let dependencies = report.state_dependency.unwrap();
    assert_eq!(dependencies.len(), 2);
    assert_eq!(dependencies[0].key, "k1");
    assert_eq!(dependencies[1].source, "Live");
    assert_eq!(report.nutrition.efficiency_score, 87);
    let insight = &report.nutrition.insights[0];
    assert_eq!(insight.severity, "High");
    assert_eq!(insight.rule, "r");
    assert_eq!(insight.message, "m");
    assert_eq!(insight.suggested_fix, "s");
    let bare = to_report(&simulation(), &InsightsReport { efficiency_score: 0, insights: vec![] });
    assert!(bare.state_dependency.is_none() && bare.nutrition.insights.is_empty());
}

fn analyze_request(overrides: Option<Vec<(&str, &str)>>) -> AnalyzeRequest {
    AnalyzeRequest {
        contract_id: "C".to_string(),
        function_name: "f".to_string(),
        args: Some(vec!["1".to_string()]),
        ledger_overrides: overrides.map(|entries| {
            entries.into_iter().map(|(k, v)| (k.to_string(), v.to_string())).collect()
        }),
    }
}

#[test]
fn a_kept_result_answers_a_request() {
    match look_up(Some(simulation()), &analyze_request(None)) {
        AnalyzeStep::Answer { result, cache_status } => {
            assert_eq!((result.resources, cache_status), (resources(), "HIT"));
        }
        AnalyzeStep::Simulate { .. } => panic!("a kept result was not taken"),
    }
}

#[test]
fn a_request_that_is_not_found_is_simulated() {
    match look_up(None, &analyze_request(Some(vec![("k", "v")]))) {
        AnalyzeStep::Simulate { call, ledger_overrides } => {
            assert_eq!(call.contract_id, "C");
            assert_eq!(call.function_name, "f");
            assert_eq!(call.args, vec!["1".to_string()]);
            assert_eq!(ledger_overrides.unwrap()["k"], "v");
        }
        AnalyzeStep::Answer { .. } => panic!("an answer out of nothing"),
    }
}

#[test]
fn only_a_result_is_kept() {
    let (answer, kept) = simulated(Ok(simulation()));
    let (result, cache_status) = answer.unwrap();
    assert_eq!((result.resources, cache_status), (resources(), "MISS"));
    assert_eq!(kept.unwrap().resources, resources());
    let (answer, kept) = simulated(Err("no node".to_string()));
    assert_eq!(internal(answer.unwrap_err()), "Simulation failed: no node");
    assert!(kept.is_none());
}

#[test]
fn other_overrides_have_other_keys() {
    let plain = cache_key(&analyze_request(None));
    let overridden = cache_key(&analyze_request(Some(vec![("k", "v"), ("a", "b")])));
    assert_eq!(overridden, cache_key(&analyze_request(Some(vec![("a", "b"), ("k", "v")]))));
    assert_ne!(plain, overridden);
    assert_ne!(overridden, cache_key(&analyze_request(Some(vec![("k", "w"), ("a", "b")]))));
    assert_ne!(overridden, cache_key(&analyze_request(Some(vec![("k", "v")]))));
    assert_ne!(plain, cache_key(&AnalyzeRequest { args: None, ..analyze_request(None) }));
    let entries: Vec<(String, String)> =
        overridden.ledger_overrides.clone().unwrap().into_iter().collect();
    assert_eq!(
        entries,
        vec![("a".to_string(), "b".to_string()), ("k".to_string(), "v".to_string())]
    );
    // A request with overrides is not served what was kept without them.
    let mut cache: std::collections::HashMap<CacheKey, u8> = std::collections::HashMap::new();
    cache.insert(plain, 1);
    assert!(cache.get(&overridden).is_none());
    assert_eq!(cache.get(&cache_key(&analyze_request(None))), Some(&1));
}

#[test]
fn missing_arguments_are_none() {
    let request = AnalyzeRequest {
        contract_id: "C".to_string(),
        function_name: "f".to_string(),
        args: None,
        ledger_overrides: None,
    };
    let call = analyzed_call(&request);
    assert_eq!(call.contract_id, "C");
    assert_eq!(call.function_name, "f");
    assert!(call.args.is_empty());
    let call = analyzed_call(&AnalyzeRequest { args: Some(vec!["1".to_string()]), ..request });
    assert_eq!(call.args, vec!["1".to_string()]);
}

#[test]
fn an_optimization_is_answered() {
    let report = OptimizationReport { cpu: 1u8, ram: 2u8, recommended: resources() };
    let response = optimize_limits(Ok(report)).unwrap();
    assert_eq!((response.cpu, response.ram, response.recommended), (1, 2, resources()));
    let failed: Result<OptimizationReport<u8>, String> = Err("no node".to_string());
    assert_eq!(internal(optimize_limits(failed).unwrap_err()), "no node");
}

#[test]
fn a_comparison_is_answered() {
    let report = build_report(resources(), resources());
    assert!(compared(Ok(report)).unwrap().report.regression_flags.is_empty());
    let error = compared(Err("no node".to_string())).unwrap_err();
    assert_eq!(internal(error), "Comparison failed: no node");
}

#[test]
fn fields_are_known_by_their_names() {
    assert_eq!(field_kind(Some("mode")), FieldKind::Mode);
    assert_eq!(field_kind(Some("current_wasm")), FieldKind::CurrentWasm);
    assert_eq!(field_kind(Some("base_wasm")), FieldKind::BaseWasm);
    assert_eq!(field_kind(Some("contract_id")), FieldKind::ContractId);
    assert_eq!(field_kind(Some("function_name")), FieldKind::FunctionName);
    assert_eq!(field_kind(Some("args")), FieldKind::Args);
    assert_eq!(field_kind(Some("other")), FieldKind::Unknown);
    assert_eq!(field_kind(Some("")), FieldKind::Unknown);
    assert_eq!(field_kind(None), FieldKind::Unknown);
}

#[test]
fn unreadable_fields_are_bad_requests() {
    let cases = vec![
        (FieldKind::Mode, "Invalid mode field: e"),
        (FieldKind::CurrentWasm, "Failed to read current_wasm: e"),
        (FieldKind::BaseWasm, "Failed to read base_wasm: e"),
        (FieldKind::ContractId, "Invalid contract_id: e"),
        (FieldKind::FunctionName, "Invalid function_name: e"),
        (FieldKind::Args, "Invalid args: e"),
        (FieldKind::Unknown, "Failed to read multipart field: e"),
    ];
    for (kind, message) in cases {
        assert_eq!(bad_request(field_error(kind, "e")), message);
    }
    assert_eq!(internal(file_error(FileStep::Create, "e")), "Failed to create temp file: e");
    assert_eq!(internal(file_error(FileStep::Write, "e")), "Failed to write temp file: e");
    assert_eq!(internal(file_error(FileStep::Persist, "e")), "Failed to persist temp file: e");
}

#[test]
fn two_files_are_compared_unless_another_mode_is_named() {
    for mode in [None, Some("local_vs_local")] {
        let mut form = CompareForm::new();
        if let Some(mode) = mode {
            form.take_text(FieldKind::Mode, mode.to_string());
        }
        form.take_file(FieldKind::BaseWasm, vec![2]);
        form.take_file(FieldKind::CurrentWasm, vec![9]);
        form.take_file(FieldKind::CurrentWasm, vec![1]);
        form.take_file(FieldKind::Unknown, vec![3]);
        form.take_text(FieldKind::Unknown, "x".to_string());
        match form.resolve().unwrap() {
            CompareInput::LocalVsLocal { current, base } => {
                assert_eq!((current, base), (vec![1], vec![2]));
            }
            _ => panic!("another mode"),
        }
    }
}

#[test]
fn a_file_is_compared_with_a_deployed_contract() {
    let mut form = CompareForm::new();
    form.take_text(FieldKind::Args, "[\"1\", \"a\\nb\"]".to_string());
    form.take_text(FieldKind::FunctionName, "hello".to_string());
    form.take_text(FieldKind::ContractId, "C".to_string());
    form.take_text(FieldKind::Mode, "local_vs_deployed".to_string());
    form.take_file(FieldKind::CurrentWasm, vec![1]);
    match form.resolve().unwrap() {
        CompareInput::LocalVsDeployed { current, contract_id, function_name, args } => {
            assert_eq!(current, vec![1]);
            assert_eq!(contract_id, "C");
            assert_eq!(function_name, "hello");
            assert_eq!(args, vec!["1".to_string(), "a\nb".to_string()]);
        }
        _ => panic!("another mode"),
    }
}

#[test]
fn arguments_that_cannot_be_read_are_none() {
    let mut form = CompareForm::new();
    form.take_text(FieldKind::Args, "[\"1\"]".to_string());
    assert_eq!(form.args, vec!["1".to_string()]);
    form.take_text(FieldKind::Args, "[1]".to_string());
    assert!(form.args.is_empty());
    form.take_args(Some(vec!["2".to_string()]));
    assert_eq!(form.args, vec!["2".to_string()]);
    form.take_args(None);
    assert!(form.args.is_empty());
}

#[test]
fn incomplete_forms_are_bad_requests() {
    let refused = |texts: Vec<(FieldKind, &str)>, files: Vec<FieldKind>| {
        let mut form = CompareForm::new();
        for (kind, text) in texts {
            form.take_text(kind, text.to_string());
        }
        for kind in files {
            form.take_file(kind, vec![1]);
        }
        bad_request(form.resolve().unwrap_err())
    };
    assert_eq!(refused(vec![], vec![]), "Missing current_wasm file");
    assert_eq!(refused(vec![], vec![FieldKind::CurrentWasm]), "Missing base_wasm file");
    let deployed = (FieldKind::Mode, "local_vs_deployed");
    assert_eq!(refused(vec![deployed], vec![]), "Missing current_wasm file");
    assert_eq!(refused(vec![deployed], vec![FieldKind::CurrentWasm]), "Missing contract_id");
    assert_eq!(
        refused(vec![deployed, (FieldKind::ContractId, "C")], vec![FieldKind::CurrentWasm]),
        "Missing function_name"
    );
    assert_eq!(
        refused(vec![(FieldKind::Mode, "both")], vec![FieldKind::CurrentWasm]),
        "Unknown mode 'both'. Use 'local_vs_local' or 'local_vs_deployed'"
    );
}

fn args(words: Vec<&str>) -> Vec<String> {
    words.into_iter().map(|w| w.to_string()).collect()
}

#[test]
fn the_command_line_says_what_to_do() {
    assert!(matches!(command(&args(vec![])), Command::Serve));
    assert!(matches!(command(&args(vec!["soroscope"])), Command::Serve));
    assert!(matches!(command(&args(vec!["soroscope", "serve"])), Command::Serve));
    assert!(matches!(command(&args(vec!["soroscope", "benchmark", "x"])), Command::Benchmark));
    assert!(matches!(command(&args(vec!["soroscope", "compare", "a"])), Command::CompareUsage));
    match command(&args(vec!["soroscope", "compare", "a", "b", "c"])) {
        Command::Compare { current, base } => assert_eq!((current.as_str(), base.as_str()), ("a", "b")),
        _ => panic!("no comparison"),
    }
    assert!(compare_usage().starts_with("Usage: soroscope-core compare <current.wasm> <base.wasm>\n\n"));
}

#[test]
fn missing_files_are_named() {
    assert_eq!(
        missing_file("a", false, "b", false).unwrap(),
        "Error: Current WASM file not found: a"
    );
    assert_eq!(missing_file("a", true, "b", false).unwrap(), "Error: Base WASM file not found: b");
    assert!(missing_file("a", true, "b", true).is_none());
}
