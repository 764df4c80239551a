use soroscope::double::Double;
use soroscope::jobs::{
    Job, JobError, JobId, JobPayload, JobProgress, JobResult, JobStatus, JobType, SubmitJobRequest,
    WebhookConfig,
};
use soroscope::json::{read_json, Json};
use soroscope::queue::{JobQueue, JobQueueConfig};
use soroscope::simulation::{SimulationResult, SorobanResources, StateDependency};
use soroscope::time::{Timestamp, LAST_SECOND};
use soroscope::webhook::{
    notification_request, notification_request_at, signature_header, signature_text,
    webhook_payload_at, webhook_request, DeliveryState, WebhookDelivery, WebhookReply,
};
use soroscope::worker::{JobOutcome, JobStep, JobWorker};
use std::collections::HashMap;

fn at(secs: i64) -> Timestamp {
    Timestamp { secs, nanos: 0 }
}

fn analyze_payload() -> JobPayload {
    JobPayload::Analyze {
        contract_id: "test".to_string(),
        function_name: "test".to_string(),
        args: None,
        ledger_overrides: None,
    }
}

fn empty_success() -> JobResult {
    JobResult::Success {
        resources: None,
        simulation_result: None,
        optimization: None,
        comparison: None,
    }
}

#[test]
fn test_job_id_generation() {
    let id1 = JobId::new();
    let id2 = JobId::new();
    assert_ne!(id1.0, id2.0);
}

#[test]
fn test_job_id_from_str() {
    let uuid_str = "550e8400-e29b-41d4-a716-446655440000";
    let job_id: JobId = uuid_str.parse().unwrap();
    assert_eq!(job_id.to_string(), uuid_str);
}

#[test]
fn test_job_lifecycle() {
    let mut job = Job::new(JobId::new(), JobType::Analyze, analyze_payload(), None, 300);

    assert_eq!(job.status, JobStatus::Queued);
    assert_eq!(job.progress.percent, 0);

    job.start();
    assert_eq!(job.status, JobStatus::Processing);
    assert_eq!(job.progress.percent, 10);
    assert!(job.started_at.is_some());

    job.update_progress(50, "Halfway");
    assert_eq!(job.progress.percent, 50);
    assert_eq!(job.progress.message, "Halfway");

    let result = empty_success();
    job.complete(result);
    assert_eq!(job.status, JobStatus::Completed);
    assert_eq!(job.progress.percent, 100);
    assert!(job.completed_at.is_some());
}

#[test]
fn test_job_cancel() {
    let mut job = Job::new(JobId::new(), JobType::Analyze, analyze_payload(), None, 300);

    job.cancel();
    assert_eq!(job.status, JobStatus::Cancelled);
    assert!(job.completed_at.is_some());
}

#[test]
fn test_job_fail() {
    let mut job = Job::new(JobId::new(), JobType::Analyze, analyze_payload(), None, 300);

    job.fail("Something went wrong".to_string(), "TestError".to_string());
    assert_eq!(job.status, JobStatus::Failed);
    assert_eq!(job.error_message, Some("Something went wrong".to_string()));
    assert!(job.completed_at.is_some());
}

#[test]
fn test_job_queue_submit() {
    let config = JobQueueConfig::default();
    let mut queue = JobQueue::new(config);

    let job_id = queue.submit(
        JobType::Analyze,
        JobPayload::Analyze {
            contract_id: "CDLZFC3SYJYDZT7K67VZ75HPJVIEUVNIXF47ZG2FB2RMQQVU2HHGCYSC".to_string(),
            function_name: "hello".to_string(),
            args: Some(vec![]),
            ledger_overrides: None,
        },
        None,
    );

    let status = queue.get_status(&job_id);
    assert!(status.is_some());
    assert_eq!(status.unwrap().status, JobStatus::Queued);
}

#[test]
fn test_job_queue_cancel() {
    let config = JobQueueConfig::default();
    let mut queue = JobQueue::new(config);

    let job_id = queue.submit(JobType::Analyze, analyze_payload(), None);

    let cancelled = queue.cancel(&job_id);
    assert!(cancelled.is_ok());
    assert_eq!(cancelled.unwrap().status, JobStatus::Cancelled);

    // Cannot cancel again
    let result = queue.cancel(&job_id);
    assert!(result.is_err());
}

#[test]
fn test_job_queue_not_found() {
    let config = JobQueueConfig::default();
    let mut queue = JobQueue::new(config);

    let fake_id = JobId::new();
    let result = queue.cancel(&fake_id);
    assert!(matches!(result, Err(JobError::NotFound(_))));
}

#[test]
fn identifiers_are_read_back_as_written() {
    let ids: Vec<u128> = vec![0, 1, u128::MAX, 0x0123_4567_89ab_cdef_fedc_ba98_7654_3210];
    for id in ids {
        let text = JobId(id).to_string();
        assert_eq!(text, uuid::Uuid::from_u128(id).to_string());
        assert_eq!(JobId::parse_str(&text).unwrap(), JobId(id));
    }
    assert_eq!(JobId(0xA).to_string(), "00000000-0000-0000-0000-00000000000a");
    assert!(JobId::parse_str("no identifier").is_err());
    assert!("550e8400".parse::<JobId>().is_err());
}

#[test]
fn fresh_identifiers_are_marked_as_random() {
    for _ in 0..50 {
        let id = JobId::default().0;
        assert_eq!((id >> 76) & 0xF, 4);
        assert_eq!((id >> 62) & 0x3, 2);
    }
}

#[test]
fn the_last_second_is_the_one_of_the_calendar() {
    assert_eq!(chrono::DateTime::<chrono::Utc>::MAX_UTC.timestamp(), LAST_SECOND);
}

#[test]
fn the_clock_is_read() {
    let before = chrono::Utc::now().timestamp();
    let progress = JobProgress::new(5, "now");
    let after = chrono::Utc::now().timestamp();
    assert!(before <= progress.updated_at.secs && progress.updated_at.secs <= after);
    assert!(progress.updated_at.nanos < 2_000_000_000);
    assert_eq!(progress.percent, 5);
    assert_eq!(progress.message, "now");
}

#[test]
fn each_change_is_noted_with_its_time() {
    let mut job =
        Job::new_at(JobId(9), JobType::OptimizeLimits, analyze_payload(), None, 7, at(100));
    assert_eq!(job.id, JobId(9));
    assert_eq!(job.job_type, JobType::OptimizeLimits);
    assert_eq!(job.created_at, at(100));
    assert_eq!(job.progress.message, "Queued");
    assert_eq!(job.timeout_secs, 7);
    assert!(job.result.is_none() && job.error_message.is_none());

    job.start_at(at(101));
    assert_eq!(job.started_at, Some(at(101)));
    assert_eq!(job.progress.message, "Processing started");
    assert_eq!(job.progress.updated_at, at(101));

    job.fail_at("broken".to_string(), "Kind".to_string(), at(102));
    assert_eq!(job.completed_at, Some(at(102)));
    assert_eq!(job.progress.percent, 0);
    assert_eq!(job.progress.message, "Failed");
    match &job.result {
        Some(JobResult::Failed { error, error_type }) => {
            assert_eq!(error, "broken");
            assert_eq!(error_type, "Kind");
        }
        _ => panic!("no failure"),
    }

    job.cancel_at(at(103));
    assert_eq!(job.progress.message, "Cancelled");
    assert_eq!(job.completed_at, Some(at(103)));
    job.complete_at(empty_success(), at(104));
    assert_eq!(job.progress.message, "Completed");
    assert_eq!(job.completed_at, Some(at(104)));
    assert_eq!(job.created_at, at(100));
    assert_eq!(job.started_at, Some(at(101)));
}

#[test]
fn errors_have_messages() {
    let id = JobId::parse_str("550e8400-e29b-41d4-a716-446655440000").unwrap();
    assert_eq!(
        JobError::NotFound(id).to_string(),
        "Job not found: 550e8400-e29b-41d4-a716-446655440000"
    );
    assert_eq!(
        JobError::CannotCancel(JobStatus::Completed).to_string(),
        "Job cannot be cancelled in status: Completed"
    );
    assert_eq!(
        JobError::ProcessingFailed("x".to_string()).to_string(),
        "Job processing failed: x"
    );
    assert_eq!(
        JobError::WebhookFailed("y".to_string()).to_string(),
        "Webhook delivery failed: y"
    );
    for status in [
        JobStatus::Queued,
        JobStatus::Processing,
        JobStatus::Completed,
        JobStatus::Failed,
        JobStatus::Cancelled,
    ] {
        assert_eq!(status.name(), format!("{:?}", status));
        assert_eq!(status.code(), format!("{:?}", status).to_uppercase());
    }
}

#[test]
fn the_queue_has_defaults() {
    let config = JobQueueConfig::default();
    assert_eq!(config.job_timeout_secs, 300);
    assert_eq!(config.cleanup_interval_secs, 3600);
    assert_eq!(config.retention_secs, 3600);
    assert_eq!(config.webhook_timeout_secs, 10);
    assert_eq!(config.webhook_max_retries, 3);
}

#[test]
fn a_submitted_job_is_found_as_submitted() {
    let mut queue = JobQueue::new(JobQueueConfig { job_timeout_secs: 42, ..JobQueueConfig::default() });
    let mut overrides: HashMap<String, String> = HashMap::new();
    overrides.insert("k".to_string(), "v".to_string());
    let webhook = WebhookConfig {
        callback_url: "http://localhost/hook".to_string(),
        headers: Some(overrides.clone()),
        secret: Some("s".to_string()),
    };
    let payload = JobPayload::Analyze {
        contract_id: "C".to_string(),
        function_name: "f".to_string(),
        args: Some(vec!["1".to_string()]),
        ledger_overrides: Some(overrides),
    };
    let id = queue.submit(JobType::Analyze, payload, Some(webhook));
    let job = queue.get_status(&id).unwrap();
    assert_eq!(job.id, id);
    assert_eq!(job.timeout_secs, 42);
    match &job.payload {
        JobPayload::Analyze { contract_id, function_name, args, ledger_overrides } => {
            assert_eq!(contract_id, "C");
            assert_eq!(function_name, "f");
            assert_eq!(args.clone().unwrap(), vec!["1".to_string()]);
            assert_eq!(ledger_overrides.clone().unwrap()["k"], "v");
        }
        _ => panic!("another payload"),
    }
    let hook = job.webhook.unwrap();
    assert_eq!(hook.callback_url, "http://localhost/hook");
    assert_eq!(hook.headers.unwrap()["k"], "v");
    assert_eq!(hook.secret.unwrap(), "s");
    assert!(queue.get_status(&JobId(1)).is_none());
}

#[test]
fn jobs_do_not_touch_each_other() {
    let mut queue = JobQueue::new(JobQueueConfig::default());
    for n in 0..20u128 {
        queue.submit_at(JobId(n), JobType::Compare, analyze_payload(), None, at(n as i64));
    }
    queue.update_progress(&JobId(3), 55, "half");
    queue.complete_job(&JobId(4), empty_success());
    queue.fail_job(&JobId(5), "e".to_string(), "t".to_string());
    queue.update_progress(&JobId(77), 1, "nobody");
    queue.complete_job(&JobId(77), empty_success());
    queue.fail_job(&JobId(77), "e".to_string(), "t".to_string());
    assert!(queue.get_status(&JobId(77)).is_none());
    for n in 0..20u128 {
        let job = queue.get_status(&JobId(n)).unwrap();
        assert_eq!(job.created_at, at(n as i64));
        let expected = match n {
            4 => JobStatus::Completed,
            5 => JobStatus::Failed,
            _ => JobStatus::Queued,
        };
        assert_eq!(job.status, expected);
        assert_eq!(job.progress.percent, if n == 3 { 55 } else if n == 4 { 100 } else { 0 });
    }
}

#[test]
fn ended_jobs_cannot_be_cancelled() {
    let mut queue = JobQueue::new(JobQueueConfig::default());
    for n in 0..4u128 {
        queue.submit_at(JobId(n), JobType::Analyze, analyze_payload(), None, at(0));
    }
    queue.complete_job_at(&JobId(0), empty_success(), at(1));
    queue.fail_job_at(&JobId(1), "e".to_string(), "t".to_string(), at(1));
    let started = queue.start_job_at(&JobId(2), at(1)).unwrap();
    assert_eq!(started.status, JobStatus::Processing);
    assert!(matches!(
        queue.cancel_at(&JobId(0), at(2)),
        Err(JobError::CannotCancel(JobStatus::Completed))
    ));
    assert!(matches!(
        queue.cancel_at(&JobId(1), at(2)),
        Err(JobError::CannotCancel(JobStatus::Failed))
    ));
    let cancelled = queue.cancel_at(&JobId(2), at(2)).unwrap();
    assert_eq!(cancelled.completed_at, Some(at(2)));
    assert!(matches!(
        queue.cancel_at(&JobId(2), at(3)),
        Err(JobError::CannotCancel(JobStatus::Cancelled))
    ));
    assert_eq!(queue.get_status(&JobId(2)).unwrap().completed_at, Some(at(2)));
    assert!(matches!(queue.cancel_at(&JobId(8), at(3)), Err(JobError::NotFound(JobId(8)))));
    assert!(queue.start_job_at(&JobId(8), at(3)).is_none());
}

#[test]
fn old_jobs_are_cleaned_up() {
    let mut queue = JobQueue::new(JobQueueConfig { retention_secs: 10, ..JobQueueConfig::default() });
    for n in 0..6u128 {
        queue.submit_at(JobId(n), JobType::Analyze, analyze_payload(), None, at(0));
    }
    queue.complete_job_at(&JobId(0), empty_success(), at(100));
    queue.fail_job_at(&JobId(1), "e".to_string(), "t".to_string(), at(100));
    queue.cancel_at(&JobId(2), at(100)).unwrap();
    queue.complete_job_at(&JobId(3), empty_success(), at(101));
    queue.start_job_at(&JobId(4), at(1));

    // Ten seconds are not more than ten seconds.
    assert!(queue.cleanup_at(Timestamp { secs: 110, nanos: 999_999_999 }).is_empty());
    let mut removed: Vec<u128> = queue.cleanup_at(at(111)).iter().map(|id| id.0).collect();
    removed.sort();
    assert_eq!(removed, vec![0, 1, 2]);
    assert!(queue.cleanup_at(at(111)).is_empty());
    assert!(queue.get_status(&JobId(0)).is_none());
    assert!(queue.get_status(&JobId(3)).is_some());
    // What waits or runs is never too old.
    assert_eq!(queue.cleanup().len(), 1);
    assert!(queue.get_status(&JobId(4)).is_some());
    assert!(queue.get_status(&JobId(5)).is_some());
}

#[test]
fn nothing_is_cleaned_up_under_an_endless_retention() {
    let mut queue =
        JobQueue::new(JobQueueConfig { retention_secs: u64::MAX, ..JobQueueConfig::default() });
    queue.submit_at(JobId(0), JobType::Analyze, analyze_payload(), None, at(0));
    queue.complete_job_at(&JobId(0), empty_success(), at(0));
    assert!(queue.cleanup_at(at(LAST_SECOND)).is_empty());
    // An end in the future is no age.
    let mut queue = JobQueue::new(JobQueueConfig { retention_secs: 0, ..JobQueueConfig::default() });
    queue.submit_at(JobId(0), JobType::Analyze, analyze_payload(), None, at(0));
    queue.complete_job_at(&JobId(0), empty_success(), at(500));
    assert!(queue.cleanup_at(at(10)).is_empty());
    assert!(queue.cleanup_at(at(500)).is_empty());
    assert_eq!(queue.cleanup_at(at(501)).len(), 1);
}

fn simulated() -> SimulationResult {
    SimulationResult {
        resources: SorobanResources {
            cpu_instructions: 1500,
            ram_bytes: 3000,
            ledger_read_bytes: 1024,
            ledger_write_bytes: 512,
            transaction_size_bytes: 450,
        },
        state_dependency: Some(vec![StateDependency {
            key: "k".to_string(),
            source: "Live".to_string(),
        }]),
    }
}

#[test]
fn an_analysis_is_carried_out() {
    let worker = JobWorker::new(JobQueueConfig::default());
    let mut queue = JobQueue::new(JobQueueConfig::default());
    let webhook = WebhookConfig { callback_url: "u".to_string(), headers: None, secret: None };
    queue.submit_at(JobId(1), JobType::Analyze, analyze_payload(), Some(webhook), at(0));
    let job = queue.start_job_at(&JobId(1), at(1)).unwrap();
    match JobWorker::process_job(&mut queue, &job, at(2)) {
        JobStep::Simulate { contract_id, function_name, args, ledger_overrides } => {
            assert_eq!(contract_id, "test");
            assert_eq!(function_name, "test");
            assert!(args.is_empty());
            assert!(ledger_overrides.is_none());
        }
        _ => panic!("no simulation"),
    }
    let progress = queue.get_status(&JobId(1)).unwrap().progress;
    assert_eq!((progress.percent, progress.message.as_str()), (30, "Running simulation"));

    let found = JobWorker::simulated(&mut queue, &JobId(1), Ok(simulated()), at(3)).unwrap();
    let progress = queue.get_status(&JobId(1)).unwrap().progress;
    assert_eq!((progress.percent, progress.message.as_str()), (70, "Generating insights"));

    let result = JobWorker::process_analyze_job(&mut queue, &JobId(1), found, at(4));
    let progress = queue.get_status(&JobId(1)).unwrap().progress;
    assert_eq!((progress.percent, progress.message.as_str()), (90, "Finalizing results"));

    let notice =
        worker.conclude(&mut queue, &job, JobOutcome::Finished(result), at(5)).unwrap();
    assert_eq!(notice.job_id, JobId(1));
    assert_eq!(notice.status, JobStatus::Completed);
    assert_eq!(notice.webhook.callback_url, "u");
    assert_eq!(notice.timeout_secs, 10);
    assert_eq!(notice.max_retries, 3);
    assert!(notice.result.is_some());
    let ended = queue.get_status(&JobId(1)).unwrap();
    assert_eq!(ended.status, JobStatus::Completed);
    assert_eq!(ended.completed_at, Some(at(5)));
    match ended.result {
        Some(JobResult::Success { resources, simulation_result, optimization, comparison }) => {
            assert_eq!(resources.unwrap().cpu_instructions, 1500);
            let kept = simulation_result.unwrap();
            assert_eq!(kept.resources, simulated().resources);
            assert_eq!(kept.state_dependency.unwrap()[0].source, "Live");
            assert!(optimization.is_none() && comparison.is_none());
        }
        _ => panic!("no result"),
    }
}

#[test]
fn a_failed_simulation_fails_the_job() {
    let worker = JobWorker::new(JobQueueConfig::default());
    let mut queue = JobQueue::new(JobQueueConfig::default());
    queue.submit_at(JobId(1), JobType::Analyze, analyze_payload(), None, at(0));
    let job = queue.start_job_at(&JobId(1), at(1)).unwrap();
    JobWorker::process_job(&mut queue, &job, at(2));
    let error =
        JobWorker::simulated(&mut queue, &JobId(1), Err("no node".to_string()), at(3)).unwrap_err();
    assert_eq!(queue.get_status(&JobId(1)).unwrap().progress.percent, 30);
    assert!(worker.conclude(&mut queue, &job, JobOutcome::Failed(error), at(4)).is_none());
    let ended = queue.get_status(&JobId(1)).unwrap();
    assert_eq!(ended.status, JobStatus::Failed);
    assert_eq!(ended.error_message.unwrap(), "no node");
    match ended.result {
        Some(JobResult::Failed { error_type, .. }) => assert_eq!(error_type, "ProcessingError"),
        _ => panic!("no failure"),
    }
}

#[test]
fn a_job_can_run_out_of_time() {
    let worker = JobWorker::new(JobQueueConfig::default());
    let mut queue = JobQueue::new(JobQueueConfig { job_timeout_secs: 17, ..JobQueueConfig::default() });
    let webhook = WebhookConfig { callback_url: "u".to_string(), headers: None, secret: None };
    queue.submit_at(JobId(1), JobType::Analyze, analyze_payload(), Some(webhook), at(0));
    let job = queue.start_job_at(&JobId(1), at(1)).unwrap();
    let notice = worker.conclude(&mut queue, &job, JobOutcome::TimedOut, at(20)).unwrap();
    assert_eq!(notice.status, JobStatus::Failed);
    assert!(notice.result.is_none());
    let ended = queue.get_status(&JobId(1)).unwrap();
    assert_eq!(ended.error_message.unwrap(), "Job timed out after 17 seconds");
    match ended.result {
        Some(JobResult::Failed { error_type, .. }) => assert_eq!(error_type, "Timeout"),
        _ => panic!("no failure"),
    }
}

#[test]
fn an_optimization_is_carried_out() {
    let mut queue = JobQueue::new(JobQueueConfig::default());
    let payload = JobPayload::OptimizeLimits {
        contract_id: "C".to_string(),
        function_name: "f".to_string(),
        args: vec!["a".to_string()],
        safety_margin: Double { bits: 0.05f64.to_bits() },
    };
    queue.submit_at(JobId(2), JobType::OptimizeLimits, payload, None, at(0));
    let job = queue.start_job_at(&JobId(2), at(1)).unwrap();
    match JobWorker::process_job(&mut queue, &job, at(2)) {
        JobStep::Optimize { contract_id, function_name, args, safety_margin } => {
            assert_eq!(contract_id, "C");
            assert_eq!(function_name, "f");
            assert_eq!(args, vec!["a".to_string()]);
            assert_eq!(f64::from_bits(safety_margin.bits), 0.05);
        }
        _ => panic!("no optimization"),
    }
    let progress = queue.get_status(&JobId(2)).unwrap().progress;
    assert_eq!((progress.percent, progress.message.as_str()), (30, "Running optimization"));

    let failed =
        JobWorker::process_optimize_job(&mut queue, &JobId(2), Err("no node".to_string()), at(3));
    assert_eq!(failed.unwrap_err(), "no node");
    assert_eq!(queue.get_status(&JobId(2)).unwrap().progress.percent, 30);

    let unwritten =
        JobWorker::process_optimize_job(&mut queue, &JobId(2), Ok(Err("bad".to_string())), at(3));
    assert_eq!(unwritten.unwrap_err(), "bad");
    assert_eq!(queue.get_status(&JobId(2)).unwrap().progress.percent, 90);

    let report = read_json("{\"cpu\": 1}").unwrap();
    match JobWorker::process_optimize_job(&mut queue, &JobId(2), Ok(Ok(report)), at(4)).unwrap() {
        JobResult::Success { resources, simulation_result, optimization, comparison } => {
            assert!(resources.is_none() && simulation_result.is_none() && comparison.is_none());
            assert!(matches!(optimization, Some(Json::Object(_))));
        }
        _ => panic!("no result"),
    }
}

fn member<'a>(json: &'a Json, key: &str) -> &'a Json {
    match json {
        Json::Object(members) => &members.iter().find(|m| m.key == key).unwrap().value,
        _ => panic!("no object"),
    }
}

fn text_of(json: &Json) -> &str {
    match json {
        Json::String(text) => text,
        _ => panic!("no text"),
    }
}

#[test]
fn a_comparison_is_only_remarked_on() {
    let mut queue = JobQueue::new(JobQueueConfig::default());
    let payload = JobPayload::Compare {
        mode: "local_vs_local".to_string(),
        current_wasm: Some(vec![0]),
        base_wasm: None,
        contract_id: None,
        function_name: None,
        args: vec![],
    };
    queue.submit_at(JobId(3), JobType::Compare, payload, None, at(0));
    let job = queue.start_job_at(&JobId(3), at(1)).unwrap();
    match JobWorker::process_job(&mut queue, &job, at(2)) {
        JobStep::Finish(JobResult::Success { comparison: Some(remark), .. }) => {
            assert_eq!(text_of(member(&remark, "mode")), "local_vs_local");
            assert_eq!(
                text_of(member(&remark, "status")),
                "Compare jobs not yet fully implemented"
            );
        }
        _ => panic!("no remark"),
    }
    assert_eq!(queue.get_status(&JobId(3)).unwrap().progress.percent, 10);
}

#[test]
fn a_notification_is_written() {
    let now = Timestamp { secs: 1_700_000_000, nanos: 250_000_000 };
    let result = serde_json::from_str::<serde_json::Value>("{\"b\": [1, 0.1], \"a\": null}").unwrap();
    let payload = webhook_payload_at(&JobId(0xA), JobStatus::Completed, Some(result.clone()), now);
    assert_eq!(payload["job_id"], "00000000-0000-0000-0000-00000000000a");
    assert_eq!(payload["status"], "COMPLETED");
    assert_eq!(payload["timestamp"], "2023-11-14T22:13:20.250+00:00");
    assert_eq!(payload["result"], result);
    assert_eq!(payload.as_object().unwrap().len(), 4);

    let request =
        notification_request_at(&hook(None), &JobId(0xA), JobStatus::Failed, None, now);
    assert_eq!(
        request.body,
        "{\"job_id\":\"00000000-0000-0000-0000-00000000000a\",\"result\":null,\"status\":\"FAILED\",\"timestamp\":\"2023-11-14T22:13:20.250+00:00\"}"
    );
    assert!(request.signature.is_none());
}

#[test]
fn the_signature_is_that_of_the_notification() {
    let webhook = hook(Some("key"));
    let result = serde_json::Value::from("a \"quoted\" text");
    let request =
        notification_request(&webhook, &JobId(1), JobStatus::Completed, Some(result.clone()));
    assert_eq!(request.url, "http://localhost/hook");
    let body = serde_json::from_str::<serde_json::Value>(&request.body).unwrap();
    assert_eq!(body["result"], result);
    assert_eq!(body["status"], "COMPLETED");
    assert!(chrono::DateTime::parse_from_rfc3339(body["timestamp"].as_str().unwrap()).is_ok());
    let signed = webhook_request(&webhook, request.body.clone());
    assert_eq!(request.signature, signed.signature);
}

fn answered(code: u16) -> WebhookReply {
    WebhookReply::Answered { code, status: format!("{} text", code) }
}

#[test]
fn a_delivery_is_tried_again() {
    let mut delivery = WebhookDelivery::new(3);
    assert!(matches!(delivery.state(), DeliveryState::Attempting { attempt: 1 }));
    assert_eq!(delivery.reply(answered(500)), Some(1000));
    assert!(matches!(delivery.state(), DeliveryState::Attempting { attempt: 2 }));
    assert_eq!(delivery.reply(WebhookReply::Unreachable("refused".to_string())), Some(2000));
    assert_eq!(delivery.reply(answered(204)), None);
    assert!(matches!(delivery.state(), DeliveryState::Delivered { attempt: 3 }));
    // Nothing more happens.
    assert_eq!(delivery.reply(answered(500)), None);
    assert!(matches!(delivery.state(), DeliveryState::Delivered { attempt: 3 }));
}

#[test]
fn a_delivery_is_given_up() {
    let mut delivery = WebhookDelivery::new(2);
    assert_eq!(delivery.reply(WebhookReply::Unreachable("first".to_string())), Some(1000));
    assert_eq!(delivery.reply(answered(404)), None);
    match delivery.state() {
        DeliveryState::GivenUp { last_error } => {
            assert_eq!(last_error.as_ref().unwrap(), "HTTP 404 text");
        }
        _ => panic!("not given up"),
    }
    let delivery = WebhookDelivery::new(0);
    assert!(matches!(delivery.state(), DeliveryState::GivenUp { last_error: None }));
    let mut delivery = WebhookDelivery::new(1);
    assert_eq!(delivery.reply(WebhookReply::Unreachable("only".to_string())), None);
    match delivery.state() {
        DeliveryState::GivenUp { last_error } => assert_eq!(last_error.as_ref().unwrap(), "only"),
        _ => panic!("not given up"),
    }
}

#[test]
fn waits_double() {
    let mut delivery = WebhookDelivery::new(100);
    let mut expected: u64 = 1000;
    for attempt in 1..=55u32 {
        assert_eq!(delivery.reply(answered(503)), Some(expected));
        if attempt < 55 {
            expected *= 2;
        }
    }
    assert_eq!(expected, 1000 * 2u64.pow(54));
}

#[test]
fn success_is_a_code_of_the_two_hundreds() {
    for (code, success) in [(199, false), (200, true), (299, true), (300, false), (100, false)] {
        let mut delivery = WebhookDelivery::new(1);
        delivery.reply(answered(code));
        assert_eq!(matches!(delivery.state(), DeliveryState::Delivered { .. }), success);
    }
}

#[test]
fn progress_is_a_percentage() {
    assert_eq!(JobProgress::new(200, "x").percent, 100);
    assert_eq!(JobProgress::new_at(101, "x", at(1)).percent, 100);
    assert_eq!(JobProgress::new_at(100, "x", at(1)).percent, 100);
    assert_eq!(JobProgress::new_at(99, "x", at(1)).percent, 99);
    let mut queue = JobQueue::new(JobQueueConfig::default());
    queue.submit_at(JobId(1), JobType::Analyze, analyze_payload(), None, at(0));
    queue.update_progress(&JobId(1), u8::MAX, "x");
    assert_eq!(queue.get_status(&JobId(1)).unwrap().progress.percent, 100);
}

#[test]
fn a_job_that_was_cancelled_is_not_carried_out() {
    let mut queue = JobQueue::new(JobQueueConfig::default());
    queue.submit_at(JobId(1), JobType::Analyze, analyze_payload(), None, at(0));
    queue.cancel_at(&JobId(1), at(1)).unwrap();
    assert!(queue.start_job_at(&JobId(1), at(2)).is_none());
    let job = queue.get_status(&JobId(1)).unwrap();
    assert_eq!(job.status, JobStatus::Cancelled);
    assert_eq!(job.completed_at, Some(at(1)));
    assert!(job.started_at.is_none() && job.result.is_none());
}

#[test]
fn a_job_that_is_cancelled_while_it_runs_stays_cancelled() {
    for outcome in [
        JobOutcome::Finished(empty_success()),
        JobOutcome::Failed("late".to_string()),
        JobOutcome::TimedOut,
    ] {
        let worker = JobWorker::new(JobQueueConfig::default());
        let mut queue = JobQueue::new(JobQueueConfig::default());
        let webhook = WebhookConfig { callback_url: "u".to_string(), headers: None, secret: None };
        queue.submit_at(JobId(1), JobType::Analyze, analyze_payload(), Some(webhook), at(0));
        let job = queue.start_job_at(&JobId(1), at(1)).unwrap();
        JobWorker::process_job(&mut queue, &job, at(2));
        queue.cancel_at(&JobId(1), at(3)).unwrap();
        JobWorker::simulated(&mut queue, &JobId(1), Ok(simulated()), at(4)).unwrap();
        assert!(worker.conclude(&mut queue, &job, outcome, at(5)).is_none());
        let ended = queue.get_status(&JobId(1)).unwrap();
        assert_eq!(ended.status, JobStatus::Cancelled);
        assert_eq!(ended.completed_at, Some(at(3)));
        assert!(ended.result.is_none() && ended.error_message.is_none());
    }
}

#[test]
fn a_job_that_was_not_cancelled_can_be_started_again() {
    let mut queue = JobQueue::new(JobQueueConfig::default());
    queue.submit_at(JobId(1), JobType::Analyze, analyze_payload(), None, at(0));
    assert!(queue.start_job_at(&JobId(1), at(1)).is_some());
    assert!(queue.start_job_at(&JobId(1), at(2)).is_some());
    queue.complete_job_at(&JobId(1), empty_success(), at(3));
    let again = queue.start_job_at(&JobId(1), at(4)).unwrap();
    assert_eq!(again.status, JobStatus::Processing);
    assert_eq!(again.started_at, Some(at(4)));
    assert_eq!(queue.get_status(&JobId(1)).unwrap().status, JobStatus::Processing);
}

#[test]
fn one_job_does_not_change_how_another_is_handled() {
    let worker = JobWorker::new(JobQueueConfig::default());
    let handle = |queue: &mut JobQueue, id: JobId| {
        if let Some(job) = queue.start_job_at(&id, at(1)) {
            JobWorker::process_job(queue, &job, at(2));
            worker.conclude(queue, &job, JobOutcome::Failed("e".to_string()), at(3));
        }
    };
    let mut alone = JobQueue::new(JobQueueConfig::default());
    alone.submit_at(JobId(2), JobType::Analyze, analyze_payload(), None, at(0));
    handle(&mut alone, JobId(2));
    let mut mixed = JobQueue::new(JobQueueConfig::default());
    mixed.submit_at(JobId(1), JobType::Analyze, analyze_payload(), None, at(0));
    mixed.submit_at(JobId(2), JobType::Analyze, analyze_payload(), None, at(0));
    handle(&mut mixed, JobId(9));
    handle(&mut mixed, JobId(1));
    handle(&mut mixed, JobId(2));
    assert!(mixed.get_status(&JobId(9)).is_none());
    assert_eq!(
        format!("{:?}", mixed.get_status(&JobId(2)).unwrap()),
        format!("{:?}", alone.get_status(&JobId(2)).unwrap())
    );
}

#[test]
fn a_custom_timeout_overrides_the_default() {
    let mut queue = JobQueue::new(JobQueueConfig { job_timeout_secs: 42, ..JobQueueConfig::default() });
    for (asked, expected) in [(Some(7), 7), (None, 42)] {
        let id = queue.submit_request(SubmitJobRequest {
            job_type: JobType::Analyze,
            payload: analyze_payload(),
            webhook: None,
            timeout_secs: asked,
        });
        assert_eq!(queue.get_status(&id).unwrap().timeout_secs, expected);
    }
}

fn hook(secret: Option<&str>) -> WebhookConfig {
    let mut headers: HashMap<String, String> = HashMap::new();
    headers.insert("X-Custom".to_string(), "1".to_string());
    WebhookConfig {
        callback_url: "http://localhost/hook".to_string(),
        headers: Some(headers),
        secret: secret.map(|s| s.to_string()),
    }
}

#[test]
fn a_request_is_signed_with_the_secret() {
    let request =
        webhook_request(&hook(Some("my secret and secure key")), "input message".to_string());
    assert_eq!(request.url, "http://localhost/hook");
    assert_eq!(request.headers.unwrap()["X-Custom"], "1");
    assert_eq!(request.body, "input message");
    assert_eq!(
        request.signature.unwrap(),
        "sha256=97d2a569059bbcd8ead4444ff99071f4c01d005bcefe0d3567e1be628e5fdcd9"
    );
    let other = webhook_request(&hook(Some("another key")), "input message".to_string());
    assert_ne!(
        other.signature.unwrap(),
        "sha256=97d2a569059bbcd8ead4444ff99071f4c01d005bcefe0d3567e1be628e5fdcd9"
    );
    // A key of any length will do.
    assert!(webhook_request(&hook(Some("")), "".to_string()).signature.is_some());
    assert!(webhook_request(&hook(Some(&"k".repeat(500))), "".to_string()).signature.is_some());
    assert!(webhook_request(&hook(None), "input message".to_string()).signature.is_none());
    assert_eq!(signature_text(&vec![0x00, 0xf9, 0xb4]), "sha256=00f9b4");
    assert_eq!(signature_header(), "X-Webhook-Signature");
}
