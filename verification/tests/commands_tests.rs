use rust_indexer::application::chunking::ChunkingOptions;
use rust_indexer::application::protocol::EventPayload;
use rust_indexer::cli::commands::{
    ack_reply, dispatch_line, job_failed_events, plan_command, resume_reply, CommandPlan, CommandRequest,
    FileSource, GitRange, RequestOptions, RequestPayload,
};
use rust_indexer::infra::backpressure::{BackpressureConfig, BackpressureMonitor};

fn no_options() -> RequestOptions {
    RequestOptions { max_concurrency: None, extract_imports: None, extract_calls: None, chunking: None, backpressure: None }
}

fn payload(path: Option<&str>) -> RequestPayload {
    RequestPayload {
        path: path.map(|p| p.to_string()),
        options: no_options(),
        use_git: None,
        git_range: None,
        files: None,
        count: None,
    }
}

fn request(command: &str, job_id: Option<&str>, payload: Option<RequestPayload>) -> CommandRequest {
    CommandRequest { command: command.to_string(), job_id: job_id.map(|j| j.to_string()), payload }
}

fn failure_of(plan: CommandPlan) -> (String, String) {
    match plan {
        CommandPlan::Emit(events) => match &events[0].payload {
            Some(EventPayload::Failure { code, message, .. }) => (code.clone(), message.clone()),
            other => panic!("not a failure: {:?}", other),
        },
        other => panic!("not an emission: {:?}", other),
    }
}

#[test]
fn unparsable_lines_are_answered_with_an_error() {
    let ev = dispatch_line(None).unwrap();
    assert_eq!(ev.event, "error");
    match ev.payload {
        Some(EventPayload::Failure { code, message, recoverable }) => {
            assert_eq!(code, "INVALID_COMMAND");
            assert_eq!(message, "failed to parse command");
            assert_eq!(recoverable, Some(false));
        }
        other => panic!("unexpected payload {:?}", other),
    }
}

#[test]
fn list_languages_is_answered_by_the_dispatcher() {
    let req = request("list_languages", None, None);
    let ev = dispatch_line(Some(&req)).unwrap();
    assert_eq!(ev.event, "capabilities");
    match ev.payload {
        Some(EventPayload::Capabilities { version, languages, features }) => {
            assert_eq!(version, "0.1.0");
            assert_eq!(languages, vec!["rust", "go", "python", "typescript", "javascript", "java"]);
            assert_eq!(features, vec!["jsonl", "incremental_index", "git_diff", "pause_resume", "mcp_compatible"]);
        }
        other => panic!("unexpected payload {:?}", other),
    }
    assert!(dispatch_line(Some(&request("index_path", None, None))).is_none());
}

#[test]
fn index_path_without_payload_is_refused() {
    let plan = plan_command(&request("index_path", Some("j1"), None), 4, &vec![]);
    assert_eq!(failure_of(plan), ("INVALID_PAYLOAD".to_string(), "missing payload for index_path".to_string()));
}

#[test]
fn index_path_without_path_is_refused() {
    let plan = plan_command(&request("incremental_index", Some("j1"), Some(payload(Some("")))), 4, &vec![]);
    assert_eq!(failure_of(plan), ("INVALID_PAYLOAD".to_string(), "missing path in payload".to_string()));
}

#[test]
fn index_path_starts_a_job_with_defaults() {
    let plan = plan_command(&request("index_path", None, Some(payload(Some("/src")))), 4, &vec![]);
    match plan {
        CommandPlan::StartJob(job) => {
            assert_eq!(job.job_id, "job-unknown");
            assert_eq!(job.path, "/src");
            assert!(matches!(job.files, FileSource::Walk));
            assert_eq!(job.options.max_concurrency, 4);
            assert!(job.options.extract_imports);
            assert!(job.options.extract_calls);
            assert_eq!(job.options.chunking, ChunkingOptions::default());
            assert!(job.options.backpressure.is_none());
            assert!(job.options.explicit_files.is_none());
        }
        other => panic!("unexpected plan {:?}", other),
    }
}

#[test]
fn incremental_index_chooses_its_files() {
    let mut p = payload(Some("/repo"));
    p.files = Some(vec!["a.rs".to_string(), "b.rs".to_string()]);
    p.options.max_concurrency = Some(2);
    p.options.backpressure = Some(BackpressureConfig::default());
    match plan_command(&request("incremental_index", Some("j2"), Some(p)), 8, &vec![]) {
        CommandPlan::StartJob(job) => {
            assert_eq!(job.job_id, "j2");
            assert_eq!(job.options.max_concurrency, 2);
            assert_eq!(job.options.explicit_files, Some(vec!["a.rs".to_string(), "b.rs".to_string()]));
            assert!(matches!(job.files, FileSource::Explicit(ref v) if v.len() == 2));
            assert_eq!(job.options.backpressure, Some(BackpressureConfig::default()));
        }
        other => panic!("unexpected plan {:?}", other),
    }

    let mut p = payload(Some("/repo"));
    p.use_git = Some(true);
    p.git_range = Some(GitRange { from: Some("HEAD~1".into()), to: Some("HEAD".into()) });
    match plan_command(&request("incremental_index", Some("j3"), Some(p)), 8, &vec![]) {
        CommandPlan::StartJob(job) => match job.files {
            FileSource::GitDiff { from, to } => {
                assert_eq!(from, "HEAD~1");
                assert_eq!(to, "HEAD");
            }
            other => panic!("unexpected source {:?}", other),
        },
        other => panic!("unexpected plan {:?}", other),
    }

    let mut p = payload(Some("/repo"));
    p.use_git = Some(true);
    p.git_range = Some(GitRange { from: Some("HEAD~1".into()), to: None });
    match plan_command(&request("incremental_index", Some("j4"), Some(p)), 8, &vec![]) {
        CommandPlan::StartJob(job) => assert!(matches!(job.files, FileSource::GitTracked)),
        other => panic!("unexpected plan {:?}", other),
    }
}

#[test]
fn dry_run_and_unknown_commands() {
    match plan_command(&request("dry_run", Some("j"), None), 1, &vec![]) {
        CommandPlan::Emit(events) => {
            assert_eq!(events[0].event, "job_progress");
            assert_eq!(events[0].payload, Some(EventPayload::JobProgress { processed_files: 0, total_files: 0 }));
        }
        other => panic!("unexpected plan {:?}", other),
    }
    let plan = plan_command(&request("frobnicate", None, None), 1, &vec![]);
    assert_eq!(failure_of(plan), ("INVALID_COMMAND".to_string(), "unknown command: frobnicate".to_string()));
}

#[test]
fn resume_and_ack_need_a_job() {
    assert!(matches!(plan_command(&request("resume", None, None), 1, &vec![]), CommandPlan::Ignore));
    assert!(matches!(plan_command(&request("ack", None, None), 1, &vec![]), CommandPlan::Ignore));
    match plan_command(&request("resume", Some("j"), None), 1, &vec![]) {
        CommandPlan::Resume { job_id } => assert_eq!(job_id, "j"),
        other => panic!("unexpected plan {:?}", other),
    }
    let mut p = payload(None);
    p.count = Some(5);
    match plan_command(&request("ack", Some("j"), Some(p)), 1, &vec![]) {
        CommandPlan::Ack { job_id, count } => {
            assert_eq!(job_id, "j");
            assert_eq!(count, 5);
        }
        other => panic!("unexpected plan {:?}", other),
    }
    match plan_command(&request("ack", Some("j"), None), 1, &vec![]) {
        CommandPlan::Ack { count, .. } => assert_eq!(count, 1),
        other => panic!("unexpected plan {:?}", other),
    }
}

#[test]
fn list_languages_names_the_registered_languages() {
    let langs = vec!["go".to_string(), "rust".to_string()];
    match plan_command(&request("list_languages", None, None), 1, &langs) {
        CommandPlan::Emit(events) => match &events[0].payload {
            Some(EventPayload::Capabilities { languages, .. }) => assert_eq!(languages, &langs),
            other => panic!("unexpected payload {:?}", other),
        },
        other => panic!("unexpected plan {:?}", other),
    }
}

#[test]
fn acks_drain_the_queue_and_resume() {
    let config = BackpressureConfig::with_max_queue_size(10).unwrap();
    let mut m = BackpressureMonitor::new(config, 10, Some("j".into())).unwrap();
    assert!(m.check_and_maybe_pause(0).is_some());
    let replies = ack_reply("j", 1, &mut m);
    assert_eq!(replies.len(), 1);
    assert!(m.is_paused());
    let replies = ack_reply("j", 5, &mut m);
    assert_eq!(replies.len(), 2);
    assert_eq!(replies[0].event, "resume");
    assert_eq!(replies[1].event, "ack");
    assert_eq!(
        replies[1].payload,
        Some(EventPayload::Ack { status: "ok".into(), count: 5, current_queue_size: 4, paused: false })
    );
    assert!(!m.is_paused());
}

#[test]
fn forced_resume_empties_the_queue() {
    let config = BackpressureConfig::with_max_queue_size(10).unwrap();
    let mut m = BackpressureMonitor::new(config, 12, Some("j".into())).unwrap();
    assert!(m.check_and_maybe_pause(0).is_some());
    let reply = resume_reply("j", &mut m);
    assert_eq!(reply.event, "ack_resume");
    assert_eq!(reply.payload, Some(EventPayload::AckResume { status: "ok".into(), queue_size: 0, paused: false }));
    assert_eq!(m.current_queue_size(), 0);
}

#[test]
fn failed_jobs_report_an_error_then_completion() {
    let events = job_failed_events("j", "GIT_ERROR", "git diff failed".to_string());
    assert_eq!(events.len(), 2);
    assert_eq!(events[0].event, "error");
    assert_eq!(events[1].event, "job_completed");
    assert_eq!(events[1].payload, Some(EventPayload::JobCompleted { processed: 0, duration_ms: 0, errors: Some(1) }));
}

#[test]
fn dispatch_list_languages_returns_true() {
    let cmd = request("list_languages", None, None);
    let handled = dispatch_line(Some(&cmd)).is_some();
    assert!(handled, "list_languages should be handled by dispatcher");
}

#[test]
fn dispatch_unknown_returns_false() {
    let cmd = request("unknown_cmd", None, None);
    let handled = dispatch_line(Some(&cmd)).is_some();
    assert!(!handled, "unknown commands should not be handled by dispatcher");
}

#[test]
fn dispatch_invalid_json_returns_true() {
    let handled = dispatch_line(None).is_some();
    assert!(handled, "invalid json should be handled (emit error)");
}

#[test]
fn dispatch_cmd_struct_works() {
    let cmd = CommandRequest { command: "list_languages".into(), job_id: None, payload: None };
    assert!(dispatch_line(Some(&cmd)).is_some());
}

#[test]
fn index_path_missing_payload_emits_error() {
    let cmd = request("index_path", Some("job-invalid-1"), None);
    assert!(dispatch_line(Some(&cmd)).is_none());
    let (code, message) = failure_of(plan_command(&cmd, 1, &vec![]));
    assert_eq!(code, "INVALID_PAYLOAD");
    assert_eq!(message, "missing payload for index_path");
}

#[test]
fn index_path_missing_path_emits_error() {
    let mut p = payload(None);
    p.options.max_concurrency = Some(1);
    let cmd = request("index_path", Some("job-invalid-2"), Some(p));
    assert!(dispatch_line(Some(&cmd)).is_none());
    let (code, message) = failure_of(plan_command(&cmd, 1, &vec![]));
    assert_eq!(code, "INVALID_PAYLOAD");
    assert_eq!(message, "missing path in payload");
}

#[test]
fn index_path_dispatch_handled_by_cli() {
    let mut p = payload(Some("."));
    p.options.max_concurrency = Some(1);
    let cmd = request("index_path", Some("job-ix-1"), Some(p));
    assert!(dispatch_line(Some(&cmd)).is_none());
    assert!(matches!(plan_command(&cmd, 4, &vec![]), CommandPlan::StartJob(_)));
}

#[test]
fn incremental_index_aliases_to_index_path() {
    let mut p = payload(Some("."));
    p.files = Some(vec!["src/lib.rs".to_string()]);
    let cmd = request("incremental_index", Some("job-ix-2"), Some(p));
    assert!(dispatch_line(Some(&cmd)).is_none());
    match plan_command(&cmd, 4, &vec![]) {
        CommandPlan::StartJob(job) => {
            assert_eq!(job.path, ".");
            assert_eq!(job.options.explicit_files, Some(vec!["src/lib.rs".to_string()]));
        }
        other => panic!("unexpected plan {:?}", other),
    }
}

#[test]
fn handle_command_list_languages_emits_capabilities() {
    let langs = vec!["rust".to_string()];
    match plan_command(&request("list_languages", None, None), 1, &langs) {
        CommandPlan::Emit(events) => {
            assert_eq!(events.len(), 1);
            assert_eq!(events[0].event, "capabilities");
        }
        other => panic!("unexpected plan {:?}", other),
    }
}

#[test]
fn handle_command_index_path_missing_payload_no_panic() {
    let plan = plan_command(&request("index_path", Some("job-ut-2"), None), 1, &vec![]);
    assert_eq!(failure_of(plan).0, "INVALID_PAYLOAD");
}

#[test]
fn handle_command_index_path_missing_path_no_panic() {
    let plan = plan_command(&request("index_path", Some("job-ut-3"), Some(payload(None))), 1, &vec![]);
    assert_eq!(failure_of(plan).0, "INVALID_PAYLOAD");
}

#[test]
fn handle_command_dry_run_list_files_ack() {
    match plan_command(&request("dry_run", Some("job-ut-4"), None), 1, &vec![]) {
        CommandPlan::Emit(events) => {
            assert_eq!(events[0].event, "job_progress");
            assert_eq!(events[0].job_id.as_deref(), Some("job-ut-4"));
        }
        other => panic!("unexpected plan {:?}", other),
    }
}

#[test]
fn handle_command_resume_and_incremental_alias() {
    match plan_command(&request("resume", Some("job-ut-5"), None), 1, &vec![]) {
        CommandPlan::Resume { job_id } => assert_eq!(job_id, "job-ut-5"),
        other => panic!("unexpected plan {:?}", other),
    }
    match plan_command(&request("incremental_index", Some("job-ut-6"), Some(payload(Some(".")))), 1, &vec![]) {
        CommandPlan::StartJob(job) => {
            assert_eq!(job.job_id, "job-ut-6");
            assert!(matches!(job.files, FileSource::Walk));
        }
        other => panic!("unexpected plan {:?}", other),
    }
}
