use rust_indexer::application::protocol::{ChunkEventPayload, ChunkKind, EventPayload};
use rust_indexer::domain::types::{CallEdge, ImportEdge, Location};
use rust_indexer::infra::backpressure::{BackpressureConfig, BackpressureMonitor};
use rust_indexer::infra::jsonl::{
    build_chunk_event, build_pause_event, build_resume_event, emit_call_with_backpressure,
    emit_chunk_with_backpressure, emit_import_with_backpressure, emit_with_backpressure, finish_emit, EmitStep,
};

fn test_payload() -> ChunkEventPayload {
    ChunkEventPayload {
        chunk_id: "test-chunk".into(),
        chunk_kind: ChunkKind::FullFile,
        file: "test.rs".into(),
        language: Some("rust".into()),
        symbol_id: None,
        start_line: 1,
        end_line: 10,
        text: "test".into(),
        chunk_md5: "md5".into(),
        size: 4,
    }
}

#[test]
fn build_pause_event_contains_metadata() {
    let ev = build_pause_event(Some("job-1".into()));
    assert_eq!(ev.event, "pause");
    assert_eq!(ev.job_id.as_deref(), Some("job-1"));
    assert!(ev.payload.is_none());
}

#[test]
fn build_resume_event_contains_metadata() {
    let ev = build_resume_event(Some("job-1".into()));
    assert_eq!(ev.event, "resume");
    assert_eq!(ev.job_id.as_deref(), Some("job-1"));
    assert!(ev.payload.is_none());
}

#[test]
fn build_chunk_event_contains_payload_and_metadata() {
    let payload = ChunkEventPayload {
        chunk_id: "chunk-1".into(),
        chunk_kind: ChunkKind::FullFile,
        file: "src/lib.rs".into(),
        language: Some("rust".into()),
        symbol_id: Some("sym-1".into()),
        start_line: 1,
        end_line: 10,
        text: "fn main() {}".into(),
        chunk_md5: "abc123".into(),
        size: 12,
    };

    let ev = build_chunk_event(Some("job-1".into()), &payload);
    assert_eq!(ev.event, "chunk_emitted");
    assert_eq!(ev.job_id.as_deref(), Some("job-1"));
    let val = ev.payload.unwrap();
    assert_eq!(val, EventPayload::Chunk(payload.clone()));
}

#[test]
fn test_emit_with_backpressure_when_not_paused_and_queue_below_threshold() {
    let config = BackpressureConfig::with_max_queue_size(100).unwrap();
    let mut monitor = BackpressureMonitor::new(config, 50, Some("test-job".to_string())).unwrap();

    let event = build_chunk_event(None, &test_payload());
    let result = emit_with_backpressure(&mut monitor, event.clone(), 0);

    let event_emitted = match result {
        EmitStep::Write(events) => events == vec![event],
        EmitStep::WaitThenFinish { .. } => false,
    };
    assert!(event_emitted);
    assert!(!monitor.is_paused());
    assert_eq!(monitor.current_queue_size(), 51);
}

#[test]
fn test_emit_with_backpressure_blocks_when_paused_and_resumes_on_force() {
    let config = BackpressureConfig::with_max_queue_size(100).unwrap();
    let mut monitor = BackpressureMonitor::new(config, 100, Some("test-job".to_string())).unwrap();

    // Pre-pause (counter=100 >= 100)
    let pause = monitor.check_and_maybe_pause(0);
    assert!(pause.is_some());
    assert!(monitor.is_paused());

    let event = build_chunk_event(None, &test_payload());
    let step = emit_with_backpressure(&mut monitor, event.clone(), 1);
    let pending = match step {
        EmitStep::WaitThenFinish { before, event } => {
            assert!(before.is_empty());
            event
        }
        EmitStep::Write(_) => panic!("a paused producer must wait"),
    };
    assert!(monitor.is_paused());

    monitor.force_resume();
    assert!(!monitor.is_paused());

    let written = finish_emit(&mut monitor, pending, 2);
    assert_eq!(written[0], event, "blocked producer should emit after resume");
}

#[test]
fn test_emit_chunk_with_backpressure() {
    let config = BackpressureConfig::with_max_queue_size(100).unwrap();
    let mut monitor = BackpressureMonitor::new(config, 50, Some("test-job".to_string())).unwrap();

    let payload = test_payload();
    let result = emit_chunk_with_backpressure(&mut monitor, Some("test-job".to_string()), &payload, 0);
    assert!(result.is_ok());
}

#[test]
fn test_emit_import_with_backpressure() {
    let config = BackpressureConfig::with_max_queue_size(100).unwrap();
    let mut monitor = BackpressureMonitor::new(config, 50, Some("test-job".to_string())).unwrap();

    let payload = ImportEdge {
        id: "import-1".into(),
        from_file: "source.rs".into(),
        to_module: "target".into(),
        imported_symbol: Some("function".into()),
        alias: None,
        import_kind: "import".into(),
        location: Location { start_line: 42, start_col: 0, end_line: 42, end_col: 10 },
        resolved: true,
    };

    let result = emit_import_with_backpressure(&mut monitor, Some("test-job".to_string()), &payload, 0);
    assert!(result.is_ok());
}

#[test]
fn test_emit_call_with_backpressure() {
    let config = BackpressureConfig::with_max_queue_size(100).unwrap();
    let mut monitor = BackpressureMonitor::new(config, 50, Some("test-job".to_string())).unwrap();

    let payload = CallEdge {
        id: "call-1".into(),
        caller_symbol_id: Some("caller-symbol".into()),
        callee_name: "callee_function".into(),
        callee_symbol_id: Some("callee-symbol".into()),
        call_kind: "function_call".into(),
        location: Location { start_line: 42, start_col: 0, end_line: 42, end_col: 10 },
        resolved: true,
    };

    let result = emit_call_with_backpressure(&mut monitor, Some("test-job".to_string()), &payload, 0);
    assert!(result.is_ok());
}

#[test]
fn emit_reaching_capacity_announces_pause_and_waits() {
    let config = BackpressureConfig::with_max_queue_size(3).unwrap();
    let mut monitor = BackpressureMonitor::new(config, 2, Some("job".to_string())).unwrap();
    let event = build_chunk_event(None, &test_payload());
    match emit_with_backpressure(&mut monitor, event.clone(), 5) {
        EmitStep::WaitThenFinish { before, event: pending } => {
            assert_eq!(before.len(), 1);
            assert_eq!(before[0].event, "pause");
            assert_eq!(pending, event);
        }
        EmitStep::Write(_) => panic!("a full queue makes the producer wait"),
    }
    assert!(monitor.is_paused());
    assert_eq!(monitor.current_queue_size(), 3);
}
