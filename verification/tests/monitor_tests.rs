use rust_indexer::application::protocol::EventPayload;
use rust_indexer::infra::backpressure::{
    BackpressureConfig, BackpressureConfigError, BackpressureMonitor, PauseReason, PauseResumeReason, ResumeReason,
};

fn flow_reason(p: &Option<EventPayload>) -> PauseResumeReason {
    match p {
        Some(EventPayload::Flow(f)) => f.reason,
        other => panic!("not a flow payload: {:?}", other),
    }
}

#[test]
fn pause_fires_once_at_the_limit() {
    let config = BackpressureConfig::with_max_queue_size(3).unwrap();
    let mut m = BackpressureMonitor::new(config, 2, None).unwrap();
    assert!(m.check_and_maybe_pause(0).is_none());
    m.increment_queue_size();
    let ev = m.check_and_maybe_pause(10).unwrap();
    assert_eq!(ev.event, "pause");
    assert_eq!(flow_reason(&ev.payload), PauseResumeReason::Pause(PauseReason::OutputQueueFull));
    assert!(m.is_paused());
    assert!(m.check_and_maybe_pause(11).is_none());
}

#[test]
fn resume_fires_below_the_threshold() {
    let config = BackpressureConfig::with_max_queue_size(10).unwrap();
    let mut m = BackpressureMonitor::new(config, 10, None).unwrap();
    m.check_and_maybe_pause(0);
    m.decrement_queue_size(1);
    assert!(m.check_and_maybe_resume().is_none());
    m.decrement_queue_size(1);
    let ev = m.check_and_maybe_resume().unwrap();
    assert_eq!(flow_reason(&ev.payload), PauseResumeReason::Resume(ResumeReason::QueueUnderThreshold));
    assert!(!m.is_paused());
}

#[test]
fn long_pauses_time_out() {
    let config = BackpressureConfig { max_queue_size: 4, threshold_percent: 90, ack_required: false, pause_timeout_secs: 30 };
    let mut m = BackpressureMonitor::new(config, 4, None).unwrap();
    m.check_and_maybe_pause(100);
    assert!(m.check_timeout(129).is_none());
    assert!(m.check_timeout(50).is_none());
    let ev = m.check_timeout(130).unwrap();
    assert_eq!(ev.event, "resume");
    assert_eq!(flow_reason(&ev.payload), PauseResumeReason::Resume(ResumeReason::PauseTimeout));
    assert!(!m.is_paused());
    assert_eq!(m.current_queue_size(), 0);
}

#[test]
fn one_round_of_checks() {
    let config = BackpressureConfig::with_max_queue_size(10).unwrap();
    let mut m = BackpressureMonitor::new(config, 10, None).unwrap();
    let (t, p, r) = m.check_and_emit(0);
    assert!(t.is_none());
    assert!(p.is_some());
    assert!(r.is_none());
    m.set_queue_size(3);
    let (t, p, r) = m.check_and_emit(1);
    assert!(t.is_none() && p.is_none());
    assert!(r.is_some());
    assert!(!m.is_paused());
}

#[test]
fn queue_counting_saturates_and_wraps() {
    let config = BackpressureConfig::default();
    let mut m = BackpressureMonitor::new(config, 2, None).unwrap();
    m.decrement_queue_size(5);
    assert_eq!(m.current_queue_size(), 0);
    m.set_queue_size(usize::MAX);
    m.increment_queue_size();
    assert_eq!(m.current_queue_size(), 0);
}

#[test]
fn configuration_errors_name_their_cause() {
    let bad = BackpressureConfig { max_queue_size: 0, threshold_percent: 50, ack_required: false, pause_timeout_secs: 1 };
    match bad.validate() {
        Err(BackpressureConfigError::InvalidQueueSize(m)) => assert_eq!(m, "max_queue_size deve ser positivo"),
        other => panic!("unexpected result {:?}", other),
    }
    let bad = BackpressureConfig { max_queue_size: 5, threshold_percent: 50, ack_required: false, pause_timeout_secs: 1 };
    let err = bad.validate().unwrap_err();
    assert_eq!(err.message(), "limiar inválido: threshold_percent deve estar entre 80 e 99");
    let err = BackpressureConfigError::InvalidAckMode("x".into());
    assert_eq!(err.message(), "modo de acknowledgment inválido: x");
}
