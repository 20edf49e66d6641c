use rust_indexer::infra::backpressure::{BackpressureConfig, BackpressureConfigError, BackpressureMonitor, PauseReason};

#[test]
fn backpressure_default_config_is_valid() {
    let config = BackpressureConfig::default();
    assert!(config.validate().is_ok());
    assert_eq!(config.max_queue_size, 500);
    assert_eq!(config.threshold_percent, 90);
    assert!(!config.ack_required);
    assert_eq!(config.pause_timeout_secs, 300);
}

#[test]
fn backpressure_custom_max_queue_size_works() {
    let config = BackpressureConfig::with_max_queue_size(1000).unwrap();
    assert_eq!(config.max_queue_size, 1000);
    assert!(config.validate().is_ok());
}

#[test]
fn backpressure_invalid_max_queue_size_returns_error() {
    let result = BackpressureConfig::with_max_queue_size(0);
    assert!(result.is_err());
    assert!(matches!(
        result.unwrap_err(),
        BackpressureConfigError::InvalidQueueSize(_)
    ));
}

#[test]
fn backpressure_resume_threshold_calculated_correctly() {
    let config = BackpressureConfig::with_max_queue_size(1000).unwrap();
    assert_eq!(config.resume_threshold(), 900); // 90% of 1000

    let config_500 = BackpressureConfig::with_max_queue_size(500).unwrap();
    assert_eq!(config_500.resume_threshold(), 450); // 90% of 500
}

#[test]
fn backpressure_should_pause_when_at_or_above_max() {
    let config = BackpressureConfig::with_max_queue_size(500).unwrap();

    assert!(!config.should_pause(499));
    assert!(config.should_pause(500));
    assert!(config.should_pause(600));
}

#[test]
fn backpressure_should_resume_when_below_threshold() {
    let config = BackpressureConfig::with_max_queue_size(500).unwrap();
    let threshold = config.resume_threshold(); // 450

    assert!(!config.should_resume(threshold));
    assert!(config.should_resume(threshold - 1));
    assert!(config.should_resume(100));
    assert!(config.should_resume(0));
}

#[test]
fn backpressure_pause_reason_for_size_returns_output_queue_full_when_at_max() {
    let config = BackpressureConfig::with_max_queue_size(500).unwrap();

    assert_eq!(
        config.pause_reason_for_size(500),
        PauseReason::OutputQueueFull
    );
    assert_eq!(
        config.pause_reason_for_size(1000),
        PauseReason::OutputQueueFull
    );
}

#[test]
fn backpressure_pause_reason_for_size_returns_queue_near_capacity_when_below_max() {
    let config = BackpressureConfig::with_max_queue_size(500).unwrap();

    assert_eq!(
        config.pause_reason_for_size(499),
        PauseReason::QueueNearCapacity
    );
    assert_eq!(
        config.pause_reason_for_size(400),
        PauseReason::QueueNearCapacity
    );
}

#[test]
fn backpressure_threshold_percent_validation_rejects_below_80() {
    let config = BackpressureConfig {
        max_queue_size: 500,
        threshold_percent: 79,
        ack_required: false,
        pause_timeout_secs: 300,
    };
    assert!(matches!(
        config.validate(),
        Err(BackpressureConfigError::InvalidThreshold(_))
    ));
}

#[test]
fn backpressure_threshold_percent_validation_rejects_above_99() {
    let config = BackpressureConfig {
        max_queue_size: 500,
        threshold_percent: 100,
        ack_required: false,
        pause_timeout_secs: 300,
    };
    assert!(matches!(
        config.validate(),
        Err(BackpressureConfigError::InvalidThreshold(_))
    ));
}

#[test]
fn backpressure_threshold_percent_validation_accepts_bounds() {
    let config_80 = BackpressureConfig {
        max_queue_size: 500,
        threshold_percent: 80,
        ack_required: false,
        pause_timeout_secs: 300,
    };
    assert!(config_80.validate().is_ok());

    let config_99 = BackpressureConfig {
        max_queue_size: 500,
        threshold_percent: 99,
        ack_required: false,
        pause_timeout_secs: 300,
    };
    assert!(config_99.validate().is_ok());
}

#[test]
fn mod_default_config_is_valid() {
    let config = BackpressureConfig::default();
    assert!(config.validate().is_ok());
    assert_eq!(config.max_queue_size, 500);
    assert_eq!(config.threshold_percent, 90);
    assert!(!config.ack_required);
    assert_eq!(config.pause_timeout_secs, 300);
}

#[test]
fn mod_custom_max_queue_size_works() {
    let config = BackpressureConfig::with_max_queue_size(1000).unwrap();
    assert_eq!(config.max_queue_size, 1000);
    assert!(config.validate().is_ok());
}

#[test]
fn mod_invalid_max_queue_size_returns_error() {
    let result = BackpressureConfig::with_max_queue_size(0);
    assert!(result.is_err());
    assert!(matches!(
        result.unwrap_err(),
        BackpressureConfigError::InvalidQueueSize(_)
    ));
}

#[test]
fn mod_resume_threshold_calculated_correctly() {
    let config = BackpressureConfig::with_max_queue_size(1000).unwrap();
    assert_eq!(config.resume_threshold(), 900); // 90% of 1000

    let config_500 = BackpressureConfig::with_max_queue_size(500).unwrap();
    assert_eq!(config_500.resume_threshold(), 450); // 90% of 500
}

#[test]
fn mod_should_pause_when_at_or_above_max() {
    let config = BackpressureConfig::with_max_queue_size(500).unwrap();

    assert!(!config.should_pause(499));
    assert!(config.should_pause(500));
    assert!(config.should_pause(600));
}

#[test]
fn mod_should_resume_when_below_threshold() {
    let config = BackpressureConfig::with_max_queue_size(500).unwrap();
    let threshold = config.resume_threshold(); // 450

    assert!(!config.should_resume(threshold));
    assert!(config.should_resume(threshold - 1));
    assert!(config.should_resume(100));
    assert!(config.should_resume(0));
}

#[test]
fn mod_pause_reason_for_size_returns_output_queue_full_when_at_max() {
    let config = BackpressureConfig::with_max_queue_size(500).unwrap();

    assert_eq!(
        config.pause_reason_for_size(500),
        PauseReason::OutputQueueFull
    );
    assert_eq!(
        config.pause_reason_for_size(1000),
        PauseReason::OutputQueueFull
    );
}

#[test]
fn mod_pause_reason_for_size_returns_queue_near_capacity_when_below_max() {
    let config = BackpressureConfig::with_max_queue_size(500).unwrap();

    assert_eq!(
        config.pause_reason_for_size(499),
        PauseReason::QueueNearCapacity
    );
    assert_eq!(
        config.pause_reason_for_size(400),
        PauseReason::QueueNearCapacity
    );
}

#[test]
fn mod_threshold_percent_validation_rejects_below_80() {
    let config = BackpressureConfig {
        max_queue_size: 500,
        threshold_percent: 79,
        ack_required: false,
        pause_timeout_secs: 300,
    };
    assert!(matches!(
        config.validate(),
        Err(BackpressureConfigError::InvalidThreshold(_))
    ));
}

#[test]
fn mod_threshold_percent_validation_rejects_above_99() {
    let config = BackpressureConfig {
        max_queue_size: 500,
        threshold_percent: 100,
        ack_required: false,
        pause_timeout_secs: 300,
    };
    assert!(matches!(
        config.validate(),
        Err(BackpressureConfigError::InvalidThreshold(_))
    ));
}

#[test]
fn mod_threshold_percent_validation_accepts_bounds() {
    let config_80 = BackpressureConfig {
        max_queue_size: 500,
        threshold_percent: 80,
        ack_required: false,
        pause_timeout_secs: 300,
    };
    assert!(config_80.validate().is_ok());

    let config_99 = BackpressureConfig {
        max_queue_size: 500,
        threshold_percent: 99,
        ack_required: false,
        pause_timeout_secs: 300,
    };
    assert!(config_99.validate().is_ok());
}

#[test]
fn monitor_initializes_with_given_config_and_job_id() {
    let config = BackpressureConfig::with_max_queue_size(100).unwrap();
    let job_id = Some("test-job-1".to_string());
    let monitor = BackpressureMonitor::new(config.clone(), 0, job_id.clone()).unwrap();

    assert_eq!(monitor.current_queue_size(), 0);
    assert!(!monitor.is_paused());
    assert_eq!(monitor.config().max_queue_size, 100);
    assert_eq!(monitor.job_id(), &job_id);
}

#[test]
fn monitor_initializes_with_default_config() {
    let job_id = Some("test-job-2".to_string());
    let monitor = BackpressureMonitor::with_default_config(0, job_id.clone()).unwrap();

    assert_eq!(monitor.current_queue_size(), 0);
    assert!(!monitor.is_paused());
    assert_eq!(monitor.config().max_queue_size, 500);
    assert_eq!(monitor.job_id(), &job_id);
}

#[test]
fn monitor_fails_to_initialize_with_invalid_config() {
    let invalid_config = BackpressureConfig {
        max_queue_size: 0,
        threshold_percent: 90,
        ack_required: false,
        pause_timeout_secs: 300,
    };
    let job_id = Some("test-job-invalid".to_string());
    let result = BackpressureMonitor::new(invalid_config, 0, job_id);
    assert!(result.is_err());
    assert!(matches!(
        result.unwrap_err(),
        BackpressureConfigError::InvalidQueueSize(_)
    ));
}
