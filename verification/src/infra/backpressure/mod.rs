//! Flow control of the output stream: when the queue of events that the
//! consumer has not acknowledged reaches its limit, the producer pauses, and
//! it resumes once the queue has drained below a threshold.
use vstd::prelude::*;

mod monitor;
pub use monitor::{BackpressureMonitor, flow_event_is, pause_expired};

verus! {

/// Why a configuration was refused.
#[derive(Debug, Clone, PartialEq, Eq)]
pub enum BackpressureConfigError {
    /// The queue size must be positive.
    InvalidQueueSize(String),
    /// The threshold percentage must lie between 80 and 99.
    InvalidThreshold(String),
    /// Acknowledgement mode is inconsistent.
    InvalidAckMode(String),
}

impl BackpressureConfigError {
    /// The message of the error, as it is shown to a user.
    pub fn message(&self) -> (r: String)
        ensures
            self matches BackpressureConfigError::InvalidQueueSize(m) ==> r@ == "tamanho de fila inválido: "@ + m@,
            self matches BackpressureConfigError::InvalidThreshold(m) ==> r@ == "limiar inválido: "@ + m@,
            self matches BackpressureConfigError::InvalidAckMode(m) ==> r@ == "modo de acknowledgment inválido: "@ + m@,
    {
        let mut out: Vec<char> = Vec::new();
        match self {
            BackpressureConfigError::InvalidQueueSize(m) => {
                crate::text::append_str(&mut out, "tamanho de fila inválido: ");
                crate::text::append_str(&mut out, m.as_str());
            },
            BackpressureConfigError::InvalidThreshold(m) => {
                crate::text::append_str(&mut out, "limiar inválido: ");
                crate::text::append_str(&mut out, m.as_str());
            },
            BackpressureConfigError::InvalidAckMode(m) => {
                crate::text::append_str(&mut out, "modo de acknowledgment inválido: ");
                crate::text::append_str(&mut out, m.as_str());
            },
        }
        crate::text::string_of(out.as_slice())
    }
}

/// Why a pause is announced.
#[derive(Debug, Clone, Copy, PartialEq, Eq, Structural)]
pub enum PauseReason {
    OutputQueueFull,
    QueueNearCapacity,
    ExternalSignal,
}

/// Why a resume is announced.
#[derive(Debug, Clone, Copy, PartialEq, Eq, Structural)]
pub enum ResumeReason {
    QueueUnderThreshold,
    ExternalSignal,
    /// The pause lasted longer than the configured limit.
    PauseTimeout,
}

/// The reason carried by a pause or a resume announcement.
#[derive(Debug, Clone, Copy, PartialEq, Eq, Structural)]
pub enum PauseResumeReason {
    Pause(PauseReason),
    Resume(ResumeReason),
}

impl PauseResumeReason {
    /// `pause` or `resume`.
    pub fn kind(&self) -> (r: &'static str)
        ensures
            self is Pause ==> r@ == "pause"@,
            self is Resume ==> r@ == "resume"@,
    {
        match self {
            PauseResumeReason::Pause(_) => "pause",
            PauseResumeReason::Resume(_) => "resume",
        }
    }
}

/// What a pause or a resume announcement carries.
#[derive(Debug, Clone, Copy, PartialEq, Eq, Structural)]
pub struct PauseResumePayload {
    pub reason: PauseResumeReason,
    /// The limit that was reached, or the threshold under which the queue fell.
    pub threshold: usize,
    /// The queue size at the time of the announcement.
    pub current_size: usize,
    /// Whether the producer is paused after the announcement.
    pub backpressure_active: bool,
}

/// Flow-control settings.
#[derive(Debug, Clone, Copy, PartialEq, Eq, Structural)]
pub struct BackpressureConfig {
    /// Queue size at which the producer pauses.
    pub max_queue_size: usize,
    /// Percentage of `max_queue_size` under which the producer resumes.
    pub threshold_percent: u8,
    /// Whether the consumer acknowledges resumes.
    pub ack_required: bool,
    /// Longest pause, in seconds, before the producer resumes on its own.
    pub pause_timeout_secs: u64,
}

/// The default settings: a queue of 500, resume under 90%, no
/// acknowledgement of resumes, a pause of at most five minutes.
pub open spec fn default_config() -> BackpressureConfig {
    BackpressureConfig { max_queue_size: 500, threshold_percent: 90, ack_required: false, pause_timeout_secs: 300 }
}

/// A configuration that `validate` accepts.
pub open spec fn config_is_valid(c: BackpressureConfig) -> bool {
    c.max_queue_size > 0 && 80 <= c.threshold_percent <= 99
}

/// The queue size under which the producer resumes.
pub open spec fn resume_threshold_of(c: BackpressureConfig) -> int {
    (c.max_queue_size * c.threshold_percent) / 100
}

/// Whether `e` is the error that `validate` gives for `c`: a zero queue size
/// first, then a threshold percentage outside 80..=99.
pub open spec fn is_config_error(c: BackpressureConfig, e: BackpressureConfigError) -> bool {
    if c.max_queue_size == 0 {
        e matches BackpressureConfigError::InvalidQueueSize(m) && m@ == "max_queue_size deve ser positivo"@
    } else if !(80 <= c.threshold_percent <= 99) {
        e matches BackpressureConfigError::InvalidThreshold(m) && m@ == "threshold_percent deve estar entre 80 e 99"@
    } else {
        false
    }
}

impl Default for BackpressureConfig {
    fn default() -> (r: Self)
        ensures
            r == default_config(),
    {
        BackpressureConfig { max_queue_size: 500, threshold_percent: 90, ack_required: false, pause_timeout_secs: 300 }
    }
}

impl BackpressureConfig {
    /// The default settings with another queue size; a size of zero is refused.
    pub fn with_max_queue_size(size: usize) -> (r: Result<Self, BackpressureConfigError>)
        ensures
            size == 0 <==> r is Err,
            r matches Err(e) ==> e matches BackpressureConfigError::InvalidQueueSize(m)
                && m@ == "tamanho de fila deve ser maior que zero"@,
            r matches Ok(c) ==> c == (BackpressureConfig { max_queue_size: size, ..default_config() }),
    {
        if size == 0 {
            return Err(BackpressureConfigError::InvalidQueueSize("tamanho de fila deve ser maior que zero".to_owned()));
        }
        Ok(BackpressureConfig { max_queue_size: size, threshold_percent: 90, ack_required: false, pause_timeout_secs: 300 })
    }

    /// Checks the queue size and then the threshold percentage.
    pub fn validate(&self) -> (r: Result<(), BackpressureConfigError>)
        ensures
            r is Ok <==> config_is_valid(*self),
            r matches Err(e) ==> is_config_error(*self, e),
    {
        if self.max_queue_size == 0 {
            return Err(BackpressureConfigError::InvalidQueueSize("max_queue_size deve ser positivo".to_owned()));
        }
        if !(80 <= self.threshold_percent && self.threshold_percent <= 99) {
            return Err(BackpressureConfigError::InvalidThreshold("threshold_percent deve estar entre 80 e 99".to_owned()));
        }
        Ok(())
    }

    /// `threshold_percent` percent of `max_queue_size`, rounded down.
    pub fn resume_threshold(&self) -> (r: usize)
        requires
            resume_threshold_of(*self) <= usize::MAX,
        ensures
            r == resume_threshold_of(*self),
    {
        let m: u128 = self.max_queue_size as u128;
        let p: u128 = self.threshold_percent as u128;
        assert(m * p <= 0xffff_ffff_ffff_ffff_ffff * 256) by (nonlinear_arith)
            requires
                m <= 0xffff_ffff_ffff_ffff_ffff,
                p < 256,
        ;
        let t: u128 = (m * p) / 100;
        t as usize
    }

    /// Whether a queue of this size makes the producer pause.
    pub fn should_pause(&self, current_size: usize) -> (r: bool)
        ensures
            r == (current_size >= self.max_queue_size),
    {
        current_size >= self.max_queue_size
    }

    /// Whether a queue of this size lets a paused producer resume.
    pub fn should_resume(&self, current_size: usize) -> (r: bool)
        requires
            resume_threshold_of(*self) <= usize::MAX,
        ensures
            r == (current_size < resume_threshold_of(*self)),
    {
        current_size < self.resume_threshold()
    }

    /// `OutputQueueFull` when the queue is at its limit, else `QueueNearCapacity`.
    pub fn pause_reason_for_size(&self, current_size: usize) -> (r: PauseReason)
        ensures
            current_size >= self.max_queue_size ==> r == PauseReason::OutputQueueFull,
            current_size < self.max_queue_size ==> r == PauseReason::QueueNearCapacity,
    {
        if current_size >= self.max_queue_size {
            PauseReason::OutputQueueFull
        } else {
            PauseReason::QueueNearCapacity
        }
    }
}

/// In a valid configuration the resume threshold lies strictly below the
/// pause limit, so no queue size both pauses and resumes the producer.
pub proof fn lemma_pause_and_resume_exclusive(c: BackpressureConfig, size: usize)
    requires
        config_is_valid(c),
    ensures
        resume_threshold_of(c) < c.max_queue_size,
        !(size >= c.max_queue_size && size < resume_threshold_of(c)),
{
    let m = c.max_queue_size as int;
    let p = c.threshold_percent as int;
    assert((m * p) / 100 < m) by (nonlinear_arith)
        requires
            m > 0,
            p <= 99,
            p >= 0,
    ;
}

/// In a valid configuration the resume threshold fits in a `usize`.
pub proof fn lemma_valid_threshold_fits(c: BackpressureConfig)
    requires
        config_is_valid(c),
    ensures
        0 <= resume_threshold_of(c) <= usize::MAX,
{
    lemma_pause_and_resume_exclusive(c, 0);
    let m = c.max_queue_size as int;
    let p = c.threshold_percent as int;
    assert((m * p) / 100 >= 0) by (nonlinear_arith)
        requires
            m >= 0,
            p >= 0,
    ;
}

} // verus!
