//! The state of the flow control: the queue size, whether the producer is
//! paused and since when. Each operation returns the announcement it makes,
//! if any; writing it, waiting and reading the clock are the caller's part.
use vstd::prelude::*;
use crate::application::protocol::{Event, EventPayload, event_is, make_event};
use crate::infra::backpressure::{
    BackpressureConfig, BackpressureConfigError, PauseResumePayload, PauseResumeReason, ResumeReason,
    config_is_valid, resume_threshold_of, lemma_valid_threshold_fits,
};

verus! {

/// The flow-control state of one indexing job.
#[derive(Debug)]
pub struct BackpressureMonitor {
    config: BackpressureConfig,
    queue_size: usize,
    paused: bool,
    paused_since: Option<u64>,
    job_id: Option<String>,
}

/// The announcement of a pause or a resume for a job.
pub open spec fn flow_event_is(e: Event, name: Seq<char>, job_id: Option<String>, p: PauseResumePayload) -> bool {
    event_is(e, name, job_id, Some(EventPayload::Flow(p)))
}

/// Whether a pause that began at `since` has lasted `timeout` seconds at
/// time `now`; a clock that went back counts as no time.
pub open spec fn pause_expired(since: Option<u64>, now: u64, timeout: u64) -> bool {
    match since {
        Some(t) => (if now >= t { now - t } else { 0 }) >= timeout,
        None => false,
    }
}

impl BackpressureMonitor {
    #[verifier::type_invariant]
    spec fn well_formed(&self) -> bool {
        config_is_valid(self.config)
    }

    /// The settings.
    pub closed spec fn cfg(&self) -> BackpressureConfig {
        self.config
    }

    /// The number of events the consumer has not acknowledged.
    pub closed spec fn queue(&self) -> usize {
        self.queue_size
    }

    /// Whether the producer is paused.
    pub closed spec fn paused_flag(&self) -> bool {
        self.paused
    }

    /// When the current pause began, in the caller's seconds.
    pub closed spec fn paused_at(&self) -> Option<u64> {
        self.paused_since
    }

    /// The job the announcements belong to.
    pub closed spec fn job(&self) -> Option<String> {
        self.job_id
    }

    /// A monitor over a valid configuration, not paused, with the given queue
    /// size; an invalid configuration is refused with `validate`'s error.
    pub fn new(config: BackpressureConfig, initial_size: usize, job_id: Option<String>) -> (r: Result<Self, BackpressureConfigError>)
        ensures
            r is Ok <==> config_is_valid(config),
            r matches Ok(m) ==> m.cfg() == config && m.queue() == initial_size && !m.paused_flag()
                && m.paused_at() is None && m.job() == job_id,
            r matches Err(e) ==> crate::infra::backpressure::is_config_error(config, e),
    {
        match config.validate() {
            Err(e) => Err(e),
            Ok(()) => Ok(BackpressureMonitor { config, queue_size: initial_size, paused: false, paused_since: None, job_id }),
        }
    }

    /// A monitor over the default settings.
    pub fn with_default_config(initial_size: usize, job_id: Option<String>) -> (r: Result<Self, BackpressureConfigError>)
        ensures
            r matches Ok(m) ==> m.cfg() == crate::infra::backpressure::default_config() && m.queue() == initial_size
                && !m.paused_flag() && m.paused_at() is None && m.job() == job_id,
            r is Ok,
    {
        let config = BackpressureConfig::default();
        Self::new(config, initial_size, job_id)
    }

    /// Sets the queue size.
    pub fn set_queue_size(&mut self, size: usize)
        ensures
            final(self).queue() == size,
            final(self).cfg() == old(self).cfg(),
            final(self).paused_flag() == old(self).paused_flag(),
            final(self).paused_at() == old(self).paused_at(),
            final(self).job() == old(self).job(),
    {
        proof {
            use_type_invariant(&*self);
        }
        self.queue_size = size;
    }

    /// The queue size.
    pub fn current_queue_size(&self) -> (r: usize)
        ensures
            r == self.queue(),
    {
        self.queue_size
    }

    /// Whether the producer is paused.
    pub fn is_paused(&self) -> (r: bool)
        ensures
            r == self.paused_flag(),
    {
        self.paused
    }

    /// The settings.
    pub fn config(&self) -> (r: &BackpressureConfig)
        ensures
            *r == self.cfg(),
            config_is_valid(*r),
    {
        proof {
            use_type_invariant(self);
        }
        &self.config
    }

    /// The job the announcements belong to.
    pub fn job_id(&self) -> (r: &Option<String>)
        ensures
            *r == self.job(),
    {
        &self.job_id
    }

    /// Counts one more event in the queue; the count wraps around at the
    /// largest `usize`, as an atomic counter does.
    pub fn increment_queue_size(&mut self)
        ensures
            final(self).queue() == if old(self).queue() == usize::MAX { 0 } else { old(self).queue() + 1 },
            final(self).cfg() == old(self).cfg(),
            final(self).paused_flag() == old(self).paused_flag(),
            final(self).paused_at() == old(self).paused_at(),
            final(self).job() == old(self).job(),
    {
        proof {
            use_type_invariant(&*self);
        }
        self.queue_size = if self.queue_size == usize::MAX { 0 } else { self.queue_size + 1 };
    }

    /// Counts `count` events as acknowledged; the queue does not go below zero.
    pub fn decrement_queue_size(&mut self, count: usize)
        ensures
            final(self).queue() == if old(self).queue() >= count { old(self).queue() - count } else { 0 },
            final(self).cfg() == old(self).cfg(),
            final(self).paused_flag() == old(self).paused_flag(),
            final(self).paused_at() == old(self).paused_at(),
            final(self).job() == old(self).job(),
    {
        proof {
            use_type_invariant(&*self);
        }
        self.queue_size = if self.queue_size >= count { self.queue_size - count } else { 0 };
    }

    /// Empties the queue.
    pub fn reset_queue(&mut self)
        ensures
            final(self).queue() == 0,
            final(self).cfg() == old(self).cfg(),
            final(self).paused_flag() == old(self).paused_flag(),
            final(self).paused_at() == old(self).paused_at(),
            final(self).job() == old(self).job(),
    {
        proof {
            use_type_invariant(&*self);
        }
        self.queue_size = 0;
    }

    /// Leaves the paused state at once and empties the queue.
    pub fn force_resume(&mut self)
        ensures
            final(self).queue() == 0,
            !final(self).paused_flag(),
            final(self).cfg() == old(self).cfg(),
            final(self).paused_at() == old(self).paused_at(),
            final(self).job() == old(self).job(),
    {
        proof {
            use_type_invariant(&*self);
        }
        self.queue_size = 0;
        self.paused = false;
    }

    /// When the queue has reached its limit and the producer is not paused,
    /// pauses it at time `now` and returns the pause announcement; else
    /// changes nothing.
    pub fn check_and_maybe_pause(&mut self, now: u64) -> (r: Option<Event>)
        ensures
            ({
                let s = old(self);
                let fire = s.queue() >= s.cfg().max_queue_size && !s.paused_flag();
                &&& fire <==> r is Some
                &&& fire ==> final(self).paused_flag() && final(self).paused_at() == Some(now)
                &&& !fire ==> final(self).paused_flag() == s.paused_flag() && final(self).paused_at() == s.paused_at()
                &&& r matches Some(e) ==> flow_event_is(e, "pause"@, s.job(), PauseResumePayload {
                    reason: PauseResumeReason::Pause(crate::infra::backpressure::PauseReason::OutputQueueFull),
                    threshold: s.cfg().max_queue_size,
                    current_size: s.queue(),
                    backpressure_active: true,
                })
            }),
            final(self).queue() == old(self).queue(),
            final(self).cfg() == old(self).cfg(),
            final(self).job() == old(self).job(),
    {
        proof {
            use_type_invariant(&*self);
        }
        let size = self.queue_size;
        if self.config.should_pause(size) && !self.paused {
            let reason = self.config.pause_reason_for_size(size);
            let payload = PauseResumePayload {
                reason: PauseResumeReason::Pause(reason),
                threshold: self.config.max_queue_size,
                current_size: size,
                backpressure_active: true,
            };
            let event = make_event("pause", crate::text::copy_opt_string(&self.job_id), Some(EventPayload::Flow(payload)));
            self.paused = true;
            self.paused_since = Some(now);
            Some(event)
        } else {
            None
        }
    }

    /// `check_and_maybe_resume_with_reason` with `QueueUnderThreshold`.
    pub fn check_and_maybe_resume(&mut self) -> (r: Option<Event>)
        ensures
            ({
                let s = old(self);
                let fire = s.paused_flag() && s.queue() < resume_threshold_of(s.cfg());
                &&& fire <==> r is Some
                &&& fire ==> !final(self).paused_flag() && final(self).paused_at() is None
                &&& !fire ==> final(self).paused_flag() == s.paused_flag() && final(self).paused_at() == s.paused_at()
                &&& r matches Some(e) ==> flow_event_is(e, "resume"@, s.job(), PauseResumePayload {
                    reason: PauseResumeReason::Resume(ResumeReason::QueueUnderThreshold),
                    threshold: resume_threshold_of(s.cfg()) as usize,
                    current_size: s.queue(),
                    backpressure_active: false,
                })
            }),
            final(self).queue() == old(self).queue(),
            final(self).cfg() == old(self).cfg(),
            final(self).job() == old(self).job(),
    {
        self.check_and_maybe_resume_with_reason(ResumeReason::QueueUnderThreshold)
    }

    /// When the producer is paused and the queue is under the resume
    /// threshold, resumes it and returns the resume announcement with the
    /// given reason; else changes nothing.
    pub fn check_and_maybe_resume_with_reason(&mut self, reason: ResumeReason) -> (r: Option<Event>)
        ensures
            ({
                let s = old(self);
                let fire = s.paused_flag() && s.queue() < resume_threshold_of(s.cfg());
                &&& fire <==> r is Some
                &&& fire ==> !final(self).paused_flag() && final(self).paused_at() is None
                &&& !fire ==> final(self).paused_flag() == s.paused_flag() && final(self).paused_at() == s.paused_at()
                &&& r matches Some(e) ==> flow_event_is(e, "resume"@, s.job(), PauseResumePayload {
                    reason: PauseResumeReason::Resume(reason),
                    threshold: resume_threshold_of(s.cfg()) as usize,
                    current_size: s.queue(),
                    backpressure_active: false,
                })
            }),
            final(self).queue() == old(self).queue(),
            final(self).cfg() == old(self).cfg(),
            final(self).job() == old(self).job(),
    {
        proof {
            use_type_invariant(&*self);
            lemma_valid_threshold_fits(self.config);
        }
        let size = self.queue_size;
        let paused = self.paused;
        let should_resume = self.config.should_resume(size);
        if paused && should_resume {
            let payload = PauseResumePayload {
                reason: PauseResumeReason::Resume(reason),
                threshold: self.config.resume_threshold(),
                current_size: size,
                backpressure_active: false,
            };
            let event = make_event("resume", crate::text::copy_opt_string(&self.job_id), Some(EventPayload::Flow(payload)));
            self.paused = false;
            self.paused_since = None;
            Some(event)
        } else {
            None
        }
    }

    /// When the producer has been paused for at least the configured
    /// timeout at time `now` (a clock that went back counts as no time),
    /// empties the queue, resumes and returns the resume announcement with
    /// reason `PauseTimeout`; else changes nothing.
    pub fn check_timeout(&mut self, now: u64) -> (r: Option<Event>)
        ensures
            ({
                let s = old(self);
                let fire = s.paused_flag() && pause_expired(s.paused_at(), now, s.cfg().pause_timeout_secs);
                &&& fire <==> r is Some
                &&& fire ==> !final(self).paused_flag() && final(self).paused_at() is None && final(self).queue() == 0
                &&& !fire ==> final(self).paused_flag() == s.paused_flag() && final(self).paused_at() == s.paused_at()
                    && final(self).queue() == s.queue()
                &&& r matches Some(e) ==> flow_event_is(e, "resume"@, s.job(), PauseResumePayload {
                    reason: PauseResumeReason::Resume(ResumeReason::PauseTimeout),
                    threshold: resume_threshold_of(s.cfg()) as usize,
                    current_size: 0,
                    backpressure_active: false,
                })
            }),
            final(self).cfg() == old(self).cfg(),
            final(self).job() == old(self).job(),
    {
        proof {
            use_type_invariant(&*self);
            lemma_valid_threshold_fits(self.config);
        }
        if !self.paused {
            return None;
        }
        match self.paused_since {
            None => None,
            Some(t) => {
                let elapsed: u64 = if now >= t { now - t } else { 0 };
                if elapsed >= self.config.pause_timeout_secs {
                    self.queue_size = 0;
                    self.paused = false;
                    self.paused_since = None;
                    let payload = PauseResumePayload {
                        reason: PauseResumeReason::Resume(ResumeReason::PauseTimeout),
                        threshold: self.config.resume_threshold(),
                        current_size: 0,
                        backpressure_active: false,
                    };
                    Some(make_event("resume", crate::text::copy_opt_string(&self.job_id), Some(EventPayload::Flow(payload))))
                } else {
                    None
                }
            },
        }
    }

    /// One round of the flow-control checks at time `now`: the pause
    /// timeout, then the pause, then the resume. Returns the announcement
    /// each made, in that order.
    pub fn check_and_emit(&mut self, now: u64) -> (r: (Option<Event>, Option<Event>, Option<Event>))
        ensures
            ({
                let s = old(self);
                let expired = s.paused_flag() && pause_expired(s.paused_at(), now, s.cfg().pause_timeout_secs);
                let threshold = resume_threshold_of(s.cfg());
                &&& r.0 is Some <==> expired
                &&& r.1 is Some <==> (s.queue() >= s.cfg().max_queue_size && !s.paused_flag())
                &&& r.2 is Some <==> (!expired && s.paused_flag() && s.queue() < threshold)
                &&& r.0 matches Some(e) ==> flow_event_is(e, "resume"@, s.job(), PauseResumePayload {
                    reason: PauseResumeReason::Resume(ResumeReason::PauseTimeout),
                    threshold: threshold as usize,
                    current_size: 0,
                    backpressure_active: false,
                })
                &&& r.1 matches Some(e) ==> flow_event_is(e, "pause"@, s.job(), PauseResumePayload {
                    reason: PauseResumeReason::Pause(crate::infra::backpressure::PauseReason::OutputQueueFull),
                    threshold: s.cfg().max_queue_size,
                    current_size: s.queue(),
                    backpressure_active: true,
                })
                &&& r.2 matches Some(e) ==> flow_event_is(e, "resume"@, s.job(), PauseResumePayload {
                    reason: PauseResumeReason::Resume(ResumeReason::QueueUnderThreshold),
                    threshold: threshold as usize,
                    current_size: s.queue(),
                    backpressure_active: false,
                })
                &&& final(self).queue() == (if expired { 0 } else { s.queue() })
                &&& final(self).paused_flag() == (r.1 is Some || (s.paused_flag() && r.0 is None && r.2 is None))
            }),
            final(self).cfg() == old(self).cfg(),
            final(self).job() == old(self).job(),
    {
        proof {
            use_type_invariant(&*self);
            crate::infra::backpressure::lemma_pause_and_resume_exclusive(self.config, self.queue_size);
        }
        let timed_out = self.check_timeout(now);
        let paused = self.check_and_maybe_pause(now);
        let resumed = self.check_and_maybe_resume();
        (timed_out, paused, resumed)
    }
}

} // verus!
