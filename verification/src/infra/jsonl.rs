//! The events the indexer writes, one JSON object per line, and the flow
//! control around writing them. Writing and waiting are the caller's part:
//! the functions here build the events and decide what to write and when
//! to wait.
use vstd::prelude::*;
use crate::application::protocol::{ChunkEventPayload, Event, EventPayload, event_is, make_event};
use crate::domain::types::{CallEdge, ImportEdge};
use crate::infra::backpressure::{BackpressureConfigError, BackpressureMonitor, PauseResumePayload};
use crate::infra::backpressure::flow_event_is;

verus! {

/// The `chunk_emitted` event for a chunk.
pub fn build_chunk_event(job_id: Option<String>, payload: &ChunkEventPayload) -> (r: Event)
    ensures
        event_is(r, "chunk_emitted"@, job_id, Some(EventPayload::Chunk(*payload))),
{
    make_event("chunk_emitted", job_id, Some(EventPayload::Chunk(payload.duplicate())))
}

/// The `import_edge` event for an import.
pub fn build_import_event(job_id: Option<String>, payload: &ImportEdge) -> (r: Event)
    ensures
        event_is(r, "import_edge"@, job_id, Some(EventPayload::Import(*payload))),
{
    make_event("import_edge", job_id, Some(EventPayload::Import(payload.duplicate())))
}

/// The `call_edge` event for a call.
pub fn build_call_event(job_id: Option<String>, payload: &CallEdge) -> (r: Event)
    ensures
        event_is(r, "call_edge"@, job_id, Some(EventPayload::Call(*payload))),
{
    make_event("call_edge", job_id, Some(EventPayload::Call(payload.duplicate())))
}

/// A `pause` event without payload.
pub fn build_pause_event(job_id: Option<String>) -> (r: Event)
    ensures
        event_is(r, "pause"@, job_id, None),
{
    make_event("pause", job_id, None)
}

/// A `resume` event without payload.
pub fn build_resume_event(job_id: Option<String>) -> (r: Event)
    ensures
        event_is(r, "resume"@, job_id, None),
{
    make_event("resume", job_id, None)
}

/// A `pause` event with its payload.
pub fn build_pause_event_with_payload(job_id: Option<String>, payload: PauseResumePayload) -> (r: Event)
    ensures
        flow_event_is(r, "pause"@, job_id, payload),
{
    make_event("pause", job_id, Some(EventPayload::Flow(payload)))
}

/// A `resume` event with its payload.
pub fn build_resume_event_with_payload(job_id: Option<String>, payload: PauseResumePayload) -> (r: Event)
    ensures
        flow_event_is(r, "resume"@, job_id, payload),
{
    make_event("resume", job_id, Some(EventPayload::Flow(payload)))
}

/// What the caller does to emit an event under flow control.
#[derive(Debug)]
pub enum EmitStep {
    /// Write these events, in order; the emission is complete.
    Write(Vec<Event>),
    /// Write `before`, wait until the producer is resumed, then hand
    /// `event` to `finish_emit`.
    WaitThenFinish { before: Vec<Event>, event: Event },
}

/// The second half of an emission, once the producer is not paused: the
/// event itself, then the pause announcement if the queue has reached its
/// limit.
pub fn finish_emit(monitor: &mut BackpressureMonitor, event: Event, now: u64) -> (r: Vec<Event>)
    ensures
        r.len() >= 1,
        r[0] == event,
        ({
            let s = old(monitor);
            let fire = s.queue() >= s.cfg().max_queue_size && !s.paused_flag();
            &&& r.len() == if fire { 2int } else { 1int }
            &&& fire ==> final(monitor).paused_flag() && final(monitor).paused_at() == Some(now)
            &&& !fire ==> final(monitor).paused_flag() == s.paused_flag() && final(monitor).paused_at() == s.paused_at()
        }),
        final(monitor).queue() == old(monitor).queue(),
        final(monitor).cfg() == old(monitor).cfg(),
        final(monitor).job() == old(monitor).job(),
{
    let mut out: Vec<Event> = Vec::new();
    out.push(event);
    match monitor.check_and_maybe_pause(now) {
        Some(p) => out.push(p),
        None => {},
    }
    out
}

/// The first half of an emission under flow control: counts the event in
/// the queue; when the producer is paused, or the queue has reached its
/// limit (which pauses it), the caller must wait before the event is
/// written; else the event is written at once, followed by a pause
/// announcement if the queue is now at its limit.
pub fn emit_with_backpressure(monitor: &mut BackpressureMonitor, event: Event, now: u64) -> (r: EmitStep)
    ensures
        flow_step(*old(monitor), *final(monitor), now, r, |e: Event| e == event),
{
    monitor.increment_queue_size();
    if monitor.is_paused() {
        return EmitStep::WaitThenFinish { before: Vec::new(), event };
    }
    let size = monitor.current_queue_size();
    let max = monitor.config().max_queue_size;
    if size >= max {
        let mut before: Vec<Event> = Vec::new();
        match monitor.check_and_maybe_pause(now) {
            Some(p) => before.push(p),
            None => {},
        }
        EmitStep::WaitThenFinish { before, event }
    } else {
        let out = finish_emit(monitor, event, now);
        assert(out@ == seq![event]);
        EmitStep::Write(out)
    }
}

/// `emit_with_backpressure` of the `chunk_emitted` event for a chunk.
pub fn emit_chunk_with_backpressure(
    monitor: &mut BackpressureMonitor,
    job_id: Option<String>,
    payload: &ChunkEventPayload,
    now: u64,
) -> (r: Result<EmitStep, BackpressureConfigError>)
    ensures
        r matches Ok(step) && flow_step(*old(monitor), *final(monitor), now, step, |e: Event|
            event_is(e, "chunk_emitted"@, job_id, Some(EventPayload::Chunk(*payload)))),
{
    let ev = build_chunk_event(job_id, payload);
    Ok(emit_with_backpressure(monitor, ev, now))
}

/// `emit_with_backpressure` of the `import_edge` event for an import.
pub fn emit_import_with_backpressure(
    monitor: &mut BackpressureMonitor,
    job_id: Option<String>,
    payload: &ImportEdge,
    now: u64,
) -> (r: Result<EmitStep, BackpressureConfigError>)
    ensures
        r matches Ok(step) && flow_step(*old(monitor), *final(monitor), now, step, |e: Event|
            event_is(e, "import_edge"@, job_id, Some(EventPayload::Import(*payload)))),
{
    let ev = build_import_event(job_id, payload);
    Ok(emit_with_backpressure(monitor, ev, now))
}

/// `emit_with_backpressure` of the `call_edge` event for a call.
pub fn emit_call_with_backpressure(
    monitor: &mut BackpressureMonitor,
    job_id: Option<String>,
    payload: &CallEdge,
    now: u64,
) -> (r: Result<EmitStep, BackpressureConfigError>)
    ensures
        r matches Ok(step) && flow_step(*old(monitor), *final(monitor), now, step, |e: Event|
            event_is(e, "call_edge"@, job_id, Some(EventPayload::Call(*payload)))),
{
    let ev = build_call_event(job_id, payload);
    Ok(emit_with_backpressure(monitor, ev, now))
}

/// `emit_with_backpressure` of a `pause` announcement, with the payload
/// when one is given.
pub fn emit_pause_with_backpressure(
    monitor: &mut BackpressureMonitor,
    job_id: Option<String>,
    payload: Option<PauseResumePayload>,
    now: u64,
) -> (r: Result<EmitStep, BackpressureConfigError>)
    ensures
        r matches Ok(step) && flow_step(*old(monitor), *final(monitor), now, step, |e: Event|
            match payload {
                Some(p) => flow_event_is(e, "pause"@, job_id, p),
                None => event_is(e, "pause"@, job_id, None),
            }),
{
    let ev = match payload {
        Some(p) => build_pause_event_with_payload(job_id, p),
        None => build_pause_event(job_id),
    };
    Ok(emit_with_backpressure(monitor, ev, now))
}

/// `emit_with_backpressure` of a `resume` announcement, with the payload
/// when one is given.
pub fn emit_resume_with_backpressure(
    monitor: &mut BackpressureMonitor,
    job_id: Option<String>,
    payload: Option<PauseResumePayload>,
    now: u64,
) -> (r: Result<EmitStep, BackpressureConfigError>)
    ensures
        r matches Ok(step) && flow_step(*old(monitor), *final(monitor), now, step, |e: Event|
            match payload {
                Some(p) => flow_event_is(e, "resume"@, job_id, p),
                None => event_is(e, "resume"@, job_id, None),
            }),
{
    let ev = match payload {
        Some(p) => build_resume_event_with_payload(job_id, p),
        None => build_resume_event(job_id),
    };
    Ok(emit_with_backpressure(monitor, ev, now))
}

/// `emit_with_backpressure` of any event.
pub fn emit_event_with_backpressure(monitor: &mut BackpressureMonitor, event: Event, now: u64) -> (r: Result<EmitStep, BackpressureConfigError>)
    ensures
        r matches Ok(step) && flow_step(*old(monitor), *final(monitor), now, step, |e: Event| e == event),
{
    Ok(emit_with_backpressure(monitor, event, now))
}

/// One emission under flow control, from the monitor `s` before it to `t`
/// after it, of an event with property `p`: the event is counted in the
/// queue; a producer that was paused waits, and stays paused; one that
/// was not and whose queue is now at its limit waits after a pause
/// announcement, and is paused from `now`; any other gets the event written
/// at once and stays unpaused.
pub open spec fn flow_step(s: BackpressureMonitor, t: BackpressureMonitor, now: u64, step: EmitStep, p: spec_fn(Event) -> bool) -> bool {
    let q = if s.queue() == usize::MAX { 0 } else { s.queue() + 1 };
    let full = q >= s.cfg().max_queue_size;
    &&& t.queue() == q
    &&& t.cfg() == s.cfg()
    &&& t.job() == s.job()
    &&& s.paused_flag() ==> (step matches EmitStep::WaitThenFinish { before, event } && p(event) && before@.len() == 0)
        && t.paused_flag() && t.paused_at() == s.paused_at()
    &&& !s.paused_flag() && full ==> (step matches EmitStep::WaitThenFinish { before, event }
        && p(event) && before@.len() == 1 && flow_event_is(before@[0], "pause"@, s.job(), PauseResumePayload {
            reason: crate::infra::backpressure::PauseResumeReason::Pause(
                crate::infra::backpressure::PauseReason::OutputQueueFull),
            threshold: s.cfg().max_queue_size,
            current_size: q as usize,
            backpressure_active: true,
        }))
        && t.paused_flag() && t.paused_at() == Some(now)
    &&& !s.paused_flag() && !full ==> (step matches EmitStep::Write(v) && v@.len() == 1 && p(v@[0]))
        && !t.paused_flag() && t.paused_at() == s.paused_at()
}

} // verus!
