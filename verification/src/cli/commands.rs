//! The handling of protocol commands: what each command asks for, the
//! events it is answered with, and the events of a job's life.
//!
//! Reading the command, looking up a job's flow control, running jobs and
//! writing events are the caller's part; the functions here decide.
use vstd::prelude::*;
use crate::application::indexer::IndexOptions;
use crate::application::protocol::{ChunkEventPayload, ChunkKind, Event, EventPayload, event_is, make_event};
use crate::application::chunking::{ChunkingOptions, ChunkingStrategy};
use crate::domain::normalize::opt_view;
use crate::domain::types::{Chunk, FileRecord};
use crate::infra::backpressure::{BackpressureConfig, BackpressureMonitor};
use crate::text::{append_str, chars_of, copy_opt_string, copy_strings, same_text, string_of, views_of};

verus! {

/// A git revision range.
#[derive(Debug, Clone, PartialEq, Eq)]
pub struct GitRange {
    pub from: Option<String>,
    pub to: Option<String>,
}

/// The options of an indexing request, each absent when the request does
/// not give it (or gives it in another form).
#[derive(Debug, Clone, PartialEq, Eq)]
pub struct RequestOptions {
    pub max_concurrency: Option<u64>,
    pub extract_imports: Option<bool>,
    pub extract_calls: Option<bool>,
    pub chunking: Option<ChunkingOptions>,
    pub backpressure: Option<BackpressureConfig>,
}

/// What a command's payload holds, as far as the commands read it.
#[derive(Debug, Clone, PartialEq, Eq)]
pub struct RequestPayload {
    /// `path`, when it is a string.
    pub path: Option<String>,
    pub options: RequestOptions,
    /// `use_git`, when it is a boolean.
    pub use_git: Option<bool>,
    /// `git_range`, when present.
    pub git_range: Option<GitRange>,
    /// The strings of `files`, when it is an array.
    pub files: Option<Vec<String>>,
    /// `count`, when it is an unsigned integer.
    pub count: Option<u64>,
}

/// A command, as read from its line.
#[derive(Debug, Clone, PartialEq, Eq)]
pub struct CommandRequest {
    pub command: String,
    pub job_id: Option<String>,
    pub payload: Option<RequestPayload>,
}

/// Where a job's files come from.
#[derive(Debug)]
pub enum FileSource {
    /// Walk the directory.
    Walk,
    /// The files given.
    Explicit(Vec<String>),
    /// The files git reports changed between two revisions.
    GitDiff { from: String, to: String },
    /// The files git tracks.
    GitTracked,
}

/// An indexing job to run.
#[derive(Debug)]
pub struct JobPlan {
    pub job_id: String,
    pub path: String,
    pub options: IndexOptions,
    pub files: FileSource,
}

/// What a command asks the caller to do.
#[derive(Debug)]
pub enum CommandPlan {
    /// Write these events.
    Emit(Vec<Event>),
    /// Start a job (in the background).
    StartJob(JobPlan),
    /// Force the job's flow control to resume.
    Resume { job_id: String },
    /// Count events of the job as acknowledged.
    Ack { job_id: String, count: usize },
    /// Nothing.
    Ignore,
}

/// The features the indexer announces.
pub open spec fn feature_names() -> Seq<Seq<char>> {
    seq!["jsonl"@, "incremental_index"@, "git_diff"@, "pause_resume"@, "mcp_compatible"@]
}

/// The languages the line dispatcher announces.
pub open spec fn announced_languages() -> Seq<Seq<char>> {
    seq!["rust"@, "go"@, "python"@, "typescript"@, "javascript"@, "java"@]
}

/// Whether an event is the `capabilities` announcement with the given
/// languages.
pub open spec fn is_capabilities(e: Event, languages: Seq<Seq<char>>) -> bool {
    &&& e.protocol_version@ == "1.0.0"@
    &&& e.message_type@ == "event"@
    &&& e.event@ == "capabilities"@
    &&& e.job_id is None
    &&& e.payload matches Some(EventPayload::Capabilities { version, languages: l, features })
        && version@ == "0.1.0"@ && views_of(l@) == languages && views_of(features@) == feature_names()
}

/// Whether an event is an `error` event with the given job, code, message
/// and recoverability.
pub open spec fn is_failure(e: Event, job_id: Option<Seq<char>>, code: Seq<char>, message: Seq<char>, recoverable: Option<bool>) -> bool {
    &&& e.protocol_version@ == "1.0.0"@
    &&& e.message_type@ == "event"@
    &&& e.event@ == "error"@
    &&& opt_view(e.job_id) == job_id
    &&& e.payload matches Some(EventPayload::Failure { code: c, message: m, recoverable: r })
        && c@ == code && m@ == message && r == recoverable
}

fn feature_list() -> (r: Vec<String>)
    ensures
        views_of(r@) == feature_names(),
{
    let mut v: Vec<String> = Vec::new();
    v.push("jsonl".to_owned());
    v.push("incremental_index".to_owned());
    v.push("git_diff".to_owned());
    v.push("pause_resume".to_owned());
    v.push("mcp_compatible".to_owned());
    assert(views_of(v@) =~= feature_names());
    v
}

/// The `capabilities` announcement for the given languages.
pub fn capabilities_event(languages: &Vec<String>) -> (r: Event)
    ensures
        is_capabilities(r, views_of(languages@)),
{
    let payload = EventPayload::Capabilities {
        version: "0.1.0".to_owned(),
        languages: copy_strings(languages),
        features: feature_list(),
    };
    make_event("capabilities", None, Some(payload))
}

/// An `error` event.
pub fn failure_event(job_id: Option<String>, code: &str, message: String, recoverable: Option<bool>) -> (r: Event)
    ensures
        is_failure(r, opt_view(job_id), code@, message@, recoverable),
{
    let payload = EventPayload::Failure { code: code.to_owned(), message, recoverable };
    make_event("error", job_id, Some(payload))
}

/// `dispatch_line`: a line that is not a command is answered with an
/// `INVALID_COMMAND` error; `list_languages` is answered with the fixed
/// announcement; any other command is left to `plan_command` (`None`).
pub fn dispatch_line(parsed: Option<&CommandRequest>) -> (r: Option<Event>)
    ensures
        parsed is None ==> (r matches Some(e) && is_failure(e, None, "INVALID_COMMAND"@, "failed to parse command"@, Some(false))),
        parsed matches Some(c) ==> (c.command@ == "list_languages"@ <==> r is Some),
        parsed is Some && r is Some ==> is_capabilities(r->0, announced_languages()),
{
    match parsed {
        None => Some(failure_event(None, "INVALID_COMMAND", "failed to parse command".to_owned(), Some(false))),
        Some(c) => {
            if same_text(c.command.as_str(), "list_languages") {
                let mut langs: Vec<String> = Vec::new();
                langs.push("rust".to_owned());
                langs.push("go".to_owned());
                langs.push("python".to_owned());
                langs.push("typescript".to_owned());
                langs.push("javascript".to_owned());
                langs.push("java".to_owned());
                assert(views_of(langs@) =~= announced_languages());
                Some(capabilities_event(&langs))
            } else {
                None
            }
        },
    }
}

/// The options of a job: those the request gives, else the defaults (the
/// configured concurrency, imports and calls, default chunking, no flow
/// control).
pub open spec fn options_match(o: IndexOptions, req: RequestOptions, default_concurrency: usize) -> bool {
    &&& o.max_concurrency == match req.max_concurrency { Some(v) => v as usize, None => default_concurrency }
    &&& o.extract_imports == match req.extract_imports { Some(b) => b, None => true }
    &&& o.extract_calls == match req.extract_calls { Some(b) => b, None => true }
    &&& o.chunking == match req.chunking { Some(c) => c, None => crate::application::chunking::strategy::default_chunking() }
    &&& o.backpressure == req.backpressure
}

fn job_options(req: &RequestOptions, default_concurrency: usize, explicit_files: Option<Vec<String>>) -> (r: IndexOptions)
    ensures
        options_match(r, *req, default_concurrency),
        r.explicit_files == explicit_files,
{
    IndexOptions {
        max_concurrency: match req.max_concurrency {
            Some(v) => v as usize,
            None => default_concurrency,
        },
        explicit_files,
        extract_imports: match req.extract_imports {
            Some(b) => b,
            None => true,
        },
        extract_calls: match req.extract_calls {
            Some(b) => b,
            None => true,
        },
        chunking: match req.chunking {
            Some(c) => c,
            None => ChunkingOptions::default(),
        },
        backpressure: req.backpressure,
    }
}

/// The job id of a request, `job-unknown` when it has none.
pub open spec fn job_name(job_id: Option<String>) -> Seq<char> {
    match job_id {
        Some(j) => j@,
        None => "job-unknown"@,
    }
}

/// The path of a payload, when it is given and not empty.
pub open spec fn usable_path(p: RequestPayload) -> Option<Seq<char>> {
    match p.path {
        Some(s) => if s@.len() > 0 { Some(s@) } else { None },
        None => None,
    }
}

/// Where an incremental job's files come from: with git, the range when
/// both ends are strings, else the tracked files; without git, the files
/// given when there are any, else the walk.
pub open spec fn incremental_source_ok(src: FileSource, p: RequestPayload) -> bool {
    if p.use_git == Some(true) {
        match p.git_range {
            Some(GitRange { from: Some(f), to: Some(t) }) => src matches FileSource::GitDiff { from, to } && from@ == f@ && to@ == t@,
            _ => src is GitTracked,
        }
    } else {
        match p.files {
            Some(v) => if v@.len() > 0 { src matches FileSource::Explicit(w) && views_of(w@) == views_of(v@) } else { src is Walk },
            None => src is Walk,
        }
    }
}

fn job_name_exec(job_id: &Option<String>) -> (r: String)
    ensures
        r@ == job_name(*job_id),
{
    match job_id {
        Some(j) => j.clone(),
        None => "job-unknown".to_owned(),
    }
}

fn single(e: Event) -> (r: Vec<Event>)
    ensures
        r@ == seq![e],
{
    let mut v: Vec<Event> = Vec::new();
    v.push(e);
    v
}

/// `handle_command`'s decisions: `list_languages` is answered with the
/// registered languages; `index_path` and `incremental_index` start a job
/// when their payload has a path (else an `INVALID_PAYLOAD` error);
/// `dry_run` and `list_files` are answered with an empty progress event;
/// `resume` and `ack` act on the job's flow control when they name a job;
/// any other command is answered with an `INVALID_COMMAND` error.
pub fn plan_command(req: &CommandRequest, default_concurrency: usize, languages: &Vec<String>) -> (r: CommandPlan)
    ensures
        ({
            let c = req.command@;
            let job = opt_view(req.job_id);
            if c == "list_languages"@ {
                r matches CommandPlan::Emit(v) && v@.len() == 1 && is_capabilities(v@[0], views_of(languages@))
            } else if c == "index_path"@ || c == "incremental_index"@ {
                match req.payload {
                    None => r matches CommandPlan::Emit(v) && v@.len() == 1 && is_failure(v@[0], job, "INVALID_PAYLOAD"@,
                        "missing payload for "@ + c, Some(false)),
                    Some(p) => match usable_path(p) {
                        None => r matches CommandPlan::Emit(v) && v@.len() == 1 && is_failure(v@[0], job, "INVALID_PAYLOAD"@,
                            "missing path in payload"@, Some(false)),
                        Some(path) => r matches CommandPlan::StartJob(plan) && plan.job_id@ == job_name(req.job_id)
                            && plan.path@ == path && options_match(plan.options, p.options, default_concurrency)
                            && (c == "index_path"@ ==> plan.files is Walk && plan.options.explicit_files is None)
                            && (c == "incremental_index"@ ==> incremental_source_ok(plan.files, p)
                                && match plan.files {
                                    FileSource::Explicit(w) => plan.options.explicit_files matches Some(e) && views_of(e@) == views_of(w@),
                                    _ => plan.options.explicit_files is None,
                                }),
                    },
                }
            } else if c == "dry_run"@ || c == "list_files"@ {
                r matches CommandPlan::Emit(v) && v@.len() == 1 && event_is(v@[0], "job_progress"@, req.job_id,
                    Some(EventPayload::JobProgress { processed_files: 0, total_files: 0 }))
            } else if c == "resume"@ {
                match req.job_id {
                    Some(j) => r matches CommandPlan::Resume { job_id } && job_id@ == j@,
                    None => r is Ignore,
                }
            } else if c == "ack"@ {
                match req.job_id {
                    Some(j) => r matches CommandPlan::Ack { job_id, count } && job_id@ == j@
                        && count == match req.payload { Some(p) => match p.count { Some(n) => n as usize, None => 1usize }, None => 1usize },
                    None => r is Ignore,
                }
            } else {
                r matches CommandPlan::Emit(v) && v@.len() == 1 && is_failure(v@[0], job, "INVALID_COMMAND"@,
                    "unknown command: "@ + c, Some(false))
            }
        }),
{
    let c = req.command.as_str();
    if same_text(c, "list_languages") {
        return CommandPlan::Emit(single(capabilities_event(languages)));
    }
    let is_index = same_text(c, "index_path");
    let is_incremental = same_text(c, "incremental_index");
    if is_index || is_incremental {
        let p = match &req.payload {
            None => {
                let mut m: Vec<char> = Vec::new();
                append_str(&mut m, "missing payload for ");
                append_str(&mut m, c);
                let e = failure_event(copy_opt_string(&req.job_id), "INVALID_PAYLOAD", string_of(m.as_slice()), Some(false));
                return CommandPlan::Emit(single(e));
            },
            Some(p) => p,
        };
        let path = match &p.path {
            Some(s) => if s.as_str().is_empty() {
                None
            } else {
                Some(s.clone())
            },
            None => None,
        };
        let path = match path {
            None => {
                let e = failure_event(copy_opt_string(&req.job_id), "INVALID_PAYLOAD", "missing path in payload".to_owned(), Some(false));
                return CommandPlan::Emit(single(e));
            },
            Some(s) => s,
        };
        let job_id = job_name_exec(&req.job_id);
        if is_index {
            assert("index_path"@ != "incremental_index"@) by {
                reveal_strlit("index_path");
                reveal_strlit("incremental_index");
                assert("index_path"@.len() != "incremental_index"@.len());
            }
            let options = job_options(&p.options, default_concurrency, None);
            return CommandPlan::StartJob(JobPlan { job_id, path, options, files: FileSource::Walk });
        }
        let (files, explicit): (FileSource, Option<Vec<String>>) = if p.use_git == Some(true) {
            match &p.git_range {
                Some(GitRange { from: Some(f), to: Some(t) }) => (FileSource::GitDiff { from: f.clone(), to: t.clone() }, None),
                _ => (FileSource::GitTracked, None),
            }
        } else {
            match &p.files {
                Some(v) => if v.len() > 0 {
                    (FileSource::Explicit(copy_strings(v)), Some(copy_strings(v)))
                } else {
                    (FileSource::Walk, None)
                },
                None => (FileSource::Walk, None),
            }
        };
        let options = job_options(&p.options, default_concurrency, explicit);
        return CommandPlan::StartJob(JobPlan { job_id, path, options, files });
    }
    if same_text(c, "dry_run") || same_text(c, "list_files") {
        let e = make_event("job_progress", copy_opt_string(&req.job_id), Some(EventPayload::JobProgress { processed_files: 0, total_files: 0 }));
        return CommandPlan::Emit(single(e));
    }
    if same_text(c, "resume") {
        return match &req.job_id {
            Some(j) => CommandPlan::Resume { job_id: j.clone() },
            None => CommandPlan::Ignore,
        };
    }
    if same_text(c, "ack") {
        return match &req.job_id {
            Some(j) => {
                let count: usize = match &req.payload {
                    Some(p) => match p.count {
                        Some(n) => n as usize,
                        None => 1,
                    },
                    None => 1,
                };
                CommandPlan::Ack { job_id: j.clone(), count }
            },
            None => CommandPlan::Ignore,
        };
    }
    let mut m: Vec<char> = Vec::new();
    append_str(&mut m, "unknown command: ");
    append_str(&mut m, c);
    let e = failure_event(copy_opt_string(&req.job_id), "INVALID_COMMAND", string_of(m.as_slice()), Some(false));
    CommandPlan::Emit(single(e))
}

// ---------------------------------------------------------------------------
// The events of a job
// ---------------------------------------------------------------------------

/// `job_started`.
pub fn job_started_event(job_id: &str) -> (r: Event)
    ensures
        r.event@ == "job_started"@ && opt_view(r.job_id) == Some(job_id@)
            && r.payload == Some(EventPayload::JobStarted { total_files: 0 }),
        r.protocol_version@ == "1.0.0"@ && r.message_type@ == "event"@,
{
    make_event("job_started", Some(job_id.to_owned()), Some(EventPayload::JobStarted { total_files: 0 }))
}

/// The `chunk_emitted` event of a job's chunk, reported as a symbol chunk.
pub fn chunk_emitted_event(job_id: &str, chunk: &Chunk) -> (r: Event)
    ensures
        r.event@ == "chunk_emitted"@ && opt_view(r.job_id) == Some(job_id@),
        r.protocol_version@ == "1.0.0"@ && r.message_type@ == "event"@,
        r.payload matches Some(EventPayload::Chunk(p)) && p.chunk_id@ == chunk.id@ && p.chunk_kind == ChunkKind::Symbol
            && p.file@ == chunk.file_path@ && p.language == chunk.language && p.symbol_id == chunk.symbol_id
            && p.start_line == chunk.start_line && p.end_line == chunk.end_line && p.text@ == chunk.text@
            && p.chunk_md5@ == chunk.md5@ && p.size == chunk.size,
{
    let p = ChunkEventPayload {
        chunk_id: chunk.id.clone(),
        chunk_kind: ChunkKind::Symbol,
        file: chunk.file_path.clone(),
        language: copy_opt_string(&chunk.language),
        symbol_id: copy_opt_string(&chunk.symbol_id),
        start_line: chunk.start_line,
        end_line: chunk.end_line,
        text: chunk.text.clone(),
        chunk_md5: chunk.md5.clone(),
        size: chunk.size,
    };
    make_event("chunk_emitted", Some(job_id.to_owned()), Some(EventPayload::Chunk(p)))
}

/// `job_completed` after `processed` chunks without error.
pub fn job_completed_event(job_id: &str, processed: u64) -> (r: Event)
    ensures
        r.event@ == "job_completed"@ && opt_view(r.job_id) == Some(job_id@)
            && r.payload == Some(EventPayload::JobCompleted { processed, duration_ms: 0, errors: None }),
        r.protocol_version@ == "1.0.0"@ && r.message_type@ == "event"@,
{
    make_event("job_completed", Some(job_id.to_owned()), Some(EventPayload::JobCompleted { processed, duration_ms: 0, errors: None }))
}

/// A failed job: the error, then `job_completed` with nothing processed
/// and one error.
pub fn job_failed_events(job_id: &str, code: &str, message: String) -> (r: Vec<Event>)
    ensures
        r@.len() == 2,
        is_failure(r@[0], Some(job_id@), code@, message@, Some(false)),
        r@[1].event@ == "job_completed"@ && opt_view(r@[1].job_id) == Some(job_id@)
            && r@[1].payload == Some(EventPayload::JobCompleted { processed: 0, duration_ms: 0, errors: Some(1) }),
{
    let mut v: Vec<Event> = Vec::new();
    v.push(failure_event(Some(job_id.to_owned()), code, message, Some(false)));
    v.push(make_event("job_completed", Some(job_id.to_owned()), Some(EventPayload::JobCompleted { processed: 0, duration_ms: 0, errors: Some(1) })));
    v
}

/// The listing of a file.
pub fn file_listed_event(job_id: Option<String>, record: &FileRecord) -> (r: Event)
    ensures
        event_is(r, "file_listed"@, job_id, Some(EventPayload::FileListed(*record))),
{
    make_event("file_listed", job_id, Some(EventPayload::FileListed(record.duplicate())))
}

/// A file the walk could not list, and why.
pub fn file_invalid_event(job_id: Option<String>, path: String, reason: &str) -> (r: Event)
    ensures
        r.event@ == "file_invalid"@ && r.job_id == job_id,
        r.payload matches Some(EventPayload::FileInvalid { path: p, reason: why }) && p@ == path@ && why@ == reason@,
{
    make_event("file_invalid", job_id, Some(EventPayload::FileInvalid { path, reason: reason.to_owned() }))
}

/// The listing of given files, as records without size, time, digest or
/// language.
pub fn explicit_records(files: &Vec<String>) -> (r: Vec<FileRecord>)
    ensures
        r@.len() == files@.len(),
        forall|i: int| 0 <= i < r@.len() ==> (#[trigger] r@[i]).path@ == files@[i]@ && r@[i].size == 0 && r@[i].mtime == 0
            && r@[i].hash@.len() == 0 && r@[i].language is None,
{
    let mut out: Vec<FileRecord> = Vec::new();
    let mut i: usize = 0;
    while i < files.len()
        invariant
            i <= files.len(),
            out@.len() == i,
            forall|k: int| 0 <= k < i ==> (#[trigger] out@[k]).path@ == files@[k]@ && out@[k].size == 0 && out@[k].mtime == 0
                && out@[k].hash@.len() == 0 && out@[k].language is None,
        decreases files.len() - i,
    {
        out.push(FileRecord { path: files[i].clone(), size: 0, mtime: 0, hash: String::new(), language: None });
        i += 1;
    }
    out
}

/// The answer to `resume` for a job with flow control: the control is
/// forced to resume and reports its queue and state.
pub fn resume_reply(job_id: &str, monitor: &mut BackpressureMonitor) -> (r: Event)
    ensures
        final(monitor).queue() == 0 && !final(monitor).paused_flag(),
        final(monitor).cfg() == old(monitor).cfg(),
        r.event@ == "ack_resume"@ && opt_view(r.job_id) == Some(job_id@),
        r.payload matches Some(EventPayload::AckResume { status, queue_size, paused }) && status@ == "ok"@
            && queue_size == 0 && !paused,
{
    monitor.force_resume();
    let payload = EventPayload::AckResume {
        status: "ok".to_owned(),
        queue_size: monitor.current_queue_size(),
        paused: monitor.is_paused(),
    };
    make_event("ack_resume", Some(job_id.to_owned()), Some(payload))
}

/// The answer to a command for a job without flow control.
pub fn job_not_found_event(job_id: &str) -> (r: Event)
    ensures
        is_failure(r, Some(job_id@), "JOB_NOT_FOUND"@, "no active monitor found for job_id"@, None),
{
    failure_event(Some(job_id.to_owned()), "JOB_NOT_FOUND", "no active monitor found for job_id".to_owned(), None)
}

/// The answer to `ack` for a job with flow control: `count` events are
/// acknowledged, the producer resumes if the queue fell under the
/// threshold (that announcement comes first), then the acknowledgement
/// with the queue and state.
pub fn ack_reply(job_id: &str, count: usize, monitor: &mut BackpressureMonitor) -> (r: Vec<Event>)
    ensures
        ({
            let s = old(monitor);
            let q = if s.queue() >= count { s.queue() - count } else { 0 };
            let fire = s.paused_flag() && q < crate::infra::backpressure::resume_threshold_of(s.cfg());
            &&& final(monitor).queue() == q
            &&& final(monitor).paused_flag() == (s.paused_flag() && !fire)
            &&& r@.len() == if fire { 2int } else { 1int }
            &&& r@.last().event@ == "ack"@
            &&& opt_view(r@.last().job_id) == Some(job_id@)
            &&& r@.last().payload matches Some(EventPayload::Ack { status, count: c, current_queue_size, paused })
                && status@ == "ok"@ && c == count && current_queue_size == q && paused == final(monitor).paused_flag()
            &&& fire ==> r@[0].event@ == "resume"@
        }),
        final(monitor).cfg() == old(monitor).cfg(),
{
    let mut out: Vec<Event> = Vec::new();
    monitor.decrement_queue_size(count);
    match monitor.check_and_maybe_resume() {
        Some(e) => out.push(e),
        None => {},
    }
    let payload = EventPayload::Ack {
        status: "ok".to_owned(),
        count,
        current_queue_size: monitor.current_queue_size(),
        paused: monitor.is_paused(),
    };
    out.push(make_event("ack", Some(job_id.to_owned()), Some(payload)));
    out
}

} // verus!
