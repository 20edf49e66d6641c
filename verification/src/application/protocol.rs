//! The messages of the line protocol between the indexer and its consumer.
use vstd::prelude::*;
use crate::domain::types::{CallEdge, Chunk, FileRecord, ImportEdge};
use crate::domain::normalize::opt_view;
use crate::infra::backpressure::PauseResumePayload;
use crate::text::{lowercase, seq_eq, chars_of, to_lowercase};

verus! {

/// The version of the protocol that every message carries.
pub open spec fn protocol_version() -> Seq<char> {
    "1.0.0"@
}

/// The kind of a chunk as the protocol names it.
#[derive(Debug, Clone, Copy, PartialEq, Eq, Structural)]
pub enum ChunkKind {
    FullFile,
    Symbol,
    Contextual,
}

/// The payload of a `chunk_emitted` event.
#[derive(Debug, Clone, PartialEq, Eq)]
pub struct ChunkEventPayload {
    pub chunk_id: String,
    pub chunk_kind: ChunkKind,
    /// The file's path, relative to the indexed root.
    pub file: String,
    pub language: Option<String>,
    pub symbol_id: Option<String>,
    pub start_line: usize,
    pub end_line: usize,
    pub text: String,
    pub chunk_md5: String,
    pub size: usize,
}

/// The protocol kind of a chunk's kind label: an exact match of
/// `FullFile`, `Symbol` or `Contextual`, else a match of the label in lower
/// case with `fullfile`, `symbol` or `contextual`; anything else, and no
/// label, is `Contextual`.
pub open spec fn chunk_kind_of(label: Option<Seq<char>>) -> ChunkKind {
    match label {
        None => ChunkKind::Contextual,
        Some(s) => if s == "FullFile"@ {
            ChunkKind::FullFile
        } else if s == "Symbol"@ {
            ChunkKind::Symbol
        } else if s == "Contextual"@ {
            ChunkKind::Contextual
        } else if lowercase(s) == "fullfile"@ {
            ChunkKind::FullFile
        } else if lowercase(s) == "symbol"@ {
            ChunkKind::Symbol
        } else {
            ChunkKind::Contextual
        },
    }
}

fn chunk_kind_from_label(label: &Option<String>) -> (r: ChunkKind)
    ensures
        r == chunk_kind_of(opt_view(*label)),
{
    match label {
        None => ChunkKind::Contextual,
        Some(s) => {
            let c = chars_of(s.as_str());
            let full = chars_of("FullFile");
            let sym = chars_of("Symbol");
            let ctx = chars_of("Contextual");
            if seq_eq(c.as_slice(), full.as_slice()) {
                ChunkKind::FullFile
            } else if seq_eq(c.as_slice(), sym.as_slice()) {
                ChunkKind::Symbol
            } else if seq_eq(c.as_slice(), ctx.as_slice()) {
                ChunkKind::Contextual
            } else {
                let low = to_lowercase(s.as_str());
                let lc = chars_of(low.as_str());
                let lfull = chars_of("fullfile");
                let lsym = chars_of("symbol");
                if seq_eq(lc.as_slice(), lfull.as_slice()) {
                    ChunkKind::FullFile
                } else if seq_eq(lc.as_slice(), lsym.as_slice()) {
                    ChunkKind::Symbol
                } else {
                    ChunkKind::Contextual
                }
            }
        },
    }
}

impl From<Chunk> for ChunkEventPayload {
    /// The chunk's identity, place and text, with its kind label mapped to a
    /// protocol kind.
    fn from(c: Chunk) -> (r: Self) {
        let kind = chunk_kind_from_label(&c.chunk_kind);
        ChunkEventPayload {
            chunk_id: c.id,
            chunk_kind: kind,
            file: c.file_path,
            language: c.language,
            symbol_id: c.symbol_id,
            start_line: c.start_line,
            end_line: c.end_line,
            text: c.text,
            chunk_md5: c.md5,
            size: c.size,
        }
    }
}

impl vstd::std_specs::convert::FromSpecImpl<Chunk> for ChunkEventPayload {
    open spec fn obeys_from_spec() -> bool {
        true
    }

    open spec fn from_spec(c: Chunk) -> Self {
        ChunkEventPayload {
            chunk_id: c.id,
            chunk_kind: chunk_kind_of(opt_view(c.chunk_kind)),
            file: c.file_path,
            language: c.language,
            symbol_id: c.symbol_id,
            start_line: c.start_line,
            end_line: c.end_line,
            text: c.text,
            chunk_md5: c.md5,
            size: c.size,
        }
    }
}

impl ChunkEventPayload {
    /// A field-by-field copy.
    pub fn duplicate(&self) -> (r: Self)
        ensures
            r == *self,
    {
        ChunkEventPayload {
            chunk_id: self.chunk_id.clone(),
            chunk_kind: self.chunk_kind,
            file: self.file.clone(),
            language: crate::text::copy_opt_string(&self.language),
            symbol_id: crate::text::copy_opt_string(&self.symbol_id),
            start_line: self.start_line,
            end_line: self.end_line,
            text: self.text.clone(),
            chunk_md5: self.chunk_md5.clone(),
            size: self.size,
        }
    }
}

/// What an event carries.
#[derive(Debug, Clone, PartialEq, Eq)]
pub enum EventPayload {
    Chunk(ChunkEventPayload),
    Import(ImportEdge),
    Call(CallEdge),
    Flow(PauseResumePayload),
    /// The program's version, languages and features.
    Capabilities { version: String, languages: Vec<String>, features: Vec<String> },
    /// A failure, with a code and a message.
    Failure { code: String, message: String, recoverable: Option<bool> },
    /// A job has started.
    JobStarted { total_files: u64 },
    /// Progress of a job.
    JobProgress { processed_files: u64, total_files: u64 },
    /// A job has ended.
    JobCompleted { processed: u64, duration_ms: u64, errors: Option<u64> },
    /// A resume was forced.
    AckResume { status: String, queue_size: usize, paused: bool },
    /// Events were acknowledged.
    Ack { status: String, count: usize, current_queue_size: usize, paused: bool },
    /// A file found by the walk.
    FileListed(FileRecord),
    /// A file the walk could not list.
    FileInvalid { path: String, reason: String },
}

/// A message from the indexer to its consumer.
#[derive(Debug, Clone, PartialEq, Eq)]
pub struct Event {
    pub protocol_version: String,
    /// The message type; always `event`.
    pub message_type: String,
    /// The event's name, such as `chunk_emitted` or `pause`.
    pub event: String,
    pub job_id: Option<String>,
    pub payload: Option<EventPayload>,
}

/// Whether an event has the protocol version, the type `event`, the given
/// name, job and payload.
pub open spec fn event_is(e: Event, name: Seq<char>, job_id: Option<String>, payload: Option<EventPayload>) -> bool {
    &&& e.protocol_version@ == protocol_version()
    &&& e.message_type@ == "event"@
    &&& e.event@ == name
    &&& e.job_id == job_id
    &&& e.payload == payload
}

/// Builds an event of the current protocol version.
pub fn make_event(name: &str, job_id: Option<String>, payload: Option<EventPayload>) -> (r: Event)
    ensures
        event_is(r, name@, job_id, payload),
{
    Event {
        protocol_version: "1.0.0".to_owned(),
        message_type: "event".to_owned(),
        event: name.to_owned(),
        job_id,
        payload,
    }
}

} // verus!
