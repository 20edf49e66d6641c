//! The indexing pipeline's infrastructure: flow control of the event stream,
//! the events written to it, the directory walk and benchmarks.
pub mod backpressure;
pub mod benchmarks;
pub mod globs;
pub mod json;
pub mod jsonl;
pub mod mcp;
pub mod walker;
