//! What the indexer computes from the files it reads: the messages it
//! exchanges with its consumer, the chunking of source text and the
//! processing of one file.
pub mod chunking;
pub mod indexer;
pub mod protocol;
