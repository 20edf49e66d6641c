//! Splitting a source file into chunks: a family of strategies and two
//! decorators (neighbour overlap and context injection).
use vstd::prelude::*;
use crate::domain::types::{Chunk, ChunkView, Symbol, chunk_views};

pub mod common;
pub mod size_limited;
pub mod token_limited;
pub mod symbol_boundary;
pub mod semantic;
pub mod overlap;
pub mod with_context;
pub mod strategy;
pub mod token_count;

pub use size_limited::SizeLimitedChunker;
pub use token_limited::ApproxTokenLimitedChunker;
pub use symbol_boundary::SymbolBoundaryChunker;
pub use semantic::SemanticChunker;
pub use overlap::OverlapChunker;
pub use with_context::ContextInjectionChunker;
pub use strategy::{ChunkingOptions, ChunkingStrategy};
pub use token_count::apply_token_count;

verus! {

/// The symbols handed to a strategy, as a sequence.
pub open spec fn opt_symbols(s: Option<&Vec<Symbol>>) -> Option<Seq<Symbol>> {
    match s {
        Some(v) => Some(v@),
        None => None,
    }
}

/// A way of splitting a file into chunks.
pub trait ChunkStrategy {
    /// The chunks this strategy makes of a file.
    spec fn chunks_of(&self, file_path: Seq<char>, source: Seq<char>, symbols: Option<Seq<Symbol>>) -> Seq<ChunkView>;

    /// Whether the strategy accepts these symbols.
    spec fn accepts(&self, symbols: Option<Seq<Symbol>>) -> bool;

    /// Splits a file, given its symbols when they are known.
    fn chunk_file(&self, file_path: &str, source: &str, symbols: Option<&Vec<Symbol>>) -> (r: Vec<Chunk>)
        requires
            self.accepts(opt_symbols(symbols)),
        ensures
            chunk_views(r@) == self.chunks_of(file_path@, source@, opt_symbols(symbols)),
    ;
}

} // verus!
