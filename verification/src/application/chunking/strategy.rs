//! The chunking strategies a user can choose, and the options of chunking.
use vstd::prelude::*;

verus! {

/// The base strategy.
#[derive(Debug, Clone, Copy, PartialEq, Eq, Structural)]
pub enum ChunkingStrategy {
    /// One chunk per symbol.
    SymbolBoundary,
    /// Related symbols grouped together.
    Semantic,
    /// Consecutive symbols grouped up to a line limit.
    LineLimited,
}

/// How files are chunked.
#[derive(Debug, Clone, Copy, PartialEq, Eq, Structural)]
pub struct ChunkingOptions {
    pub strategy: ChunkingStrategy,
    /// Line limit of a chunk (zero: none).
    pub max_lines: usize,
    /// Lines shared with neighbouring chunks (zero: none).
    pub overlap_lines: usize,
    /// Whether imports and scopes are prefixed to chunks.
    pub include_context: bool,
    /// Whether exact token counts are recorded.
    pub token_counting: bool,
}

/// The default options: semantic chunks of at most 200 lines, one line of
/// overlap, with context, without token counts.
pub open spec fn default_chunking() -> ChunkingOptions {
    ChunkingOptions {
        strategy: ChunkingStrategy::Semantic,
        max_lines: 200,
        overlap_lines: 1,
        include_context: true,
        token_counting: false,
    }
}

impl Default for ChunkingOptions {
    fn default() -> (r: Self)
        ensures
            r == default_chunking(),
    {
        ChunkingOptions {
            strategy: ChunkingStrategy::Semantic,
            max_lines: 200,
            overlap_lines: 1,
            include_context: true,
            token_counting: false,
        }
    }
}

} // verus!
