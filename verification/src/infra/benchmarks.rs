//! Measuring how fast an adapter reads a source: one parse and extraction.
use vstd::prelude::*;
use crate::adapters::LanguageAdapter;
use crate::adapters::syntax::AdapterError;
use crate::domain::parser::ParsedFile;
use crate::domain::types::Symbol;

verus! {

/// The totals of a benchmark run.
pub struct BenchResult {
    pub elapsed_us: u128,
    pub symbols_count: usize,
    pub source_len: usize,
    pub language: String,
    pub iterations: usize,
}

/// Parses a source and extracts its symbols; the first failure is returned
/// as the adapter gave it.
pub fn parse_once<A: LanguageAdapter + ?Sized>(adapter: &A, source: &str) -> (r: Result<(ParsedFile, Vec<Symbol>), AdapterError>)
    ensures
        r matches Ok(v) ==> v.0.source@ == source@ && v.0.source_len == crate::domain::parser::utf8_len(source@),
        r matches Ok(v) ==> call_ensures(A::parse_source, (adapter, source), Ok::<ParsedFile, AdapterError>(v.0))
            && call_ensures(A::extract_symbols, (adapter, &v.0), Ok::<Vec<Symbol>, AdapterError>(v.1)),
        r matches Err(e) ==> call_ensures(A::parse_source, (adapter, source), Err::<ParsedFile, AdapterError>(e))
            || exists|p: ParsedFile| #[trigger] call_ensures(A::parse_source, (adapter, source), Ok::<ParsedFile, AdapterError>(p))
                && call_ensures(A::extract_symbols, (adapter, &p), Err::<Vec<Symbol>, AdapterError>(e)),
{
    let parsed = adapter.parse_source(source)?;
    let symbols = adapter.extract_symbols(&parsed)?;
    Ok((parsed, symbols))
}

} // verus!
