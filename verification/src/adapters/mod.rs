//! Language adapters: symbols, imports and calls read from syntax trees.
use vstd::prelude::*;
use crate::adapters::syntax::AdapterError;
use crate::domain::parser::{ParsedFile, utf8_len};
use crate::domain::types::{CallEdge, ImportEdge, Symbol};

pub mod extract;
pub mod go;
pub mod java;
pub mod python;
pub mod registry;
pub mod rust;
pub mod syntax;
pub mod tree;
pub mod typescript;

verus! {

/// What a language adapter offers: parsing a source and reading its
/// symbols.
pub trait LanguageAdapter: Send + Sync {
    /// Parses a source of the adapter's language; the parsed file keeps the
    /// source and its length in bytes.
    fn parse_source(&self, source: &str) -> (r: Result<ParsedFile, AdapterError>)
        ensures
            r matches Ok(p) ==> p.source@ == source@ && p.source_len == utf8_len(source@),
    ;

    /// The symbols of a parsed source.
    fn extract_symbols(&self, parsed: &ParsedFile) -> Result<Vec<Symbol>, AdapterError>;

    /// The raw import edges of a parsed source; none unless the adapter
    /// reads imports.
    fn extract_imports(&self, parsed: &ParsedFile) -> (r: Result<Vec<ImportEdge>, AdapterError>)
        default_ensures
            r matches Ok(v) && v@.len() == 0,
    {
        Ok(Vec::new())
    }

    /// The call edges of a parsed source; none unless the adapter reads
    /// calls.
    fn extract_calls(&self, parsed: &ParsedFile) -> (r: Result<Vec<CallEdge>, AdapterError>)
        default_ensures
            r matches Ok(v) && v@.len() == 0,
    {
        Ok(Vec::new())
    }

    /// A new adapter of the same language.
    fn box_clone(&self) -> Box<Self> where Self: Sized;
}

} // verus!
