//! The Rust adapter.
use vstd::prelude::*;
use crate::adapters::LanguageAdapter;
use crate::adapters::extract::{
    calls_of_tree, imports_of_tree, law_tree_calls_by_value, law_tree_imports_by_value, law_tree_symbols_by_value, node_calls, node_imports, symbols_of_tree, tree_symbols,
};
use crate::adapters::syntax::{AdapterError, Grammar, SyntaxNode, parse_syntax, syntax_of};
use crate::adapters::tree::grammar_accepted;
use crate::domain::parser::{ParsedFile, utf8_len};
use crate::domain::types::{CallEdge, ImportEdge, Symbol, call_views, import_views, symbol_views};

verus! {

/// Reads Rust sources.
pub struct RustAdapter;

impl Default for RustAdapter {
    fn default() -> (r: Self) {
        RustAdapter
    }
}

impl RustAdapter {
    pub fn new() -> (r: Self) {
        RustAdapter
    }

    /// The raw import edges (`use` declarations) of a parsed source.
    pub fn extract_imports(&self, parsed: &ParsedFile) -> (r: Result<Vec<ImportEdge>, AdapterError>)
        ensures
            r is Ok <==> grammar_accepted(Grammar::Rust),
            r matches Err(e) ==> e == AdapterError::LanguageRejected,
            r matches Ok(v) ==> exists|t: SyntaxNode| t@ == syntax_of(Grammar::Rust, parsed.source@) && import_views(v@) == #[trigger] node_imports(Grammar::Rust, t, "<source>"@),
            r matches Ok(v) ==> forall|t: SyntaxNode| t@ == syntax_of(Grammar::Rust, parsed.source@) ==> import_views(v@) == #[trigger] node_imports(Grammar::Rust, t, "<source>"@),
    {
        let t = parse_syntax(Grammar::Rust, parsed.source.as_str())?;
        let v = imports_of_tree(Grammar::Rust, &t, "<source>");
        assert(import_views(v@) == node_imports(Grammar::Rust, t, "<source>"@));
        proof {
            assert forall|u: SyntaxNode| u@ == syntax_of(Grammar::Rust, parsed.source@) implies import_views(v@) == #[trigger] node_imports(Grammar::Rust, u, "<source>"@) by {
                law_tree_imports_by_value(Grammar::Rust, t, u, "<source>"@);
            }
        }
        Ok(v)
    }

    /// The call edges (calls and macro invocations) of a parsed source.
    pub fn extract_calls(&self, parsed: &ParsedFile) -> (r: Result<Vec<CallEdge>, AdapterError>)
        ensures
            r is Ok <==> grammar_accepted(Grammar::Rust),
            r matches Err(e) ==> e == AdapterError::LanguageRejected,
            r matches Ok(v) ==> exists|t: SyntaxNode| t@ == syntax_of(Grammar::Rust, parsed.source@) && call_views(v@) == #[trigger] node_calls(Grammar::Rust, t, None, "<source>"@),
            r matches Ok(v) ==> forall|t: SyntaxNode| t@ == syntax_of(Grammar::Rust, parsed.source@) ==> call_views(v@) == #[trigger] node_calls(Grammar::Rust, t, None, "<source>"@),
    {
        let t = parse_syntax(Grammar::Rust, parsed.source.as_str())?;
        let v = calls_of_tree(Grammar::Rust, &t, "<source>");
        assert(call_views(v@) == node_calls(Grammar::Rust, t, None, "<source>"@));
        proof {
            assert forall|u: SyntaxNode| u@ == syntax_of(Grammar::Rust, parsed.source@) implies call_views(v@) == #[trigger] node_calls(Grammar::Rust, u, None, "<source>"@) by {
                law_tree_calls_by_value(Grammar::Rust, t, u, None, "<source>"@);
            }
        }
        Ok(v)
    }
}

impl LanguageAdapter for RustAdapter {
    fn parse_source(&self, source: &str) -> (r: Result<ParsedFile, AdapterError>)
        ensures
            r is Ok <==> grammar_accepted(Grammar::Rust),
            r matches Err(e) ==> e == AdapterError::LanguageRejected,
            r matches Ok(p) ==> p.language@ == "rust"@ && p.source_len == utf8_len(source@) && p.source@ == source@,
    {
        let _ = parse_syntax(Grammar::Rust, source)?;
        Ok(ParsedFile { language: "rust".to_owned(), source_len: source.len(), source: source.to_owned() })
    }

    fn extract_symbols(&self, parsed: &ParsedFile) -> (r: Result<Vec<Symbol>, AdapterError>)
        ensures
            r is Ok <==> grammar_accepted(Grammar::Rust),
            r matches Err(e) ==> e == AdapterError::LanguageRejected,
            r matches Ok(v) ==> exists|t: SyntaxNode| t@ == syntax_of(Grammar::Rust, parsed.source@) && symbol_views(v@) == #[trigger] tree_symbols(Grammar::Rust, t, "<source>"@),
            r matches Ok(v) ==> forall|t: SyntaxNode| t@ == syntax_of(Grammar::Rust, parsed.source@) ==> symbol_views(v@) == #[trigger] tree_symbols(Grammar::Rust, t, "<source>"@),
    {
        let t = parse_syntax(Grammar::Rust, parsed.source.as_str())?;
        let v = symbols_of_tree(Grammar::Rust, &t, "<source>");
        assert(symbol_views(v@) == tree_symbols(Grammar::Rust, t, "<source>"@));
        proof {
            assert forall|u: SyntaxNode| u@ == syntax_of(Grammar::Rust, parsed.source@) implies symbol_views(v@) == #[trigger] tree_symbols(Grammar::Rust, u, "<source>"@) by {
                law_tree_symbols_by_value(Grammar::Rust, t, u, "<source>"@);
            }
        }
        Ok(v)
    }

    fn extract_imports(&self, parsed: &ParsedFile) -> (r: Result<Vec<ImportEdge>, AdapterError>)
        ensures
            r is Ok <==> grammar_accepted(Grammar::Rust),
            r matches Err(e) ==> e == AdapterError::LanguageRejected,
            r matches Ok(v) ==> exists|t: SyntaxNode| t@ == syntax_of(Grammar::Rust, parsed.source@) && import_views(v@) == #[trigger] node_imports(Grammar::Rust, t, "<source>"@),
            r matches Ok(v) ==> forall|t: SyntaxNode| t@ == syntax_of(Grammar::Rust, parsed.source@) ==> import_views(v@) == #[trigger] node_imports(Grammar::Rust, t, "<source>"@),
    {
        RustAdapter::extract_imports(self, parsed)
    }

    fn extract_calls(&self, parsed: &ParsedFile) -> (r: Result<Vec<CallEdge>, AdapterError>)
        ensures
            r is Ok <==> grammar_accepted(Grammar::Rust),
            r matches Err(e) ==> e == AdapterError::LanguageRejected,
            r matches Ok(v) ==> exists|t: SyntaxNode| t@ == syntax_of(Grammar::Rust, parsed.source@) && call_views(v@) == #[trigger] node_calls(Grammar::Rust, t, None, "<source>"@),
            r matches Ok(v) ==> forall|t: SyntaxNode| t@ == syntax_of(Grammar::Rust, parsed.source@) ==> call_views(v@) == #[trigger] node_calls(Grammar::Rust, t, None, "<source>"@),
    {
        RustAdapter::extract_calls(self, parsed)
    }

    fn box_clone(&self) -> Box<Self> {
        Box::new(RustAdapter::new())
    }
}

} // verus!
