//! The TypeScript and JavaScript adapter.
use vstd::prelude::*;
use crate::adapters::LanguageAdapter;
use crate::adapters::extract::{
    law_tree_symbols_by_value, symbols_of_tree, tree_symbols,
};
use crate::adapters::syntax::{AdapterError, Grammar, SyntaxNode, parse_syntax, syntax_of};
use crate::adapters::tree::grammar_accepted;
use crate::domain::parser::{ParsedFile, utf8_len};
use crate::domain::types::{Symbol, symbol_views};

verus! {

/// Reads TypeScript and JavaScript sources.
pub struct TypeScriptAdapter;

impl Default for TypeScriptAdapter {
    fn default() -> (r: Self) {
        TypeScriptAdapter
    }
}

impl TypeScriptAdapter {
    pub fn new() -> (r: Self) {
        TypeScriptAdapter
    }
}

impl LanguageAdapter for TypeScriptAdapter {
    fn parse_source(&self, source: &str) -> (r: Result<ParsedFile, AdapterError>)
        ensures
            r is Ok <==> grammar_accepted(Grammar::JavaScript),
            r matches Err(e) ==> e == AdapterError::LanguageRejected,
            r matches Ok(p) ==> p.language@ == "typescript"@ && p.source_len == utf8_len(source@) && p.source@ == source@,
    {
        let _ = parse_syntax(Grammar::JavaScript, source)?;
        Ok(ParsedFile { language: "typescript".to_owned(), source_len: source.len(), source: source.to_owned() })
    }

    fn extract_symbols(&self, parsed: &ParsedFile) -> (r: Result<Vec<Symbol>, AdapterError>)
        ensures
            r is Ok <==> grammar_accepted(Grammar::JavaScript),
            r matches Err(e) ==> e == AdapterError::LanguageRejected,
            r matches Ok(v) ==> exists|t: SyntaxNode| t@ == syntax_of(Grammar::JavaScript, parsed.source@) && symbol_views(v@) == #[trigger] tree_symbols(Grammar::JavaScript, t, "<source>"@),
            r matches Ok(v) ==> forall|t: SyntaxNode| t@ == syntax_of(Grammar::JavaScript, parsed.source@) ==> symbol_views(v@) == #[trigger] tree_symbols(Grammar::JavaScript, t, "<source>"@),
    {
        let t = parse_syntax(Grammar::JavaScript, parsed.source.as_str())?;
        let v = symbols_of_tree(Grammar::JavaScript, &t, "<source>");
        assert(symbol_views(v@) == tree_symbols(Grammar::JavaScript, t, "<source>"@));
        proof {
            assert forall|u: SyntaxNode| u@ == syntax_of(Grammar::JavaScript, parsed.source@) implies symbol_views(v@) == #[trigger] tree_symbols(Grammar::JavaScript, u, "<source>"@) by {
                law_tree_symbols_by_value(Grammar::JavaScript, t, u, "<source>"@);
            }
        }
        Ok(v)
    }

    fn box_clone(&self) -> Box<Self> {
        Box::new(TypeScriptAdapter::new())
    }
}

} // verus!
