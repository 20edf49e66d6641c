use rust_indexer::domain::normalize::{build_qualified_name, normalize_import, normalize_symbol, normalize_symbols, NormalizeError};
use rust_indexer::domain::types::{ImportEdge, Location, Symbol};

fn make_symbol(name: &str, kind: &str, scope: Option<&str>, file_path: &str, start_line: usize, end_line: usize) -> Symbol {
    Symbol {
        id: format!("{}:{}", file_path, name),
        name: name.to_string(),
        kind: kind.to_string(),
        scope: scope.map(String::from),
        file_path: file_path.to_string(),
        start_line,
        end_line,
        signature: None,
    }
}

fn make_import_edge(raw_text: &str) -> ImportEdge {
    ImportEdge {
        id: "ie_test".to_string(),
        from_file: "src/lib.rs".to_string(),
        to_module: raw_text.to_string(),
        imported_symbol: None,
        alias: None,
        import_kind: "named".to_string(),
        location: Location { start_line: 1, start_col: 0, end_line: 1, end_col: 30 },
        resolved: false,
    }
}

#[test]
fn returns_name_when_no_scope() {
    let qname = build_qualified_name("MyFunction", None);
    assert_eq!(qname, "MyFunction");
}

#[test]
fn returns_name_when_scope_empty() {
    let qname = build_qualified_name("MyFunction", Some(""));
    assert_eq!(qname, "MyFunction");
}

#[test]
fn combines_scope_and_name() {
    let qname = build_qualified_name("getUsers", Some("UserService"));
    assert_eq!(qname, "UserService::getUsers");
}

#[test]
fn handles_multiple_nesting_levels() {
    let qname = build_qualified_name("query", Some("db::Repository"));
    assert_eq!(qname, "db::Repository::query");
}

#[test]
fn trims_trailing_scope_colons() {
    let qname = build_qualified_name("fn", Some("mod::"));
    assert_eq!(qname, "mod::fn");
}

#[test]
fn normalizes_simple_function() {
    let sym = make_symbol("hello", "function", None, "main.rs", 0, 5);
    let norm = normalize_symbol(&sym, Some("rust")).expect("should succeed");
    assert_eq!(norm.name, "hello");
    assert_eq!(norm.kind, "function");
    assert_eq!(norm.qualified_name, "hello");
    assert_eq!(norm.language.as_deref(), Some("rust"));
    assert!(!norm.is_overloaded);
    assert_eq!(norm.overload_index, 0);
}

#[test]
fn normalizes_nested_class_method() {
    let sym = make_symbol("addUser", "method", Some("UserService"), "UserService.ts", 10, 15);
    let norm = normalize_symbol(&sym, Some("typescript")).expect("should succeed");
    assert_eq!(norm.qualified_name, "UserService::addUser");
}

#[test]
fn normalizes_deeply_nested_symbol() {
    let sym = make_symbol("handle", "function", Some("api::routes::users"), "routes.rs", 20, 30);
    let norm = normalize_symbol(&sym, Some("rust")).expect("should succeed");
    assert_eq!(norm.qualified_name, "api::routes::users::handle");
}

#[test]
fn empty_name_returns_error() {
    let sym = make_symbol("", "function", None, "main.rs", 0, 5);
    assert!(matches!(normalize_symbol(&sym, None), Err(NormalizeError::EmptySymbolName)));
}

#[test]
fn empty_id_returns_error() {
    let mut sym = make_symbol("fn", "function", None, "main.rs", 0, 5);
    sym.id = String::new();
    assert!(matches!(normalize_symbol(&sym, None), Err(NormalizeError::EmptySymbolId)));
}

#[test]
fn normalizes_without_language() {
    let sym = make_symbol("main", "function", None, "main.rs", 0, 10);
    let norm = normalize_symbol(&sym, None).expect("should succeed");
    assert_eq!(norm.language, None);
}

#[test]
fn normalizes_symbol_with_signature() {
    let mut sym = make_symbol("compute", "function", None, "math.rs", 0, 3);
    sym.signature = Some("fn compute(a: u32, b: u32) -> u32".to_string());
    let norm = normalize_symbol(&sym, Some("rust")).expect("should succeed");
    assert_eq!(norm.signature.as_deref(), Some("fn compute(a: u32, b: u32) -> u32"));
}

#[test]
fn normalizes_multiple_symbols() {
    let symbols = vec![
        make_symbol("main", "function", None, "main.rs", 0, 10),
        make_symbol("Helper", "struct", None, "main.rs", 12, 20),
        make_symbol("helper_fn", "function", Some("Helper"), "main.rs", 13, 18),
    ];
    let normalized = normalize_symbols(&symbols, Some("rust"));
    assert_eq!(normalized.len(), 3);
    assert_eq!(normalized[0].name, "main");
    assert_eq!(normalized[2].qualified_name, "Helper::helper_fn");
}

#[test]
fn detects_overloaded_functions() {
    let symbols = vec![
        make_symbol("process", "function", None, "handler.rs", 0, 5),
        make_symbol("process", "function", None, "handler.rs", 7, 12),
    ];
    let normalized = normalize_symbols(&symbols, Some("rust"));
    assert_eq!(normalized.len(), 2);
    assert!(normalized[0].is_overloaded);
    assert!(normalized[1].is_overloaded);
    assert_eq!(normalized[0].overload_index, 0);
    assert_eq!(normalized[1].overload_index, 1);
}

#[test]
fn overloads_sorted_by_position() {
    let symbols = vec![
        make_symbol("process", "function", None, "x.rs", 10, 15),
        make_symbol("process", "function", None, "x.rs", 0, 5),
    ];
    let normalized = normalize_symbols(&symbols, Some("rust"));
    assert_eq!(normalized[0].start_line, 0);
    assert_eq!(normalized[0].overload_index, 0);
    assert_eq!(normalized[1].start_line, 10);
    assert_eq!(normalized[1].overload_index, 1);
}

#[test]
fn no_overloads_when_single_symbol() {
    let symbols = vec![make_symbol("unique_fn", "function", None, "a.rs", 0, 5)];
    let normalized = normalize_symbols(&symbols, Some("rust"));
    assert_eq!(normalized.len(), 1);
    assert!(!normalized[0].is_overloaded);
    assert_eq!(normalized[0].overload_index, 0);
}

#[test]
fn no_overloads_across_different_files() {
    let symbols = vec![
        make_symbol("init", "function", None, "file_a.rs", 0, 5),
        make_symbol("init", "function", None, "file_b.rs", 0, 3),
    ];
    let normalized = normalize_symbols(&symbols, Some("rust"));
    assert_eq!(normalized.len(), 2);
    assert!(!normalized.iter().any(|s| s.is_overloaded));
}

#[test]
fn no_overloads_across_different_kinds() {
    let symbols = vec![
        make_symbol("Config", "function", None, "a.rs", 0, 5),
        make_symbol("Config", "struct", None, "a.rs", 7, 15),
    ];
    let normalized = normalize_symbols(&symbols, Some("rust"));
    assert!(!normalized.iter().any(|s| s.is_overloaded));
}

#[test]
fn skips_symbols_with_empty_name() {
    let symbols = vec![
        make_symbol("valid", "function", None, "a.rs", 0, 5),
        make_symbol("", "function", None, "a.rs", 7, 10),
    ];
    let normalized = normalize_symbols(&symbols, Some("rust"));
    assert_eq!(normalized.len(), 1);
    assert_eq!(normalized[0].name, "valid");
}

#[test]
fn skips_symbols_with_empty_id() {
    let mut bad = make_symbol("bad", "function", None, "a.rs", 0, 5);
    bad.id = String::new();
    let symbols = vec![make_symbol("good", "function", None, "a.rs", 7, 10), bad];
    let normalized = normalize_symbols(&symbols, Some("rust"));
    assert_eq!(normalized.len(), 1);
    assert_eq!(normalized[0].name, "good");
}

#[test]
fn result_sorted_by_file_and_line() {
    let symbols = vec![
        make_symbol("zzz", "function", None, "z.rs", 0, 5),
        make_symbol("aaa", "function", None, "a.rs", 10, 15),
        make_symbol("bbb", "struct", None, "a.rs", 0, 5),
    ];
    let normalized = normalize_symbols(&symbols, None);
    assert_eq!(normalized[0].file_path, "a.rs");
    assert_eq!(normalized[0].start_line, 0);
    assert_eq!(normalized[1].file_path, "a.rs");
    assert_eq!(normalized[1].start_line, 10);
    assert_eq!(normalized[2].file_path, "z.rs");
}

#[test]
fn handles_empty_input() {
    let normalized = normalize_symbols(&[], Some("rust"));
    assert!(normalized.is_empty());
}

#[test]
fn handles_nested_scopes_correctly() {
    let symbols = vec![
        make_symbol("Module", "mod", None, "lib.rs", 0, 10),
        make_symbol("Nested", "struct", Some("Module"), "lib.rs", 1, 5),
        make_symbol("deep_fn", "function", Some("Module::Nested"), "lib.rs", 2, 4),
    ];
    let normalized = normalize_symbols(&symbols, Some("rust"));
    let deep = normalized.iter().find(|s| s.name == "deep_fn").expect("should find deep_fn");
    assert_eq!(deep.qualified_name, "Module::Nested::deep_fn");
}

#[test]
fn rust_use_single() {
    let edge = make_import_edge("use std::collections::HashMap;");
    let norm = normalize_import(&edge, "rust");
    assert_eq!(norm.to_module, "std::collections");
    assert_eq!(norm.imported_symbol, Some("HashMap".to_string()));
    assert_eq!(norm.import_kind, "named");
    assert!(!norm.resolved);
    assert!(norm.alias.is_none());
}

#[test]
fn rust_use_with_alias() {
    let edge = make_import_edge("use std::collections::HashMap as Map;");
    let norm = normalize_import(&edge, "rust");
    assert_eq!(norm.to_module, "std::collections::HashMap");
    assert_eq!(norm.imported_symbol, Some("HashMap".to_string()));
    assert_eq!(norm.alias, Some("Map".to_string()));
    assert_eq!(norm.import_kind, "named");
    assert!(!norm.resolved);
}

#[test]
fn rust_use_glob() {
    let edge = make_import_edge("use std::io::*;");
    let norm = normalize_import(&edge, "rust");
    assert_eq!(norm.to_module, "std::io");
    assert_eq!(norm.imported_symbol, None);
    assert_eq!(norm.import_kind, "namespace");
    assert!(!norm.resolved);
}

#[test]
fn rust_pub_use_is_reexport() {
    let edge = make_import_edge("pub use internal::helper;");
    let norm = normalize_import(&edge, "rust");
    assert_eq!(norm.to_module, "internal");
    assert_eq!(norm.import_kind, "reexport");
}

#[test]
fn rust_crate_path_is_resolved() {
    let edge = make_import_edge("use crate::utils::format_name;");
    let norm = normalize_import(&edge, "rust");
    assert_eq!(norm.to_module, "crate::utils");
    assert_eq!(norm.imported_symbol, Some("format_name".to_string()));
    assert!(norm.resolved);
}

#[test]
fn rust_self_path_is_resolved() {
    let edge = make_import_edge("use self::helpers;");
    let norm = normalize_import(&edge, "rust");
    assert!(norm.resolved);
}

#[test]
fn ts_import_named() {
    let edge = make_import_edge("import { useState } from \"react\";");
    let norm = normalize_import(&edge, "typescript");
    assert_eq!(norm.to_module, "react");
    assert_eq!(norm.imported_symbol, Some("useState".to_string()));
    assert_eq!(norm.import_kind, "named");
    assert!(!norm.resolved);
}

#[test]
fn ts_import_named_with_alias() {
    let edge = make_import_edge("import { default as React } from \"react\";");
    let norm = normalize_import(&edge, "typescript");
    assert_eq!(norm.to_module, "react");
    assert_eq!(norm.imported_symbol, Some("default".to_string()));
    assert_eq!(norm.alias, Some("React".to_string()));
    assert_eq!(norm.import_kind, "named");
}

#[test]
fn ts_import_default() {
    let edge = make_import_edge("import _ from \"lodash\";");
    let norm = normalize_import(&edge, "typescript");
    assert_eq!(norm.to_module, "lodash");
    assert_eq!(norm.imported_symbol, Some("default".to_string()));
    assert_eq!(norm.alias, Some("_".to_string()));
    assert_eq!(norm.import_kind, "default");
}

#[test]
fn ts_import_namespace() {
    let edge = make_import_edge("import * as fs from \"fs\";");
    let norm = normalize_import(&edge, "typescript");
    assert_eq!(norm.to_module, "fs");
    assert_eq!(norm.alias, Some("fs".to_string()));
    assert_eq!(norm.import_kind, "namespace");
    assert!(norm.imported_symbol.is_none());
}

#[test]
fn ts_import_side_effect() {
    let edge = make_import_edge("import \"core-js/promise\";");
    let norm = normalize_import(&edge, "typescript");
    assert_eq!(norm.to_module, "core-js/promise");
    assert_eq!(norm.import_kind, "side_effect");
    assert!(norm.imported_symbol.is_none());
    assert!(norm.alias.is_none());
}

#[test]
fn ts_relative_import_resolved() {
    let edge = make_import_edge("import { foo } from \"./utils\";");
    let norm = normalize_import(&edge, "typescript");
    assert!(norm.resolved);
}

#[test]
fn java_import_class() {
    let edge = make_import_edge("import java.util.List;");
    let norm = normalize_import(&edge, "java");
    assert_eq!(norm.to_module, "java.util");
    assert_eq!(norm.imported_symbol, Some("List".to_string()));
    assert_eq!(norm.import_kind, "named");
    assert!(!norm.resolved);
}

#[test]
fn java_static_import() {
    let edge = make_import_edge("import static java.util.Collections.emptyList;");
    let norm = normalize_import(&edge, "java");
    assert_eq!(norm.to_module, "java.util.Collections");
    assert_eq!(norm.imported_symbol, Some("emptyList".to_string()));
}

#[test]
fn go_import() {
    let edge = make_import_edge("import \"fmt\"");
    let norm = normalize_import(&edge, "go");
    assert_eq!(norm.to_module, "fmt");
    assert_eq!(norm.import_kind, "named");
    assert!(!norm.resolved);
}

#[test]
fn go_relative_import_resolved() {
    let edge = make_import_edge("import \"./utils\"");
    let norm = normalize_import(&edge, "go");
    assert!(norm.resolved);
}

#[test]
fn unknown_language_passes_through() {
    let edge = make_import_edge("use something;");
    let norm = normalize_import(&edge, "ocaml");
    assert!(norm.to_module.contains("something"));
}
