use rust_indexer::adapters::rust::RustAdapter;
use rust_indexer::adapters::LanguageAdapter;
use rust_indexer::application::chunking::{ChunkingOptions, ChunkingStrategy};
use rust_indexer::application::indexer::{
    chunk_file_contents, collect_results, detect_language, index_file, Gathered, IndexOptions,
};
use rust_indexer::application::protocol::EventPayload;
use rust_indexer::domain::parser::parse_source;
use rust_indexer::domain::types::{Chunk, FileRecord, Symbol};

fn record(path: &str) -> FileRecord {
    FileRecord { path: path.into(), size: 0, mtime: 0, hash: String::new(), language: None }
}

fn plain_options(strategy: ChunkingStrategy, max_lines: usize) -> ChunkingOptions {
    ChunkingOptions { strategy, max_lines, overlap_lines: 0, include_context: false, token_counting: false }
}

fn chunk(path: &str, start: usize, end: usize, id: &str) -> Chunk {
    Chunk {
        id: id.into(),
        file_path: path.into(),
        start_line: start,
        end_line: end,
        content: String::new(),
        text: String::new(),
        md5: String::new(),
        size: 0,
        language: None,
        symbol_id: None,
        symbol_ids: vec![],
        chunk_kind: None,
        metadata: None,
    }
}

#[test]
fn languages_are_detected_by_extension() {
    assert_eq!(detect_language("src/main.rs").as_deref(), Some("rust"));
    assert_eq!(detect_language("web/app.tsx").as_deref(), Some("typescript"));
    assert_eq!(detect_language("web/app.jsx").as_deref(), Some("javascript"));
    assert_eq!(detect_language("pkg/x.go").as_deref(), Some("go"));
    assert_eq!(detect_language("a/b/c.py").as_deref(), Some("python"));
    assert_eq!(detect_language("Main.java").as_deref(), Some("java"));
    assert_eq!(detect_language("notes.md"), None);
    assert_eq!(detect_language(".rs"), None);
    assert_eq!(detect_language("dir.rs/.."), None);
    assert_eq!(detect_language("noext"), None);
}

#[test]
fn parsed_file_records_language_and_length() {
    let p = parse_source("rust", "fn é() {}");
    assert_eq!(p.language, "rust");
    assert_eq!(p.source_len, "fn é() {}".len());
    assert_eq!(p.source, "fn é() {}");
}

#[test]
fn chunk_file_contents_without_symbols_is_the_whole_file() {
    let chunks = chunk_file_contents(
        "src/lib.rs",
        "fn a() {}\nfn b() {}\n",
        Some("rust".to_string()),
        None,
        &plain_options(ChunkingStrategy::LineLimited, 10),
    );
    assert_eq!(chunks.len(), 1);
    assert_eq!(chunks[0].chunk_kind.as_deref(), Some("FullFile"));
    assert_eq!(chunks[0].language.as_deref(), Some("rust"));
    assert_eq!(chunks[0].start_line, 1);
    assert_eq!(chunks[0].end_line, 2);
}

#[test]
fn chunk_file_contents_takes_adapter_lines_as_zero_based() {
    let sym = |id: &str, line: usize| Symbol {
        id: id.into(),
        name: id.into(),
        kind: "function".into(),
        scope: None,
        file_path: "src/lib.rs".into(),
        start_line: line,
        end_line: line,
        signature: None,
    };
    let chunks = chunk_file_contents(
        "src/lib.rs",
        "fn a() {}\nfn b() {}\n",
        None,
        Some(&vec![sym("a", 0), sym("b", 1)]),
        &plain_options(ChunkingStrategy::SymbolBoundary, 0),
    );
    let b = chunks.iter().find(|c| c.symbol_ids == vec!["b".to_string()]).expect("a chunk of b");
    assert_eq!(b.start_line, 2);
    assert!(b.content.contains("fn b() {}"));
    assert!(!b.content.contains("fn a() {}"));
}

#[test]
fn index_file_skips_unknown_languages() {
    let opts = IndexOptions::default();
    let out = index_file::<RustAdapter>(None, &record("README.md"), "# title", &opts, &None);
    assert!(out.is_none());
}

#[test]
fn index_file_without_adapter_chunks_the_text() {
    let opts = IndexOptions::default();
    let out = index_file::<RustAdapter>(None, &record("main.go"), "package main\n", &opts, &None).unwrap();
    assert!(out.import_events.is_empty());
    assert!(out.call_events.is_empty());
    assert_eq!(out.chunks.len(), 1);
    assert_eq!(out.chunks[0].language.as_deref(), Some("go"));
}

#[test]
fn index_file_reads_symbols_imports_and_calls() {
    let adapter = RustAdapter::new();
    let opts = IndexOptions::default();
    let src = "use std::io;\n\nfn run() {\n    helper();\n}\n\nfn helper() {}\n";
    let job = Some("job-7".to_string());
    let out = index_file(Some(&adapter), &record("src/lib.rs"), src, &opts, &job).unwrap();
    assert_eq!(out.import_events.len(), 1);
    assert_eq!(out.import_events[0].event, "import_edge");
    assert_eq!(out.import_events[0].job_id, job);
    match &out.import_events[0].payload {
        Some(EventPayload::Import(edge)) => {
            assert_eq!(edge.to_module, "std");
            assert_eq!(edge.imported_symbol.as_deref(), Some("io"));
        }
        other => panic!("unexpected payload {:?}", other),
    }
    assert!(out.call_events.iter().any(|e| matches!(&e.payload, Some(EventPayload::Call(c)) if c.callee_name == "helper")));
    assert!(!out.chunks.is_empty());
    let ids: Vec<String> = out.chunks.iter().flat_map(|c| c.symbol_ids.clone()).collect();
    assert!(!ids.is_empty());
}

#[test]
fn index_file_honours_extraction_switches() {
    let adapter = RustAdapter::new();
    let mut opts = IndexOptions::default();
    opts.extract_imports = false;
    opts.extract_calls = false;
    let src = "use std::io;\nfn run() { helper(); }\n";
    let out = index_file(Some(&adapter), &record("src/lib.rs"), src, &opts, &None).unwrap();
    assert!(out.import_events.is_empty());
    assert!(out.call_events.is_empty());
}

#[test]
fn results_are_ordered_by_file_and_lines() {
    let chunks = vec![chunk("b.rs", 1, 2, "x"), chunk("a.rs", 5, 9, "y"), chunk("a.rs", 1, 4, "z")];
    let files = vec![record("b.rs"), record("a.rs"), record("a.rs")];
    let r = collect_results(&chunks, &files);
    let order: Vec<&str> = r.chunks.iter().map(|c| c.id.as_str()).collect();
    assert_eq!(order, vec!["z", "y", "x"]);
    let paths: Vec<&str> = r.files.iter().map(|f| f.path.as_str()).collect();
    assert_eq!(paths, vec!["a.rs", "b.rs"]);
}

#[test]
fn adapters_parse_through_the_trait_object() {
    let adapter: Box<dyn LanguageAdapter> = Box::new(RustAdapter::new());
    let parsed = adapter.parse_source("fn main() {}").unwrap();
    assert_eq!(parsed.language, "rust");
    let syms = adapter.extract_symbols(&parsed).unwrap();
    assert_eq!(syms[0].name, "main");
}

#[test]
fn gathered_files_are_the_files_that_yielded_chunks() {
    let mut g = Gathered::new();
    g.add_file(&record("b.rs"), &vec![chunk("b.rs", 1, 2, "y"), chunk("b.rs", 3, 4, "z")]);
    g.add_file(&record("c.rs"), &vec![]);
    g.add_file(&record("a.rs"), &vec![chunk("a.rs", 1, 1, "x")]);
    assert_eq!(g.chunks.len(), 3);
    let paired: Vec<&str> = g.files.iter().map(|f| f.path.as_str()).collect();
    assert_eq!(paired, vec!["b.rs", "b.rs", "a.rs"]);
    let r = collect_results(&g.chunks, &g.files);
    let paths: Vec<&str> = r.files.iter().map(|f| f.path.as_str()).collect();
    assert_eq!(paths, vec!["a.rs", "b.rs"]);
}
