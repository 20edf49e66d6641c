use rust_indexer::application::chunking::{
    ApproxTokenLimitedChunker, ChunkStrategy, ContextInjectionChunker, OverlapChunker, SemanticChunker,
    SizeLimitedChunker, SymbolBoundaryChunker,
};
use rust_indexer::domain::types::{Chunk, ChunkView, MetaValue, Metadata, Symbol};
use vstd::seq::Seq;

fn symbol(id: &str, start_line: usize, end_line: usize) -> Symbol {
    Symbol {
        id: id.into(),
        name: id.into(),
        kind: "function".into(),
        scope: None,
        file_path: "src/lib.rs".into(),
        start_line,
        end_line,
        signature: None,
    }
}

fn semantic_symbol(
    id: &str,
    name: &str,
    kind: &str,
    scope: Option<&str>,
    signature: Option<&str>,
    start_line: usize,
    end_line: usize,
) -> Symbol {
    Symbol {
        id: id.into(),
        name: name.into(),
        kind: kind.into(),
        scope: scope.map(|value| value.into()),
        file_path: "src/lib.rs".into(),
        start_line,
        end_line,
        signature: signature.map(|value| value.into()),
    }
}

fn scoped_symbol(id: &str, scope: Option<&str>) -> Symbol {
    Symbol {
        id: id.into(),
        name: id.into(),
        kind: "function".into(),
        scope: scope.map(|value| value.into()),
        file_path: "src/lib.rs".into(),
        start_line: 3,
        end_line: 5,
        signature: None,
    }
}

fn meta_text(c: &Chunk, key: &str) -> Option<MetaValue> {
    c.metadata.as_ref().and_then(|meta| meta.get(key)).cloned()
}

fn meta_number(c: &Chunk, key: &str) -> Option<u64> {
    c.metadata.as_ref().and_then(|meta| meta.get(key)).and_then(|value| value.as_u64())
}

struct TwoChunkStub;

impl ChunkStrategy for TwoChunkStub {
    fn chunks_of(&self, _file_path: Seq<char>, _source: Seq<char>, _symbols: Option<Seq<Symbol>>) -> Seq<ChunkView> {
        panic!("a specification, not called at run time")
    }

    fn accepts(&self, _symbols: Option<Seq<Symbol>>) -> bool {
        true
    }

    fn chunk_file(&self, file_path: &str, source: &str, _symbols: Option<&Vec<Symbol>>) -> Vec<Chunk> {
        vec![
            Chunk {
                id: format!("chk-{}-1", file_path),
                file_path: file_path.into(),
                start_line: 1,
                end_line: 2,
                content: "fn a() {}\n\n".into(),
                text: "fn a() {}\n\n".into(),
                md5: "a".into(),
                size: 11,
                language: Some("rust".into()),
                symbol_id: Some("sym::a".into()),
                symbol_ids: vec!["sym::a".into()],
                chunk_kind: Some("Symbol".into()),
                metadata: Some(Metadata {
                    entries: vec![(String::from("source"), MetaValue::Text(source.len().to_string()))],
                }),
            },
            Chunk {
                id: format!("chk-{}-2", file_path),
                file_path: file_path.into(),
                start_line: 4,
                end_line: 5,
                content: "fn b() {}\n\n".into(),
                text: "fn b() {}\n\n".into(),
                md5: "b".into(),
                size: 11,
                language: Some("rust".into()),
                symbol_id: Some("sym::b".into()),
                symbol_ids: vec!["sym::b".into()],
                chunk_kind: Some("Symbol".into()),
                metadata: None,
            },
        ]
    }
}

struct InnerChunkStub;

impl ChunkStrategy for InnerChunkStub {
    fn chunks_of(&self, _file_path: Seq<char>, _source: Seq<char>, _symbols: Option<Seq<Symbol>>) -> Seq<ChunkView> {
        panic!("a specification, not called at run time")
    }

    fn accepts(&self, _symbols: Option<Seq<Symbol>>) -> bool {
        true
    }

    fn chunk_file(&self, file_path: &str, _source: &str, _symbols: Option<&Vec<Symbol>>) -> Vec<Chunk> {
        vec![Chunk {
            id: format!("chk-{}", file_path),
            file_path: file_path.into(),
            start_line: 3,
            end_line: 5,
            content: "fn inner() {}".into(),
            text: "fn inner() {}".into(),
            md5: "base".into(),
            size: 13,
            language: Some("rust".into()),
            symbol_id: Some("sym::inner".into()),
            symbol_ids: vec!["sym::inner".into()],
            chunk_kind: Some("Symbol".into()),
            metadata: None,
        }]
    }
}

#[test]
fn groups_adjacent_symbols_until_limit() {
    let source = "fn a() {}\nfn b() {}\nfn c() {}\n";
    let chunker = SizeLimitedChunker::new(4);
    let chunks = chunker.chunk_file(
        "src/lib.rs",
        source,
        Some(&vec![symbol("sym::a", 1, 1), symbol("sym::b", 2, 2), symbol("sym::c", 3, 3)]),
    );

    assert_eq!(chunks.len(), 1);
    assert_eq!(chunks[0].symbol_ids, vec!["sym::a", "sym::b", "sym::c"]);
    assert!(chunks[0].content.contains("fn a() {}"));
    assert!(chunks[0].content.contains("fn c() {}"));
}

#[test]
fn splits_between_symbols_when_limit_is_exceeded() {
    let source = "fn a() {}\nfn b() {}\nfn c() {}\n";
    let chunker = SizeLimitedChunker::new(2);
    let chunks = chunker.chunk_file(
        "src/lib.rs",
        source,
        Some(&vec![symbol("sym::a", 1, 1), symbol("sym::b", 2, 2), symbol("sym::c", 3, 3)]),
    );

    assert_eq!(chunks.len(), 2);
    assert_eq!(chunks[0].symbol_ids, vec!["sym::a", "sym::b"]);
    assert_eq!(chunks[1].symbol_ids, vec!["sym::c"]);
    assert!(chunks[0].content.contains("fn a() {}"));
    assert!(chunks[1].content.contains("fn c() {}"));
}

#[test]
fn size_limited_keeps_oversized_symbol_in_its_own_chunk() {
    let source = "fn big() {\n    a();\n    b();\n    c();\n}\n";
    let chunker = SizeLimitedChunker::new(2);
    let chunks = chunker.chunk_file("src/lib.rs", source, Some(&vec![symbol("sym::big", 1, 5)]));

    assert_eq!(chunks.len(), 1);
    assert_eq!(chunks[0].symbol_ids, vec!["sym::big"]);
    assert_eq!(chunks[0].start_line, 1);
    assert_eq!(chunks[0].end_line, 5);
}

#[test]
fn size_limited_falls_back_to_full_file_without_symbols() {
    let source = "fn main() {}\n";
    let chunker = SizeLimitedChunker::new(2);
    let chunks = chunker.chunk_file("src/lib.rs", source, None);

    assert_eq!(chunks.len(), 1);
    assert_eq!(chunks[0].chunk_kind.as_deref(), Some("FullFile"));
    assert!(chunks[0].content.contains("fn main"));
}

#[test]
fn semantic_chunker_groups_struct_impl_and_methods() {
    let source = "pub struct UserService {\n    repo: Repo,\n}\n\nimpl UserService {\n    pub fn new() -> Self {\n        Self { repo: Repo::new() }\n    }\n\n    pub fn add(&self) {\n        println!(\"add\");\n    }\n}\n\nfn unrelated() {}\n";
    let symbols = vec![
        semantic_symbol("sym::user_service", "UserService", "struct", None, None, 1, 3),
        semantic_symbol("sym::user_service_impl", "UserService", "impl", None, Some("impl UserService {"), 5, 12),
        semantic_symbol("sym::new", "new", "method", Some("UserService"), None, 6, 8),
        semantic_symbol("sym::add", "add", "method", Some("UserService"), None, 10, 12),
        semantic_symbol("sym::unrelated", "unrelated", "function", None, None, 15, 15),
    ];

    let chunker = SemanticChunker::new(0);
    let chunks = chunker.chunk_file("src/lib.rs", source, Some(&symbols));

    assert_eq!(chunks.len(), 2);
    assert_eq!(chunks[0].symbol_ids.len(), 4);
    assert!(chunks[0].content.contains("pub struct UserService"));
    assert!(chunks[0].content.contains("pub fn add"));
    assert_eq!(meta_text(&chunks[0], "chunk_strategy"), Some(MetaValue::Text("semantic".to_string())));
    assert_eq!(meta_number(&chunks[0], "max_line_limit"), Some(0));
    assert_eq!(chunks[1].symbol_ids, vec!["sym::unrelated".to_string()]);
}

#[test]
fn semantic_chunker_keeps_unrelated_symbols_separate() {
    let source = "fn a() {}\n\nfn b() {}\n";
    let symbols = vec![
        semantic_symbol("sym::a", "a", "function", None, None, 1, 1),
        semantic_symbol("sym::b", "b", "function", None, None, 3, 3),
    ];

    let chunker = SemanticChunker::new(0);
    let chunks = chunker.chunk_file("src/lib.rs", source, Some(&symbols));

    assert_eq!(chunks.len(), 2);
    assert_eq!(chunks[0].symbol_ids, vec!["sym::a".to_string()]);
    assert_eq!(chunks[1].symbol_ids, vec!["sym::b".to_string()]);
}

#[test]
fn semantic_chunker_uses_scope_for_class_methods() {
    let source = "class Database {\n    connect() { return true; }\n\n    async query(sql) {\n        return [];\n    }\n}\n";
    let symbols = vec![
        semantic_symbol("sym::database", "Database", "class", None, None, 1, 7),
        semantic_symbol("sym::connect", "connect", "method", Some("Database"), None, 2, 2),
        semantic_symbol("sym::query", "query", "method", Some("Database"), None, 4, 6),
    ];

    let chunker = SemanticChunker::new(0);
    let chunks = chunker.chunk_file("src/lib.ts", source, Some(&symbols));

    assert_eq!(chunks.len(), 1);
    assert_eq!(
        chunks[0].symbol_ids,
        vec!["sym::database".to_string(), "sym::connect".to_string(), "sym::query".to_string()]
    );
    assert_eq!(meta_text(&chunks[0], "semantic_key"), Some(MetaValue::Text("database".to_string())));
    assert_eq!(meta_number(&chunks[0], "max_line_limit"), Some(0));
}

#[test]
fn semantic_chunker_splits_when_line_limit_is_exceeded() {
    let source = "class Database {\n    connect() { return true; }\n\n    async query(sql) {\n        return [];\n    }\n}\n";
    let symbols = vec![
        semantic_symbol("sym::database", "Database", "class", None, None, 1, 7),
        semantic_symbol("sym::connect", "connect", "method", Some("Database"), None, 2, 2),
        semantic_symbol("sym::query", "query", "method", Some("Database"), None, 4, 6),
    ];

    let chunker = SemanticChunker::new(4);
    let chunks = chunker.chunk_file("src/lib.ts", source, Some(&symbols));

    assert_eq!(chunks.len(), 3);
    assert_eq!(chunks[0].symbol_ids, vec!["sym::database".to_string()]);
    assert_eq!(chunks[1].symbol_ids, vec!["sym::connect".to_string()]);
    assert_eq!(chunks[2].symbol_ids, vec!["sym::query".to_string()]);
    assert_eq!(meta_number(&chunks[0], "max_line_limit"), Some(4));
}

#[test]
fn groups_symbols_until_token_limit_is_reached() {
    let source = "fn a() {}\nfn b() {}\nfn c() {}\n";
    let chunker = ApproxTokenLimitedChunker::new(5);
    let chunks = chunker.chunk_file(
        "src/lib.rs",
        source,
        Some(&vec![symbol("sym::a", 1, 1), symbol("sym::b", 2, 2), symbol("sym::c", 3, 3)]),
    );

    assert_eq!(chunks.len(), 2);
    assert_eq!(chunks[0].symbol_ids, vec!["sym::a", "sym::b"]);
    assert_eq!(chunks[1].symbol_ids, vec!["sym::c"]);
    assert_eq!(meta_text(&chunks[0], "chunk_strategy"), Some(MetaValue::Text("token".to_string())));
}

#[test]
fn token_limited_keeps_oversized_symbol_in_its_own_chunk() {
    let source = "fn big() { println!(\"a\"); println!(\"b\"); println!(\"c\"); }\n";
    let chunker = ApproxTokenLimitedChunker::new(4);
    let chunks = chunker.chunk_file("src/lib.rs", source, Some(&vec![symbol("sym::big", 1, 1)]));

    assert_eq!(chunks.len(), 1);
    assert_eq!(chunks[0].symbol_ids, vec!["sym::big"]);
    assert!(chunks[0].metadata.as_ref().and_then(|meta| meta.get("approx_token_count")).is_some());
    assert!(meta_number(&chunks[0], "approx_token_count").unwrap_or_default() > 4);
}

#[test]
fn token_limited_falls_back_to_full_file_without_symbols() {
    let source = "alpha\nbeta\n";
    let chunker = ApproxTokenLimitedChunker::new(8);
    let chunks = chunker.chunk_file("notes.txt", source, None);

    assert_eq!(chunks.len(), 1);
    assert_eq!(chunks[0].chunk_kind.as_deref(), Some("FullFile"));
    assert_eq!(meta_text(&chunks[0], "chunk_strategy"), Some(MetaValue::Text("token".to_string())));
}

#[test]
fn adds_neighbor_overlap_to_chunks() {
    let source = "fn a() {}\nline1\nline2\nfn b() {}\nline4\n";
    let chunker = OverlapChunker::new(TwoChunkStub, 1);
    let chunks = chunker.chunk_file("src/lib.rs", source, None);

    assert_eq!(chunks.len(), 2);
    assert_eq!(chunks[0].start_line, 1);
    assert_eq!(chunks[0].end_line, 3);
    assert!(chunks[0].content.contains("line1"));
    assert_eq!(chunks[1].start_line, 3);
    assert_eq!(chunks[1].end_line, 5);
    assert!(chunks[1].content.contains("line2"));
    assert_eq!(meta_number(&chunks[0], "overlap_lines"), Some(1));
    assert_eq!(meta_text(&chunks[0], "chunk_strategy"), Some(MetaValue::Text("overlap".to_string())));
}

#[test]
fn no_overlap_is_noop() {
    let source = "fn a() {}\nfn b() {}\n";
    let chunker = OverlapChunker::new(TwoChunkStub, 0);
    let chunks = chunker.chunk_file("src/lib.rs", source, None);

    assert_eq!(chunks.len(), 2);
    assert_eq!(chunks[0].start_line, 1);
    assert_eq!(chunks[0].end_line, 2);
    assert_eq!(chunks[1].start_line, 4);
    assert_eq!(chunks[1].end_line, 5);
}

#[test]
fn injects_import_prefix() {
    let source = "use crate::foo;\nuse crate::bar;\n\nfn inner() {}\n";
    let decorator = ContextInjectionChunker::new(InnerChunkStub);
    let chunks = decorator.chunk_file("src/lib.rs", source, Some(&vec![scoped_symbol("sym::inner", None)]));

    assert_eq!(chunks.len(), 1);
    assert!(chunks[0].content.starts_with("use crate::foo;\nuse crate::bar;\n\n"));
    assert_eq!(meta_text(&chunks[0], "has_context_prefix"), Some(MetaValue::Flag(true)));
}

#[test]
fn preserves_scope_chain_in_prefix() {
    let source = "use crate::foo;\n\nfn inner() {}\n";
    let decorator = ContextInjectionChunker::new(InnerChunkStub);
    let chunks = decorator.chunk_file(
        "src/lib.rs",
        source,
        Some(&vec![scoped_symbol("sym::inner", Some("services::user::UserService"))]),
    );

    assert_eq!(chunks.len(), 1);
    assert!(chunks[0].content.contains("scope: services::user::UserService"));
    assert!(chunks[0].content.contains("use crate::foo;"));
}

#[test]
fn avoids_duplicate_context_lines() {
    let source = "use crate::foo;\nuse crate::foo;\n\nfn inner() {}\n";
    let decorator = ContextInjectionChunker::new(InnerChunkStub);
    let chunks = decorator.chunk_file("src/lib.rs", source, Some(&vec![scoped_symbol("sym::inner", Some("svc"))]));

    let prefix = chunks[0].content.lines().take_while(|line| !line.is_empty()).collect::<Vec<_>>();
    let foo_count = prefix.iter().filter(|line| **line == "use crate::foo;").count();
    assert_eq!(foo_count, 1);
}

#[test]
fn context_names_each_scope_once() {
    let source = "fn inner() {}\n";
    let decorator = ContextInjectionChunker::new(InnerChunkStub);
    let chunks = decorator.chunk_file("src/lib.rs", source, Some(&vec![scoped_symbol("sym::inner", Some("svc"))]));
    assert_eq!(chunks.len(), 1);
    assert_eq!(chunks[0].content.matches("scope: svc").count(), 1);
    assert!(chunks[0].content.ends_with("fn inner() {}"));
    assert_eq!(chunks[0].start_line, 3);
    assert_eq!(chunks[0].end_line, 5);
}

#[test]
fn symbol_boundary_makes_one_chunk_per_symbol_whatever_its_length() {
    let source = "fn a() {}\nfn b() {\n  x();\n  y();\n}\nfn c() {}\n";
    let chunker = SymbolBoundaryChunker::new(2);
    let chunks = chunker.chunk_file(
        "src/lib.rs",
        source,
        Some(&vec![symbol("sym::a", 1, 1), symbol("sym::b", 2, 5), symbol("sym::c", 6, 6)]),
    );
    assert_eq!(chunks.len(), 3);
    assert_eq!(chunks[0].symbol_ids, vec!["sym::a"]);
    assert_eq!(chunks[1].symbol_ids, vec!["sym::b"]);
    assert_eq!(chunks[1].content, "fn b() {\n  x();\n  y();\n}\n");
    assert_eq!(chunks[1].size, 4);
    assert_eq!(chunks[2].symbol_ids, vec!["sym::c"]);
    assert_eq!(chunks[2].content, "fn c() {}\n");
    let unlimited = SymbolBoundaryChunker::new(0).chunk_file(
        "src/lib.rs",
        source,
        Some(&vec![symbol("sym::a", 1, 1), symbol("sym::b", 2, 5), symbol("sym::c", 6, 6)]),
    );
    assert_eq!(unlimited.len(), 3);
}

#[test]
fn size_limited_chunks_have_stable_ids_and_digests() {
    let source = "fn a() {}\nfn b() {}\n";
    let chunks = SizeLimitedChunker::new(0).chunk_file("src/lib.rs", source, Some(&vec![symbol("sym::a", 1, 2)]));
    assert_eq!(chunks.len(), 1);
    assert_eq!(chunks[0].id, "chk-src_lib.rs-1-2");
    assert_eq!(chunks[0].content, "fn a() {}\nfn b() {}\n");
    assert_eq!(chunks[0].size, 20);
    assert_eq!(chunks[0].md5.len(), 64);
    assert_ne!(chunks[0].md5, chunks[0].content);
}
