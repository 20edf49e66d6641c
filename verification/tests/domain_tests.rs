use rust_indexer::application::protocol::{ChunkEventPayload, ChunkKind};
use rust_indexer::domain::types::{Chunk, ChunkValidationError, MetaValue, Metadata};

fn bare_chunk(id: &str, start_line: usize, end_line: usize) -> Chunk {
    Chunk {
        id: id.into(),
        file_path: "src/lib.rs".into(),
        start_line,
        end_line,
        content: "".into(),
        text: "".into(),
        md5: "".into(),
        size: 0,
        language: None,
        symbol_id: None,
        symbol_ids: vec![],
        chunk_kind: None,
        metadata: None,
    }
}

#[test]
fn chunk_validation_success() {
    let c = Chunk {
        id: "chk-1".into(),
        file_path: "src/lib.rs".into(),
        start_line: 1,
        end_line: 10,
        content: "fn foo() {}".into(),
        text: "fn foo() {}".into(),
        md5: "abc".into(),
        size: 100,
        language: Some("rust".into()),
        symbol_id: Some("sym1".into()),
        symbol_ids: vec!["sym1".into()],
        chunk_kind: Some("Symbol".into()),
        metadata: Some(Metadata { entries: vec![("tokens".into(), MetaValue::Number(120))] }),
    };

    assert!(c.validate().is_ok());
    assert_eq!(c.describe(), "Chunk { id: chk-1, file: src/lib.rs, lines: 1-10 }");
}

#[test]
fn chunk_validation_failure_zero_line() {
    let c = bare_chunk("chk-2", 0, 0);
    assert!(c.validate().is_err());
}

#[test]
fn chunk_validation_failure_start_greater_end() {
    let c = bare_chunk("chk-3", 10, 1);
    assert!(c.validate().is_err());
}

#[test]
fn chunk_validation_reports_each_error() {
    assert_eq!(bare_chunk("a", 0, 4).validate(), Err(ChunkValidationError::ZeroLine));
    assert_eq!(bare_chunk("b", 3, 0).validate(), Err(ChunkValidationError::ZeroLine));
    assert_eq!(bare_chunk("c", 5, 4).validate(), Err(ChunkValidationError::StartAfterEnd));
    assert_eq!(bare_chunk("d", 4, 4).validate(), Ok(()));
}

#[test]
fn chunk_from_domain_chunk_maps_fields_correctly() {
    let domain = Chunk {
        id: "chunk-1".into(),
        file_path: "src/lib.rs".into(),
        start_line: 1,
        end_line: 10,
        content: "fn main() {}".into(),
        text: "fn main() {}".into(),
        md5: "abc123".into(),
        size: 12,
        language: Some("rust".into()),
        symbol_id: Some("sym-1".into()),
        symbol_ids: vec![],
        chunk_kind: Some("FullFile".into()),
        metadata: None,
    };

    let payload: ChunkEventPayload = domain.into();
    assert_eq!(payload.chunk_id, "chunk-1");
    assert_eq!(payload.file, "src/lib.rs");
    assert_eq!(payload.language.as_deref(), Some("rust"));
    assert_eq!(payload.symbol_id.as_deref(), Some("sym-1"));
    assert_eq!(payload.start_line, 1);
    assert_eq!(payload.end_line, 10);
    assert_eq!(payload.chunk_md5, "abc123");
    assert_eq!(payload.size, 12);
    assert_eq!(payload.chunk_kind, ChunkKind::FullFile);
}

#[test]
fn chunk_kind_labels_map_case_insensitively() {
    let mut c = bare_chunk("k", 1, 1);
    c.chunk_kind = Some("symbol".into());
    let p: ChunkEventPayload = c.into();
    assert_eq!(p.chunk_kind, ChunkKind::Symbol);
    let mut c = bare_chunk("k", 1, 1);
    c.chunk_kind = Some("weird".into());
    let p: ChunkEventPayload = c.into();
    assert_eq!(p.chunk_kind, ChunkKind::Contextual);
}

#[test]
fn whitespace_matches_std_on_every_char() {
    for u in 0u32..0x11_0000 {
        if let Some(c) = char::from_u32(u) {
            assert_eq!(rust_indexer::text::char_is_whitespace(c), c.is_whitespace(), "{:?}", c);
        }
    }
}

#[test]
fn names_are_lowered_to_ascii_lower_case() {
    let v: Vec<char> = "  Database:: ".chars().collect();
    let r: String = rust_indexer::application::chunking::semantic::normalize_name_exec(&v).into_iter().collect();
    assert_eq!(r, "database");
}
