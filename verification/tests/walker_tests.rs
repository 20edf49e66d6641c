use rust_indexer::digest::{blake3_of_text, content_hash, md5_of_text};
use rust_indexer::domain::types::FileRecord;
use rust_indexer::infra::walker::{
    build_globset, detect_language, file_record, is_likely_text, matches_glob, parse_ignore_file, sort_by_path,
    ScanOptions, WalkFilters, WalkerError,
};

#[test]
fn invalid_include_pattern_returns_error() {
    let opts = ScanOptions::new("some/dir").with_include("[");
    assert!(matches!(WalkFilters::new(&opts, &vec![]), Err(WalkerError::Glob(_))));
}

#[test]
fn invalid_ignore_pattern_is_a_glob_error() {
    let opts = ScanOptions::new("some/dir").with_ignore("a[");
    match WalkFilters::new(&opts, &vec![]) {
        Err(e) => assert!(e.is_glob_error()),
        Ok(_) => panic!("an unclosed class is not a pattern"),
    }
}

#[test]
fn respects_include_patterns() {
    let opts = ScanOptions::new("root").with_include("**/*.rs");
    let filters = WalkFilters::new(&opts, &vec![]).unwrap();
    assert!(filters.selects("main.rs"));
    assert!(!filters.selects("README.md"));
}

#[test]
fn ignores_patterns() {
    let opts = ScanOptions::new("root").with_ignore("target/**");
    let filters = WalkFilters::new(&opts, &vec![]).unwrap();
    assert!(filters.selects("src/lib.rs"));
    assert!(!filters.selects("target/secret.rs"));
}

#[test]
fn loads_gitignore_patterns_when_enabled() {
    let loaded = parse_ignore_file("secret.txt\n");
    let opts = ScanOptions::new("root").with_load_ignores(true);
    let filters = WalkFilters::new(&opts, &loaded).unwrap();
    assert!(!filters.selects("secret.txt"));
    assert!(filters.selects("visible.txt"));
    assert!(!filters.selects(".gitignore"));
    assert!(!filters.selects(".crushignore"));
}

#[test]
fn loaded_patterns_are_unused_unless_enabled() {
    let loaded = parse_ignore_file("secret.txt\n");
    let opts = ScanOptions::new("root");
    let filters = WalkFilters::new(&opts, &loaded).unwrap();
    assert!(filters.selects("secret.txt"));
    assert!(filters.selects(".gitignore"));
}

#[test]
fn ignore_file_skips_blank_and_comment_lines() {
    let patterns = parse_ignore_file("# build output\n\n  target/  \n*.log\n   \n#x\n");
    assert_eq!(patterns, vec!["target/".to_string(), "*.log".to_string()]);
}

#[test]
fn no_patterns_make_no_filter() {
    let set = build_globset(&vec![]).unwrap();
    assert!(set.is_none());
    assert!(!matches_glob(&set, "anything"));
    let set = build_globset(&vec!["*.md".to_string()]).unwrap();
    assert!(matches_glob(&set, "README.md"));
    assert!(!matches_glob(&set, "lib.rs"));
}

#[test]
fn text_detection_on_file_heads() {
    assert!(is_likely_text(b""));
    assert!(is_likely_text(b"fn main() {}\n"));
    assert!(is_likely_text("olá".as_bytes()));
    assert!(!is_likely_text(b"ab\x00cd"));
    assert!(!is_likely_text(&[0xff, 0xfe, 0x41]));
}

#[test]
fn listing_languages_by_extension() {
    assert_eq!(detect_language("src/lib.rs").as_deref(), Some("rust"));
    assert_eq!(detect_language("a/B.JAVA").as_deref(), Some("java"));
    assert_eq!(detect_language("x.kts").as_deref(), Some("kotlin"));
    assert_eq!(detect_language("notes.txt"), None);
    assert_eq!(detect_language("Makefile"), None);
}

#[test]
fn file_records_and_their_order() {
    let a = file_record("b/lib.rs".to_string(), 3, 7, content_hash(b"abc"), "/root/b/lib.rs");
    assert_eq!(a.language.as_deref(), Some("rust"));
    assert_eq!(a.size, 3);
    assert_eq!(a.mtime, 7);
    let b = file_record("a/main.py".to_string(), 1, 2, String::new(), "/root/a/main.py");
    let c = file_record("a/README".to_string(), 1, 2, String::new(), "/root/a/README");
    assert_eq!(c.language, None);
    let sorted = sort_by_path(&vec![a.clone(), b.clone(), c.clone()]);
    let paths: Vec<&str> = sorted.iter().map(|r: &FileRecord| r.path.as_str()).collect();
    assert_eq!(paths, vec!["a/README", "a/main.py", "b/lib.rs"]);
}

#[test]
fn digests_of_known_texts() {
    assert_eq!(blake3_of_text(""), "af1349b9f5f9a1a6a0404dea36dcc9499bcb25c9adc112b7cc9a93cae41f3262");
    assert_eq!(content_hash(b"abc"), "6437b3ac38465133ffb63b75273a8db548c558465d79db03fd359c6cd5bd9d85");
    assert_eq!(md5_of_text(""), "d41d8cd98f00b204e9800998ecf8427e");
    assert_eq!(md5_of_text("abc"), "900150983cd24fb0d6963f7d28e17f72");
}
