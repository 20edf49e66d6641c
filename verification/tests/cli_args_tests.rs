use rust_indexer::bootstrap::{config_from_settings, parse_usize_exec, Config};
use rust_indexer::cli::args::CliArgs;

#[test]
fn cli_args_parse_mcp_flag() {
    let args = CliArgs::parse_from(&["indexer".to_string(), "--mcp".to_string()]);
    assert!(args.mcp_mode);
}

#[test]
fn cli_args_default_no_mcp() {
    let args = CliArgs::parse_from(&["indexer".to_string()]);
    assert!(!args.mcp_mode);
}

#[test]
fn cli_args_mcp_short_flag() {
    let args = CliArgs::parse_from(&["indexer".to_string(), "-m".to_string()]);
    assert!(args.mcp_mode);
}

#[test]
fn cli_args_mixed_flags() {
    let args = CliArgs::parse_from(&[
        "indexer".to_string(),
        "-m".to_string(),
        "--quiet".to_string(),
    ]);
    assert!(args.mcp_mode);
    assert!(args.quiet);
}

#[test]
fn cli_args_unknown_flag_ignored() {
    let args = CliArgs::parse_from(&["indexer".to_string(), "--unknown".to_string()]);
    assert!(!args.mcp_mode);
}

#[test]
fn cli_args_program_name_is_not_a_flag() {
    let args = CliArgs::parse_from(&["--mcp".to_string(), "-q".to_string()]);
    assert!(!args.mcp_mode);
    assert!(args.quiet);
}

#[test]
fn config_new_creates_instance() {
    let cfg = Config::new(4, 50);
    assert_eq!(cfg.max_concurrency, 4);
    assert_eq!(cfg.max_queue_size, 50);
}

#[test]
fn config_settings_fall_back_to_defaults() {
    let cfg = config_from_settings(Some("8"), Some("200"), 3);
    assert_eq!(cfg.max_concurrency, 8);
    assert_eq!(cfg.max_queue_size, 200);
    let cfg = config_from_settings(None, Some("lots"), 3);
    assert_eq!(cfg.max_concurrency, 3);
    assert_eq!(cfg.max_queue_size, 100);
}

#[test]
fn numbers_are_read_as_usize_from_str_reads_them() {
    assert_eq!(parse_usize_exec("0"), Some(0));
    assert_eq!(parse_usize_exec("+42"), Some(42));
    assert_eq!(parse_usize_exec("007"), Some(7));
    assert_eq!(parse_usize_exec(""), None);
    assert_eq!(parse_usize_exec("+"), None);
    assert_eq!(parse_usize_exec("-1"), None);
    assert_eq!(parse_usize_exec(" 1"), None);
    assert_eq!(parse_usize_exec("12a"), None);
    assert_eq!(parse_usize_exec("99999999999999999999999"), None);
    assert_eq!(parse_usize_exec(&usize::MAX.to_string()), Some(usize::MAX));
    for s in ["0", "+5", "18446744073709551616", "x", ""] {
        assert_eq!(parse_usize_exec(s), s.parse::<usize>().ok());
    }
}
