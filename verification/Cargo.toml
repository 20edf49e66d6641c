[package]
name = "rust_indexer"
version = "0.1.0"
edition = "2021"
publish = false

[dependencies]
tree-sitter = "0.20"
tree-sitter-rust = "0.20"
tree-sitter-go = "0.20"
tree-sitter-java = "0.20"
tree-sitter-javascript = "0.20"
tree-sitter-python = "0.20"
blake3 = "1"
md5 = "0.7"
serde = { version = "1", features = ["derive"] }
serde_json = "1"
globset = "0.4"
walkdir = "2"
dashmap = "5"
rayon = "1"
num_cpus = "1"
anyhow = "1"
