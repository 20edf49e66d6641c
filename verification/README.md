# rust_indexer

A multi-language source indexer: it reads Rust, Go, Java, Python, TypeScript
and JavaScript sources with tree-sitter, extracts symbols, imports and calls,
splits files into chunks for semantic search, and reports everything as JSON
lines over standard input and output, with pause/resume flow control.

The library under `src/` is verified with Verus: each public function states
what it returns in its contract, and the properties that hold across
functions are proved as `law_*` proof functions.

- `src/text.rs`, `src/lines.rs`, `src/order.rs`: character sequences, lines,
  and a stable sort by composite keys (proved to sort).
- `src/digest.rs`: BLAKE3 and MD5 digests.
- `src/domain/`: symbols, chunks, import and call edges; normalization of
  symbols and imports.
- `src/adapters/`: the syntax tree of a tree-sitter parse and the extraction
  of symbols, imports and calls for each language. `tree.rs` reads the parse
  node by node; what tree-sitter reports of a node is named as a function of
  the grammar, the text and the node's path from the root, and `syntax_of`
  states the whole tree the adapters read. TypeScript sources are read with
  the JavaScript grammar (the TypeScript grammar crate is not a dependency).
- `src/application/chunking/`: the chunking strategies (one chunk per symbol,
  size-limited, token-limited, semantic) and the overlap and context
  decorators.
- `src/application/indexer.rs`: indexing one file and gathering a job's
  results.
- `src/infra/`: flow control, event building and emission steps, the
  compiled glob filters, the decisions of a directory walk, and the MCP
  mode's reading and answering of JSON-RPC 2.0 requests (`mcp.rs`, over
  the JSON values of `json.rs`) and its tool list.
- `src/adapters/registry.rs`: which adapter reads which language, and the
  sorted list of languages.
- `src/cli/`: command-line flags and the handling of protocol commands.

`app/` is the program around the library: reading commands, writing events,
walking directories, running jobs on threads, git, and serving the MCP
mode on standard input with its method handlers.
