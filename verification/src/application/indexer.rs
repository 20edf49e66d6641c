//! What the indexer does with one file once it is read: the language its
//! name implies, and the chunks of its text.
use vstd::prelude::*;
use crate::application::chunking::{
    ChunkStrategy, ChunkingOptions, ChunkingStrategy, ContextInjectionChunker, OverlapChunker, SemanticChunker,
    SizeLimitedChunker, SymbolBoundaryChunker, opt_symbols,
};
use crate::application::chunking::common::lines_in_range;
use crate::application::chunking::overlap::overlap_chunks;
use crate::application::chunking::semantic::semantic_chunks;
use crate::application::chunking::size_limited::size_limited_chunks;
use crate::application::chunking::symbol_boundary::{ranges_ordered, symbol_boundary_chunks};
use crate::application::chunking::with_context::context_chunks;
use crate::domain::types::{CallEdge, Chunk, ChunkView, FileRecord, ImportEdge, Symbol, chunk_views};
use crate::domain::parser::ParsedFile;
use crate::adapters::syntax::AdapterError;
use crate::application::protocol::{Event, EventPayload, event_is};
use crate::adapters::LanguageAdapter;
use crate::text::{chars_of, lowercase, seq_eq, slice_range, to_lowercase};

verus! {

// ---------------------------------------------------------------------------
// Options
// ---------------------------------------------------------------------------

/// How a directory is indexed.
#[derive(Debug)]
pub struct IndexOptions {
    pub max_concurrency: usize,
    /// The files to index instead of walking the directory.
    pub explicit_files: Option<Vec<String>>,
    pub extract_imports: bool,
    pub extract_calls: bool,
    pub chunking: ChunkingOptions,
    pub backpressure: Option<crate::infra::backpressure::BackpressureConfig>,
}

impl Default for IndexOptions {
    /// One file at a time, the whole directory, imports and calls, default
    /// chunking, no flow control.
    fn default() -> (r: Self)
        ensures
            r.max_concurrency == 1,
            r.explicit_files is None,
            r.extract_imports,
            r.extract_calls,
            r.chunking == crate::application::chunking::strategy::default_chunking(),
            r.backpressure is None,
    {
        IndexOptions {
            max_concurrency: 1,
            explicit_files: None,
            extract_imports: true,
            extract_calls: true,
            chunking: ChunkingOptions::default(),
            backpressure: None,
        }
    }
}

// ---------------------------------------------------------------------------
// Languages
// ---------------------------------------------------------------------------

/// The normal components of a path: its `/`-separated parts without empty
/// parts and `.`.
pub open spec fn path_parts(p: Seq<char>) -> Seq<Seq<char>> {
    crate::text::split(p, "/"@).filter(|c: Seq<char>| c.len() > 0 && c != "."@)
}

/// The file name of a path: its last component, unless that is `..`.
pub open spec fn file_name(p: Seq<char>) -> Option<Seq<char>> {
    let parts = path_parts(p);
    if parts.len() == 0 || parts.last() == ".."@ { None } else { Some(parts.last()) }
}

/// The position of the last `.` in a name.
pub open spec fn last_dot(n: Seq<char>) -> Option<int> {
    crate::text::rfind(n, "."@)
}

/// The extension of a path (`Path::extension`): the part of its file name
/// after the last `.`, unless the name has no `.` or only a leading one.
pub open spec fn extension(p: Seq<char>) -> Option<Seq<char>> {
    match file_name(p) {
        None => None,
        Some(n) => match last_dot(n) {
            Some(i) => if i == 0 { None } else { Some(n.skip(i + 1)) },
            None => None,
        },
    }
}

/// The language of an extension.
pub open spec fn language_of_extension(e: Seq<char>) -> Option<Seq<char>> {
    if e == "rs"@ {
        Some("rust"@)
    } else if e == "ts"@ || e == "tsx"@ {
        Some("typescript"@)
    } else if e == "js"@ || e == "jsx"@ {
        Some("javascript"@)
    } else if e == "java"@ {
        Some("java"@)
    } else if e == "go"@ {
        Some("go"@)
    } else if e == "py"@ {
        Some("python"@)
    } else {
        None
    }
}

/// The language a path's extension names.
pub open spec fn language_of_path(p: Seq<char>) -> Option<Seq<char>> {
    match extension(p) {
        Some(e) => language_of_extension(e),
        None => None,
    }
}

fn eq_lit(a: &[char], b: &str) -> (r: bool)
    ensures
        r == (a@ == b@),
{
    let bc = chars_of(b);
    seq_eq(a, bc.as_slice())
}

/// The file name of a path.
pub fn file_name_exec(path: &str) -> (r: Option<Vec<char>>)
    ensures
        match r { Some(v) => Some(v@), None => None::<Seq<char>> } == file_name(path@),
{
    let pc = chars_of(path);
    let sep = chars_of("/");
    let parts = crate::text::split_exec(pc.as_slice(), sep.as_slice());
    let ghost pv = parts@.map_values(|v: Vec<char>| v@);
    let mut last: Option<usize> = None;
    let mut i: usize = 0;
    while i < parts.len()
        invariant
            i <= parts.len(),
            pv == parts@.map_values(|v: Vec<char>| v@),
            pv == crate::text::split(path@, "/"@),
            ({
                let f = pv.take(i as int).filter(|c: Seq<char>| c.len() > 0 && c != "."@);
                match last {
                    None => f.len() == 0,
                    Some(j) => j < i && f.len() > 0 && f.last() == pv[j as int],
                }
            }),
        decreases parts.len() - i,
    {
        let ghost t = pv.take(i + 1);
        assert(t.drop_last() == pv.take(i as int));
        assert(t.last() == pv[i as int]);
        proof {
            reveal(Seq::filter);
        }
        if parts[i].len() > 0 && !eq_lit(parts[i].as_slice(), ".") {
            last = Some(i);
        }
        i += 1;
    }
    assert(pv.take(parts.len() as int) == pv);
    match last {
        None => None,
        Some(j) => {
            if eq_lit(parts[j].as_slice(), "..") {
                None
            } else {
                Some(slice_range(parts[j].as_slice(), 0, parts[j].len()))
            }
        },
    }
}

/// The extension of a path.
pub fn extension_exec(path: &str) -> (r: Option<Vec<char>>)
    ensures
        match r { Some(v) => Some(v@), None => None::<Seq<char>> } == extension(path@),
{
    let name = match file_name_exec(path) {
        None => {
            return None;
        },
        Some(n) => n,
    };
    let dot = chars_of(".");
    match crate::text::rfind_exec(name.as_slice(), dot.as_slice()) {
        None => None,
        Some(i) => {
            if i == 0 {
                return None;
            }
            proof {
                crate::text::lemma_rfind_is_match(name@, dot@);
                reveal_strlit(".");
            }
            let l = name.len();
            assert(i + 1 <= l);
            let start: usize = i + 1;
            assert(name@.subrange(start as int, l as int) == name@.skip(i + 1));
            Some(slice_range(name.as_slice(), start, l))
        },
    }
}

/// `detect_language`: the language a path's extension names (`rs`, `ts`,
/// `tsx`, `js`, `jsx`, `java`, `go`, `py`).
pub fn detect_language(path: &str) -> (r: Option<String>)
    ensures
        match r { Some(s) => Some(s@), None => None::<Seq<char>> } == language_of_path(path@),
{
    let name = match file_name_exec(path) {
        None => {
            return None;
        },
        Some(n) => n,
    };
    let dot = chars_of(".");
    let e = match crate::text::rfind_exec(name.as_slice(), dot.as_slice()) {
        None => {
            return None;
        },
        Some(i) => {
            if i == 0 {
                return None;
            }
            proof {
                crate::text::lemma_rfind_is_match(name@, dot@);
                reveal_strlit(".");
            }
            let l = name.len();
            assert(i + 1 <= l);
            let start: usize = i + 1;
            assert(name@.subrange(start as int, l as int) == name@.skip(i + 1));
            slice_range(name.as_slice(), start, l)
        },
    };
    let e = e.as_slice();
    if eq_lit(e, "rs") {
        Some("rust".to_owned())
    } else if eq_lit(e, "ts") || eq_lit(e, "tsx") {
        Some("typescript".to_owned())
    } else if eq_lit(e, "js") || eq_lit(e, "jsx") {
        Some("javascript".to_owned())
    } else if eq_lit(e, "java") {
        Some("java".to_owned())
    } else if eq_lit(e, "go") {
        Some("go".to_owned())
    } else if eq_lit(e, "py") {
        Some("python".to_owned())
    } else {
        None
    }
}

// ---------------------------------------------------------------------------
// Chunking one file
// ---------------------------------------------------------------------------

/// The kinds of symbol that chunks are built around.
pub open spec fn is_boundary_kind(k: Seq<char>) -> bool {
    k == "function"@ || k == "struct"@ || k == "enum"@ || k == "trait"@ || k == "impl"@ || k == "class"@
        || k == "method"@ || k == "constructor"@ || k == "mod"@
}

/// Whether a symbol is one that chunks are built around (by its kind, in
/// lower case).
pub open spec fn chunk_boundary(s: Symbol) -> bool {
    is_boundary_kind(lowercase(s.kind@))
}

/// Whether a symbol's lines are numbered from zero.
pub open spec fn zero_based(s: Symbol) -> bool {
    s.start_line == 0 || s.end_line == 0
}

/// A symbol moved one line down (without overflow).
pub open spec fn shifted(s: Symbol) -> Symbol {
    Symbol {
        start_line: if s.start_line == usize::MAX { usize::MAX } else { (s.start_line + 1) as usize },
        end_line: if s.end_line == usize::MAX { usize::MAX } else { (s.end_line + 1) as usize },
        ..s
    }
}

/// The boundary symbols, moved one line down when any of them is numbered
/// from zero.
pub open spec fn boundary_symbols(syms: Seq<Symbol>) -> Seq<Symbol> {
    let f = syms.filter(|s: Symbol| chunk_boundary(s));
    if exists|k: int| 0 <= k < f.len() && zero_based(#[trigger] f[k]) {
        f.map_values(|s: Symbol| shifted(s))
    } else {
        f
    }
}

/// The chunks of the base strategy.
pub open spec fn base_chunks(o: ChunkingOptions, file_path: Seq<char>, source: Seq<char>, syms: Option<Seq<Symbol>>) -> Seq<ChunkView> {
    match o.strategy {
        ChunkingStrategy::SymbolBoundary => symbol_boundary_chunks(file_path, source, syms),
        ChunkingStrategy::Semantic => semantic_chunks(file_path, source, syms, o.max_lines as int),
        ChunkingStrategy::LineLimited => size_limited_chunks(file_path, source, syms, o.max_lines as int),
    }
}

/// The chunks of the strategy the options compose: the base strategy,
/// widened when there is overlap, and (given symbols) with context when
/// asked for.
pub open spec fn composed_chunks(o: ChunkingOptions, file_path: Seq<char>, source: Seq<char>, syms: Option<Seq<Symbol>>) -> Seq<ChunkView> {
    let base = base_chunks(o, file_path, source, syms);
    let widened = if o.overlap_lines > 0 { overlap_chunks(base, source, o.overlap_lines as int) } else { base };
    if syms is Some && o.include_context {
        context_chunks(widened, source, syms)
    } else {
        widened
    }
}

/// A chunk with the file's language, when it is known.
pub open spec fn with_language(c: ChunkView, language: Option<Seq<char>>) -> ChunkView {
    ChunkView { language: if language is Some { language } else { c.language }, ..c }
}

/// The chunks of a file: the boundary symbols (when any remain) are
/// chunked by the composed strategy; otherwise the file is chunked without
/// symbols and without context. Each chunk then takes the file's language.
pub open spec fn file_chunks(
    file_path: Seq<char>,
    source: Seq<char>,
    language: Option<Seq<char>>,
    symbols: Option<Seq<Symbol>>,
    o: ChunkingOptions,
) -> Seq<ChunkView> {
    let cs = match symbols {
        Some(s) if boundary_symbols(s).len() > 0 => composed_chunks(o, file_path, source, Some(boundary_symbols(s))),
        _ => composed_chunks(o, file_path, source, None),
    };
    cs.map_values(|c: ChunkView| with_language(c, language))
}

/// Symbols the chunkers can measure: line numbers below the largest
/// `usize` (less one, for the move of zero-based symbols), and, for the
/// one-chunk-per-symbol strategy, a start not after the end.
pub open spec fn symbols_chunkable(o: ChunkingOptions, syms: Seq<Symbol>) -> bool {
    forall|k: int| 0 <= k < syms.len() ==> {
        &&& (#[trigger] syms[k]).end_line < usize::MAX - 1
        &&& syms[k].start_line < usize::MAX - 1
        &&& (o.strategy == ChunkingStrategy::SymbolBoundary ==> syms[k].start_line <= syms[k].end_line)
    }
}

proof fn lemma_filter_keeps(s: Seq<Symbol>, pred: spec_fn(Symbol) -> bool, p: spec_fn(Symbol) -> bool)
    requires
        forall|i: int| 0 <= i < s.len() ==> p(#[trigger] s[i]),
    ensures
        forall|k: int| 0 <= k < s.filter(pred).len() ==> p(#[trigger] s.filter(pred)[k]),
    decreases s.len(),
{
    reveal(Seq::filter);
    if s.len() > 0 {
        let d = s.drop_last();
        assert forall|i: int| 0 <= i < d.len() implies p(#[trigger] d[i]) by {
            assert(d[i] == s[i]);
        }
        lemma_filter_keeps(d, pred, p);
        let f = s.filter(pred);
        assert forall|k: int| 0 <= k < f.len() implies p(#[trigger] f[k]) by {
            if k < d.filter(pred).len() {
                assert(f[k] == d.filter(pred)[k]);
            } else {
                assert(f[k] == s.last());
                assert(s.last() == s[s.len() - 1]);
            }
        }
    }
}

/// The symbols that chunking keeps of chunkable symbols can be measured.
proof fn lemma_boundary_symbols_chunkable(o: ChunkingOptions, s: Seq<Symbol>)
    requires
        symbols_chunkable(o, s),
    ensures
        lines_in_range(boundary_symbols(s)),
        o.strategy == ChunkingStrategy::SymbolBoundary ==> ranges_ordered(boundary_symbols(s)),
{
    let p = |x: Symbol| x.end_line < usize::MAX - 1 && x.start_line < usize::MAX - 1
        && (o.strategy == ChunkingStrategy::SymbolBoundary ==> x.start_line <= x.end_line);
    let pred = |x: Symbol| chunk_boundary(x);
    assert forall|i: int| 0 <= i < s.len() implies p(#[trigger] s[i]) by {}
    lemma_filter_keeps(s, pred, p);
    let f = s.filter(pred);
    assert forall|k: int| 0 <= k < f.len() implies p(#[trigger] f[k]) by {}
    let b = boundary_symbols(s);
    assert forall|k: int| 0 <= k < b.len() implies (#[trigger] b[k]).end_line < usize::MAX && b[k].start_line < usize::MAX
        && (o.strategy == ChunkingStrategy::SymbolBoundary ==> b[k].start_line <= b[k].end_line
            && b[k].end_line - b[k].start_line < usize::MAX) by {
        assert(p(f[k]));
    }
}

/// `is_chunk_boundary_symbol`.
pub fn is_chunk_boundary_symbol(symbol: &Symbol) -> (r: bool)
    ensures
        r == chunk_boundary(*symbol),
{
    let low = to_lowercase(symbol.kind.as_str());
    let k = chars_of(low.as_str());
    let k = k.as_slice();
    eq_lit(k, "function") || eq_lit(k, "struct") || eq_lit(k, "enum") || eq_lit(k, "trait") || eq_lit(k, "impl")
        || eq_lit(k, "class") || eq_lit(k, "method") || eq_lit(k, "constructor") || eq_lit(k, "mod")
}

/// `has_zero_based_lines`.
pub fn has_zero_based_lines(symbol: &Symbol) -> (r: bool)
    ensures
        r == zero_based(*symbol),
{
    symbol.start_line == 0 || symbol.end_line == 0
}

fn normalize_boundary_symbols(items: &Vec<Symbol>) -> (r: Vec<Symbol>)
    ensures
        r@ == boundary_symbols(items@),
{
    let ghost pred = |s: Symbol| chunk_boundary(s);
    let mut filtered: Vec<Symbol> = Vec::new();
    let mut i: usize = 0;
    while i < items.len()
        invariant
            i <= items.len(),
            pred == (|s: Symbol| chunk_boundary(s)),
            filtered@ == items@.take(i as int).filter(pred),
        decreases items.len() - i,
    {
        proof {
            reveal(Seq::filter);
            assert(items@.take(i + 1).drop_last() == items@.take(i as int));
            assert(items@.take(i + 1).last() == items@[i as int]);
        }
        if is_chunk_boundary_symbol(&items[i]) {
            filtered.push(items[i].duplicate());
        }
        i += 1;
    }
    assert(items@.take(items.len() as int) == items@);
    let ghost f = filtered@;
    let mut any_zero = false;
    let mut j: usize = 0;
    while j < filtered.len()
        invariant
            j <= filtered.len(),
            f == filtered@,
            any_zero <==> exists|k: int| 0 <= k < j && zero_based(#[trigger] f[k]),
        decreases filtered.len() - j,
    {
        if has_zero_based_lines(&filtered[j]) {
            any_zero = true;
        }
        j += 1;
    }
    if !any_zero {
        return filtered;
    }
    let mut out: Vec<Symbol> = Vec::new();
    let mut k: usize = 0;
    while k < filtered.len()
        invariant
            k <= filtered.len(),
            f == filtered@,
            out@ =~= f.take(k as int).map_values(|s: Symbol| shifted(s)),
        decreases filtered.len() - k,
    {
        let s = &filtered[k];
        let mut t = s.duplicate();
        t.start_line = if s.start_line == usize::MAX { usize::MAX } else { s.start_line + 1 };
        t.end_line = if s.end_line == usize::MAX { usize::MAX } else { s.end_line + 1 };
        assert(t == shifted(f[k as int]));
        out.push(t);
        assert(f.take(k + 1) =~= f.take(k as int).push(f[k as int]));
        k += 1;
    }
    assert(f.take(filtered.len() as int) =~= f);
    out
}

/// Runs a base strategy, widened and with context as the options ask.
fn run_composed<S: ChunkStrategy>(base: S, o: &ChunkingOptions, file_path: &str, source: &str, syms: Option<&Vec<Symbol>>) -> (r: Vec<Chunk>)
    requires
        base.accepts(opt_symbols(syms)),
    ensures
        ({
            let b = base.chunks_of(file_path@, source@, opt_symbols(syms));
            let widened = if o.overlap_lines > 0 { overlap_chunks(b, source@, o.overlap_lines as int) } else { b };
            chunk_views(r@) == if syms is Some && o.include_context {
                context_chunks(widened, source@, opt_symbols(syms))
            } else {
                widened
            }
        }),
{
    let with_context = syms.is_some() && o.include_context;
    if o.overlap_lines > 0 {
        let ov = OverlapChunker::new(base, o.overlap_lines);
        if with_context {
            ContextInjectionChunker::new(ov).chunk_file(file_path, source, syms)
        } else {
            ov.chunk_file(file_path, source, syms)
        }
    } else {
        if with_context {
            ContextInjectionChunker::new(base).chunk_file(file_path, source, syms)
        } else {
            base.chunk_file(file_path, source, syms)
        }
    }
}

fn run_strategy(o: &ChunkingOptions, file_path: &str, source: &str, syms: Option<&Vec<Symbol>>) -> (r: Vec<Chunk>)
    requires
        syms matches Some(s) ==> lines_in_range(s@) && (o.strategy == ChunkingStrategy::SymbolBoundary ==> ranges_ordered(s@)),
    ensures
        chunk_views(r@) == composed_chunks(*o, file_path@, source@, opt_symbols(syms)),
{
    match o.strategy {
        ChunkingStrategy::SymbolBoundary => run_composed(SymbolBoundaryChunker::new(o.max_lines), o, file_path, source, syms),
        ChunkingStrategy::Semantic => run_composed(SemanticChunker::new(o.max_lines), o, file_path, source, syms),
        ChunkingStrategy::LineLimited => run_composed(SizeLimitedChunker::new(o.max_lines), o, file_path, source, syms),
    }
}

/// `chunk_file_contents`: the chunks of one file under the given options.
pub fn chunk_file_contents(
    file_path: &str,
    source: &str,
    language: Option<String>,
    symbols: Option<&Vec<Symbol>>,
    chunking_opts: &ChunkingOptions,
) -> (r: Vec<Chunk>)
    requires
        symbols matches Some(s) ==> symbols_chunkable(*chunking_opts, s@),
    ensures
        chunk_views(r@) == file_chunks(file_path@, source@, crate::domain::normalize::opt_view(language), opt_symbols(symbols), *chunking_opts),
{
    let normalized: Option<Vec<Symbol>> = match symbols {
        Some(items) => Some(normalize_boundary_symbols(items)),
        None => None,
    };
    let chunks = match &normalized {
        Some(syms) if syms.len() > 0 => {
            proof {
                lemma_boundary_symbols_chunkable(*chunking_opts, symbols->0@);
            }
            run_strategy(chunking_opts, file_path, source, Some(syms))
        },
        _ => run_strategy(chunking_opts, file_path, source, None),
    };
    let mut out: Vec<Chunk> = Vec::new();
    let ghost cs = chunk_views(chunks@);
    let ghost lang = crate::domain::normalize::opt_view(language);
    let mut i: usize = 0;
    while i < chunks.len()
        invariant
            i <= chunks.len(),
            cs == chunk_views(chunks@),
            lang == crate::domain::normalize::opt_view(language),
            chunk_views(out@) =~= cs.take(i as int).map_values(|c: ChunkView| with_language(c, lang)),
        decreases chunks.len() - i,
    {
        let mut c = chunks[i].duplicate();
        let ghost c0 = c@;
        if language.is_some() {
            c.language = crate::text::copy_opt_string(&language);
        }
        assert(c@ =~= with_language(c0, lang));
        let ghost before = chunk_views(out@);
        out.push(c);
        assert(chunk_views(out@) =~= before.push(with_language(cs[i as int], lang)));
        assert(cs.take(i + 1) =~= cs.take(i as int).push(cs[i as int]));
        i += 1;
    }
    assert(cs.take(chunks.len() as int) =~= cs);
    out
}

// ---------------------------------------------------------------------------
// Indexing one file
// ---------------------------------------------------------------------------

fn symbols_chunkable_exec(o: &ChunkingOptions, syms: &Vec<Symbol>) -> (r: bool)
    ensures
        r == symbols_chunkable(*o, syms@),
{
    let mut i: usize = 0;
    while i < syms.len()
        invariant
            i <= syms.len(),
            forall|k: int| 0 <= k < i ==> {
                &&& (#[trigger] syms@[k]).end_line < usize::MAX - 1
                &&& syms@[k].start_line < usize::MAX - 1
                &&& (o.strategy == ChunkingStrategy::SymbolBoundary ==> syms@[k].start_line <= syms@[k].end_line)
            },
        decreases syms.len() - i,
    {
        let s = &syms[i];
        if !(s.end_line < usize::MAX - 1 && s.start_line < usize::MAX - 1) {
            return false;
        }
        if o.strategy == ChunkingStrategy::SymbolBoundary && s.start_line > s.end_line {
            return false;
        }
        i += 1;
    }
    true
}

/// The symbols chunking is given: an adapter's symbols when the chunkers
/// can measure them, else none.
pub open spec fn usable_symbols(o: ChunkingOptions, symbols: Option<Seq<Symbol>>) -> Option<Seq<Symbol>> {
    match symbols {
        Some(s) => if symbols_chunkable(o, s) { Some(s) } else { None },
        None => None,
    }
}

/// The chunks of a read file: its (parsed) text chunked with the
/// adapter's symbols, the language being the one recorded for the file or
/// else the detected one.
pub fn chunks_for_file(
    file: &FileRecord,
    language: Option<String>,
    text: &str,
    symbols: Option<&Vec<Symbol>>,
    chunking: &ChunkingOptions,
) -> (r: Vec<Chunk>)
    ensures
        chunk_views(r@) == file_chunks(
            file.path@,
            text@,
            if file.language is Some { crate::domain::normalize::opt_view(file.language) } else { crate::domain::normalize::opt_view(language) },
            usable_symbols(*chunking, opt_symbols(symbols)),
            *chunking,
        ),
{
    let lang = match &file.language {
        Some(l) => Some(l.clone()),
        None => language,
    };
    match symbols {
        Some(v) => if symbols_chunkable_exec(chunking, v) {
            chunk_file_contents(file.path.as_str(), text, lang, Some(v), chunking)
        } else {
            chunk_file_contents(file.path.as_str(), text, lang, None, chunking)
        },
        None => chunk_file_contents(file.path.as_str(), text, lang, None, chunking),
    }
}

/// The `import_edge` events of raw import edges, one per edge and in order:
/// each carries the edge refined for the language, or the edge as read
/// where its refinement is refused.
pub open spec fn import_events_are(evs: Seq<Event>, edges: Seq<ImportEdge>, language: Seq<char>, job_id: Option<String>) -> bool {
    &&& evs.len() == edges.len()
    &&& forall|i: int| 0 <= i < evs.len() ==> {
        let e = #[trigger] evs[i];
        let raw = edges[i];
        &&& e.event@ == "import_edge"@
        &&& e.job_id == job_id
        &&& e.payload matches Some(EventPayload::Import(n)) && if crate::domain::normalize::import_panics(raw.to_module@, language) {
            n == raw
        } else {
            match crate::domain::normalize::import_shape(raw.to_module@, language) {
                Some(sh) => crate::domain::normalize::edge_with(n, raw, sh),
                None => n == raw,
            }
        }
    }
}

/// The `call_edge` events of call edges, one per edge and in order.
pub open spec fn call_events_are(evs: Seq<Event>, edges: Seq<CallEdge>, job_id: Option<String>) -> bool {
    &&& evs.len() == edges.len()
    &&& forall|i: int| 0 <= i < evs.len() ==> event_is(#[trigger] evs[i], "call_edge"@, job_id, Some(EventPayload::Call(edges[i])))
}

/// The `import_edge` events of a file's raw imports, each refined for the
/// language; an import whose refinement is refused is reported as read.
pub fn import_events(edges: &Vec<ImportEdge>, language: &str, job_id: &Option<String>) -> (r: Vec<Event>)
    ensures
        import_events_are(r@, edges@, language@, *job_id),
{
    let mut out: Vec<Event> = Vec::new();
    let mut i: usize = 0;
    while i < edges.len()
        invariant
            i <= edges.len(),
            out@.len() == i,
            forall|k: int| 0 <= k < i ==> {
                let e = #[trigger] out@[k];
                let raw = edges@[k];
                &&& e.event@ == "import_edge"@
                &&& e.job_id == *job_id
                &&& e.payload matches Some(EventPayload::Import(n)) && if crate::domain::normalize::import_panics(raw.to_module@, language@) {
                    n == raw
                } else {
                    match crate::domain::normalize::import_shape(raw.to_module@, language@) {
                        Some(sh) => crate::domain::normalize::edge_with(n, raw, sh),
                        None => n == raw,
                    }
                }
            },
        decreases edges.len() - i,
    {
        let raw = &edges[i];
        let n = if crate::domain::normalize::import_refused(raw, language) {
            raw.duplicate()
        } else {
            crate::domain::normalize::normalize_import(raw, language)
        };
        out.push(crate::infra::jsonl::build_import_event(crate::text::copy_opt_string(job_id), &n));
        i += 1;
    }
    out
}

/// The `call_edge` events of a file's calls.
pub fn call_events(edges: &Vec<CallEdge>, job_id: &Option<String>) -> (r: Vec<Event>)
    ensures
        call_events_are(r@, edges@, *job_id),
{
    let mut out: Vec<Event> = Vec::new();
    let mut i: usize = 0;
    while i < edges.len()
        invariant
            i <= edges.len(),
            out@.len() == i,
            forall|k: int| 0 <= k < i ==> event_is(#[trigger] out@[k], "call_edge"@, *job_id, Some(EventPayload::Call(edges@[k]))),
        decreases edges.len() - i,
    {
        out.push(crate::infra::jsonl::build_call_event(crate::text::copy_opt_string(job_id), &edges[i]));
        i += 1;
    }
    out
}

/// The language of a file: the one its record names, else the one its
/// extension names.
pub open spec fn record_language(file: FileRecord) -> Option<Seq<char>> {
    if file.language is Some { crate::domain::normalize::opt_view(file.language) } else { language_of_path(file.path@) }
}

/// What indexing one file yields: its import and call events and its chunks.
#[derive(Debug)]
pub struct FileOutput {
    pub import_events: Vec<Event>,
    pub call_events: Vec<Event>,
    pub chunks: Vec<Chunk>,
}

/// What an adapter's reading of a parsed file gives a file's output: the
/// chunks are made with the symbols `extract_symbols` returned (as far as
/// the chunkers can measure them; none when it failed), and, as the
/// options ask, the events are those of the edges `extract_imports` and
/// `extract_calls` returned (none when one failed or is not asked for).
pub open spec fn read_with<A: LanguageAdapter + ?Sized>(
    a: &A,
    p: ParsedFile,
    out: FileOutput,
    file: FileRecord,
    language: Seq<char>,
    opts: IndexOptions,
    job_id: Option<String>,
) -> bool {
    &&& exists|sr: Result<Vec<Symbol>, AdapterError>| #[trigger] call_ensures(A::extract_symbols, (a, &p), sr)
        && chunk_views(out.chunks@) == file_chunks(
            file.path@,
            p.source@,
            record_language(file),
            usable_symbols(opts.chunking, match sr { Ok(v) => Some(v@), Err(_) => None }),
            opts.chunking,
        )
    &&& if opts.extract_imports {
        exists|ir: Result<Vec<ImportEdge>, AdapterError>| #[trigger] call_ensures(A::extract_imports, (a, &p), ir)
            && match ir {
                Ok(edges) => import_events_are(out.import_events@, edges@, language, job_id),
                Err(_) => out.import_events@.len() == 0,
            }
    } else {
        out.import_events@.len() == 0
    }
    &&& if opts.extract_calls {
        exists|cr: Result<Vec<CallEdge>, AdapterError>| #[trigger] call_ensures(A::extract_calls, (a, &p), cr)
            && match cr {
                Ok(edges) => call_events_are(out.call_events@, edges@, job_id),
                Err(_) => out.call_events@.len() == 0,
            }
    } else {
        out.call_events@.len() == 0
    }
}

/// The output of a parsed file: its symbols, imports and calls as the
/// adapter reads them and the options ask, and its chunks.
fn read_parsed<A: LanguageAdapter + ?Sized>(
    a: &A,
    parsed: &ParsedFile,
    file: &FileRecord,
    lang: &String,
    opts: &IndexOptions,
    job_id: &Option<String>,
) -> (out: FileOutput)
    requires
        file.language is None ==> Some(lang@) == record_language(*file),
    ensures
        read_with(a, *parsed, out, *file, lang@, *opts, *job_id),
{
    let sres = a.extract_symbols(parsed);
    let ghost sr = sres;
    let chunks = match sres {
        Ok(v) => chunks_for_file(file, Some(lang.clone()), parsed.source.as_str(), Some(&v), &opts.chunking),
        Err(_) => chunks_for_file(file, Some(lang.clone()), parsed.source.as_str(), None, &opts.chunking),
    };
    let mut imports: Vec<Event> = Vec::new();
    let ghost mut ir: Option<Result<Vec<ImportEdge>, AdapterError>> = None;
    if opts.extract_imports {
        let ires = a.extract_imports(parsed);
        proof {
            ir = Some(ires);
        }
        match ires {
            Ok(edges) => {
                imports = import_events(&edges, lang.as_str(), job_id);
            },
            Err(_) => {},
        }
    }
    let mut calls: Vec<Event> = Vec::new();
    let ghost mut cr: Option<Result<Vec<CallEdge>, AdapterError>> = None;
    if opts.extract_calls {
        let cres = a.extract_calls(parsed);
        proof {
            cr = Some(cres);
        }
        match cres {
            Ok(edges) => {
                calls = call_events(&edges, job_id);
            },
            Err(_) => {},
        }
    }
    let out = FileOutput { import_events: imports, call_events: calls, chunks };
    proof {
        assert(call_ensures(A::extract_symbols, (a, parsed), sr));
        if opts.extract_imports {
            assert(call_ensures(A::extract_imports, (a, parsed), ir->0));
        }
        if opts.extract_calls {
            assert(call_ensures(A::extract_calls, (a, parsed), cr->0));
        }
    }
    out
}

/// Indexes one read file with the adapter of its language (when there is
/// one): parses it, reads its symbols and, as the options ask, its imports
/// and calls, and chunks it. A file whose language is not detected yields
/// nothing; a file the adapter cannot parse is chunked as read, without
/// symbols and without events.
pub fn index_file<A: LanguageAdapter + ?Sized>(
    adapter: Option<&A>,
    file: &FileRecord,
    text: &str,
    opts: &IndexOptions,
    job_id: &Option<String>,
) -> (r: Option<FileOutput>)
    ensures
        language_of_path(file.path@) is None <==> r is None,
        r matches Some(out) ==> adapter is None ==> out.import_events@.len() == 0 && out.call_events@.len() == 0
            && chunk_views(out.chunks@) == file_chunks(file.path@, text@, record_language(*file), None, opts.chunking),
        r matches Some(out) ==> adapter matches Some(a) ==> ({
            ||| (exists|e: AdapterError| #[trigger] call_ensures(A::parse_source, (a, text), Err::<ParsedFile, AdapterError>(e)))
                && out.import_events@.len() == 0 && out.call_events@.len() == 0
                && chunk_views(out.chunks@) == file_chunks(file.path@, text@, record_language(*file), None, opts.chunking)
            ||| exists|p: ParsedFile| #[trigger] call_ensures(A::parse_source, (a, text), Ok::<ParsedFile, AdapterError>(p))
                && p.source@ == text@
                && read_with(a, p, out, *file, language_of_path(file.path@)->0, *opts, *job_id)
        }),
{
    let lang = match detect_language(file.path.as_str()) {
        None => {
            return None;
        },
        Some(l) => l,
    };
    match adapter {
        None => {
            let chunks = chunks_for_file(file, Some(lang), text, None, &opts.chunking);
            Some(FileOutput { import_events: Vec::new(), call_events: Vec::new(), chunks })
        },
        Some(a) => match a.parse_source(text) {
            Err(e) => {
                let chunks = chunks_for_file(file, Some(lang), text, None, &opts.chunking);
                assert(call_ensures(A::parse_source, (a, text), Err::<ParsedFile, AdapterError>(e)));
                Some(FileOutput { import_events: Vec::new(), call_events: Vec::new(), chunks })
            },
            Ok(parsed) => {
                let out = read_parsed(a, &parsed, file, &lang, opts, job_id);
                assert(call_ensures(A::parse_source, (a, text), Ok::<ParsedFile, AdapterError>(parsed)));
                Some(out)
            },
        },
    }
}

// ---------------------------------------------------------------------------
// Gathering a job's results
// ---------------------------------------------------------------------------

/// What a job produced.
#[derive(Debug)]
pub struct IndexResult {
    pub chunks: Vec<Chunk>,
    pub files: Vec<FileRecord>,
}

/// The key chunks are reported in: file, start line, end line, id.
pub open spec fn result_chunk_keys(cs: Seq<Chunk>) -> Seq<crate::order::KeyView> {
    Seq::new(cs.len(), |i: int| crate::order::KeyView {
        t1: cs[i].file_path@,
        n1: cs[i].start_line as int,
        n2: cs[i].end_line as int,
        t2: cs[i].id@,
        n3: 0,
    })
}

/// The chunks in report order (stably sorted by their key).
pub open spec fn result_chunks(cs: Seq<Chunk>) -> Seq<ChunkView> {
    let o = crate::order::stable_order(result_chunk_keys(cs), cs.len() as int);
    Seq::new(o.len(), |k: int| cs[o[k]]@)
}

/// The reported chunks are the job's chunks, each once, in order of file
/// path, then start line, then end line.
pub proof fn law_result_chunks_ordered(cs: Seq<Chunk>)
    ensures
        result_chunks(cs).len() == cs.len(),
        forall|i: int, j: int| 0 <= i < j < cs.len() ==> {
            let a = #[trigger] result_chunks(cs)[i];
            let b = #[trigger] result_chunks(cs)[j];
            &&& !crate::order::text_lt(b.file_path, a.file_path)
            &&& a.file_path == b.file_path ==> a.start_line <= b.start_line
            &&& a.file_path == b.file_path && a.start_line == b.start_line ==> a.end_line <= b.end_line
        },
        exists|perm: Seq<int>| {
            &&& perm.len() == cs.len()
            &&& perm.no_duplicates()
            &&& forall|k: int| 0 <= k < cs.len() ==> 0 <= #[trigger] perm[k] < cs.len() && result_chunks(cs)[k] == cs[perm[k]]@
        },
{
    let kv = result_chunk_keys(cs);
    crate::order::lemma_stable_order_perm(kv, cs.len() as int);
    crate::order::lemma_stable_order_sorted(kv, cs.len() as int);
    let o = crate::order::stable_order(kv, cs.len() as int);
    assert forall|i: int, j: int| 0 <= i < j < cs.len() implies {
        let a = #[trigger] result_chunks(cs)[i];
        let b = #[trigger] result_chunks(cs)[j];
        &&& !crate::order::text_lt(b.file_path, a.file_path)
        &&& a.file_path == b.file_path ==> a.start_line <= b.start_line
        &&& a.file_path == b.file_path && a.start_line == b.start_line ==> a.end_line <= b.end_line
    } by {
        assert(!crate::order::key_gt(kv[o[i]], kv[o[j]]));
        crate::order::lemma_text_order(cs[o[i]].file_path@, cs[o[j]].file_path@, cs[o[j]].file_path@);
    }
    assert forall|k: int| 0 <= k < cs.len() implies 0 <= #[trigger] o[k] < cs.len() && result_chunks(cs)[k] == cs[o[k]]@ by {}
}

/// Whether a record's path occurs before position `i`.
pub open spec fn path_seen(fs: Seq<FileRecord>, i: int) -> bool {
    exists|j: int| 0 <= j < i && fs[j].path@ == fs[i].path@
}

/// The first record of each path, in the order given.
pub open spec fn first_records_upto(fs: Seq<FileRecord>, n: int) -> Seq<FileRecord>
    decreases n,
{
    if n <= 0 {
        Seq::empty()
    } else {
        let prev = first_records_upto(fs, n - 1);
        if path_seen(fs, n - 1) { prev } else { prev.push(fs[n - 1]) }
    }
}

/// What a job gathers while its files are indexed: each chunk, with the
/// record of the file whose output held it, at the same position.
pub struct Gathered {
    pub chunks: Vec<Chunk>,
    pub files: Vec<FileRecord>,
}

impl Gathered {
    /// Nothing gathered yet.
    pub fn new() -> (r: Gathered)
        ensures
            r.chunks@.len() == 0,
            r.files@.len() == 0,
    {
        Gathered { chunks: Vec::new(), files: Vec::new() }
    }

    /// Adds the chunks of one file's output, each paired with the file's
    /// record.
    pub fn add_file(&mut self, file: &FileRecord, chunks: &Vec<Chunk>)
        ensures
            chunk_views(final(self).chunks@) == chunk_views(old(self).chunks@) + chunk_views(chunks@),
            final(self).files@ == old(self).files@ + Seq::new(chunks@.len(), |i: int| *file),
    {
        let ghost c0 = self.chunks@;
        let ghost f0 = self.files@;
        let mut i: usize = 0;
        while i < chunks.len()
            invariant
                i <= chunks.len(),
                chunk_views(self.chunks@) == chunk_views(c0) + chunk_views(chunks@.take(i as int)),
                self.files@ == f0 + Seq::new(i as nat, |k: int| *file),
            decreases chunks.len() - i,
        {
            let ghost before = chunk_views(self.chunks@);
            let d = chunks[i].duplicate();
            self.chunks.push(d);
            self.files.push(file.duplicate());
            assert(chunk_views(self.chunks@) =~= before.push(d@));
            assert(chunks@.take(i + 1) =~= chunks@.take(i as int).push(chunks@[i as int]));
            assert(chunk_views(chunks@.take(i + 1)) =~= chunk_views(chunks@.take(i as int)).push(chunks@[i as int]@));
            assert(chunk_views(self.chunks@) =~= chunk_views(c0) + chunk_views(chunks@.take(i + 1)));
            assert(Seq::new((i + 1) as nat, |k: int| *file) =~= Seq::new(i as nat, |k: int| *file).push(*file));
            assert(self.files@ =~= f0 + Seq::new((i + 1) as nat, |k: int| *file));
            i += 1;
        }
        assert(chunks@.take(chunks.len() as int) =~= chunks@);
    }
}

/// Whether `r` is one of the first `n` records.
pub open spec fn record_among(fs: Seq<FileRecord>, n: int, r: FileRecord) -> bool {
    exists|i: int| 0 <= i < n && fs[i] == r
}

/// Whether some record has the path `p`.
pub open spec fn path_listed(rs: Seq<FileRecord>, p: Seq<char>) -> bool {
    exists|k: int| 0 <= k < rs.len() && rs[k].path@ == p
}

proof fn lemma_first_records(fs: Seq<FileRecord>, n: int)
    requires
        0 <= n <= fs.len(),
    ensures
        ({
            let fr = first_records_upto(fs, n);
            &&& forall|k: int| 0 <= k < fr.len() ==> #[trigger] record_among(fs, n, fr[k])
            &&& forall|i: int| 0 <= i < n ==> #[trigger] path_listed(fr, fs[i].path@)
            &&& forall|k1: int, k2: int| 0 <= k1 < k2 < fr.len() ==> #[trigger] fr[k1].path@ != #[trigger] fr[k2].path@
        }),
    decreases n,
{
    if n > 0 {
        lemma_first_records(fs, n - 1);
        let prev = first_records_upto(fs, n - 1);
        let fr = first_records_upto(fs, n);
        assert forall|k: int| 0 <= k < prev.len() implies #[trigger] record_among(fs, n, prev[k]) by {
            assert(record_among(fs, n - 1, prev[k]));
            let i = choose|i: int| #![trigger fs[i]] 0 <= i < n - 1 && fs[i] == prev[k];
            assert(fs[i] == prev[k]);
        }
        assert forall|i: int| 0 <= i < n - 1 implies #[trigger] path_listed(fr, fs[i].path@) by {
            assert(path_listed(prev, fs[i].path@));
            let k = choose|k: int| #![trigger prev[k]] 0 <= k < prev.len() && prev[k].path@ == fs[i].path@;
            assert(fr[k] == prev[k]);
        }
        if path_seen(fs, n - 1) {
            let j = choose|j: int| #![trigger fs[j]] 0 <= j < n - 1 && fs[j].path@ == fs[n - 1].path@;
            assert(path_listed(prev, fs[j].path@));
            assert(path_listed(fr, fs[n - 1].path@));
        } else {
            assert(fr == prev.push(fs[n - 1]));
            assert forall|k: int| 0 <= k < fr.len() implies #[trigger] record_among(fs, n, fr[k]) by {
                if k < prev.len() {
                    assert(record_among(fs, n, prev[k]));
                } else {
                    assert(fs[n - 1] == fr[k]);
                }
            }
            assert(fr[prev.len() as int].path@ == fs[n - 1].path@);
            assert(path_listed(fr, fs[n - 1].path@));
            assert forall|k1: int, k2: int| 0 <= k1 < k2 < fr.len() implies #[trigger] fr[k1].path@ != #[trigger] fr[k2].path@ by {
                if k2 == prev.len() {
                    assert(record_among(fs, n - 1, prev[k1]));
                    let i = choose|i: int| #![trigger fs[i]] 0 <= i < n - 1 && fs[i] == prev[k1];
                    assert(fr[k1] == fs[i]);
                    assert(!(fs[i].path@ == fs[n - 1].path@));
                } else {
                    assert(prev[k1].path@ != prev[k2].path@);
                }
            }
        }
    }
}

/// The files of a job's result are the files that yielded chunks: when the
/// gathered records are paired with the gathered chunks (as `Gathered`
/// pairs them), every reported file is the record of some chunk, the
/// record of every chunk has its path reported, and no path is reported
/// twice.
pub proof fn law_result_files(chunks: Seq<Chunk>, files: Seq<FileRecord>)
    requires
        files.len() == chunks.len(),
    ensures
        ({
            let rf = crate::infra::walker::sorted_records(first_records_upto(files, files.len() as int));
            &&& forall|k: int| 0 <= k < rf.len() ==> #[trigger] record_among(files, chunks.len() as int, rf[k])
            &&& forall|i: int| 0 <= i < chunks.len() ==> #[trigger] path_listed(rf, files[i].path@)
            &&& forall|k1: int, k2: int| 0 <= k1 < k2 < rf.len() ==> #[trigger] rf[k1].path@ != #[trigger] rf[k2].path@
        }),
{
    let n = files.len() as int;
    let fr = first_records_upto(files, n);
    lemma_first_records(files, n);
    let keys = crate::infra::walker::record_keys(fr);
    let o = crate::order::stable_order(keys, fr.len() as int);
    crate::order::lemma_stable_order_perm(keys, fr.len() as int);
    crate::order::lemma_stable_order_onto(keys, fr.len() as int);
    let rf = crate::infra::walker::sorted_records(fr);
    assert(rf.len() == fr.len());
    assert forall|k: int| 0 <= k < rf.len() implies #[trigger] record_among(files, chunks.len() as int, rf[k]) by {
        assert(rf[k] == fr[o[k]]);
        assert(record_among(files, n, fr[o[k]]));
    }
    assert forall|i: int| 0 <= i < chunks.len() implies #[trigger] path_listed(rf, files[i].path@) by {
        assert(path_listed(fr, files[i].path@));
        let j = choose|j: int| #![trigger fr[j]] 0 <= j < fr.len() && fr[j].path@ == files[i].path@;
        assert(crate::order::order_takes(o, j));
        let k = choose|k: int| #![trigger o[k]] 0 <= k < o.len() && o[k] == j;
        assert(rf[k] == fr[j]);
    }
    assert forall|k1: int, k2: int| 0 <= k1 < k2 < rf.len() implies #[trigger] rf[k1].path@ != #[trigger] rf[k2].path@ by {
        assert(rf[k1] == fr[o[k1]]);
        assert(rf[k2] == fr[o[k2]]);
        assert(o[k1] != o[k2]);
        if o[k1] < o[k2] {
            assert(fr[o[k1]].path@ != fr[o[k2]].path@);
        } else {
            assert(fr[o[k2]].path@ != fr[o[k1]].path@);
        }
    }
}

/// `index_path_parallel`'s gathering: the chunks sorted by file, lines and
/// id; the files that produced chunks, each path once (its first record),
/// sorted by path.
pub fn collect_results(chunks: &Vec<Chunk>, files: &Vec<FileRecord>) -> (r: IndexResult)
    ensures
        chunk_views(r.chunks@) == result_chunks(chunks@),
        r.files@ == crate::infra::walker::sorted_records(first_records_upto(files@, files@.len() as int)),
{
    let n = chunks.len();
    let mut keys: Vec<crate::order::SortKey> = Vec::new();
    let mut i: usize = 0;
    while i < n
        invariant
            i <= n,
            n == chunks@.len(),
            keys@.len() == i,
            forall|k: int| 0 <= k < i ==> (#[trigger] keys@[k])@ == result_chunk_keys(chunks@)[k],
        decreases n - i,
    {
        let key = crate::order::SortKey {
            t1: chars_of(chunks[i].file_path.as_str()),
            n1: chunks[i].start_line,
            n2: chunks[i].end_line,
            t2: chars_of(chunks[i].id.as_str()),
            n3: 0,
        };
        keys.push(key);
        i += 1;
    }
    assert(crate::order::key_views(keys@) =~= result_chunk_keys(chunks@));
    let order = crate::order::stable_order_exec(&keys);
    proof {
        crate::order::lemma_stable_order_perm(result_chunk_keys(chunks@), n as int);
    }
    let ghost o = crate::order::stable_order(result_chunk_keys(chunks@), n as int);
    let mut sorted: Vec<Chunk> = Vec::new();
    let mut k: usize = 0;
    while k < n
        invariant
            k <= n,
            n == chunks@.len(),
            order@.len() == n,
            o.len() == n,
            o == crate::order::stable_order(result_chunk_keys(chunks@), n as int),
            forall|j: int| 0 <= j < n ==> order@[j] as int == #[trigger] o[j],
            forall|j: int| 0 <= j < n ==> 0 <= #[trigger] o[j] < n,
            chunk_views(sorted@) =~= Seq::new(k as nat, |j: int| chunks@[o[j]]@),
        decreases n - k,
    {
        let idx = order[k];
        assert(o[k as int] == idx as int);
        let ghost before = chunk_views(sorted@);
        let c = chunks[idx].duplicate();
        sorted.push(c);
        assert(chunk_views(sorted@) =~= before.push(chunks@[idx as int]@));
        k += 1;
    }
    let mut firsts: Vec<FileRecord> = Vec::new();
    let mut j: usize = 0;
    while j < files.len()
        invariant
            j <= files.len(),
            firsts@ == first_records_upto(files@, j as int),
        decreases files.len() - j,
    {
        let mut seen = false;
        let mut x: usize = 0;
        while x < j
            invariant
                x <= j,
                j < files.len(),
                seen == exists|y: int| 0 <= y < x && (#[trigger] files@[y]).path@ == files@[j as int].path@,
            decreases j - x,
        {
            if crate::text::same_text(files[x].path.as_str(), files[j].path.as_str()) {
                seen = true;
            }
            x += 1;
        }
        assert(seen == path_seen(files@, j as int));
        if !seen {
            firsts.push(files[j].duplicate());
        }
        j += 1;
    }
    let sorted_files = crate::infra::walker::sort_by_path(&firsts);
    IndexResult { chunks: sorted, files: sorted_files }
}

} // verus!
