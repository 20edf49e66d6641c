//! One chunk per symbol, in the order given; a file without symbols is one
//! chunk. The line limit belongs to the size-limited strategies and does
//! not apply here.
use vstd::prelude::*;
use crate::application::chunking::{ChunkStrategy, opt_symbols};
use crate::application::chunking::common::{chunk_symbol_ids, symbol_ids};
use crate::application::chunking::size_limited::{byte_len, underscored};
use crate::digest::{md5_hex_of, md5_of_text};
use crate::domain::types::{Chunk, ChunkView, Symbol, chunk_views};
use crate::lines::{line_count_at_least_one, line_count_min1, lines_text, lines_to_string};
use crate::text::{append_chars, append_decimal, append_str, chars_of, decimal, string_of, views_of};
use vstd::utf8::encode_utf8;

verus! {

/// One chunk per symbol, whatever its length; `max_lines` is kept with the
/// chunker but limits nothing here.
pub struct SymbolBoundaryChunker {
    pub max_lines: usize,
}

impl SymbolBoundaryChunker {
    pub fn new(max_lines: usize) -> (r: Self)
        ensures
            r.max_lines == max_lines,
    {
        SymbolBoundaryChunker { max_lines }
    }
}

/// The chunk of one symbol: the text of its lines and its MD5 digest; the
/// size is the number of lines.
pub open spec fn symbol_chunk(file_path: Seq<char>, source: Seq<char>, s: Symbol) -> ChunkView {
    let start = s.start_line as int;
    let end = s.end_line as int;
    let content = lines_text(source, start, end);
    ChunkView {
        id: "chk-"@ + underscored(file_path) + "-"@ + decimal(start as nat) + "-"@ + decimal(end as nat),
        file_path,
        start_line: start,
        end_line: end,
        content,
        text: content,
        md5: md5_hex_of(encode_utf8(content)),
        size: end - start + 1,
        language: None,
        symbol_id: Some(s.id@),
        symbol_ids: seq![s.id@],
        chunk_kind: Some("Symbol"@),
        metadata: None,
    }
}

/// The single chunk of a whole file.
pub open spec fn boundary_full_file_chunk(file_path: Seq<char>, source: Seq<char>) -> ChunkView {
    let digest = md5_hex_of(encode_utf8(source));
    ChunkView {
        id: "chk-"@ + digest,
        file_path,
        start_line: 1,
        end_line: line_count_min1(source) as int,
        content: source,
        text: source,
        md5: digest,
        size: byte_len(source),
        language: None,
        symbol_id: None,
        symbol_ids: Seq::empty(),
        chunk_kind: Some("FullFile"@),
        metadata: None,
    }
}

/// The chunks of the first `n` symbols, one each, in the order given.
pub open spec fn boundary_chunks_upto(file_path: Seq<char>, source: Seq<char>, syms: Seq<Symbol>, n: int) -> Seq<ChunkView>
    decreases n,
{
    if n <= 0 {
        Seq::empty()
    } else {
        boundary_chunks_upto(file_path, source, syms, n - 1).push(symbol_chunk(file_path, source, syms[n - 1]))
    }
}

/// The chunks: the whole file when there are no symbols, else the chunk of
/// each symbol, in the order given.
pub open spec fn symbol_boundary_chunks(file_path: Seq<char>, source: Seq<char>, symbols: Option<Seq<Symbol>>) -> Seq<ChunkView> {
    match symbols {
        Some(syms) if syms.len() > 0 => boundary_chunks_upto(file_path, source, syms, syms.len() as int),
        _ => seq![boundary_full_file_chunk(file_path, source)],
    }
}

/// Symbols whose line range can be measured: the start is not after the
/// end, and the count of lines fits in a `usize`.
pub open spec fn ranges_ordered(syms: Seq<Symbol>) -> bool {
    forall|k: int| 0 <= k < syms.len() ==> (#[trigger] syms[k]).start_line <= syms[k].end_line
        && syms[k].end_line - syms[k].start_line < usize::MAX
}

/// The text of lines `start..=end`, each followed by `'\n'`.
pub fn sourcelines_to_string(source: &str, start: usize, end: usize) -> (r: String)
    ensures
        r@ == lines_text(source@, start as int, end as int),
{
    lines_to_string(source, start, end)
}

fn full_file_chunk(file_path: &str, source: &str) -> (r: Chunk)
    ensures
        r@ == boundary_full_file_chunk(file_path@, source@),
{
    let digest = md5_of_text(source);
    let mut id: Vec<char> = Vec::new();
    append_str(&mut id, "chk-");
    append_str(&mut id, digest.as_str());
    let r = Chunk {
        id: string_of(id.as_slice()),
        file_path: file_path.to_owned(),
        start_line: 1,
        end_line: line_count_at_least_one(source),
        content: source.to_owned(),
        text: source.to_owned(),
        md5: digest,
        size: source.len(),
        language: None,
        symbol_id: None,
        symbol_ids: Vec::new(),
        chunk_kind: Some("FullFile".to_owned()),
        metadata: None,
    };
    assert(r@.symbol_ids =~= Seq::<Seq<char>>::empty());
    assert(r@ =~= boundary_full_file_chunk(file_path@, source@));
    r
}

fn chunk_of_symbol(file_path: &str, path_part: &Vec<char>, source: &str, s: &Symbol) -> (r: Chunk)
    requires
        path_part@ == underscored(file_path@),
        s.start_line <= s.end_line,
        s.end_line - s.start_line < usize::MAX,
    ensures
        r@ == symbol_chunk(file_path@, source@, *s),
{
    let start = s.start_line;
    let end = s.end_line;
    let content = sourcelines_to_string(source, start, end);
    let mut id: Vec<char> = Vec::new();
    append_str(&mut id, "chk-");
    append_chars(&mut id, path_part.as_slice());
    append_str(&mut id, "-");
    append_decimal(&mut id, start);
    append_str(&mut id, "-");
    append_decimal(&mut id, end);
    let mut ids: Vec<String> = Vec::new();
    ids.push(s.id.clone());
    let r = Chunk {
        id: string_of(id.as_slice()),
        file_path: file_path.to_owned(),
        start_line: start,
        end_line: end,
        content: content.clone(),
        text: content.clone(),
        md5: md5_of_text(content.as_str()),
        size: end - start + 1,
        language: None,
        symbol_id: Some(s.id.clone()),
        symbol_ids: ids,
        chunk_kind: Some("Symbol".to_owned()),
        metadata: None,
    };
    assert(r@.symbol_ids =~= seq![s.id@]);
    assert(r@ =~= symbol_chunk(file_path@, source@, *s));
    r
}

proof fn lemma_boundary_upto(file_path: Seq<char>, source: Seq<char>, syms: Seq<Symbol>, n: int)
    requires
        0 <= n <= syms.len(),
    ensures
        boundary_chunks_upto(file_path, source, syms, n) == syms.take(n).map_values(|s: Symbol| symbol_chunk(file_path, source, s)),
    decreases n,
{
    if n > 0 {
        lemma_boundary_upto(file_path, source, syms, n - 1);
        assert(syms.take(n).map_values(|s: Symbol| symbol_chunk(file_path, source, s))
            =~= syms.take(n - 1).map_values(|s: Symbol| symbol_chunk(file_path, source, s)).push(symbol_chunk(file_path, source, syms[n - 1])));
    } else {
        assert(syms.take(0).map_values(|s: Symbol| symbol_chunk(file_path, source, s)) =~= Seq::<ChunkView>::empty());
    }
}

/// One chunk per symbol: with symbols, the chunks are exactly those of the
/// symbols, one each and in the order given, whatever their length; so each
/// chunk holds one symbol and the chunks hold all the symbols' ids.
pub proof fn law_symbol_boundary_one_per_symbol(file_path: Seq<char>, source: Seq<char>, syms: Seq<Symbol>)
    requires
        syms.len() > 0,
    ensures
        ({
            let cs = symbol_boundary_chunks(file_path, source, Some(syms));
            &&& cs == syms.map_values(|s: Symbol| symbol_chunk(file_path, source, s))
            &&& chunk_symbol_ids(cs) == symbol_ids(syms)
            &&& forall|i: int| 0 <= i < cs.len() ==> (#[trigger] cs[i]).symbol_ids == seq![syms[i].id@]
        }),
{
    lemma_boundary_upto(file_path, source, syms, syms.len() as int);
    assert(syms.take(syms.len() as int) == syms);
    lemma_chunk_ids_one_each(file_path, source, syms, syms.len() as int);
}

proof fn lemma_chunk_ids_one_each(file_path: Seq<char>, source: Seq<char>, syms: Seq<Symbol>, n: int)
    requires
        0 <= n <= syms.len(),
    ensures
        chunk_symbol_ids(boundary_chunks_upto(file_path, source, syms, n)) == symbol_ids(syms.take(n)),
    decreases n,
{
    if n > 0 {
        lemma_chunk_ids_one_each(file_path, source, syms, n - 1);
        let prev = boundary_chunks_upto(file_path, source, syms, n - 1);
        let c = symbol_chunk(file_path, source, syms[n - 1]);
        assert(prev.push(c).drop_last() == prev);
        assert(syms.take(n).drop_last() == syms.take(n - 1));
        assert(chunk_symbol_ids(prev.push(c)) =~= chunk_symbol_ids(prev) + seq![syms[n - 1].id@]);
        assert(symbol_ids(syms.take(n)) =~= symbol_ids(syms.take(n - 1)).push(syms[n - 1].id@));
    } else {
        assert(symbol_ids(syms.take(0)) =~= Seq::<Seq<char>>::empty());
    }
}

impl ChunkStrategy for SymbolBoundaryChunker {
    open spec fn chunks_of(&self, file_path: Seq<char>, source: Seq<char>, symbols: Option<Seq<Symbol>>) -> Seq<ChunkView> {
        symbol_boundary_chunks(file_path, source, symbols)
    }

    open spec fn accepts(&self, symbols: Option<Seq<Symbol>>) -> bool {
        symbols matches Some(s) ==> ranges_ordered(s)
    }

    fn chunk_file(&self, file_path: &str, source: &str, symbols: Option<&Vec<Symbol>>) -> (r: Vec<Chunk>) {
        let syms = match symbols {
            None => {
                return vec![full_file_chunk(file_path, source)];
            },
            Some(s) => s,
        };
        if syms.len() == 0 {
            return vec![full_file_chunk(file_path, source)];
        }
        let path_part = crate::application::chunking::size_limited::underscored_exec(file_path);
        let mut chunks: Vec<Chunk> = Vec::new();
        let mut i: usize = 0;
        while i < syms.len()
            invariant
                i <= syms.len(),
                ranges_ordered(syms@),
                path_part@ == underscored(file_path@),
                chunk_views(chunks@) == boundary_chunks_upto(file_path@, source@, syms@, i as int),
            decreases syms.len() - i,
        {
            let c = chunk_of_symbol(file_path, &path_part, source, &syms[i]);
            let ghost before = chunk_views(chunks@);
            chunks.push(c);
            assert(chunk_views(chunks@) =~= before.push(c@));
            i += 1;
        }
        chunks
    }
}

} // verus!
