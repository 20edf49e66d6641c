//! A decorator that widens each chunk by a few lines into its neighbours
//! in the same file, so that consecutive chunks share context.
use vstd::prelude::*;
use crate::application::chunking::{ChunkStrategy, opt_symbols};
use crate::application::chunking::size_limited::byte_len;
use crate::digest::{blake3_hex_of, blake3_of_text};
use crate::domain::types::{Chunk, ChunkView, MetaValue, MetaView, Metadata, Symbol, chunk_views, meta_map};
use crate::lines::{lines_text, lines_to_string};
use crate::order::{KeyView, SortKey, key_views, lemma_stable_order_perm, stable_order, stable_order_exec};
use crate::text::{append_str, chars_of, seq_eq, string_of};
use vstd::utf8::encode_utf8;

verus! {

/// Widens the chunks of an inner strategy by `overlap_lines` lines towards
/// their neighbours.
pub struct OverlapChunker<S> {
    inner: S,
    overlap_lines: usize,
}

impl<S> OverlapChunker<S> {
    pub fn new(inner: S, overlap_lines: usize) -> (r: Self)
        ensures
            r.inner_strategy() == inner,
            r.overlap() == overlap_lines,
    {
        OverlapChunker { inner, overlap_lines }
    }

    /// The decorated strategy.
    pub closed spec fn inner_strategy(&self) -> S {
        self.inner
    }

    /// The number of lines added on each side.
    pub closed spec fn overlap(&self) -> usize {
        self.overlap_lines
    }
}

/// The key the chunks are ordered by: file, start line, end line, position.
pub open spec fn overlap_keys(cs: Seq<ChunkView>) -> Seq<KeyView> {
    Seq::new(cs.len(), |i: int| KeyView { t1: cs[i].file_path, n1: cs[i].start_line, n2: cs[i].end_line, t2: Seq::empty(), n3: i })
}

/// The chunks ordered by file, start line, end line and position.
pub open spec fn overlap_sorted(cs: Seq<ChunkView>) -> Seq<ChunkView> {
    let o = stable_order(overlap_keys(cs), cs.len() as int);
    Seq::new(o.len(), |k: int| cs[o[k]])
}

/// A chunk widened to the lines `start..=end`: new text and digest, the
/// overlap recorded in its metadata, and `overlap` as its strategy unless
/// one is recorded.
pub open spec fn expand_view(c: ChunkView, source: Seq<char>, start: int, end: int, overlap: int) -> ChunkView {
    let content = lines_text(source, start, end);
    let digest = blake3_hex_of(encode_utf8(content));
    let m0 = match c.metadata { Some(m) => m, None => Map::empty() };
    let m1 = m0.insert("overlap_lines"@, MetaView::Number(overlap as u64));
    let m2 = if m1.contains_key("chunk_strategy"@) { m1 } else { m1.insert("chunk_strategy"@, MetaView::Text("overlap"@)) };
    ChunkView {
        id: "chk-ov-"@ + digest,
        start_line: start,
        end_line: end,
        content,
        text: content,
        md5: digest,
        size: byte_len(content),
        metadata: Some(m2),
        ..c
    }
}

/// The chunk at position `k` of the ordered chunks, widened: its start
/// moves up by `overlap` lines (not below zero) when the chunk before it is
/// of the same file, its end moves down (not above the largest `usize`)
/// when the chunk after it is.
pub open spec fn widened_at(sorted: Seq<ChunkView>, source: Seq<char>, overlap: int, k: int) -> ChunkView {
    let c = sorted[k];
    let has_prev = k > 0 && sorted[k - 1].file_path == c.file_path;
    let has_next = k + 1 < sorted.len() && sorted[k + 1].file_path == c.file_path;
    let start = if has_prev { if c.start_line >= overlap { c.start_line - overlap } else { 0 } } else { c.start_line };
    let end = if has_next { if c.end_line + overlap > usize::MAX { usize::MAX as int } else { c.end_line + overlap } } else { c.end_line };
    expand_view(c, source, start, end, overlap)
}

/// The inner chunks unchanged when there is no overlap or fewer than two
/// chunks; else the chunks ordered by file and lines, each widened.
pub open spec fn overlap_chunks(cs: Seq<ChunkView>, source: Seq<char>, overlap: int) -> Seq<ChunkView> {
    if overlap == 0 || cs.len() < 2 {
        cs
    } else {
        let sorted = overlap_sorted(cs);
        Seq::new(sorted.len(), |k: int| widened_at(sorted, source, overlap, k))
    }
}

/// `expand_chunk`.
fn expand_chunk(chunk: Chunk, source: &str, start_line: usize, end_line: usize, overlap_lines: usize) -> (r: Chunk)
    ensures
        r@ == expand_view(chunk@, source@, start_line as int, end_line as int, overlap_lines as int),
{
    let mut chunk = chunk;
    let content = lines_to_string(source, start_line, end_line);
    let digest = blake3_of_text(content.as_str());
    let mut metadata = match chunk.metadata {
        Some(m) => m,
        None => Metadata::new(),
    };
    metadata.insert("overlap_lines".to_owned(), MetaValue::Number(overlap_lines as u64));
    let has_strategy = metadata.get("chunk_strategy").is_some();
    assert(has_strategy == meta_map(metadata).contains_key("chunk_strategy"@));
    if !has_strategy {
        metadata.insert("chunk_strategy".to_owned(), MetaValue::Text("overlap".to_owned()));
    }
    let mut id: Vec<char> = Vec::new();
    append_str(&mut id, "chk-ov-");
    append_str(&mut id, digest.as_str());
    let ghost c0 = chunk@;
    chunk.id = string_of(id.as_slice());
    chunk.start_line = start_line;
    chunk.end_line = end_line;
    chunk.size = content.as_str().len();
    chunk.content = content.clone();
    chunk.text = content;
    chunk.md5 = digest;
    chunk.metadata = Some(metadata);
    assert(chunk@ =~= expand_view(c0, source@, start_line as int, end_line as int, overlap_lines as int));
    chunk
}

/// Whether `wide` is `c` widened by at most `overlap` lines on each side:
/// the same file, kind, language and symbols, and lines that contain the
/// lines of `c`.
pub open spec fn widens(wide: ChunkView, c: ChunkView, overlap: int) -> bool {
    &&& wide.file_path == c.file_path
    &&& wide.symbol_ids == c.symbol_ids
    &&& wide.symbol_id == c.symbol_id
    &&& wide.chunk_kind == c.chunk_kind
    &&& wide.language == c.language
    &&& wide.start_line <= c.start_line <= wide.start_line + overlap
    &&& c.end_line <= wide.end_line <= c.end_line + overlap
}

/// Line numbers of chunks fit in a `usize`.
pub open spec fn chunk_lines_fit(cs: Seq<ChunkView>) -> bool {
    forall|i: int| 0 <= i < cs.len() ==> 0 <= (#[trigger] cs[i]).start_line && cs[i].end_line <= usize::MAX
}

/// Overlap keeps the chunks of the inner strategy: as many, each of them
/// once (in file and line order), widened by at most `overlap` lines on
/// each side and otherwise the same chunk of the same symbols.
pub proof fn law_overlap_keeps_chunks(cs: Seq<ChunkView>, source: Seq<char>, overlap: usize)
    requires
        chunk_lines_fit(cs),
    ensures
        overlap_chunks(cs, source, overlap as int).len() == cs.len(),
        exists|perm: Seq<int>| {
            &&& perm.len() == cs.len()
            &&& perm.no_duplicates()
            &&& forall|k: int| 0 <= k < cs.len() ==> 0 <= #[trigger] perm[k] < cs.len()
                && widens(overlap_chunks(cs, source, overlap as int)[k], cs[perm[k]], overlap as int)
        },
{
    let r = overlap_chunks(cs, source, overlap as int);
    if overlap == 0 || cs.len() < 2 {
        let perm = Seq::new(cs.len(), |i: int| i);
        assert(perm.no_duplicates());
        assert forall|k: int| 0 <= k < cs.len() implies 0 <= #[trigger] perm[k] < cs.len()
            && widens(r[k], cs[perm[k]], overlap as int) by {}
    } else {
        let n = cs.len() as int;
        lemma_stable_order_perm(overlap_keys(cs), n);
        let perm = stable_order(overlap_keys(cs), n);
        let sorted = overlap_sorted(cs);
        assert forall|k: int| 0 <= k < cs.len() implies 0 <= #[trigger] perm[k] < cs.len()
            && widens(r[k], cs[perm[k]], overlap as int) by {
            assert(sorted[k] == cs[perm[k]]);
            assert(r[k] == widened_at(sorted, source, overlap as int, k));
        }
    }
}

impl<S: ChunkStrategy> ChunkStrategy for OverlapChunker<S> {
    open spec fn chunks_of(&self, file_path: Seq<char>, source: Seq<char>, symbols: Option<Seq<Symbol>>) -> Seq<ChunkView> {
        overlap_chunks(self.inner_strategy().chunks_of(file_path, source, symbols), source, self.overlap() as int)
    }

    open spec fn accepts(&self, symbols: Option<Seq<Symbol>>) -> bool {
        self.inner_strategy().accepts(symbols)
    }

    fn chunk_file(&self, file_path: &str, source: &str, symbols: Option<&Vec<Symbol>>) -> (r: Vec<Chunk>) {
        let chunks = self.inner.chunk_file(file_path, source, symbols);
        let ghost cs = chunk_views(chunks@);
        if self.overlap_lines == 0 || chunks.len() < 2 {
            return chunks;
        }
        let n = chunks.len();
        let mut keys: Vec<SortKey> = Vec::new();
        let mut i: usize = 0;
        while i < n
            invariant
                i <= n,
                n == chunks@.len(),
                cs == chunk_views(chunks@),
                keys@.len() == i,
                forall|k: int| 0 <= k < i ==> (#[trigger] keys@[k])@ == overlap_keys(cs)[k],
            decreases n - i,
        {
            let key = SortKey {
                t1: chars_of(chunks[i].file_path.as_str()),
                n1: chunks[i].start_line,
                n2: chunks[i].end_line,
                t2: Vec::new(),
                n3: i,
            };
            assert(key@.t2 =~= Seq::<char>::empty());
            keys.push(key);
            i += 1;
        }
        assert(key_views(keys@) =~= overlap_keys(cs));
        let order = stable_order_exec(&keys);
        proof {
            lemma_stable_order_perm(overlap_keys(cs), n as int);
        }
        let ghost o = stable_order(overlap_keys(cs), n as int);
        let ghost sorted = overlap_sorted(cs);
        let ov = self.overlap_lines;
        assert(cs.len() == n);
        let mut out: Vec<Chunk> = Vec::new();
        let mut k: usize = 0;
        while k < n
            invariant
                k <= n,
                n == chunks@.len(),
                n >= 2,
                ov == self.overlap_lines,
                ov > 0,
                cs == chunk_views(chunks@),
                order@.len() == n,
                o.len() == n,
                sorted == overlap_sorted(cs),
                cs.len() == n,
                o == stable_order(overlap_keys(cs), n as int),
                sorted.len() == n,
                forall|j: int| 0 <= j < n ==> #[trigger] sorted[j] == cs[o[j]],
                forall|j: int| 0 <= j < n ==> order@[j] as int == #[trigger] o[j],
                forall|j: int| 0 <= j < n ==> 0 <= #[trigger] o[j] < n,
                chunk_views(out@) =~= Seq::new(k as nat, |j: int| widened_at(sorted, source@, ov as int, j)),
            decreases n - k,
        {
            let idx = order[k];
            assert(order@[k as int] as int == o[k as int]);
            assert(0 <= o[k as int] < n);
            assert(sorted[k as int] == cs[idx as int]);
            let c = &chunks[idx];
            let has_prev = if k > 0 {
                let p = order[k - 1];
                assert(order@[k - 1] as int == o[k - 1]);
                assert(0 <= o[k - 1] < n);
                assert(sorted[k - 1] == cs[p as int]);
                let a = chars_of(chunks[p].file_path.as_str());
                let b = chars_of(c.file_path.as_str());
                seq_eq(a.as_slice(), b.as_slice())
            } else {
                false
            };
            let has_next = if k + 1 < n {
                let q = order[k + 1];
                assert(order@[k + 1] as int == o[k + 1]);
                assert(0 <= o[k + 1] < n);
                assert(sorted[k + 1] == cs[q as int]);
                let a = chars_of(chunks[q].file_path.as_str());
                let b = chars_of(c.file_path.as_str());
                seq_eq(a.as_slice(), b.as_slice())
            } else {
                false
            };
            let start = if has_prev {
                if c.start_line >= ov { c.start_line - ov } else { 0 }
            } else {
                c.start_line
            };
            let end = if has_next {
                if c.end_line <= usize::MAX - ov { c.end_line + ov } else { usize::MAX }
            } else {
                c.end_line
            };
            let copy = c.duplicate();
            let w = expand_chunk(copy, source, start, end, ov);
            assert(w@ == widened_at(sorted, source@, ov as int, k as int));
            let ghost before = chunk_views(out@);
            out.push(w);
            assert(chunk_views(out@) =~= before.push(w@));
            k += 1;
        }
        out
    }
}

} // verus!
