//! Groups consecutive symbols into chunks of at most `max_tokens`
//! approximate tokens (a token being about four characters); a symbol over
//! the limit gets a chunk of its own.
use vstd::prelude::*;
use crate::application::chunking::{ChunkStrategy, opt_symbols};
use crate::application::chunking::common::{
    Fold, GroupView, begin, chunk_symbol_ids, close_groups, concat_ids, empty_fold, extend, flush, fold_holds,
    lemma_chunk_ids_of_groups, lemma_close_groups_holds, lemma_step_holds, lines_in_range, max_of, sort_symbols,
    sorted_symbols, symbol_ids,
};
use crate::application::chunking::size_limited::byte_len;
use crate::digest::{blake3_hex_of, blake3_of_text};
use crate::domain::types::{Chunk, ChunkView, MetaValue, MetaView, Metadata, Symbol, chunk_views};
use crate::lines::{line_count_at_least_one, line_count_min1, lines_text, lines_to_string};
use crate::text::{append_chars, append_decimal, append_str, chars_of, decimal, join, string_of, views_of};
use vstd::utf8::encode_utf8;

verus! {

/// Groups symbols into chunks of at most `max_tokens` approximate tokens
/// (no limit when it is zero).
pub struct ApproxTokenLimitedChunker {
    pub max_tokens: usize,
}

impl ApproxTokenLimitedChunker {
    pub fn new(max_tokens: usize) -> (r: Self)
        ensures
            r.max_tokens == max_tokens,
    {
        ApproxTokenLimitedChunker { max_tokens }
    }
}

/// The approximate number of tokens of a text: its characters divided by
/// four, rounded up, and at least one.
pub open spec fn approx_tokens(t: Seq<char>) -> int {
    let q = t.len() / 4 + if t.len() % 4 != 0 { 1int } else { 0int };
    if q >= 1 { q } else { 1 }
}

/// `approximate_tokens`.
pub fn approximate_tokens(text: &str) -> (r: usize)
    ensures
        r == approx_tokens(text@),
{
    let n = chars_of(text).len();
    let q = n / 4 + if n % 4 != 0 { 1 } else { 0 };
    if q >= 1 { q } else { 1 }
}

/// One step of the grouping, as `size_step` but measured in approximate
/// tokens of the lines' text.
pub open spec fn token_step(f: Fold, s: Symbol, max: int, source: Seq<char>) -> Fold {
    let over = max > 0 && approx_tokens(lines_text(source, s.start_line as int, s.end_line as int)) > max;
    if f.cur.len() == 0 {
        let g = begin(f, s);
        if over { flush(g) } else { g }
    } else {
        let next_end = max_of(f.end, s.end_line as int);
        if max > 0 && approx_tokens(lines_text(source, f.start, next_end)) > max {
            let g = begin(flush(f), s);
            if over { flush(g) } else { g }
        } else {
            extend(f, s, next_end)
        }
    }
}

/// The grouping of a sequence of symbols, in the order given.
pub open spec fn token_fold(syms: Seq<Symbol>, max: int, source: Seq<char>) -> Fold
    decreases syms.len(),
{
    if syms.len() == 0 {
        empty_fold()
    } else {
        token_step(token_fold(syms.drop_last(), max, source), syms.last(), max, source)
    }
}

/// The text a group's digest is taken of: `path:start:end:id1|id2|...`.
pub open spec fn group_digest_input(file_path: Seq<char>, g: GroupView) -> Seq<char> {
    file_path + ":"@ + decimal(g.start as nat) + ":"@ + decimal(g.end as nat) + ":"@ + join(g.ids, "|"@)
}

/// The chunk of one group, with its token count and the limit in its
/// metadata.
pub open spec fn token_group_chunk(file_path: Seq<char>, source: Seq<char>, g: GroupView, max: int) -> ChunkView {
    let content = lines_text(source, g.start, g.end);
    let digest = blake3_hex_of(encode_utf8(group_digest_input(file_path, g)));
    ChunkView {
        id: "chk-tok-"@ + digest,
        file_path,
        start_line: g.start,
        end_line: g.end,
        content,
        text: content,
        md5: digest,
        size: byte_len(content),
        language: None,
        symbol_id: if g.ids.len() > 0 { Some(g.ids[0]) } else { None },
        symbol_ids: g.ids,
        chunk_kind: Some("Symbol"@),
        metadata: Some(Map::empty().insert("chunk_strategy"@, MetaView::Text("token"@)).insert(
            "approx_token_count"@, MetaView::Number(approx_tokens(content) as u64)).insert(
            "max_token_limit"@, MetaView::Number(max as u64))),
    }
}

/// The single chunk of a whole file.
pub open spec fn token_full_file_chunk(file_path: Seq<char>, source: Seq<char>) -> ChunkView {
    let digest = blake3_hex_of(encode_utf8(source));
    ChunkView {
        id: "chk-tok-"@ + digest,
        file_path,
        start_line: 1,
        end_line: line_count_min1(source) as int,
        content: source,
        text: source,
        md5: digest,
        size: byte_len(source),
        language: None,
        symbol_id: None,
        symbol_ids: Seq::empty(),
        chunk_kind: Some("FullFile"@),
        metadata: Some(Map::empty().insert("chunk_strategy"@, MetaView::Text("token"@)).insert(
            "approx_token_count"@, MetaView::Number(approx_tokens(source) as u64))),
    }
}

/// The chunks: the whole file when there are no symbols, else one chunk per
/// group of the sorted symbols.
pub open spec fn token_limited_chunks(file_path: Seq<char>, source: Seq<char>, symbols: Option<Seq<Symbol>>, max: int) -> Seq<ChunkView> {
    match symbols {
        Some(syms) if syms.len() > 0 => close_groups(token_fold(sorted_symbols(syms), max, source)).map_values(
            |g: GroupView| token_group_chunk(file_path, source, g, max),
        ),
        _ => seq![token_full_file_chunk(file_path, source)],
    }
}

/// Every group of two or more symbols, closed or open, has at most `max`
/// approximate tokens in its lines.
pub open spec fn token_limit_holds(f: Fold, max: int, source: Seq<char>) -> bool {
    &&& forall|i: int| 0 <= i < f.done.len() && (#[trigger] f.done[i]).ids.len() >= 2
        ==> approx_tokens(lines_text(source, f.done[i].start, f.done[i].end)) <= max
    &&& f.cur.len() >= 2 ==> approx_tokens(lines_text(source, f.start, f.end)) <= max
}

proof fn lemma_token_fold(syms: Seq<Symbol>, max: int, source: Seq<char>)
    ensures
        fold_holds(token_fold(syms, max, source), symbol_ids(syms)),
        max > 0 ==> token_limit_holds(token_fold(syms, max, source), max, source),
    decreases syms.len(),
{
    if syms.len() > 0 {
        let prev = syms.drop_last();
        let s = syms.last();
        lemma_token_fold(prev, max, source);
        let f = token_fold(prev, max, source);
        assert(symbol_ids(syms) =~= symbol_ids(prev).push(s.id@));
        lemma_step_holds(f, s, symbol_ids(prev), max_of(f.end, s.end_line as int));
        assert(token_fold(syms, max, source) == token_step(f, s, max, source));
        if max > 0 {
            let g = token_fold(syms, max, source);
            assert(token_limit_holds(g, max, source)) by {
                if f.cur.len() > 0 {
                    assert(flush(f).done.len() == f.done.len() + 1);
                }
            }
        }
    } else {
        assert(symbol_ids(syms) =~= concat_ids(empty_fold().done) + empty_fold().cur);
    }
}

/// The token-limited chunks of a file with symbols hold every symbol once,
/// in the sorted order; no chunk is without a symbol, and a chunk of two or
/// more symbols has at most the limit of approximate tokens (when there is
/// one).
pub proof fn law_token_limited_groups(file_path: Seq<char>, source: Seq<char>, syms: Seq<Symbol>, max: usize)
    requires
        syms.len() > 0,
    ensures
        ({
            let cs = token_limited_chunks(file_path, source, Some(syms), max as int);
            &&& chunk_symbol_ids(cs) == symbol_ids(sorted_symbols(syms))
            &&& forall|i: int| 0 <= i < cs.len() ==> (#[trigger] cs[i]).symbol_ids.len() > 0
            &&& max > 0 ==> forall|i: int| 0 <= i < cs.len() && (#[trigger] cs[i]).symbol_ids.len() >= 2
                ==> approx_tokens(cs[i].content) <= max
        }),
{
    let sorted = sorted_symbols(syms);
    let f = token_fold(sorted, max as int, source);
    lemma_token_fold(sorted, max as int, source);
    lemma_close_groups_holds(f, symbol_ids(sorted));
    let gs = close_groups(f);
    let cs = token_limited_chunks(file_path, source, Some(syms), max as int);
    assert(cs == gs.map_values(|g: GroupView| token_group_chunk(file_path, source, g, max as int)));
    lemma_chunk_ids_of_groups(gs, cs);
    if max > 0 {
        assert forall|i: int| 0 <= i < cs.len() && (#[trigger] cs[i]).symbol_ids.len() >= 2
            implies approx_tokens(cs[i].content) <= max by {
            if f.cur.len() > 0 && i == f.done.len() {
                assert(gs[i].ids == f.cur);
            } else {
                assert(gs[i] == f.done[i]);
            }
        }
    }
}

fn build_full_file_chunk(file_path: &str, source: &str) -> (r: Chunk)
    ensures
        r@ == token_full_file_chunk(file_path@, source@),
{
    let digest = blake3_of_text(source);
    let mut id: Vec<char> = Vec::new();
    append_str(&mut id, "chk-tok-");
    append_str(&mut id, digest.as_str());
    let mut meta = Metadata::new();
    meta.insert("chunk_strategy".to_owned(), MetaValue::Text("token".to_owned()));
    meta.insert("approx_token_count".to_owned(), MetaValue::Number(approximate_tokens(source) as u64));
    let r = Chunk {
        id: string_of(id.as_slice()),
        file_path: file_path.to_owned(),
        start_line: 1,
        end_line: line_count_at_least_one(source),
        content: source.to_owned(),
        text: source.to_owned(),
        md5: digest,
        size: source.len(),
        language: None,
        symbol_id: None,
        symbol_ids: Vec::new(),
        chunk_kind: Some("FullFile".to_owned()),
        metadata: Some(meta),
    };
    assert(r@.symbol_ids =~= Seq::<Seq<char>>::empty());
    assert(r@ =~= token_full_file_chunk(file_path@, source@));
    r
}

/// `[String]::join` of the ids with `|`.
fn join_ids(ids: &Vec<String>) -> (r: Vec<char>)
    ensures
        r@ == join(views_of(ids@), "|"@),
{
    let mut parts: Vec<Vec<char>> = Vec::new();
    let mut i: usize = 0;
    while i < ids.len()
        invariant
            i <= ids.len(),
            parts@.map_values(|v: Vec<char>| v@) =~= views_of(ids@).take(i as int),
        decreases ids.len() - i,
    {
        let ghost before = parts@.map_values(|v: Vec<char>| v@);
        parts.push(chars_of(ids[i].as_str()));
        assert(parts@.map_values(|v: Vec<char>| v@) =~= before.push(ids@[i as int]@));
        assert(views_of(ids@).take(i + 1) =~= views_of(ids@).take(i as int).push(ids@[i as int]@));
        i += 1;
    }
    assert(views_of(ids@).take(ids.len() as int) == views_of(ids@));
    let sep = chars_of("|");
    crate::text::join_exec(&parts, sep.as_slice())
}

/// The text a group's digest is taken of.
pub fn group_digest_input_exec(file_path: &str, ids: &Vec<String>, start_line: usize, end_line: usize) -> (r: Vec<char>)
    ensures
        r@ == group_digest_input(file_path@, GroupView { ids: views_of(ids@), start: start_line as int, end: end_line as int }),
{
    let mut s: Vec<char> = Vec::new();
    append_str(&mut s, file_path);
    append_str(&mut s, ":");
    append_decimal(&mut s, start_line);
    append_str(&mut s, ":");
    append_decimal(&mut s, end_line);
    append_str(&mut s, ":");
    let j = join_ids(ids);
    append_chars(&mut s, j.as_slice());
    s
}

/// Appends the chunk of a group, when it holds a symbol.
fn flush_group(
    file_path: &str,
    source: &str,
    chunks: &mut Vec<Chunk>,
    group: Vec<String>,
    start_line: usize,
    end_line: usize,
    max_tokens: usize,
)
    ensures
        chunk_views(final(chunks)@) == chunk_views(old(chunks)@) + if group@.len() > 0 {
            seq![token_group_chunk(file_path@, source@, GroupView { ids: views_of(group@), start: start_line as int, end: end_line as int }, max_tokens as int)]
        } else {
            Seq::<ChunkView>::empty()
        },
{
    if group.len() == 0 {
        assert(chunk_views(chunks@) =~= chunk_views(chunks@) + Seq::<ChunkView>::empty());
        return;
    }
    let content = lines_to_string(source, start_line, end_line);
    let symbol_id = Some(group[0].clone());
    let token_count = approximate_tokens(content.as_str());
    let input = group_digest_input_exec(file_path, &group, start_line, end_line);
    let input_s = string_of(input.as_slice());
    let digest = blake3_of_text(input_s.as_str());
    let mut id: Vec<char> = Vec::new();
    append_str(&mut id, "chk-tok-");
    append_str(&mut id, digest.as_str());
    let mut meta = Metadata::new();
    meta.insert("chunk_strategy".to_owned(), MetaValue::Text("token".to_owned()));
    meta.insert("approx_token_count".to_owned(), MetaValue::Number(token_count as u64));
    meta.insert("max_token_limit".to_owned(), MetaValue::Number(max_tokens as u64));
    let c = Chunk {
        id: string_of(id.as_slice()),
        file_path: file_path.to_owned(),
        start_line,
        end_line,
        content: content.clone(),
        text: content.clone(),
        md5: digest,
        size: content.as_str().len(),
        language: None,
        symbol_id,
        symbol_ids: group,
        chunk_kind: Some("Symbol".to_owned()),
        metadata: Some(meta),
    };
    let ghost g = GroupView { ids: views_of(c.symbol_ids@), start: start_line as int, end: end_line as int };
    assert(c@ =~= token_group_chunk(file_path@, source@, g, max_tokens as int));
    let ghost before = chunk_views(chunks@);
    chunks.push(c);
    assert(chunk_views(chunks@) =~= before + seq![token_group_chunk(file_path@, source@, g, max_tokens as int)]);
}

impl ChunkStrategy for ApproxTokenLimitedChunker {
    open spec fn chunks_of(&self, file_path: Seq<char>, source: Seq<char>, symbols: Option<Seq<Symbol>>) -> Seq<ChunkView> {
        token_limited_chunks(file_path, source, symbols, self.max_tokens as int)
    }

    open spec fn accepts(&self, symbols: Option<Seq<Symbol>>) -> bool {
        true
    }

    fn chunk_file(&self, file_path: &str, source: &str, symbols: Option<&Vec<Symbol>>) -> (r: Vec<Chunk>) {
        let syms = match symbols {
            None => {
                return vec![build_full_file_chunk(file_path, source)];
            },
            Some(s) => s,
        };
        if syms.len() == 0 {
            return vec![build_full_file_chunk(file_path, source)];
        }
        let sorted = sort_symbols(syms);
        let ghost srt = sorted@;
        let ghost fp = file_path@;
        let ghost src = source@;
        let max = self.max_tokens;
        let mut chunks: Vec<Chunk> = Vec::new();
        let mut cur: Vec<String> = Vec::new();
        let mut start: usize = 0;
        let mut end: usize = 0;
        let mut i: usize = 0;
        while i < sorted.len()
            invariant
                i <= sorted.len(),
                srt == sorted@,
                fp == file_path@,
                src == source@,
                max == self.max_tokens,
                ({
                    let f = token_fold(srt.take(i as int), max as int, src);
                    &&& chunk_views(chunks@) == f.done.map_values(|g: GroupView| token_group_chunk(fp, src, g, max as int))
                    &&& views_of(cur@) == f.cur
                    &&& start as int == f.start
                    &&& end as int == f.end
                }),
            decreases sorted.len() - i,
        {
            let ghost f0 = token_fold(srt.take(i as int), max as int, src);
            let s = &sorted[i];
            assert(srt.take(i + 1).drop_last() == srt.take(i as int));
            assert(srt.take(i + 1).last() == srt[i as int]);
            let ghost f1 = token_step(f0, *s, max as int, src);
            let sym_text = lines_to_string(source, s.start_line, s.end_line);
            let over = max > 0 && approximate_tokens(sym_text.as_str()) > max;
            if cur.len() == 0 {
                start = s.start_line;
                end = s.end_line;
                cur.push(s.id.clone());
                assert(views_of(cur@) =~= seq![s.id@]);
                if over {
                    let g = cur;
                    cur = Vec::new();
                    flush_group(file_path, source, &mut chunks, g, start, end, max);
                    assert(views_of(cur@) =~= Seq::<Seq<char>>::empty());
                }
            } else {
                let next_end = if end >= s.end_line { end } else { s.end_line };
                let next_text = lines_to_string(source, start, next_end);
                if max > 0 && approximate_tokens(next_text.as_str()) > max {
                    let g = cur;
                    cur = Vec::new();
                    flush_group(file_path, source, &mut chunks, g, start, end, max);
                    start = s.start_line;
                    end = s.end_line;
                    cur.push(s.id.clone());
                    assert(views_of(cur@) =~= seq![s.id@]);
                    if over {
                        let g = cur;
                        cur = Vec::new();
                        flush_group(file_path, source, &mut chunks, g, start, end, max);
                        assert(views_of(cur@) =~= Seq::<Seq<char>>::empty());
                    }
                } else {
                    end = next_end;
                    let ghost before = views_of(cur@);
                    cur.push(s.id.clone());
                    assert(views_of(cur@) =~= before.push(s.id@));
                }
            }
            assert(chunk_views(chunks@) =~= f1.done.map_values(|g: GroupView| token_group_chunk(fp, src, g, max as int)));
            i += 1;
        }
        assert(srt.take(sorted.len() as int) == srt);
        flush_group(file_path, source, &mut chunks, cur, start, end, max);
        assert(chunk_views(chunks@) =~= token_limited_chunks(fp, src, opt_symbols(symbols), max as int));
        chunks
    }
}

} // verus!
