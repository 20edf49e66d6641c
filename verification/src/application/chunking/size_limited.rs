//! Groups consecutive symbols into chunks of at most `max_lines` lines; a
//! symbol longer than the limit gets a chunk of its own.
use vstd::prelude::*;
use crate::application::chunking::{ChunkStrategy, opt_symbols};
use crate::application::chunking::common::{
    Fold, GroupView, begin, chunk_symbol_ids, concat_ids, close_groups, empty_fold, extend, flush, fold_holds,
    lemma_chunk_ids_of_groups, lemma_close_groups_holds, lemma_step_holds, lines_in_range, max_of, sort_symbols,
    sorted_symbols, span, span_exec, symbol_ids,
};
use crate::digest::{blake3_hex_of, blake3_of_text};
use crate::domain::types::{Chunk, ChunkView, Symbol, chunk_views};
use crate::lines::{line_count_at_least_one, line_count_min1, lines_text, lines_to_string};
use crate::text::{append_decimal, append_str, chars_of, decimal, string_of, views_of};
use vstd::utf8::encode_utf8;

verus! {

/// Groups symbols into chunks of at most `max_lines` lines (no limit when
/// it is zero).
pub struct SizeLimitedChunker {
    pub max_lines: usize,
}

impl SizeLimitedChunker {
    pub fn new(max_lines: usize) -> (r: Self)
        ensures
            r.max_lines == max_lines,
    {
        SizeLimitedChunker { max_lines }
    }
}

/// One step of the grouping: a symbol longer than the limit closes the
/// open group and stands alone; a symbol that would make the group longer
/// than the limit (or a group already longer) starts a new group; else it
/// joins the open group.
pub open spec fn size_step(f: Fold, s: Symbol, max: int) -> Fold {
    let over = max > 0 && span(s.start_line as int, s.end_line as int) > max;
    if f.cur.len() == 0 {
        let g = begin(f, s);
        if over { flush(g) } else { g }
    } else {
        let next_end = max_of(f.end, s.end_line as int);
        if max > 0 && (span(f.start, f.end) > max || span(f.start, next_end) > max) {
            let g = begin(flush(f), s);
            if over { flush(g) } else { g }
        } else {
            extend(f, s, next_end)
        }
    }
}

/// The grouping of a sequence of symbols, in the order given.
pub open spec fn size_fold(syms: Seq<Symbol>, max: int) -> Fold
    decreases syms.len(),
{
    if syms.len() == 0 {
        empty_fold()
    } else {
        size_step(size_fold(syms.drop_last(), max), syms.last(), max)
    }
}

/// The length in bytes of a text's UTF-8 encoding, as `str::len` gives it.
pub open spec fn byte_len(s: Seq<char>) -> int {
    (encode_utf8(s).len() as usize) as int
}

/// `/` replaced by `_`.
pub open spec fn underscored(p: Seq<char>) -> Seq<char> {
    p.map_values(|c: char| if c == '/' { '_' } else { c })
}

/// The chunk of one group: the text of its lines, its symbols, an id made
/// of the path and the line range, and the BLAKE3 digest of the text.
pub open spec fn size_group_chunk(file_path: Seq<char>, source: Seq<char>, g: GroupView) -> ChunkView {
    let content = lines_text(source, g.start, g.end);
    ChunkView {
        id: "chk-"@ + underscored(file_path) + "-"@ + decimal(g.start as nat) + "-"@ + decimal(g.end as nat),
        file_path,
        start_line: g.start,
        end_line: g.end,
        content,
        text: content,
        md5: blake3_hex_of(encode_utf8(content)),
        size: byte_len(content),
        language: None,
        symbol_id: if g.ids.len() > 0 { Some(g.ids[0]) } else { None },
        symbol_ids: g.ids,
        chunk_kind: Some("Symbol"@),
        metadata: None,
    }
}

/// The single chunk of a whole file.
pub open spec fn size_full_file_chunk(file_path: Seq<char>, source: Seq<char>) -> ChunkView {
    ChunkView {
        id: "chk-"@ + blake3_hex_of(encode_utf8(source)),
        file_path,
        start_line: 1,
        end_line: line_count_min1(source) as int,
        content: source,
        text: source,
        md5: blake3_hex_of(encode_utf8(source)),
        size: byte_len(source),
        language: None,
        symbol_id: None,
        symbol_ids: Seq::empty(),
        chunk_kind: Some("FullFile"@),
        metadata: None,
    }
}

/// The chunks: the whole file when there are no symbols, else one chunk per
/// group of the sorted symbols.
pub open spec fn size_limited_chunks(file_path: Seq<char>, source: Seq<char>, symbols: Option<Seq<Symbol>>, max: int) -> Seq<ChunkView> {
    match symbols {
        Some(syms) if syms.len() > 0 => close_groups(size_fold(sorted_symbols(syms), max)).map_values(
            |g: GroupView| size_group_chunk(file_path, source, g),
        ),
        _ => seq![size_full_file_chunk(file_path, source)],
    }
}

/// Every group of two or more symbols, closed or open, spans at most
/// `max` lines.
pub open spec fn size_limit_holds(f: Fold, max: int) -> bool {
    &&& forall|i: int| 0 <= i < f.done.len() && (#[trigger] f.done[i]).ids.len() >= 2 ==> span(f.done[i].start, f.done[i].end) <= max
    &&& f.cur.len() >= 2 ==> span(f.start, f.end) <= max
}

proof fn lemma_size_fold(syms: Seq<Symbol>, max: int)
    ensures
        fold_holds(size_fold(syms, max), symbol_ids(syms)),
        max > 0 ==> size_limit_holds(size_fold(syms, max), max),
    decreases syms.len(),
{
    if syms.len() > 0 {
        let prev = syms.drop_last();
        let s = syms.last();
        lemma_size_fold(prev, max);
        let f = size_fold(prev, max);
        assert(symbol_ids(syms) =~= symbol_ids(prev).push(s.id@));
        lemma_step_holds(f, s, symbol_ids(prev), max_of(f.end, s.end_line as int));
        assert(size_fold(syms, max) == size_step(f, s, max));
        if max > 0 {
            let g = size_fold(syms, max);
            assert(size_limit_holds(g, max)) by {
                if f.cur.len() > 0 {
                    assert(flush(f).done.len() == f.done.len() + 1);
                }
            }
        }
    } else {
        assert(symbol_ids(syms) =~= concat_ids(empty_fold().done) + empty_fold().cur);
    }
}

/// The size-limited chunks of a file with symbols hold every symbol once,
/// in the sorted order; no chunk is without a symbol, and a chunk of two or
/// more symbols spans at most the limit (when there is one).
pub proof fn law_size_limited_groups(file_path: Seq<char>, source: Seq<char>, syms: Seq<Symbol>, max: usize)
    requires
        syms.len() > 0,
    ensures
        ({
            let cs = size_limited_chunks(file_path, source, Some(syms), max as int);
            &&& chunk_symbol_ids(cs) == symbol_ids(sorted_symbols(syms))
            &&& forall|i: int| 0 <= i < cs.len() ==> (#[trigger] cs[i]).symbol_ids.len() > 0
            &&& max > 0 ==> forall|i: int| 0 <= i < cs.len() && (#[trigger] cs[i]).symbol_ids.len() >= 2
                ==> span(cs[i].start_line, cs[i].end_line) <= max
        }),
{
    let sorted = sorted_symbols(syms);
    let f = size_fold(sorted, max as int);
    lemma_size_fold(sorted, max as int);
    lemma_close_groups_holds(f, symbol_ids(sorted));
    let gs = close_groups(f);
    let cs = size_limited_chunks(file_path, source, Some(syms), max as int);
    assert(cs == gs.map_values(|g: GroupView| size_group_chunk(file_path, source, g)));
    lemma_chunk_ids_of_groups(gs, cs);
    if max > 0 {
        assert forall|i: int| 0 <= i < cs.len() && (#[trigger] cs[i]).symbol_ids.len() >= 2
            implies span(cs[i].start_line, cs[i].end_line) <= max by {
            if f.cur.len() > 0 && i == f.done.len() {
                assert(gs[i].ids == f.cur);
            } else {
                assert(gs[i] == f.done[i]);
            }
        }
    }
}

/// No two consecutive groups could be merged within the limit: the first
/// group, stretched to the end of the next, spans more than `max` lines.
pub open spec fn groups_maximal(gs: Seq<GroupView>, max: int) -> bool {
    forall|i: int| #![trigger gs[i]] 0 <= i < gs.len() - 1 ==> span(gs[i].start, max_of(gs[i].end, gs[i + 1].end)) > max
}

/// What the grouping keeps between its closed groups and its open one.
pub open spec fn fold_maximal(f: Fold, max: int) -> bool {
    &&& groups_maximal(f.done, max)
    &&& f.cur.len() > 0 && f.done.len() > 0 ==> span(f.done.last().start, max_of(f.done.last().end, f.end)) > max
    &&& f.cur.len() == 0 && f.done.len() > 0 ==> span(f.done.last().start, f.done.last().end) > max
}

proof fn lemma_size_fold_maximal(syms: Seq<Symbol>, max: int)
    ensures
        max > 0 ==> fold_maximal(size_fold(syms, max), max),
        max <= 0 ==> size_fold(syms, max).done.len() == 0 && (syms.len() > 0 ==> size_fold(syms, max).cur.len() > 0),
    decreases syms.len(),
{
    if syms.len() > 0 {
        let prev = syms.drop_last();
        let s = syms.last();
        lemma_size_fold_maximal(prev, max);
        let f = size_fold(prev, max);
        let g = size_fold(syms, max);
        assert(g == size_step(f, s, max));
        if max > 0 {
            let over = span(s.start_line as int, s.end_line as int) > max;
            if f.cur.len() == 0 {
                let b = begin(f, s);
                if over {
                    assert(g == flush(b));
                    assert(g.done == f.done.push(GroupView { ids: b.cur, start: b.start, end: b.end }));
                    assert(groups_maximal(g.done, max)) by {
                        assert forall|i: int| #![trigger g.done[i]] 0 <= i < g.done.len() - 1
                            implies span(g.done[i].start, max_of(g.done[i].end, g.done[i + 1].end)) > max by {
                            if i < f.done.len() - 1 {
                                assert(g.done[i] == f.done[i] && g.done[i + 1] == f.done[i + 1]);
                            } else {
                                assert(g.done[i] == f.done.last());
                            }
                        }
                    }
                }
            } else {
                let next_end = max_of(f.end, s.end_line as int);
                if span(f.start, f.end) > max || span(f.start, next_end) > max {
                    let fl = flush(f);
                    assert(fl.done == f.done.push(GroupView { ids: f.cur, start: f.start, end: f.end }));
                    assert(groups_maximal(fl.done, max)) by {
                        assert forall|i: int| #![trigger fl.done[i]] 0 <= i < fl.done.len() - 1
                            implies span(fl.done[i].start, max_of(fl.done[i].end, fl.done[i + 1].end)) > max by {
                            if i < f.done.len() - 1 {
                                assert(fl.done[i] == f.done[i] && fl.done[i + 1] == f.done[i + 1]);
                            } else {
                                assert(fl.done[i] == f.done.last());
                            }
                        }
                    }
                    let b = begin(fl, s);
                    assert(b.done == fl.done);
                    assert(b.done.last().start == f.start && b.done.last().end == f.end);
                    if over {
                        assert(g == flush(b));
                        assert(g.done == fl.done.push(GroupView { ids: b.cur, start: b.start, end: b.end }));
                        assert(groups_maximal(g.done, max)) by {
                            assert forall|i: int| #![trigger g.done[i]] 0 <= i < g.done.len() - 1
                                implies span(g.done[i].start, max_of(g.done[i].end, g.done[i + 1].end)) > max by {
                                if i < fl.done.len() - 1 {
                                    assert(g.done[i] == fl.done[i] && g.done[i + 1] == fl.done[i + 1]);
                                } else {
                                    assert(g.done[i] == fl.done.last());
                                }
                            }
                        }
                    } else {
                        assert(g == b);
                    }
                } else {
                    assert(g == extend(f, s, next_end));
                }
            }
        } else {
            if f.cur.len() > 0 {
                assert(g == extend(f, s, max_of(f.end, s.end_line as int)));
            }
        }
    }
}

/// The size-limited groups are as large as the limit lets them be: with a
/// limit, no chunk could take in the next one (the first, stretched to the
/// end of the second, would span more than the limit); without one, all
/// the symbols share one chunk.
pub proof fn law_size_limited_maximal(file_path: Seq<char>, source: Seq<char>, syms: Seq<Symbol>, max: usize)
    requires
        syms.len() > 0,
    ensures
        ({
            let cs = size_limited_chunks(file_path, source, Some(syms), max as int);
            &&& max > 0 ==> forall|i: int| #![trigger cs[i]] 0 <= i < cs.len() - 1
                ==> span(cs[i].start_line, max_of(cs[i].end_line, cs[i + 1].end_line)) > max
            &&& max == 0 ==> cs.len() == 1
        }),
{
    let sorted = sorted_symbols(syms);
    crate::application::chunking::common::lemma_sorted_symbols_perm(syms);
    let f = size_fold(sorted, max as int);
    lemma_size_fold_maximal(sorted, max as int);
    let gs = close_groups(f);
    let cs = size_limited_chunks(file_path, source, Some(syms), max as int);
    assert(cs == gs.map_values(|g: GroupView| size_group_chunk(file_path, source, g)));
    if max > 0 {
        assert forall|i: int| #![trigger cs[i]] 0 <= i < cs.len() - 1
            implies span(cs[i].start_line, max_of(cs[i].end_line, cs[i + 1].end_line)) > max by {
            assert(cs[i].start_line == gs[i].start && cs[i].end_line == gs[i].end);
            assert(cs[i + 1].end_line == gs[i + 1].end);
            if f.cur.len() > 0 && i == f.done.len() - 1 {
                assert(gs[i] == f.done.last());
                assert(gs[i + 1].end == f.end);
            } else {
                assert(gs[i] == f.done[i] && gs[i + 1] == f.done[i + 1]);
            }
        }
    }
}

/// `file_path` with `/` replaced by `_`.
pub(crate) fn underscored_exec(p: &str) -> (r: Vec<char>)
    ensures
        r@ == underscored(p@),
{
    let c = chars_of(p);
    let mut out: Vec<char> = Vec::new();
    let mut i: usize = 0;
    while i < c.len()
        invariant
            i <= c.len(),
            c@ == p@,
            out@ =~= underscored(c@.take(i as int)),
        decreases c.len() - i,
    {
        out.push(if c[i] == '/' { '_' } else { c[i] });
        assert(c@.take(i + 1) == c@.take(i as int).push(c@[i as int]));
        i += 1;
    }
    assert(c@.take(c.len() as int) == c@);
    out
}

fn build_full_file_chunk(file_path: &str, source: &str) -> (r: Chunk)
    ensures
        r@ == size_full_file_chunk(file_path@, source@),
{
    let digest = blake3_of_text(source);
    let mut id: Vec<char> = Vec::new();
    append_str(&mut id, "chk-");
    append_str(&mut id, digest.as_str());
    let r = Chunk {
        id: string_of(id.as_slice()),
        file_path: file_path.to_owned(),
        start_line: 1,
        end_line: line_count_at_least_one(source),
        content: source.to_owned(),
        text: source.to_owned(),
        md5: digest,
        size: source.len(),
        language: None,
        symbol_id: None,
        symbol_ids: Vec::new(),
        chunk_kind: Some("FullFile".to_owned()),
        metadata: None,
    };
    assert(r@.symbol_ids =~= Seq::<Seq<char>>::empty());
    assert(r@.id == size_full_file_chunk(file_path@, source@).id);
    assert(r@.size == size_full_file_chunk(file_path@, source@).size);
    assert(r@.end_line == size_full_file_chunk(file_path@, source@).end_line);
    assert(r@ =~= size_full_file_chunk(file_path@, source@));
    r
}

/// Appends the chunk of a group, when it holds a symbol.
fn flush_group(file_path: &str, source: &str, chunks: &mut Vec<Chunk>, group: Vec<String>, start_line: usize, end_line: usize)
    ensures
        chunk_views(final(chunks)@) == chunk_views(old(chunks)@) + if group@.len() > 0 {
            seq![size_group_chunk(file_path@, source@, GroupView { ids: views_of(group@), start: start_line as int, end: end_line as int })]
        } else {
            Seq::<ChunkView>::empty()
        },
{
    if group.len() == 0 {
        assert(chunk_views(chunks@) =~= chunk_views(chunks@) + Seq::<ChunkView>::empty());
        return;
    }
    let content = lines_to_string(source, start_line, end_line);
    let symbol_id = Some(group[0].clone());
    let path_part = underscored_exec(file_path);
    let mut id: Vec<char> = Vec::new();
    append_str(&mut id, "chk-");
    crate::text::append_chars(&mut id, path_part.as_slice());
    append_str(&mut id, "-");
    append_decimal(&mut id, start_line);
    append_str(&mut id, "-");
    append_decimal(&mut id, end_line);
    let c = Chunk {
        id: string_of(id.as_slice()),
        file_path: file_path.to_owned(),
        start_line,
        end_line,
        content: content.clone(),
        text: content.clone(),
        md5: blake3_of_text(content.as_str()),
        size: content.as_str().len(),
        language: None,
        symbol_id,
        symbol_ids: group,
        chunk_kind: Some("Symbol".to_owned()),
        metadata: None,
    };
    let ghost g = GroupView { ids: views_of(c.symbol_ids@), start: start_line as int, end: end_line as int };
    assert(c@ =~= size_group_chunk(file_path@, source@, g));
    let ghost before = chunk_views(chunks@);
    chunks.push(c);
    assert(chunk_views(chunks@) =~= before + seq![size_group_chunk(file_path@, source@, g)]);
}

impl ChunkStrategy for SizeLimitedChunker {
    open spec fn chunks_of(&self, file_path: Seq<char>, source: Seq<char>, symbols: Option<Seq<Symbol>>) -> Seq<ChunkView> {
        size_limited_chunks(file_path, source, symbols, self.max_lines as int)
    }

    open spec fn accepts(&self, symbols: Option<Seq<Symbol>>) -> bool {
        symbols matches Some(s) ==> lines_in_range(s)
    }

    fn chunk_file(&self, file_path: &str, source: &str, symbols: Option<&Vec<Symbol>>) -> (r: Vec<Chunk>) {
        let syms = match symbols {
            None => {
                return vec![build_full_file_chunk(file_path, source)];
            },
            Some(s) => s,
        };
        if syms.len() == 0 {
            return vec![build_full_file_chunk(file_path, source)];
        }
        let sorted = sort_symbols(syms);
        proof {
            crate::application::chunking::common::lemma_sorted_symbols_perm(syms@);
        }
        let ghost srt = sorted@;
        assert(lines_in_range(srt));
        let ghost fp = file_path@;
        let ghost src = source@;
        let max = self.max_lines;
        let mut chunks: Vec<Chunk> = Vec::new();
        let mut cur: Vec<String> = Vec::new();
        let mut start: usize = 0;
        let mut end: usize = 0;
        let mut i: usize = 0;
        while i < sorted.len()
            invariant
                i <= sorted.len(),
                srt == sorted@,
                lines_in_range(srt),
                fp == file_path@,
                src == source@,
                max == self.max_lines,
                ({
                    let f = size_fold(srt.take(i as int), max as int);
                    &&& chunk_views(chunks@) == f.done.map_values(|g: GroupView| size_group_chunk(fp, src, g))
                    &&& views_of(cur@) == f.cur
                    &&& start as int == f.start
                    &&& end as int == f.end
                    &&& (f.cur.len() > 0 ==> f.end < usize::MAX)
                }),
            decreases sorted.len() - i,
        {
            let ghost f0 = size_fold(srt.take(i as int), max as int);
            let s = &sorted[i];
            assert(srt.take(i + 1).drop_last() == srt.take(i as int));
            assert(srt.take(i + 1).last() == srt[i as int]);
            let ghost f1 = size_step(f0, *s, max as int);
            let over = max > 0 && span_exec(s.start_line, s.end_line) > max;
            if cur.len() == 0 {
                start = s.start_line;
                end = s.end_line;
                cur.push(s.id.clone());
                assert(views_of(cur@) =~= seq![s.id@]);
                if over {
                    let g = cur;
                    cur = Vec::new();
                    flush_group(file_path, source, &mut chunks, g, start, end);
                    assert(views_of(cur@) =~= Seq::<Seq<char>>::empty());
                }
            } else {
                let next_end = if end >= s.end_line { end } else { s.end_line };
                let group_lines = span_exec(start, end);
                let next_lines = span_exec(start, next_end);
                if max > 0 && (group_lines > max || next_lines > max) {
                    let g = cur;
                    cur = Vec::new();
                    flush_group(file_path, source, &mut chunks, g, start, end);
                    start = s.start_line;
                    end = s.end_line;
                    cur.push(s.id.clone());
                    assert(views_of(cur@) =~= seq![s.id@]);
                    if over {
                        let g = cur;
                        cur = Vec::new();
                        flush_group(file_path, source, &mut chunks, g, start, end);
                        assert(views_of(cur@) =~= Seq::<Seq<char>>::empty());
                    }
                } else {
                    end = next_end;
                    let ghost before = views_of(cur@);
                    cur.push(s.id.clone());
                    assert(views_of(cur@) =~= before.push(s.id@));
                }
            }
            assert(chunk_views(chunks@) =~= f1.done.map_values(|g: GroupView| size_group_chunk(fp, src, g)));
            i += 1;
        }
        assert(srt.take(sorted.len() as int) == srt);
        flush_group(file_path, source, &mut chunks, cur, start, end);
        assert(chunk_views(chunks@) =~= size_limited_chunks(fp, src, opt_symbols(symbols), max as int));
        chunks
    }
}

} // verus!
