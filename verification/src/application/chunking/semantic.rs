//! Groups symbols that belong together: a type with its impl blocks and
//! members, the methods of one class, functions of one scope; unrelated
//! symbols get chunks of their own.
use vstd::prelude::*;
use crate::application::chunking::{ChunkStrategy, opt_symbols};
use crate::application::chunking::common::{
    GroupView, chunk_symbol_ids, concat_ids, lemma_chunk_ids_of_groups, lines_in_range, max_of, sort_symbols,
    sorted_symbols, span, span_exec, symbol_ids,
};
use crate::application::chunking::size_limited::byte_len;
use crate::application::chunking::token_count::apply_token_count;
use crate::application::chunking::token_limited::{group_digest_input, group_digest_input_exec};
use crate::digest::{blake3_hex_of, blake3_of_text};
use crate::domain::types::{Chunk, ChunkView, MetaValue, MetaView, Metadata, Symbol, chunk_views};
use crate::lines::{line_count_at_least_one, line_count_min1, lines_text, lines_to_string};
use crate::text::{
    append_chars, append_str, chars_of, char_is_whitespace, find, find_exec, is_ws, last_segment, last_segment_exec,
    lowercase, rfind, rfind_exec, seq_eq, slice_range, starts_with, starts_with_exec, string_of, to_lowercase, trim,
    trim_chars, trim_end_matches, trim_end_matches_exec, trim_start, trim_start_chars, views_of, lemma_find_is_match,
    lemma_rfind_is_match, lemma_trim_keeps, lemma_find_absent, lemma_rfind_last_at, matches_at, ends_with,
};
use vstd::utf8::encode_utf8;

verus! {

/// How far (in lines) a symbol may start after the group's end and still
/// join it.
pub const SEMANTIC_GAP_LINES: usize = 3;

/// Groups related symbols into chunks of at most `max_lines` lines (no
/// limit when it is zero).
pub struct SemanticChunker {
    pub max_lines: usize,
}

impl SemanticChunker {
    pub fn new(max_lines: usize) -> (r: Self)
        ensures
            r.max_lines == max_lines,
    {
        SemanticChunker { max_lines }
    }
}

// ---------------------------------------------------------------------------
// Keys
// ---------------------------------------------------------------------------

/// A name trimmed, without trailing `::`, in lower case.
pub open spec fn normalize_name(v: Seq<char>) -> Seq<char> {
    lowercase(trim_end_matches(trim(v), "::"@))
}

/// The key of a scope: its last `::` segment, normalized.
pub open spec fn scope_key(scope: Seq<char>) -> Seq<char> {
    normalize_name(last_segment(scope, "::"@))
}

/// Brackets and punctuation stripped from an impl target.
pub open spec fn is_bracket(c: char) -> bool {
    c == '<' || c == '>' || c == '{' || c == '}' || c == '(' || c == ')' || c == ',' || c == ';'
}

/// `s` without leading brackets.
pub open spec fn strip_brackets_start(s: Seq<char>) -> Seq<char>
    decreases s.len(),
{
    if s.len() > 0 && is_bracket(s[0]) { strip_brackets_start(s.drop_first()) } else { s }
}

/// `s` without trailing brackets.
pub open spec fn strip_brackets_end(s: Seq<char>) -> Seq<char>
    decreases s.len(),
{
    if s.len() > 0 && is_bracket(s.last()) { strip_brackets_end(s.drop_last()) } else { s }
}

/// The position of the first whitespace at or after `i`, or the length.
pub open spec fn word_end(s: Seq<char>, i: int) -> int
    decreases s.len() - i,
{
    if i < 0 || i >= s.len() { s.len() as int } else if is_ws(s[i]) { i } else { word_end(s, i + 1) }
}

/// The type an `impl` signature is for, in lower case: the signature after
/// `impl`, before any `{` and ` where `, after the last ` for `, trimmed,
/// its first word stripped of brackets. `None` when the signature does not
/// start with `impl` or no word is left.
pub open spec fn impl_target(sig: Seq<char>) -> Option<Seq<char>> {
    let t = trim(sig);
    if !starts_with(t, "impl"@) {
        None
    } else {
        let s1 = trim_start(t.skip(4));
        let s2 = match find(s1, "{"@) { Some(i) => s1.take(i), None => s1 };
        let s3 = match find(s2, " where "@) { Some(i) => s2.take(i), None => s2 };
        let s4 = trim(match rfind(s3, " for "@) { Some(i) => s3.skip(i + 5), None => s3 });
        if s4.len() == 0 {
            None
        } else {
            Some(lowercase(strip_brackets_end(strip_brackets_start(s4.take(word_end(s4, 0))))))
        }
    }
}

/// Whether a lower-case kind is a type or a module.
pub open spec fn is_type_kind(k: Seq<char>) -> bool {
    k == "struct"@ || k == "class"@ || k == "trait"@ || k == "enum"@ || k == "type"@ || k == "mod"@
}

/// The key of an optional scope.
pub open spec fn opt_scope_key(scope: Option<String>) -> Option<Seq<char>> {
    match scope {
        Some(sc) => Some(scope_key(sc@)),
        None => None,
    }
}

/// The grouping key of a symbol: a type's own name; an impl's target type;
/// a member's scope; a function's scope or `fn:` and its name; other
/// symbols' scope.
pub open spec fn semantic_key(s: Symbol) -> Option<Seq<char>> {
    let k = lowercase(s.kind@);
    if is_type_kind(k) {
        Some(normalize_name(s.name@))
    } else if k == "impl"@ {
        let sig = match s.signature { Some(g) => g@, None => s.name@ };
        match impl_target(sig) {
            Some(t) => Some(t),
            None => Some(normalize_name(s.name@)),
        }
    } else if k == "method"@ || k == "constructor"@ || k == "field"@ {
        opt_scope_key(s.scope)
    } else if k == "function"@ {
        match s.scope {
            Some(sc) => Some(scope_key(sc@)),
            None => Some("fn:"@ + normalize_name(s.name@)),
        }
    } else {
        opt_scope_key(s.scope)
    }
}

/// The key of a symbol that has no grouping key: its kind and name.
pub open spec fn fallback_key(s: Symbol) -> Seq<char> {
    lowercase(s.kind@) + ":"@ + normalize_name(s.name@)
}

/// Types, modules and impl blocks, which members may follow.
pub open spec fn is_anchor(s: Symbol) -> bool {
    let k = lowercase(s.kind@);
    is_type_kind(k) || k == "impl"@
}

/// Methods, constructors, functions and fields.
pub open spec fn is_member(s: Symbol) -> bool {
    let k = lowercase(s.kind@);
    k == "method"@ || k == "constructor"@ || k == "function"@ || k == "field"@
}

fn lower(s: &str) -> (r: Vec<char>)
    ensures
        r@ == lowercase(s@),
{
    let l = to_lowercase(s);
    chars_of(l.as_str())
}

fn lower_chars(s: &[char]) -> (r: Vec<char>)
    ensures
        r@ == lowercase(s@),
{
    let t = string_of(s);
    lower(t.as_str())
}

fn eq_str(a: &[char], b: &str) -> (r: bool)
    ensures
        r == (a@ == b@),
{
    let bc = chars_of(b);
    seq_eq(a, bc.as_slice())
}

/// `normalize_name`.
pub fn normalize_name_exec(v: &[char]) -> (r: Vec<char>)
    ensures
        r@ == normalize_name(v@),
{
    let t = trim_chars(v);
    let sep = chars_of("::");
    let u = trim_end_matches_exec(t.as_slice(), sep.as_slice());
    lower_chars(u.as_slice())
}

/// `scope_key`.
pub fn scope_key_exec(scope: &str) -> (r: Vec<char>)
    ensures
        r@ == scope_key(scope@),
{
    let c = chars_of(scope);
    let sep = chars_of("::");
    let last = last_segment_exec(c.as_slice(), sep.as_slice());
    normalize_name_exec(last.as_slice())
}

fn is_bracket_exec(c: char) -> (r: bool)
    ensures
        r == is_bracket(c),
{
    c == '<' || c == '>' || c == '{' || c == '}' || c == '(' || c == ')' || c == ',' || c == ';'
}

fn strip_brackets(s: &[char]) -> (r: Vec<char>)
    ensures
        r@ == strip_brackets_end(strip_brackets_start(s@)),
{
    let mut a: usize = 0;
    assert(s@.skip(0) == s@);
    while a < s.len() && is_bracket_exec(s[a])
        invariant
            a <= s.len(),
            strip_brackets_start(s@) == strip_brackets_start(s@.skip(a as int)),
        decreases s.len() - a,
    {
        assert(s@.skip(a as int).drop_first() == s@.skip(a + 1));
        a += 1;
    }
    if a < s.len() {
        assert(s@.skip(a as int)[0] == s@[a as int]);
    } else {
        assert(s@.skip(a as int).len() == 0);
    }
    let ghost m = s@.skip(a as int);
    let mut b: usize = s.len();
    assert(m == s@.subrange(a as int, b as int));
    while b > a && is_bracket_exec(s[b - 1])
        invariant
            a <= b <= s.len(),
            m == s@.skip(a as int),
            strip_brackets_end(m) == strip_brackets_end(s@.subrange(a as int, b as int)),
        decreases b,
    {
        assert(s@.subrange(a as int, b as int).drop_last() == s@.subrange(a as int, b - 1));
        b -= 1;
    }
    if b > a {
        assert(s@.subrange(a as int, b as int).last() == s@[b - 1]);
    } else {
        assert(s@.subrange(a as int, b as int).len() == 0);
    }
    slice_range(s, a, b)
}

fn first_word(s: &[char]) -> (r: Vec<char>)
    ensures
        r@ == s@.take(word_end(s@, 0)),
{
    let mut i: usize = 0;
    while i < s.len() && !char_is_whitespace(s[i])
        invariant
            i <= s.len(),
            word_end(s@, 0) == word_end(s@, i as int),
        decreases s.len() - i,
    {
        i += 1;
    }
    assert(word_end(s@, i as int) == i);
    assert(s@.take(i as int) == s@.subrange(0, i as int));
    slice_range(s, 0, i)
}

/// `extract_impl_target`.
pub fn extract_impl_target(signature: &str) -> (r: Option<Vec<char>>)
    ensures
        r matches Some(v) ==> impl_target(signature@) == Some(v@),
        r is None ==> impl_target(signature@) is None,
{
    let t = crate::text::trim_str(signature);
    let kw = chars_of("impl");
    if !starts_with_exec(t.as_slice(), kw.as_slice()) {
        return None;
    }
    proof {
        reveal_strlit("impl");
    }
    let rest = slice_range(t.as_slice(), 4, t.len());
    assert(rest@ == t@.skip(4));
    let s1 = trim_start_chars(rest.as_slice());
    let brace = chars_of("{");
    let s2 = match find_exec(s1.as_slice(), brace.as_slice()) {
        Some(i) => {
            proof {
                lemma_find_is_match(s1@, brace@);
            }
            assert(s1@.subrange(0, i as int) == s1@.take(i as int));
            slice_range(s1.as_slice(), 0, i)
        },
        None => {
            assert(s1@.subrange(0, s1@.len() as int) == s1@);
            slice_range(s1.as_slice(), 0, s1.len())
        },
    };
    let wh = chars_of(" where ");
    let s3 = match find_exec(s2.as_slice(), wh.as_slice()) {
        Some(i) => {
            proof {
                lemma_find_is_match(s2@, wh@);
            }
            assert(s2@.subrange(0, i as int) == s2@.take(i as int));
            slice_range(s2.as_slice(), 0, i)
        },
        None => {
            assert(s2@.subrange(0, s2@.len() as int) == s2@);
            slice_range(s2.as_slice(), 0, s2.len())
        },
    };
    let fr = chars_of(" for ");
    proof {
        reveal_strlit(" for ");
    }
    assert(fr@.len() == 5);
    let s4 = match rfind_exec(s3.as_slice(), fr.as_slice()) {
        Some(i) => {
            proof {
                lemma_rfind_is_match(s3@, fr@);
            }
            assert(i + 5 <= s3@.len());
            let start: usize = i + 5;
            let l = s3.len();
            assert(s3@.subrange(start as int, l as int) == s3@.skip(i + 5));
            slice_range(s3.as_slice(), start, l)
        },
        None => {
            assert(s3@.subrange(0, s3@.len() as int) == s3@);
            slice_range(s3.as_slice(), 0, s3.len())
        },
    };
    let s5 = trim_chars(s4.as_slice());
    if s5.len() == 0 {
        return None;
    }
    let w = first_word(s5.as_slice());
    let stripped = strip_brackets(w.as_slice());
    Some(lower_chars(stripped.as_slice()))
}

fn is_type_kind_exec(k: &[char]) -> (r: bool)
    ensures
        r == is_type_kind(k@),
{
    eq_str(k, "struct") || eq_str(k, "class") || eq_str(k, "trait") || eq_str(k, "enum") || eq_str(k, "type")
        || eq_str(k, "mod")
}

fn opt_scope_key_exec(scope: &Option<String>) -> (r: Option<Vec<char>>)
    ensures
        match r { Some(v) => Some(v@), None => None::<Seq<char>> } == opt_scope_key(*scope),
{
    match scope {
        Some(sc) => Some(scope_key_exec(sc.as_str())),
        None => None,
    }
}

/// `semantic_key`.
pub fn semantic_key_exec(s: &Symbol) -> (r: Option<Vec<char>>)
    ensures
        match r { Some(v) => Some(v@), None => None::<Seq<char>> } == semantic_key(*s),
{
    let k = lower(s.kind.as_str());
    let name = chars_of(s.name.as_str());
    if is_type_kind_exec(k.as_slice()) {
        Some(normalize_name_exec(name.as_slice()))
    } else if eq_str(k.as_slice(), "impl") {
        let sig: &str = match &s.signature {
            Some(g) => g.as_str(),
            None => s.name.as_str(),
        };
        match extract_impl_target(sig) {
            Some(t) => Some(t),
            None => Some(normalize_name_exec(name.as_slice())),
        }
    } else if eq_str(k.as_slice(), "method") || eq_str(k.as_slice(), "constructor") || eq_str(k.as_slice(), "field") {
        opt_scope_key_exec(&s.scope)
    } else if eq_str(k.as_slice(), "function") {
        match &s.scope {
            Some(sc) => Some(scope_key_exec(sc.as_str())),
            None => {
                let mut out: Vec<char> = Vec::new();
                append_str(&mut out, "fn:");
                let n = normalize_name_exec(name.as_slice());
                append_chars(&mut out, n.as_slice());
                Some(out)
            },
        }
    } else {
        opt_scope_key_exec(&s.scope)
    }
}

/// `fallback_key`.
pub fn fallback_key_exec(s: &Symbol) -> (r: Vec<char>)
    ensures
        r@ == fallback_key(*s),
{
    let mut out = lower(s.kind.as_str());
    append_str(&mut out, ":");
    let name = chars_of(s.name.as_str());
    let n = normalize_name_exec(name.as_slice());
    append_chars(&mut out, n.as_slice());
    out
}

/// `is_anchor`.
pub fn is_anchor_symbol(s: &Symbol) -> (r: bool)
    ensures
        r == is_anchor(*s),
{
    let k = lower(s.kind.as_str());
    is_type_kind_exec(k.as_slice()) || eq_str(k.as_slice(), "impl")
}

/// `is_member`.
pub fn is_member_symbol(s: &Symbol) -> (r: bool)
    ensures
        r == is_member(*s),
{
    let k = lower(s.kind.as_str());
    eq_str(k.as_slice(), "method") || eq_str(k.as_slice(), "constructor") || eq_str(k.as_slice(), "function")
        || eq_str(k.as_slice(), "field")
}

// ---------------------------------------------------------------------------
// Grouping
// ---------------------------------------------------------------------------

/// A closed group and its key.
pub struct SemGroup {
    pub group: GroupView,
    pub key: Option<Seq<char>>,
}

/// The state of the grouping: the closed groups, the open group with its
/// line range and key, and the end of the anchor it grows from, if any.
pub struct SemState {
    pub done: Seq<SemGroup>,
    pub cur: Seq<Seq<char>>,
    pub start: int,
    pub end: int,
    pub key: Option<Seq<char>>,
    pub anchor: Option<int>,
}

/// Nothing grouped yet.
pub open spec fn sem_empty() -> SemState {
    SemState { done: Seq::empty(), cur: Seq::empty(), start: 0, end: 0, key: None, anchor: None }
}

/// The closed groups followed by the open one, if it holds a symbol.
pub open spec fn sem_close(st: SemState) -> Seq<SemGroup> {
    if st.cur.len() > 0 {
        st.done.push(SemGroup { group: GroupView { ids: st.cur, start: st.start, end: st.end }, key: st.key })
    } else {
        st.done
    }
}

/// `a + b`, or the largest `usize` when that overflows.
pub open spec fn sat_add(a: int, b: int) -> int {
    if a + b > usize::MAX { usize::MAX as int } else { a + b }
}

/// Whether a member symbol lies inside the anchor the group grows from.
pub open spec fn within_anchor(anchor: Option<int>, s: Symbol) -> bool {
    match anchor {
        Some(a) => is_member(s) && s.end_line <= a,
        None => false,
    }
}

/// The key a symbol brings to the group: its own key, else the open
/// group's key when the symbol lies inside the group's lines.
pub open spec fn incoming_key(st: SemState, s: Symbol) -> Option<Seq<char>> {
    match semantic_key(s) {
        Some(k) => Some(k),
        None => if st.cur.len() > 0 && s.start_line >= st.start && s.end_line <= st.end { st.key } else { None },
    }
}

/// A new open group of one symbol after the closed groups `done`.
pub open spec fn sem_begin(done: Seq<SemGroup>, s: Symbol, key: Option<Seq<char>>) -> SemState {
    SemState {
        done,
        cur: seq![s.id@],
        start: s.start_line as int,
        end: s.end_line as int,
        key: match key { Some(k) => Some(k), None => Some(fallback_key(s)) },
        anchor: if is_anchor(s) { Some(s.end_line as int) } else { None },
    }
}

/// One step: a symbol joins the open group when it has the same key or is
/// a member inside the group's anchor, starts at most three lines after the
/// group's end, and keeps the group within the limit; else the open group
/// is closed and the symbol opens the next.
pub open spec fn sem_step(st: SemState, s: Symbol, max: int) -> SemState {
    let key = incoming_key(st, s);
    if st.cur.len() == 0 {
        sem_begin(st.done, s, key)
    } else {
        let next_end = max_of(st.end, s.end_line as int);
        let same = st.key is Some && key is Some && st.key == key;
        let close = s.start_line <= sat_add(st.end, 3);
        let fits = max == 0 || span(st.start, next_end) <= max;
        if (same || within_anchor(st.anchor, s)) && close && fits {
            SemState {
                done: st.done,
                cur: st.cur.push(s.id@),
                start: st.start,
                end: next_end,
                key: st.key,
                anchor: match st.anchor { Some(a) => Some(max_of(a, s.end_line as int)), None => None },
            }
        } else {
            sem_begin(sem_close(st), s, key)
        }
    }
}

/// The grouping of a sequence of symbols, in the order given.
pub open spec fn sem_fold(syms: Seq<Symbol>, max: int) -> SemState
    decreases syms.len(),
{
    if syms.len() == 0 {
        sem_empty()
    } else {
        sem_step(sem_fold(syms.drop_last(), max), syms.last(), max)
    }
}

/// The metadata of a semantic chunk.
pub open spec fn sem_meta(key: Option<Seq<char>>, count: int, max: int) -> Map<Seq<char>, MetaView> {
    let base = Map::empty().insert("chunk_strategy"@, MetaView::Text("semantic"@)).insert(
        "max_line_limit"@, MetaView::Number(max as u64));
    let m1 = match key {
        Some(k) => base.insert("semantic_key"@, MetaView::Text(k)),
        None => base,
    };
    m1.insert("symbol_count"@, MetaView::Number(count as u64))
}

/// The chunk of one group.
pub open spec fn sem_group_chunk(file_path: Seq<char>, source: Seq<char>, sg: SemGroup, max: int) -> ChunkView {
    let g = sg.group;
    let content = lines_text(source, g.start, g.end);
    let digest = blake3_hex_of(encode_utf8(group_digest_input(file_path, g)));
    ChunkView {
        id: "chk-sem-"@ + digest,
        file_path,
        start_line: g.start,
        end_line: g.end,
        content,
        text: content,
        md5: digest,
        size: byte_len(content),
        language: None,
        symbol_id: if g.ids.len() > 0 { Some(g.ids[0]) } else { None },
        symbol_ids: g.ids,
        chunk_kind: Some("Symbol"@),
        metadata: Some(sem_meta(sg.key, g.ids.len() as int, max)),
    }
}

/// The single chunk of a whole file.
pub open spec fn sem_full_file_chunk(file_path: Seq<char>, source: Seq<char>, max: int) -> ChunkView {
    let digest = blake3_hex_of(encode_utf8(source));
    ChunkView {
        id: "chk-sem-"@ + digest,
        file_path,
        start_line: 1,
        end_line: line_count_min1(source) as int,
        content: source,
        text: source,
        md5: digest,
        size: byte_len(source),
        language: None,
        symbol_id: None,
        symbol_ids: Seq::empty(),
        chunk_kind: Some("FullFile"@),
        metadata: Some(Map::empty().insert("chunk_strategy"@, MetaView::Text("semantic"@)).insert(
            "max_line_limit"@, MetaView::Number(max as u64))),
    }
}

/// The chunks: the whole file when there are no symbols, else one chunk per
/// group of the sorted symbols.
pub open spec fn semantic_chunks(file_path: Seq<char>, source: Seq<char>, symbols: Option<Seq<Symbol>>, max: int) -> Seq<ChunkView> {
    match symbols {
        Some(syms) if syms.len() > 0 => sem_close(sem_fold(sorted_symbols(syms), max)).map_values(
            |g: SemGroup| sem_group_chunk(file_path, source, g, max),
        ),
        _ => seq![sem_full_file_chunk(file_path, source, max)],
    }
}

/// The characters of an optional character vector.
pub open spec fn opt_chars_view(o: Option<Vec<char>>) -> Option<Seq<char>> {
    match o { Some(v) => Some(v@), None => None }
}

/// The groups of a sequence of keyed groups.
pub open spec fn sem_groups(sgs: Seq<SemGroup>) -> Seq<GroupView> {
    sgs.map_values(|g: SemGroup| g.group)
}

/// A grouping state that accounts for the given ids: the closed groups and
/// then the open one hold them in order; no closed group is empty; and,
/// under a limit, a group of two or more symbols spans at most `max`
/// lines.
pub open spec fn sem_holds(st: SemState, ids: Seq<Seq<char>>, max: int) -> bool {
    &&& concat_ids(sem_groups(st.done)) + st.cur == ids
    &&& forall|i: int| 0 <= i < st.done.len() ==> (#[trigger] st.done[i]).group.ids.len() > 0
    &&& max > 0 ==> forall|i: int| 0 <= i < st.done.len() && (#[trigger] st.done[i]).group.ids.len() >= 2
        ==> span(st.done[i].group.start, st.done[i].group.end) <= max
    &&& max > 0 && st.cur.len() >= 2 ==> span(st.start, st.end) <= max
}

proof fn lemma_sem_close(st: SemState, ids: Seq<Seq<char>>, max: int)
    requires
        sem_holds(st, ids, max),
    ensures
        concat_ids(sem_groups(sem_close(st))) == ids,
        forall|i: int| 0 <= i < sem_close(st).len() ==> (#[trigger] sem_close(st)[i]).group.ids.len() > 0,
        max > 0 ==> forall|i: int| 0 <= i < sem_close(st).len() && (#[trigger] sem_close(st)[i]).group.ids.len() >= 2
            ==> span(sem_close(st)[i].group.start, sem_close(st)[i].group.end) <= max,
{
    if st.cur.len() > 0 {
        let d = sem_close(st);
        assert(sem_groups(d).drop_last() =~= sem_groups(st.done));
    } else {
        assert(concat_ids(sem_groups(st.done)) + st.cur =~= concat_ids(sem_groups(st.done)));
    }
}

proof fn lemma_sem_fold(syms: Seq<Symbol>, max: int)
    ensures
        sem_holds(sem_fold(syms, max), symbol_ids(syms), max),
    decreases syms.len(),
{
    if syms.len() > 0 {
        let prev = syms.drop_last();
        let s = syms.last();
        lemma_sem_fold(prev, max);
        let st = sem_fold(prev, max);
        let ids = symbol_ids(prev);
        assert(symbol_ids(syms) =~= ids.push(s.id@));
        assert(sem_fold(syms, max) == sem_step(st, s, max));
        lemma_sem_close(st, ids, max);
        let key = incoming_key(st, s);
        if st.cur.len() == 0 {
            assert(concat_ids(sem_groups(st.done)) + st.cur =~= concat_ids(sem_groups(st.done)));
            let n = sem_begin(st.done, s, key);
            assert(concat_ids(sem_groups(n.done)) + n.cur =~= ids.push(s.id@));
        } else {
            let n = sem_begin(sem_close(st), s, key);
            assert(concat_ids(sem_groups(n.done)) + n.cur =~= ids.push(s.id@));
            assert((concat_ids(sem_groups(st.done)) + st.cur).push(s.id@) =~= concat_ids(sem_groups(st.done)) + st.cur.push(s.id@));
        }
    } else {
        assert(symbol_ids(syms) =~= concat_ids(sem_groups(sem_empty().done)) + sem_empty().cur);
    }
}

/// The semantic chunks of a file with symbols hold every symbol once, in
/// the sorted order; no chunk is without a symbol, and a chunk of two or
/// more symbols spans at most the line limit (when there is one).
pub proof fn law_semantic_groups(file_path: Seq<char>, source: Seq<char>, syms: Seq<Symbol>, max: usize)
    requires
        syms.len() > 0,
    ensures
        ({
            let cs = semantic_chunks(file_path, source, Some(syms), max as int);
            &&& chunk_symbol_ids(cs) == symbol_ids(sorted_symbols(syms))
            &&& forall|i: int| 0 <= i < cs.len() ==> (#[trigger] cs[i]).symbol_ids.len() > 0
            &&& max > 0 ==> forall|i: int| 0 <= i < cs.len() && (#[trigger] cs[i]).symbol_ids.len() >= 2
                ==> span(cs[i].start_line, cs[i].end_line) <= max
        }),
{
    let sorted = sorted_symbols(syms);
    let st = sem_fold(sorted, max as int);
    lemma_sem_fold(sorted, max as int);
    lemma_sem_close(st, symbol_ids(sorted), max as int);
    let sgs = sem_close(st);
    let cs = semantic_chunks(file_path, source, Some(syms), max as int);
    assert(cs == sgs.map_values(|g: SemGroup| sem_group_chunk(file_path, source, g, max as int)));
    lemma_chunk_ids_of_groups(sem_groups(sgs), cs);
    assert forall|i: int| 0 <= i < cs.len() implies (#[trigger] cs[i]).symbol_ids == sgs[i].group.ids by {}
}

fn build_full_file_chunk(file_path: &str, source: &str, max_lines: usize) -> (r: Chunk)
    ensures
        r@ == sem_full_file_chunk(file_path@, source@, max_lines as int),
{
    let digest = blake3_of_text(source);
    let mut id: Vec<char> = Vec::new();
    append_str(&mut id, "chk-sem-");
    append_str(&mut id, digest.as_str());
    let mut meta = Metadata::new();
    meta.insert("chunk_strategy".to_owned(), MetaValue::Text("semantic".to_owned()));
    meta.insert("max_line_limit".to_owned(), MetaValue::Number(max_lines as u64));
    apply_token_count(&mut meta, source);
    let r = Chunk {
        id: string_of(id.as_slice()),
        file_path: file_path.to_owned(),
        start_line: 1,
        end_line: line_count_at_least_one(source),
        content: source.to_owned(),
        text: source.to_owned(),
        md5: digest,
        size: source.len(),
        language: None,
        symbol_id: None,
        symbol_ids: Vec::new(),
        chunk_kind: Some("FullFile".to_owned()),
        metadata: Some(meta),
    };
    assert(r@.symbol_ids =~= Seq::<Seq<char>>::empty());
    assert(r@ =~= sem_full_file_chunk(file_path@, source@, max_lines as int));
    r
}

/// Appends the chunk of a group, when it holds a symbol.
fn flush_group(
    file_path: &str,
    source: &str,
    chunks: &mut Vec<Chunk>,
    group: Vec<String>,
    start_line: usize,
    end_line: usize,
    group_key: &Option<Vec<char>>,
    max_lines: usize,
)
    ensures
        chunk_views(final(chunks)@) == chunk_views(old(chunks)@) + if group@.len() > 0 {
            seq![sem_group_chunk(file_path@, source@, SemGroup {
                group: GroupView { ids: views_of(group@), start: start_line as int, end: end_line as int },
                key: match group_key { Some(v) => Some(v@), None => None::<Seq<char>> },
            }, max_lines as int)]
        } else {
            Seq::<ChunkView>::empty()
        },
{
    if group.len() == 0 {
        assert(chunk_views(chunks@) =~= chunk_views(chunks@) + Seq::<ChunkView>::empty());
        return;
    }
    let content = lines_to_string(source, start_line, end_line);
    let symbol_id = Some(group[0].clone());
    let mut meta = Metadata::new();
    meta.insert("chunk_strategy".to_owned(), MetaValue::Text("semantic".to_owned()));
    meta.insert("max_line_limit".to_owned(), MetaValue::Number(max_lines as u64));
    match group_key {
        Some(k) => meta.insert("semantic_key".to_owned(), MetaValue::Text(string_of(k.as_slice()))),
        None => {},
    }
    meta.insert("symbol_count".to_owned(), MetaValue::Number(group.len() as u64));
    apply_token_count(&mut meta, content.as_str());
    let input = group_digest_input_exec(file_path, &group, start_line, end_line);
    let input_s = string_of(input.as_slice());
    let digest = blake3_of_text(input_s.as_str());
    let mut id: Vec<char> = Vec::new();
    append_str(&mut id, "chk-sem-");
    append_str(&mut id, digest.as_str());
    let c = Chunk {
        id: string_of(id.as_slice()),
        file_path: file_path.to_owned(),
        start_line,
        end_line,
        content: content.clone(),
        text: content.clone(),
        md5: digest,
        size: content.as_str().len(),
        language: None,
        symbol_id,
        symbol_ids: group,
        chunk_kind: Some("Symbol".to_owned()),
        metadata: Some(meta),
    };
    let ghost sg = SemGroup {
        group: GroupView { ids: views_of(c.symbol_ids@), start: start_line as int, end: end_line as int },
        key: match group_key { Some(v) => Some(v@), None => None::<Seq<char>> },
    };
    assert(c@.metadata =~= Some(sem_meta(sg.key, sg.group.ids.len() as int, max_lines as int)));
    assert(c@ =~= sem_group_chunk(file_path@, source@, sg, max_lines as int));
    let ghost before = chunk_views(chunks@);
    chunks.push(c);
    assert(chunk_views(chunks@) =~= before + seq![sem_group_chunk(file_path@, source@, sg, max_lines as int)]);
}

impl ChunkStrategy for SemanticChunker {
    open spec fn chunks_of(&self, file_path: Seq<char>, source: Seq<char>, symbols: Option<Seq<Symbol>>) -> Seq<ChunkView> {
        semantic_chunks(file_path, source, symbols, self.max_lines as int)
    }

    open spec fn accepts(&self, symbols: Option<Seq<Symbol>>) -> bool {
        symbols matches Some(s) ==> lines_in_range(s)
    }

    fn chunk_file(&self, file_path: &str, source: &str, symbols: Option<&Vec<Symbol>>) -> (r: Vec<Chunk>) {
        let syms = match symbols {
            None => {
                return vec![build_full_file_chunk(file_path, source, self.max_lines)];
            },
            Some(s) => s,
        };
        if syms.len() == 0 {
            return vec![build_full_file_chunk(file_path, source, self.max_lines)];
        }
        let sorted = sort_symbols(syms);
        proof {
            crate::application::chunking::common::lemma_sorted_symbols_perm(syms@);
        }
        let ghost srt = sorted@;
        assert(lines_in_range(srt));
        let ghost fp = file_path@;
        let ghost src = source@;
        let max = self.max_lines;
        let mut chunks: Vec<Chunk> = Vec::new();
        let mut cur: Vec<String> = Vec::new();
        let mut key: Option<Vec<char>> = None;
        let mut anchor: Option<usize> = None;
        let mut start: usize = 0;
        let mut end: usize = 0;
        let mut i: usize = 0;
        while i < sorted.len()
            invariant
                i <= sorted.len(),
                srt == sorted@,
                lines_in_range(srt),
                fp == file_path@,
                src == source@,
                max == self.max_lines,
                ({
                    let st = sem_fold(srt.take(i as int), max as int);
                    &&& chunk_views(chunks@) == st.done.map_values(|g: SemGroup| sem_group_chunk(fp, src, g, max as int))
                    &&& views_of(cur@) == st.cur
                    &&& start as int == st.start
                    &&& end as int == st.end
                    &&& opt_chars_view(key) == st.key
                    &&& match anchor { Some(a) => st.anchor == Some(a as int), None => st.anchor is None }
                    &&& (st.cur.len() > 0 ==> st.end < usize::MAX)
                }),
            decreases sorted.len() - i,
        {
            let ghost st0 = sem_fold(srt.take(i as int), max as int);
            let s = &sorted[i];
            assert(srt.take(i + 1).drop_last() == srt.take(i as int));
            assert(srt.take(i + 1).last() == srt[i as int]);
            let ghost st1 = sem_step(st0, *s, max as int);
            let own = semantic_key_exec(s);
            let sym_key: Option<Vec<char>> = match own {
                Some(k) => Some(k),
                None => if cur.len() > 0 && s.start_line >= start && s.end_line <= end {
                    match &key {
                        Some(k) => Some(slice_range(k.as_slice(), 0, k.len())),
                        None => None,
                    }
                } else {
                    None
                },
            };
            proof {
                if key is Some {
                    assert(key->0@.subrange(0, key->0@.len() as int) == key->0@);
                }
            }
            assert(opt_chars_view(sym_key) == incoming_key(st0, *s));
            let joins = if cur.len() == 0 {
                false
            } else {
                let next_end = if end >= s.end_line { end } else { s.end_line };
                let next_lines = span_exec(start, next_end);
                let same = match (&key, &sym_key) {
                    (Some(a), Some(b)) => seq_eq(a.as_slice(), b.as_slice()),
                    _ => false,
                };
                let gap_end = if end <= usize::MAX - SEMANTIC_GAP_LINES { end + SEMANTIC_GAP_LINES } else { usize::MAX };
                let close = s.start_line <= gap_end;
                let fits = max == 0 || next_lines <= max;
                let within = match anchor {
                    Some(a) => is_member_symbol(s) && s.end_line <= a,
                    None => false,
                };
                (same || within) && close && fits
            };
            if joins {
                let next_end = if end >= s.end_line { end } else { s.end_line };
                end = next_end;
                anchor = match anchor {
                    Some(a) => Some(if a >= s.end_line { a } else { s.end_line }),
                    None => None,
                };
                let ghost before = views_of(cur@);
                cur.push(s.id.clone());
                assert(views_of(cur@) =~= before.push(s.id@));
            } else {
                if cur.len() > 0 {
                    let g = cur;
                    cur = Vec::new();
                    flush_group(file_path, source, &mut chunks, g, start, end, &key, max);
                }
                start = s.start_line;
                end = s.end_line;
                anchor = if is_anchor_symbol(s) { Some(s.end_line) } else { None };
                key = match sym_key {
                    Some(k) => Some(k),
                    None => Some(fallback_key_exec(s)),
                };
                cur = Vec::new();
                cur.push(s.id.clone());
                assert(views_of(cur@) =~= seq![s.id@]);
            }
            assert(chunk_views(chunks@) =~= st1.done.map_values(|g: SemGroup| sem_group_chunk(fp, src, g, max as int)));
            i += 1;
        }
        assert(srt.take(sorted.len() as int) == srt);
        flush_group(file_path, source, &mut chunks, cur, start, end, &key, max);
        assert(chunk_views(chunks@) =~= semantic_chunks(fp, src, opt_symbols(symbols), max as int));
        chunks
    }
}

proof fn lemma_word_end_whole(s: Seq<char>, i: int)
    requires
        0 <= i <= s.len(),
        forall|j: int| 0 <= j < s.len() ==> !is_ws(#[trigger] s[j]),
    ensures
        word_end(s, i) == s.len(),
    decreases s.len() - i,
{
    if i < s.len() {
        lemma_word_end_whole(s, i + 1);
    }
}

proof fn lemma_impl_target_of(t: Seq<char>, u: Seq<char>)
    requires
        t.len() > 0,
        forall|i: int| 0 <= i < t.len() ==> !is_ws(#[trigger] t[i]) && t[i] != '{',
        u.len() > 0,
        forall|i: int| 0 <= i < u.len() ==> !is_ws(#[trigger] u[i]) && !is_bracket(u[i]),
    ensures
        impl_target("impl "@ + t + " for "@ + u) == Some(lowercase(u)),
{
    reveal_strlit("impl ");
    reveal_strlit("impl");
    reveal_strlit(" for ");
    reveal_strlit("{");
    reveal_strlit(" where ");
    let sig = "impl "@ + t + " for "@ + u;
    let n = t.len() as int;
    let s1 = t + " for "@ + u;
    assert(sig[0] == 'i');
    assert(sig.last() == u.last());
    lemma_trim_keeps(sig);
    assert(sig.subrange(0, 4) =~= "impl"@);
    assert(sig.skip(4) =~= seq![' '] + s1);
    assert(is_ws(' '));
    assert(sig.skip(4).drop_first() =~= s1);
    assert(s1[0] == t[0]);
    assert(s1.last() == u.last());
    lemma_trim_keeps(s1);
    assert(trim_start(sig.skip(4)) == s1);
    // Where the spaces of `s1` are.
    assert forall|j: int| 0 <= j < s1.len() && j != n && j != n + 4 implies !is_ws(#[trigger] s1[j]) && s1[j] != '{' by {
        if j < n {
            assert(s1[j] == t[j]);
        } else if j < n + 5 {
            assert(s1[j] == " for "@[j - n]);
        } else {
            assert(s1[j] == u[j - n - 5]);
        }
    }
    assert(s1[n] == ' ' && s1[n + 4] == ' ');
    assert forall|j: int| 0 <= j implies !matches_at(s1, "{"@, j) by {
        if matches_at(s1, "{"@, j) {
            assert(s1.subrange(j, j + 1)[0] == s1[j]);
        }
    }
    lemma_find_absent(s1, "{"@);
    assert forall|j: int| 0 <= j implies !matches_at(s1, " where "@, j) by {
        if matches_at(s1, " where "@, j) {
            assert(s1.subrange(j, j + 7)[0] == s1[j]);
            assert(s1.subrange(j, j + 7)[6] == s1[j + 6]);
            assert(s1[j + 6] == u[j + 6 - n - 5]);
        }
    }
    lemma_find_absent(s1, " where "@);
    assert(s1.subrange(n, n + 5) =~= " for "@);
    assert forall|j: int| n < j implies !matches_at(s1, " for "@, j) by {
        if matches_at(s1, " for "@, j) {
            assert(s1.subrange(j, j + 5)[0] == s1[j]);
            assert(s1.subrange(j, j + 5)[4] == s1[j + 4]);
            assert(s1[j + 4] == u[j + 4 - n - 5]);
        }
    }
    lemma_rfind_last_at(s1, " for "@, n);
    assert(s1.skip(n + 5) =~= u);
    lemma_trim_keeps(u);
    lemma_word_end_whole(u, 0);
    assert(u.take(u.len() as int) =~= u);
    assert(strip_brackets_start(u) == u);
    assert(strip_brackets_end(u) == u);
}

/// An impl is grouped with the type it is for: the key of an impl whose
/// signature is `impl T for U` is the lower-cased `U` (not the trait `T`),
/// which is the key of the type `U` itself.
pub proof fn law_impl_key_is_target(t: Seq<char>, u: Seq<char>, imp: Symbol, ty: Symbol)
    requires
        t.len() > 0,
        forall|i: int| 0 <= i < t.len() ==> !is_ws(#[trigger] t[i]) && t[i] != '{',
        u.len() > 0,
        forall|i: int| 0 <= i < u.len() ==> !is_ws(#[trigger] u[i]) && !is_bracket(u[i]),
        lowercase(imp.kind@) == "impl"@,
        imp.signature matches Some(g) && g@ == "impl "@ + t + " for "@ + u,
    ensures
        semantic_key(imp) == Some(lowercase(u)),
        lowercase(ty.kind@) == "struct"@ && ty.name@ == u && u.last() != ':' ==> semantic_key(ty) == semantic_key(imp),
{
    reveal_strlit("impl");
    reveal_strlit("struct");
    reveal_strlit("class");
    reveal_strlit("trait");
    reveal_strlit("enum");
    reveal_strlit("type");
    reveal_strlit("mod");
    reveal_strlit("::");
    lemma_impl_target_of(t, u);
    assert("impl"@ != "enum"@) by { assert("impl"@[0] != "enum"@[0]); }
    assert("impl"@ != "type"@) by { assert("impl"@[0] != "type"@[0]); }
    assert("impl"@ != "struct"@) by { assert("impl"@.len() != "struct"@.len()); }
    assert("impl"@ != "class"@) by { assert("impl"@.len() != "class"@.len()); }
    assert("impl"@ != "trait"@) by { assert("impl"@.len() != "trait"@.len()); }
    assert("impl"@ != "mod"@) by { assert("impl"@.len() != "mod"@.len()); }
    assert(!is_type_kind("impl"@));
    if lowercase(ty.kind@) == "struct"@ && ty.name@ == u && u.last() != ':' {
        lemma_trim_keeps(u);
        assert(!ends_with(u, "::"@)) by {
            if u.len() >= 2 {
                assert(u.subrange(u.len() - 2, u.len() as int)[1] == u.last());
            }
        }
        assert(trim_end_matches(u, "::"@) == u);
    }
}

} // verus!
