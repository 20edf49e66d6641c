//! A decorator that prefixes each chunk with the file's leading imports and
//! the scopes of its symbols.
use vstd::prelude::*;
use crate::application::chunking::{ChunkStrategy, opt_symbols};
use crate::application::chunking::size_limited::byte_len;
use crate::digest::{blake3_hex_of, blake3_of_text};
use crate::domain::types::{Chunk, ChunkView, MetaValue, MetaView, Metadata, Symbol, chunk_views, meta_map};
use crate::lines::{lines, lines_exec};
use crate::order::{compare_text, text_lt};
use crate::text::{
    append_chars, append_str, chars_of, join, seq_eq, starts_with, starts_with_exec, string_of, trim, trim_chars,
    trim_str,
};
use vstd::utf8::encode_utf8;

verus! {

/// Prefixes the chunks of an inner strategy with context.
pub struct ContextInjectionChunker<S> {
    inner: S,
}

impl<S> ContextInjectionChunker<S> {
    pub fn new(inner: S) -> (r: Self)
        ensures
            r.inner_strategy() == inner,
    {
        ContextInjectionChunker { inner }
    }

    /// The decorated strategy.
    pub closed spec fn inner_strategy(&self) -> S {
        self.inner
    }
}

// ---------------------------------------------------------------------------
// Leading imports
// ---------------------------------------------------------------------------

/// A line (trimmed) that imports: it starts with `use ` or `import `.
pub open spec fn is_import_line(t: Seq<char>) -> bool {
    starts_with(t, "use "@) || starts_with(t, "import "@)
}

/// The state of the scan for leading imports.
pub struct ImportScan {
    pub imports: Seq<Seq<char>>,
    pub seen_import: bool,
    pub stopped: bool,
}

/// One line of the scan: blank lines after the first import are kept as
/// empty entries; an import line is kept (trimmed) the first time it
/// occurs; the first other line after an import ends the scan, other lines
/// before any import are skipped.
pub open spec fn scan_line(st: ImportScan, line: Seq<char>) -> ImportScan {
    if st.stopped {
        st
    } else {
        let t = trim(line);
        if t.len() == 0 {
            if st.seen_import { ImportScan { imports: st.imports.push(Seq::empty()), ..st } } else { st }
        } else if is_import_line(t) {
            ImportScan {
                imports: if st.imports.contains(t) { st.imports } else { st.imports.push(t) },
                seen_import: true,
                stopped: false,
            }
        } else if st.seen_import {
            ImportScan { stopped: true, ..st }
        } else {
            st
        }
    }
}

/// The scan over the first `n` lines.
pub open spec fn scan_lines(ls: Seq<Seq<char>>, n: int) -> ImportScan
    decreases n,
{
    if n <= 0 {
        ImportScan { imports: Seq::empty(), seen_import: false, stopped: false }
    } else {
        scan_line(scan_lines(ls, n - 1), ls[n - 1])
    }
}

/// The imports at the head of a source, in order, without repeats, with
/// the blank lines between them.
pub open spec fn leading_imports(source: Seq<char>) -> Seq<Seq<char>> {
    scan_lines(lines(source), lines(source).len() as int).imports
}

proof fn lemma_scan_grows(ls: Seq<Seq<char>>, m: int, n: int)
    requires
        0 <= m <= n <= ls.len(),
    ensures
        scan_lines(ls, n).imports.len() >= scan_lines(ls, m).imports.len(),
        scan_lines(ls, n).imports.take(scan_lines(ls, m).imports.len() as int) == scan_lines(ls, m).imports,
    decreases n - m,
{
    if m < n {
        lemma_scan_grows(ls, m, n - 1);
        let a = scan_lines(ls, m).imports;
        let p = scan_lines(ls, n - 1).imports;
        let q = scan_lines(ls, n).imports;
        assert(q == p || q == p.push(trim(ls[n - 1])) || q == p.push(Seq::<char>::empty()));
        assert(q.take(a.len() as int) =~= p.take(a.len() as int));
    } else {
        assert(scan_lines(ls, n).imports.take(scan_lines(ls, n).imports.len() as int) =~= scan_lines(ls, n).imports);
    }
}

/// Whether a trimmed line is an import statement of one of the languages:
/// `use ...` (Rust) or `import ...` (TypeScript, JavaScript, Python, Java).
pub open spec fn imports_a_module(t: Seq<char>) -> bool {
    starts_with(t, "use "@) || starts_with(t, "import "@)
}

proof fn lemma_scan_heads(ls: Seq<Seq<char>>, k: int, i: int)
    requires
        0 <= i <= k <= ls.len(),
        forall|j: int| 0 <= j < k ==> imports_a_module(#[trigger] trim(ls[j])),
        forall|a: int, b: int| 0 <= a < b < k ==> trim(#[trigger] ls[a]) != trim(#[trigger] ls[b]),
    ensures
        scan_lines(ls, i).imports == Seq::new(i as nat, |j: int| trim(ls[j])),
        !scan_lines(ls, i).stopped,
    decreases i,
{
    reveal_strlit("use ");
    reveal_strlit("import ");
    if i > 0 {
        lemma_scan_heads(ls, k, i - 1);
        let st = scan_lines(ls, i - 1);
        let t = trim(ls[i - 1]);
        assert(imports_a_module(trim(ls[i - 1])));
        assert(t.len() > 0);
        assert(is_import_line(t));
        assert(!st.imports.contains(t)) by {
            if st.imports.contains(t) {
                let j = choose|j: int| 0 <= j < st.imports.len() && st.imports[j] == t;
                assert(st.imports[j] == trim(ls[j]));
                assert(trim(ls[j]) != trim(ls[i - 1]));
            }
        }
        assert(scan_lines(ls, i).imports =~= Seq::new(i as nat, |j: int| trim(ls[j])));
    }
}

/// A source whose first `k` lines, trimmed, are distinct imports (`use ...`
/// in Rust, `import ...` in TypeScript, JavaScript, Python or Java) has
/// those lines, in order, as its first leading imports.
pub proof fn law_head_imports(source: Seq<char>, k: int)
    requires
        0 <= k <= lines(source).len(),
        forall|i: int| 0 <= i < k ==> imports_a_module(#[trigger] trim(lines(source)[i])),
        forall|i: int, j: int| 0 <= i < j < k ==> trim(#[trigger] lines(source)[i]) != trim(#[trigger] lines(source)[j]),
    ensures
        leading_imports(source).len() >= k,
        forall|i: int| 0 <= i < k ==> #[trigger] leading_imports(source)[i] == trim(lines(source)[i]),
{
    let ls = lines(source);
    lemma_scan_heads(ls, k, k);
    lemma_scan_grows(ls, k, ls.len() as int);
    let heads = Seq::new(k as nat, |j: int| trim(ls[j]));
    assert forall|j: int| 0 <= j < k implies #[trigger] leading_imports(source)[j] == trim(lines(source)[j]) by {
        assert(leading_imports(source).take(k)[j] == heads[j]);
    }
}

fn is_import_line_exec(t: &[char]) -> (r: bool)
    ensures
        r == is_import_line(t@),
{
    let u = chars_of("use ");
    let i = chars_of("import ");
    starts_with_exec(t, u.as_slice()) || starts_with_exec(t, i.as_slice())
}

fn contains_line(v: &Vec<Vec<char>>, t: &[char]) -> (r: bool)
    ensures
        r == v@.map_values(|x: Vec<char>| x@).contains(t@),
{
    let ghost vv = v@.map_values(|x: Vec<char>| x@);
    let mut i: usize = 0;
    while i < v.len()
        invariant
            i <= v.len(),
            vv == v@.map_values(|x: Vec<char>| x@),
            forall|j: int| 0 <= j < i ==> vv[j] != t@,
        decreases v.len() - i,
    {
        if seq_eq(v[i].as_slice(), t) {
            assert(vv[i as int] == t@);
            return true;
        }
        i += 1;
    }
    false
}

/// `extract_leading_imports`.
pub fn extract_leading_imports(source: &str) -> (r: Vec<Vec<char>>)
    ensures
        r@.map_values(|x: Vec<char>| x@) == leading_imports(source@),
{
    let sc = chars_of(source);
    let ls = lines_exec(sc.as_slice());
    let ghost lv = ls@.map_values(|x: Vec<char>| x@);
    assert(lv == lines(source@));
    let mut imports: Vec<Vec<char>> = Vec::new();
    let mut seen_import = false;
    let mut i: usize = 0;
    while i < ls.len()
        invariant
            i <= ls.len(),
            lv == ls@.map_values(|x: Vec<char>| x@),
            lv == lines(source@),
            ({
                let st = scan_lines(lv, i as int);
                &&& imports@.map_values(|x: Vec<char>| x@) == st.imports
                &&& seen_import == st.seen_import
                &&& !st.stopped
            }),
        decreases ls.len() - i,
    {
        let ghost st = scan_lines(lv, i as int);
        let t = trim_chars(ls[i].as_slice());
        assert(lv[i as int] == ls@[i as int]@);
        if t.len() == 0 {
            if seen_import {
                let ghost before = imports@.map_values(|x: Vec<char>| x@);
                imports.push(Vec::new());
                assert(imports@.map_values(|x: Vec<char>| x@) =~= before.push(Seq::empty()));
            }
        } else if is_import_line_exec(t.as_slice()) {
            seen_import = true;
            if !contains_line(&imports, t.as_slice()) {
                let ghost before = imports@.map_values(|x: Vec<char>| x@);
                imports.push(t);
                assert(imports@.map_values(|x: Vec<char>| x@) =~= before.push(trim(lv[i as int])));
            }
        } else if seen_import {
            proof {
                assert(scan_lines(lv, i as int + 1) == scan_line(st, lv[i as int]));
                assert(scan_lines(lv, i as int + 1).stopped);
                lemma_scan_stays_stopped(lv, i as int + 1, ls@.len() as int);
                assert(lv.len() == ls@.len());
            }
            return imports;
        }
        i += 1;
    }
    imports
}

proof fn lemma_scan_stays_stopped(ls: Seq<Seq<char>>, i: int, n: int)
    requires
        0 < i <= n,
        scan_lines(ls, i).stopped,
    ensures
        scan_lines(ls, n) == scan_lines(ls, i),
    decreases n - i,
{
    if n > i {
        lemma_scan_stays_stopped(ls, i, n - 1);
    }
}

// ---------------------------------------------------------------------------
// Scopes
// ---------------------------------------------------------------------------

/// The last of the symbols with the given id, as an index keyed by id
/// keeps it.
pub open spec fn lookup_symbol(syms: Seq<Symbol>, id: Seq<char>) -> Option<Symbol>
    decreases syms.len(),
{
    if syms.len() == 0 {
        None
    } else if syms.last().id@ == id {
        Some(syms.last())
    } else {
        lookup_symbol(syms.drop_last(), id)
    }
}

/// The trimmed scope of the symbol with the given id, if known.
pub open spec fn scope_of(syms: Option<Seq<Symbol>>, id: Seq<char>) -> Option<Seq<char>> {
    match syms {
        None => None,
        Some(s) => match lookup_symbol(s, id) {
            Some(sym) => match sym.scope {
                Some(sc) => Some(trim(sc@)),
                None => None,
            },
            None => None,
        },
    }
}

/// A sorted list of distinct texts with `x` added, as an ordered set adds it.
pub open spec fn insert_sorted(list: Seq<Seq<char>>, x: Seq<char>) -> Seq<Seq<char>>
    decreases list.len(),
{
    if list.len() == 0 {
        seq![x]
    } else if list[0] == x {
        list
    } else if text_lt(x, list[0]) {
        seq![x] + list
    } else {
        seq![list[0]] + insert_sorted(list.drop_first(), x)
    }
}

/// The ids whose scopes a chunk's context names: its primary symbol, then
/// all its symbols.
pub open spec fn scope_ids(c: ChunkView) -> Seq<Seq<char>> {
    (match c.symbol_id { Some(i) => seq![i], None => Seq::empty() }) + c.symbol_ids
}

/// The ordered set of the scopes of the first `n` ids.
pub open spec fn scopes_upto(syms: Option<Seq<Symbol>>, ids: Seq<Seq<char>>, n: int) -> Seq<Seq<char>>
    decreases n,
{
    if n <= 0 {
        Seq::empty()
    } else {
        let prev = scopes_upto(syms, ids, n - 1);
        match scope_of(syms, ids[n - 1]) {
            Some(sc) => insert_sorted(prev, sc),
            None => prev,
        }
    }
}

/// The scopes of a chunk's symbols, sorted, each once.
pub open spec fn chunk_scopes(c: ChunkView, syms: Option<Seq<Symbol>>) -> Seq<Seq<char>> {
    scopes_upto(syms, scope_ids(c), scope_ids(c).len() as int)
}

/// Each text of the list comes strictly before the next.
pub open spec fn strictly_sorted(l: Seq<Seq<char>>) -> bool {
    forall|i: int, j: int| 0 <= i < j < l.len() ==> text_lt(#[trigger] l[i], #[trigger] l[j])
}

proof fn lemma_insert_sorted(l: Seq<Seq<char>>, x: Seq<char>)
    requires
        strictly_sorted(l),
    ensures
        strictly_sorted(insert_sorted(l, x)),
        forall|k: int| 0 <= k < insert_sorted(l, x).len() ==> (#[trigger] insert_sorted(l, x)[k] == x || l.contains(insert_sorted(l, x)[k])),
    decreases l.len(),
{
    let r = insert_sorted(l, x);
    if l.len() == 0 {
    } else if l[0] == x {
    } else if text_lt(x, l[0]) {
        assert forall|i: int, j: int| 0 <= i < j < r.len() implies text_lt(#[trigger] r[i], #[trigger] r[j]) by {
            if i == 0 {
                if j > 1 {
                    crate::order::lemma_text_order(x, l[0], l[j - 1]);
                }
            } else {
                assert(r[i] == l[i - 1] && r[j] == l[j - 1]);
            }
        }
        assert forall|k: int| 0 <= k < r.len() implies (#[trigger] r[k] == x || l.contains(r[k])) by {
            if k > 0 {
                assert(r[k] == l[k - 1]);
            }
        }
    } else {
        let rest = l.drop_first();
        assert(strictly_sorted(rest)) by {
            assert forall|i: int, j: int| 0 <= i < j < rest.len() implies text_lt(#[trigger] rest[i], #[trigger] rest[j]) by {
                assert(rest[i] == l[i + 1] && rest[j] == l[j + 1]);
            }
        }
        lemma_insert_sorted(rest, x);
        let t = insert_sorted(rest, x);
        crate::order::lemma_text_order(x, l[0], x);
        assert(text_lt(l[0], x));
        assert(r == seq![l[0]] + t);
        assert forall|i: int, j: int| 0 <= i < j < r.len() implies text_lt(#[trigger] r[i], #[trigger] r[j]) by {
            if i == 0 {
                assert(r[j] == t[j - 1]);
                if t[j - 1] != x {
                    assert(rest.contains(t[j - 1]));
                    let m = choose|m: int| 0 <= m < rest.len() && rest[m] == t[j - 1];
                    assert(l[m + 1] == rest[m]);
                }
            } else {
                assert(r[i] == t[i - 1] && r[j] == t[j - 1]);
            }
        }
        assert forall|k: int| 0 <= k < r.len() implies (#[trigger] r[k] == x || l.contains(r[k])) by {
            if k > 0 {
                assert(r[k] == t[k - 1]);
                if t[k - 1] != x {
                    let m = choose|m: int| 0 <= m < rest.len() && rest[m] == t[k - 1];
                    assert(l[m + 1] == rest[m]);
                }
            } else {
                assert(l[0] == r[0]);
            }
        }
    }
}

proof fn lemma_scopes_sorted(syms: Option<Seq<Symbol>>, ids: Seq<Seq<char>>, n: int)
    ensures
        strictly_sorted(scopes_upto(syms, ids, n)),
    decreases n,
{
    if n > 0 {
        lemma_scopes_sorted(syms, ids, n - 1);
        match scope_of(syms, ids[n - 1]) {
            Some(sc) => lemma_insert_sorted(scopes_upto(syms, ids, n - 1), sc),
            None => {},
        }
    }
}

/// The scopes named in a chunk's context come in order, each once.
pub proof fn law_chunk_scopes_once(c: ChunkView, syms: Option<Seq<Symbol>>)
    ensures
        strictly_sorted(chunk_scopes(c, syms)),
        chunk_scopes(c, syms).no_duplicates(),
{
    let l = chunk_scopes(c, syms);
    lemma_scopes_sorted(syms, scope_ids(c), scope_ids(c).len() as int);
    assert forall|i: int, j: int| 0 <= i < l.len() && 0 <= j < l.len() && i != j implies l[i] != l[j] by {
        if i < j {
            crate::order::lemma_text_order(l[i], l[j], l[j]);
        } else {
            crate::order::lemma_text_order(l[j], l[i], l[i]);
        }
    }
}

fn lookup_scope(syms: Option<&Vec<Symbol>>, id: &[char]) -> (r: Option<Vec<char>>)
    ensures
        match r { Some(v) => Some(v@), None => None::<Seq<char>> } == scope_of(opt_symbols(syms), id@),
{
    match syms {
        None => None,
        Some(v) => lookup_scope_in(v, id),
    }
}

fn lookup_scope_in(v: &Vec<Symbol>, id: &[char]) -> (r: Option<Vec<char>>)
    ensures
        match r { Some(x) => Some(x@), None => None::<Seq<char>> } == scope_of(Some(v@), id@),
{
    let mut i: usize = v.len();
    assert(v@.take(v.len() as int) == v@);
    while i > 0
        invariant
            i <= v.len(),
            lookup_symbol(v@, id@) == lookup_symbol(v@.take(i as int), id@),
        decreases i,
    {
        let ghost t = v@.take(i as int);
        assert(t.last() == v@[i - 1]);
        assert(t.drop_last() == v@.take(i - 1));
        let sid = chars_of(v[i - 1].id.as_str());
        if seq_eq(sid.as_slice(), id) {
            let sym = &v[i - 1];
            assert(lookup_symbol(v@, id@) == Some(*sym));
            return match &sym.scope {
                Some(sc) => Some(trim_str(sc.as_str())),
                None => None,
            };
        }
        i -= 1;
    }
    assert(v@.take(0).len() == 0);
    None
}

fn insert_sorted_exec(list: &mut Vec<Vec<char>>, x: Vec<char>)
    ensures
        final(list)@.map_values(|v: Vec<char>| v@) == insert_sorted(old(list)@.map_values(|v: Vec<char>| v@), x@),
{
    let ghost l0 = old(list)@.map_values(|v: Vec<char>| v@);
    let mut i: usize = 0;
    assert(l0.skip(0) == l0);
    assert(l0.take(0) + insert_sorted(l0, x@) =~= insert_sorted(l0, x@));
    while i < list.len()
        invariant
            i <= list.len(),
            list@ == old(list)@,
            l0 == old(list)@.map_values(|v: Vec<char>| v@),
            insert_sorted(l0, x@) == l0.take(i as int) + insert_sorted(l0.skip(i as int), x@),
        decreases list.len() - i,
    {
        let c = compare_text(x.as_slice(), list[i].as_slice());
        let ghost rest = l0.skip(i as int);
        assert(rest[0] == l0[i as int]);
        if c == 0 {
            assert(insert_sorted(rest, x@) == rest);
            assert(l0.take(i as int) + rest =~= l0);
            return;
        }
        if c < 0 {
            list.insert(i, x);
            assert(list@.map_values(|v: Vec<char>| v@) =~= l0.take(i as int) + (seq![x@] + rest));
            return;
        }
        assert(rest.drop_first() == l0.skip(i + 1));
        assert(l0.take(i + 1) == l0.take(i as int).push(l0[i as int]));
        assert(l0.take(i as int) + (seq![rest[0]] + insert_sorted(rest.drop_first(), x@))
            =~= l0.take(i + 1) + insert_sorted(l0.skip(i + 1), x@));
        i += 1;
    }
    let ghost before = list@.map_values(|v: Vec<char>| v@);
    list.push(x);
    assert(l0.skip(i as int).len() == 0);
    assert(l0.take(i as int) =~= l0);
    assert(list@.map_values(|v: Vec<char>| v@) =~= before.push(x@));
}

/// `collect_scopes`.
pub fn collect_scopes(chunk: &Chunk, syms: Option<&Vec<Symbol>>) -> (r: Vec<Vec<char>>)
    ensures
        r@.map_values(|v: Vec<char>| v@) == chunk_scopes(chunk@, opt_symbols(syms)),
{
    let mut ids: Vec<Vec<char>> = Vec::new();
    match &chunk.symbol_id {
        Some(i) => ids.push(chars_of(i.as_str())),
        None => {},
    }
    let mut j: usize = 0;
    let ghost head = ids@.map_values(|v: Vec<char>| v@);
    assert(head =~= match chunk@.symbol_id { Some(i) => seq![i], None => Seq::<Seq<char>>::empty() });
    while j < chunk.symbol_ids.len()
        invariant
            j <= chunk.symbol_ids.len(),
            ids@.map_values(|v: Vec<char>| v@) =~= head + chunk@.symbol_ids.take(j as int),
        decreases chunk.symbol_ids.len() - j,
    {
        let ghost before = ids@.map_values(|v: Vec<char>| v@);
        ids.push(chars_of(chunk.symbol_ids[j].as_str()));
        assert(chunk@.symbol_ids.take(j + 1) =~= chunk@.symbol_ids.take(j as int).push(chunk.symbol_ids@[j as int]@));
        assert(ids@.map_values(|v: Vec<char>| v@) =~= before.push(chunk.symbol_ids@[j as int]@));
        j += 1;
    }
    assert(chunk@.symbol_ids.take(chunk.symbol_ids.len() as int) =~= chunk@.symbol_ids);
    let ghost iv = scope_ids(chunk@);
    assert(ids@.map_values(|v: Vec<char>| v@) =~= iv);
    let mut scopes: Vec<Vec<char>> = Vec::new();
    let mut k: usize = 0;
    while k < ids.len()
        invariant
            k <= ids.len(),
            ids@.map_values(|v: Vec<char>| v@) == iv,
            scopes@.map_values(|v: Vec<char>| v@) == scopes_upto(opt_symbols(syms), iv, k as int),
        decreases ids.len() - k,
    {
        assert(iv[k as int] == ids@[k as int]@);
        match lookup_scope(syms, ids[k].as_slice()) {
            Some(sc) => insert_sorted_exec(&mut scopes, sc),
            None => {},
        }
        k += 1;
    }
    scopes
}

// ---------------------------------------------------------------------------
// The context block and the decorated chunk
// ---------------------------------------------------------------------------

/// The lines of the context: the imports, then (after an empty line, when
/// there are imports) one `scope: ..` line per scope.
pub open spec fn context_lines(imports: Seq<Seq<char>>, scopes: Seq<Seq<char>>) -> Seq<Seq<char>> {
    let sl = scopes.map_values(|s: Seq<char>| "scope: "@ + s);
    if scopes.len() == 0 {
        imports
    } else if imports.len() == 0 {
        sl
    } else {
        imports.push(Seq::empty()) + sl
    }
}

/// The context block: its lines joined by newlines and closed by an empty
/// line; nothing when there are no lines.
pub open spec fn context_block(imports: Seq<Seq<char>>, scopes: Seq<Seq<char>>) -> Seq<char> {
    let l = context_lines(imports, scopes);
    if l.len() == 0 { Seq::empty() } else { join(l, "\n"@) + "\n\n"@ }
}

/// The number of non-empty lines.
pub open spec fn nonempty_count(ls: Seq<Seq<char>>) -> int
    decreases ls.len(),
{
    if ls.len() == 0 { 0 } else { nonempty_count(ls.drop_last()) + if ls.last().len() > 0 { 1int } else { 0int } }
}

/// The metadata with the context recorded: whether there is a prefix, how
/// many import lines and scopes it holds.
pub open spec fn merged_meta(m: Option<Map<Seq<char>, MetaView>>, imports: Seq<Seq<char>>, scopes: Seq<Seq<char>>) -> Map<Seq<char>, MetaView> {
    let m0 = match m { Some(x) => x, None => Map::empty() };
    m0.insert("has_context_prefix"@, MetaView::Flag(imports.len() > 0 || scopes.len() > 0)).insert(
        "context_import_count"@, MetaView::Number(nonempty_count(imports) as u64)).insert(
        "context_scope_count"@, MetaView::Number(scopes.len() as u64))
}

/// A chunk with the context of its file prefixed to its text, its digest
/// and size recomputed and the context recorded in its metadata; unchanged
/// when the context is empty.
pub open spec fn inject_view(c: ChunkView, source: Seq<char>, syms: Option<Seq<Symbol>>) -> ChunkView {
    let imports = leading_imports(source);
    let scopes = chunk_scopes(c, syms);
    let ctx = context_block(imports, scopes);
    if ctx.len() == 0 {
        c
    } else {
        let content = ctx + c.content;
        ChunkView {
            size: byte_len(content),
            md5: blake3_hex_of(encode_utf8(content)),
            content,
            text: content,
            metadata: Some(merged_meta(c.metadata, imports, scopes)),
            ..c
        }
    }
}

/// Every chunk with its context.
pub open spec fn context_chunks(cs: Seq<ChunkView>, source: Seq<char>, syms: Option<Seq<Symbol>>) -> Seq<ChunkView> {
    cs.map_values(|c: ChunkView| inject_view(c, source, syms))
}

/// Context injection keeps the chunks of the inner strategy: as many, in
/// the same order, each with its id, file, lines and symbols, its text
/// being the file's context block followed by the chunk's own text.
pub proof fn law_context_keeps_chunks(cs: Seq<ChunkView>, source: Seq<char>, syms: Option<Seq<Symbol>>)
    ensures
        context_chunks(cs, source, syms).len() == cs.len(),
        forall|i: int| 0 <= i < cs.len() ==> {
            let r = #[trigger] context_chunks(cs, source, syms)[i];
            &&& r.id == cs[i].id
            &&& r.file_path == cs[i].file_path
            &&& r.start_line == cs[i].start_line
            &&& r.end_line == cs[i].end_line
            &&& r.symbol_ids == cs[i].symbol_ids
            &&& r.symbol_id == cs[i].symbol_id
            &&& r.content == context_block(leading_imports(source), chunk_scopes(cs[i], syms)) + cs[i].content
        },
{
    assert forall|i: int| 0 <= i < cs.len() implies {
        let r = #[trigger] context_chunks(cs, source, syms)[i];
        &&& r.id == cs[i].id
        &&& r.file_path == cs[i].file_path
        &&& r.start_line == cs[i].start_line
        &&& r.end_line == cs[i].end_line
        &&& r.symbol_ids == cs[i].symbol_ids
        &&& r.symbol_id == cs[i].symbol_id
        &&& r.content == context_block(leading_imports(source), chunk_scopes(cs[i], syms)) + cs[i].content
    } by {
        let ctx = context_block(leading_imports(source), chunk_scopes(cs[i], syms));
        if ctx.len() == 0 {
            assert(ctx + cs[i].content =~= cs[i].content);
        }
    }
}

proof fn lemma_scan_no_repeats(ls: Seq<Seq<char>>, n: int)
    ensures
        forall|i: int, j: int| 0 <= i < j < scan_lines(ls, n).imports.len()
            && #[trigger] scan_lines(ls, n).imports[i] == #[trigger] scan_lines(ls, n).imports[j]
            ==> scan_lines(ls, n).imports[i].len() == 0,
    decreases n,
{
    if n > 0 {
        lemma_scan_no_repeats(ls, n - 1);
        let st = scan_lines(ls, n - 1);
        let im = st.imports;
        let im2 = scan_lines(ls, n).imports;
        assert(scan_lines(ls, n) == scan_line(st, ls[n - 1]));
        assert forall|i: int, j: int| 0 <= i < j < im2.len() && #[trigger] im2[i] == #[trigger] im2[j]
            implies im2[i].len() == 0 by {
            if j < im.len() {
                assert(im2[i] == im[i] && im2[j] == im[j]);
            } else if im2.len() > im.len() {
                assert(im2 == im.push(im2[j]));
                assert(im2[i] == im[i]);
                if im2[j].len() > 0 {
                    assert(im.contains(im2[j]));
                }
            }
        }
    }
}

/// The leading imports of a file name each import line once: only the
/// blank lines between them repeat.
pub proof fn law_leading_imports_once(source: Seq<char>)
    ensures
        forall|i: int, j: int| 0 <= i < j < leading_imports(source).len()
            && #[trigger] leading_imports(source)[i] == #[trigger] leading_imports(source)[j]
            ==> leading_imports(source)[i].len() == 0,
{
    lemma_scan_no_repeats(lines(source), lines(source).len() as int);
}

/// `build_context_block`.
pub fn build_context_block(imports: &Vec<Vec<char>>, scopes: &Vec<Vec<char>>) -> (r: Vec<char>)
    ensures
        r@ == context_block(imports@.map_values(|v: Vec<char>| v@), scopes@.map_values(|v: Vec<char>| v@)),
{
    let ghost iv = imports@.map_values(|v: Vec<char>| v@);
    let ghost sv = scopes@.map_values(|v: Vec<char>| v@);
    let mut lines_v: Vec<Vec<char>> = Vec::new();
    let mut i: usize = 0;
    while i < imports.len()
        invariant
            i <= imports.len(),
            iv == imports@.map_values(|v: Vec<char>| v@),
            lines_v@.map_values(|v: Vec<char>| v@) =~= iv.take(i as int),
        decreases imports.len() - i,
    {
        let ghost before = lines_v@.map_values(|v: Vec<char>| v@);
        let l = crate::text::slice_range(imports[i].as_slice(), 0, imports[i].len());
        assert(imports@[i as int]@.subrange(0, imports@[i as int]@.len() as int) == iv[i as int]);
        lines_v.push(l);
        assert(iv.take(i + 1) =~= iv.take(i as int).push(iv[i as int]));
        i += 1;
    }
    assert(iv.take(imports.len() as int) =~= iv);
    let ghost sl = sv.map_values(|s: Seq<char>| "scope: "@ + s);
    if scopes.len() > 0 {
        if lines_v.len() > 0 {
            let ghost before = lines_v@.map_values(|v: Vec<char>| v@);
            lines_v.push(Vec::new());
            assert(lines_v@.map_values(|v: Vec<char>| v@) =~= before.push(Seq::empty()));
        }
        let ghost base = lines_v@.map_values(|v: Vec<char>| v@);
        let mut k: usize = 0;
        while k < scopes.len()
            invariant
                k <= scopes.len(),
                sv == scopes@.map_values(|v: Vec<char>| v@),
                sl == sv.map_values(|s: Seq<char>| "scope: "@ + s),
                lines_v@.map_values(|v: Vec<char>| v@) =~= base + sl.take(k as int),
            decreases scopes.len() - k,
        {
            let ghost before = lines_v@.map_values(|v: Vec<char>| v@);
            let mut l: Vec<char> = Vec::new();
            append_str(&mut l, "scope: ");
            append_chars(&mut l, scopes[k].as_slice());
            lines_v.push(l);
            assert(sl.take(k + 1) =~= sl.take(k as int).push(sl[k as int]));
            assert(lines_v@.map_values(|v: Vec<char>| v@) =~= before.push(sl[k as int]));
            k += 1;
        }
        assert(sl.take(scopes.len() as int) =~= sl);
    }
    assert(lines_v@.map_values(|v: Vec<char>| v@) =~= context_lines(iv, sv));
    if lines_v.len() == 0 {
        return Vec::new();
    }
    let nl = chars_of("\n");
    let mut block = crate::text::join_exec(&lines_v, nl.as_slice());
    append_str(&mut block, "\n\n");
    block
}

fn count_nonempty(ls: &Vec<Vec<char>>) -> (r: usize)
    ensures
        r == nonempty_count(ls@.map_values(|v: Vec<char>| v@)),
{
    let ghost lv = ls@.map_values(|v: Vec<char>| v@);
    let mut n: usize = 0;
    let mut i: usize = 0;
    while i < ls.len()
        invariant
            i <= ls.len(),
            lv == ls@.map_values(|v: Vec<char>| v@),
            n == nonempty_count(lv.take(i as int)),
            n <= i,
        decreases ls.len() - i,
    {
        assert(lv.take(i + 1).drop_last() == lv.take(i as int));
        if ls[i].len() > 0 {
            n += 1;
        }
        i += 1;
    }
    assert(lv.take(ls.len() as int) == lv);
    n
}

/// `merge_metadata`.
pub fn merge_metadata(metadata: Option<Metadata>, imports: &Vec<Vec<char>>, scopes: &Vec<Vec<char>>) -> (r: Option<Metadata>)
    ensures
        r matches Some(m) && meta_map(m) == merged_meta(
            match metadata { Some(x) => Some(meta_map(x)), None => None },
            imports@.map_values(|v: Vec<char>| v@),
            scopes@.map_values(|v: Vec<char>| v@),
        ),
{
    let mut m = match metadata {
        Some(x) => x,
        None => Metadata::new(),
    };
    m.insert("has_context_prefix".to_owned(), MetaValue::Flag(imports.len() > 0 || scopes.len() > 0));
    m.insert("context_import_count".to_owned(), MetaValue::Number(count_nonempty(imports) as u64));
    m.insert("context_scope_count".to_owned(), MetaValue::Number(scopes.len() as u64));
    Some(m)
}

/// `inject_context`.
fn inject_context(chunk: Chunk, source: &str, imports: &Vec<Vec<char>>, syms: Option<&Vec<Symbol>>) -> (r: Chunk)
    requires
        imports@.map_values(|v: Vec<char>| v@) == leading_imports(source@),
    ensures
        r@ == inject_view(chunk@, source@, opt_symbols(syms)),
{
    let scopes = collect_scopes(&chunk, syms);
    let context = build_context_block(imports, &scopes);
    if context.len() == 0 {
        return chunk;
    }
    let mut chunk = chunk;
    let ghost c0 = chunk@;
    let mut content = context;
    append_str(&mut content, chunk.content.as_str());
    let content_s = string_of(content.as_slice());
    chunk.size = content_s.as_str().len();
    chunk.md5 = blake3_of_text(content_s.as_str());
    chunk.content = content_s.clone();
    chunk.text = content_s;
    let old_meta = chunk.metadata;
    chunk.metadata = merge_metadata(old_meta, imports, &scopes);
    assert(chunk@ =~= inject_view(c0, source@, opt_symbols(syms)));
    chunk
}

impl<S: ChunkStrategy> ChunkStrategy for ContextInjectionChunker<S> {
    open spec fn chunks_of(&self, file_path: Seq<char>, source: Seq<char>, symbols: Option<Seq<Symbol>>) -> Seq<ChunkView> {
        context_chunks(self.inner_strategy().chunks_of(file_path, source, symbols), source, symbols)
    }

    open spec fn accepts(&self, symbols: Option<Seq<Symbol>>) -> bool {
        self.inner_strategy().accepts(symbols)
    }

    fn chunk_file(&self, file_path: &str, source: &str, symbols: Option<&Vec<Symbol>>) -> (r: Vec<Chunk>) {
        let chunks = self.inner.chunk_file(file_path, source, symbols);
        let ghost cs = chunk_views(chunks@);
        let imports = extract_leading_imports(source);
        let mut out: Vec<Chunk> = Vec::new();
        let mut i: usize = 0;
        while i < chunks.len()
            invariant
                i <= chunks.len(),
                cs == chunk_views(chunks@),
                imports@.map_values(|v: Vec<char>| v@) == leading_imports(source@),
                chunk_views(out@) =~= cs.take(i as int).map_values(|c: ChunkView| inject_view(c, source@, opt_symbols(symbols))),
            decreases chunks.len() - i,
        {
            let c = chunks[i].duplicate();
            let w = inject_context(c, source, &imports, symbols);
            let ghost before = chunk_views(out@);
            out.push(w);
            assert(chunk_views(out@) =~= before.push(w@));
            assert(cs.take(i + 1) =~= cs.take(i as int).push(cs[i as int]));
            i += 1;
        }
        assert(cs.take(chunks.len() as int) =~= cs);
        assert(chunk_views(out@) =~= context_chunks(cs, source@, opt_symbols(symbols)));
        out
    }
}

} // verus!
