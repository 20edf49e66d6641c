//! Normalization of symbols (qualified names, overloads, order) and of raw
//! import edges (module, imported symbol, alias, kind).
use vstd::prelude::*;
use crate::domain::types::{ImportEdge, NormalizedSymbol, Symbol};
use crate::order::{
    KeyView, SortKey, key_gt, key_views, stable_order, stable_order_exec, lemma_stable_order_perm, lemma_stable_order_sorted,
    text_lt,
};
use crate::text::{
    chars_of, copy_opt_string, ends_with, find, last_segment, rfind, split, join, starts_with,
    string_of, trim, trim_end_matches, trim_chars, trim_end_matches_exec, append_chars, contains,
    contains_exec, starts_with_exec, ends_with_exec, find_exec, rfind_exec, slice_range,
    split_exec, join_exec, last_segment_exec, lemma_find_is_match, lemma_rfind_is_match,
    matches_at, lemma_split_nonempty, lemma_trim_keeps, lemma_find_first_at, lemma_find_absent, lemma_rfind_last_at,
    is_ws, trim_start, trim_end,
};

verus! {

/// Why a symbol cannot be normalized.
#[derive(Debug, Clone, Copy, PartialEq, Eq)]
pub enum NormalizeError {
    EmptySymbolName,
    EmptySymbolId,
}

impl NormalizeError {
    /// The message of the error.
    pub fn message(&self) -> (r: String)
        ensures
            *self == NormalizeError::EmptySymbolName ==> r@ == "symbol name must not be empty"@,
            *self == NormalizeError::EmptySymbolId ==> r@ == "symbol id must not be empty"@,
    {
        match self {
            NormalizeError::EmptySymbolName => "symbol name must not be empty".to_owned(),
            NormalizeError::EmptySymbolId => "symbol id must not be empty".to_owned(),
        }
    }
}

/// The characters of an optional string slice.
pub open spec fn opt_str_view(o: Option<&str>) -> Option<Seq<char>> {
    match o {
        Some(s) => Some(s@),
        None => None,
    }
}

/// The characters of an optional string.
pub open spec fn opt_view(o: Option<String>) -> Option<Seq<char>> {
    match o {
        Some(s) => Some(s@),
        None => None,
    }
}

/// A string slice holding the characters of an optional string.
pub fn opt_as_str(o: &Option<String>) -> (r: Option<&str>)
    ensures
        opt_str_view(r) == opt_view(*o),
{
    match o {
        Some(s) => Some(s.as_str()),
        None => None,
    }
}

// ---------------------------------------------------------------------------
// Qualified names
// ---------------------------------------------------------------------------

/// The qualified name of `name` inside `scope`: the name alone when there is
/// no scope or an empty one, else the trimmed scope without trailing `::`,
/// then `::`, then the name.
pub open spec fn qualified_name(name: Seq<char>, scope: Option<Seq<char>>) -> Seq<char> {
    match scope {
        None => name,
        Some(s) => if s.len() == 0 {
            name
        } else {
            trim_end_matches(trim(s), "::"@) + "::"@ + name
        },
    }
}

/// Builds the fully qualified name of a symbol from its name and scope.
pub fn build_qualified_name(name: &str, scope: Option<&str>) -> (r: String)
    ensures
        r@ == qualified_name(name@, opt_str_view(scope)),
{
    match scope {
        None => name.to_owned(),
        Some(s) => {
            if s.is_empty() {
                return name.to_owned();
            }
            let sc = chars_of(s);
            let t = trim_chars(sc.as_slice());
            let colons = chars_of("::");
            let mut out = trim_end_matches_exec(t.as_slice(), colons.as_slice());
            append_chars(&mut out, colons.as_slice());
            let nm = chars_of(name);
            append_chars(&mut out, nm.as_slice());
            string_of(out.as_slice())
        },
    }
}

// ---------------------------------------------------------------------------
// Symbols
// ---------------------------------------------------------------------------

/// `n` is the normalized form of `s`: same identity, name, kind, file, lines
/// and signature, the qualified name of its name in its scope, the given
/// language and overload marks.
pub open spec fn normalized_from(
    n: NormalizedSymbol,
    s: Symbol,
    language: Option<Seq<char>>,
    is_overloaded: bool,
    overload_index: int,
) -> bool {
    &&& n.id == s.id
    &&& n.name == s.name
    &&& n.kind == s.kind
    &&& n.qualified_name@ == qualified_name(s.name@, opt_view(s.scope))
    &&& n.file_path == s.file_path
    &&& n.start_line == s.start_line
    &&& n.end_line == s.end_line
    &&& n.signature == s.signature
    &&& opt_view(n.language) == language
    &&& n.is_overloaded == is_overloaded
    &&& n.overload_index == overload_index
}

/// Normalizes one symbol; fails on an empty name, then on an empty id.
pub fn normalize_symbol(symbol: &Symbol, language: Option<&str>) -> (r: Result<NormalizedSymbol, NormalizeError>)
    ensures
        symbol.name@.len() == 0 ==> r == Err::<NormalizedSymbol, NormalizeError>(NormalizeError::EmptySymbolName),
        symbol.name@.len() > 0 && symbol.id@.len() == 0 ==> r == Err::<NormalizedSymbol, NormalizeError>(NormalizeError::EmptySymbolId),
        symbol.name@.len() > 0 && symbol.id@.len() > 0 ==> (r matches Ok(n) && normalized_from(n, *symbol, opt_str_view(language), false, 0)),
{
    if symbol.name.as_str().is_empty() {
        return Err(NormalizeError::EmptySymbolName);
    }
    if symbol.id.as_str().is_empty() {
        return Err(NormalizeError::EmptySymbolId);
    }
    let qualified = build_qualified_name(symbol.name.as_str(), opt_as_str(&symbol.scope));
    let lang = match language {
        Some(l) => Some(l.to_owned()),
        None => None,
    };
    Ok(NormalizedSymbol {
        id: symbol.id.clone(),
        name: symbol.name.clone(),
        kind: symbol.kind.clone(),
        qualified_name: qualified,
        file_path: symbol.file_path.clone(),
        start_line: symbol.start_line,
        end_line: symbol.end_line,
        signature: copy_opt_string(&symbol.signature),
        language: lang,
        is_overloaded: false,
        overload_index: 0,
    })
}

/// A symbol that normalization accepts: non-empty name and id.
pub open spec fn is_valid_symbol(s: Symbol) -> bool {
    s.name@.len() > 0 && s.id@.len() > 0
}

/// The accepted symbols, in input order.
pub open spec fn valid_symbols(s: Seq<Symbol>) -> Seq<Symbol>
    decreases s.len(),
{
    if s.len() == 0 {
        Seq::empty()
    } else {
        let p = valid_symbols(s.drop_last());
        if is_valid_symbol(s.last()) {
            p.push(s.last())
        } else {
            p
        }
    }
}

/// Two symbols are overloads of each other: same file, kind and name.
pub open spec fn same_group(a: Symbol, b: Symbol) -> bool {
    a.file_path@ == b.file_path@ && a.kind@ == b.kind@ && a.name@ == b.name@
}

/// Symbol `j` comes before symbol `i` within a group: by start line, then
/// end line, then input position.
pub open spec fn precedes(v: Seq<Symbol>, j: int, i: int) -> bool {
    ||| v[j].start_line < v[i].start_line
    ||| v[j].start_line == v[i].start_line && v[j].end_line < v[i].end_line
    ||| v[j].start_line == v[i].start_line && v[j].end_line == v[i].end_line && j < i
}

/// The number of symbols among the first `n` that share the group of `i`.
pub open spec fn group_size(v: Seq<Symbol>, i: int, n: int) -> nat
    decreases n,
{
    if n <= 0 {
        0
    } else {
        group_size(v, i, n - 1) + if same_group(v[n - 1], v[i]) { 1nat } else { 0nat }
    }
}

/// The number of symbols among the first `n` in the group of `i` that come
/// before it: its overload index.
pub open spec fn group_rank(v: Seq<Symbol>, i: int, n: int) -> nat
    decreases n,
{
    if n <= 0 {
        0
    } else {
        group_rank(v, i, n - 1) + if same_group(v[n - 1], v[i]) && precedes(v, n - 1, i) { 1nat } else { 0nat }
    }
}

/// The position of the first symbol at or after `j` in the group of `i`.
pub open spec fn group_first(v: Seq<Symbol>, i: int, j: int) -> int
    decreases v.len() - j,
{
    if j < 0 || j >= v.len() {
        v.len() as int
    } else if same_group(v[j], v[i]) {
        j
    } else {
        group_first(v, i, j + 1)
    }
}

/// The sort key of accepted symbol `i`: file path, start line, then the
/// position of its group's first symbol and its rank in the group (which
/// keep groups together, in the order in which they first appear).
pub open spec fn symbol_order_key(v: Seq<Symbol>, i: int) -> KeyView {
    KeyView {
        t1: v[i].file_path@,
        n1: v[i].start_line as int,
        n2: group_first(v, i, 0),
        t2: Seq::empty(),
        n3: group_rank(v, i, v.len() as int) as int,
    }
}

/// The keys of all accepted symbols.
pub open spec fn symbol_order_keys(v: Seq<Symbol>) -> Seq<KeyView> {
    Seq::new(v.len(), |i: int| symbol_order_key(v, i))
}

/// `normalize_symbols`: the accepted symbols (non-empty name and id),
/// normalized, each marked as overloaded when another accepted symbol shares
/// its file, kind and name, with its rank in that group (by start line, end
/// line, input order) as overload index, and sorted by file path and start
/// line (groups kept together in order of first appearance).
pub open spec fn normalize_symbols_ok(
    r: Seq<NormalizedSymbol>,
    symbols: Seq<Symbol>,
    language: Option<Seq<char>>,
) -> bool {
    let v = valid_symbols(symbols);
    let o = stable_order(symbol_order_keys(v), v.len() as int);
    &&& r.len() == v.len()
    &&& forall|k: int| 0 <= k < r.len() ==> normalized_from(
        #[trigger] r[k],
        v[o[k]],
        language,
        group_size(v, o[k], v.len() as int) > 1,
        if group_size(v, o[k], v.len() as int) > 1 { group_rank(v, o[k], v.len() as int) as int } else { 0 },
    )
}

/// Normalized symbols are the accepted symbols, each once, in order of
/// file path, then of start line within a file.
pub proof fn law_normalized_sorted(r: Seq<NormalizedSymbol>, symbols: Seq<Symbol>, language: Option<Seq<char>>)
    requires
        normalize_symbols_ok(r, symbols, language),
    ensures
        exists|perm: Seq<int>| {
            &&& perm.len() == r.len()
            &&& perm.no_duplicates()
            &&& forall|k: int| 0 <= k < r.len() ==> 0 <= #[trigger] perm[k] < r.len()
                && r[k].id == valid_symbols(symbols)[perm[k]].id
                && r[k].start_line == valid_symbols(symbols)[perm[k]].start_line
        },
        forall|i: int, j: int| 0 <= i < j < r.len() ==> {
            &&& !text_lt((#[trigger] r[j]).file_path@, (#[trigger] r[i]).file_path@)
            &&& r[i].file_path == r[j].file_path ==> r[i].start_line <= r[j].start_line
        },
{
    let v = valid_symbols(symbols);
    let kv = symbol_order_keys(v);
    lemma_stable_order_perm(kv, v.len() as int);
    lemma_stable_order_sorted(kv, v.len() as int);
    let o = stable_order(kv, v.len() as int);
    assert forall|k: int| 0 <= k < r.len() implies 0 <= #[trigger] o[k] < r.len()
        && r[k].id == v[o[k]].id && r[k].start_line == v[o[k]].start_line by {}
    assert forall|i: int, j: int| 0 <= i < j < r.len() implies {
        &&& !text_lt((#[trigger] r[j]).file_path@, (#[trigger] r[i]).file_path@)
        &&& r[i].file_path == r[j].file_path ==> r[i].start_line <= r[j].start_line
    } by {
        assert(!key_gt(kv[o[i]], kv[o[j]]));
        assert(kv[o[i]] == symbol_order_key(v, o[i]));
        assert(kv[o[j]] == symbol_order_key(v, o[j]));
        crate::order::lemma_text_order(v[o[i]].file_path@, v[o[j]].file_path@, v[o[j]].file_path@);
        if r[i].file_path == r[j].file_path {
            assert(r[i].file_path@ == r[j].file_path@);
        }
    }
}

proof fn lemma_rank_order(v: Seq<Symbol>, i: int, j: int, n: int)
    requires
        0 <= i < v.len(),
        0 <= j < v.len(),
        i != j,
        same_group(v[i], v[j]),
        precedes(v, i, j),
        0 <= n <= v.len(),
    ensures
        group_rank(v, j, n) >= group_rank(v, i, n) + if i < n { 1int } else { 0int },
    decreases n,
{
    if n > 0 {
        lemma_rank_order(v, i, j, n - 1);
    }
}

proof fn lemma_group_of_two(v: Seq<Symbol>, i: int, j: int, n: int)
    requires
        0 <= i < v.len(),
        0 <= j < v.len(),
        i != j,
        same_group(v[i], v[j]),
        0 <= n <= v.len(),
    ensures
        group_size(v, i, n) >= (if i < n { 1int } else { 0int }) + (if j < n { 1int } else { 0int }),
    decreases n,
{
    if n > 0 {
        lemma_group_of_two(v, i, j, n - 1);
    }
}

/// Overloads (normalized symbols of one file with the same kind and name)
/// are marked as such, each with its own overload index.
pub proof fn law_overloads_distinct(r: Seq<NormalizedSymbol>, symbols: Seq<Symbol>, language: Option<Seq<char>>)
    requires
        normalize_symbols_ok(r, symbols, language),
    ensures
        forall|a: int, b: int| 0 <= a < b < r.len()
            && (#[trigger] r[a]).file_path@ == (#[trigger] r[b]).file_path@
            && r[a].kind@ == r[b].kind@ && r[a].name@ == r[b].name@
            ==> r[a].is_overloaded && r[b].is_overloaded && r[a].overload_index != r[b].overload_index,
{
    let v = valid_symbols(symbols);
    let kv = symbol_order_keys(v);
    let n = v.len() as int;
    lemma_stable_order_perm(kv, n);
    let o = stable_order(kv, n);
    assert forall|a: int, b: int| 0 <= a < b < r.len()
        && (#[trigger] r[a]).file_path@ == (#[trigger] r[b]).file_path@
        && r[a].kind@ == r[b].kind@ && r[a].name@ == r[b].name@
        implies r[a].is_overloaded && r[b].is_overloaded && r[a].overload_index != r[b].overload_index by {
        let i = o[a];
        let j = o[b];
        assert(i != j);
        assert(same_group(v[i], v[j]));
        lemma_group_of_two(v, i, j, n);
        lemma_group_of_two(v, j, i, n);
        if precedes(v, i, j) {
            lemma_rank_order(v, i, j, n);
        } else {
            assert(precedes(v, j, i));
            lemma_rank_order(v, j, i, n);
        }
    }
}

fn valid_symbols_exec(symbols: &[Symbol]) -> (r: Vec<Symbol>)
    ensures
        r@ == valid_symbols(symbols@),
{
    let mut out: Vec<Symbol> = Vec::new();
    let mut i: usize = 0;
    while i < symbols.len()
        invariant
            i <= symbols.len(),
            out@ == valid_symbols(symbols@.take(i as int)),
        decreases symbols.len() - i,
    {
        assert(symbols@.take(i + 1).drop_last() == symbols@.take(i as int));
        assert(symbols@.take(i + 1).last() == symbols@[i as int]);
        let s = &symbols[i];
        if !s.name.as_str().is_empty() && !s.id.as_str().is_empty() {
            out.push(s.duplicate());
        }
        i += 1;
    }
    assert(symbols@.take(symbols.len() as int) == symbols@);
    out
}

fn same_group_exec(a: &Symbol, b: &Symbol) -> (r: bool)
    ensures
        r == same_group(*a, *b),
{
    a.file_path == b.file_path && a.kind == b.kind && a.name == b.name
}

fn group_stats(v: &Vec<Symbol>, i: usize) -> (r: (usize, usize, usize))
    requires
        i < v.len(),
    ensures
        r.0 == group_size(v@, i as int, v.len() as int),
        r.1 == group_rank(v@, i as int, v.len() as int),
        r.2 == group_first(v@, i as int, 0),
{
    let mut size: usize = 0;
    let mut rank: usize = 0;
    let mut first: usize = v.len();
    let mut j: usize = 0;
    while j < v.len()
        invariant
            i < v.len(),
            j <= v.len(),
            size == group_size(v@, i as int, j as int),
            rank == group_rank(v@, i as int, j as int),
            size <= j,
            rank <= j,
            first == v.len() ==> group_first(v@, i as int, 0) == group_first(v@, i as int, j as int),
            first <= v.len(),
            first < v.len() ==> first == group_first(v@, i as int, 0),
        decreases v.len() - j,
    {
        let vj = &v[j];
        let vi = &v[i];
        if same_group_exec(vj, vi) {
            size += 1;
            if first == v.len() {
                assert(group_first(v@, i as int, j as int) == j);
                first = j;
            }
            let before = vj.start_line < vi.start_line
                || (vj.start_line == vi.start_line && vj.end_line < vi.end_line)
                || (vj.start_line == vi.start_line && vj.end_line == vi.end_line && j < i);
            if before {
                rank += 1;
            }
        } else {
            assert(group_first(v@, i as int, j as int) == group_first(v@, i as int, j + 1));
        }
        j += 1;
    }
    if first == v.len() {
        assert(group_first(v@, i as int, v.len() as int) == v.len());
        assert(group_first(v@, i as int, 0) == v.len());
    } else {
        assert(first == group_first(v@, i as int, 0));
    }
    (size, rank, first)
}

proof fn lemma_valid_symbols_valid(s: Seq<Symbol>)
    ensures
        forall|k: int| 0 <= k < valid_symbols(s).len() ==> is_valid_symbol(#[trigger] valid_symbols(s)[k]),
    decreases s.len(),
{
    if s.len() > 0 {
        lemma_valid_symbols_valid(s.drop_last());
        let p = valid_symbols(s.drop_last());
        if is_valid_symbol(s.last()) {
            assert forall|k: int| 0 <= k < p.push(s.last()).len() implies is_valid_symbol(#[trigger] p.push(s.last())[k]) by {
                if k < p.len() {
                    assert(p.push(s.last())[k] == p[k]);
                }
            }
        }
    }
}

/// Normalizes symbols: drops those with an empty name or id, computes
/// qualified names, marks overloads (same file, kind and name) with their
/// rank by position, and sorts by file path and start line.
pub fn normalize_symbols(symbols: &[Symbol], file_language: Option<&str>) -> (r: Vec<NormalizedSymbol>)
    ensures
        normalize_symbols_ok(r@, symbols@, opt_str_view(file_language)),
{
    let v = valid_symbols_exec(symbols);
    let ghost vv = v@;
    let mut sizes: Vec<usize> = Vec::new();
    let mut ranks: Vec<usize> = Vec::new();
    let mut keys: Vec<SortKey> = Vec::new();
    let mut i: usize = 0;
    while i < v.len()
        invariant
            vv == v@,
            vv == valid_symbols(symbols@),
            i <= v.len(),
            sizes@.len() == i,
            ranks@.len() == i,
            keys@.len() == i,
            forall|k: int| 0 <= k < i ==> sizes@[k] == group_size(vv, k, vv.len() as int),
            forall|k: int| 0 <= k < i ==> ranks@[k] == group_rank(vv, k, vv.len() as int),
            forall|k: int| 0 <= k < i ==> (#[trigger] keys@[k])@ == symbol_order_key(vv, k),
        decreases v.len() - i,
    {
        let (size, rank, first) = group_stats(&v, i);
        sizes.push(size);
        ranks.push(rank);
        let key = SortKey {
            t1: chars_of(v[i].file_path.as_str()),
            n1: v[i].start_line,
            n2: first,
            t2: Vec::new(),
            n3: rank,
        };
        assert(key@.t2 == Seq::<char>::empty());
        keys.push(key);
        i += 1;
    }
    assert(key_views(keys@) == symbol_order_keys(vv));
    let order = stable_order_exec(&keys);
    proof {
        lemma_stable_order_perm(key_views(keys@), keys@.len() as int);
    }
    let ghost o = stable_order(symbol_order_keys(vv), vv.len() as int);
    let mut out: Vec<NormalizedSymbol> = Vec::new();
    let mut k: usize = 0;
    while k < order.len()
        invariant
            vv == v@,
            vv == valid_symbols(symbols@),
            order@.len() == v.len(),
            sizes@.len() == v.len(),
            ranks@.len() == v.len(),
            o.len() == v.len(),
            forall|m: int| 0 <= m < o.len() ==> 0 <= #[trigger] o[m] < o.len(),
            forall|m: int| 0 <= m < order@.len() ==> order@[m] as int == #[trigger] o[m],
            forall|m: int| 0 <= m < v.len() ==> sizes@[m] == group_size(vv, m, vv.len() as int),
            forall|m: int| 0 <= m < v.len() ==> ranks@[m] == group_rank(vv, m, vv.len() as int),
            o == stable_order(symbol_order_keys(vv), vv.len() as int),
            k <= order.len(),
            out@.len() == k,
            forall|m: int| 0 <= m < k ==> normalized_from(
                #[trigger] out@[m],
                vv[o[m]],
                opt_str_view(file_language),
                group_size(vv, o[m], vv.len() as int) > 1,
                if group_size(vv, o[m], vv.len() as int) > 1 { group_rank(vv, o[m], vv.len() as int) as int } else { 0 },
            ),
        decreases order.len() - k,
    {
        let idx = order[k];
        assert(idx as int == o[k as int]);
        proof {
            lemma_valid_symbols_valid(symbols@);
            assert(is_valid_symbol(vv[idx as int]));
        }
        let r0 = normalize_symbol(&v[idx], file_language);
        match r0 {
            Ok(mut n) => {
                let over = sizes[idx] > 1;
                n.is_overloaded = over;
                n.overload_index = if over { ranks[idx] } else { 0 };
                out.push(n);
            },
            Err(_) => {
                // accepted symbols always normalize
                assert(false);
            },
        }
        k += 1;
    }
    out
}

} // verus!

verus! {

// ---------------------------------------------------------------------------
// Import edges
// ---------------------------------------------------------------------------

/// The parts of an import edge that normalization refines.
pub struct ImportShape {
    pub to_module: Seq<char>,
    pub imported_symbol: Option<Seq<char>>,
    pub alias: Option<Seq<char>>,
    pub import_kind: Seq<char>,
    pub resolved: bool,
}

/// The refinable parts of an edge.
pub open spec fn shape_of(e: ImportEdge) -> ImportShape {
    ImportShape {
        to_module: e.to_module@,
        imported_symbol: opt_view(e.imported_symbol),
        alias: opt_view(e.alias),
        import_kind: e.import_kind@,
        resolved: e.resolved,
    }
}

/// `r` keeps the identity, file and location of `e` and has the given shape.
pub open spec fn edge_with(r: ImportEdge, e: ImportEdge, sh: ImportShape) -> bool {
    &&& r.id == e.id
    &&& r.from_file == e.from_file
    &&& r.location == e.location
    &&& shape_of(r) == sh
}

/// `s` without the prefix `p` when it has it.
pub open spec fn strip_prefix_or_self(s: Seq<char>, p: Seq<char>) -> Seq<char> {
    if starts_with(s, p) { s.skip(p.len() as int) } else { s }
}

/// The body of an import statement: trimmed, without a leading `import `,
/// without trailing `;`s, trimmed again.
pub open spec fn import_statement_body(text: Seq<char>) -> Seq<char> {
    trim(trim_end_matches(trim(strip_prefix_or_self(trim(text), "import "@)), ";"@))
}

/// A Rust import refers to a local module: it mentions `crate::`, `self::`,
/// `super::`, `./` or `../`.
pub open spec fn is_local_rust_module(raw: Seq<char>) -> bool {
    contains(raw, "crate::"@) || contains(raw, "self::"@) || contains(raw, "super::"@)
        || contains(raw, "./"@) || contains(raw, "../"@)
}

/// A module path is relative: it starts with `./` or `../`.
pub open spec fn is_local_relative_import(text: Seq<char>) -> bool {
    starts_with(text, "./"@) || starts_with(text, "../"@)
}

/// The path of a Rust `use` without `pub`, `use`, `;` and surrounding space.
pub open spec fn rust_import_body(raw: Seq<char>) -> Seq<char> {
    let trimmed = trim(raw);
    let import_body = if starts_with(trimmed, "pub"@) { strip_prefix_or_self(trimmed, "pub "@) } else { trimmed };
    trim(trim_end_matches(trim(strip_prefix_or_self(import_body, "use "@)), ";"@))
}

/// The refined shape of a Rust import: a glob (`::*`) is a namespace import
/// of the path before it; `a::b as c` names `b` with alias `c`; otherwise
/// the last segment is the imported symbol of the path before it, as a
/// re-export when the text starts with `pub`.
pub open spec fn rust_import_shape(raw: Seq<char>) -> ImportShape {
    let is_reexport = starts_with(trim(raw), "pub"@);
    let body = rust_import_body(raw);
    let resolved = is_local_rust_module(raw);
    if ends_with(body, "::*"@) {
        ImportShape {
            to_module: trim(body.take(body.len() - 3)),
            imported_symbol: None,
            alias: None,
            import_kind: "namespace"@,
            resolved,
        }
    } else {
        match rfind(body, " as "@) {
            Some(idx) => {
                let m = trim(body.take(idx));
                ImportShape {
                    to_module: m,
                    imported_symbol: Some(last_segment(m, "::"@)),
                    alias: Some(trim(body.skip(idx + 4))),
                    import_kind: "named"@,
                    resolved,
                }
            },
            None => {
                let parts = split(body, "::"@);
                ImportShape {
                    to_module: if parts.len() > 1 { join(parts.drop_last(), "::"@) } else { body },
                    imported_symbol: if parts.len() > 1 { Some(parts.last()) } else { None },
                    alias: None,
                    import_kind: if is_reexport { "reexport"@ } else { "named"@ },
                    resolved,
                }
            },
        }
    }
}

/// The refined shape of a Java import: `static` imports and plain ones name
/// the part after the last `.` within the part before it.
pub open spec fn java_import_shape(to_module: Seq<char>) -> ImportShape {
    let body = import_statement_body(to_module);
    let rest = if starts_with(body, "static "@) { body.skip(7) } else { body };
    match rfind(rest, "."@) {
        Some(pos) => ImportShape {
            to_module: rest.take(pos),
            imported_symbol: Some(rest.skip(pos + 1)),
            alias: None,
            import_kind: "named"@,
            resolved: false,
        },
        None => ImportShape {
            to_module: rest,
            imported_symbol: None,
            alias: None,
            import_kind: "named"@,
            resolved: false,
        },
    }
}

/// `s` is enclosed in the quote character `q` (a lone `q` counts).
pub open spec fn enclosed_in(s: Seq<char>, q: Seq<char>) -> bool {
    starts_with(s, q) && ends_with(s, q)
}

/// A Go import body in double quotes or backquotes.
pub open spec fn go_quoted(body: Seq<char>) -> bool {
    enclosed_in(body, "\""@) || enclosed_in(body, "`"@)
}

/// The refined shape of a Go import: the unquoted path, relative when it
/// starts with `./` or `../`.
pub open spec fn go_import_shape(to_module: Seq<char>) -> ImportShape {
    let body = import_statement_body(to_module);
    let m = if go_quoted(body) { body.subrange(1, body.len() - 1) } else { body };
    ImportShape {
        to_module: m,
        imported_symbol: None,
        alias: None,
        import_kind: "named"@,
        resolved: is_local_relative_import(m),
    }
}

/// Normalizing this Go import would slice a lone quote character.
pub open spec fn go_import_panics(to_module: Seq<char>) -> bool {
    let body = import_statement_body(to_module);
    go_quoted(body) && body.len() == 1
}

/// A TypeScript module text in double or single quotes.
pub open spec fn ts_quoted(s: Seq<char>) -> bool {
    enclosed_in(s, "\""@) || enclosed_in(s, "'"@)
}

/// The module named after `from`: trimmed, without trailing `;`s, unquoted.
pub open spec fn ts_module(s: Seq<char>) -> Seq<char> {
    let t = trim(trim_end_matches(trim(s), ";"@));
    if ts_quoted(t) { t.subrange(1, t.len() - 1) } else { t }
}

/// Extracting the module would slice a lone quote character.
pub open spec fn ts_module_panics(s: Seq<char>) -> bool {
    let t = trim(trim_end_matches(trim(s), ";"@));
    ts_quoted(t) && t.len() == 1
}

/// The text between `import ` and a final `;`, trimmed, when the import has
/// that form.
pub open spec fn ts_import_content(raw: Seq<char>) -> Option<Seq<char>> {
    let trimmed = trim(raw);
    if starts_with(trimmed, "import "@) && ends_with(trimmed.skip(7), ";"@) {
        Some(trim(trimmed.skip(7).take(trimmed.len() - 8)))
    } else {
        None
    }
}

/// The namespace form `* as alias from "module"`, when `content` has it.
pub open spec fn ts_namespace_shape(content: Seq<char>) -> Option<ImportShape> {
    if starts_with(content, "* as "@) {
        let rest = content.skip(5);
        match find(rest, " from "@) {
            Some(fp) => {
                let m = ts_module(rest.skip(fp + 6));
                Some(ImportShape {
                    to_module: m,
                    imported_symbol: None,
                    alias: Some(trim(rest.take(fp))),
                    import_kind: "namespace"@,
                    resolved: is_local_relative_import(m),
                })
            },
            None => None,
        }
    } else {
        None
    }
}

/// The refined shape of a TypeScript/JavaScript import, or `None` when the
/// text is not one of the recognised forms (side effect, namespace, default,
/// named with braces).
pub open spec fn ts_import_shape(raw: Seq<char>) -> Option<ImportShape> {
    match ts_import_content(raw) {
        None => None,
        Some(content) => if ts_quoted(content) {
            Some(ImportShape {
                to_module: content.subrange(1, content.len() - 1),
                imported_symbol: None,
                alias: None,
                import_kind: "side_effect"@,
                resolved: is_local_relative_import(content),
            })
        } else if ts_namespace_shape(content) is Some {
            ts_namespace_shape(content)
        } else {
            match find(content, " from "@) {
                None => None,
                Some(fp) => {
                    let before = trim(content.take(fp));
                    let m = ts_module(content.skip(fp + 6));
                    if !starts_with(before, "{"@) && !starts_with(before, "*"@) {
                        Some(ImportShape {
                            to_module: m,
                            imported_symbol: Some("default"@),
                            alias: Some(before),
                            import_kind: "default"@,
                            resolved: is_local_relative_import(m),
                        })
                    } else if starts_with(before, "{"@) && ends_with(before.skip(1), "}"@) {
                        let syms = trim(before.skip(1).take(before.len() - 2));
                        match rfind(syms, " as "@) {
                            Some(idx) => Some(ImportShape {
                                to_module: m,
                                imported_symbol: Some(trim(syms.take(idx))),
                                alias: Some(trim(syms.skip(idx + 4))),
                                import_kind: "named"@,
                                resolved: is_local_relative_import(m),
                            }),
                            None => Some(ImportShape {
                                to_module: m,
                                imported_symbol: if syms.len() == 0 { None } else { Some(syms) },
                                alias: None,
                                import_kind: "named"@,
                                resolved: is_local_relative_import(m),
                            }),
                        }
                    } else {
                        None
                    }
                },
            }
        },
    }
}

/// Normalizing this TypeScript import would slice a lone quote character.
pub open spec fn ts_import_panics(raw: Seq<char>) -> bool {
    match ts_import_content(raw) {
        None => false,
        Some(content) => if ts_quoted(content) {
            content.len() == 1
        } else if starts_with(content, "* as "@) && find(content.skip(5), " from "@) is Some {
            ts_module_panics(content.skip(5).skip(find(content.skip(5), " from "@)->0 + 6))
        } else {
            match find(content, " from "@) {
                None => false,
                Some(fp) => ts_module_panics(content.skip(fp + 6)),
            }
        },
    }
}

/// Normalizing an import of `language` with this text would slice a lone
/// quote character (the one input on which it panics).
pub open spec fn import_panics(raw: Seq<char>, language: Seq<char>) -> bool {
    if language == "typescript"@ || language == "javascript"@ {
        ts_import_panics(raw)
    } else if language == "go"@ {
        go_import_panics(raw)
    } else {
        false
    }
}

/// The normalized shape of an import edge of `language`, or `None` when it
/// is kept as it is.
pub open spec fn import_shape(raw: Seq<char>, language: Seq<char>) -> Option<ImportShape> {
    if language == "rust"@ {
        Some(rust_import_shape(raw))
    } else if language == "typescript"@ || language == "javascript"@ {
        ts_import_shape(raw)
    } else if language == "java"@ {
        Some(java_import_shape(raw))
    } else if language == "go"@ {
        Some(go_import_shape(raw))
    } else {
        None
    }
}

proof fn lemma_ts_module_quoted(m: Seq<char>, q: char)
    requires
        q == '\'' || q == '"',
    ensures
        ts_module(seq![q] + m + seq![q]) == m,
{
    reveal_strlit("'");
    reveal_strlit("\"");
    reveal_strlit(";");
    let t = seq![q] + m + seq![q];
    assert(t[0] == q);
    assert(t.last() == q);
    lemma_trim_keeps(t);
    assert(!ends_with(t, ";"@)) by {
        assert(t.subrange(t.len() - 1, t.len() as int)[0] == q);
    }
    assert(trim_end_matches(t, ";"@) == t);
    assert(ts_quoted(t)) by {
        if q == '\'' {
            assert(t.subrange(0, 1) =~= "'"@);
            assert(t.subrange(t.len() - 1, t.len() as int) =~= "'"@);
        } else {
            assert(t.subrange(0, 1) =~= "\""@);
            assert(t.subrange(t.len() - 1, t.len() as int) =~= "\""@);
        }
    }
    assert(t.subrange(1, t.len() - 1) =~= m);
}

proof fn lemma_ts_side_effect(m: Seq<char>, q: char)
    requires
        q == '\'' || q == '"',
    ensures
        ts_import_shape("import "@ + seq![q] + m + seq![q] + ";"@) == Some(ImportShape {
            to_module: m,
            imported_symbol: None,
            alias: None,
            import_kind: "side_effect"@,
            resolved: false,
        }),
{
    reveal_strlit("import ");
    reveal_strlit(";");
    reveal_strlit("'");
    reveal_strlit("\"");
    let qm = seq![q] + m + seq![q];
    let raw = "import "@ + seq![q] + m + seq![q] + ";"@;
    assert(raw =~= "import "@ + qm + ";"@);
    assert(raw[0] == 'i');
    assert(raw.last() == ';');
    lemma_trim_keeps(raw);
    assert(raw.subrange(0, 7) =~= "import "@);
    assert(raw.skip(7) =~= qm + ";"@);
    assert(raw.skip(7).subrange(raw.skip(7).len() - 1, raw.skip(7).len() as int) =~= ";"@);
    assert(raw.skip(7).take(raw.len() - 8) =~= qm);
    assert(qm[0] == q && qm.last() == q);
    lemma_trim_keeps(qm);
    assert(ts_import_content(raw) == Some(qm));
    assert(ts_quoted(qm)) by {
        if q == '\'' {
            assert(qm.subrange(0, 1) =~= "'"@);
            assert(qm.subrange(qm.len() - 1, qm.len() as int) =~= "'"@);
        } else {
            assert(qm.subrange(0, 1) =~= "\""@);
            assert(qm.subrange(qm.len() - 1, qm.len() as int) =~= "\""@);
        }
    }
    assert(qm.subrange(1, qm.len() - 1) =~= m);
    assert(!is_local_relative_import(qm)) by {
        reveal_strlit("./");
        reveal_strlit("../");
        if qm.len() >= 2 {
            assert(qm.subrange(0, 2)[0] == q);
        }
        if qm.len() >= 3 {
            assert(qm.subrange(0, 3)[0] == q);
        }
    }
}

proof fn lemma_ts_default(m: Seq<char>, x: Seq<char>, q: char)
    requires
        q == '\'' || q == '"',
        x.len() > 0,
        forall|i: int| 0 <= i < x.len() ==> !is_ws(#[trigger] x[i]),
        x[0] != '{' && x[0] != '*' && x[0] != '\'' && x[0] != '"',
    ensures
        ts_import_shape("import "@ + x + " from "@ + seq![q] + m + seq![q] + ";"@) == Some(ImportShape {
            to_module: m,
            imported_symbol: Some("default"@),
            alias: Some(x),
            import_kind: "default"@,
            resolved: starts_with(m, "./"@) || starts_with(m, "../"@),
        }),
{
    reveal_strlit("import ");
    reveal_strlit(" from ");
    reveal_strlit(";");
    reveal_strlit("'");
    reveal_strlit("\"");
    reveal_strlit("* as ");
    reveal_strlit("{");
    reveal_strlit("*");
    let qm = seq![q] + m + seq![q];
    let content = x + " from "@ + qm;
    let raw = "import "@ + x + " from "@ + seq![q] + m + seq![q] + ";"@;
    assert(raw =~= "import "@ + content + ";"@);
    assert(raw[0] == 'i');
    assert(raw.last() == ';');
    lemma_trim_keeps(raw);
    assert(raw.subrange(0, 7) =~= "import "@);
    assert(raw.skip(7) =~= content + ";"@);
    assert(raw.skip(7).subrange(raw.skip(7).len() - 1, raw.skip(7).len() as int) =~= ";"@);
    assert(raw.skip(7).take(raw.len() - 8) =~= content);
    assert(content[0] == x[0]);
    assert(content.last() == q);
    lemma_trim_keeps(content);
    assert(ts_import_content(raw) == Some(content));
    assert(!ts_quoted(content)) by {
        assert(content.subrange(0, 1)[0] == x[0]);
    }
    assert(!starts_with(content, "* as "@)) by {
        if content.len() >= 5 {
            assert(content.subrange(0, 5)[0] == x[0]);
        }
    }
    assert(ts_namespace_shape(content) is None);
    let n = x.len() as int;
    assert(content.subrange(n, n + 6) =~= " from "@);
    assert forall|j: int| 0 <= j < n implies !matches_at(content, " from "@, j) by {
        if matches_at(content, " from "@, j) {
            assert(content.subrange(j, j + 6)[0] == content[j]);
            assert(content[j] == x[j]);
            assert(is_ws(' '));
        }
    }
    lemma_find_first_at(content, " from "@, n);
    assert(content.take(n) =~= x);
    lemma_trim_keeps(x);
    assert(content.skip(n + 6) =~= qm);
    lemma_ts_module_quoted(m, q);
    assert(!starts_with(x, "{"@)) by { assert(x.subrange(0, 1)[0] == x[0]); }
    assert(!starts_with(x, "*"@)) by { assert(x.subrange(0, 1)[0] == x[0]); }
}

proof fn lemma_braces_find_from(x: Seq<char>, rest: Seq<char>)
    requires
        x.len() > 0,
        forall|i: int| 0 <= i < x.len() ==> !is_ws(#[trigger] x[i]),
        x != "from"@,
    ensures
        find(seq!['{', ' '] + x + seq![' ', '}'] + " from "@ + rest, " from "@) == Some(x.len() + 4int),
{
    reveal_strlit(" from ");
    reveal_strlit("from");
    let n = x.len() as int;
    let content = seq!['{', ' '] + x + seq![' ', '}'] + " from "@ + rest;
    let fp = n + 4;
    assert(content.subrange(fp, fp + 6) =~= " from "@);
    assert(is_ws(' '));
    assert forall|j: int| 0 <= j < fp implies !matches_at(content, " from "@, j) by {
        if matches_at(content, " from "@, j) {
            let w = content.subrange(j, j + 6);
            assert(w[0] == content[j]);
            if j == 0 {
                assert(content[0] == '{');
            } else if j == 1 {
                if n >= 5 {
                    assert(w[5] == content[6]);
                    assert(content[6] == x[4]);
                } else if n == 4 {
                    assert(content.subrange(2, 6) =~= x);
                    assert(w.subrange(1, 5) =~= "from"@);
                    assert(content.subrange(2, 6) =~= w.subrange(1, 5));
                } else {
                    assert(w[n + 1] == content[n + 2]);
                    assert(content[n + 2] == ' ');
                }
            } else if j < n + 2 {
                assert(content[j] == x[j - 2]);
            } else if j == n + 2 {
                assert(w[1] == content[n + 3]);
                assert(content[n + 3] == '}');
            } else {
                assert(content[j] == '}');
            }
        }
    }
    lemma_find_first_at(content, " from "@, fp);
}

proof fn lemma_braced_names(x: Seq<char>)
    requires
        x.len() > 0,
        forall|i: int| 0 <= i < x.len() ==> !is_ws(#[trigger] x[i]),
    ensures
        ({
            let before = seq!['{', ' '] + x + seq![' ', '}'];
            &&& trim(before) == before
            &&& starts_with(before, "{"@)
            &&& ends_with(before.skip(1), "}"@)
            &&& trim(before.skip(1).take(before.len() - 2)) == x
            &&& rfind(x, " as "@) is None
        }),
{
    reveal_strlit("{");
    reveal_strlit("}");
    reveal_strlit(" as ");
    let before = seq!['{', ' '] + x + seq![' ', '}'];
    assert(before[0] == '{' && before.last() == '}');
    lemma_trim_keeps(before);
    assert(before.subrange(0, 1) =~= "{"@);
    assert(before.skip(1) =~= seq![' '] + x + seq![' ', '}']);
    assert(before.skip(1).subrange(before.skip(1).len() - 1, before.skip(1).len() as int) =~= "}"@);
    let inner = before.skip(1).take(before.len() - 2);
    assert(inner =~= seq![' '] + x + seq![' ']);
    assert(is_ws(' '));
    assert(inner.drop_first() =~= x + seq![' ']);
    let xs = x + seq![' '];
    assert(xs[0] == x[0]);
    assert(trim_start(xs) == xs);
    assert(trim_start(inner) == xs);
    assert(xs.drop_last() =~= x);
    lemma_trim_keeps(x);
    assert(trim_end(xs) == x);
    if rfind(x, " as "@) is Some {
        lemma_rfind_is_match(x, " as "@);
        let i = rfind(x, " as "@)->0;
        assert(x.subrange(i, i + 4)[0] == x[i]);
    }
}

proof fn lemma_ts_named(m: Seq<char>, x: Seq<char>, q: char)
    requires
        q == '\'' || q == '"',
        x.len() > 0,
        forall|i: int| 0 <= i < x.len() ==> !is_ws(#[trigger] x[i]),
        x != "from"@,
    ensures
        ts_import_shape("import { "@ + x + " } from "@ + seq![q] + m + seq![q] + ";"@) == Some(ImportShape {
            to_module: m,
            imported_symbol: Some(x),
            alias: None,
            import_kind: "named"@,
            resolved: starts_with(m, "./"@) || starts_with(m, "../"@),
        }),
{
    reveal_strlit("import ");
    reveal_strlit("import { ");
    reveal_strlit(" } from ");
    reveal_strlit(" from ");
    reveal_strlit(";");
    reveal_strlit("'");
    reveal_strlit("\"");
    reveal_strlit("* as ");
    reveal_strlit("{");
    reveal_strlit("*");
    let qm = seq![q] + m + seq![q];
    let n = x.len() as int;
    let before = seq!['{', ' '] + x + seq![' ', '}'];
    let content = before + " from "@ + qm;
    let raw = "import { "@ + x + " } from "@ + seq![q] + m + seq![q] + ";"@;
    assert(raw =~= "import "@ + content + ";"@);
    assert(raw[0] == 'i');
    assert(raw.last() == ';');
    lemma_trim_keeps(raw);
    assert(raw.subrange(0, 7) =~= "import "@);
    assert(raw.skip(7) =~= content + ";"@);
    assert(raw.skip(7).subrange(raw.skip(7).len() - 1, raw.skip(7).len() as int) =~= ";"@);
    assert(raw.skip(7).take(raw.len() - 8) =~= content);
    assert(content[0] == '{');
    assert(content.last() == q);
    lemma_trim_keeps(content);
    assert(ts_import_content(raw) == Some(content));
    assert(!ts_quoted(content)) by {
        assert(content.subrange(0, 1)[0] == '{');
    }
    assert(!starts_with(content, "* as "@)) by {
        assert(content.subrange(0, 5)[0] == '{');
    }
    assert(ts_namespace_shape(content) is None);
    lemma_braces_find_from(x, qm);
    assert(content =~= seq!['{', ' '] + x + seq![' ', '}'] + " from "@ + qm);
    assert(content.take(n + 4) =~= before);
    assert(content.skip(n + 4 + 6) =~= qm);
    lemma_ts_module_quoted(m, q);
    lemma_braced_names(x);
}

/// A TypeScript or JavaScript import names its module in double or in
/// single quotes alike: the normalized module is the text between the
/// quotes. A side-effect import `import 'm';` gives the module `m`; a
/// default import `import x from 'm';` gives the module `m`, the symbol
/// `default` under the alias `x`, and is resolved exactly when `m` is a
/// relative path (`./` or `../`); a named import `import { x } from 'm';`
/// gives the module `m` and the symbol `x`, resolved in the same way.
pub proof fn law_ts_quoted_modules(m: Seq<char>, x: Seq<char>, q: char)
    requires
        q == '\'' || q == '"',
        x.len() > 0,
        forall|i: int| 0 <= i < x.len() ==> !is_ws(#[trigger] x[i]),
        x[0] != '{' && x[0] != '*' && x[0] != '\'' && x[0] != '"',
    ensures
        import_shape("import "@ + seq![q] + m + seq![q] + ";"@, "typescript"@) == Some(ImportShape {
            to_module: m,
            imported_symbol: None,
            alias: None,
            import_kind: "side_effect"@,
            resolved: false,
        }),
        import_shape("import "@ + x + " from "@ + seq![q] + m + seq![q] + ";"@, "typescript"@) == Some(ImportShape {
            to_module: m,
            imported_symbol: Some("default"@),
            alias: Some(x),
            import_kind: "default"@,
            resolved: starts_with(m, "./"@) || starts_with(m, "../"@),
        }),
        x != "from"@ ==> import_shape("import { "@ + x + " } from "@ + seq![q] + m + seq![q] + ";"@, "typescript"@) == Some(ImportShape {
            to_module: m,
            imported_symbol: Some(x),
            alias: None,
            import_kind: "named"@,
            resolved: starts_with(m, "./"@) || starts_with(m, "../"@),
        }),
{
    reveal_strlit("typescript");
    reveal_strlit("rust");
    assert("typescript"@.len() != "rust"@.len());
    assert("typescript"@ != "rust"@);
    lemma_ts_side_effect(m, q);
    lemma_ts_default(m, x, q);
    if x != "from"@ {
        lemma_ts_named(m, x, q);
    }
}


} // verus!

verus! {

fn strip_prefix_or_self_exec(s: &[char], p: &str) -> (r: Vec<char>)
    ensures
        r@ == strip_prefix_or_self(s@, p@),
{
    let pc = chars_of(p);
    if starts_with_exec(s, pc.as_slice()) {
        assert(s@.subrange(pc.len() as int, s@.len() as int) == s@.skip(pc@.len() as int));
        slice_range(s, pc.len(), s.len())
    } else {
        slice_range(s, 0, s.len())
    }
}

fn trim_end_str(s: &[char], p: &str) -> (r: Vec<char>)
    ensures
        r@ == trim_end_matches(s@, p@),
{
    let pc = chars_of(p);
    trim_end_matches_exec(s, pc.as_slice())
}

fn starts_str(s: &[char], p: &str) -> (r: bool)
    ensures
        r == starts_with(s@, p@),
{
    let pc = chars_of(p);
    starts_with_exec(s, pc.as_slice())
}

fn ends_str(s: &[char], p: &str) -> (r: bool)
    ensures
        r == ends_with(s@, p@),
{
    let pc = chars_of(p);
    ends_with_exec(s, pc.as_slice())
}

fn contains_str(s: &[char], p: &str) -> (r: bool)
    ensures
        r == contains(s@, p@),
{
    let pc = chars_of(p);
    contains_exec(s, pc.as_slice())
}

fn find_str(s: &[char], p: &str) -> (r: Option<usize>)
    ensures
        r matches Some(i) ==> find(s@, p@) == Some(i as int) && i + p@.len() <= s@.len(),
        r is None ==> find(s@, p@) is None,
{
    let pc = chars_of(p);
    let r = find_exec(s, pc.as_slice());
    if r.is_some() {
        proof {
            lemma_find_is_match(s@, p@);
        }
    }
    r
}

fn rfind_str(s: &[char], p: &str) -> (r: Option<usize>)
    ensures
        r matches Some(i) ==> rfind(s@, p@) == Some(i as int) && i + p@.len() <= s@.len(),
        r is None ==> rfind(s@, p@) is None,
{
    let pc = chars_of(p);
    let r = rfind_exec(s, pc.as_slice());
    if r.is_some() {
        proof {
            lemma_rfind_is_match(s@, p@);
        }
    }
    r
}

fn import_statement_body_exec(text: &[char]) -> (r: Vec<char>)
    ensures
        r@ == import_statement_body(text@),
{
    let t = trim_chars(text);
    let a = strip_prefix_or_self_exec(t.as_slice(), "import ");
    let b = trim_chars(a.as_slice());
    let c = trim_end_str(b.as_slice(), ";");
    trim_chars(c.as_slice())
}

fn is_local_rust_module_exec(raw: &[char]) -> (r: bool)
    ensures
        r == is_local_rust_module(raw@),
{
    contains_str(raw, "crate::") || contains_str(raw, "self::") || contains_str(raw, "super::")
        || contains_str(raw, "./") || contains_str(raw, "../")
}

fn is_local_relative_import_exec(text: &[char]) -> (r: bool)
    ensures
        r == is_local_relative_import(text@),
{
    starts_str(text, "./") || starts_str(text, "../")
}

fn opt_string_of(v: Option<Vec<char>>) -> (r: Option<String>)
    ensures
        opt_view(r) == match v { Some(x) => Some(x@), None => None::<Seq<char>> },
{
    match v {
        Some(x) => Some(string_of(x.as_slice())),
        None => None,
    }
}

fn edge_from(
    edge: &ImportEdge,
    to_module: Vec<char>,
    imported_symbol: Option<Vec<char>>,
    alias: Option<Vec<char>>,
    kind: &str,
    resolved: bool,
) -> (r: ImportEdge)
    ensures
        edge_with(r, *edge, ImportShape {
            to_module: to_module@,
            imported_symbol: match imported_symbol { Some(x) => Some(x@), None => None },
            alias: match alias { Some(x) => Some(x@), None => None },
            import_kind: kind@,
            resolved,
        }),
{
    ImportEdge {
        id: edge.id.clone(),
        from_file: edge.from_file.clone(),
        to_module: string_of(to_module.as_slice()),
        imported_symbol: opt_string_of(imported_symbol),
        alias: opt_string_of(alias),
        import_kind: kind.to_owned(),
        location: edge.location,
        resolved,
    }
}

/// Normalizes a raw Rust `use` edge.
fn normalize_rust_import(edge: &ImportEdge, raw: &str) -> (r: ImportEdge)
    ensures
        edge_with(r, *edge, rust_import_shape(raw@)),
{
    let raw_c = chars_of(raw);
    let trimmed = trim_chars(raw_c.as_slice());
    let is_reexport = starts_str(trimmed.as_slice(), "pub");
    let import_body = if is_reexport {
        strip_prefix_or_self_exec(trimmed.as_slice(), "pub ")
    } else {
        slice_range(trimmed.as_slice(), 0, trimmed.len())
    };
    assert(trimmed@.subrange(0, trimmed@.len() as int) == trimmed@);
    let b0 = strip_prefix_or_self_exec(import_body.as_slice(), "use ");
    let b1 = trim_chars(b0.as_slice());
    let b2 = trim_end_str(b1.as_slice(), ";");
    let body = trim_chars(b2.as_slice());
    assert(body@ == rust_import_body(raw@));
    let resolved = is_local_rust_module_exec(raw_c.as_slice());

    if ends_str(body.as_slice(), "::*") {
        proof {
            reveal_strlit("::*");
        }
        assert("::*"@.len() == 3);
        let head = slice_range(body.as_slice(), 0, body.len() - 3);
        assert(body@.subrange(0, body@.len() - 3) == body@.take(body@.len() - 3));
        let module = trim_chars(head.as_slice());
        return edge_from(edge, module, None, None, "namespace", resolved);
    }

    if let Some(idx) = rfind_str(body.as_slice(), " as ") {
        proof {
            reveal_strlit(" as ");
        }
        assert(" as "@.len() == 4);
        assert(idx + 4 <= body@.len());
        let mp = slice_range(body.as_slice(), 0, idx);
        assert(body@.subrange(0, idx as int) == body@.take(idx as int));
        let module_part = trim_chars(mp.as_slice());
        let blen = body.len();
        let start: usize = idx + 4;
        let ap = slice_range(body.as_slice(), start, blen);
        assert(body@.subrange(idx + 4, body@.len() as int) == body@.skip(idx + 4));
        let alias_part = trim_chars(ap.as_slice());
        let colons = chars_of("::");
        let symbol = last_segment_exec(module_part.as_slice(), colons.as_slice());
        let mp2 = slice_range(module_part.as_slice(), 0, module_part.len());
        assert(module_part@.subrange(0, module_part@.len() as int) == module_part@);
        return edge_from(edge, mp2, Some(symbol), Some(alias_part), "named", resolved);
    }

    let colons = chars_of("::");
    let parts = split_exec(body.as_slice(), colons.as_slice());
    let ghost pv = parts@.map_values(|v: Vec<char>| v@);
    let kind = if is_reexport { "reexport" } else { "named" };
    if parts.len() > 1 {
        let mut init: Vec<Vec<char>> = Vec::new();
        let mut k: usize = 0;
        while k < parts.len() - 1
            invariant
                parts.len() > 1,
                k <= parts.len() - 1,
                pv == parts@.map_values(|v: Vec<char>| v@),
                init@.map_values(|v: Vec<char>| v@) == pv.take(k as int),
            decreases parts.len() - 1 - k,
        {
            init.push(slice_range(parts[k].as_slice(), 0, parts[k].len()));
            assert(parts@[k as int]@.subrange(0, parts@[k as int]@.len() as int) == parts@[k as int]@);
            assert(pv.take(k + 1) == pv.take(k as int).push(pv[k as int]));
            k += 1;
        }
        assert(pv.take(parts.len() - 1) == pv.drop_last());
        let module = join_exec(&init, colons.as_slice());
        let last = slice_range(parts[parts.len() - 1].as_slice(), 0, parts[parts.len() - 1].len());
        assert(parts@[parts.len() - 1]@.subrange(0, parts@[parts.len() - 1]@.len() as int) == pv.last());
        edge_from(edge, module, Some(last), None, kind, resolved)
    } else {
        edge_from(edge, body, None, None, kind, resolved)
    }
}

/// Normalizes a raw Java `import` edge.
fn normalize_java_import(edge: &ImportEdge) -> (r: ImportEdge)
    ensures
        edge_with(r, *edge, java_import_shape(edge.to_module@)),
{
    let text = chars_of(edge.to_module.as_str());
    let body = import_statement_body_exec(text.as_slice());
    let rest = if starts_str(body.as_slice(), "static ") {
        proof {
            reveal_strlit("static ");
        }
        assert("static "@.len() == 7);
        assert(body@.subrange(7, body@.len() as int) == body@.skip(7));
        slice_range(body.as_slice(), 7, body.len())
    } else {
        assert(body@.subrange(0, body@.len() as int) == body@);
        slice_range(body.as_slice(), 0, body.len())
    };
    match rfind_str(rest.as_slice(), ".") {
        Some(pos) => {
            proof {
                reveal_strlit(".");
            }
            assert("."@.len() == 1);
            let m = slice_range(rest.as_slice(), 0, pos);
            let s = slice_range(rest.as_slice(), pos + 1, rest.len());
            assert(rest@.subrange(0, pos as int) == rest@.take(pos as int));
            assert(rest@.subrange(pos + 1, rest@.len() as int) == rest@.skip(pos + 1));
            edge_from(edge, m, Some(s), None, "named", false)
        },
        None => edge_from(edge, rest, None, None, "named", false),
    }
}

/// Normalizes a raw Go `import` edge.
fn normalize_go_import(edge: &ImportEdge) -> (r: ImportEdge)
    requires
        !go_import_panics(edge.to_module@),
    ensures
        edge_with(r, *edge, go_import_shape(edge.to_module@)),
{
    let text = chars_of(edge.to_module.as_str());
    let body = import_statement_body_exec(text.as_slice());
    let quoted = (starts_str(body.as_slice(), "\"") && ends_str(body.as_slice(), "\""))
        || (starts_str(body.as_slice(), "`") && ends_str(body.as_slice(), "`"));
    let m = if quoted {
        proof {
            reveal_strlit("\"");
            reveal_strlit("`");
        }
        slice_range(body.as_slice(), 1, body.len() - 1)
    } else {
        slice_range(body.as_slice(), 0, body.len())
    };
    assert(body@.subrange(0, body@.len() as int) == body@);
    let resolved = is_local_relative_import_exec(m.as_slice());
    edge_from(edge, m, None, None, "named", resolved)
}

fn ts_quoted_exec(s: &[char]) -> (r: bool)
    ensures
        r == ts_quoted(s@),
{
    (starts_str(s, "\"") && ends_str(s, "\"")) || (starts_str(s, "'") && ends_str(s, "'"))
}

fn ts_module_exec(s: &[char]) -> (r: Vec<char>)
    requires
        !ts_module_panics(s@),
    ensures
        r@ == ts_module(s@),
{
    let a = trim_chars(s);
    let b = trim_end_str(a.as_slice(), ";");
    let t = trim_chars(b.as_slice());
    if ts_quoted_exec(t.as_slice()) {
        proof {
            reveal_strlit("\"");
            reveal_strlit("'");
        }
        slice_range(t.as_slice(), 1, t.len() - 1)
    } else {
        assert(t@.subrange(0, t@.len() as int) == t@);
        slice_range(t.as_slice(), 0, t.len())
    }
}

fn ts_import_content_exec(raw: &[char]) -> (r: Option<Vec<char>>)
    ensures
        r matches Some(c) ==> ts_import_content(raw@) == Some(c@),
        r is None ==> ts_import_content(raw@) is None,
{
    let trimmed = trim_chars(raw);
    if starts_str(trimmed.as_slice(), "import ") {
        proof {
            reveal_strlit("import ");
        }
        let s1 = slice_range(trimmed.as_slice(), 7, trimmed.len());
        assert(trimmed@.subrange(7, trimmed@.len() as int) == trimmed@.skip(7));
        if ends_str(s1.as_slice(), ";") {
            proof {
                reveal_strlit(";");
            }
            let s2 = slice_range(s1.as_slice(), 0, s1.len() - 1);
            assert(s1@.subrange(0, s1@.len() - 1) == trimmed@.skip(7).take(trimmed@.len() - 8));
            return Some(trim_chars(s2.as_slice()));
        }
    }
    None
}

/// Normalizes a raw TypeScript/JavaScript `import` edge; an import of an
/// unrecognised form is kept as it is.
fn normalize_ts_import(edge: &ImportEdge, raw: &str) -> (r: ImportEdge)
    requires
        !ts_import_panics(raw@),
    ensures
        ts_import_shape(raw@) matches Some(sh) ==> edge_with(r, *edge, sh),
        ts_import_shape(raw@) is None ==> r == *edge,
{
    let raw_c = chars_of(raw);
    let content = match ts_import_content_exec(raw_c.as_slice()) {
        Some(c) => c,
        None => {
            return edge.duplicate();
        },
    };

    if ts_quoted_exec(content.as_slice()) {
        proof {
            reveal_strlit("\"");
            reveal_strlit("'");
        }
        let m = slice_range(content.as_slice(), 1, content.len() - 1);
        let resolved = is_local_relative_import_exec(content.as_slice());
        return edge_from(edge, m, None, None, "side_effect", resolved);
    }

    if starts_str(content.as_slice(), "* as ") {
        proof {
            reveal_strlit("* as ");
        }
        let rest = slice_range(content.as_slice(), 5, content.len());
        assert(content@.subrange(5, content@.len() as int) == content@.skip(5));
        if let Some(fp) = find_str(rest.as_slice(), " from ") {
            proof {
                reveal_strlit(" from ");
            }
            assert(" from "@.len() == 6);
            let al = slice_range(rest.as_slice(), 0, fp);
            assert(rest@.subrange(0, fp as int) == rest@.take(fp as int));
            let alias = trim_chars(al.as_slice());
            let tail = slice_range(rest.as_slice(), fp + 6, rest.len());
            assert(rest@.subrange(fp + 6, rest@.len() as int) == rest@.skip(fp + 6));
            let m = ts_module_exec(tail.as_slice());
            let resolved = is_local_relative_import_exec(m.as_slice());
            return edge_from(edge, m, None, Some(alias), "namespace", resolved);
        }
    }
    assert(ts_namespace_shape(content@) is None);

    match find_str(content.as_slice(), " from ") {
        None => edge.duplicate(),
        Some(fp) => {
            proof {
                reveal_strlit(" from ");
            }
            assert(" from "@.len() == 6);
            assert(fp + 6 <= content@.len());
            let bf = slice_range(content.as_slice(), 0, fp);
            assert(content@.subrange(0, fp as int) == content@.take(fp as int));
            let before = trim_chars(bf.as_slice());
            let clen = content.len();
            let start: usize = fp + 6;
            let tail = slice_range(content.as_slice(), start, clen);
            assert(content@.subrange(fp + 6, content@.len() as int) == content@.skip(fp + 6));
            let m = ts_module_exec(tail.as_slice());
            let resolved = is_local_relative_import_exec(m.as_slice());
            let open_brace = starts_str(before.as_slice(), "{");
            if !open_brace && !starts_str(before.as_slice(), "*") {
                let dflt = chars_of("default");
                return edge_from(edge, m, Some(dflt), Some(before), "default", resolved);
            }
            if open_brace {
                proof {
                    reveal_strlit("{");
                }
                let inner0 = slice_range(before.as_slice(), 1, before.len());
                assert(before@.subrange(1, before@.len() as int) == before@.skip(1));
                if ends_str(inner0.as_slice(), "}") {
                    proof {
                        reveal_strlit("}");
                    }
                    let inner = slice_range(inner0.as_slice(), 0, inner0.len() - 1);
                    assert(inner0@.subrange(0, inner0@.len() - 1) == before@.skip(1).take(before@.len() - 2));
                    let syms = trim_chars(inner.as_slice());
                    match rfind_str(syms.as_slice(), " as ") {
                        Some(idx) => {
                            proof {
                                reveal_strlit(" as ");
                            }
                            assert(" as "@.len() == 4);
                            let sp = slice_range(syms.as_slice(), 0, idx);
                            assert(syms@.subrange(0, idx as int) == syms@.take(idx as int));
                            let sym = trim_chars(sp.as_slice());
                            let slen = syms.len();
                            let start: usize = idx + 4;
                            let ap = slice_range(syms.as_slice(), start, slen);
                            assert(syms@.subrange(idx + 4, syms@.len() as int) == syms@.skip(idx + 4));
                            let al = trim_chars(ap.as_slice());
                            return edge_from(edge, m, Some(sym), Some(al), "named", resolved);
                        },
                        None => {
                            let imported = if syms.len() == 0 { None } else { Some(syms) };
                            return edge_from(edge, m, imported, None, "named", resolved);
                        },
                    }
                }
            }
            edge.duplicate()
        },
    }
}

/// Refines a raw import edge of the given language: the module path, the
/// imported symbol, the alias, the import kind (`named`, `default`,
/// `namespace`, `side_effect` or `reexport`) and whether the module is
/// local. Languages other than Rust, TypeScript, JavaScript, Java and Go,
/// and imports of an unrecognised form, are kept as they are.
pub fn normalize_import(edge: &ImportEdge, language: &str) -> (r: ImportEdge)
    requires
        !import_panics(edge.to_module@, language@),
    ensures
        import_shape(edge.to_module@, language@) matches Some(sh) ==> edge_with(r, *edge, sh),
        import_shape(edge.to_module@, language@) is None ==> r == *edge,
{
    let lang = chars_of(language);
    let rust = chars_of("rust");
    let ts = chars_of("typescript");
    let js = chars_of("javascript");
    let java = chars_of("java");
    let go = chars_of("go");
    if crate::text::seq_eq(lang.as_slice(), rust.as_slice()) {
        normalize_rust_import(edge, edge.to_module.as_str())
    } else if crate::text::seq_eq(lang.as_slice(), ts.as_slice()) || crate::text::seq_eq(lang.as_slice(), js.as_slice()) {
        normalize_ts_import(edge, edge.to_module.as_str())
    } else if crate::text::seq_eq(lang.as_slice(), java.as_slice()) {
        normalize_java_import(edge)
    } else if crate::text::seq_eq(lang.as_slice(), go.as_slice()) {
        normalize_go_import(edge)
    } else {
        edge.duplicate()
    }
}

fn ts_module_panics_exec(s: &[char]) -> (r: bool)
    ensures
        r == ts_module_panics(s@),
{
    let a = trim_chars(s);
    let b = trim_end_str(a.as_slice(), ";");
    let t = trim_chars(b.as_slice());
    ts_quoted_exec(t.as_slice()) && t.len() == 1
}

fn ts_import_panics_exec(raw: &[char]) -> (r: bool)
    ensures
        r == ts_import_panics(raw@),
{
    let content = match ts_import_content_exec(raw) {
        None => {
            return false;
        },
        Some(c) => c,
    };
    if ts_quoted_exec(content.as_slice()) {
        return content.len() == 1;
    }
    if starts_str(content.as_slice(), "* as ") {
        proof {
            reveal_strlit("* as ");
        }
        let rest = slice_range(content.as_slice(), 5, content.len());
        assert(content@.subrange(5, content@.len() as int) == content@.skip(5));
        match find_str(rest.as_slice(), " from ") {
            Some(fp) => {
                proof {
                    reveal_strlit(" from ");
                }
                assert(" from "@.len() == 6);
                let rl = rest.len();
                assert(fp + 6 <= rl);
                let start: usize = fp + 6;
                let tail = slice_range(rest.as_slice(), start, rl);
                assert(rest@.subrange(start as int, rl as int) == rest@.skip(fp + 6));
                return ts_module_panics_exec(tail.as_slice());
            },
            None => {},
        }
    }
    match find_str(content.as_slice(), " from ") {
        None => false,
        Some(fp) => {
            proof {
                reveal_strlit(" from ");
            }
            assert(" from "@.len() == 6);
            let cl = content.len();
            assert(fp + 6 <= cl);
            let start: usize = fp + 6;
            let tail = slice_range(content.as_slice(), start, cl);
            assert(content@.subrange(start as int, cl as int) == content@.skip(fp + 6));
            ts_module_panics_exec(tail.as_slice())
        },
    }
}

/// Whether normalizing this import of `language` is refused: the one input
/// on which the refinement would slice a lone quote character.
pub fn import_refused(edge: &ImportEdge, language: &str) -> (r: bool)
    ensures
        r == import_panics(edge.to_module@, language@),
{
    let lang = chars_of(language);
    let ts = chars_of("typescript");
    let js = chars_of("javascript");
    let go = chars_of("go");
    let raw = chars_of(edge.to_module.as_str());
    if crate::text::seq_eq(lang.as_slice(), ts.as_slice()) || crate::text::seq_eq(lang.as_slice(), js.as_slice()) {
        ts_import_panics_exec(raw.as_slice())
    } else if crate::text::seq_eq(lang.as_slice(), go.as_slice()) {
        let body = import_statement_body_exec(raw.as_slice());
        let quoted = (starts_str(body.as_slice(), "\"") && ends_str(body.as_slice(), "\""))
            || (starts_str(body.as_slice(), "`") && ends_str(body.as_slice(), "`"));
        quoted && body.len() == 1
    } else {
        false
    }
}

} // verus!
