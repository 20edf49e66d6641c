//! What the strategies share: the order in which symbols are taken, the
//! grouping of consecutive symbols, and the texts of line ranges.
use vstd::prelude::*;
use crate::domain::types::{ChunkView, Symbol};
use crate::order::{
    KeyView, SortKey, key_gt, key_views, lemma_stable_order_perm, lemma_stable_order_sorted, stable_order, stable_order_exec,
};
use crate::text::chars_of;

verus! {

/// The key symbols are sorted by: start line, end line, id.
pub open spec fn symbol_key(s: Symbol) -> KeyView {
    KeyView { t1: Seq::empty(), n1: s.start_line as int, n2: s.end_line as int, t2: s.id@, n3: 0 }
}

/// The symbols stably sorted by start line, end line and id.
pub open spec fn sorted_symbols(syms: Seq<Symbol>) -> Seq<Symbol> {
    let o = stable_order(syms.map_values(|s: Symbol| symbol_key(s)), syms.len() as int);
    Seq::new(o.len(), |k: int| syms[o[k]])
}

/// Sorting a list of symbols is a permutation of it.
pub proof fn lemma_sorted_symbols_perm(syms: Seq<Symbol>)
    ensures
        sorted_symbols(syms).len() == syms.len(),
        forall|k: int| 0 <= k < syms.len() ==> exists|j: int| 0 <= j < syms.len() && #[trigger] sorted_symbols(syms)[k] == syms[j],
{
    let kv = syms.map_values(|s: Symbol| symbol_key(s));
    lemma_stable_order_perm(kv, syms.len() as int);
    let o = stable_order(kv, syms.len() as int);
    assert forall|k: int| 0 <= k < syms.len() implies exists|j: int| 0 <= j < syms.len() && #[trigger] sorted_symbols(syms)[k] == syms[j] by {
        assert(0 <= o[k] < syms.len());
        assert(sorted_symbols(syms)[k] == syms[o[k]]);
    }
}

/// Sorted symbols come in order of start line, then of end line.
pub proof fn law_sorted_symbols_ordered(syms: Seq<Symbol>)
    ensures
        forall|i: int, j: int| 0 <= i < j < sorted_symbols(syms).len() ==> {
            let a = #[trigger] sorted_symbols(syms)[i];
            let b = #[trigger] sorted_symbols(syms)[j];
            &&& a.start_line <= b.start_line
            &&& a.start_line == b.start_line ==> a.end_line <= b.end_line
        },
{
    let kv = syms.map_values(|s: Symbol| symbol_key(s));
    lemma_stable_order_perm(kv, syms.len() as int);
    lemma_stable_order_sorted(kv, syms.len() as int);
    let o = stable_order(kv, syms.len() as int);
    assert forall|i: int, j: int| 0 <= i < j < sorted_symbols(syms).len() implies {
        let a = #[trigger] sorted_symbols(syms)[i];
        let b = #[trigger] sorted_symbols(syms)[j];
        &&& a.start_line <= b.start_line
        &&& a.start_line == b.start_line ==> a.end_line <= b.end_line
    } by {
        assert(!key_gt(kv[o[i]], kv[o[j]]));
        assert(kv[o[i]] == symbol_key(syms[o[i]]));
        assert(kv[o[j]] == symbol_key(syms[o[j]]));
    }
}

/// The symbols sorted by start line, end line and id; symbols with equal
/// keys keep their order.
pub fn sort_symbols(syms: &Vec<Symbol>) -> (r: Vec<Symbol>)
    ensures
        r@ == sorted_symbols(syms@),
{
    let mut keys: Vec<SortKey> = Vec::new();
    let mut i: usize = 0;
    while i < syms.len()
        invariant
            i <= syms.len(),
            keys@.len() == i,
            forall|k: int| 0 <= k < i ==> (#[trigger] keys@[k])@ == symbol_key(syms@[k]),
        decreases syms.len() - i,
    {
        let key = SortKey { t1: Vec::new(), n1: syms[i].start_line, n2: syms[i].end_line, t2: chars_of(syms[i].id.as_str()), n3: 0 };
        assert(key@.t1 =~= Seq::<char>::empty());
        keys.push(key);
        i += 1;
    }
    let ghost kv = syms@.map_values(|s: Symbol| symbol_key(s));
    assert(key_views(keys@) =~= kv);
    let order = stable_order_exec(&keys);
    proof {
        lemma_stable_order_perm(kv, syms@.len() as int);
    }
    let ghost o = stable_order(kv, syms@.len() as int);
    let mut out: Vec<Symbol> = Vec::new();
    let mut k: usize = 0;
    while k < order.len()
        invariant
            k <= order.len(),
            order@.len() == syms@.len(),
            o.len() == syms@.len(),
            forall|j: int| 0 <= j < order@.len() ==> order@[j] as int == #[trigger] o[j],
            forall|j: int| 0 <= j < o.len() ==> 0 <= #[trigger] o[j] < syms@.len(),
            out@ =~= Seq::new(k as nat, |j: int| syms@[o[j]]),
        decreases order.len() - k,
    {
        let idx = order[k];
        assert(o[k as int] == idx as int);
        out.push(syms[idx].duplicate());
        assert(out@ =~= Seq::new((k + 1) as nat, |j: int| syms@[o[j]]));
        k += 1;
    }
    out
}

/// A group of consecutive symbols and the lines it covers.
pub struct GroupView {
    pub ids: Seq<Seq<char>>,
    pub start: int,
    pub end: int,
}

/// The state of a grouping pass: the groups closed so far and the group
/// being built, with its line range.
pub struct Fold {
    pub done: Seq<GroupView>,
    pub cur: Seq<Seq<char>>,
    pub start: int,
    pub end: int,
}

/// Nothing grouped yet.
pub open spec fn empty_fold() -> Fold {
    Fold { done: Seq::empty(), cur: Seq::empty(), start: 0, end: 0 }
}

/// The closed groups followed by the open one, if it holds a symbol.
pub open spec fn close_groups(f: Fold) -> Seq<GroupView> {
    if f.cur.len() > 0 {
        f.done.push(GroupView { ids: f.cur, start: f.start, end: f.end })
    } else {
        f.done
    }
}

/// Closes the open group.
pub open spec fn flush(f: Fold) -> Fold {
    Fold { done: close_groups(f), cur: Seq::empty(), start: f.start, end: f.end }
}

/// Opens a group with one symbol.
pub open spec fn begin(f: Fold, s: Symbol) -> Fold {
    Fold { done: f.done, cur: seq![s.id@], start: s.start_line as int, end: s.end_line as int }
}

/// Adds a symbol to the open group, which then ends at `end`.
pub open spec fn extend(f: Fold, s: Symbol, end: int) -> Fold {
    Fold { done: f.done, cur: f.cur.push(s.id@), start: f.start, end }
}

/// The number of lines from `start` to `end`, at least one.
pub open spec fn span(start: int, end: int) -> int {
    (if end >= start { end - start } else { 0 }) + 1
}

/// The larger of two numbers.
pub open spec fn max_of(a: int, b: int) -> int {
    if a >= b { a } else { b }
}

/// Line numbers stay below the largest `usize`: no file has that many lines.
pub open spec fn lines_in_range(syms: Seq<Symbol>) -> bool {
    forall|k: int| 0 <= k < syms.len() ==> (#[trigger] syms[k]).end_line < usize::MAX && syms[k].start_line < usize::MAX
}

/// The lines from `start` to `end`, at least one (`saturating_sub + 1`).
pub fn span_exec(start: usize, end: usize) -> (r: usize)
    requires
        end < usize::MAX,
    ensures
        r == span(start as int, end as int),
{
    (if end >= start { end - start } else { 0 }) + 1
}

/// The ids of a sequence of groups, one group after another.
pub open spec fn concat_ids(gs: Seq<GroupView>) -> Seq<Seq<char>>
    decreases gs.len(),
{
    if gs.len() == 0 {
        Seq::empty()
    } else {
        concat_ids(gs.drop_last()) + gs.last().ids
    }
}

/// The symbol ids of a sequence of chunks, one chunk after another.
pub open spec fn chunk_symbol_ids(cs: Seq<ChunkView>) -> Seq<Seq<char>>
    decreases cs.len(),
{
    if cs.len() == 0 {
        Seq::empty()
    } else {
        chunk_symbol_ids(cs.drop_last()) + cs.last().symbol_ids
    }
}

/// The ids of symbols, in order.
pub open spec fn symbol_ids(syms: Seq<Symbol>) -> Seq<Seq<char>> {
    syms.map_values(|s: Symbol| s.id@)
}

/// A grouping state that accounts for the given ids: the closed groups
/// and then the open one hold them in order, and no closed group is empty.
pub open spec fn fold_holds(f: Fold, ids: Seq<Seq<char>>) -> bool {
    &&& concat_ids(f.done) + f.cur == ids
    &&& forall|i: int| 0 <= i < f.done.len() ==> (#[trigger] f.done[i]).ids.len() > 0
}

/// Closing the open group keeps the ids in order and adds no empty group.
pub proof fn lemma_close_groups_holds(f: Fold, ids: Seq<Seq<char>>)
    requires
        fold_holds(f, ids),
    ensures
        concat_ids(close_groups(f)) == ids,
        fold_holds(flush(f), ids),
        forall|i: int| 0 <= i < close_groups(f).len() ==> (#[trigger] close_groups(f)[i]).ids.len() > 0,
{
    if f.cur.len() > 0 {
        let d = close_groups(f);
        assert(d.drop_last() == f.done);
    } else {
        assert(f.cur =~= Seq::<Seq<char>>::empty());
        assert(concat_ids(f.done) + f.cur =~= concat_ids(f.done));
    }
    assert(flush(f).cur =~= Seq::<Seq<char>>::empty());
    assert(concat_ids(flush(f).done) + flush(f).cur =~= concat_ids(flush(f).done));
}

/// Each shape a grouping step can take keeps the ids in order, the next
/// symbol's id last.
pub proof fn lemma_step_holds(f: Fold, s: Symbol, ids: Seq<Seq<char>>, end: int)
    requires
        fold_holds(f, ids),
    ensures
        f.cur.len() == 0 ==> fold_holds(begin(f, s), ids.push(s.id@)),
        f.cur.len() == 0 ==> fold_holds(flush(begin(f, s)), ids.push(s.id@)),
        fold_holds(begin(flush(f), s), ids.push(s.id@)),
        fold_holds(flush(begin(flush(f), s)), ids.push(s.id@)),
        fold_holds(extend(f, s, end), ids.push(s.id@)),
{
    lemma_close_groups_holds(f, ids);
    let one: Seq<Seq<char>> = seq![s.id@];
    if f.cur.len() == 0 {
        assert(concat_ids(f.done) =~= ids) by {
            assert(concat_ids(f.done) + f.cur =~= concat_ids(f.done));
        }
        assert(concat_ids(begin(f, s).done) + begin(f, s).cur =~= ids.push(s.id@));
        lemma_close_groups_holds(begin(f, s), ids.push(s.id@));
    }
    let g = flush(f);
    assert(concat_ids(g.done) == ids);
    assert(concat_ids(begin(g, s).done) + begin(g, s).cur =~= ids.push(s.id@));
    lemma_close_groups_holds(begin(g, s), ids.push(s.id@));
    assert(concat_ids(extend(f, s, end).done) + extend(f, s, end).cur =~= (concat_ids(f.done) + f.cur).push(s.id@));
}

/// The ids of the chunks made of groups, one chunk per group with the
/// group's ids, are the groups' ids.
pub proof fn lemma_chunk_ids_of_groups(gs: Seq<GroupView>, cs: Seq<ChunkView>)
    requires
        cs.len() == gs.len(),
        forall|i: int| 0 <= i < gs.len() ==> (#[trigger] cs[i]).symbol_ids == gs[i].ids,
    ensures
        chunk_symbol_ids(cs) == concat_ids(gs),
    decreases gs.len(),
{
    if gs.len() > 0 {
        lemma_chunk_ids_of_groups(gs.drop_last(), cs.drop_last());
        assert(cs.last().symbol_ids == gs.last().ids);
    }
}

} // verus!
