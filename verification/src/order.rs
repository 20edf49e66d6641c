//! Lexicographic ordering of text and a stable sort by composite keys.
use vstd::prelude::*;

verus! {

/// `a` comes strictly before `b` in the order of `String`'s `Ord`
/// (lexicographic by code point, which is the byte order of UTF-8).
pub open spec fn text_lt(a: Seq<char>, b: Seq<char>) -> bool
    decreases a.len(),
{
    if a.len() == 0 {
        b.len() > 0
    } else if b.len() == 0 {
        false
    } else if a[0] < b[0] {
        true
    } else if a[0] > b[0] {
        false
    } else {
        text_lt(a.drop_first(), b.drop_first())
    }
}

/// Compares two texts: negative, zero or positive as `a` is before, equal
/// to or after `b`.
pub fn compare_text(a: &[char], b: &[char]) -> (r: i8)
    ensures
        r < 0 <==> text_lt(a@, b@),
        r == 0 <==> a@ == b@,
        r > 0 <==> text_lt(b@, a@),
{
    let mut i: usize = 0;
    assert(a@.skip(0) == a@);
    assert(b@.skip(0) == b@);
    while i < a.len() && i < b.len()
        invariant
            i <= a.len(),
            i <= b.len(),
            a@.take(i as int) == b@.take(i as int),
            text_lt(a@, b@) == text_lt(a@.skip(i as int), b@.skip(i as int)),
            text_lt(b@, a@) == text_lt(b@.skip(i as int), a@.skip(i as int)),
        decreases a.len() - i,
    {
        let x = a[i];
        let y = b[i];
        assert(a@.skip(i as int)[0] == a@[i as int]);
        assert(b@.skip(i as int)[0] == b@[i as int]);
        if x < y {
            assert(a@[i as int] != b@[i as int]);
            assert(a@.skip(i as int) != b@.skip(i as int));
            return -1;
        }
        if x > y {
            assert(a@[i as int] != b@[i as int]);
            return 1;
        }
        assert(x == y);
        assert(a@.skip(i as int).drop_first() == a@.skip(i + 1));
        assert(b@.skip(i as int).drop_first() == b@.skip(i + 1));
        assert(a@.take(i + 1) == a@.take(i as int).push(a@[i as int]));
        assert(b@.take(i + 1) == b@.take(i as int).push(b@[i as int]));
        i += 1;
    }
    if a.len() == b.len() {
        assert(a@.take(i as int) == a@);
        assert(b@.take(i as int) == b@);
        assert(a@.skip(i as int).len() == 0);
        assert(b@.skip(i as int).len() == 0);
        0
    } else if i == a.len() {
        assert(a@.skip(i as int).len() == 0);
        assert(a@.len() != b@.len());
        -1
    } else {
        assert(b@.skip(i as int).len() == 0);
        assert(a@.len() != b@.len());
        1
    }
}

/// A composite sort key: a text, two numbers, a text and a number, compared
/// in that order.
pub struct SortKey {
    pub t1: Vec<char>,
    pub n1: usize,
    pub n2: usize,
    pub t2: Vec<char>,
    pub n3: usize,
}

/// The mathematical value of a sort key.
pub struct KeyView {
    pub t1: Seq<char>,
    pub n1: int,
    pub n2: int,
    pub t2: Seq<char>,
    pub n3: int,
}

impl View for SortKey {
    type V = KeyView;

    open spec fn view(&self) -> KeyView {
        KeyView { t1: self.t1@, n1: self.n1 as int, n2: self.n2 as int, t2: self.t2@, n3: self.n3 as int }
    }
}

/// The key `a` is strictly greater than `b`.
pub open spec fn key_gt(a: KeyView, b: KeyView) -> bool {
    if a.t1 != b.t1 {
        text_lt(b.t1, a.t1)
    } else if a.n1 != b.n1 {
        a.n1 > b.n1
    } else if a.n2 != b.n2 {
        a.n2 > b.n2
    } else if a.t2 != b.t2 {
        text_lt(b.t2, a.t2)
    } else {
        a.n3 > b.n3
    }
}

/// The views of a sequence of keys.
pub open spec fn key_views(keys: Seq<SortKey>) -> Seq<KeyView> {
    keys.map_values(|k: SortKey| k@)
}

/// Whether key `a` is strictly greater than key `b`.
pub fn key_gt_exec(a: &SortKey, b: &SortKey) -> (r: bool)
    ensures
        r == key_gt(a@, b@),
{
    let c1 = compare_text(a.t1.as_slice(), b.t1.as_slice());
    if c1 != 0 {
        return c1 > 0;
    }
    if a.n1 != b.n1 {
        return a.n1 > b.n1;
    }
    if a.n2 != b.n2 {
        return a.n2 > b.n2;
    }
    let c2 = compare_text(a.t2.as_slice(), b.t2.as_slice());
    if c2 != 0 {
        return c2 > 0;
    }
    a.n3 > b.n3
}

/// The first position at or after `k` in `order` whose key is greater than
/// the key of `x`.
pub open spec fn ins_pos(keys: Seq<KeyView>, order: Seq<int>, x: int, k: int) -> int
    decreases order.len() - k,
{
    if k >= order.len() || k < 0 {
        order.len() as int
    } else if key_gt(keys[order[k]], keys[x]) {
        k
    } else {
        ins_pos(keys, order, x, k + 1)
    }
}

/// The positions `0..n` of `keys` in stably sorted order: each next
/// position is inserted after every earlier one whose key is not greater.
pub open spec fn stable_order(keys: Seq<KeyView>, n: int) -> Seq<int>
    decreases n,
{
    if n <= 0 {
        Seq::empty()
    } else {
        let o = stable_order(keys, n - 1);
        o.insert(ins_pos(keys, o, n - 1, 0), n - 1)
    }
}

proof fn lemma_ins_pos_bounds(keys: Seq<KeyView>, order: Seq<int>, x: int, k: int)
    requires
        0 <= k <= order.len(),
    ensures
        k <= ins_pos(keys, order, x, k) <= order.len(),
    decreases order.len() - k,
{
    if k < order.len() && !key_gt(keys[order[k]], keys[x]) {
        lemma_ins_pos_bounds(keys, order, x, k + 1);
    }
}

/// Whether an order takes position `j`.
pub open spec fn order_takes(o: Seq<int>, j: int) -> bool {
    exists|k: int| 0 <= k < o.len() && o[k] == j
}

/// Every position below `n` is taken by the stable order.
pub proof fn lemma_stable_order_onto(keys: Seq<KeyView>, n: int)
    requires
        0 <= n,
    ensures
        forall|j: int| 0 <= j < n ==> #[trigger] order_takes(stable_order(keys, n), j),
{
    let o = stable_order(keys, n);
    lemma_stable_order_perm(keys, n);
    o.unique_seq_to_set();
    vstd::seq_lib::seq_to_set_is_finite(o);
    vstd::set_lib::lemma_int_range(0, n);
    let range = vstd::set_lib::set_int_range(0, n);
    assert forall|x: int| o.to_set().contains(x) implies range.contains(x) by {
        let k = choose|k: int| 0 <= k < o.len() && o[k] == x;
        assert(0 <= o[k] < n);
    }
    vstd::set_lib::lemma_subset_equality(o.to_set(), range);
    assert forall|j: int| 0 <= j < n implies #[trigger] order_takes(o, j) by {
        assert(range.contains(j));
        assert(o.to_set().contains(j));
        assert(o.contains(j));
    }
}

/// Lemma: `stable_order(keys, n)` has `n` entries, each in `0..n`, none
/// repeated.
pub proof fn lemma_stable_order_perm(keys: Seq<KeyView>, n: int)
    requires
        0 <= n,
    ensures
        stable_order(keys, n).len() == n,
        forall|k: int| 0 <= k < n ==> 0 <= #[trigger] stable_order(keys, n)[k] < n,
        stable_order(keys, n).no_duplicates(),
    decreases n,
{
    if n > 0 {
        lemma_stable_order_perm(keys, n - 1);
        let o = stable_order(keys, n - 1);
        lemma_ins_pos_bounds(keys, o, n - 1, 0);
        let p = ins_pos(keys, o, n - 1, 0);
        let o2 = o.insert(p, n - 1);
        assert forall|k: int| 0 <= k < n implies 0 <= #[trigger] o2[k] < n by {
            if k < p {
                assert(o2[k] == o[k]);
            } else if k > p {
                assert(o2[k] == o[k - 1]);
            }
        }
        assert forall|i: int, j: int| 0 <= i < o2.len() && 0 <= j < o2.len() && i != j implies o2[i] != o2[j] by {
            if i != p && j != p {
                let ii = if i < p { i } else { i - 1 };
                let jj = if j < p { j } else { j - 1 };
                assert(o2[i] == o[ii]);
                assert(o2[j] == o[jj]);
            } else if i == p {
                let jj = if j < p { j } else { j - 1 };
                assert(o2[j] == o[jj]);
            } else {
                let ii = if i < p { i } else { i - 1 };
                assert(o2[i] == o[ii]);
            }
        }
    }
}

proof fn lemma_text_lt_irrefl(a: Seq<char>)
    ensures
        !text_lt(a, a),
    decreases a.len(),
{
    if a.len() > 0 {
        lemma_text_lt_irrefl(a.drop_first());
    }
}

proof fn lemma_text_lt_trans(a: Seq<char>, b: Seq<char>, c: Seq<char>)
    requires
        text_lt(a, b),
        text_lt(b, c),
    ensures
        text_lt(a, c),
    decreases a.len(),
{
    if a.len() > 0 && b.len() > 0 && c.len() > 0 && a[0] == b[0] && b[0] == c[0] {
        lemma_text_lt_trans(a.drop_first(), b.drop_first(), c.drop_first());
    }
}

proof fn lemma_text_lt_total(a: Seq<char>, b: Seq<char>)
    requires
        a != b,
    ensures
        text_lt(a, b) || text_lt(b, a),
    decreases a.len(),
{
    if a.len() > 0 && b.len() > 0 && a[0] == b[0] {
        if a.drop_first() == b.drop_first() {
            assert(a =~= seq![a[0]] + a.drop_first());
            assert(b =~= seq![b[0]] + b.drop_first());
        }
        lemma_text_lt_total(a.drop_first(), b.drop_first());
    } else if a.len() == 0 && b.len() == 0 {
        assert(a =~= b);
    }
}

/// `text_lt` is a strict total order: irreflexive, transitive, and any two
/// different texts are ordered one way.
pub proof fn lemma_text_order(a: Seq<char>, b: Seq<char>, c: Seq<char>)
    ensures
        !text_lt(a, a),
        text_lt(a, b) && text_lt(b, c) ==> text_lt(a, c),
        a != b ==> text_lt(a, b) || text_lt(b, a),
        text_lt(a, b) ==> !text_lt(b, a),
{
    lemma_text_lt_irrefl(a);
    if text_lt(a, b) && text_lt(b, c) {
        lemma_text_lt_trans(a, b, c);
    }
    if a != b {
        lemma_text_lt_total(a, b);
    }
    if text_lt(a, b) && text_lt(b, a) {
        lemma_text_lt_trans(a, b, a);
    }
}

proof fn lemma_key_order(a: KeyView, b: KeyView, c: KeyView)
    ensures
        !key_gt(a, a),
        key_gt(a, b) && key_gt(b, c) ==> key_gt(a, c),
        a != b ==> key_gt(a, b) || key_gt(b, a),
        key_gt(a, b) ==> !key_gt(b, a),
{
    lemma_text_order(a.t1, b.t1, c.t1);
    lemma_text_order(c.t1, b.t1, a.t1);
    lemma_text_order(b.t1, a.t1, c.t1);
    lemma_text_order(a.t2, b.t2, c.t2);
    lemma_text_order(c.t2, b.t2, a.t2);
    lemma_text_order(b.t2, a.t2, c.t2);
}

proof fn lemma_ins_pos_min(keys: Seq<KeyView>, order: Seq<int>, x: int, k: int, m: int)
    requires
        0 <= k <= m < ins_pos(keys, order, x, k),
        ins_pos(keys, order, x, k) <= order.len(),
    ensures
        !key_gt(keys[order[m]], keys[x]),
    decreases m - k,
{
    if k < m {
        if !key_gt(keys[order[k]], keys[x]) {
            lemma_ins_pos_min(keys, order, x, k + 1, m);
        }
    }
}

proof fn lemma_ins_pos_found(keys: Seq<KeyView>, order: Seq<int>, x: int, k: int)
    requires
        0 <= k <= order.len(),
        ins_pos(keys, order, x, k) < order.len(),
    ensures
        key_gt(keys[order[ins_pos(keys, order, x, k)]], keys[x]),
    decreases order.len() - k,
{
    if k < order.len() && !key_gt(keys[order[k]], keys[x]) {
        lemma_ins_pos_found(keys, order, x, k + 1);
    }
}

/// The keys of positions in an order never decrease.
pub open spec fn order_sorted(keys: Seq<KeyView>, o: Seq<int>) -> bool {
    forall|i: int, j: int| 0 <= i < j < o.len() ==> !key_gt(#[trigger] keys[o[i]], #[trigger] keys[o[j]])
}

/// `stable_order` sorts: along the order the keys never decrease.
pub proof fn lemma_stable_order_sorted(keys: Seq<KeyView>, n: int)
    requires
        0 <= n <= keys.len(),
    ensures
        order_sorted(keys, stable_order(keys, n)),
    decreases n,
{
    if n > 0 {
        lemma_stable_order_sorted(keys, n - 1);
        lemma_stable_order_perm(keys, n - 1);
        let o = stable_order(keys, n - 1);
        lemma_ins_pos_bounds(keys, o, n - 1, 0);
        let p = ins_pos(keys, o, n - 1, 0);
        let o2 = o.insert(p, n - 1);
        let x = n - 1;
        assert(stable_order(keys, n) == o2);
        assert forall|i: int, j: int| 0 <= i < j < o2.len() implies !key_gt(#[trigger] keys[o2[i]], #[trigger] keys[o2[j]]) by {
            if i != p && j != p {
                let ii = if i < p { i } else { i - 1 };
                let jj = if j < p { j } else { j - 1 };
                assert(o2[i] == o[ii]);
                assert(o2[j] == o[jj]);
                assert(ii < jj);
            } else if j == p {
                assert(o2[i] == o[i]);
                assert(o2[j] == x);
                lemma_ins_pos_min(keys, o, x, 0, i);
            } else {
                // i == p < j: the inserted key is below the one it was placed before.
                assert(o2[i] == x);
                let jj = j - 1;
                assert(o2[j] == o[jj]);
                assert(p < o.len());
                lemma_ins_pos_found(keys, o, x, 0);
                let kp = keys[o[p]];
                let kj = keys[o[jj]];
                let kx = keys[x];
                if jj > p {
                    assert(!key_gt(keys[o[p]], keys[o[jj]]));
                }
                lemma_key_order(kp, kj, kx);
                lemma_key_order(kj, kp, kx);
                lemma_key_order(kx, kj, kp);
                lemma_key_order(kj, kx, kp);
            }
        }
    }
}

/// The stable sorted order of the given keys, as positions into them.
pub fn stable_order_exec(keys: &Vec<SortKey>) -> (r: Vec<usize>)
    ensures
        r@.len() == keys@.len(),
        forall|k: int| 0 <= k < r@.len() ==> r@[k] as int == #[trigger] stable_order(key_views(keys@), keys@.len() as int)[k],
{
    let mut order: Vec<usize> = Vec::new();
    let mut i: usize = 0;
    while i < keys.len()
        invariant
            i <= keys.len(),
            order@.len() == i,
            forall|k: int| 0 <= k < i ==> order@[k] as int == #[trigger] stable_order(key_views(keys@), i as int)[k],
            forall|k: int| 0 <= k < i ==> (order@[k] as int) < (i as int),
        decreases keys.len() - i,
    {
        proof {
            lemma_stable_order_perm(key_views(keys@), i as int);
        }
        let ghost o = stable_order(key_views(keys@), i as int);
        assert(order@.map_values(|v: usize| v as int) == o);
        let mut p: usize = 0;
        while p < order.len() && !key_gt_exec(&keys[order[p]], &keys[i])
            invariant
                p <= order.len(),
                order@.len() == i,
                i < keys.len(),
                forall|k: int| 0 <= k < i ==> (order@[k] as int) < (i as int),
                order@.map_values(|v: usize| v as int) == o,
                ins_pos(key_views(keys@), o, i as int, 0) == ins_pos(key_views(keys@), o, i as int, p as int),
            decreases order.len() - p,
        {
            p += 1;
        }
        assert(ins_pos(key_views(keys@), o, i as int, p as int) == p);
        order.insert(p, i);
        assert(order@.map_values(|v: usize| v as int) == o.insert(p as int, i as int));
        i += 1;
    }
    order
}

} // verus!
