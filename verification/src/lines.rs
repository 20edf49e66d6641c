//! Splitting source text into lines (`str::lines`) and reassembling ranges of
//! lines.
use vstd::prelude::*;
use crate::text::{append_chars, chars_of, find, find_from, matches_at, slice_range, string_of};

verus! {

/// A line as `str::lines` yields it: the text before a `'\n'`, without a
/// `'\r'` that stood right before that `'\n'`.
pub open spec fn strip_cr(l: Seq<char>) -> Seq<char> {
    if l.len() > 0 && l.last() == '\r' {
        l.drop_last()
    } else {
        l
    }
}

/// The lines of `s` as `str::lines` yields them: split after each `'\n'`,
/// the terminator (`"\n"` or `"\r\n"`) removed, and no empty last line after
/// a final `'\n'`.
pub open spec fn lines(s: Seq<char>) -> Seq<Seq<char>>
    decreases s.len(),
{
    if s.len() == 0 {
        Seq::empty()
    } else {
        match find(s, seq!['\n']) {
            Some(i) => if 0 <= i < s.len() {
                seq![strip_cr(s.take(i))] + lines(s.skip(i + 1))
            } else {
                seq![s]
            },
            None => seq![s],
        }
    }
}

/// The number of lines of `s`, at least one (`lines().count().max(1)`).
pub open spec fn line_count_min1(s: Seq<char>) -> nat {
    if lines(s).len() == 0 { 1 } else { lines(s).len() }
}

/// The text of the lines whose 1-based numbers lie in `start..=end`, each
/// followed by `'\n'`, taken from the first `n` lines of `ls`.
pub open spec fn lines_text_upto(ls: Seq<Seq<char>>, start: int, end: int, n: int) -> Seq<char>
    decreases n,
{
    if n <= 0 {
        Seq::empty()
    } else {
        let prev = lines_text_upto(ls, start, end, n - 1);
        if start <= n && n <= end {
            prev + ls[n - 1].push('\n')
        } else {
            prev
        }
    }
}

/// The text of the lines numbered `start..=end` (1-based), each followed by
/// `'\n'`; lines outside the file contribute nothing.
pub open spec fn lines_text(s: Seq<char>, start: int, end: int) -> Seq<char> {
    lines_text_upto(lines(s), start, end, lines(s).len() as int)
}

proof fn lemma_find_char_at(s: Seq<char>, c: char, i: int, j: int)
    requires
        0 <= i <= j < s.len(),
        s[j] == c,
        forall|k: int| i <= k < j ==> s[k] != c,
    ensures
        find_from(s, seq![c], i) == Some(j),
    decreases j - i,
{
    if i < j {
        assert(s.subrange(i, i + 1)[0] == s[i]);
        assert(seq![c][0] == c);
        assert(!matches_at(s, seq![c], i));
        lemma_find_char_at(s, c, i + 1, j);
    } else {
        assert(s.subrange(j, j + 1) =~= seq![c]);
    }
}

proof fn lemma_find_char_none(s: Seq<char>, c: char, i: int)
    requires
        0 <= i <= s.len(),
        forall|k: int| i <= k < s.len() ==> s[k] != c,
    ensures
        find_from(s, seq![c], i) is None,
    decreases s.len() - i,
{
    if i < s.len() {
        assert(s.subrange(i, i + 1)[0] == s[i]);
        assert(seq![c][0] == c);
        assert(!matches_at(s, seq![c], i));
        lemma_find_char_none(s, c, i + 1);
    }
}

/// A line of text split off as `str::lines` would.
fn strip_cr_exec(l: Vec<char>) -> (r: Vec<char>)
    ensures
        r@ == strip_cr(l@),
{
    let mut l = l;
    if l.len() > 0 && l[l.len() - 1] == '\r' {
        l.pop();
    }
    l
}

/// `str::lines`: the lines of `s`.
pub fn lines_exec(s: &[char]) -> (r: Vec<Vec<char>>)
    ensures
        r@.map_values(|v: Vec<char>| v@) == lines(s@),
{
    let mut out: Vec<Vec<char>> = Vec::new();
    let mut pos: usize = 0;
    assert(s@.skip(0) == s@);
    while pos < s.len()
        invariant
            pos <= s.len(),
            lines(s@) == out@.map_values(|v: Vec<char>| v@) + lines(s@.skip(pos as int)),
        decreases s.len() - pos,
    {
        let ghost rest = s@.skip(pos as int);
        let mut j = pos;
        while j < s.len() && s[j] != '\n'
            invariant
                pos <= j <= s.len(),
                forall|k: int| pos <= k < j ==> s@[k] != '\n',
            decreases s.len() - j,
        {
            j += 1;
        }
        let ghost old_out = out@.map_values(|v: Vec<char>| v@);
        if j < s.len() {
            proof {
                lemma_find_char_at(rest, '\n', 0, j - pos);
            }
            let line = strip_cr_exec(slice_range(s, pos, j));
            out.push(line);
            assert(rest.take(j - pos) == s@.subrange(pos as int, j as int));
            assert(rest.skip(j - pos + 1) == s@.skip(j + 1));
            assert(out@.map_values(|v: Vec<char>| v@) == old_out.push(strip_cr(rest.take(j - pos))));
            pos = j + 1;
        } else {
            proof {
                lemma_find_char_none(rest, '\n', 0);
            }
            let line = slice_range(s, pos, s.len());
            out.push(line);
            assert(s@.subrange(pos as int, s@.len() as int) == rest);
            assert(out@.map_values(|v: Vec<char>| v@) == old_out.push(rest));
            assert(s@.skip(s@.len() as int).len() == 0);
            assert(lines(s@.skip(s@.len() as int)) == Seq::<Seq<char>>::empty());
            pos = s.len();
        }
    }
    assert(s@.skip(pos as int).len() == 0);
    assert(lines(s@.skip(pos as int)) == Seq::<Seq<char>>::empty());
    assert(out@.map_values(|v: Vec<char>| v@) + Seq::<Seq<char>>::empty() == out@.map_values(|v: Vec<char>| v@));
    out
}

/// The text of the lines numbered `start..=end` (1-based), each followed by
/// `'\n'`, from lines already split.
pub fn lines_text_exec(ls: &Vec<Vec<char>>, start: usize, end: usize) -> (r: Vec<char>)
    ensures
        r@ == lines_text_upto(ls@.map_values(|v: Vec<char>| v@), start as int, end as int, ls@.len() as int),
{
    let ghost lv = ls@.map_values(|v: Vec<char>| v@);
    let mut out: Vec<char> = Vec::new();
    let mut i: usize = 0;
    while i < ls.len()
        invariant
            i <= ls.len(),
            lv == ls@.map_values(|v: Vec<char>| v@),
            out@ == lines_text_upto(lv, start as int, end as int, i as int),
        decreases ls.len() - i,
    {
        let idx = i + 1;
        if start <= idx && idx <= end {
            append_chars(&mut out, ls[i].as_slice());
            out.push('\n');
        }
        i += 1;
    }
    out
}

/// `lines_to_string`: the text of the lines numbered `start..=end` of a
/// source, each followed by `'\n'`.
pub fn lines_to_string(source: &str, start: usize, end: usize) -> (r: String)
    ensures
        r@ == lines_text(source@, start as int, end as int),
{
    let s = chars_of(source);
    let ls = lines_exec(s.as_slice());
    let t = lines_text_exec(&ls, start, end);
    string_of(t.as_slice())
}

/// `source.lines().count().max(1)`.
pub fn line_count_at_least_one(source: &str) -> (r: usize)
    ensures
        r == line_count_min1(source@),
{
    let s = chars_of(source);
    let ls = lines_exec(s.as_slice());
    assert(ls@.map_values(|v: Vec<char>| v@).len() == ls@.len());
    if ls.len() == 0 { 1 } else { ls.len() }
}

} // verus!
