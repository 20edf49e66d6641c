//! Character-sequence primitives that the rest of the library is written with.
//!
//! Every operation here works on the characters of a string (its view as a
//! `Seq<char>`), so indices are character positions.
use vstd::prelude::*;

verus! {

// ---------------------------------------------------------------------------
// Conversions between strings and character vectors
// ---------------------------------------------------------------------------

/// Appends one character to a string (`String::push`).
#[verifier::external_body]
fn push_char(s: &mut String, c: char)
    ensures
        final(s)@ == old(s)@.push(c),
{
    s.push(c);
}

/// The characters of a string slice, in order.
pub fn chars_of(s: &str) -> (r: Vec<char>)
    ensures
        r@ == s@,
{
    let mut out: Vec<char> = Vec::new();
    for c in it: s.chars()
        invariant
            out@ == it.seq().take(it.index() as int),
            it.seq() == s@,
    {
        out.push(c);
    }
    out
}

/// A string holding exactly the given characters.
pub fn string_of(v: &[char]) -> (r: String)
    ensures
        r@ == v@,
{
    let mut out = String::new();
    let mut i: usize = 0;
    while i < v.len()
        invariant
            i <= v.len(),
            out@ == v@.take(i as int),
        decreases v.len() - i,
    {
        push_char(&mut out, v[i]);
        assert(v@.take(i + 1) == v@.take(i as int).push(v@[i as int]));
        i += 1;
    }
    assert(v@.take(v.len() as int) == v@);
    out
}

/// A copy of a string.
pub fn copy_string(s: &String) -> (r: String)
    ensures
        r@ == s@,
{
    s.clone()
}

/// A copy of an optional string.
pub fn copy_opt_string(s: &Option<String>) -> (r: Option<String>)
    ensures
        r == *s,
{
    match s {
        Some(v) => Some(v.clone()),
        None => None,
    }
}

/// A copy of a vector of strings.
pub fn copy_strings(v: &Vec<String>) -> (r: Vec<String>)
    ensures
        r@ == v@,
{
    let mut out: Vec<String> = Vec::new();
    let mut i: usize = 0;
    while i < v.len()
        invariant
            i <= v.len(),
            out@ == v@.take(i as int),
        decreases v.len() - i,
    {
        out.push(v[i].clone());
        assert(v@.take(i + 1) == v@.take(i as int).push(v@[i as int]));
        i += 1;
    }
    assert(v@.take(v.len() as int) == v@);
    out
}

/// The views of a sequence of strings.
pub open spec fn views_of(v: Seq<String>) -> Seq<Seq<char>> {
    v.map_values(|s: String| s@)
}

/// Two strings hold the same characters.
pub fn same_text(a: &str, b: &str) -> (r: bool)
    ensures
        r == (a@ == b@),
{
    let x = chars_of(a);
    let y = chars_of(b);
    seq_eq(x.as_slice(), y.as_slice())
}

/// Two character slices are equal.
pub fn seq_eq(a: &[char], b: &[char]) -> (r: bool)
    ensures
        r == (a@ == b@),
{
    if a.len() != b.len() {
        return false;
    }
    let mut i: usize = 0;
    while i < a.len()
        invariant
            a.len() == b.len(),
            i <= a.len(),
            a@.take(i as int) == b@.take(i as int),
        decreases a.len() - i,
    {
        if a[i] != b[i] {
            assert(a@[i as int] != b@[i as int]);
            return false;
        }
        assert(a@.take(i + 1) == a@.take(i as int).push(a@[i as int]));
        assert(b@.take(i + 1) == b@.take(i as int).push(b@[i as int]));
        i += 1;
    }
    assert(a@.take(a.len() as int) == a@);
    assert(b@.take(b.len() as int) == b@);
    true
}

// ---------------------------------------------------------------------------
// Whitespace and lower case, as std defines them
// ---------------------------------------------------------------------------

/// Whether a character has the Unicode `White_Space` property, which is
/// what `char::is_whitespace` tests: tab, line feed, vertical tab, form
/// feed, carriage return, space, next line, no-break space, ogham space
/// mark, the spaces from en quad to hair space, line and paragraph
/// separators, narrow no-break space, medium mathematical space and
/// ideographic space.
pub open spec fn is_ws(c: char) -> bool {
    ||| '\t' <= c <= '\r'
    ||| c == ' '
    ||| c == '\u{85}'
    ||| c == '\u{a0}'
    ||| c == '\u{1680}'
    ||| '\u{2000}' <= c <= '\u{200a}'
    ||| c == '\u{2028}'
    ||| c == '\u{2029}'
    ||| c == '\u{202f}'
    ||| c == '\u{205f}'
    ||| c == '\u{3000}'
}

/// `char::is_whitespace`.
pub fn char_is_whitespace(c: char) -> (r: bool)
    ensures
        r == is_ws(c),
{
    ('\t' <= c && c <= '\r') || c == ' ' || c == '\u{85}' || c == '\u{a0}' || c == '\u{1680}'
        || ('\u{2000}' <= c && c <= '\u{200a}') || c == '\u{2028}' || c == '\u{2029}' || c == '\u{202f}'
        || c == '\u{205f}' || c == '\u{3000}'
}

/// The ASCII lower case of a character: `A` to `Z` become `a` to `z`; any
/// other character stays.
pub open spec fn ascii_lower_char(c: char) -> char {
    if 'A' <= c <= 'Z' {
        ((c as u32) + 32) as char
    } else {
        c
    }
}

/// Whether every character of a sequence is ASCII.
pub open spec fn all_ascii(s: Seq<char>) -> bool {
    forall|i: int| 0 <= i < s.len() ==> (s[i] as u32) < 128
}

/// What `str::to_lowercase` returns for a string (Unicode lower-case mapping).
pub uninterp spec fn lowercase(s: Seq<char>) -> Seq<char>;

/// `str::to_lowercase`: the Unicode lower-case mapping of the whole
/// string. On ASCII text that mapping is the ASCII one, character by
/// character, as std's documentation shows: `A` to `Z` become `a` to `z`
/// and every other character stays.
#[verifier::external_body]
pub(crate) fn to_lowercase(s: &str) -> (r: String)
    ensures
        r@ == lowercase(s@),
        all_ascii(s@) ==> r@ == s@.map_values(|c: char| ascii_lower_char(c)),
{
    s.to_lowercase()
}

// ---------------------------------------------------------------------------
// Trimming
// ---------------------------------------------------------------------------

/// `s` with leading whitespace removed.
pub open spec fn trim_start(s: Seq<char>) -> Seq<char>
    decreases s.len(),
{
    if s.len() > 0 && is_ws(s[0]) {
        trim_start(s.drop_first())
    } else {
        s
    }
}

/// `s` with trailing whitespace removed.
pub open spec fn trim_end(s: Seq<char>) -> Seq<char>
    decreases s.len(),
{
    if s.len() > 0 && is_ws(s.last()) {
        trim_end(s.drop_last())
    } else {
        s
    }
}

/// `s` with whitespace removed at both ends (`str::trim`).
pub open spec fn trim(s: Seq<char>) -> Seq<char> {
    trim_end(trim_start(s))
}

proof fn lemma_trim_end_take(s: Seq<char>, i: int)
    requires
        0 <= i <= s.len(),
        forall|j: int| i <= j < s.len() ==> is_ws(#[trigger] s[j]),
    ensures
        trim_end(s) == trim_end(s.take(i)),
    decreases s.len() - i,
{
    if i < s.len() {
        assert(s.drop_last().take(i) == s.take(i));
        assert forall|j: int| i <= j < s.len() - 1 implies is_ws(#[trigger] s.drop_last()[j]) by {
            assert(s.drop_last()[j] == s[j]);
        }
        lemma_trim_end_take(s.drop_last(), i);
    } else {
        assert(s.take(i) == s);
    }
}

/// Index of the first non-whitespace character (or the length).
fn trim_start_index(s: &[char]) -> (r: usize)
    ensures
        r <= s.len(),
        trim_start(s@) == s@.skip(r as int),
{
    assert(s@.skip(0) == s@);
    r_of_trim_start(s, 0)
}

fn r_of_trim_start(s: &[char], i0: usize) -> (r: usize)
    requires
        i0 <= s.len(),
        trim_start(s@) == trim_start(s@.skip(i0 as int)),
    ensures
        r <= s.len(),
        trim_start(s@) == s@.skip(r as int),
{
    let mut i = i0;
    while i < s.len() && char_is_whitespace(s[i])
        invariant
            i0 <= i <= s.len(),
            trim_start(s@) == trim_start(s@.skip(i as int)),
        decreases s.len() - i,
    {
        assert(s@.skip(i as int).drop_first() == s@.skip(i + 1));
        i += 1;
    }
    if i < s.len() {
        assert(s@.skip(i as int)[0] == s@[i as int]);
    } else {
        assert(s@.skip(i as int).len() == 0);
    }
    i
}

/// Index one past the last non-whitespace character, at least `lo`.
fn trim_end_index(s: &[char], lo: usize) -> (r: usize)
    requires
        lo <= s.len(),
    ensures
        lo <= r <= s.len(),
        trim_end(s@.subrange(lo as int, s@.len() as int)) == s@.subrange(lo as int, r as int),
{
    let ghost t = s@.subrange(lo as int, s@.len() as int);
    let mut i: usize = s.len();
    while i > lo && char_is_whitespace(s[i - 1])
        invariant
            lo <= i <= s.len(),
            t == s@.subrange(lo as int, s@.len() as int),
            trim_end(t) == trim_end(s@.subrange(lo as int, i as int)),
        decreases i,
    {
        assert(s@.subrange(lo as int, i as int).drop_last() == s@.subrange(lo as int, i - 1));
        i -= 1;
    }
    if i > lo {
        assert(s@.subrange(lo as int, i as int).last() == s@[i - 1]);
    } else {
        assert(s@.subrange(lo as int, i as int).len() == 0);
    }
    i
}

/// `str::trim` on characters.
pub fn trim_chars(s: &[char]) -> (r: Vec<char>)
    ensures
        r@ == trim(s@),
{
    let a = trim_start_index(s);
    let b = trim_end_index(s, a);
    assert(s@.skip(a as int) == s@.subrange(a as int, s@.len() as int));
    slice_range(s, a, b)
}

/// `str::trim_start` on characters.
pub fn trim_start_chars(s: &[char]) -> (r: Vec<char>)
    ensures
        r@ == trim_start(s@),
{
    let a = trim_start_index(s);
    assert(s@.skip(a as int) == s@.subrange(a as int, s@.len() as int));
    slice_range(s, a, s.len())
}

/// `str::trim` on a string.
pub fn trim_str(s: &str) -> (r: Vec<char>)
    ensures
        r@ == trim(s@),
{
    let v = chars_of(s);
    trim_chars(v.as_slice())
}

/// A copy of `s[a..b]`.
pub fn slice_range(s: &[char], a: usize, b: usize) -> (r: Vec<char>)
    requires
        a <= b <= s.len(),
    ensures
        r@ == s@.subrange(a as int, b as int),
{
    let mut out: Vec<char> = Vec::new();
    let mut i = a;
    while i < b
        invariant
            a <= i <= b <= s.len(),
            out@ == s@.subrange(a as int, i as int),
        decreases b - i,
    {
        out.push(s[i]);
        assert(s@.subrange(a as int, i + 1) == s@.subrange(a as int, i as int).push(s@[i as int]));
        i += 1;
    }
    out
}

// ---------------------------------------------------------------------------
// Prefixes, suffixes and searching
// ---------------------------------------------------------------------------

/// `p` occurs in `s` at position `i`.
pub open spec fn matches_at(s: Seq<char>, p: Seq<char>, i: int) -> bool {
    0 <= i && i + p.len() <= s.len() && s.subrange(i, i + p.len()) == p
}

/// `s` starts with `p`.
pub open spec fn starts_with(s: Seq<char>, p: Seq<char>) -> bool {
    matches_at(s, p, 0)
}

/// `s` ends with `p`.
pub open spec fn ends_with(s: Seq<char>, p: Seq<char>) -> bool {
    matches_at(s, p, s.len() - p.len())
}

/// The first position at or after `i` where `p` occurs in `s`.
pub open spec fn find_from(s: Seq<char>, p: Seq<char>, i: int) -> Option<int>
    decreases s.len() + 1 - i,
{
    if i < 0 || i + p.len() > s.len() {
        None
    } else if matches_at(s, p, i) {
        Some(i)
    } else {
        find_from(s, p, i + 1)
    }
}

/// `str::find`: the first position where `p` occurs in `s`.
pub open spec fn find(s: Seq<char>, p: Seq<char>) -> Option<int> {
    find_from(s, p, 0)
}

/// The last position at or before `i` where `p` occurs in `s`.
pub open spec fn rfind_upto(s: Seq<char>, p: Seq<char>, i: int) -> Option<int>
    decreases i + 1,
{
    if i < 0 {
        None
    } else if matches_at(s, p, i) {
        Some(i)
    } else {
        rfind_upto(s, p, i - 1)
    }
}

/// `str::rfind`: the last position where `p` occurs in `s`.
pub open spec fn rfind(s: Seq<char>, p: Seq<char>) -> Option<int> {
    rfind_upto(s, p, s.len() - p.len())
}

/// `str::contains`.
pub open spec fn contains(s: Seq<char>, p: Seq<char>) -> bool {
    find(s, p) is Some
}

/// Whether `p` occurs in `s` at position `i`.
pub fn matches_at_exec(s: &[char], p: &[char], i: usize) -> (r: bool)
    ensures
        r == matches_at(s@, p@, i as int),
{
    if i > s.len() || p.len() > s.len() - i {
        return false;
    }
    let mut k: usize = 0;
    while k < p.len()
        invariant
            i + p.len() <= s.len(),
            k <= p.len(),
            s@.subrange(i as int, i + k) == p@.take(k as int),
        decreases p.len() - k,
    {
        if s[i + k] != p[k] {
            assert(s@.subrange(i as int, i + p.len())[k as int] == s@[i + k]);
            return false;
        }
        assert(s@.subrange(i as int, i + k + 1) == s@.subrange(i as int, i + k).push(s@[i + k]));
        assert(p@.take(k + 1) == p@.take(k as int).push(p@[k as int]));
        k += 1;
    }
    assert(p@.take(p.len() as int) == p@);
    true
}

/// `str::starts_with`.
pub fn starts_with_exec(s: &[char], p: &[char]) -> (r: bool)
    ensures
        r == starts_with(s@, p@),
{
    matches_at_exec(s, p, 0)
}

/// `str::ends_with`.
pub fn ends_with_exec(s: &[char], p: &[char]) -> (r: bool)
    ensures
        r == ends_with(s@, p@),
{
    if p.len() > s.len() {
        return false;
    }
    matches_at_exec(s, p, s.len() - p.len())
}

/// `str::find`.
pub fn find_exec(s: &[char], p: &[char]) -> (r: Option<usize>)
    ensures
        r matches Some(i) ==> find(s@, p@) == Some(i as int),
        r is None ==> find(s@, p@) is None,
{
    if p.len() > s.len() {
        return None;
    }
    let last = s.len() - p.len();
    let mut i: usize = 0;
    loop
        invariant
            last + p.len() == s.len(),
            i <= last,
            find(s@, p@) == find_from(s@, p@, i as int),
        decreases last - i,
    {
        if matches_at_exec(s, p, i) {
            return Some(i);
        }
        if i == last {
            assert(find_from(s@, p@, i + 1) is None);
            return None;
        }
        i += 1;
    }
}

/// `str::rfind`.
pub fn rfind_exec(s: &[char], p: &[char]) -> (r: Option<usize>)
    ensures
        r matches Some(i) ==> rfind(s@, p@) == Some(i as int),
        r is None ==> rfind(s@, p@) is None,
{
    if p.len() > s.len() {
        return None;
    }
    let mut i: usize = s.len() - p.len();
    loop
        invariant
            i <= s.len() - p.len(),
            rfind(s@, p@) == rfind_upto(s@, p@, i as int),
        decreases i,
    {
        if matches_at_exec(s, p, i) {
            return Some(i);
        }
        if i == 0 {
            assert(rfind_upto(s@, p@, -1) is None);
            return None;
        }
        i -= 1;
    }
}

/// `str::contains`.
pub fn contains_exec(s: &[char], p: &[char]) -> (r: bool)
    ensures
        r == contains(s@, p@),
{
    find_exec(s, p).is_some()
}

/// `str::strip_prefix`, with the remainder given as a copy.
pub fn strip_prefix_exec(s: &[char], p: &[char]) -> (r: Option<Vec<char>>)
    ensures
        r matches Some(t) ==> starts_with(s@, p@) && t@ == s@.skip(p@.len() as int),
        r is None ==> !starts_with(s@, p@),
{
    if starts_with_exec(s, p) {
        let t = slice_range(s, p.len(), s.len());
        assert(s@.subrange(p@.len() as int, s@.len() as int) == s@.skip(p@.len() as int));
        Some(t)
    } else {
        None
    }
}

/// `str::strip_suffix`, with the remainder given as a copy.
pub fn strip_suffix_exec(s: &[char], p: &[char]) -> (r: Option<Vec<char>>)
    ensures
        r matches Some(t) ==> ends_with(s@, p@) && t@ == s@.take(s@.len() - p@.len()),
        r is None ==> !ends_with(s@, p@),
{
    if ends_with_exec(s, p) {
        let t = slice_range(s, 0, s.len() - p.len());
        assert(s@.subrange(0, s@.len() - p@.len()) == s@.take(s@.len() - p@.len()));
        Some(t)
    } else {
        None
    }
}

/// `str::trim_end_matches` with a non-empty string pattern: strips `p` from
/// the end as long as `s` ends with it.
pub open spec fn trim_end_matches(s: Seq<char>, p: Seq<char>) -> Seq<char>
    decreases s.len(),
{
    if p.len() > 0 && ends_with(s, p) {
        trim_end_matches(s.take(s.len() - p.len()), p)
    } else {
        s
    }
}

/// `str::trim_end_matches` with a non-empty string pattern.
pub fn trim_end_matches_exec(s: &[char], p: &[char]) -> (r: Vec<char>)
    ensures
        r@ == trim_end_matches(s@, p@),
{
    let mut end: usize = s.len();
    if p.len() == 0 {
        assert(s@.subrange(0, s@.len() as int) == s@);
        return slice_range(s, 0, end);
    }
    assert(s@.take(s@.len() as int) == s@);
    while end >= p.len() && matches_at_exec(s, p, end - p.len())
        invariant
            end <= s.len(),
            p.len() > 0,
            trim_end_matches(s@, p@) == trim_end_matches(s@.take(end as int), p@),
        decreases end,
    {
        assert(s@.take(end as int).subrange(end - p.len(), end as int) == s@.subrange(end - p.len(), end as int));
        assert(s@.take(end as int).take(end - p.len()) == s@.take(end - p.len()));
        end -= p.len();
    }
    if end >= p.len() {
        assert(s@.take(end as int).subrange(end - p.len(), end as int) == s@.subrange(end - p.len(), end as int));
    }
    assert(s@.take(end as int) == s@.subrange(0, end as int));
    slice_range(s, 0, end)
}

// ---------------------------------------------------------------------------
// Splitting and joining on a separator
// ---------------------------------------------------------------------------

/// `str::split` with a non-empty string separator.
pub open spec fn split(s: Seq<char>, sep: Seq<char>) -> Seq<Seq<char>>
    decreases s.len(),
{
    if sep.len() == 0 {
        seq![s]
    } else {
        match find(s, sep) {
            Some(i) => if 0 <= i && i + sep.len() <= s.len() {
                seq![s.take(i)] + split(s.skip(i + sep.len()), sep)
            } else {
                seq![s]
            },
            None => seq![s],
        }
    }
}

/// `[T]::join` of character sequences with a separator.
pub open spec fn join(parts: Seq<Seq<char>>, sep: Seq<char>) -> Seq<char>
    decreases parts.len(),
{
    if parts.len() == 0 {
        Seq::empty()
    } else if parts.len() == 1 {
        parts[0]
    } else {
        join(parts.drop_last(), sep) + sep + parts.last()
    }
}

/// The last segment of `str::split` (`split(..).last()`).
pub open spec fn last_segment(s: Seq<char>, sep: Seq<char>) -> Seq<char> {
    split(s, sep).last()
}

proof fn lemma_find_bounds(s: Seq<char>, p: Seq<char>, i: int)
    requires
        find_from(s, p, i) is Some,
    ensures
        matches_at(s, p, find_from(s, p, i)->0),
        find_from(s, p, i)->0 >= i,
    decreases s.len() + 1 - i,
{
    if !(i < 0 || i + p.len() > s.len()) && !matches_at(s, p, i) {
        lemma_find_bounds(s, p, i + 1);
    }
}

proof fn lemma_find_from_first(s: Seq<char>, p: Seq<char>, k: int, i: int)
    requires
        0 <= k <= i,
        matches_at(s, p, i),
        forall|j: int| k <= j < i ==> !matches_at(s, p, j),
    ensures
        find_from(s, p, k) == Some(i),
    decreases i - k,
{
    if k < i {
        lemma_find_from_first(s, p, k + 1, i);
    }
}

/// Lemma: `find` gives the first occurrence.
pub proof fn lemma_find_first_at(s: Seq<char>, p: Seq<char>, i: int)
    requires
        matches_at(s, p, i),
        forall|j: int| 0 <= j < i ==> !matches_at(s, p, j),
    ensures
        find(s, p) == Some(i),
{
    lemma_find_from_first(s, p, 0, i);
}

proof fn lemma_find_from_absent(s: Seq<char>, p: Seq<char>, k: int)
    requires
        k >= 0,
        forall|j: int| k <= j ==> !matches_at(s, p, j),
    ensures
        find_from(s, p, k) is None,
    decreases s.len() + 1 - k,
{
    if !(k + p.len() > s.len()) {
        lemma_find_from_absent(s, p, k + 1);
    }
}

/// Lemma: `find` finds nothing where the pattern occurs nowhere.
pub proof fn lemma_find_absent(s: Seq<char>, p: Seq<char>)
    requires
        forall|j: int| 0 <= j ==> !matches_at(s, p, j),
    ensures
        find(s, p) is None,
{
    lemma_find_from_absent(s, p, 0);
}

proof fn lemma_rfind_upto_last(s: Seq<char>, p: Seq<char>, k: int, i: int)
    requires
        0 <= i <= k,
        matches_at(s, p, i),
        forall|j: int| i < j <= k ==> !matches_at(s, p, j),
    ensures
        rfind_upto(s, p, k) == Some(i),
    decreases k - i,
{
    if k > i {
        lemma_rfind_upto_last(s, p, k - 1, i);
    }
}

/// Lemma: `rfind` gives the last occurrence.
pub proof fn lemma_rfind_last_at(s: Seq<char>, p: Seq<char>, i: int)
    requires
        matches_at(s, p, i),
        forall|j: int| i < j ==> !matches_at(s, p, j),
    ensures
        rfind(s, p) == Some(i),
{
    lemma_rfind_upto_last(s, p, s.len() - p.len(), i);
}

/// Lemma: a text that neither starts nor ends with whitespace is its own
/// trim.
pub proof fn lemma_trim_keeps(s: Seq<char>)
    requires
        s.len() > 0,
        !is_ws(s[0]),
        !is_ws(s.last()),
    ensures
        trim_start(s) == s,
        trim_end(s) == s,
        trim(s) == s,
{
}

/// Lemma: a found position is a real occurrence.
pub proof fn lemma_find_is_match(s: Seq<char>, p: Seq<char>)
    requires
        find(s, p) is Some,
    ensures
        matches_at(s, p, find(s, p)->0),
        find(s, p)->0 >= 0,
{
    lemma_find_bounds(s, p, 0);
}

proof fn lemma_rfind_bounds(s: Seq<char>, p: Seq<char>, i: int)
    requires
        rfind_upto(s, p, i) is Some,
    ensures
        matches_at(s, p, rfind_upto(s, p, i)->0),
        rfind_upto(s, p, i)->0 <= i,
    decreases i + 1,
{
    if i >= 0 && !matches_at(s, p, i) {
        lemma_rfind_bounds(s, p, i - 1);
    }
}

/// Lemma: an `rfind` position is a real occurrence.
pub proof fn lemma_rfind_is_match(s: Seq<char>, p: Seq<char>)
    requires
        rfind(s, p) is Some,
    ensures
        matches_at(s, p, rfind(s, p)->0),
{
    lemma_rfind_bounds(s, p, s.len() - p.len());
}

/// `str::split(sep)` followed by `.last()`.
pub fn last_segment_exec(s: &[char], sep: &[char]) -> (r: Vec<char>)
    ensures
        r@ == last_segment(s@, sep@),
{
    let parts = split_exec(s, sep);
    proof {
        lemma_split_nonempty(s@, sep@);
    }
    let n = parts.len();
    let mut out: Vec<char> = Vec::new();
    let last = &parts[n - 1];
    let mut i: usize = 0;
    while i < last.len()
        invariant
            i <= last.len(),
            out@ == last@.take(i as int),
        decreases last.len() - i,
    {
        out.push(last[i]);
        assert(last@.take(i + 1) == last@.take(i as int).push(last@[i as int]));
        i += 1;
    }
    assert(last@.take(last.len() as int) == last@);
    out
}

/// Lemma: `split` always yields at least one segment.
pub proof fn lemma_split_nonempty(s: Seq<char>, sep: Seq<char>)
    ensures
        split(s, sep).len() >= 1,
    decreases s.len(),
{
    if sep.len() > 0 {
        if let Some(i) = find(s, sep) {
            if 0 <= i && i + sep.len() <= s.len() {
                lemma_split_nonempty(s.skip(i + sep.len()), sep);
            }
        }
    }
}

/// `str::split` with a string separator, each segment copied.
pub fn split_exec(s: &[char], sep: &[char]) -> (r: Vec<Vec<char>>)
    ensures
        r@.map_values(|v: Vec<char>| v@) == split(s@, sep@),
    decreases s.len(),
{
    let mut out: Vec<Vec<char>> = Vec::new();
    if sep.len() == 0 {
        out.push(slice_range(s, 0, s.len()));
        assert(s@.subrange(0, s@.len() as int) == s@);
        assert(out@.map_values(|v: Vec<char>| v@) == seq![s@]);
        return out;
    }
    match find_exec(s, sep) {
        Some(i) => {
            proof {
                lemma_find_is_match(s@, sep@);
            }
            let head = slice_range(s, 0, i);
            let rest = slice_range(s, i + sep.len(), s.len());
            let tail = split_exec(rest.as_slice(), sep);
            out.push(head);
            let mut k: usize = 0;
            let ghost tv = tail@.map_values(|v: Vec<char>| v@);
            while k < tail.len()
                invariant
                    k <= tail.len(),
                    tv == tail@.map_values(|v: Vec<char>| v@),
                    out@.map_values(|v: Vec<char>| v@) == seq![s@.take(i as int)] + tv.take(k as int),
                decreases tail.len() - k,
            {
                out.push(slice_range(tail[k].as_slice(), 0, tail[k].len()));
                assert(tail@[k as int]@.subrange(0, tail@[k as int]@.len() as int) == tail@[k as int]@);
                assert(tv.take(k + 1) == tv.take(k as int).push(tv[k as int]));
                assert(out@.map_values(|v: Vec<char>| v@) == (seq![s@.take(i as int)] + tv.take(k as int)).push(tv[k as int]));
                k += 1;
            }
            assert(tv.take(tail.len() as int) == tv);
            assert(s@.subrange(0, i as int) == s@.take(i as int));
            assert(s@.subrange(i + sep.len(), s@.len() as int) == s@.skip(i + sep.len()));
            out
        },
        None => {
            out.push(slice_range(s, 0, s.len()));
            assert(s@.subrange(0, s@.len() as int) == s@);
            assert(out@.map_values(|v: Vec<char>| v@) == seq![s@]);
            out
        },
    }
}

/// `[T]::join` with a separator.
pub fn join_exec(parts: &Vec<Vec<char>>, sep: &[char]) -> (r: Vec<char>)
    ensures
        r@ == join(parts@.map_values(|v: Vec<char>| v@), sep@),
{
    let ghost pv = parts@.map_values(|v: Vec<char>| v@);
    let mut out: Vec<char> = Vec::new();
    let mut i: usize = 0;
    while i < parts.len()
        invariant
            i <= parts.len(),
            pv == parts@.map_values(|v: Vec<char>| v@),
            out@ == join(pv.take(i as int), sep@),
        decreases parts.len() - i,
    {
        if i > 0 {
            append_chars(&mut out, sep);
        }
        append_chars(&mut out, parts[i].as_slice());
        assert(pv.take(i + 1).drop_last() == pv.take(i as int));
        assert(pv.take(i + 1).last() == pv[i as int]);
        if i == 0 {
            assert(pv.take(1).len() == 1);
        }
        i += 1;
    }
    assert(pv.take(parts.len() as int) == pv);
    out
}

/// Appends characters to a vector.
pub fn append_chars(out: &mut Vec<char>, s: &[char])
    ensures
        final(out)@ == old(out)@ + s@,
{
    let ghost o = old(out)@;
    let mut i: usize = 0;
    while i < s.len()
        invariant
            i <= s.len(),
            out@ == o + s@.take(i as int),
        decreases s.len() - i,
    {
        out.push(s[i]);
        assert(s@.take(i + 1) == s@.take(i as int).push(s@[i as int]));
        i += 1;
    }
    assert(s@.take(s.len() as int) == s@);
}

/// Appends the characters of a string to a vector.
pub fn append_str(out: &mut Vec<char>, s: &str)
    ensures
        final(out)@ == old(out)@ + s@,
{
    let v = chars_of(s);
    append_chars(out, v.as_slice());
}

// ---------------------------------------------------------------------------
// Decimal numbers
// ---------------------------------------------------------------------------

/// The decimal digit for `d < 10`.
pub open spec fn digit_char(d: nat) -> char {
    if d == 0 { '0' }
    else if d == 1 { '1' }
    else if d == 2 { '2' }
    else if d == 3 { '3' }
    else if d == 4 { '4' }
    else if d == 5 { '5' }
    else if d == 6 { '6' }
    else if d == 7 { '7' }
    else if d == 8 { '8' }
    else { '9' }
}

/// The decimal representation of `n` (as `usize::to_string` writes it).
pub open spec fn decimal(n: nat) -> Seq<char>
    decreases n,
{
    if n < 10 {
        seq![digit_char(n)]
    } else {
        decimal(n / 10).push(digit_char(n % 10))
    }
}

fn digit_of(d: usize) -> (c: char)
    requires
        d < 10,
    ensures
        c == digit_char(d as nat),
{
    if d == 0 { '0' }
    else if d == 1 { '1' }
    else if d == 2 { '2' }
    else if d == 3 { '3' }
    else if d == 4 { '4' }
    else if d == 5 { '5' }
    else if d == 6 { '6' }
    else if d == 7 { '7' }
    else if d == 8 { '8' }
    else { '9' }
}

/// Appends the decimal representation of `n`.
pub fn append_decimal(out: &mut Vec<char>, n: usize)
    ensures
        final(out)@ == old(out)@ + decimal(n as nat),
    decreases n,
{
    if n < 10 {
        out.push(digit_of(n));
    } else {
        append_decimal(out, n / 10);
        out.push(digit_of(n % 10));
    }
}

} // verus!
