//! The indexer's configuration.
use vstd::prelude::*;

verus! {

/// How many files are indexed at once and how long the output queue may
/// grow.
#[derive(Debug, Clone, Copy, PartialEq, Eq, Structural)]
pub struct Config {
    pub max_concurrency: usize,
    pub max_queue_size: usize,
}

impl Config {
    pub fn new(max_concurrency: usize, max_queue_size: usize) -> (r: Self)
        ensures
            r.max_concurrency == max_concurrency,
            r.max_queue_size == max_queue_size,
    {
        Config { max_concurrency, max_queue_size }
    }
}

/// Whether a character is an ASCII digit.
pub open spec fn is_digit(c: char) -> bool {
    '0' <= c && c <= '9'
}

/// The value of a sequence of ASCII digits, read in base ten.
pub open spec fn digits_value(s: Seq<char>) -> nat
    decreases s.len(),
{
    if s.len() == 0 {
        0
    } else {
        digits_value(s.drop_last()) * 10 + ((s.last() as int) - ('0' as int)) as nat
    }
}

/// The value of one or more ASCII digits, when it fits in a `usize`.
pub open spec fn parse_digits(d: Seq<char>) -> Option<usize> {
    if d.len() > 0 && (forall|i: int| 0 <= i < d.len() ==> is_digit(#[trigger] d[i])) && digits_value(d) <= usize::MAX {
        Some(digits_value(d) as usize)
    } else {
        None
    }
}

/// A text without its leading `+`, if it has one.
pub open spec fn unsigned_part(s: Seq<char>) -> Seq<char> {
    if s.len() > 0 && s[0] == '+' { s.drop_first() } else { s }
}

/// A number as `usize::from_str` reads it: an optional `+`, then one or
/// more ASCII digits whose value fits in a `usize`.
pub open spec fn parse_usize(s: Seq<char>) -> Option<usize> {
    parse_digits(unsigned_part(s))
}

/// `str::parse::<usize>`.
pub fn parse_usize_exec(s: &str) -> (r: Option<usize>)
    ensures
        r == parse_usize(s@),
{
    let c = crate::text::chars_of(s);
    let start: usize = if c.len() > 0 && c[0] == '+' { 1 } else { 0 };
    let ghost d = unsigned_part(s@);
    if start >= c.len() {
        return None;
    }
    let mut value: usize = 0;
    let mut overflow = false;
    let mut i: usize = start;
    while i < c.len()
        invariant
            c@ == s@,
            start <= i <= c.len(),
            start < c.len(),
            d == c@.skip(start as int),
            d == unsigned_part(s@),
            forall|k: int| 0 <= k < i - start ==> is_digit(#[trigger] d[k]),
            !overflow ==> value == digits_value(d.take(i - start)),
            overflow ==> digits_value(d.take(i - start)) > usize::MAX,
        decreases c.len() - i,
    {
        let ch = c[i];
        let ghost k = i - start;
        assert(d[k] == ch);
        if !('0' <= ch && ch <= '9') {
            assert(!is_digit(d[k]));
            return None;
        }
        let digit: usize = ((ch as u32) - ('0' as u32)) as usize;
        assert(d.take(k + 1).drop_last() == d.take(k));
        assert(d.take(k + 1).last() == ch);
        if !overflow {
            match value.checked_mul(10) {
                None => {
                    overflow = true;
                },
                Some(v) => match v.checked_add(digit) {
                    None => {
                        overflow = true;
                    },
                    Some(w) => {
                        value = w;
                    },
                },
            }
        }
        i += 1;
    }
    assert(d.take(d.len() as int) == d);
    if overflow {
        None
    } else {
        Some(value)
    }
}

/// The configuration from the settings `MAX_CONCURRENCY` and
/// `MAX_QUEUE_SIZE` (as read, when present): each a number, else its
/// default (the number of CPUs, and 100).
pub fn config_from_settings(max_concurrency: Option<&str>, max_queue_size: Option<&str>, cpus: usize) -> (r: Config)
    ensures
        r.max_concurrency == match max_concurrency {
            Some(v) => match parse_usize(v@) { Some(n) => n, None => cpus },
            None => cpus,
        },
        r.max_queue_size == match max_queue_size {
            Some(v) => match parse_usize(v@) { Some(n) => n, None => 100usize },
            None => 100usize,
        },
{
    let c = match max_concurrency {
        Some(v) => match parse_usize_exec(v) {
            Some(n) => n,
            None => cpus,
        },
        None => cpus,
    };
    let q = match max_queue_size {
        Some(v) => match parse_usize_exec(v) {
            Some(n) => n,
            None => 100,
        },
        None => 100,
    };
    Config::new(c, q)
}

/// Metrics collection; nothing is collected yet.
pub struct Metrics {}

/// Structured logging; nothing is logged yet.
pub struct Logger {}

} // verus!
