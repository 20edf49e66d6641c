//! A source file that a language adapter has parsed.
use vstd::prelude::*;

verus! {

/// A parsed source: its language, its length in bytes and its text.
#[derive(Debug, Clone, PartialEq, Eq)]
pub struct ParsedFile {
    pub language: String,
    pub source_len: usize,
    pub source: String,
}

/// The length in bytes of a text's UTF-8 encoding.
pub open spec fn utf8_len(s: Seq<char>) -> int {
    (vstd::utf8::encode_utf8(s).len() as usize) as int
}

/// A source of the given language, as read.
pub fn parse_source(language: &str, source: &str) -> (r: ParsedFile)
    ensures
        r.language@ == language@,
        r.source_len == utf8_len(source@),
        r.source@ == source@,
{
    ParsedFile { language: language.to_owned(), source_len: source.len(), source: source.to_owned() }
}

} // verus!
