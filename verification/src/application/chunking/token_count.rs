//! Exact token counts. This build has no tokenizer, so no count is known
//! and the metadata is left as it is.
use vstd::prelude::*;
use crate::domain::types::{MetaValue, Metadata, meta_map};

verus! {

/// The exact number of tokens of a text, when a tokenizer is available;
/// this build has none.
pub fn maybe_token_count(text: &str) -> (r: Option<usize>)
    ensures
        r is None,
{
    None
}

/// Records the exact token count of `text` under `token_count`, when it is
/// known.
pub fn apply_token_count(metadata: &mut Metadata, text: &str)
    ensures
        meta_map(*final(metadata)) == meta_map(*old(metadata)),
{
    match maybe_token_count(text) {
        Some(n) => metadata.insert("token_count".to_owned(), MetaValue::Number(n as u64)),
        None => {},
    }
}

} // verus!
