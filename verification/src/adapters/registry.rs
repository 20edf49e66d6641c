//! Which adapter reads which language, and the order languages are listed
//! in.
use vstd::prelude::*;
use crate::order::{
    KeyView, SortKey, key_gt, key_views, lemma_stable_order_perm, lemma_stable_order_sorted, stable_order,
    stable_order_exec, text_lt,
};
use crate::text::{chars_of, same_text, views_of};

verus! {

/// The adapters there are.
#[derive(Debug, Clone, Copy, PartialEq, Eq, Structural)]
pub enum AdapterKind {
    Rust,
    Go,
    Java,
    Python,
    /// Reads TypeScript and JavaScript alike.
    TypeScript,
}

/// The adapter registered for a language name.
pub open spec fn adapter_kind_of(lang: Seq<char>) -> Option<AdapterKind> {
    if lang == "rust"@ {
        Some(AdapterKind::Rust)
    } else if lang == "go"@ {
        Some(AdapterKind::Go)
    } else if lang == "java"@ {
        Some(AdapterKind::Java)
    } else if lang == "python"@ {
        Some(AdapterKind::Python)
    } else if lang == "typescript"@ || lang == "javascript"@ {
        Some(AdapterKind::TypeScript)
    } else {
        None
    }
}

/// The registered language names, in listing order.
pub open spec fn language_names() -> Seq<Seq<char>> {
    seq!["go"@, "java"@, "javascript"@, "python"@, "rust"@, "typescript"@]
}

/// The adapter registered for a language, if any.
pub fn adapter_for(lang: &str) -> (r: Option<AdapterKind>)
    ensures
        r == adapter_kind_of(lang@),
{
    if same_text(lang, "rust") {
        Some(AdapterKind::Rust)
    } else if same_text(lang, "go") {
        Some(AdapterKind::Go)
    } else if same_text(lang, "java") {
        Some(AdapterKind::Java)
    } else if same_text(lang, "python") {
        Some(AdapterKind::Python)
    } else if same_text(lang, "typescript") || same_text(lang, "javascript") {
        Some(AdapterKind::TypeScript)
    } else {
        None
    }
}

/// The registered language names, sorted.
pub fn registered_languages() -> (r: Vec<String>)
    ensures
        views_of(r@) == language_names(),
{
    let mut v: Vec<String> = Vec::new();
    v.push("go".to_owned());
    v.push("java".to_owned());
    v.push("javascript".to_owned());
    v.push("python".to_owned());
    v.push("rust".to_owned());
    v.push("typescript".to_owned());
    assert(views_of(v@) =~= language_names());
    v
}

/// Every registered language has an adapter, and the names come sorted,
/// each once.
pub proof fn law_registered_languages()
    ensures
        forall|i: int| 0 <= i < language_names().len() ==> #[trigger] adapter_kind_of(language_names()[i]) is Some,
        forall|i: int, j: int| 0 <= i < j < language_names().len() ==> text_lt(language_names()[i], language_names()[j]),
{
    reveal_strlit("go");
    reveal_strlit("java");
    reveal_strlit("javascript");
    reveal_strlit("python");
    reveal_strlit("rust");
    reveal_strlit("typescript");
    let n = language_names();
    assert forall|i: int, j: int| 0 <= i < j < n.len() implies text_lt(n[i], n[j]) by {
        reveal_with_fuel(text_lt, 6);
    }
}

/// The key languages are listed by: their name.
pub open spec fn name_keys(names: Seq<String>) -> Seq<KeyView> {
    Seq::new(names.len(), |i: int| KeyView { t1: names[i]@, n1: 0, n2: 0, t2: Seq::empty(), n3: 0 })
}

/// Names stably sorted.
pub open spec fn sorted_names(names: Seq<String>) -> Seq<String> {
    let o = stable_order(name_keys(names), names.len() as int);
    Seq::new(o.len(), |k: int| names[o[k]])
}

/// Language names sorted (`Registry::list_languages`).
pub fn sort_languages(names: &Vec<String>) -> (r: Vec<String>)
    ensures
        r@ == sorted_names(names@),
{
    let mut keys: Vec<SortKey> = Vec::new();
    let mut i: usize = 0;
    while i < names.len()
        invariant
            i <= names.len(),
            keys@.len() == i,
            forall|k: int| 0 <= k < i ==> (#[trigger] keys@[k])@ == name_keys(names@)[k],
        decreases names.len() - i,
    {
        let key = SortKey { t1: chars_of(names[i].as_str()), n1: 0, n2: 0, t2: Vec::new(), n3: 0 };
        assert(key@.t2 =~= Seq::<char>::empty());
        keys.push(key);
        i += 1;
    }
    assert(key_views(keys@) =~= name_keys(names@));
    let order = stable_order_exec(&keys);
    proof {
        lemma_stable_order_perm(name_keys(names@), names@.len() as int);
    }
    let ghost o = stable_order(name_keys(names@), names@.len() as int);
    let mut out: Vec<String> = Vec::new();
    let mut k: usize = 0;
    while k < order.len()
        invariant
            k <= order.len(),
            order@.len() == names@.len(),
            o.len() == names@.len(),
            o == stable_order(name_keys(names@), names@.len() as int),
            forall|j: int| 0 <= j < order@.len() ==> order@[j] as int == #[trigger] o[j],
            forall|j: int| 0 <= j < o.len() ==> 0 <= #[trigger] o[j] < names@.len(),
            out@ =~= Seq::new(k as nat, |j: int| names@[o[j]]),
        decreases order.len() - k,
    {
        let idx = order[k];
        assert(o[k as int] == idx as int);
        out.push(names[idx].clone());
        assert(out@ =~= Seq::new((k + 1) as nat, |j: int| names@[o[j]]));
        k += 1;
    }
    out
}

} // verus!
