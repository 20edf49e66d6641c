//! What the directory walk decides: which files are selected by the
//! inclusion and ignore globs, which look like text, which patterns an
//! ignore file holds, the language of a path and the order of the listing.
//! Reading directories and files is the caller's part.
use vstd::prelude::*;
use crate::infra::globs::{
    PatternSet, add_glob, build_glob_set, glob_valid, globs_build, globs_match, new_glob, new_glob_set_builder, set_is_match,
};
use crate::domain::types::FileRecord;
use crate::lines::{lines, lines_exec};
use crate::order::{
    KeyView, SortKey, key_gt, key_views, lemma_stable_order_perm, lemma_stable_order_sorted, stable_order, stable_order_exec,
    text_lt,
};
use crate::text::{chars_of, lowercase, starts_with, string_of, to_lowercase, trim, trim_chars, views_of};

verus! {

/// What to walk and which files to keep.
#[derive(Debug, Clone)]
pub struct ScanOptions {
    pub path: String,
    pub include_patterns: Vec<String>,
    pub ignore_patterns: Vec<String>,
    pub follow_links: bool,
    pub load_ignores: bool,
}

impl ScanOptions {
    /// Every file under `path`, links not followed, no ignore files read.
    pub fn new(path: &str) -> (r: Self)
        ensures
            r.path@ == path@,
            r.include_patterns@.len() == 0,
            r.ignore_patterns@.len() == 0,
            !r.follow_links,
            !r.load_ignores,
    {
        ScanOptions {
            path: path.to_owned(),
            include_patterns: Vec::new(),
            ignore_patterns: Vec::new(),
            follow_links: false,
            load_ignores: false,
        }
    }

    /// Adds a glob that a file must match (any of them).
    pub fn with_include(self, pattern: &str) -> (r: Self)
        ensures
            views_of(r.include_patterns@) == views_of(self.include_patterns@).push(pattern@),
            r.ignore_patterns@ == self.ignore_patterns@,
            r.path == self.path,
            r.follow_links == self.follow_links,
            r.load_ignores == self.load_ignores,
    {
        let mut s = self;
        let ghost before = views_of(s.include_patterns@);
        s.include_patterns.push(pattern.to_owned());
        assert(views_of(s.include_patterns@) =~= before.push(pattern@));
        s
    }

    /// Adds a glob that excludes the files it matches.
    pub fn with_ignore(self, pattern: &str) -> (r: Self)
        ensures
            views_of(r.ignore_patterns@) == views_of(self.ignore_patterns@).push(pattern@),
            r.include_patterns@ == self.include_patterns@,
            r.path == self.path,
            r.follow_links == self.follow_links,
            r.load_ignores == self.load_ignores,
    {
        let mut s = self;
        let ghost before = views_of(s.ignore_patterns@);
        s.ignore_patterns.push(pattern.to_owned());
        assert(views_of(s.ignore_patterns@) =~= before.push(pattern@));
        s
    }

    /// Whether symbolic links are followed.
    pub fn follow_links(self, follow: bool) -> (r: Self)
        ensures
            r.follow_links == follow,
            r.include_patterns@ == self.include_patterns@,
            r.ignore_patterns@ == self.ignore_patterns@,
            r.path == self.path,
            r.load_ignores == self.load_ignores,
    {
        let mut s = self;
        s.follow_links = follow;
        s
    }

    /// Whether `.gitignore` and `.crushignore` are read.
    pub fn with_load_ignores(self, load: bool) -> (r: Self)
        ensures
            r.load_ignores == load,
            r.include_patterns@ == self.include_patterns@,
            r.ignore_patterns@ == self.ignore_patterns@,
            r.path == self.path,
            r.follow_links == self.follow_links,
    {
        let mut s = self;
        s.load_ignores = load;
        s
    }
}

/// Why a walk could not start.
#[derive(Debug)]
pub enum WalkerError {
    /// A glob pattern is invalid.
    Glob(globset::Error),
}

impl WalkerError {
    pub fn is_glob_error(&self) -> (r: bool)
        ensures
            r == (self is Glob),
    {
        match self {
            WalkerError::Glob(_) => true,
        }
    }
}

// ---------------------------------------------------------------------------
// Globs
// ---------------------------------------------------------------------------

/// A compiled set of glob patterns; its patterns are those the set was
/// built from.
pub struct GlobFilter {
    set: PatternSet,
}

impl GlobFilter {
    /// The patterns.
    pub closed spec fn pattern_views(&self) -> Seq<Seq<char>> {
        self.set@
    }
}

fn filter_is_match(filter: &GlobFilter, path: &str) -> (r: bool)
    ensures
        r == globs_match(filter.pattern_views(), path@),
{
    set_is_match(&filter.set, path)
}

/// Whether every pattern is a valid glob.
pub open spec fn all_globs_valid(patterns: Seq<Seq<char>>) -> bool {
    forall|i: int| 0 <= i < patterns.len() ==> #[trigger] glob_valid(patterns[i])
}

/// Whether a filter can be built from these patterns: none at all, or all
/// valid and their set builds.
pub open spec fn globset_builds(patterns: Seq<Seq<char>>) -> bool {
    patterns.len() == 0 || (all_globs_valid(patterns) && globs_build(patterns))
}

/// `build_globset`: no filter for no patterns; else a filter of all the
/// patterns, or the error of the first invalid one, or of the set's build.
pub fn build_globset(patterns: &Vec<String>) -> (r: Result<Option<GlobFilter>, WalkerError>)
    ensures
        patterns@.len() == 0 <==> r matches Ok(None),
        r is Ok <==> globset_builds(views_of(patterns@)),
        r matches Ok(Some(f)) ==> f.pattern_views() == views_of(patterns@) && patterns@.len() > 0,
{
    if patterns.len() == 0 {
        return Ok(None);
    }
    let ghost ps = views_of(patterns@);
    let mut builder = new_glob_set_builder();
    let mut i: usize = 0;
    while i < patterns.len()
        invariant
            i <= patterns.len(),
            ps == views_of(patterns@),
            builder@ == ps.take(i as int),
            forall|j: int| 0 <= j < i ==> #[trigger] glob_valid(ps[j]),
        decreases patterns.len() - i,
    {
        match new_glob(patterns[i].as_str()) {
            Ok(g) => {
                add_glob(&mut builder, g);
                assert(ps.take(i + 1) =~= ps.take(i as int).push(ps[i as int]));
            },
            Err(e) => {
                assert(!glob_valid(ps[i as int]));
                return Err(WalkerError::Glob(e));
            },
        }
        i += 1;
    }
    assert(ps.take(patterns.len() as int) =~= ps);
    match build_glob_set(&builder) {
        Ok(set) => Ok(Some(GlobFilter { set })),
        Err(e) => Err(WalkerError::Glob(e)),
    }
}

/// `matches_glob`: whether a filter exists and matches.
pub fn matches_glob(set: &Option<GlobFilter>, value: &str) -> (r: bool)
    ensures
        r == match set { Some(f) => globs_match(f.pattern_views(), value@), None => false },
{
    match set {
        Some(f) => filter_is_match(f, value),
        None => false,
    }
}

/// The ignore patterns of a walk: the given ones, then (when ignore files
/// are read) their patterns and the ignore files themselves.
pub open spec fn effective_ignores(opts: ScanOptions, loaded: Seq<Seq<char>>) -> Seq<Seq<char>> {
    if opts.load_ignores {
        views_of(opts.ignore_patterns@) + loaded + seq![".gitignore"@, ".crushignore"@]
    } else {
        views_of(opts.ignore_patterns@)
    }
}

/// The filters of a walk.
pub struct WalkFilters {
    pub included: Option<GlobFilter>,
    pub ignore: Option<GlobFilter>,
}

impl WalkFilters {
    /// The filter of the options' inclusion patterns and the ignore
    /// filter of the effective ignore patterns (`loaded` holds the patterns
    /// read from the ignore files).
    pub fn new(opts: &ScanOptions, loaded: &Vec<String>) -> (r: Result<WalkFilters, WalkerError>)
        ensures
            r matches Ok(w) ==> (match w.included {
                Some(f) => f.pattern_views() == views_of(opts.include_patterns@),
                None => opts.include_patterns@.len() == 0,
            }) && (match w.ignore {
                Some(f) => f.pattern_views() == effective_ignores(*opts, views_of(loaded@)),
                None => effective_ignores(*opts, views_of(loaded@)).len() == 0,
            }),
            r is Ok <==> globset_builds(views_of(opts.include_patterns@))
                && globset_builds(effective_ignores(*opts, views_of(loaded@))),
            opts.include_patterns@.len() == 0 && effective_ignores(*opts, views_of(loaded@)).len() == 0
                ==> (r matches Ok(w) && w.included is None && w.ignore is None),
    {
        let included = build_globset(&opts.include_patterns)?;
        let mut ignores = crate::text::copy_strings(&opts.ignore_patterns);
        if opts.load_ignores {
            let mut i: usize = 0;
            let ghost base = views_of(ignores@);
            while i < loaded.len()
                invariant
                    i <= loaded.len(),
                    views_of(ignores@) =~= base + views_of(loaded@).take(i as int),
                decreases loaded.len() - i,
            {
                let ghost before = views_of(ignores@);
                ignores.push(loaded[i].clone());
                assert(views_of(ignores@) =~= before.push(loaded@[i as int]@));
                assert(views_of(loaded@).take(i + 1) =~= views_of(loaded@).take(i as int).push(loaded@[i as int]@));
                i += 1;
            }
            assert(views_of(loaded@).take(loaded.len() as int) =~= views_of(loaded@));
            let ghost mid = views_of(ignores@);
            ignores.push(".gitignore".to_owned());
            ignores.push(".crushignore".to_owned());
            assert(views_of(ignores@) =~= mid + seq![".gitignore"@, ".crushignore"@]);
        }
        assert(views_of(ignores@) =~= effective_ignores(*opts, views_of(loaded@)));
        let ignore = build_globset(&ignores)?;
        Ok(WalkFilters { included, ignore })
    }

    /// Whether a file (by its path relative to the root) is walked: no
    /// ignore pattern matches it and, when there are inclusion patterns, one
    /// of them does.
    pub fn selects(&self, relative_path: &str) -> (r: bool)
        ensures
            r == (!(match self.ignore { Some(f) => globs_match(f.pattern_views(), relative_path@), None => false })
                && match self.included { Some(f) => globs_match(f.pattern_views(), relative_path@), None => true }),
    {
        if matches_glob(&self.ignore, relative_path) {
            return false;
        }
        match &self.included {
            Some(f) => filter_is_match(f, relative_path),
            None => true,
        }
    }
}

// ---------------------------------------------------------------------------
// Text detection, ignore files, languages, order
// ---------------------------------------------------------------------------

/// `std::str::from_utf8(bytes).is_ok()`: whether the bytes are valid UTF-8.
#[verifier::external_body]
fn utf8_valid(bytes: &[u8]) -> (r: bool)
    ensures
        r == vstd::utf8::valid_utf8(bytes@),
{
    std::str::from_utf8(bytes).is_ok()
}

/// Whether the head of a file looks like text: empty, or free of zero bytes
/// and valid UTF-8.
pub open spec fn looks_like_text(head: Seq<u8>) -> bool {
    head.len() == 0 || (!head.contains(0u8) && vstd::utf8::valid_utf8(head))
}

/// `is_likely_text` on the bytes read from the head of a file.
pub fn is_likely_text(head: &[u8]) -> (r: bool)
    ensures
        r == looks_like_text(head@),
{
    if head.len() == 0 {
        return true;
    }
    let mut i: usize = 0;
    while i < head.len()
        invariant
            i <= head.len(),
            forall|j: int| 0 <= j < i ==> head@[j] != 0u8,
        decreases head.len() - i,
    {
        if head[i] == 0 {
            assert(head@.contains(0u8));
            return false;
        }
        i += 1;
    }
    utf8_valid(head)
}

/// The patterns of an ignore file: its trimmed lines, without blank lines
/// and comments (lines starting with `#`).
pub open spec fn ignore_lines_upto(ls: Seq<Seq<char>>, n: int) -> Seq<Seq<char>>
    decreases n,
{
    if n <= 0 {
        Seq::empty()
    } else {
        let prev = ignore_lines_upto(ls, n - 1);
        let t = trim(ls[n - 1]);
        if t.len() == 0 || starts_with(t, "#"@) { prev } else { prev.push(t) }
    }
}

/// The patterns of an ignore file's text.
pub open spec fn ignore_patterns_of(content: Seq<char>) -> Seq<Seq<char>> {
    ignore_lines_upto(lines(content), lines(content).len() as int)
}

/// The patterns an ignore file's text holds (the part of
/// `load_ignore_patterns` after the file is read).
pub fn parse_ignore_file(content: &str) -> (r: Vec<String>)
    ensures
        views_of(r@) == ignore_patterns_of(content@),
{
    let c = chars_of(content);
    let ls = lines_exec(c.as_slice());
    let ghost lv = ls@.map_values(|v: Vec<char>| v@);
    let hash = chars_of("#");
    let mut out: Vec<String> = Vec::new();
    let mut i: usize = 0;
    while i < ls.len()
        invariant
            i <= ls.len(),
            lv == ls@.map_values(|v: Vec<char>| v@),
            lv == lines(content@),
            hash@ == "#"@,
            views_of(out@) == ignore_lines_upto(lv, i as int),
        decreases ls.len() - i,
    {
        let t = trim_chars(ls[i].as_slice());
        assert(lv[i as int] == ls@[i as int]@);
        if !(t.len() == 0 || crate::text::starts_with_exec(t.as_slice(), hash.as_slice())) {
            let ghost before = views_of(out@);
            out.push(string_of(t.as_slice()));
            assert(views_of(out@) =~= before.push(t@));
        }
        i += 1;
    }
    out
}

/// What the walk does with a file it meets.
#[derive(Debug, Clone, PartialEq, Eq)]
pub enum EntryVerdict {
    /// The filters leave the file out.
    Skip,
    /// The file is reported as not listable, for the given reason.
    Invalid(String),
    /// The file is read and recorded.
    Record,
}

/// The walk's decision on a file, by its path relative to the root and
/// the bytes read from its head (`None` when it could not be read): files
/// the filters leave out are skipped; a file that cannot be read is
/// `io_error`, one that does not look like text `non_utf8_or_binary`;
/// others are recorded.
pub fn judge_entry(filters: &WalkFilters, relative_path: &str, head: Option<&[u8]>) -> (r: EntryVerdict)
    ensures
        ({
            let selected = !(match filters.ignore { Some(f) => globs_match(f.pattern_views(), relative_path@), None => false })
                && match filters.included { Some(f) => globs_match(f.pattern_views(), relative_path@), None => true };
            if !selected {
                r == EntryVerdict::Skip
            } else {
                match head {
                    None => r matches EntryVerdict::Invalid(why) && why@ == "io_error"@,
                    Some(h) => if looks_like_text(h@) {
                        r == EntryVerdict::Record
                    } else {
                        r matches EntryVerdict::Invalid(why) && why@ == "non_utf8_or_binary"@
                    },
                }
            }
        }),
{
    if !filters.selects(relative_path) {
        return EntryVerdict::Skip;
    }
    match head {
        None => EntryVerdict::Invalid("io_error".to_owned()),
        Some(h) => if is_likely_text(h) {
            EntryVerdict::Record
        } else {
            EntryVerdict::Invalid("non_utf8_or_binary".to_owned())
        },
    }
}

/// The language of a file's extension (in lower case), for the listing.
pub open spec fn listed_language(ext: Seq<char>) -> Option<Seq<char>> {
    let e = lowercase(ext);
    if e == "rs"@ {
        Some("rust"@)
    } else if e == "go"@ {
        Some("go"@)
    } else if e == "py"@ {
        Some("python"@)
    } else if e == "ts"@ || e == "tsx"@ {
        Some("typescript"@)
    } else if e == "js"@ {
        Some("javascript"@)
    } else if e == "java"@ {
        Some("java"@)
    } else if e == "c"@ || e == "h"@ {
        Some("c"@)
    } else if e == "cpp"@ {
        Some("cpp"@)
    } else if e == "cs"@ {
        Some("csharp"@)
    } else if e == "swift"@ {
        Some("swift"@)
    } else if e == "kt"@ || e == "kts"@ {
        Some("kotlin"@)
    } else if e == "php"@ {
        Some("php"@)
    } else if e == "rb"@ {
        Some("ruby"@)
    } else {
        None
    }
}

fn lit(a: &[char], b: &str) -> (r: bool)
    ensures
        r == (a@ == b@),
{
    let bc = chars_of(b);
    crate::text::seq_eq(a, bc.as_slice())
}

/// The language the walk records for a path.
pub fn detect_language(path: &str) -> (r: Option<String>)
    ensures
        match r { Some(s) => Some(s@), None => None::<Seq<char>> } == match crate::application::indexer::extension(path@) {
            Some(e) => listed_language(e),
            None => None,
        },
{
    let ext = match crate::application::indexer::extension_exec(path) {
        Some(e) => e,
        None => {
            return None;
        },
    };
    let es = string_of(ext.as_slice());
    let low = to_lowercase(es.as_str());
    let e = chars_of(low.as_str());
    let e = e.as_slice();
    let name = if lit(e, "rs") {
        "rust"
    } else if lit(e, "go") {
        "go"
    } else if lit(e, "py") {
        "python"
    } else if lit(e, "ts") || lit(e, "tsx") {
        "typescript"
    } else if lit(e, "js") {
        "javascript"
    } else if lit(e, "java") {
        "java"
    } else if lit(e, "c") || lit(e, "h") {
        "c"
    } else if lit(e, "cpp") {
        "cpp"
    } else if lit(e, "cs") {
        "csharp"
    } else if lit(e, "swift") {
        "swift"
    } else if lit(e, "kt") || lit(e, "kts") {
        "kotlin"
    } else if lit(e, "php") {
        "php"
    } else if lit(e, "rb") {
        "ruby"
    } else {
        return None;
    };
    Some(name.to_owned())
}

/// The record of a walked file; its language is read from its full path.
pub fn file_record(relative_path: String, size: u64, mtime: u64, hash: String, full_path: &str) -> (r: FileRecord)
    ensures
        r.path == relative_path,
        r.size == size,
        r.mtime == mtime,
        r.hash == hash,
        match r.language { Some(s) => Some(s@), None => None::<Seq<char>> } == match crate::application::indexer::extension(full_path@) {
            Some(e) => listed_language(e),
            None => None,
        },
{
    FileRecord { path: relative_path, size, mtime, hash, language: detect_language(full_path) }
}

/// The key files are listed by: their path.
pub open spec fn record_keys(rs: Seq<FileRecord>) -> Seq<KeyView> {
    Seq::new(rs.len(), |i: int| KeyView { t1: rs[i].path@, n1: 0, n2: 0, t2: Seq::empty(), n3: 0 })
}

/// The records stably sorted by path.
pub open spec fn sorted_records(rs: Seq<FileRecord>) -> Seq<FileRecord> {
    let o = stable_order(record_keys(rs), rs.len() as int);
    Seq::new(o.len(), |k: int| rs[o[k]])
}

/// Records sorted by path come in order of path, and hold the same
/// records.
pub proof fn law_sorted_records_ordered(rs: Seq<FileRecord>)
    ensures
        sorted_records(rs).len() == rs.len(),
        forall|i: int, j: int| 0 <= i < j < rs.len() ==> !text_lt(#[trigger] sorted_records(rs)[j].path@, #[trigger] sorted_records(rs)[i].path@),
        forall|k: int| 0 <= k < rs.len() ==> exists|j: int| 0 <= j < rs.len() && #[trigger] sorted_records(rs)[k] == rs[j],
{
    let kv = record_keys(rs);
    lemma_stable_order_perm(kv, rs.len() as int);
    lemma_stable_order_sorted(kv, rs.len() as int);
    let o = stable_order(kv, rs.len() as int);
    assert forall|i: int, j: int| 0 <= i < j < rs.len() implies !text_lt(#[trigger] sorted_records(rs)[j].path@, #[trigger] sorted_records(rs)[i].path@) by {
        assert(!key_gt(kv[o[i]], kv[o[j]]));
        crate::order::lemma_text_order(rs[o[i]].path@, rs[o[j]].path@, rs[o[j]].path@);
    }
    assert forall|k: int| 0 <= k < rs.len() implies exists|j: int| 0 <= j < rs.len() && #[trigger] sorted_records(rs)[k] == rs[j] by {
        assert(sorted_records(rs)[k] == rs[o[k]]);
    }
}

/// The records sorted by path (`walk_path`'s order).
pub fn sort_by_path(records: &Vec<FileRecord>) -> (r: Vec<FileRecord>)
    ensures
        r@ == sorted_records(records@),
{
    let mut keys: Vec<SortKey> = Vec::new();
    let mut i: usize = 0;
    while i < records.len()
        invariant
            i <= records.len(),
            keys@.len() == i,
            forall|k: int| 0 <= k < i ==> (#[trigger] keys@[k])@ == record_keys(records@)[k],
        decreases records.len() - i,
    {
        let key = SortKey { t1: chars_of(records[i].path.as_str()), n1: 0, n2: 0, t2: Vec::new(), n3: 0 };
        assert(key@.t2 =~= Seq::<char>::empty());
        keys.push(key);
        i += 1;
    }
    assert(key_views(keys@) =~= record_keys(records@));
    let order = stable_order_exec(&keys);
    proof {
        lemma_stable_order_perm(record_keys(records@), records@.len() as int);
    }
    let ghost o = stable_order(record_keys(records@), records@.len() as int);
    let mut out: Vec<FileRecord> = Vec::new();
    let mut k: usize = 0;
    while k < order.len()
        invariant
            k <= order.len(),
            order@.len() == records@.len(),
            o.len() == records@.len(),
            o == stable_order(record_keys(records@), records@.len() as int),
            forall|j: int| 0 <= j < order@.len() ==> order@[j] as int == #[trigger] o[j],
            forall|j: int| 0 <= j < o.len() ==> 0 <= #[trigger] o[j] < records@.len(),
            out@ =~= Seq::new(k as nat, |j: int| records@[o[j]]),
        decreases order.len() - k,
    {
        let idx = order[k];
        assert(o[k as int] == idx as int);
        out.push(records[idx].duplicate());
        assert(out@ =~= Seq::new((k + 1) as nat, |j: int| records@[o[j]]));
        k += 1;
    }
    out
}

} // verus!
