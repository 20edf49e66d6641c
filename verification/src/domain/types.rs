//! The records that the indexer produces: files, symbols, chunks and the
//! import and call edges between them.
use vstd::prelude::*;

verus! {

/// A file found while walking a directory.
#[derive(Debug, Clone, PartialEq, Eq)]
pub struct FileRecord {
    pub path: String,
    pub size: u64,
    pub mtime: u64,
    pub hash: String,
    pub language: Option<String>,
}

impl FileRecord {
    /// A field-by-field copy.
    pub fn duplicate(&self) -> (r: FileRecord)
        ensures
            r == *self,
    {
        FileRecord {
            path: self.path.clone(),
            size: self.size,
            mtime: self.mtime,
            hash: self.hash.clone(),
            language: crate::text::copy_opt_string(&self.language),
        }
    }
}

/// A symbol as a language adapter extracts it.
#[derive(Debug, Clone, PartialEq, Eq)]
pub struct Symbol {
    pub id: String,
    pub name: String,
    pub kind: String,
    pub scope: Option<String>,
    pub file_path: String,
    pub start_line: usize,
    pub end_line: usize,
    pub signature: Option<String>,
}

impl Symbol {
    /// A field-by-field copy.
    pub fn duplicate(&self) -> (r: Symbol)
        ensures
            r == *self,
    {
        Symbol {
            id: self.id.clone(),
            name: self.name.clone(),
            kind: self.kind.clone(),
            scope: crate::text::copy_opt_string(&self.scope),
            file_path: self.file_path.clone(),
            start_line: self.start_line,
            end_line: self.end_line,
            signature: crate::text::copy_opt_string(&self.signature),
        }
    }
}

/// A symbol with its qualified name and overload information.
#[derive(Debug, Clone, PartialEq, Eq)]
pub struct NormalizedSymbol {
    pub id: String,
    pub name: String,
    pub kind: String,
    pub qualified_name: String,
    pub file_path: String,
    pub start_line: usize,
    pub end_line: usize,
    pub signature: Option<String>,
    pub language: Option<String>,
    pub is_overloaded: bool,
    pub overload_index: usize,
}

/// A value in a chunk's metadata.
#[derive(Debug, Clone, PartialEq, Eq)]
pub enum MetaValue {
    Text(String),
    Number(u64),
    Flag(bool),
}

/// A chunk's metadata: named values, each name at most once.
#[derive(Debug, Clone, PartialEq, Eq)]
pub struct Metadata {
    pub entries: Vec<(String, MetaValue)>,
}

/// The position of the first entry named `key` at or after `i`.
pub open spec fn meta_index_from(entries: Seq<(String, MetaValue)>, key: Seq<char>, i: int) -> Option<int>
    decreases entries.len() - i,
{
    if i < 0 || i >= entries.len() {
        None
    } else if entries[i].0@ == key {
        Some(i)
    } else {
        meta_index_from(entries, key, i + 1)
    }
}

/// The value stored under `key`, if any.
pub open spec fn meta_get(m: Metadata, key: Seq<char>) -> Option<MetaValue> {
    match meta_index_from(m.entries@, key, 0) {
        Some(i) => Some(m.entries@[i].1),
        None => None,
    }
}

/// The names of the entries, in order.
pub open spec fn meta_keys(m: Metadata) -> Seq<Seq<char>> {
    m.entries@.map_values(|e: (String, MetaValue)| e.0@)
}

impl Metadata {
    /// No metadata.
    pub fn new() -> (r: Metadata)
        ensures
            r.entries@.len() == 0,
            meta_map(r) == Map::<Seq<char>, MetaView>::empty(),
    {
        let r = Metadata { entries: Vec::new() };
        assert(meta_map(r) =~= Map::<Seq<char>, MetaView>::empty());
        r
    }

    /// The value stored under `key`.
    pub fn get(&self, key: &str) -> (r: Option<&MetaValue>)
        ensures
            r matches Some(v) ==> meta_get(*self, key@) == Some(*v),
            r is None ==> meta_get(*self, key@) is None,
    {
        let k = crate::text::chars_of(key);
        let mut i: usize = 0;
        while i < self.entries.len()
            invariant
                i <= self.entries.len(),
                k@ == key@,
                meta_index_from(self.entries@, key@, 0) == meta_index_from(self.entries@, key@, i as int),
            decreases self.entries.len() - i,
        {
            let name = crate::text::chars_of(self.entries[i].0.as_str());
            if crate::text::seq_eq(name.as_slice(), k.as_slice()) {
                return Some(&self.entries[i].1);
            }
            i += 1;
        }
        None
    }

    /// Stores `value` under `key`, replacing a value already stored there.
    pub fn insert(&mut self, key: String, value: MetaValue)
        ensures
            meta_get(*final(self), key@) == Some(value),
            forall|k: Seq<char>| k != key@ ==> meta_get(*final(self), k) == meta_get(*old(self), k),
            meta_map(*final(self)) == meta_map(*old(self)).insert(key@, meta_view(value)),
    {
        let k = crate::text::chars_of(key.as_str());
        let mut i: usize = 0;
        while i < self.entries.len()
            invariant
                i <= self.entries.len(),
                k@ == key@,
                self.entries@ == old(self).entries@,
                meta_index_from(self.entries@, key@, 0) == meta_index_from(self.entries@, key@, i as int),
            decreases self.entries.len() - i,
        {
            let name = crate::text::chars_of(self.entries[i].0.as_str());
            if crate::text::seq_eq(name.as_slice(), k.as_slice()) {
                let ghost before = *self;
                let e = (key, value);
                let ghost eg = e;
                self.entries.set(i, e);
                proof {
                    lemma_meta_after_set(before, *self, i as int, eg);
                    lemma_meta_map_insert(before, *self, eg.0@, eg.1);
                }
                return;
            }
            i += 1;
        }
        let ghost before = *self;
        let e = (key, value);
        let ghost eg = e;
        self.entries.push(e);
        proof {
            lemma_meta_after_push(before, *self, eg);
            lemma_meta_map_insert(before, *self, eg.0@, eg.1);
        }
    }
}

proof fn lemma_meta_map_insert(old_m: Metadata, new_m: Metadata, key: Seq<char>, value: MetaValue)
    requires
        meta_get(new_m, key) == Some(value),
        forall|k: Seq<char>| k != key ==> meta_get(new_m, k) == meta_get(old_m, k),
    ensures
        meta_map(new_m) == meta_map(old_m).insert(key, meta_view(value)),
{
    assert(meta_map(new_m) =~= meta_map(old_m).insert(key, meta_view(value)));
}

proof fn lemma_meta_same_matches(a: Seq<(String, MetaValue)>, b: Seq<(String, MetaValue)>, k: Seq<char>, i: int)
    requires
        a.len() == b.len(),
        0 <= i,
        forall|j: int| i <= j < a.len() ==> ((#[trigger] a[j]).0@ == k) == (b[j].0@ == k),
    ensures
        meta_index_from(a, k, i) == meta_index_from(b, k, i),
    decreases a.len() - i,
{
    if i < a.len() {
        lemma_meta_same_matches(a, b, k, i + 1);
    }
}

proof fn lemma_meta_index_bound(a: Seq<(String, MetaValue)>, k: Seq<char>, i: int)
    requires
        meta_index_from(a, k, i) is Some,
    ensures
        i <= meta_index_from(a, k, i)->0 < a.len(),
        a[meta_index_from(a, k, i)->0].0@ == k,
    decreases a.len() - i,
{
    if a[i].0@ != k {
        lemma_meta_index_bound(a, k, i + 1);
    }
}

proof fn lemma_meta_push_from(before: Seq<(String, MetaValue)>, e: (String, MetaValue), k: Seq<char>, i: int)
    requires
        0 <= i <= before.len(),
    ensures
        k != e.0@ ==> meta_index_from(before.push(e), k, i) == meta_index_from(before, k, i),
        k == e.0@ && meta_index_from(before, k, i) is None ==> meta_index_from(before.push(e), k, i) == Some(before.len() as int),
    decreases before.len() - i,
{
    let after = before.push(e);
    if i < before.len() {
        assert(after[i] == before[i]);
        lemma_meta_push_from(before, e, k, i + 1);
    } else {
        assert(after[i] == e);
        assert(meta_index_from(after, k, i + 1) is None);
    }
}

proof fn lemma_meta_after_push(old_m: Metadata, new_m: Metadata, e: (String, MetaValue))
    requires
        new_m.entries@ == old_m.entries@.push(e),
        meta_index_from(old_m.entries@, e.0@, 0) is None,
    ensures
        meta_get(new_m, e.0@) == Some(e.1),
        forall|k: Seq<char>| k != e.0@ ==> meta_get(new_m, k) == meta_get(old_m, k),
{
    lemma_meta_push_from(old_m.entries@, e, e.0@, 0);
    assert forall|k: Seq<char>| k != e.0@ implies meta_get(new_m, k) == meta_get(old_m, k) by {
        lemma_meta_push_from(old_m.entries@, e, k, 0);
        if meta_index_from(old_m.entries@, k, 0) is Some {
            lemma_meta_index_bound(old_m.entries@, k, 0);
        }
    }
}

proof fn lemma_meta_after_set(old_m: Metadata, new_m: Metadata, i: int, e: (String, MetaValue))
    requires
        0 <= i < old_m.entries@.len(),
        new_m.entries@ == old_m.entries@.update(i, e),
        old_m.entries@[i].0@ == e.0@,
        meta_index_from(old_m.entries@, e.0@, 0) == Some(i),
    ensures
        meta_get(new_m, e.0@) == Some(e.1),
        forall|k: Seq<char>| k != e.0@ ==> meta_get(new_m, k) == meta_get(old_m, k),
{
    let before = old_m.entries@;
    let after = new_m.entries@;
    assert forall|j: int| 0 <= j < after.len() implies ((#[trigger] after[j]).0@ == e.0@) == (before[j].0@ == e.0@) by {
    }
    lemma_meta_same_matches(after, before, e.0@, 0);
    assert forall|k: Seq<char>| k != e.0@ implies meta_get(new_m, k) == meta_get(old_m, k) by {
        assert forall|j: int| 0 <= j < after.len() implies ((#[trigger] after[j]).0@ == k) == (before[j].0@ == k) by {
        }
        lemma_meta_same_matches(after, before, k, 0);
        if meta_index_from(before, k, 0) is Some {
            lemma_meta_index_bound(before, k, 0);
        }
    }
}

/// A chunk of source text.
#[derive(Debug, Clone, PartialEq, Eq)]
pub struct Chunk {
    pub id: String,
    pub file_path: String,
    pub start_line: usize,
    pub end_line: usize,
    /// Primary textual content of the chunk.
    pub content: String,
    /// The same text, kept for older consumers.
    pub text: String,
    /// Digest of the chunk content.
    pub md5: String,
    pub size: usize,
    pub language: Option<String>,
    /// Primary associated symbol (if any).
    pub symbol_id: Option<String>,
    /// All related symbols within this chunk.
    pub symbol_ids: Vec<String>,
    pub chunk_kind: Option<String>,
    /// Additional attributes.
    pub metadata: Option<Metadata>,
}

impl MetaValue {
    /// A copy.
    pub fn duplicate(&self) -> (r: MetaValue)
        ensures
            r == *self,
    {
        match self {
            MetaValue::Text(s) => MetaValue::Text(s.clone()),
            MetaValue::Number(n) => MetaValue::Number(*n),
            MetaValue::Flag(b) => MetaValue::Flag(*b),
        }
    }

    /// The number held, if the value is a number.
    pub fn as_u64(&self) -> (r: Option<u64>)
        ensures
            r == (match *self {
                MetaValue::Number(n) => Some(n),
                _ => None::<u64>,
            }),
    {
        match self {
            MetaValue::Number(n) => Some(*n),
            _ => None,
        }
    }
}

impl Metadata {
    /// A copy, entry by entry.
    pub fn duplicate(&self) -> (r: Metadata)
        ensures
            r.entries@ == self.entries@,
            meta_map(r) == meta_map(*self),
    {
        let mut out: Vec<(String, MetaValue)> = Vec::new();
        let mut i: usize = 0;
        while i < self.entries.len()
            invariant
                i <= self.entries.len(),
                out@ == self.entries@.take(i as int),
            decreases self.entries.len() - i,
        {
            let e = (self.entries[i].0.clone(), self.entries[i].1.duplicate());
            out.push(e);
            assert(self.entries@.take(i + 1) == self.entries@.take(i as int).push(self.entries@[i as int]));
            i += 1;
        }
        assert(self.entries@.take(self.entries.len() as int) == self.entries@);
        let r = Metadata { entries: out };
        assert(meta_map(r) =~= meta_map(*self));
        r
    }
}

/// The mathematical value of a symbol.
pub struct SymbolView {
    pub id: Seq<char>,
    pub name: Seq<char>,
    pub kind: Seq<char>,
    pub scope: Option<Seq<char>>,
    pub file_path: Seq<char>,
    pub start_line: int,
    pub end_line: int,
    pub signature: Option<Seq<char>>,
}

impl View for Symbol {
    type V = SymbolView;

    open spec fn view(&self) -> SymbolView {
        SymbolView {
            id: self.id@,
            name: self.name@,
            kind: self.kind@,
            scope: match self.scope { Some(s) => Some(s@), None => None },
            file_path: self.file_path@,
            start_line: self.start_line as int,
            end_line: self.end_line as int,
            signature: match self.signature { Some(s) => Some(s@), None => None },
        }
    }
}

/// The views of a sequence of symbols.
pub open spec fn symbol_views(v: Seq<Symbol>) -> Seq<SymbolView> {
    v.map_values(|s: Symbol| s@)
}

/// The mathematical value of an import edge.
pub struct ImportView {
    pub id: Seq<char>,
    pub from_file: Seq<char>,
    pub to_module: Seq<char>,
    pub imported_symbol: Option<Seq<char>>,
    pub alias: Option<Seq<char>>,
    pub import_kind: Seq<char>,
    pub location: Location,
    pub resolved: bool,
}

impl View for ImportEdge {
    type V = ImportView;

    open spec fn view(&self) -> ImportView {
        ImportView {
            id: self.id@,
            from_file: self.from_file@,
            to_module: self.to_module@,
            imported_symbol: match self.imported_symbol { Some(s) => Some(s@), None => None },
            alias: match self.alias { Some(s) => Some(s@), None => None },
            import_kind: self.import_kind@,
            location: self.location,
            resolved: self.resolved,
        }
    }
}

/// The views of a sequence of import edges.
pub open spec fn import_views(v: Seq<ImportEdge>) -> Seq<ImportView> {
    v.map_values(|e: ImportEdge| e@)
}

/// The mathematical value of a call edge.
pub struct CallView {
    pub id: Seq<char>,
    pub caller_symbol_id: Option<Seq<char>>,
    pub callee_name: Seq<char>,
    pub callee_symbol_id: Option<Seq<char>>,
    pub call_kind: Seq<char>,
    pub location: Location,
    pub resolved: bool,
}

impl View for CallEdge {
    type V = CallView;

    open spec fn view(&self) -> CallView {
        CallView {
            id: self.id@,
            caller_symbol_id: match self.caller_symbol_id { Some(s) => Some(s@), None => None },
            callee_name: self.callee_name@,
            callee_symbol_id: match self.callee_symbol_id { Some(s) => Some(s@), None => None },
            call_kind: self.call_kind@,
            location: self.location,
            resolved: self.resolved,
        }
    }
}

/// The views of a sequence of call edges.
pub open spec fn call_views(v: Seq<CallEdge>) -> Seq<CallView> {
    v.map_values(|e: CallEdge| e@)
}

/// The mathematical value of a metadata value.
pub enum MetaView {
    Text(Seq<char>),
    Number(u64),
    Flag(bool),
}

/// The value of a metadata value.
pub open spec fn meta_view(v: MetaValue) -> MetaView {
    match v {
        MetaValue::Text(s) => MetaView::Text(s@),
        MetaValue::Number(n) => MetaView::Number(n),
        MetaValue::Flag(b) => MetaView::Flag(b),
    }
}

/// The metadata as a map from names to values.
pub open spec fn meta_map(m: Metadata) -> Map<Seq<char>, MetaView> {
    Map::new(|k: Seq<char>| meta_get(m, k) is Some, |k: Seq<char>| meta_view(meta_get(m, k)->0))
}

/// The mathematical value of a chunk: its texts as character sequences and
/// its metadata as a map.
#[verifier::ext_equal]
pub struct ChunkView {
    pub id: Seq<char>,
    pub file_path: Seq<char>,
    pub start_line: int,
    pub end_line: int,
    pub content: Seq<char>,
    pub text: Seq<char>,
    pub md5: Seq<char>,
    pub size: int,
    pub language: Option<Seq<char>>,
    pub symbol_id: Option<Seq<char>>,
    pub symbol_ids: Seq<Seq<char>>,
    pub chunk_kind: Option<Seq<char>>,
    pub metadata: Option<Map<Seq<char>, MetaView>>,
}

impl View for Chunk {
    type V = ChunkView;

    open spec fn view(&self) -> ChunkView {
        ChunkView {
            id: self.id@,
            file_path: self.file_path@,
            start_line: self.start_line as int,
            end_line: self.end_line as int,
            content: self.content@,
            text: self.text@,
            md5: self.md5@,
            size: self.size as int,
            language: match self.language { Some(s) => Some(s@), None => None },
            symbol_id: match self.symbol_id { Some(s) => Some(s@), None => None },
            symbol_ids: crate::text::views_of(self.symbol_ids@),
            chunk_kind: match self.chunk_kind { Some(s) => Some(s@), None => None },
            metadata: match self.metadata { Some(m) => Some(meta_map(m)), None => None },
        }
    }
}

/// The views of a sequence of chunks.
pub open spec fn chunk_views(v: Seq<Chunk>) -> Seq<ChunkView> {
    v.map_values(|c: Chunk| c@)
}

/// Why a chunk is not valid.
#[derive(Debug, Clone, PartialEq, Eq)]
pub enum ChunkValidationError {
    /// `start_line` or `end_line` is zero.
    ZeroLine,
    /// `start_line` is after `end_line`.
    StartAfterEnd,
}

impl ChunkValidationError {
    /// The message of the error.
    pub fn message(&self) -> (r: String)
        ensures
            self is ZeroLine ==> r@ == "start_line and end_line must be >= 1"@,
            self is StartAfterEnd ==> r@ == "start_line must be <= end_line"@,
    {
        match self {
            ChunkValidationError::ZeroLine => "start_line and end_line must be >= 1".to_owned(),
            ChunkValidationError::StartAfterEnd => "start_line must be <= end_line".to_owned(),
        }
    }
}

impl Chunk {
    /// A copy, field by field.
    pub fn duplicate(&self) -> (r: Chunk)
        ensures
            r@ == self@,
    {
        Chunk {
            id: self.id.clone(),
            file_path: self.file_path.clone(),
            start_line: self.start_line,
            end_line: self.end_line,
            content: self.content.clone(),
            text: self.text.clone(),
            md5: self.md5.clone(),
            size: self.size,
            language: crate::text::copy_opt_string(&self.language),
            symbol_id: crate::text::copy_opt_string(&self.symbol_id),
            symbol_ids: crate::text::copy_strings(&self.symbol_ids),
            chunk_kind: crate::text::copy_opt_string(&self.chunk_kind),
            metadata: match &self.metadata {
                Some(m) => Some(m.duplicate()),
                None => None,
            },
        }
    }

    /// Validates the line range: both lines are at least 1 and the start is
    /// not after the end.
    pub fn validate(&self) -> (r: Result<(), ChunkValidationError>)
        ensures
            (self.start_line == 0 || self.end_line == 0) <==> r == Err::<(), ChunkValidationError>(ChunkValidationError::ZeroLine),
            (self.start_line != 0 && self.end_line != 0 && self.start_line > self.end_line)
                <==> r == Err::<(), ChunkValidationError>(ChunkValidationError::StartAfterEnd),
            r is Ok <==> 1 <= self.start_line <= self.end_line,
    {
        if self.start_line == 0 || self.end_line == 0 {
            return Err(ChunkValidationError::ZeroLine);
        }
        if self.start_line > self.end_line {
            return Err(ChunkValidationError::StartAfterEnd);
        }
        Ok(())
    }

    /// A one-line description: `Chunk { id: .., file: .., lines: a-b }`.
    pub fn describe(&self) -> (r: String)
        ensures
            r@ == "Chunk { id: "@ + self.id@ + ", file: "@ + self.file_path@ + ", lines: "@
                + crate::text::decimal(self.start_line as nat) + "-"@ + crate::text::decimal(self.end_line as nat) + " }"@,
    {
        let mut out: Vec<char> = Vec::new();
        crate::text::append_str(&mut out, "Chunk { id: ");
        crate::text::append_str(&mut out, self.id.as_str());
        crate::text::append_str(&mut out, ", file: ");
        crate::text::append_str(&mut out, self.file_path.as_str());
        crate::text::append_str(&mut out, ", lines: ");
        crate::text::append_decimal(&mut out, self.start_line);
        crate::text::append_str(&mut out, "-");
        crate::text::append_decimal(&mut out, self.end_line);
        crate::text::append_str(&mut out, " }");
        crate::text::string_of(out.as_slice())
    }
}

/// A position range in a source file.
#[derive(Debug, Clone, Copy, PartialEq, Eq)]
pub struct Location {
    pub start_line: usize,
    pub start_col: usize,
    pub end_line: usize,
    pub end_col: usize,
}

/// An import from a file to a module.
#[derive(Debug, Clone, PartialEq, Eq)]
pub struct ImportEdge {
    pub id: String,
    pub from_file: String,
    pub to_module: String,
    pub imported_symbol: Option<String>,
    pub alias: Option<String>,
    pub import_kind: String,
    pub location: Location,
    pub resolved: bool,
}

impl ImportEdge {
    /// A field-by-field copy.
    pub fn duplicate(&self) -> (r: ImportEdge)
        ensures
            r == *self,
    {
        ImportEdge {
            id: self.id.clone(),
            from_file: self.from_file.clone(),
            to_module: self.to_module.clone(),
            imported_symbol: crate::text::copy_opt_string(&self.imported_symbol),
            alias: crate::text::copy_opt_string(&self.alias),
            import_kind: self.import_kind.clone(),
            location: self.location,
            resolved: self.resolved,
        }
    }
}

/// A call from a symbol to a callee.
#[derive(Debug, Clone, PartialEq, Eq)]
pub struct CallEdge {
    pub id: String,
    pub caller_symbol_id: Option<String>,
    pub callee_name: String,
    pub callee_symbol_id: Option<String>,
    pub call_kind: String,
    pub location: Location,
    pub resolved: bool,
}

impl CallEdge {
    /// A field-by-field copy.
    pub fn duplicate(&self) -> (r: CallEdge)
        ensures
            r == *self,
    {
        CallEdge {
            id: self.id.clone(),
            caller_symbol_id: crate::text::copy_opt_string(&self.caller_symbol_id),
            callee_name: self.callee_name.clone(),
            callee_symbol_id: crate::text::copy_opt_string(&self.callee_symbol_id),
            call_kind: self.call_kind.clone(),
            location: self.location,
            resolved: self.resolved,
        }
    }
}

} // verus!
