//! Core memory types.
//!
//! Identifiers are the 128-bit values of UUIDs; instants are microseconds
//! since the Unix epoch; `f32` quantities (importance, scores, embeddings)
//! are carried as their IEEE-754 bit patterns (see `floats`).

use vstd::prelude::*;
use crate::floats::{clamp_unit, f32_clamp_unit, F32_HALF, F32_ONE, F32_ZERO};
use crate::text::str_eq;

verus! {

/// Unique identifier for a memory entry (the 128-bit value of a UUID).
pub type MemoryId = u128;

/// Unique identifier for a workspace (the 128-bit value of a UUID).
pub type WorkspaceId = u128;

/// An instant, in microseconds since the Unix epoch.
pub type Timestamp = i64;

/// Memory lifecycle status.
#[derive(PartialEq, Eq, Structural, Clone, Copy, Debug)]
pub enum MemoryStatus {
    Active,
    Cooling,
    Cold,
    Zombie,
}

/// The name under which a status is displayed.
pub open spec fn status_name(s: MemoryStatus) -> Seq<char> {
    match s {
        MemoryStatus::Active => "Active"@,
        MemoryStatus::Cooling => "Cooling"@,
        MemoryStatus::Cold => "Cold"@,
        MemoryStatus::Zombie => "Zombie"@,
    }
}

impl MemoryStatus {
    /// The display name of the status: "Active", "Cooling", "Cold" or "Zombie".
    pub fn as_str(&self) -> (r: &'static str)
        ensures
            r@ == status_name(*self),
    {
        match self {
            MemoryStatus::Active => "Active",
            MemoryStatus::Cooling => "Cooling",
            MemoryStatus::Cold => "Cold",
            MemoryStatus::Zombie => "Zombie",
        }
    }

    /// The display name of the status as an owned string.
    pub fn to_display_string(&self) -> (r: String)
        ensures
            r@ == status_name(*self),
    {
        self.as_str().to_string()
    }
}

impl View for MemoryStatus {
    type V = MemoryStatus;

    open spec fn view(&self) -> MemoryStatus {
        *self
    }
}

impl Default for MemoryStatus {
    fn default() -> (r: Self)
        ensures
            r == MemoryStatus::Active,
    {
        MemoryStatus::Active
    }
}

/// File type enumeration.
#[derive(PartialEq, Eq, Structural, Clone, Copy, Debug)]
pub enum FileType {
    SourceCode,
    Documentation,
    Configuration,
    Data,
    Other,
}

/// The file type of an already lower-cased extension.
pub open spec fn file_type_of(ext: Seq<char>) -> FileType {
    if ext == "rs"@ || ext == "js"@ || ext == "ts"@ || ext == "jsx"@ || ext == "tsx"@ || ext
        == "py"@ || ext == "go"@ || ext == "java"@ || ext == "c"@ || ext == "cpp"@ || ext == "h"@
        || ext == "hpp"@ || ext == "cs"@ || ext == "rb"@ || ext == "php"@ || ext == "swift"@ || ext
        == "kt"@ || ext == "scala"@ || ext == "vue"@ || ext == "svelte"@ {
        FileType::SourceCode
    } else if ext == "md"@ || ext == "txt"@ || ext == "rst"@ || ext == "adoc"@ || ext == "tex"@ {
        FileType::Documentation
    } else if ext == "json"@ || ext == "yaml"@ || ext == "yml"@ || ext == "toml"@ || ext
        == "xml"@ || ext == "ini"@ || ext == "env"@ || ext == "conf"@ || ext == "config"@ {
        FileType::Configuration
    } else if ext == "csv"@ || ext == "tsv"@ || ext == "sql"@ || ext == "parquet"@ || ext
        == "arrow"@ {
        FileType::Data
    } else {
        FileType::Other
    }
}

impl FileType {
    /// The file type of an extension, compared without regard to case.
    pub fn from_extension(ext: &str) -> (r: FileType)
        ensures
            r == file_type_of(crate::text::lowercase_text(ext@)),
            crate::text::is_ascii_text(ext@) ==> r == file_type_of(crate::text::ascii_lower(ext@)),
    {
        let lower = crate::text::to_lowercase(ext);
        FileType::from_lowercase_extension(lower.as_str())
    }

    /// The file type of an extension that is already in lower case.
    pub fn from_lowercase_extension(e: &str) -> (r: FileType)
        ensures
            r == file_type_of(e@),
    {
        if str_eq(e, "rs") || str_eq(e, "js") || str_eq(e, "ts") || str_eq(e, "jsx") || str_eq(
            e,
            "tsx",
        ) || str_eq(e, "py") || str_eq(e, "go") || str_eq(e, "java") || str_eq(e, "c") || str_eq(
            e,
            "cpp",
        ) || str_eq(e, "h") || str_eq(e, "hpp") || str_eq(e, "cs") || str_eq(e, "rb") || str_eq(
            e,
            "php",
        ) || str_eq(e, "swift") || str_eq(e, "kt") || str_eq(e, "scala") || str_eq(e, "vue")
            || str_eq(e, "svelte") {
            FileType::SourceCode
        } else if str_eq(e, "md") || str_eq(e, "txt") || str_eq(e, "rst") || str_eq(e, "adoc")
            || str_eq(e, "tex") {
            FileType::Documentation
        } else if str_eq(e, "json") || str_eq(e, "yaml") || str_eq(e, "yml") || str_eq(e, "toml")
            || str_eq(e, "xml") || str_eq(e, "ini") || str_eq(e, "env") || str_eq(e, "conf")
            || str_eq(e, "config") {
            FileType::Configuration
        } else if str_eq(e, "csv") || str_eq(e, "tsv") || str_eq(e, "sql") || str_eq(e, "parquet")
            || str_eq(e, "arrow") {
            FileType::Data
        } else {
            FileType::Other
        }
    }
}

/// The type of an ASCII extension does not depend on its case: the
/// extension and its lower-case form have the same type.
pub proof fn lemma_extension_case_insensitive(ext: Seq<char>)
    requires
        crate::text::is_ascii_text(ext),
    ensures
        crate::text::is_ascii_text(crate::text::ascii_lower(ext)),
        file_type_of(crate::text::ascii_lower(crate::text::ascii_lower(ext))) == file_type_of(
            crate::text::ascii_lower(ext),
        ),
{
    crate::text::lemma_ascii_lower_idempotent(ext);
}

/// Code content with language and optional AST hash.
#[derive(Debug)]
pub struct CodeContent {
    pub language: String,
    pub code: String,
    pub ast_hash: Option<String>,
}

/// An optional text, seen as its characters.
pub open spec fn opt_text(o: Option<String>) -> Option<Seq<char>> {
    match o {
        Some(s) => Some(s@),
        None => None,
    }
}

/// A copy of an optional text.
pub fn clone_opt_string(o: &Option<String>) -> (r: Option<String>)
    ensures
        opt_text(r) == opt_text(*o),
{
    match o {
        Some(s) => Some(s.clone()),
        None => None,
    }
}

/// A list of texts, seen as their characters.
pub open spec fn texts_view(v: Seq<String>) -> Seq<Seq<char>> {
    v.map_values(|s: String| s@)
}

/// File content with path and type.
#[derive(Debug)]
pub struct FileContent {
    pub path: String,
    pub content: String,
    pub file_type: FileType,
}

/// Memory content types.
#[derive(Debug)]
pub enum MemoryContent {
    Text(String),
    Code(CodeContent),
    File(FileContent),
    Composite(Vec<MemoryContent>),
}

/// What a memory content holds, with texts as characters and nested
/// contents as sequences.
pub enum ContentView {
    Text(Seq<char>),
    Code { language: Seq<char>, code: Seq<char>, ast_hash: Option<Seq<char>> },
    File { path: Seq<char>, content: Seq<char>, file_type: FileType },
    Composite(Seq<ContentView>),
}

/// The view of a content.
pub open spec fn content_view(c: MemoryContent) -> ContentView
    decreases c,
{
    match c {
        MemoryContent::Text(s) => ContentView::Text(s@),
        MemoryContent::Code(k) => ContentView::Code {
            language: k.language@,
            code: k.code@,
            ast_hash: opt_text(k.ast_hash),
        },
        MemoryContent::File(f) => ContentView::File {
            path: f.path@,
            content: f.content@,
            file_type: f.file_type,
        },
        MemoryContent::Composite(v) => ContentView::Composite(
            Seq::new(
                v@.len(),
                |i: int|
                    if 0 <= i < v@.len() {
                        content_view(v@[i])
                    } else {
                        ContentView::Text(Seq::empty())
                    },
            ),
        ),
    }
}

impl View for MemoryContent {
    type V = ContentView;

    open spec fn view(&self) -> ContentView {
        content_view(*self)
    }
}

impl MemoryContent {
    /// Text content.
    pub fn text(s: &str) -> (r: Self)
        ensures
            r@ == ContentView::Text(s@),
    {
        MemoryContent::Text(s.to_string())
    }

    /// Code content in a language, with no AST hash.
    pub fn code(language: &str, code: &str) -> (r: Self)
        ensures
            r@ == (ContentView::Code { language: language@, code: code@, ast_hash: None }),
    {
        MemoryContent::Code(
            CodeContent { language: language.to_string(), code: code.to_string(), ast_hash: None },
        )
    }

    /// The text of plain text content; `None` for every other kind.
    pub fn as_text(&self) -> (r: Option<&str>)
        ensures
            r is Some <==> self@ is Text,
            r matches Some(t) ==> self@ == ContentView::Text(t@),
    {
        match self {
            MemoryContent::Text(s) => Some(s.as_str()),
            _ => None,
        }
    }

    /// A copy of the content.
    #[verifier::loop_isolation(false)]
    pub fn deep_clone(&self) -> (r: Self)
        ensures
            r@ == self@,
        decreases self,
    {
        match self {
            MemoryContent::Text(s) => MemoryContent::Text(s.clone()),
            MemoryContent::Code(c) => MemoryContent::Code(
                CodeContent {
                    language: c.language.clone(),
                    code: c.code.clone(),
                    ast_hash: clone_opt_string(&c.ast_hash),
                },
            ),
            MemoryContent::File(f) => MemoryContent::File(
                FileContent {
                    path: f.path.clone(),
                    content: f.content.clone(),
                    file_type: f.file_type,
                },
            ),
            MemoryContent::Composite(items) => {
                let mut out: Vec<MemoryContent> = Vec::new();
                let mut i: usize = 0;
                while i < items.len()
                    invariant
                        i <= items.len(),
                        out@.len() == i,
                        forall|j: int| 0 <= j < i ==> out@[j]@ == items@[j]@,
                    decreases items.len() - i,
                {
                    proof {
                        broadcast use vstd::std_specs::vec::axiom_vec_index_decreases;

                        assert(decreases_to!(*items => items[i as int]));
                        assert(decreases_to!(*self => self->Composite_0));
                        assert(decreases_to!(*self => items[i as int]));
                    }
                    let c = items[i].deep_clone();
                    out.push(c);
                    i = i + 1;
                }
                let r = MemoryContent::Composite(out);
                assert(content_view(r) == content_view(*self)) by {
                    if let ContentView::Composite(a) = content_view(r) {
                        if let ContentView::Composite(b) = content_view(*self) {
                            assert(a =~= b);
                        }
                    }
                }
                r
            },
        }
    }
}

impl Clone for MemoryContent {
    fn clone(&self) -> (r: Self)
        ensures
            r@ == self@,
    {
        self.deep_clone()
    }
}

/// Memory source origin.
#[derive(Debug, PartialEq, Eq)]
pub enum MemorySource {
    File { path: String },
    UserQuery { query: String },
    System { source_type: String },
    Training { model_id: u128 },
}

/// What a source holds, with texts as characters.
pub enum SourceView {
    File { path: Seq<char> },
    UserQuery { query: Seq<char> },
    System { source_type: Seq<char> },
    Training { model_id: u128 },
}

impl View for MemorySource {
    type V = SourceView;

    open spec fn view(&self) -> SourceView {
        match self {
            MemorySource::File { path } => SourceView::File { path: path@ },
            MemorySource::UserQuery { query } => SourceView::UserQuery { query: query@ },
            MemorySource::System { source_type } => SourceView::System {
                source_type: source_type@,
            },
            MemorySource::Training { model_id } => SourceView::Training { model_id: *model_id },
        }
    }
}

impl Clone for MemorySource {
    fn clone(&self) -> (r: Self)
        ensures
            r@ == self@,
    {
        match self {
            MemorySource::File { path } => MemorySource::File { path: path.clone() },
            MemorySource::UserQuery { query } => MemorySource::UserQuery { query: query.clone() },
            MemorySource::System { source_type } => MemorySource::System {
                source_type: source_type.clone(),
            },
            MemorySource::Training { model_id } => MemorySource::Training { model_id: *model_id },
        }
    }
}

/// A copy of a list of strings.
pub fn clone_strings(v: &Vec<String>) -> (r: Vec<String>)
    ensures
        r@ == v@,
{
    let mut out: Vec<String> = Vec::new();
    let mut i: usize = 0;
    while i < v.len()
        invariant
            i <= v.len(),
            out@.len() == i,
            forall|j: int| 0 <= j < i ==> out@[j] == v@[j],
        decreases v.len() - i,
    {
        out.push(v[i].clone());
        i = i + 1;
    }
    assert(out@ =~= v@);
    out
}

/// A list of key/value pairs, seen as characters.
pub open spec fn pairs_view(v: Seq<(String, String)>) -> Seq<(Seq<char>, Seq<char>)> {
    v.map_values(|p: (String, String)| (p.0@, p.1@))
}

/// A copy of a list of key/value string pairs.
pub fn clone_pairs(v: &Vec<(String, String)>) -> (r: Vec<(String, String)>)
    ensures
        r@ == v@,
{
    let mut out: Vec<(String, String)> = Vec::new();
    let mut i: usize = 0;
    while i < v.len()
        invariant
            i <= v.len(),
            out@.len() == i,
            forall|j: int| 0 <= j < i ==> out@[j] == v@[j],
        decreases v.len() - i,
    {
        let (k, val) = &v[i];
        out.push((k.clone(), val.clone()));
        i = i + 1;
    }
    assert(out@ =~= v@);
    out
}

/// A copy of a list of bit patterns.
pub fn clone_u32s(v: &Vec<u32>) -> (r: Vec<u32>)
    ensures
        r@ == v@,
{
    let mut out: Vec<u32> = Vec::new();
    let mut i: usize = 0;
    while i < v.len()
        invariant
            i <= v.len(),
            out@.len() == i,
            forall|j: int| 0 <= j < i ==> out@[j] == v@[j],
        decreases v.len() - i,
    {
        out.push(v[i]);
        i = i + 1;
    }
    assert(out@ =~= v@);
    out
}

/// Key/value pairs seen as a map: a key that occurs maps to the value of
/// its last occurrence.
pub open spec fn pairs_map(v: Seq<(Seq<char>, Seq<char>)>) -> Map<Seq<char>, Seq<char>>
    decreases v.len(),
{
    if v.len() == 0 {
        Map::empty()
    } else {
        pairs_map(v.drop_last()).insert(v.last().0, v.last().1)
    }
}

/// Memory metadata.
#[derive(Debug)]
pub struct MemoryMetadata {
    pub source: MemorySource,
    pub tags: Vec<String>,
    /// Custom key/value fields.
    pub custom_fields: Vec<(String, String)>,
    /// Importance in [0, 1], as the bit pattern of an `f32`.
    pub importance: u32,
}

/// What metadata holds, with texts as characters.
pub struct MetadataView {
    pub source: SourceView,
    pub tags: Seq<Seq<char>>,
    pub custom_fields: Seq<(Seq<char>, Seq<char>)>,
    pub importance: u32,
}

impl View for MemoryMetadata {
    type V = MetadataView;

    open spec fn view(&self) -> MetadataView {
        MetadataView {
            source: self.source@,
            tags: texts_view(self.tags@),
            custom_fields: pairs_view(self.custom_fields@),
            importance: self.importance,
        }
    }
}

impl Clone for MemoryMetadata {
    fn clone(&self) -> (r: Self)
        ensures
            r@ == self@,
    {
        let r = MemoryMetadata {
            source: self.source.clone(),
            tags: clone_strings(&self.tags),
            custom_fields: clone_pairs(&self.custom_fields),
            importance: self.importance,
        };
        assert(r@.tags =~= self@.tags);
        assert(r@.custom_fields =~= self@.custom_fields);
        r
    }
}

impl MemoryMetadata {
    /// Metadata from a source, with no tags, no custom fields and importance 0.5.
    pub fn new(source: MemorySource) -> (r: Self)
        ensures
            r@ == (MetadataView {
                source: source@,
                tags: Seq::empty(),
                custom_fields: Seq::empty(),
                importance: F32_HALF,
            }),
    {
        let r = MemoryMetadata {
            source,
            tags: Vec::new(),
            custom_fields: Vec::new(),
            importance: F32_HALF,
        };
        assert(r@.tags =~= Seq::empty());
        assert(r@.custom_fields =~= Seq::empty());
        r
    }

    /// The metadata with its importance set to `importance` clamped to [0, 1].
    pub fn with_importance(self, importance: u32) -> (r: Self)
        ensures
            r@ == (MetadataView { importance: f32_clamp_unit(importance), ..self@ }),
    {
        let mut m = self;
        m.importance = clamp_unit(importance);
        m
    }

    /// The metadata with its tags replaced.
    pub fn with_tags(self, tags: Vec<String>) -> (r: Self)
        ensures
            r@ == (MetadataView { tags: texts_view(tags@), ..self@ }),
    {
        let mut m = self;
        m.tags = tags;
        m
    }

    /// Sets a custom field, replacing the value of the first pair with that
    /// key, or adding a pair when the key is new.
    pub fn set_custom_field(&mut self, key: &str, value: &str)
        ensures
            final(self)@ == (MetadataView {
                custom_fields: set_field_spec(old(self)@.custom_fields, key@, value@),
                ..old(self)@
            }),
    {
        let mut i: usize = 0;
        let n = self.custom_fields.len();
        while i < n
            invariant
                n == self.custom_fields@.len(),
                self@ == old(self)@,
                i <= n,
                forall|j: int| 0 <= j < i ==> pairs_view(self.custom_fields@)[j].0 != key@,
            decreases n - i,
        {
            if str_eq(self.custom_fields[i].0.as_str(), key) {
                let ghost before = pairs_view(self.custom_fields@);
                self.custom_fields.set(i, (key.to_string(), value.to_string()));
                assert(pairs_view(self.custom_fields@) =~= before.update(i as int, (key@, value@)));
                assert(first_index_of_key(before, key@, 0) == i as int) by {
                    lemma_first_index_found(before, key@, 0, i as int);
                }
                return;
            }
            i = i + 1;
        }
        let ghost before = pairs_view(self.custom_fields@);
        self.custom_fields.push((key.to_string(), value.to_string()));
        assert(pairs_view(self.custom_fields@) =~= before.push((key@, value@)));
        assert(first_index_of_key(before, key@, 0) == -1) by {
            lemma_first_index_absent(before, key@, 0);
        }
    }
}

/// The first position at or after `from` whose key is `k`, or -1.
pub open spec fn first_index_of_key(v: Seq<(Seq<char>, Seq<char>)>, k: Seq<char>, from: int) -> int
    decreases v.len() - from,
{
    if from < 0 || from >= v.len() {
        -1
    } else if v[from].0 == k {
        from
    } else {
        first_index_of_key(v, k, from + 1)
    }
}

/// The fields after setting `k` to `v`: the first pair with key `k` is
/// replaced, or `(k, v)` is appended when there is none.
pub open spec fn set_field_spec(fields: Seq<(Seq<char>, Seq<char>)>, k: Seq<char>, v: Seq<char>) -> Seq<
    (Seq<char>, Seq<char>),
> {
    let i = first_index_of_key(fields, k, 0);
    if i == -1 {
        fields.push((k, v))
    } else {
        fields.update(i, (k, v))
    }
}

proof fn lemma_first_index_found(v: Seq<(Seq<char>, Seq<char>)>, k: Seq<char>, from: int, i: int)
    requires
        0 <= from <= i < v.len(),
        v[i].0 == k,
        forall|j: int| from <= j < i ==> v[j].0 != k,
    ensures
        first_index_of_key(v, k, from) == i,
    decreases i - from,
{
    if from < i {
        lemma_first_index_found(v, k, from + 1, i);
    }
}

proof fn lemma_first_index_absent(v: Seq<(Seq<char>, Seq<char>)>, k: Seq<char>, from: int)
    requires
        0 <= from <= v.len(),
        forall|j: int| from <= j < v.len() ==> v[j].0 != k,
    ensures
        first_index_of_key(v, k, from) == -1,
    decreases v.len() - from,
{
    if from < v.len() {
        lemma_first_index_absent(v, k, from + 1);
    }
}

/// Memory entry: the core data structure.
#[derive(Debug)]
pub struct MemoryEntry {
    pub id: MemoryId,
    pub workspace_id: WorkspaceId,
    pub content: MemoryContent,
    /// The embedding, each component as the bit pattern of an `f32`.
    pub embedding: Option<Vec<u32>>,
    pub metadata: MemoryMetadata,
    pub status: MemoryStatus,
    pub created_at: Timestamp,
    pub updated_at: Timestamp,
    pub access_count: u64,
    pub last_accessed: Option<Timestamp>,
}

/// What an entry holds, with its parts seen through their views.
pub struct EntryView {
    pub id: MemoryId,
    pub workspace_id: WorkspaceId,
    pub content: ContentView,
    pub embedding: Option<Seq<u32>>,
    pub metadata: MetadataView,
    pub status: MemoryStatus,
    pub created_at: Timestamp,
    pub updated_at: Timestamp,
    pub access_count: u64,
    pub last_accessed: Option<Timestamp>,
}

impl View for MemoryEntry {
    type V = EntryView;

    open spec fn view(&self) -> EntryView {
        EntryView {
            id: self.id,
            workspace_id: self.workspace_id,
            content: self.content@,
            embedding: match self.embedding {
                Some(e) => Some(e@),
                None => None,
            },
            metadata: self.metadata@,
            status: self.status,
            created_at: self.created_at,
            updated_at: self.updated_at,
            access_count: self.access_count,
            last_accessed: self.last_accessed,
        }
    }
}

impl Clone for MemoryEntry {
    fn clone(&self) -> (r: Self)
        ensures
            r@ == self@,
    {
        let embedding = match &self.embedding {
            Some(e) => Some(clone_u32s(e)),
            None => None,
        };
        MemoryEntry {
            id: self.id,
            workspace_id: self.workspace_id,
            content: self.content.clone(),
            embedding,
            metadata: self.metadata.clone(),
            status: self.status,
            created_at: self.created_at,
            updated_at: self.updated_at,
            access_count: self.access_count,
            last_accessed: self.last_accessed,
        }
    }
}

/// The view of the entry that `MemoryEntry::new` builds.
pub open spec fn new_entry_spec(
    id: MemoryId,
    workspace_id: WorkspaceId,
    content: ContentView,
    metadata: MetadataView,
    now: Timestamp,
) -> EntryView {
    EntryView {
        id,
        workspace_id,
        content,
        embedding: None,
        metadata,
        status: MemoryStatus::Active,
        created_at: now,
        updated_at: now,
        access_count: 0,
        last_accessed: None,
    }
}

/// The entry after one access at `now`.
pub open spec fn accessed_spec(e: EntryView, now: Timestamp) -> EntryView {
    EntryView { access_count: (e.access_count + 1) as u64, last_accessed: Some(now), ..e }
}

impl MemoryEntry {
    /// A new Active entry with the given identifier, created and updated at
    /// `now`, never accessed and without embedding.
    pub fn new(
        id: MemoryId,
        workspace_id: WorkspaceId,
        content: MemoryContent,
        metadata: MemoryMetadata,
        now: Timestamp,
    ) -> (r: Self)
        ensures
            r@ == new_entry_spec(id, workspace_id, content@, metadata@, now),
    {
        MemoryEntry {
            id,
            workspace_id,
            content,
            embedding: None,
            metadata,
            status: MemoryStatus::Active,
            created_at: now,
            updated_at: now,
            access_count: 0,
            last_accessed: None,
        }
    }

    /// Counts one access, made at `now`.
    pub fn increment_access(&mut self, now: Timestamp)
        requires
            old(self).access_count < u64::MAX,
        ensures
            final(self)@ == accessed_spec(old(self)@, now),
    {
        self.access_count = self.access_count + 1;
        self.last_accessed = Some(now);
    }
}

/// Workspace configuration.
#[derive(Debug)]
pub struct WorkspaceConfig {
    pub max_memory_size: usize,
    pub retention_days: u32,
    pub auto_archive: bool,
    pub embedding_model: Option<String>,
}

impl Default for WorkspaceConfig {
    /// 10 MB per memory, 90 days of retention, automatic archiving, no model.
    fn default() -> (r: Self)
        ensures
            r.max_memory_size == 10_000_000,
            r.retention_days == 90,
            r.auto_archive,
            r.embedding_model is None,
    {
        WorkspaceConfig {
            max_memory_size: 10_000_000,
            retention_days: 90,
            auto_archive: true,
            embedding_model: None,
        }
    }
}

impl Clone for WorkspaceConfig {
    fn clone(&self) -> (r: Self)
        ensures
            r == *self,
    {
        let embedding_model = match &self.embedding_model {
            Some(m) => Some(m.clone()),
            None => None,
        };
        WorkspaceConfig {
            max_memory_size: self.max_memory_size,
            retention_days: self.retention_days,
            auto_archive: self.auto_archive,
            embedding_model,
        }
    }
}

/// Workspace: a container for memories.
#[derive(Debug)]
pub struct Workspace {
    pub id: WorkspaceId,
    pub name: String,
    pub description: Option<String>,
    pub created_at: Timestamp,
    pub updated_at: Timestamp,
    pub config: WorkspaceConfig,
}

impl View for Workspace {
    type V = Workspace;

    open spec fn view(&self) -> Workspace {
        *self
    }
}

impl Clone for Workspace {
    fn clone(&self) -> (r: Self)
        ensures
            r == *self,
    {
        let description = match &self.description {
            Some(d) => Some(d.clone()),
            None => None,
        };
        Workspace {
            id: self.id,
            name: self.name.clone(),
            description,
            created_at: self.created_at,
            updated_at: self.updated_at,
            config: self.config.clone(),
        }
    }
}

impl Workspace {
    /// A new workspace with the given identifier, created at `now`, with no
    /// description and the default configuration.
    pub fn new(id: WorkspaceId, name: String, now: Timestamp) -> (r: Self)
        ensures
            r.id == id,
            r.name == name,
            r.description is None,
            r.created_at == now,
            r.updated_at == now,
            r.config.max_memory_size == 10_000_000,
            r.config.retention_days == 90,
            r.config.auto_archive,
            r.config.embedding_model is None,
    {
        Workspace {
            id,
            name,
            description: None,
            created_at: now,
            updated_at: now,
            config: WorkspaceConfig::default(),
        }
    }

    /// The workspace with a description.
    pub fn with_description(self, description: String) -> (r: Self)
        ensures
            r == (Workspace { description: Some(description), ..self }),
    {
        let mut w = self;
        w.description = Some(description);
        w
    }
}

/// Search result with score.
#[derive(Debug)]
pub struct SearchResult {
    pub memory: MemoryEntry,
    /// The score, as the bit pattern of an `f32`.
    pub score: u32,
    pub highlights: Vec<String>,
}

/// What a search result holds.
pub struct SearchResultView {
    pub memory: EntryView,
    pub score: u32,
    pub highlights: Seq<Seq<char>>,
}

impl View for SearchResult {
    type V = SearchResultView;

    open spec fn view(&self) -> SearchResultView {
        SearchResultView {
            memory: self.memory@,
            score: self.score,
            highlights: texts_view(self.highlights@),
        }
    }
}

impl Clone for SearchResult {
    fn clone(&self) -> (r: Self)
        ensures
            r@ == self@,
    {
        SearchResult {
            memory: self.memory.clone(),
            score: self.score,
            highlights: clone_strings(&self.highlights),
        }
    }
}

/// Date range for search (both ends included).
#[derive(Debug, Clone, Copy)]
pub struct DateRange {
    pub start: Timestamp,
    pub end: Timestamp,
}

/// Search query.
#[derive(Debug)]
pub struct SearchQuery {
    pub text: Option<String>,
    pub tags: Option<Vec<String>>,
    pub workspace_id: Option<WorkspaceId>,
    pub status: Option<MemoryStatus>,
    pub date_range: Option<DateRange>,
    pub limit: usize,
    pub offset: usize,
}

impl Default for SearchQuery {
    /// No filter, ten results from the first.
    fn default() -> (r: Self)
        ensures
            r.text is None,
            r.tags is None,
            r.workspace_id is None,
            r.status is None,
            r.date_range is None,
            r.limit == 10,
            r.offset == 0,
    {
        SearchQuery {
            text: None,
            tags: None,
            workspace_id: None,
            status: None,
            date_range: None,
            limit: 10,
            offset: 0,
        }
    }
}

/// What a search query holds, with texts as characters.
pub struct QueryView {
    pub text: Option<Seq<char>>,
    pub tags: Option<Seq<Seq<char>>>,
    pub workspace_id: Option<WorkspaceId>,
    pub status: Option<MemoryStatus>,
    pub date_range: Option<DateRange>,
    pub limit: usize,
    pub offset: usize,
}

impl View for SearchQuery {
    type V = QueryView;

    open spec fn view(&self) -> QueryView {
        QueryView {
            text: opt_text(self.text),
            tags: match self.tags {
                Some(t) => Some(texts_view(t@)),
                None => None,
            },
            workspace_id: self.workspace_id,
            status: self.status,
            date_range: self.date_range,
            limit: self.limit,
            offset: self.offset,
        }
    }
}

impl Clone for SearchQuery {
    fn clone(&self) -> (r: Self)
        ensures
            r@ == self@,
    {
        let tags = match &self.tags {
            Some(t) => Some(clone_strings(t)),
            None => None,
        };
        SearchQuery {
            text: clone_opt_string(&self.text),
            tags,
            workspace_id: self.workspace_id,
            status: self.status,
            date_range: self.date_range,
            limit: self.limit,
            offset: self.offset,
        }
    }
}

/// Batch operation result.
#[derive(Debug)]
pub struct BatchResult {
    pub success_count: u32,
    pub failure_count: u32,
    pub errors: Vec<String>,
}

impl BatchResult {
    /// No successes, no failures.
    pub fn new() -> (r: Self)
        ensures
            r.success_count == 0,
            r.failure_count == 0,
            r.errors@ == Seq::<String>::empty(),
    {
        BatchResult { success_count: 0, failure_count: 0, errors: Vec::new() }
    }

    /// Counts one success.
    pub fn add_success(&mut self)
        requires
            old(self).success_count < u32::MAX,
        ensures
            final(self).success_count == old(self).success_count + 1,
            final(self).failure_count == old(self).failure_count,
            final(self).errors == old(self).errors,
    {
        self.success_count = self.success_count + 1;
    }

    /// Counts one failure and records its message.
    pub fn add_failure(&mut self, error: String)
        requires
            old(self).failure_count < u32::MAX,
        ensures
            final(self).success_count == old(self).success_count,
            final(self).failure_count == old(self).failure_count + 1,
            final(self).errors@ == old(self).errors@.push(error),
    {
        self.failure_count = self.failure_count + 1;
        self.errors.push(error);
    }
}

impl Default for BatchResult {
    fn default() -> (r: Self)
        ensures
            r.success_count == 0,
            r.failure_count == 0,
            r.errors@ == Seq::<String>::empty(),
    {
        BatchResult::new()
    }
}

/// Memory statistics.
#[derive(Debug, Clone, Copy)]
pub struct MemoryStats {
    pub total_memories: u64,
    pub active_count: u64,
    pub cooling_count: u64,
    pub cold_count: u64,
    pub zombie_count: u64,
    pub total_size_bytes: u64,
    /// Mean importance, as the bit pattern of an `f32`.
    pub average_importance: u32,
}

impl Default for MemoryStats {
    /// All counts zero and a mean importance of 0.0.
    fn default() -> (r: Self)
        ensures
            r.total_memories == 0 && r.active_count == 0 && r.cooling_count == 0 && r.cold_count
                == 0 && r.zombie_count == 0 && r.total_size_bytes == 0 && r.average_importance
                == F32_ZERO,
    {
        MemoryStats {
            total_memories: 0,
            active_count: 0,
            cooling_count: 0,
            cold_count: 0,
            zombie_count: 0,
            total_size_bytes: 0,
            average_importance: F32_ZERO,
        }
    }
}

} // verus!
