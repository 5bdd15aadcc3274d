//! Bookkeeping of the full-text index: its configuration, where it is
//! kept, the text each memory is indexed under, which document holds which
//! memory, the hand-over of the single index writer, and the filters
//! applied to the documents a search retrieves.
//!
//! The search engine itself (tokenising, ranking) runs beside this
//! structure; it takes the documents built here and hands back stored
//! fields, which this module checks and filters.

use vstd::prelude::*;
use crate::entry_table::{Keyed, unique_ids, table_map, table_upsert, table_take, lemma_table_empty, has_id, find_index, lemma_table_at};
use crate::error::IndexError;
use crate::query::{contains_text, seq_contains};
use crate::text::{join3, join_space, join_with_space, uuid_text, uuid_string, uuid_parse, parse_uuid};
use crate::types::{ContentView, content_view, MemoryContent, MemoryEntry, MemoryId, WorkspaceId, status_name, opt_text};

verus! {

/// Configuration of the full-text index.
#[derive(Debug)]
pub struct FulltextConfig {
    /// Heap memory the writer may use, in bytes.
    pub max_heap_size: usize,
    /// Whether the index is kept on disk.
    pub persist: bool,
    /// The directory of the index on disk.
    pub index_path: Option<String>,
    pub index_content: bool,
    pub index_tags: bool,
}

impl Default for FulltextConfig {
    fn default() -> (r: Self)
        ensures
            r.max_heap_size == 50_000_000,
            !r.persist,
            r.index_path is None,
            r.index_content,
            r.index_tags,
    {
        FulltextConfig {
            max_heap_size: 50_000_000,
            persist: false,
            index_path: None,
            index_content: true,
            index_tags: true,
        }
    }
}

impl Clone for FulltextConfig {
    fn clone(&self) -> (r: Self)
        ensures
            r.max_heap_size == self.max_heap_size,
            r.persist == self.persist,
            opt_text(r.index_path) == opt_text(self.index_path),
            r.index_content == self.index_content,
            r.index_tags == self.index_tags,
    {
        FulltextConfig {
            max_heap_size: self.max_heap_size,
            persist: self.persist,
            index_path: crate::types::clone_opt_string(&self.index_path),
            index_content: self.index_content,
            index_tags: self.index_tags,
        }
    }
}

/// Where the index is kept.
#[derive(Debug)]
pub enum IndexLocation {
    InMemory,
    OnDisk(String),
}

/// The text a content is indexed under: a text as it is, code as its
/// language and code, a file as its path and content (each pair separated
/// by a space), and a composite as the texts of its parts joined by spaces.
pub open spec fn indexed_text(c: ContentView) -> Seq<char>
    decreases c,
{
    match c {
        ContentView::Text(s) => s,
        ContentView::Code { language, code, .. } => language + " "@ + code,
        ContentView::File { path, content, .. } => path + " "@ + content,
        ContentView::Composite(items) => join_space(indexed_texts(items)),
    }
}

/// The indexed texts of a list of contents, in order.
pub open spec fn indexed_texts(items: Seq<ContentView>) -> Seq<Seq<char>>
    decreases items,
{
    Seq::new(
        items.len(),
        |i: int|
            if 0 <= i < items.len() {
                indexed_text(items[i])
            } else {
                Seq::empty()
            },
    )
}

/// The stored fields of the document that indexes a memory.
#[derive(Debug)]
pub struct FulltextDocument {
    pub id: String,
    pub workspace_id: String,
    pub content: String,
    pub tags: String,
    /// The importance, as the bit pattern of an `f32`.
    pub importance: u32,
    pub status: String,
}

/// The document's fields as the texts that they hold.
pub open spec fn document_matches(d: FulltextDocument, m: crate::types::EntryView) -> bool {
    &&& d.id@ == uuid_text(m.id)
    &&& d.workspace_id@ == uuid_text(m.workspace_id)
    &&& d.content@ == indexed_text(m.content)
    &&& d.tags@ == join_space(m.metadata.tags)
    &&& d.importance == m.metadata.importance
    &&& d.status@ == status_name(m.status)
}

/// The fields a search read back from a stored document (`None` where the
/// document lacked the field).
#[derive(Debug)]
pub struct StoredDoc {
    pub id: Option<String>,
    pub workspace_id: Option<String>,
    pub tags: Option<String>,
}

/// A retrieved document's fields as texts.
pub struct StoredDocView {
    pub id: Option<Seq<char>>,
    pub workspace_id: Option<Seq<char>>,
    pub tags: Option<Seq<char>>,
}

impl View for StoredDoc {
    type V = StoredDocView;

    open spec fn view(&self) -> StoredDocView {
        StoredDocView {
            id: opt_text(self.id),
            workspace_id: opt_text(self.workspace_id),
            tags: opt_text(self.tags),
        }
    }
}

/// What a search makes of one retrieved document, given what its
/// workspace and identifier fields parse to: an error text, nothing (the
/// document is filtered out), or the memory it holds.
pub open spec fn doc_verdict(
    d: StoredDocView,
    ws_parsed: Option<u128>,
    id_parsed: Option<u128>,
    ws: Option<WorkspaceId>,
    tags: Option<Seq<Seq<char>>>,
) -> Result<Option<MemoryId>, Seq<char>> {
    if d.id is None {
        Err("Missing id field"@)
    } else if d.workspace_id is None {
        Err("Missing workspace_id field"@)
    } else if ws_parsed is None {
        Err("Invalid workspace_id"@)
    } else if ws is Some && ws_parsed.unwrap() != ws.unwrap() {
        Ok(None)
    } else if tags is Some && !(exists|i: int|
        0 <= i < tags.unwrap().len() && seq_contains(
            if d.tags is Some {
                d.tags.unwrap()
            } else {
                Seq::empty()
            },
            #[trigger] tags.unwrap()[i],
        )) {
        Ok(None)
    } else if id_parsed is None {
        Err("Invalid memory id"@)
    } else {
        Ok(Some(id_parsed.unwrap()))
    }
}

/// What an optional field parses to as a UUID.
pub open spec fn parse_field(f: Option<Seq<char>>) -> Option<u128> {
    match f {
        Some(s) => uuid_parse(s),
        None => None,
    }
}

/// The memories a search keeps from the retrieved documents, in order,
/// or the first error met.
pub open spec fn hits_spec(
    docs: Seq<StoredDocView>,
    ws: Option<WorkspaceId>,
    tags: Option<Seq<Seq<char>>>,
) -> Result<Seq<MemoryId>, Seq<char>>
    decreases docs.len(),
{
    if docs.len() == 0 {
        Ok(Seq::empty())
    } else {
        match hits_spec(docs.drop_last(), ws, tags) {
            Err(m) => Err(m),
            Ok(prev) => {
                let d = docs.last();
                match doc_verdict(d, parse_field(d.workspace_id), parse_field(d.id), ws, tags) {
                    Err(m) => Err(m),
                    Ok(None) => Ok(prev),
                    Ok(Some(id)) => Ok(prev.push(id)),
                }
            },
        }
    }
}

/// The tags filter of a search, as texts.
pub open spec fn tags_filter(tags: Option<Vec<String>>) -> Option<Seq<Seq<char>>> {
    match tags {
        Some(v) => Some(v@.map_values(|s: String| s@)),
        None => None,
    }
}

/// A document slot and the memory stored in it.
#[derive(Debug, Clone, Copy, PartialEq, Eq)]
pub struct DocSlot {
    pub doc_id: u64,
    pub memory_id: MemoryId,
}

impl View for DocSlot {
    type V = DocSlot;

    open spec fn view(&self) -> DocSlot {
        *self
    }
}

impl Keyed for DocSlot {
    open spec fn key(&self) -> u128 {
        self.doc_id as u128
    }

    fn get_key(&self) -> (r: u128) {
        self.doc_id as u128
    }
}

/// A memory and the document that holds it.
#[derive(Debug, Clone, Copy, PartialEq, Eq)]
pub struct DocPlacement {
    pub memory_id: MemoryId,
    pub doc_id: u64,
}

impl View for DocPlacement {
    type V = DocPlacement;

    open spec fn view(&self) -> DocPlacement {
        *self
    }
}

impl Keyed for DocPlacement {
    open spec fn key(&self) -> u128 {
        self.memory_id
    }

    fn get_key(&self) -> (r: u128) {
        self.memory_id
    }
}

/// What the index's bookkeeping holds.
pub struct FulltextView {
    pub initialized: bool,
    pub writer_available: bool,
    /// Document number (as `u128`) to its slot record.
    pub docs: Map<u128, DocSlot>,
    /// Memory identifier to the document that holds it.
    pub memories: Map<MemoryId, DocPlacement>,
    pub count: nat,
}

/// The memory map after a batch recorded the first `n` memories: each one
/// not yet held gets the document number at its position.
pub open spec fn batch_memories(
    m: Map<MemoryId, DocPlacement>,
    ids: Seq<MemoryId>,
    docs: Seq<u64>,
    n: nat,
) -> Map<MemoryId, DocPlacement>
    decreases n,
{
    if n == 0 {
        m
    } else {
        let prev = batch_memories(m, ids, docs, (n - 1) as nat);
        let id = ids[n - 1];
        if prev.contains_key(id) {
            prev
        } else {
            prev.insert(id, DocPlacement { memory_id: id, doc_id: docs[n - 1] })
        }
    }
}

/// The document map after a batch recorded the first `n` memories.
pub open spec fn batch_docs(
    m: Map<MemoryId, DocPlacement>,
    d: Map<u128, DocSlot>,
    ids: Seq<MemoryId>,
    docs: Seq<u64>,
    n: nat,
) -> Map<u128, DocSlot>
    decreases n,
{
    if n == 0 {
        d
    } else {
        let prev = batch_docs(m, d, ids, docs, (n - 1) as nat);
        let id = ids[n - 1];
        if batch_memories(m, ids, docs, (n - 1) as nat).contains_key(id) {
            prev
        } else {
            prev.insert(docs[n - 1] as u128, DocSlot { doc_id: docs[n - 1], memory_id: id })
        }
    }
}

/// How many of the first `n` memories a batch recorded.
pub open spec fn batch_count(m: Map<MemoryId, DocPlacement>, ids: Seq<MemoryId>, docs: Seq<u64>, n: nat) -> nat
    decreases n,
{
    if n == 0 {
        0
    } else {
        let prev = batch_count(m, ids, docs, (n - 1) as nat);
        if batch_memories(m, ids, docs, (n - 1) as nat).contains_key(ids[n - 1]) {
            prev
        } else {
            prev + 1
        }
    }
}

/// Every memory that a batch records has a document number at its
/// position.
pub open spec fn batch_in_bounds(m: Map<MemoryId, DocPlacement>, ids: Seq<MemoryId>, docs: Seq<u64>) -> bool {
    forall|i: int|
        0 <= i < ids.len() && !#[trigger] batch_memories(m, ids, docs, i as nat).contains_key(ids[i])
            ==> i < docs.len()
}

/// The identifiers of a list of entries.
pub open spec fn entry_ids(v: Seq<MemoryEntry>) -> Seq<MemoryId> {
    v.map_values(|e: MemoryEntry| e.id)
}

/// The bookkeeping of the full-text index.
pub struct FulltextIndex {
    config: FulltextConfig,
    initialized: bool,
    writer_available: bool,
    doc_to_memory: Vec<DocSlot>,
    memory_to_doc: Vec<DocPlacement>,
    count: usize,
}

impl FulltextIndex {
    pub closed spec fn wf(&self) -> bool {
        &&& unique_ids(self.doc_to_memory@)
        &&& unique_ids(self.memory_to_doc@)
    }

    pub closed spec fn view(&self) -> FulltextView {
        FulltextView {
            initialized: self.initialized,
            writer_available: self.writer_available,
            docs: table_map(self.doc_to_memory@),
            memories: table_map(self.memory_to_doc@),
            count: self.count as nat,
        }
    }

    pub closed spec fn config_spec(&self) -> FulltextConfig {
        self.config
    }

    /// An empty index with the configuration, not yet initialized; this
    /// never fails.
    pub fn new(config: FulltextConfig) -> (r: Result<Self, IndexError>)
        ensures
            r matches Ok(ix) && ix.wf() && ix.config_spec() == config && ix.view() == (
            FulltextView {
                initialized: false,
                writer_available: false,
                docs: Map::empty(),
                memories: Map::empty(),
                count: 0,
            }),
    {
        let ix = FulltextIndex {
            config,
            initialized: false,
            writer_available: false,
            doc_to_memory: Vec::new(),
            memory_to_doc: Vec::new(),
            count: 0,
        };
        proof {
            lemma_table_empty(ix.doc_to_memory@);
            lemma_table_empty(ix.memory_to_doc@);
        }
        Ok(ix)
    }

    /// Where the index is to be created: on disk at the configured path
    /// when it persists, in memory otherwise; persisting without a path is
    /// an error.
    pub fn location(&self) -> (r: Result<IndexLocation, IndexError>)
        ensures
            !self.config_spec().persist ==> r matches Ok(IndexLocation::InMemory),
            self.config_spec().persist && self.config_spec().index_path is Some ==> (r matches Ok(
                IndexLocation::OnDisk(p),
            ) && p@ == self.config_spec().index_path.unwrap()@),
            self.config_spec().persist && self.config_spec().index_path is None ==> (r matches Err(
                e,
            ) && e matches IndexError::OperationFailed(m) && m@
                == "persist is true but no index_path provided"@),
    {
        if self.config.persist {
            match &self.config.index_path {
                Some(p) => Ok(IndexLocation::OnDisk(p.clone())),
                None => Err(
                    IndexError::OperationFailed("persist is true but no index_path provided".to_string()),
                ),
            }
        } else {
            Ok(IndexLocation::InMemory)
        }
    }

    /// Records that the index, its reader and its writer were created.
    pub fn mark_initialized(&mut self)
        requires
            old(self).wf(),
        ensures
            final(self).wf(),
            final(self).config_spec() == old(self).config_spec(),
            final(self).view() == (FulltextView {
                initialized: true,
                writer_available: true,
                ..old(self).view()
            }),
    {
        self.initialized = true;
        self.writer_available = true;
    }

    /// Whether the index has been created.
    pub fn is_initialized(&self) -> (r: bool)
        ensures
            r == self.view().initialized,
    {
        self.initialized
    }

    /// Whether a document already holds the memory.
    pub fn is_indexed(&self, memory_id: MemoryId) -> (r: bool)
        requires
            self.wf(),
        ensures
            r == self.view().memories.contains_key(memory_id),
    {
        match find_index(&self.memory_to_doc, memory_id) {
            Some(i) => {
                proof {
                    lemma_table_at(self.memory_to_doc@, i as int);
                }
                true
            },
            None => false,
        }
    }

    /// Hands the single writer out; it is not available while out, and a
    /// second request gets an error.
    pub fn take_writer(&mut self) -> (r: Result<(), IndexError>)
        requires
            old(self).wf(),
        ensures
            final(self).wf(),
            final(self).config_spec() == old(self).config_spec(),
            r is Ok <==> old(self).view().writer_available,
            r matches Err(e) ==> e matches IndexError::OperationFailed(m) && m@
                == "Index writer not available"@,
            final(self).view() == (FulltextView { writer_available: false, ..old(self).view() }),
    {
        if !self.writer_available {
            return Err(IndexError::OperationFailed("Index writer not available".to_string()));
        }
        self.writer_available = false;
        Ok(())
    }

    /// Takes the writer back.
    pub fn return_writer(&mut self)
        requires
            old(self).wf(),
        ensures
            final(self).wf(),
            final(self).config_spec() == old(self).config_spec(),
            final(self).view() == (FulltextView { writer_available: true, ..old(self).view() }),
    {
        self.writer_available = true;
    }

    /// The text a content is indexed under.
    #[verifier::loop_isolation(false)]
    pub fn extract_text(content: &MemoryContent) -> (r: String)
        ensures
            r@ == indexed_text(content@),
        decreases content,
    {
        match content {
            MemoryContent::Text(s) => {
                let r = s.as_str().to_string();
                assert(content@ == ContentView::Text(s@));
                assert(indexed_text(ContentView::Text(s@)) == s@);
                assert(r@ == indexed_text(content@));
                r
            },
            MemoryContent::Code(c) => {
                let r = join3(c.language.as_str(), " ", c.code.as_str());
                assert(content@ == (ContentView::Code {
                    language: c.language@,
                    code: c.code@,
                    ast_hash: opt_text(c.ast_hash),
                }));
                r
            },
            MemoryContent::File(f) => {
                let r = join3(f.path.as_str(), " ", f.content.as_str());
                assert(content@ == (ContentView::File {
                    path: f.path@,
                    content: f.content@,
                    file_type: f.file_type,
                }));
                r
            },
            MemoryContent::Composite(items) => {
                let mut parts: Vec<String> = Vec::new();
                let mut i: usize = 0;
                while i < items.len()
                    invariant
                        i <= items.len(),
                        parts@.len() == i,
                        forall|j: int| 0 <= j < i ==> parts@[j]@ == indexed_text(items@[j]@),
                    decreases items.len() - i,
                {
                    proof {
                        broadcast use vstd::std_specs::vec::axiom_vec_index_decreases;

                        assert(decreases_to!(*items => items[i as int]));
                        assert(decreases_to!(*content => content->Composite_0));
                        assert(decreases_to!(*content => items[i as int]));
                    }
                    let t = FulltextIndex::extract_text(&items[i]);
                    parts.push(t);
                    i = i + 1;
                }
                let r = join_with_space(&parts);
                proof {
                    assert(content@ is Composite);
                    if let ContentView::Composite(a) = content@ {
                        assert(a.len() == items@.len());
                        assert forall|k: int| 0 <= k < a.len() implies a[k] == items@[k]@ by {}
                        let tv = indexed_texts(a);
                        assert(parts@.map_values(|s: String| s@) =~= tv);
                        assert(indexed_text(content@) == join_space(tv));
                    }
                }
                assert(r@ == indexed_text(content@));
                r
            },
        }
    }

    /// The document that indexes a memory.
    pub fn document_for(memory: &MemoryEntry) -> (r: FulltextDocument)
        ensures
            document_matches(r, memory@),
    {
        FulltextDocument {
            id: uuid_string(memory.id),
            workspace_id: uuid_string(memory.workspace_id),
            content: FulltextIndex::extract_text(&memory.content),
            tags: join_with_space(&memory.metadata.tags),
            importance: memory.metadata.importance,
            status: memory.status.to_display_string(),
        }
    }

    /// The first step of adding a memory: a memory already held is skipped
    /// (`Ok(None)`); otherwise the writer is taken and the document to add
    /// is returned.
    pub fn begin_add(&mut self, memory: &MemoryEntry) -> (r: Result<Option<FulltextDocument>, IndexError>)
        requires
            old(self).wf(),
        ensures
            final(self).wf(),
            final(self).config_spec() == old(self).config_spec(),
            old(self).view().memories.contains_key(memory.id) ==> (r matches Ok(None) && final(self).view() == old(self).view()),
            !old(self).view().memories.contains_key(memory.id) && !old(self).view().writer_available
                ==> (r matches Err(e) && e matches IndexError::OperationFailed(m) && m@
                == "Index writer not available"@) && final(self).view() == old(self).view(),
            !old(self).view().memories.contains_key(memory.id) && old(self).view().writer_available
                ==> (r matches Ok(Some(d)) && document_matches(d, memory@)) && final(self).view()
                == (FulltextView { writer_available: false, ..old(self).view() }),
    {
        if self.is_indexed(memory.id) {
            return Ok(None);
        }
        let doc = FulltextIndex::document_for(memory);
        match self.take_writer() {
            Ok(()) => Ok(Some(doc)),
            Err(e) => Err(e),
        }
    }

    /// The last step of adding a memory: the writer comes back, document
    /// `doc_id` maps to the memory and the memory to it, and the count grows
    /// by one.
    pub fn finish_add(&mut self, memory_id: MemoryId, doc_id: u64)
        requires
            old(self).wf(),
            old(self).view().count < usize::MAX,
        ensures
            final(self).wf(),
            final(self).config_spec() == old(self).config_spec(),
            final(self).view() == (FulltextView {
                writer_available: true,
                docs: old(self).view().docs.insert(doc_id as u128, DocSlot { doc_id, memory_id }),
                memories: old(self).view().memories.insert(memory_id, DocPlacement { memory_id, doc_id }),
                count: old(self).view().count + 1,
                ..old(self).view()
            }),
    {
        self.writer_available = true;
        table_upsert(&mut self.doc_to_memory, DocSlot { doc_id, memory_id });
        table_upsert(&mut self.memory_to_doc, DocPlacement { memory_id, doc_id });
        self.count = self.count + 1;
    }

    /// The first step of adding a batch: the writer is taken (an error if
    /// it is out), and the documents of the memories not yet held are
    /// returned, in order.
    pub fn begin_batch(&mut self, memories: &Vec<MemoryEntry>) -> (r: Result<Vec<FulltextDocument>, IndexError>)
        requires
            old(self).wf(),
        ensures
            final(self).wf(),
            final(self).config_spec() == old(self).config_spec(),
            !old(self).view().writer_available ==> (r matches Err(e) && e matches IndexError::OperationFailed(
                m,
            ) && m@ == "Index writer not available"@) && final(self).view() == old(self).view(),
            old(self).view().writer_available ==> final(self).view() == (FulltextView {
                writer_available: false,
                ..old(self).view()
            }),
            old(self).view().writer_available ==> (r matches Ok(docs) && docs@.len() == memories@.filter(
                |e: MemoryEntry| !old(self).view().memories.contains_key(e.id),
            ).len() && forall|k: int|
                0 <= k < docs@.len() ==> document_matches(
                    #[trigger] docs@[k],
                    memories@.filter(|e: MemoryEntry| !old(self).view().memories.contains_key(e.id))[k]@,
                )),
    {
        let ghost held = self.view().memories;
        match self.take_writer() {
            Err(e) => {
                return Err(e);
            },
            Ok(()) => {},
        }
        let ghost pick = |e: MemoryEntry| !held.contains_key(e.id);
        let mut docs: Vec<FulltextDocument> = Vec::new();
        let mut i: usize = 0;
        while i < memories.len()
            invariant
                self.wf(),
                self.view().memories == held,
                i <= memories@.len(),
                pick == (|e: MemoryEntry| !held.contains_key(e.id)),
                docs@.len() == memories@.take(i as int).filter(pick).len(),
                forall|k: int|
                    0 <= k < docs@.len() ==> document_matches(
                        #[trigger] docs@[k],
                        memories@.take(i as int).filter(pick)[k]@,
                    ),
            decreases memories.len() - i,
        {
            proof {
                assert(memories@.take(i + 1).drop_last() =~= memories@.take(i as int));
                assert(memories@.take(i + 1).last() == memories@[i as int]);
                reveal(Seq::filter);
            }
            if !self.is_indexed(memories[i].id) {
                let d = FulltextIndex::document_for(&memories[i]);
                docs.push(d);
            }
            i = i + 1;
        }
        proof {
            assert(memories@.take(memories@.len() as int) =~= memories@);
        }
        Ok(docs)
    }

    /// The last step of adding a batch: the writer comes back and the
    /// memories are recorded in order, each memory not yet held (counting
    /// those recorded just before it) taking the document number at its own
    /// position in the batch.
    pub fn finish_batch(&mut self, memories: &Vec<MemoryEntry>, doc_ids: &Vec<u64>)
        requires
            old(self).wf(),
            old(self).view().count + memories@.len() <= usize::MAX,
            batch_in_bounds(old(self).view().memories, entry_ids(memories@), doc_ids@),
        ensures
            final(self).wf(),
            final(self).config_spec() == old(self).config_spec(),
            final(self).view() == (FulltextView {
                writer_available: true,
                docs: batch_docs(
                    old(self).view().memories,
                    old(self).view().docs,
                    entry_ids(memories@),
                    doc_ids@,
                    memories@.len(),
                ),
                memories: batch_memories(
                    old(self).view().memories,
                    entry_ids(memories@),
                    doc_ids@,
                    memories@.len(),
                ),
                count: old(self).view().count + batch_count(
                    old(self).view().memories,
                    entry_ids(memories@),
                    doc_ids@,
                    memories@.len(),
                ),
                ..old(self).view()
            }),
    {
        let ghost m0 = self.view().memories;
        let ghost d0 = self.view().docs;
        let ghost c0 = self.view().count;
        let ghost ids = entry_ids(memories@);
        self.writer_available = true;
        let mut i: usize = 0;
        while i < memories.len()
            invariant
                self.wf(),
                self.config_spec() == old(self).config_spec(),
                self.view().initialized == old(self).view().initialized,
                self.writer_available,
                i <= memories@.len(),
                ids == entry_ids(memories@),
                batch_in_bounds(m0, ids, doc_ids@),
                c0 + memories@.len() <= usize::MAX,
                self.view().memories == batch_memories(m0, ids, doc_ids@, i as nat),
                self.view().docs == batch_docs(m0, d0, ids, doc_ids@, i as nat),
                self.view().count == c0 + batch_count(m0, ids, doc_ids@, i as nat),
                batch_count(m0, ids, doc_ids@, i as nat) <= i,
            decreases memories.len() - i,
        {
            let id = memories[i].id;
            assert(ids[i as int] == id);
            if !self.is_indexed(id) {
                proof {
                    let k: int = i as int;
                    assert(!batch_memories(m0, ids, doc_ids@, k as nat).contains_key(ids[k]));
                }
                let doc_id = doc_ids[i];
                table_upsert(&mut self.doc_to_memory, DocSlot { doc_id, memory_id: id });
                table_upsert(&mut self.memory_to_doc, DocPlacement { memory_id: id, doc_id });
                self.count = self.count + 1;
            }
            i = i + 1;
        }
    }

    /// The first step of removing a memory: its document number is
    /// forgotten (whether or not the index held it), then the writer is
    /// taken.
    pub fn begin_remove(&mut self, memory_id: MemoryId) -> (r: Result<(), IndexError>)
        requires
            old(self).wf(),
        ensures
            final(self).wf(),
            final(self).config_spec() == old(self).config_spec(),
            r is Ok <==> old(self).view().writer_available,
            r matches Err(e) ==> e matches IndexError::OperationFailed(m) && m@
                == "Index writer not available"@,
            final(self).view() == (FulltextView {
                writer_available: false,
                memories: old(self).view().memories.remove(memory_id),
                ..old(self).view()
            }),
    {
        let _ = table_take(&mut self.memory_to_doc, memory_id);
        self.take_writer()
    }

    /// The last step of removing a memory: the writer comes back and the
    /// count drops by one (not below zero).
    pub fn finish_remove(&mut self)
        requires
            old(self).wf(),
        ensures
            final(self).wf(),
            final(self).config_spec() == old(self).config_spec(),
            final(self).view() == (FulltextView {
                writer_available: true,
                count: if old(self).view().count == 0 {
                    0
                } else {
                    (old(self).view().count - 1) as nat
                },
                ..old(self).view()
            }),
    {
        self.writer_available = true;
        self.count = if self.count == 0 {
            0
        } else {
            self.count - 1
        };
    }

    /// The check made before a search: the reader and the index must
    /// exist.
    pub fn check_search(&self) -> (r: Result<(), IndexError>)
        ensures
            r is Ok <==> self.view().initialized,
            r matches Err(e) ==> e matches IndexError::OperationFailed(m) && m@
                == "Index reader not available"@,
    {
        if !self.initialized {
            return Err(IndexError::OperationFailed("Index reader not available".to_string()));
        }
        Ok(())
    }

    /// The number of documents recorded (additions minus removals).
    pub fn len(&self) -> (r: usize)
        ensures
            r == self.view().count,
    {
        self.count
    }

    /// Whether the count is zero.
    pub fn is_empty(&self) -> (r: bool)
        ensures
            r == (self.view().count == 0),
    {
        self.count == 0
    }

    /// The configuration.
    pub fn config(&self) -> (r: &FulltextConfig)
        ensures
            *r == self.config_spec(),
    {
        &self.config
    }
}

/// What a search makes of one retrieved document, given what its workspace
/// and identifier fields parse to.
pub fn judge_doc(
    doc: &StoredDoc,
    ws_parsed: Option<u128>,
    id_parsed: Option<u128>,
    workspace_id: Option<WorkspaceId>,
    tags: &Option<Vec<String>>,
) -> (r: Result<Option<MemoryId>, IndexError>)
    ensures
        match doc_verdict(doc@, ws_parsed, id_parsed, workspace_id, tags_filter(*tags)) {
            Ok(v) => r == Ok::<Option<MemoryId>, IndexError>(v),
            Err(m) => r matches Err(e) && e matches IndexError::OperationFailed(x) && x@ == m,
        },
{
    if doc.id.is_none() {
        return Err(IndexError::OperationFailed("Missing id field".to_string()));
    }
    if doc.workspace_id.is_none() {
        return Err(IndexError::OperationFailed("Missing workspace_id field".to_string()));
    }
    let ws = match ws_parsed {
        Some(w) => w,
        None => {
            return Err(IndexError::OperationFailed("Invalid workspace_id".to_string()));
        },
    };
    match workspace_id {
        Some(f) => {
            if ws != f {
                return Ok(None);
            }
        },
        None => {},
    }
    match tags {
        Some(filter) => {
            let doc_tags: &str = match &doc.tags {
                Some(t) => t.as_str(),
                None => "",
            };
            let ghost q = filter@.map_values(|s: String| s@);
            let mut found = false;
            let mut i: usize = 0;
            while i < filter.len() && !found
                invariant
                    i <= filter@.len(),
                    q == filter@.map_values(|s: String| s@),
                    !found ==> forall|j: int| 0 <= j < i ==> !seq_contains(doc_tags@, #[trigger] q[j]),
                    found ==> exists|j: int| 0 <= j < i && seq_contains(doc_tags@, #[trigger] q[j]),
                decreases filter.len() - i,
            {
                if contains_text(doc_tags, filter[i].as_str()) {
                    found = true;
                    assert(seq_contains(doc_tags@, q[i as int]));
                }
                i = i + 1;
            }
            proof {
                assert(tags_filter(*tags) == Some(q));
                reveal_strlit("");
                assert(doc_tags@ == (if doc@.tags is Some {
                    doc@.tags.unwrap()
                } else {
                    Seq::<char>::empty()
                }));
                if found {
                    let j = choose|j: int| 0 <= j < i && seq_contains(doc_tags@, #[trigger] q[j]);
                    assert(0 <= j < tags_filter(*tags).unwrap().len());
                    assert(seq_contains(doc_tags@, tags_filter(*tags).unwrap()[j]));
                }
            }
            if !found {
                return Ok(None);
            }
        },
        None => {},
    }
    match id_parsed {
        Some(id) => Ok(Some(id)),
        None => Err(IndexError::OperationFailed("Invalid memory id".to_string())),
    }
}

/// The memories a search keeps from the retrieved documents, in order:
/// documents of other workspaces, or without one of the tags (as a
/// substring of their tags field), are skipped; a missing or malformed
/// field is an error.
pub fn filter_search_hits(
    docs: &Vec<StoredDoc>,
    workspace_id: Option<WorkspaceId>,
    tags: &Option<Vec<String>>,
) -> (r: Result<Vec<MemoryId>, IndexError>)
    ensures
        match hits_spec(docs@.map_values(|d: StoredDoc| d@), workspace_id, tags_filter(*tags)) {
            Ok(ids) => r matches Ok(v) && v@ == ids,
            Err(m) => r matches Err(e) && e matches IndexError::OperationFailed(x) && x@ == m,
        },
{
    let ghost dv = docs@.map_values(|d: StoredDoc| d@);
    let mut out: Vec<MemoryId> = Vec::new();
    let mut i: usize = 0;
    while i < docs.len()
        invariant
            i <= docs@.len(),
            dv == docs@.map_values(|d: StoredDoc| d@),
            hits_spec(dv.take(i as int), workspace_id, tags_filter(*tags)) == Ok::<
                Seq<MemoryId>,
                Seq<char>,
            >(out@),
        decreases docs.len() - i,
    {
        proof {
            assert(dv.take(i + 1).drop_last() =~= dv.take(i as int));
            assert(dv.take(i + 1).last() == docs@[i as int]@);
        }
        let d = &docs[i];
        let ws_parsed = match &d.workspace_id {
            Some(s) => match parse_uuid(s.as_str()) {
                Ok(u) => Some(u),
                Err(_) => None,
            },
            None => None,
        };
        let id_parsed = match &d.id {
            Some(s) => match parse_uuid(s.as_str()) {
                Ok(u) => Some(u),
                Err(_) => None,
            },
            None => None,
        };
        assert(ws_parsed == parse_field(d@.workspace_id));
        assert(id_parsed == parse_field(d@.id));
        match judge_doc(d, ws_parsed, id_parsed, workspace_id, tags) {
            Err(e) => {
                proof {
                    assert(dv.take(docs@.len() as int) =~= dv);
                    lemma_hits_err_stays(dv, workspace_id, tags_filter(*tags), i + 1);
                }
                return Err(e);
            },
            Ok(None) => {},
            Ok(Some(id)) => {
                out.push(id);
            },
        }
        i = i + 1;
    }
    proof {
        assert(dv.take(docs@.len() as int) =~= dv);
    }
    Ok(out)
}

/// Once the hits of a prefix are an error, so are those of every longer
/// prefix, with the same text.
proof fn lemma_hits_err_stays(
    docs: Seq<StoredDocView>,
    ws: Option<WorkspaceId>,
    tags: Option<Seq<Seq<char>>>,
    n: int,
)
    requires
        0 <= n <= docs.len(),
        hits_spec(docs.take(n), ws, tags) is Err,
    ensures
        hits_spec(docs, ws, tags) == hits_spec(docs.take(n), ws, tags),
    decreases docs.len() - n,
{
    if n < docs.len() {
        assert(docs.take(n + 1).drop_last() =~= docs.take(n));
        lemma_hits_err_stays(docs, ws, tags, n + 1);
    } else {
        assert(docs.take(n) =~= docs);
    }
}

/// Builds a full-text index with a fluent configuration.
pub struct FulltextIndexBuilder {
    config: FulltextConfig,
}

impl FulltextIndexBuilder {
    /// A builder with the default configuration.
    pub fn new() -> (r: Self)
        ensures
            r.config_spec().max_heap_size == 50_000_000,
            !r.config_spec().persist,
            r.config_spec().index_path is None,
            r.config_spec().index_content,
            r.config_spec().index_tags,
    {
        FulltextIndexBuilder { config: FulltextConfig::default() }
    }

    pub closed spec fn config_spec(&self) -> FulltextConfig {
        self.config
    }

    /// Sets the writer's heap size.
    pub fn with_max_heap_size(self, size: usize) -> (r: Self)
        ensures
            r.config_spec() == (FulltextConfig { max_heap_size: size, ..self.config_spec() }),
    {
        let mut b = self;
        b.config.max_heap_size = size;
        b
    }

    /// Sets whether the index is kept on disk.
    pub fn with_persist(self, persist: bool) -> (r: Self)
        ensures
            r.config_spec() == (FulltextConfig { persist, ..self.config_spec() }),
    {
        let mut b = self;
        b.config.persist = persist;
        b
    }

    /// Sets the directory of the index on disk.
    pub fn with_index_path(self, path: String) -> (r: Self)
        ensures
            r.config_spec() == (FulltextConfig { index_path: Some(path), ..self.config_spec() }),
    {
        let mut b = self;
        b.config.index_path = Some(path);
        b
    }

    /// An empty index with the configuration; this never fails.
    pub fn build(self) -> (r: Result<FulltextIndex, IndexError>)
        ensures
            r matches Ok(ix) && ix.wf() && ix.config_spec() == self.config_spec() && ix.view() == (
            FulltextView {
                initialized: false,
                writer_available: false,
                docs: Map::empty(),
                memories: Map::empty(),
                count: 0,
            }),
    {
        FulltextIndex::new(self.config)
    }
}

impl Default for FulltextIndexBuilder {
    fn default() -> (r: Self)
        ensures
            r.config_spec().max_heap_size == 50_000_000,
            !r.config_spec().persist,
            r.config_spec().index_path is None,
            r.config_spec().index_content,
            r.config_spec().index_tags,
    {
        FulltextIndexBuilder::new()
    }
}

} // verus!
