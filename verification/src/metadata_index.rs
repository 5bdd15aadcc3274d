//! Metadata index: filtering memories by workspace, tags, status, creation
//! date and importance.
//!
//! The index keeps inverted indexes from workspaces, tags and statuses to
//! memory identifiers beside a record of each memory's metadata. Adding a
//! memory extends the indexes; removing one takes it out of the sets its
//! last record names.

use vstd::prelude::*;
use crate::entry_table::{
    Keyed, find_index, has_id, index_of_id, lemma_table_at, lemma_table_empty, lemma_table_push,
    lemma_table_remove, lemma_table_set, table_map, unique_ids,
};
use crate::error::IndexError;
use crate::floats::{f32_le, le};
use crate::set_map::{SetMap, distinct, set_insert, views};
use crate::text::{join3, uuid_string, uuid_text};
use crate::types::{
    DateRange, MemoryEntry, MemoryId, MemoryStatus, Timestamp, WorkspaceId, clone_strings,
    texts_view,
};

verus! {

/// Configuration for the metadata index.
#[derive(Debug, Clone, Copy)]
pub struct MetadataConfig {
    /// Maximum number of tags to track per workspace.
    pub max_tags: usize,
    /// Enable importance-based indexing.
    pub index_importance: bool,
    /// Enable status-based indexing.
    pub index_status: bool,
}

impl Default for MetadataConfig {
    /// Ten thousand tags, importance and status indexing on.
    fn default() -> (r: Self)
        ensures
            r.max_tags == 10_000,
            r.index_importance,
            r.index_status,
    {
        MetadataConfig { max_tags: 10_000, index_importance: true, index_status: true }
    }
}

/// The metadata the index records for one memory.
pub struct MetaEntry {
    pub memory_id: MemoryId,
    pub workspace_id: WorkspaceId,
    pub tags: Vec<String>,
    /// Importance, as the bit pattern of an `f32`.
    pub importance: u32,
    pub status: MemoryStatus,
    pub created_at: Timestamp,
    pub updated_at: Timestamp,
}

/// What a record holds, with tags as characters.
pub struct MetaView {
    pub memory_id: MemoryId,
    pub workspace_id: WorkspaceId,
    pub tags: Seq<Seq<char>>,
    pub importance: u32,
    pub status: MemoryStatus,
    pub created_at: Timestamp,
    pub updated_at: Timestamp,
}

impl View for MetaEntry {
    type V = MetaView;

    open spec fn view(&self) -> MetaView {
        MetaView {
            memory_id: self.memory_id,
            workspace_id: self.workspace_id,
            tags: texts_view(self.tags@),
            importance: self.importance,
            status: self.status,
            created_at: self.created_at,
            updated_at: self.updated_at,
        }
    }
}

impl Keyed for MetaEntry {
    open spec fn key(&self) -> u128 {
        self.memory_id
    }

    fn get_key(&self) -> (r: u128) {
        self.memory_id
    }
}

/// The record the index keeps for a memory.
pub open spec fn meta_of(m: crate::types::EntryView) -> MetaView {
    MetaView {
        memory_id: m.id,
        workspace_id: m.workspace_id,
        tags: m.metadata.tags,
        importance: m.metadata.importance,
        status: m.status,
        created_at: m.created_at,
        updated_at: m.updated_at,
    }
}

/// Everything the index holds.
pub struct IndexView {
    pub workspace_memories: Map<WorkspaceId, Set<MemoryId>>,
    pub memory_metadata: Map<MemoryId, MetaView>,
    pub tag_index: Map<Seq<char>, Set<MemoryId>>,
    pub status_index: Map<MemoryStatus, Set<MemoryId>>,
    pub workspace_tags: Map<WorkspaceId, Set<Seq<char>>>,
    pub count: nat,
}

/// The set of a key, or the empty set for a key without one.
pub open spec fn set_of<K, V>(m: Map<K, Set<V>>, k: K) -> Set<V> {
    if m.contains_key(k) {
        m[k]
    } else {
        Set::empty()
    }
}

/// `v` added to the set of `k`.
pub open spec fn add_to<K, V>(m: Map<K, Set<V>>, k: K, v: V) -> Map<K, Set<V>> {
    m.insert(k, set_of(m, k).insert(v))
}

/// `v` added to the sets of every key in `keys`.
pub open spec fn add_to_each<K, V>(m: Map<K, Set<V>>, keys: Set<K>, v: V) -> Map<K, Set<V>> {
    Map::new(
        |k: K| m.contains_key(k) || keys.contains(k),
        |k: K|
            if keys.contains(k) {
                set_of(m, k).insert(v)
            } else {
                m[k]
            },
    )
}

/// The values of `vals` added to the set of `k`; nothing changes when
/// `vals` is empty.
pub open spec fn add_all<K, V>(m: Map<K, Set<V>>, k: K, vals: Set<V>) -> Map<K, Set<V>> {
    if vals.is_empty() {
        m
    } else {
        m.insert(k, set_of(m, k).union(vals))
    }
}

/// `v` removed from the set of `k`, when `k` has one.
pub open spec fn remove_from<K, V>(m: Map<K, Set<V>>, k: K, v: V) -> Map<K, Set<V>> {
    if m.contains_key(k) {
        m.insert(k, m[k].remove(v))
    } else {
        m
    }
}

/// `v` removed from the sets of every key in `keys`.
pub open spec fn remove_from_each<K, V>(m: Map<K, Set<V>>, keys: Set<K>, v: V) -> Map<K, Set<V>> {
    Map::new(
        |k: K| m.contains_key(k),
        |k: K|
            if keys.contains(k) {
                m[k].remove(v)
            } else {
                m[k]
            },
    )
}

/// The index after adding a memory.
pub open spec fn added_spec(ix: IndexView, m: crate::types::EntryView) -> IndexView {
    let tags = m.metadata.tags.to_set();
    IndexView {
        workspace_memories: add_to(ix.workspace_memories, m.workspace_id, m.id),
        memory_metadata: ix.memory_metadata.insert(m.id, meta_of(m)),
        tag_index: add_to_each(ix.tag_index, tags, m.id),
        status_index: add_to(ix.status_index, m.status, m.id),
        workspace_tags: add_all(ix.workspace_tags, m.workspace_id, tags),
        count: ix.count + 1,
    }
}

/// The index after removing a recorded memory.
pub open spec fn removed_spec(ix: IndexView, id: MemoryId) -> IndexView {
    let e = ix.memory_metadata[id];
    IndexView {
        workspace_memories: remove_from(ix.workspace_memories, e.workspace_id, id),
        memory_metadata: ix.memory_metadata.remove(id),
        tag_index: remove_from_each(ix.tag_index, e.tags.to_set(), id),
        status_index: remove_from(ix.status_index, e.status, id),
        workspace_tags: ix.workspace_tags,
        count: if ix.count > 0 {
            (ix.count - 1) as nat
        } else {
            0
        },
    }
}

/// The identifiers among `ids` whose recorded workspace is `ws` (all of the
/// recorded ones when no workspace is given).
pub open spec fn in_workspace(
    ids: Set<MemoryId>,
    meta: Map<MemoryId, MetaView>,
    ws: Option<WorkspaceId>,
) -> Set<MemoryId> {
    match ws {
        Some(w) => ids.filter(|id: MemoryId| meta.contains_key(id) && meta[id].workspace_id == w),
        None => ids,
    }
}

/// The recorded memories that pass a predicate and the workspace filter.
pub open spec fn recorded_where(
    meta: Map<MemoryId, MetaView>,
    ws: Option<WorkspaceId>,
    p: spec_fn(MetaView) -> bool,
) -> Set<MemoryId> {
    Set::new(
        |id: MemoryId|
            meta.contains_key(id) && p(meta[id]) && (ws matches Some(w) ==> meta[id].workspace_id
                == w),
    )
}

/// Metadata index for efficient filtering.
pub struct MetadataIndex {
    config: MetadataConfig,
    workspace_memories: SetMap<u128, u128>,
    memory_metadata: Vec<MetaEntry>,
    tag_index: SetMap<String, u128>,
    status_index: SetMap<MemoryStatus, u128>,
    workspace_tags: SetMap<u128, String>,
    count: usize,
}

impl MetadataIndex {
    /// The parts of the index are well formed.
    pub closed spec fn wf(&self) -> bool {
        &&& self.workspace_memories.wf()
        &&& unique_ids(self.memory_metadata@)
        &&& self.tag_index.wf()
        &&& self.status_index.wf()
        &&& self.workspace_tags.wf()
    }

    /// Everything the index holds.
    pub closed spec fn view(&self) -> IndexView {
        IndexView {
            workspace_memories: self.workspace_memories@,
            memory_metadata: table_map(self.memory_metadata@),
            tag_index: self.tag_index@,
            status_index: self.status_index@,
            workspace_tags: self.workspace_tags@,
            count: self.count as nat,
        }
    }

    /// The configuration the index was built with.
    pub closed spec fn config_spec(&self) -> MetadataConfig {
        self.config
    }

    /// An empty index.
    pub fn new(config: MetadataConfig) -> (r: Self)
        ensures
            r.wf(),
            r.config_spec() == config,
            r@ == (IndexView {
                workspace_memories: Map::empty(),
                memory_metadata: Map::empty(),
                tag_index: Map::empty(),
                status_index: Map::empty(),
                workspace_tags: Map::empty(),
                count: 0,
            }),
    {
        let memory_metadata: Vec<MetaEntry> = Vec::new();
        proof {
            lemma_table_empty(memory_metadata@);
        }
        MetadataIndex {
            config,
            workspace_memories: SetMap::new(),
            memory_metadata,
            tag_index: SetMap::new(),
            status_index: SetMap::new(),
            workspace_tags: SetMap::new(),
            count: 0,
        }
    }

    /// Adds a memory to the index: to its workspace's set, to the set of
    /// each of its tags, to its status's set and to its workspace's tags, and
    /// records its metadata (replacing an earlier record); the count grows by
    /// one.
    pub fn add(&mut self, memory: &MemoryEntry) -> (r: Result<(), IndexError>)
        requires
            old(self).wf(),
            old(self)@.count < usize::MAX,
        ensures
            final(self).wf(),
            final(self).config_spec() == old(self).config_spec(),
            r is Ok,
            final(self)@ == added_spec(old(self)@, memory@),
    {
        let ghost old_view = self@;
        let id = memory.id;
        let ws = memory.workspace_id;
        self.workspace_memories.insert(&ws, id);
        let mut i: usize = 0;
        let tags = &memory.metadata.tags;
        while i < tags.len()
            invariant
                self.wf(),
                i <= tags@.len(),
                tags == &memory.metadata.tags,
                self.tag_index@ == add_to_each(old_view.tag_index, texts_view(tags@).take(i as int).to_set(), id),
                self.workspace_tags@ == add_all(old_view.workspace_tags, ws, texts_view(tags@).take(i as int).to_set()),
                self.workspace_memories@ == add_to(old_view.workspace_memories, ws, id),
                self.status_index@ == old_view.status_index,
                table_map(self.memory_metadata@) == old_view.memory_metadata,
                self.count == old_view.count,
                self.config == old(self).config,
            decreases tags.len() - i,
        {
            let t = &tags[i];
            let ghost before_tags = self.tag_index@;
            let ghost before_wt = self.workspace_tags@;
            let ghost seen = texts_view(tags@).take(i as int).to_set();
            self.workspace_tags.insert(&ws, t.clone());
            self.tag_index.insert(t, id);
            proof {
                let next = texts_view(tags@).take(i as int + 1);
                assert(next =~= texts_view(tags@).take(i as int).push(t@));
                lemma_push_to_set(texts_view(tags@).take(i as int), t@);
                assert(next.to_set() == seen.insert(t@));
                lemma_add_to_each_step(old_view.tag_index, seen, t@, id);
                assert(self.tag_index@ == add_to_each(old_view.tag_index, seen.insert(t@), id));
                assert(!seen.insert(t@).is_empty());
                assert(set_of(before_wt, ws).insert(t@) =~= set_of(old_view.workspace_tags, ws).union(seen.insert(t@)));
                assert(self.workspace_tags@ =~= add_all(old_view.workspace_tags, ws, seen.insert(t@)));
            }
            i = i + 1;
        }
        assert(texts_view(tags@).take(i as int) =~= memory@.metadata.tags);
        let st = memory.status;
        self.status_index.insert(&st, id);
        let entry = MetaEntry {
            memory_id: id,
            workspace_id: ws,
            tags: clone_strings(&memory.metadata.tags),
            importance: memory.metadata.importance,
            status: memory.status,
            created_at: memory.created_at,
            updated_at: memory.updated_at,
        };
        assert(entry@ == meta_of(memory@));
        match find_index(&self.memory_metadata, id) {
            Some(k) => {
                proof {
                    lemma_table_set(self.memory_metadata@, k as int, entry);
                }
                self.memory_metadata.set(k, entry);
            },
            None => {
                proof {
                    lemma_table_push(self.memory_metadata@, entry);
                }
                self.memory_metadata.push(entry);
            },
        }
        self.count = self.count + 1;
        Ok(())
    }

    /// Adds each memory in turn; stops at the first failure.
    pub fn batch_add(&mut self, memories: &Vec<MemoryEntry>) -> (r: Result<(), IndexError>)
        requires
            old(self).wf(),
            old(self)@.count + memories@.len() <= usize::MAX,
        ensures
            final(self).wf(),
            final(self).config_spec() == old(self).config_spec(),
            r is Ok,
            final(self)@ == added_all_spec(old(self)@, memories@.map_values(|m: MemoryEntry| m@)),
    {
        let mut i: usize = 0;
        while i < memories.len()
            invariant
                self.wf(),
                i <= memories@.len(),
                self.config == old(self).config,
                self@ == added_all_spec(old(self)@, memories@.map_values(|m: MemoryEntry| m@).take(i as int)),
                self@.count == old(self)@.count + i,
                old(self)@.count + memories@.len() <= usize::MAX,
            decreases memories.len() - i,
        {
            let _ = self.add(&memories[i]);
            proof {
                let all = memories@.map_values(|m: MemoryEntry| m@);
                assert(all.take(i as int + 1).drop_last() =~= all.take(i as int));
            }
            i = i + 1;
        }
        assert(memories@.map_values(|m: MemoryEntry| m@).take(i as int) =~= memories@.map_values(|m: MemoryEntry| m@));
        Ok(())
    }

    /// Removes a recorded memory from the index: from its workspace's set,
    /// from the sets of the tags of its record and from its status's set; the
    /// record goes and the count drops by one (not below zero). A memory
    /// without a record is not found and nothing changes.
    pub fn remove(&mut self, memory_id: MemoryId) -> (r: Result<(), IndexError>)
        requires
            old(self).wf(),
        ensures
            final(self).wf(),
            final(self).config_spec() == old(self).config_spec(),
            !old(self)@.memory_metadata.contains_key(memory_id) ==> final(self)@ == old(self)@
                && (r matches Err(IndexError::NotFound(m)) && m@ == "Memory "@ + uuid_text(memory_id)
                + " not in index"@),
            old(self)@.memory_metadata.contains_key(memory_id) ==> r is Ok && final(self)@
                == removed_spec(old(self)@, memory_id),
    {
        let ghost old_view = self@;
        let k = match find_index(&self.memory_metadata, memory_id) {
            Some(k) => k,
            None => {
                let sid = uuid_string(memory_id);
                return Err(IndexError::NotFound(join3("Memory ", sid.as_str(), " not in index")));
            },
        };
        proof {
            lemma_table_at(self.memory_metadata@, k as int);
            lemma_table_remove(self.memory_metadata@, k as int);
        }
        let entry = self.memory_metadata.remove(k);
        let ghost ev = entry@;
        self.workspace_memories.remove_value(&entry.workspace_id, &memory_id);
        let mut i: usize = 0;
        while i < entry.tags.len()
            invariant
                self.wf(),
                i <= entry.tags@.len(),
                ev == entry@,
                self.tag_index@ == remove_from_each(old_view.tag_index, texts_view(entry.tags@).take(i as int).to_set(), memory_id),
                self.workspace_memories@ == remove_from(old_view.workspace_memories, ev.workspace_id, memory_id),
                self.status_index@ == old_view.status_index,
                self.workspace_tags@ == old_view.workspace_tags,
                table_map(self.memory_metadata@) == old_view.memory_metadata.remove(memory_id),
                self.count == old_view.count,
                self.config == old(self).config,
            decreases entry.tags.len() - i,
        {
            let ghost seen = texts_view(entry.tags@).take(i as int).to_set();
            self.tag_index.remove_value(&entry.tags[i], &memory_id);
            proof {
                let t = entry.tags@[i as int]@;
                let next = texts_view(entry.tags@).take(i as int + 1);
                assert(next =~= texts_view(entry.tags@).take(i as int).push(t));
                lemma_push_to_set(texts_view(entry.tags@).take(i as int), t);
                lemma_remove_from_each_step(old_view.tag_index, seen, t, memory_id);
                assert(self.tag_index@ == remove_from_each(old_view.tag_index, seen.insert(t), memory_id));
            }
            i = i + 1;
        }
        assert(texts_view(entry.tags@).take(i as int) =~= ev.tags);
        self.status_index.remove_value(&entry.status, &memory_id);
        self.count = if self.count > 0 { self.count - 1 } else { 0 };
        Ok(())
    }

    /// The identifiers in a workspace's set, each once.
    pub fn get_by_workspace(&self, workspace_id: WorkspaceId) -> (r: Vec<MemoryId>)
        requires
            self.wf(),
        ensures
            r@.no_duplicates(),
            r@.to_set() == set_of(self@.workspace_memories, workspace_id),
    {
        let r = self.workspace_memories.get(&workspace_id);
        assert(views(r@) =~= r@);
        r
    }

    /// Keeps the identifiers whose record names the workspace (all recorded
    /// ones, and unrecorded ones too, when no workspace is given).
    fn filter_workspace(&self, ids: Vec<MemoryId>, workspace_id: Option<WorkspaceId>) -> (r: Vec<MemoryId>)
        requires
            self.wf(),
            ids@.no_duplicates(),
        ensures
            r@.no_duplicates(),
            r@.to_set() == in_workspace(ids@.to_set(), self@.memory_metadata, workspace_id),
    {
        match workspace_id {
            None => ids,
            Some(w) => {
                let mut out: Vec<MemoryId> = Vec::new();
                let mut i: usize = 0;
                while i < ids.len()
                    invariant
                        self.wf(),
                        i <= ids@.len(),
                        ids@.no_duplicates(),
                        out@.no_duplicates(),
                        forall|x: MemoryId| out@.contains(x) <==> (ids@.take(i as int).contains(x) && self@.memory_metadata.contains_key(x) && self@.memory_metadata[x].workspace_id == w),
                    decreases ids.len() - i,
                {
                    let id = ids[i];
                    let keep = match find_index(&self.memory_metadata, id) {
                        Some(k) => {
                            proof {
                                lemma_table_at(self.memory_metadata@, k as int);
                            }
                            self.memory_metadata[k].workspace_id == w
                        },
                        None => false,
                    };
                    assert(keep == (self@.memory_metadata.contains_key(id) && self@.memory_metadata[id].workspace_id == w));
                    let ghost out_before = out@;
                    proof {
                        assert(ids@.take(i as int + 1) =~= ids@.take(i as int).push(id));
                        assert(!ids@.take(i as int).contains(id)) by {
                            if ids@.take(i as int).contains(id) {
                                let j = choose|j: int| 0 <= j < i && ids@.take(i as int)[j] == id;
                                assert(ids@[j] == ids@[i as int]);
                            }
                        }
                    }
                    if keep {
                        let ghost before = out@;
                        proof {
                            assert(!before.contains(id));
                            lemma_push_no_dup(before, id);
                        }
                        out.push(id);
                        proof {
                            assert forall|x: MemoryId| out@.contains(x) <==> (before.contains(x) || x == id) by {
                                if out@.contains(x) {
                                    let j = choose|j: int| 0 <= j < out@.len() && out@[j] == x;
                                    if j < before.len() { assert(before[j] == x); }
                                }
                                if before.contains(x) {
                                    let j = choose|j: int| 0 <= j < before.len() && before[j] == x;
                                    assert(out@[j] == x);
                                }
                                if x == id { assert(out@[before.len() as int] == x); }
                            }
                        }
                    }
                    proof {
                        assert forall|x: MemoryId| ids@.take(i as int + 1).contains(x) <==> (ids@.take(i as int).contains(x) || x == id) by {
                            let p = ids@.take(i as int);
                            let q = ids@.take(i as int + 1);
                            if q.contains(x) {
                                let j = choose|j: int| 0 <= j < q.len() && q[j] == x;
                                if j < p.len() { assert(p[j] == x); }
                            }
                            if p.contains(x) {
                                let j = choose|j: int| 0 <= j < p.len() && p[j] == x;
                                assert(q[j] == x);
                            }
                            if x == id { assert(q[i as int] == x); }
                        }
                        assert forall|x: MemoryId| out@.contains(x) <==> (ids@.take(i as int + 1).contains(x) && self@.memory_metadata.contains_key(x) && self@.memory_metadata[x].workspace_id == w) by {
                            assert(out_before.contains(x) <==> (ids@.take(i as int).contains(x) && self@.memory_metadata.contains_key(x) && self@.memory_metadata[x].workspace_id == w));
                            assert(ids@.take(i as int + 1).contains(x) <==> (ids@.take(i as int).contains(x) || x == id));
                            if !keep {
                                assert(out@ == out_before);
                            } else {
                                assert(out@.contains(x) <==> (out_before.contains(x) || x == id));
                            }
                        }
                    }
                    i = i + 1;
                }
                assert(ids@.take(i as int) =~= ids@);
                assert(out@.to_set() =~= in_workspace(ids@.to_set(), self@.memory_metadata, workspace_id));
                out
            },
        }
    }

    /// The memories in the set of at least one of the tags (OR), restricted
    /// to a workspace when one is given; each once.
    pub fn get_by_tags(&self, tags: &Vec<String>, workspace_id: Option<WorkspaceId>) -> (r: Vec<MemoryId>)
        requires
            self.wf(),
        ensures
            r@.no_duplicates(),
            r@.to_set() == in_workspace(tags_union(self@.tag_index, texts_view(tags@)), self@.memory_metadata, workspace_id),
    {
        let mut acc: Vec<MemoryId> = Vec::new();
        let mut i: usize = 0;
        while i < tags.len()
            invariant
                self.wf(),
                i <= tags@.len(),
                distinct(acc@),
                views(acc@).to_set() == tags_union(self@.tag_index, texts_view(tags@).take(i as int)),
            decreases tags.len() - i,
        {
            let ids = self.tag_index.get(&tags[i]);
            let mut j: usize = 0;
            let ghost base = views(acc@).to_set();
            while j < ids.len()
                invariant
                    i < tags@.len(),
                    j <= ids@.len(),
                    distinct(acc@),
                    views(acc@).to_set() == base.union(views(ids@).take(j as int).to_set()),
                decreases ids.len() - j,
            {
                let ghost before = views(acc@).to_set();
                set_insert(&mut acc, ids[j]);
                proof {
                    lemma_push_to_set(views(ids@).take(j as int), views(ids@)[j as int]);
                    assert(views(ids@).take(j as int + 1) =~= views(ids@).take(j as int).push(views(ids@)[j as int]));
                    assert(views(acc@).to_set() =~= base.union(views(ids@).take(j as int + 1).to_set()));
                }
                j = j + 1;
            }
            proof {
                assert(views(ids@).take(j as int) =~= views(ids@));
                let t = tags@[i as int]@;
                let pre = texts_view(tags@).take(i as int + 1);
                assert(pre =~= texts_view(tags@).take(i as int).push(t));
                assert(pre.drop_last() =~= texts_view(tags@).take(i as int));
                assert(pre.last() == t);
                assert(views(acc@).to_set() =~= tags_union(self@.tag_index, pre));
            }
            i = i + 1;
        }
        assert(texts_view(tags@).take(i as int) =~= texts_view(tags@));
        assert(views(acc@) =~= acc@);
        assert(acc@.no_duplicates());
        self.filter_workspace(acc, workspace_id)
    }

    /// The memories in a status's set, restricted to a workspace when one is
    /// given; each once.
    pub fn get_by_status(&self, status: MemoryStatus, workspace_id: Option<WorkspaceId>) -> (r: Vec<MemoryId>)
        requires
            self.wf(),
        ensures
            r@.no_duplicates(),
            r@.to_set() == in_workspace(set_of(self@.status_index, status), self@.memory_metadata, workspace_id),
    {
        let ids = self.status_index.get(&status);
        assert(views(ids@) =~= ids@);
        self.filter_workspace(ids, workspace_id)
    }

    /// The recorded memories that pass a test on their record and, when one
    /// is given, belong to the workspace; each once.
    fn recorded_matching(&self, workspace_id: Option<WorkspaceId>, range: Option<DateRange>, importance: Option<(u32, u32)>) -> (r: Vec<MemoryId>)
        requires
            self.wf(),
        ensures
            r@.no_duplicates(),
            r@.to_set() == recorded_where(self@.memory_metadata, workspace_id, |e: MetaView| record_test(e, range, importance)),
    {
        let mut out: Vec<MemoryId> = Vec::new();
        let mut i: usize = 0;
        let ghost p = |e: MetaView| record_test(e, range, importance);
        while i < self.memory_metadata.len()
            invariant
                self.wf(),
                i <= self.memory_metadata@.len(),
                out@.len() <= i,
                forall|a: int| 0 <= a < out@.len() ==> exists|b: int| 0 <= b < i && #[trigger] out@[a] == self.memory_metadata@[b].memory_id,
                out@.no_duplicates(),
                forall|x: MemoryId| #[trigger] out@.contains(x) <==> (exists|b: int| 0 <= b < i && self.memory_metadata@[b].memory_id == x && record_ok(self.memory_metadata@[b]@, workspace_id, range, importance)),
            decreases self.memory_metadata.len() - i,
        {
            let e = &self.memory_metadata[i];
            let ws_ok = match workspace_id {
                Some(w) => e.workspace_id == w,
                None => true,
            };
            let range_ok = match range {
                Some(r) => e.created_at >= r.start && e.created_at <= r.end,
                None => true,
            };
            let imp_ok = match importance {
                Some((lo, hi)) => le(lo, e.importance) && le(e.importance, hi),
                None => true,
            };
            if ws_ok && range_ok && imp_ok {
                let ghost before = out@;
                proof {
                    assert(!before.contains(e.memory_id)) by {
                        if before.contains(e.memory_id) {
                            let b = choose|b: int| 0 <= b < i && self.memory_metadata@[b].memory_id == e.memory_id && record_ok(self.memory_metadata@[b]@, workspace_id, range, importance);
                            assert(self.memory_metadata@[b].key() == self.memory_metadata@[i as int].key());
                        }
                    }
                }
                out.push(e.memory_id);
                proof {
                    assert forall|x: MemoryId| #[trigger] out@.contains(x) <==> (before.contains(x) || x == self.memory_metadata@[i as int].memory_id) by {
                        if out@.contains(x) {
                            let j = choose|j: int| 0 <= j < out@.len() && out@[j] == x;
                            if j < before.len() { assert(before[j] == x); }
                        }
                        if before.contains(x) {
                            let j = choose|j: int| 0 <= j < before.len() && before[j] == x;
                            assert(out@[j] == x);
                        }
                        if x == self.memory_metadata@[i as int].memory_id { assert(out@[before.len() as int] == x); }
                    }
                }
            }
            proof {
                assert forall|x: MemoryId| #[trigger] out@.contains(x) <==> (exists|b: int| 0 <= b < i + 1 && self.memory_metadata@[b].memory_id == x && record_ok(self.memory_metadata@[b]@, workspace_id, range, importance)) by {
                    if exists|b: int| 0 <= b < i + 1 && self.memory_metadata@[b].memory_id == x && record_ok(self.memory_metadata@[b]@, workspace_id, range, importance) {
                        let b = choose|b: int| 0 <= b < i + 1 && self.memory_metadata@[b].memory_id == x && record_ok(self.memory_metadata@[b]@, workspace_id, range, importance);
                        if b == i as int {
                        } else {
                            assert(exists|b2: int| 0 <= b2 < i && self.memory_metadata@[b2].memory_id == x && record_ok(self.memory_metadata@[b2]@, workspace_id, range, importance));
                        }
                    }
                }
                assert forall|a: int| 0 <= a < out@.len() implies exists|b: int| 0 <= b < i + 1 && #[trigger] out@[a] == self.memory_metadata@[b].memory_id by {
                    assert(out@.contains(out@[a]));
                }
            }
            i = i + 1;
        }
        proof {
            let target = recorded_where(self@.memory_metadata, workspace_id, p);
            assert forall|x: MemoryId| out@.to_set().contains(x) == target.contains(x) by {
                if out@.contains(x) {
                    let b = choose|b: int| 0 <= b < i && self.memory_metadata@[b].memory_id == x && record_ok(self.memory_metadata@[b]@, workspace_id, range, importance);
                    lemma_table_at(self.memory_metadata@, b);
                    assert(self.memory_metadata@[b].key() == x);
                }
                if target.contains(x) {
                    let b = index_of_id(self.memory_metadata@, x);
                    lemma_table_at(self.memory_metadata@, b);
                }
            }
            assert(out@.to_set() =~= target);
        }
        out
    }

    /// The recorded memories created within the range (both ends included),
    /// restricted to a workspace when one is given; each once.
    pub fn get_by_date_range(&self, range: &DateRange, workspace_id: Option<WorkspaceId>) -> (r: Vec<MemoryId>)
        requires
            self.wf(),
        ensures
            r@.no_duplicates(),
            r@.to_set() == recorded_where(self@.memory_metadata, workspace_id, |e: MetaView| range.start <= e.created_at <= range.end),
    {
        let r = self.recorded_matching(workspace_id, Some(*range), None);
        assert(r@.to_set() =~= recorded_where(self@.memory_metadata, workspace_id, |e: MetaView| range.start <= e.created_at <= range.end));
        r
    }

    /// The recorded memories whose importance lies in [min, max] (IEEE
    /// comparisons on the bit patterns), restricted to a workspace when one
    /// is given; each once.
    pub fn get_by_importance(&self, min: u32, max: u32, workspace_id: Option<WorkspaceId>) -> (r: Vec<MemoryId>)
        requires
            self.wf(),
        ensures
            r@.no_duplicates(),
            r@.to_set() == recorded_where(self@.memory_metadata, workspace_id, |e: MetaView| f32_le(min, e.importance) && f32_le(e.importance, max)),
    {
        let r = self.recorded_matching(workspace_id, None, Some((min, max)));
        assert(r@.to_set() =~= recorded_where(self@.memory_metadata, workspace_id, |e: MetaView| f32_le(min, e.importance) && f32_le(e.importance, max)));
        r
    }

    /// The tags seen in a workspace, each once.
    pub fn get_tags(&self, workspace_id: WorkspaceId) -> (r: Vec<String>)
        requires
            self.wf(),
        ensures
            texts_view(r@).no_duplicates(),
            texts_view(r@).to_set() == set_of(self@.workspace_tags, workspace_id),
    {
        let r = self.workspace_tags.get(&workspace_id);
        assert(views(r@) =~= texts_view(r@));
        r
    }

    /// For each status in lifecycle order, the number of memories in its set
    /// whose record names the workspace, listed when it is not zero.
    pub fn get_status_counts(&self, workspace_id: WorkspaceId) -> (r: Vec<(MemoryStatus, usize)>)
        requires
            self.wf(),
        ensures
            r@ == status_counts_spec(self@, workspace_id),
    {
        let mut out: Vec<(MemoryStatus, usize)> = Vec::new();
        let order = [MemoryStatus::Active, MemoryStatus::Cooling, MemoryStatus::Cold, MemoryStatus::Zombie];
        let mut i: usize = 0;
        while i < 4
            invariant
                self.wf(),
                i <= 4,
                order@ == status_order(),
                out@ == counts_prefix(self@, workspace_id, i as int),
            decreases 4 - i,
        {
            let s = order[i];
            let ids = self.get_by_status(s, Some(workspace_id));
            let n = ids.len();
            proof {
                ids@.unique_seq_to_set();
            }
            if n > 0 {
                out.push((s, n));
            }
            i = i + 1;
        }
        out
    }

    /// The number of memories added and not removed since creation.
    pub fn len(&self) -> (r: usize)
        ensures
            r == self@.count,
    {
        self.count
    }

    /// Whether the count is zero.
    pub fn is_empty(&self) -> (r: bool)
        ensures
            r == (self@.count == 0),
    {
        self.count == 0
    }

    /// The configuration.
    pub fn config(&self) -> (r: &MetadataConfig)
        ensures
            *r == self.config_spec(),
    {
        &self.config
    }
}

/// The test a record passes: within the date range and importance bounds,
/// when given.
pub open spec fn record_test(e: MetaView, range: Option<DateRange>, importance: Option<(u32, u32)>) -> bool {
    &&& (range matches Some(r) ==> r.start <= e.created_at <= r.end)
    &&& (importance matches Some(b) ==> f32_le(b.0, e.importance) && f32_le(e.importance, b.1))
}

/// The record passes the test and belongs to the workspace when one is given.
pub open spec fn record_ok(e: MetaView, ws: Option<WorkspaceId>, range: Option<DateRange>, importance: Option<(u32, u32)>) -> bool {
    record_test(e, range, importance) && (ws matches Some(w) ==> e.workspace_id == w)
}

/// The union of the sets of the given tags.
pub open spec fn tags_union(ix: Map<Seq<char>, Set<MemoryId>>, tags: Seq<Seq<char>>) -> Set<MemoryId>
    decreases tags.len(),
{
    if tags.len() == 0 {
        Set::empty()
    } else {
        tags_union(ix, tags.drop_last()).union(set_of(ix, tags.last()))
    }
}

/// The adds of a batch in order.
pub open spec fn added_all_spec(ix: IndexView, ms: Seq<crate::types::EntryView>) -> IndexView
    decreases ms.len(),
{
    if ms.len() == 0 {
        ix
    } else {
        added_spec(added_all_spec(ix, ms.drop_last()), ms.last())
    }
}

/// The statuses in lifecycle order.
pub open spec fn status_order() -> Seq<MemoryStatus> {
    seq![MemoryStatus::Active, MemoryStatus::Cooling, MemoryStatus::Cold, MemoryStatus::Zombie]
}

/// The number of memories in a status's set whose record names the workspace.
pub open spec fn status_count(ix: IndexView, ws: WorkspaceId, s: MemoryStatus) -> nat {
    in_workspace(set_of(ix.status_index, s), ix.memory_metadata, Some(ws)).len()
}

/// The non-zero counts of the first `n` statuses in lifecycle order.
pub open spec fn counts_prefix(ix: IndexView, ws: WorkspaceId, n: int) -> Seq<(MemoryStatus, usize)>
    decreases n,
{
    if n <= 0 {
        Seq::empty()
    } else {
        let before = counts_prefix(ix, ws, n - 1);
        let s = status_order()[n - 1];
        let c = status_count(ix, ws, s);
        if c > 0 {
            before.push((s, c as usize))
        } else {
            before
        }
    }
}

/// The non-zero counts of every status, in lifecycle order.
pub open spec fn status_counts_spec(ix: IndexView, ws: WorkspaceId) -> Seq<(MemoryStatus, usize)> {
    counts_prefix(ix, ws, 4)
}

/// Adding `v` to the set of one more key extends `add_to_each` by that key.
pub proof fn lemma_add_to_each_step<K, V>(m: Map<K, Set<V>>, seen: Set<K>, k: K, v: V)
    ensures
        add_to(add_to_each(m, seen, v), k, v) == add_to_each(m, seen.insert(k), v),
{
    let a = add_to(add_to_each(m, seen, v), k, v);
    let b = add_to_each(m, seen.insert(k), v);
    assert forall|x: K| #[trigger] a.contains_key(x) implies a[x] == b[x] by {
        if x == k {
            assert(set_of(add_to_each(m, seen, v), k).insert(v) =~= set_of(m, k).insert(v));
        }
    }
    assert(a =~= b);
}

/// Removing `v` from the set of one more key extends `remove_from_each` by
/// that key.
pub proof fn lemma_remove_from_each_step<K, V>(m: Map<K, Set<V>>, seen: Set<K>, k: K, v: V)
    ensures
        remove_from(remove_from_each(m, seen, v), k, v) == remove_from_each(m, seen.insert(k), v),
{
    let a = remove_from(remove_from_each(m, seen, v), k, v);
    let b = remove_from_each(m, seen.insert(k), v);
    assert forall|x: K| #[trigger] a.contains_key(x) implies a[x] == b[x] by {
        if x == k {
            assert(remove_from_each(m, seen, v)[k].remove(v) =~= m[k].remove(v));
        }
    }
    assert(a =~= b);
}

/// Pushing a new value onto a sequence without duplicates keeps it without
/// duplicates.
pub proof fn lemma_push_no_dup<A>(s: Seq<A>, x: A)
    requires
        s.no_duplicates(),
        !s.contains(x),
    ensures
        s.push(x).no_duplicates(),
{
    let t = s.push(x);
    assert forall|i: int, j: int| 0 <= i < t.len() && 0 <= j < t.len() && i != j implies t[i] != t[j] by {
        if i == s.len() {
            assert(s[j] == t[j]);
        } else if j == s.len() {
            assert(s[i] == t[i]);
        } else {
            assert(s[i] == t[i] && s[j] == t[j]);
        }
    }
}

/// Pushing a value onto a sequence adds it to the sequence's set.
pub proof fn lemma_push_to_set<A>(s: Seq<A>, x: A)
    ensures
        s.push(x).to_set() == s.to_set().insert(x),
{
    let t = s.push(x);
    assert forall|a: A| t.contains(a) <==> (s.contains(a) || a == x) by {
        if t.contains(a) {
            let j = choose|j: int| 0 <= j < t.len() && t[j] == a;
            if j < s.len() {
                assert(s[j] == a);
            }
        }
        if s.contains(a) {
            let j = choose|j: int| 0 <= j < s.len() && s[j] == a;
            assert(t[j] == a);
        }
        if a == x {
            assert(t[s.len() as int] == a);
        }
    }
    assert(t.to_set() =~= s.to_set().insert(x));
}

/// Builder for a metadata index.
pub struct MetadataIndexBuilder {
    config: MetadataConfig,
}

impl MetadataIndexBuilder {
    /// A builder with the default configuration.
    pub fn new() -> (r: Self)
        ensures
            r.config_spec() == (MetadataConfig { max_tags: 10_000, index_importance: true, index_status: true }),
    {
        MetadataIndexBuilder { config: MetadataConfig::default() }
    }

    /// The configuration the builder holds.
    pub closed spec fn config_spec(&self) -> MetadataConfig {
        self.config
    }

    /// Sets the maximum number of tags.
    pub fn with_max_tags(self, max: usize) -> (r: Self)
        ensures
            r.config_spec() == (MetadataConfig { max_tags: max, ..self.config_spec() }),
    {
        let mut b = self;
        b.config.max_tags = max;
        b
    }

    /// Turns importance indexing on or off.
    pub fn with_index_importance(self, enabled: bool) -> (r: Self)
        ensures
            r.config_spec() == (MetadataConfig { index_importance: enabled, ..self.config_spec() }),
    {
        let mut b = self;
        b.config.index_importance = enabled;
        b
    }

    /// Turns status indexing on or off.
    pub fn with_index_status(self, enabled: bool) -> (r: Self)
        ensures
            r.config_spec() == (MetadataConfig { index_status: enabled, ..self.config_spec() }),
    {
        let mut b = self;
        b.config.index_status = enabled;
        b
    }

    /// The configuration the builder holds.
    pub fn config(&self) -> (r: &MetadataConfig)
        ensures
            *r == self.config_spec(),
    {
        &self.config
    }

    /// An empty index with the builder's configuration.
    pub fn build(self) -> (r: MetadataIndex)
        ensures
            r.wf(),
            r.config_spec() == self.config_spec(),
            r@.count == 0,
            r@.memory_metadata == Map::<MemoryId, MetaView>::empty(),
    {
        MetadataIndex::new(self.config)
    }
}

impl Default for MetadataIndexBuilder {
    fn default() -> (r: Self)
        ensures
            r.config_spec() == (MetadataConfig { max_tags: 10_000, index_importance: true, index_status: true }),
    {
        MetadataIndexBuilder::new()
    }
}


/// After a memory is added, the index finds it: under its workspace, under
/// its status and each of its tags (also when restricted to its
/// workspace), with each of its tags among the workspace's tags, and the
/// count grows by one.
pub proof fn lemma_added_is_found(ix: IndexView, m: crate::types::EntryView, t: Seq<char>)
    ensures
        ({
            let after = added_spec(ix, m);
            &&& after.count == ix.count + 1
            &&& after.memory_metadata[m.id] == meta_of(m)
            &&& set_of(after.workspace_memories, m.workspace_id).contains(m.id)
            &&& in_workspace(set_of(after.status_index, m.status), after.memory_metadata, Some(m.workspace_id)).contains(m.id)
            &&& m.metadata.tags.contains(t) ==> in_workspace(
                tags_union(after.tag_index, seq![t]),
                after.memory_metadata,
                Some(m.workspace_id),
            ).contains(m.id) && set_of(after.workspace_tags, m.workspace_id).contains(t)
        }),
{
    let after = added_spec(ix, m);
    assert(seq![t].drop_last() =~= Seq::<Seq<char>>::empty());
    if m.metadata.tags.contains(t) {
        assert(m.metadata.tags.to_set().contains(t));
        assert(set_of(after.tag_index, t).contains(m.id));
        assert(tags_union(after.tag_index, seq![t]) == tags_union(after.tag_index, Seq::<Seq<char>>::empty()).union(
            set_of(after.tag_index, t),
        ));
        assert(!m.metadata.tags.to_set().is_empty());
    }
}

/// After a recorded memory is removed, the index no longer finds it: it has
/// no record, it is gone from its workspace's set, from its status's set and
/// from the set of each of its tags; every other memory stays in exactly the
/// sets it was in, and the count drops by one.
pub proof fn lemma_removed_is_gone(ix: IndexView, id: MemoryId, other: MemoryId, w: WorkspaceId, s: MemoryStatus, t: Seq<char>)
    requires
        ix.memory_metadata.contains_key(id),
        other != id,
    ensures
        ({
            let e = ix.memory_metadata[id];
            let after = removed_spec(ix, id);
            &&& !after.memory_metadata.contains_key(id)
            &&& !set_of(after.workspace_memories, e.workspace_id).contains(id)
            &&& !set_of(after.status_index, e.status).contains(id)
            &&& e.tags.contains(t) ==> !set_of(after.tag_index, t).contains(id)
            &&& after.memory_metadata.contains_key(other) == ix.memory_metadata.contains_key(other)
            &&& set_of(after.workspace_memories, w).contains(other) == set_of(ix.workspace_memories, w).contains(other)
            &&& set_of(after.status_index, s).contains(other) == set_of(ix.status_index, s).contains(other)
            &&& set_of(after.tag_index, t).contains(other) == set_of(ix.tag_index, t).contains(other)
            &&& ix.count > 0 ==> after.count + 1 == ix.count
        }),
{
    let e = ix.memory_metadata[id];
    if e.tags.contains(t) {
        assert(e.tags.to_set().contains(t));
    }
}

} // verus!
