//! The in-process memory client: memories and workspaces kept in memory,
//! with the checks of its configuration, the listing rules, batch
//! bookkeeping and workspace statistics.
//!
//! Memories and workspaces are kept in lists in which no identifier occurs
//! twice; the order of a list is the order the client walks it in.

use vstd::prelude::*;
use crate::entry_table::{Keyed, unique_ids, table_map, table_upsert, table_take, lemma_table_empty, find_index, lemma_table_at, has_id};
use crate::error::MemoryError;
use crate::floats::F32_ONE;
use crate::query::{any_tag_matches, page_spec, take_page, tags_match, text_matches, text_matches_entry};
use crate::text::{join2, uuid_string, uuid_text};
use crate::types::{
    ContentView, EntryView, MemoryEntry, MemoryId, MemoryStatus, QueryView, SearchQuery, SearchResult,
    SearchResultView, Workspace, WorkspaceId,
};

verus! {

/// Configuration of the client.
#[derive(PartialEq, Eq, Structural, Clone, Copy, Debug)]
pub struct ClientConfig {
    pub storage_enabled: bool,
    pub index_enabled: bool,
}

impl Default for ClientConfig {
    fn default() -> (r: Self)
        ensures
            r.storage_enabled,
            r.index_enabled,
    {
        ClientConfig { storage_enabled: true, index_enabled: true }
    }
}

impl Keyed for Workspace {
    open spec fn key(&self) -> u128 {
        self.id
    }

    fn get_key(&self) -> (r: u128) {
        self.id
    }
}

/// What the client holds.
pub struct ClientView {
    pub config: ClientConfig,
    pub memories: Map<MemoryId, EntryView>,
    pub workspaces: Map<WorkspaceId, Workspace>,
}

/// The in-process memory client.
pub struct MemoryClient {
    config: ClientConfig,
    memories: Vec<MemoryEntry>,
    workspaces: Vec<Workspace>,
}

/// A memory passes a listing's workspace, status and tag filters.
pub open spec fn listed_before_paging(m: EntryView, ws: WorkspaceId, q: QueryView) -> bool {
    &&& m.workspace_id == ws
    &&& (q.status matches Some(s) ==> m.status == s)
    &&& (q.tags matches Some(t) ==> any_tag_matches(m.metadata.tags, t))
}

/// The result the client gives for a memory: score 1.0, no highlights.
pub open spec fn client_result(m: EntryView) -> SearchResultView {
    SearchResultView { memory: m, score: F32_ONE, highlights: Seq::empty() }
}

/// The results of the memories that pass the workspace, status and tag
/// filters, in the client's order.
pub open spec fn prefiltered(s: Seq<EntryView>, ws: WorkspaceId, q: QueryView) -> Seq<SearchResultView>
    decreases s.len(),
{
    if s.len() == 0 {
        Seq::empty()
    } else {
        let prev = prefiltered(s.drop_last(), ws, q);
        if listed_before_paging(s.last(), ws, q) {
            prev.push(client_result(s.last()))
        } else {
            prev
        }
    }
}

/// A result passes the text filter: plain text content that contains the
/// query text, ignoring case (other content never does).
pub open spec fn passes_text(r: SearchResultView, t: Option<Seq<char>>) -> bool {
    match t {
        Some(text) => r.memory.content is Text && text_matches(r.memory, text),
        None => true,
    }
}

/// The results that pass the text filter, in order.
pub open spec fn text_retained(rs: Seq<SearchResultView>, t: Option<Seq<char>>) -> Seq<SearchResultView>
    decreases rs.len(),
{
    if rs.len() == 0 {
        Seq::empty()
    } else {
        let prev = text_retained(rs.drop_last(), t);
        if passes_text(rs.last(), t) {
            prev.push(rs.last())
        } else {
            prev
        }
    }
}

/// A listing: the memories of the workspace that pass the status and tag
/// filters, then the page at the query's offset of at most its limit,
/// then those of the page that pass the text filter.
pub open spec fn client_list_spec(s: Seq<EntryView>, ws: WorkspaceId, q: QueryView) -> Seq<SearchResultView> {
    text_retained(page_spec(prefiltered(s, ws, q), q.offset as int, q.limit as int), q.text)
}

/// Results seen through their views.
pub open spec fn rviews(v: Seq<SearchResult>) -> Seq<SearchResultView> {
    v.map_values(|r: SearchResult| r@)
}

/// The results of a search: the listings of the workspaces, one after the
/// other.
pub open spec fn search_spec(s: Seq<EntryView>, wss: Seq<WorkspaceId>, q: QueryView) -> Seq<SearchResultView>
    decreases wss.len(),
{
    if wss.len() == 0 {
        Seq::empty()
    } else {
        search_spec(s, wss.drop_last(), q) + client_list_spec(s, wss.last(), q)
    }
}

/// The memory map after a batch added the first `n` memories (each
/// replacing one with the same identifier).
pub open spec fn batch_added(m: Map<MemoryId, EntryView>, b: Seq<MemoryEntry>, n: int) -> Map<MemoryId, EntryView>
    decreases n,
{
    if n <= 0 || n > b.len() {
        m
    } else {
        batch_added(m, b, n - 1).insert(b[n - 1].id, b[n - 1]@)
    }
}

/// How many of the first `n` memories of a batch were new.
pub open spec fn batch_new_count(m: Map<MemoryId, EntryView>, b: Seq<MemoryEntry>, n: int) -> nat
    decreases n,
{
    if n <= 0 || n > b.len() {
        0
    } else {
        batch_new_count(m, b, n - 1) + if batch_added(m, b, n - 1).contains_key(b[n - 1].id) {
            0nat
        } else {
            1nat
        }
    }
}

/// The memory map after a batch deleted the first `n` identifiers.
pub open spec fn batch_deleted(m: Map<MemoryId, EntryView>, ids: Seq<MemoryId>, n: int) -> Map<MemoryId, EntryView>
    decreases n,
{
    if n <= 0 || n > ids.len() {
        m
    } else {
        batch_deleted(m, ids, n - 1).remove(ids[n - 1])
    }
}

/// The failure texts of a batch deletion of the first `n` identifiers.
pub open spec fn delete_failures(m: Map<MemoryId, EntryView>, ids: Seq<MemoryId>, n: int) -> Seq<Seq<char>>
    decreases n,
{
    if n <= 0 || n > ids.len() {
        Seq::empty()
    } else {
        let prev = delete_failures(m, ids, n - 1);
        if batch_deleted(m, ids, n - 1).contains_key(ids[n - 1]) {
            prev
        } else {
            prev.push("Memory not found: "@ + uuid_text(ids[n - 1]))
        }
    }
}

/// The memories of a workspace that have an embedding, in order.
pub open spec fn embedded_in(s: Seq<EntryView>, ws: WorkspaceId) -> Seq<EntryView>
    decreases s.len(),
{
    if s.len() == 0 {
        Seq::empty()
    } else {
        let prev = embedded_in(s.drop_last(), ws);
        if s.last().workspace_id == ws && s.last().embedding is Some {
            prev.push(s.last())
        } else {
            prev
        }
    }
}

/// The workspace counts of a list of memories.
pub open spec fn count_where(s: Seq<EntryView>, ws: WorkspaceId, st: Option<MemoryStatus>) -> nat
    decreases s.len(),
{
    if s.len() == 0 {
        0
    } else {
        count_where(s.drop_last(), ws, st) + if s.last().workspace_id == ws && (st matches Some(x)
            ==> s.last().status == x) {
            1nat
        } else {
            0nat
        }
    }
}

/// The importances of a workspace's memories, in order.
pub open spec fn importances_in(s: Seq<EntryView>, ws: WorkspaceId) -> Seq<u32>
    decreases s.len(),
{
    if s.len() == 0 {
        Seq::empty()
    } else {
        let prev = importances_in(s.drop_last(), ws);
        if s.last().workspace_id == ws {
            prev.push(s.last().metadata.importance)
        } else {
            prev
        }
    }
}

/// The counts behind a workspace's statistics, and the importances whose
/// mean the statistics report.
#[derive(Debug)]
pub struct WorkspaceTally {
    pub total_memories: u64,
    pub active_count: u64,
    pub cooling_count: u64,
    pub cold_count: u64,
    pub zombie_count: u64,
    /// The importances of the workspace's memories, as `f32` bit patterns.
    pub importances: Vec<u32>,
}

/// The text of a missing workspace.
pub open spec fn workspace_missing(id: WorkspaceId) -> Seq<char> {
    "Workspace not found: "@ + uuid_text(id)
}

/// The error given while storage is disabled.
pub open spec fn storage_disabled(e: MemoryError) -> bool {
    e matches MemoryError::InvalidOperation(m) && m@ == "Storage is disabled"@
}

/// The error given while the index is disabled.
pub open spec fn index_disabled(e: MemoryError) -> bool {
    e matches MemoryError::IndexError(m) && m@ == "Index is disabled"@
}

/// What a read of a memory finds: the stored memory, or nothing when
/// storage is disabled or no memory has the identifier.
pub open spec fn read_spec(v: ClientView, id: MemoryId) -> Option<EntryView> {
    if v.config.storage_enabled && v.memories.contains_key(id) {
        Some(v.memories[id])
    } else {
        None
    }
}

/// The client after an add: the memory stored under its identifier, when
/// storage is enabled.
pub open spec fn add_spec(v: ClientView, m: EntryView) -> ClientView {
    if v.config.storage_enabled {
        ClientView { memories: v.memories.insert(m.id, m), ..v }
    } else {
        v
    }
}

/// The client after an update: the memory replaced, when storage is
/// enabled and a memory with its identifier is stored.
pub open spec fn update_spec(v: ClientView, m: EntryView) -> ClientView {
    if v.config.storage_enabled && v.memories.contains_key(m.id) {
        ClientView { memories: v.memories.insert(m.id, m), ..v }
    } else {
        v
    }
}

/// The client after a delete: the memory gone, when storage is enabled.
pub open spec fn delete_spec(v: ClientView, id: MemoryId) -> ClientView {
    if v.config.storage_enabled {
        ClientView { memories: v.memories.remove(id), ..v }
    } else {
        v
    }
}

/// The memories that remain when a workspace is deleted: those of other
/// workspaces.
pub open spec fn without_workspace(m: Map<MemoryId, EntryView>, ws: WorkspaceId) -> Map<MemoryId, EntryView> {
    m.restrict(m.dom().filter(|k: MemoryId| m[k].workspace_id != ws))
}

impl MemoryClient {
    pub closed spec fn wf(&self) -> bool {
        &&& unique_ids(self.memories@)
        &&& unique_ids(self.workspaces@)
    }

    pub closed spec fn view(&self) -> ClientView {
        ClientView {
            config: self.config,
            memories: table_map(self.memories@),
            workspaces: table_map(self.workspaces@),
        }
    }

    /// The memories in the order the client walks them.
    pub closed spec fn stored(&self) -> Seq<EntryView> {
        self.memories@.map_values(|e: MemoryEntry| e@)
    }

    /// The workspaces in the order the client walks them.
    pub closed spec fn stored_workspaces(&self) -> Seq<Workspace> {
        self.workspaces@
    }

    /// The walking order holds each stored memory once.
    pub proof fn lemma_stored_is_the_memories(&self)
        requires
            self.wf(),
        ensures
            forall|i: int, j: int|
                0 <= i < self.stored().len() && 0 <= j < self.stored().len() && i != j
                    ==> self.stored()[i].id != self.stored()[j].id,
            forall|i: int|
                0 <= i < self.stored().len() ==> self.view().memories.contains_key(
                    #[trigger] self.stored()[i].id,
                ) && self.view().memories[self.stored()[i].id] == self.stored()[i],
            forall|id: MemoryId|
                #[trigger] self.view().memories.contains_key(id) ==> exists|i: int|
                    0 <= i < self.stored().len() && self.stored()[i].id == id,
    {
        assert forall|i: int| 0 <= i < self.stored().len() implies self.view().memories.contains_key(
            #[trigger] self.stored()[i].id,
        ) && self.view().memories[self.stored()[i].id] == self.stored()[i] by {
            crate::entry_table::lemma_table_at(self.memories@, i);
        }
        assert forall|id: MemoryId| #[trigger] self.view().memories.contains_key(id) implies exists|i: int|
            0 <= i < self.stored().len() && self.stored()[i].id == id by {
            let i = choose|i: int| 0 <= i < self.memories@.len() && #[trigger] self.memories@[i].key() == id;
            assert(self.stored()[i].id == id);
        }
    }

    /// A client with the default configuration and nothing stored.
    pub fn new() -> (r: Self)
        ensures
            r.wf(),
            r.view().config == (ClientConfig { storage_enabled: true, index_enabled: true }),
            r.view().memories == Map::<MemoryId, EntryView>::empty(),
            r.view().workspaces == Map::<WorkspaceId, Workspace>::empty(),
    {
        MemoryClient::with_config(ClientConfig::default())
    }

    /// A client with the configuration and nothing stored.
    pub fn with_config(config: ClientConfig) -> (r: Self)
        ensures
            r.wf(),
            r.view().config == config,
            r.view().memories == Map::<MemoryId, EntryView>::empty(),
            r.view().workspaces == Map::<WorkspaceId, Workspace>::empty(),
    {
        let r = MemoryClient { config, memories: Vec::new(), workspaces: Vec::new() };
        proof {
            lemma_table_empty(r.memories@);
            lemma_table_empty(r.workspaces@);
        }
        r
    }

    /// The configuration.
    pub fn config(&self) -> (r: &ClientConfig)
        ensures
            *r == self.view().config,
    {
        &self.config
    }

    /// Whether storage is enabled.
    pub fn is_storage_enabled(&self) -> (r: bool)
        ensures
            r == self.view().config.storage_enabled,
    {
        self.config.storage_enabled
    }

    /// Whether the index is enabled.
    pub fn is_index_enabled(&self) -> (r: bool)
        ensures
            r == self.view().config.index_enabled,
    {
        self.config.index_enabled
    }

    /// Stores a memory (replacing one with the same identifier).
    pub fn add(&mut self, memory: MemoryEntry) -> (r: Result<MemoryId, MemoryError>)
        requires
            old(self).wf(),
        ensures
            final(self).wf(),
            final(self).view() == add_spec(old(self).view(), memory@),
            !old(self).view().config.storage_enabled ==> (r matches Err(e) && storage_disabled(e))
                && final(self).view() == old(self).view(),
            old(self).view().config.storage_enabled ==> r == Ok::<MemoryId, MemoryError>(memory.id)
                && final(self).view() == (ClientView {
                memories: old(self).view().memories.insert(memory.id, memory@),
                ..old(self).view()
            }),
    {
        if !self.config.storage_enabled {
            return Err(MemoryError::InvalidOperation("Storage is disabled".to_string()));
        }
        let id = memory.id;
        table_upsert(&mut self.memories, memory);
        Ok(id)
    }

    /// A copy of a stored memory.
    pub fn get(&self, id: MemoryId) -> (r: Result<MemoryEntry, MemoryError>)
        requires
            self.wf(),
        ensures
            r is Ok <==> read_spec(self.view(), id) is Some,
            r matches Ok(e) ==> read_spec(self.view(), id) == Some(e@),
            !self.view().config.storage_enabled ==> (r matches Err(e) && storage_disabled(e)),
            self.view().config.storage_enabled && !self.view().memories.contains_key(id) ==> (r matches Err(
                MemoryError::NotFound(m),
            ) && m@ == uuid_text(id)),
            self.view().config.storage_enabled && self.view().memories.contains_key(id) ==> (r matches Ok(
                e,
            ) && e@ == self.view().memories[id]),
    {
        if !self.config.storage_enabled {
            return Err(MemoryError::InvalidOperation("Storage is disabled".to_string()));
        }
        match find_index(&self.memories, id) {
            Some(i) => {
                proof {
                    lemma_table_at(self.memories@, i as int);
                }
                Ok(self.memories[i].clone())
            },
            None => Err(MemoryError::NotFound(uuid_string(id))),
        }
    }

    /// Replaces a stored memory; a memory not stored is `NotFound`.
    pub fn update(&mut self, memory: MemoryEntry) -> (r: Result<(), MemoryError>)
        requires
            old(self).wf(),
        ensures
            final(self).wf(),
            final(self).view() == update_spec(old(self).view(), memory@),
            r is Ok <==> read_spec(old(self).view(), memory.id) is Some,
            r is Err ==> final(self).view() == old(self).view(),
            !old(self).view().config.storage_enabled ==> (r matches Err(e) && storage_disabled(e)),
            old(self).view().config.storage_enabled && !old(self).view().memories.contains_key(memory.id)
                ==> (r matches Err(MemoryError::NotFound(m)) && m@ == uuid_text(memory.id)),
            old(self).view().config.storage_enabled && old(self).view().memories.contains_key(memory.id)
                ==> r is Ok && final(self).view() == (ClientView {
                memories: old(self).view().memories.insert(memory.id, memory@),
                ..old(self).view()
            }),
    {
        if !self.config.storage_enabled {
            return Err(MemoryError::InvalidOperation("Storage is disabled".to_string()));
        }
        match find_index(&self.memories, memory.id) {
            Some(i) => {
                proof {
                    lemma_table_at(self.memories@, i as int);
                }
                table_upsert(&mut self.memories, memory);
                Ok(())
            },
            None => Err(MemoryError::NotFound(uuid_string(memory.id))),
        }
    }

    /// Removes a stored memory; a memory not stored is `NotFound`.
    pub fn delete(&mut self, id: MemoryId) -> (r: Result<(), MemoryError>)
        requires
            old(self).wf(),
        ensures
            final(self).wf(),
            final(self).view() == delete_spec(old(self).view(), id),
            r is Ok <==> read_spec(old(self).view(), id) is Some,
            r is Err ==> final(self).view() == old(self).view(),
            !old(self).view().config.storage_enabled ==> (r matches Err(e) && storage_disabled(e)),
            old(self).view().config.storage_enabled && !old(self).view().memories.contains_key(id) ==> (r matches Err(
                MemoryError::NotFound(m),
            ) && m@ == uuid_text(id)),
            old(self).view().config.storage_enabled && old(self).view().memories.contains_key(id) ==> r is Ok
                && final(self).view() == (ClientView {
                memories: old(self).view().memories.remove(id),
                ..old(self).view()
            }),
    {
        if !self.config.storage_enabled {
            return Err(MemoryError::InvalidOperation("Storage is disabled".to_string()));
        }
        let ghost before = self.view();
        match table_take(&mut self.memories, id) {
            Some(_) => Ok(()),
            None => {
                proof {
                    assert(self.view().memories =~= before.memories);
                }
                Err(MemoryError::NotFound(uuid_string(id)))
            },
        }
    }

    /// The memories of a workspace that pass the query's status and tag
    /// filters, in the client's order, paged by the query's offset and
    /// limit, and then kept only if they pass its text filter; each with
    /// score 1.0 and no highlights.
    pub fn list(&self, workspace_id: WorkspaceId, query: &SearchQuery) -> (r: Result<Vec<SearchResult>, MemoryError>)
        requires
            self.wf(),
        ensures
            !self.view().config.storage_enabled ==> (r matches Err(e) && storage_disabled(e)),
            self.view().config.storage_enabled ==> (r matches Ok(v) && rviews(v@) == client_list_spec(
                self.stored(),
                workspace_id,
                query@,
            )),
    {
        if !self.config.storage_enabled {
            return Err(MemoryError::InvalidOperation("Storage is disabled".to_string()));
        }
        let ghost s = self.stored();
        let mut pre: Vec<SearchResult> = Vec::new();
        let mut i: usize = 0;
        while i < self.memories.len()
            invariant
                i <= self.memories@.len(),
                s == self.memories@.map_values(|e: MemoryEntry| e@),
                rviews(pre@) == prefiltered(s.take(i as int), workspace_id, query@),
            decreases self.memories.len() - i,
        {
            let m = &self.memories[i];
            proof {
                assert(s.take(i + 1).drop_last() =~= s.take(i as int));
                assert(s.take(i + 1).last() == m@);
            }
            let status_ok = match query.status {
                Some(st) => m.status == st,
                None => true,
            };
            let tags_ok = match &query.tags {
                Some(t) => tags_match(&m.metadata.tags, t),
                None => true,
            };
            let ghost prev = rviews(pre@);
            if m.workspace_id == workspace_id && status_ok && tags_ok {
                let sr = SearchResult { memory: m.clone(), score: F32_ONE, highlights: Vec::new() };
                assert(sr@.highlights =~= Seq::<Seq<char>>::empty());
                pre.push(sr);
                assert(rviews(pre@) =~= prev.push(client_result(m@)));
            } else {
                assert(rviews(pre@) =~= prev);
            }
            i = i + 1;
        }
        proof {
            assert(s.take(self.memories@.len() as int) =~= s);
        }
        let ghost pv = rviews(pre@);
        let page = take_page(pre, query.offset, query.limit);
        proof {
            assert(rviews(page@) =~= page_spec(pv, query.offset as int, query.limit as int));
        }
        let ghost pg = rviews(page@);
        let mut out: Vec<SearchResult> = Vec::new();
        let mut input = page;
        let n = input.len();
        let mut k: usize = 0;
        while input.len() > 0
            invariant
                pg.len() == n,
                k + input@.len() == n,
                rviews(input@) == pg.skip(k as int),
                rviews(out@) == text_retained(pg.take(k as int), query@.text),
            decreases input.len(),
        {
            let ghost before = input@;
            let r = input.remove(0);
            proof {
                assert(rviews(before)[0] == r@);
                assert(pg.take(k + 1).drop_last() =~= pg.take(k as int));
                assert(pg.take(k + 1).last() == r@);
                assert forall|j: int| 0 <= j < input@.len() implies #[trigger] input@[j]@ == pg.skip(k + 1)[j] by {
                    assert(input@[j] == before[j + 1]);
                    assert(rviews(before)[j + 1] == pg.skip(k as int)[j + 1]);
                }
                assert(rviews(input@) =~= pg.skip(k + 1));
            }
            let keep = match &query.text {
                Some(t) => match r.memory.content.as_text() {
                    Some(_) => text_matches_entry(&r.memory, t.as_str()),
                    None => false,
                },
                None => true,
            };
            let ghost prev = rviews(out@);
            if keep {
                out.push(r);
                assert(rviews(out@) =~= prev.push(pg[k as int]));
            } else {
                assert(rviews(out@) =~= prev);
            }
            k = k + 1;
        }
        proof {
            assert(pg.take(n as int) =~= pg);
        }
        Ok(out)
    }

    /// The workspaces a search lists: the query's workspace, or every stored
    /// workspace in the client's order.
    pub closed spec fn search_workspaces(&self, q: QueryView) -> Seq<WorkspaceId> {
        match q.workspace_id {
            Some(w) => seq![w],
            None => self.workspaces@.map_values(|w: Workspace| w.id),
        }
    }

    /// A search that names a workspace searches that workspace alone.
    pub proof fn lemma_search_named_workspace(&self, q: QueryView)
        requires
            q.workspace_id is Some,
        ensures
            self.search_workspaces(q) == seq![q.workspace_id.unwrap()],
    {
    }

    /// A text search: the listing of each searched workspace with the
    /// query, one after the other. Every listed result has score 1.0, so
    /// ordering by score keeps this order.
    pub fn search(&self, query: &SearchQuery) -> (r: Result<Vec<SearchResult>, MemoryError>)
        requires
            self.wf(),
        ensures
            !self.view().config.index_enabled ==> (r matches Err(e) && index_disabled(e)),
            self.view().config.index_enabled && !self.view().config.storage_enabled && self.search_workspaces(
                query@,
            ).len() > 0 ==> (r matches Err(e) && storage_disabled(e)),
            self.view().config.index_enabled && (self.view().config.storage_enabled
                || self.search_workspaces(query@).len() == 0) ==> (r matches Ok(v) && rviews(v@)
                == search_spec(self.stored(), self.search_workspaces(query@), query@)),
    {
        if !self.config.index_enabled {
            return Err(MemoryError::IndexError("Index is disabled".to_string()));
        }
        let mut wss: Vec<WorkspaceId> = Vec::new();
        match query.workspace_id {
            Some(w) => {
                wss.push(w);
            },
            None => {
                let mut k: usize = 0;
                while k < self.workspaces.len()
                    invariant
                        k <= self.workspaces@.len(),
                        wss@ == self.workspaces@.take(k as int).map_values(|w: Workspace| w.id),
                    decreases self.workspaces.len() - k,
                {
                    wss.push(self.workspaces[k].id);
                    assert(self.workspaces@.take(k + 1).map_values(|w: Workspace| w.id) =~= self.workspaces@.take(
                        k as int,
                    ).map_values(|w: Workspace| w.id).push(self.workspaces@[k as int].id));
                    k = k + 1;
                }
                assert(self.workspaces@.take(self.workspaces@.len() as int) =~= self.workspaces@);
            },
        }
        assert(wss@ =~= self.search_workspaces(query@));
        let ghost all = wss@;
        let mut out: Vec<SearchResult> = Vec::new();
        let mut i: usize = 0;
        while i < wss.len()
            invariant
                self.wf(),
                self.view().config.index_enabled,
                all == wss@,
                all == self.search_workspaces(query@),
                i <= wss@.len(),
                self.view().config.storage_enabled || i == 0,
                rviews(out@) == search_spec(self.stored(), all.take(i as int), query@),
            decreases wss.len() - i,
        {
            proof {
                assert(all.take(i + 1).drop_last() =~= all.take(i as int));
            }
            match self.list(wss[i], query) {
                Err(e) => {
                    return Err(e);
                },
                Ok(mut part) => {
                    let ghost prev = rviews(out@);
                    let ghost pv = rviews(part@);
                    out.append(&mut part);
                    assert(rviews(out@) =~= prev + pv);
                },
            }
            i = i + 1;
        }
        proof {
            assert(all.take(all.len() as int) =~= all);
        }
        Ok(out)
    }

    /// Stores a batch, in order: a memory with a new identifier counts as a
    /// success; one whose identifier is already stored replaces it and
    /// counts as a failure ("Memory ID already exists").
    pub fn batch_add(&mut self, memories: Vec<MemoryEntry>) -> (r: Result<crate::types::BatchResult, MemoryError>)
        requires
            old(self).wf(),
            memories@.len() < u32::MAX,
        ensures
            final(self).wf(),
            !old(self).view().config.storage_enabled ==> (r matches Err(e) && storage_disabled(e))
                && final(self).view() == old(self).view(),
            old(self).view().config.storage_enabled ==> (r matches Ok(b) && b.success_count
                == batch_new_count(old(self).view().memories, memories@, memories@.len() as int)
                && b.success_count + b.failure_count == memories@.len() && forall|k: int|
                0 <= k < b.errors@.len() ==> (#[trigger] b.errors@[k])@ == "Memory ID already exists"@)
                && final(self).view() == (ClientView {
                memories: batch_added(old(self).view().memories, memories@, memories@.len() as int),
                ..old(self).view()
            }),
    {
        if !self.config.storage_enabled {
            return Err(MemoryError::InvalidOperation("Storage is disabled".to_string()));
        }
        let ghost m0 = self.view().memories;
        let ghost b = memories@;
        let mut result = crate::types::BatchResult::new();
        let mut input = memories;
        let n = input.len();
        let mut i: usize = 0;
        while input.len() > 0
            invariant
                self.wf(),
                self.config == old(self).config,
                self.view().workspaces == old(self).view().workspaces,
                b.len() == n,
                n < u32::MAX,
                i + input@.len() == n,
                input@ == b.skip(i as int),
                self.view().memories == batch_added(m0, b, i as int),
                result.success_count == batch_new_count(m0, b, i as int),
                result.success_count + result.failure_count == i,
                forall|k: int| 0 <= k < result.errors@.len() ==> (#[trigger] result.errors@[k])@
                    == "Memory ID already exists"@,
            decreases input.len(),
        {
            let m = input.remove(0);
            proof {
                assert(m == b[i as int]);
                assert(input@ =~= b.skip(i + 1));
            }
            let present = match find_index(&self.memories, m.id) {
                Some(j) => {
                    proof {
                        lemma_table_at(self.memories@, j as int);
                    }
                    true
                },
                None => false,
            };
            table_upsert(&mut self.memories, m);
            if present {
                result.add_failure("Memory ID already exists".to_string());
            } else {
                result.add_success();
            }
            i = i + 1;
        }
        Ok(result)
    }

    /// Removes a batch of identifiers, in order: each stored one counts as
    /// a success, each other one as a failure ("Memory not found: " and the
    /// identifier).
    pub fn batch_delete(&mut self, ids: Vec<MemoryId>) -> (r: Result<crate::types::BatchResult, MemoryError>)
        requires
            old(self).wf(),
            ids@.len() < u32::MAX,
        ensures
            final(self).wf(),
            !old(self).view().config.storage_enabled ==> (r matches Err(e) && storage_disabled(e))
                && final(self).view() == old(self).view(),
            old(self).view().config.storage_enabled ==> (r matches Ok(b) && b.success_count
                + b.failure_count == ids@.len() && b.errors@.map_values(|s: String| s@) == delete_failures(
                old(self).view().memories,
                ids@,
                ids@.len() as int,
            )) && final(self).view() == (ClientView {
                memories: batch_deleted(old(self).view().memories, ids@, ids@.len() as int),
                ..old(self).view()
            }),
    {
        if !self.config.storage_enabled {
            return Err(MemoryError::InvalidOperation("Storage is disabled".to_string()));
        }
        let ghost m0 = self.view().memories;
        let mut result = crate::types::BatchResult::new();
        let mut i: usize = 0;
        while i < ids.len()
            invariant
                self.wf(),
                self.config == old(self).config,
                self.view().workspaces == old(self).view().workspaces,
                ids@.len() < u32::MAX,
                i <= ids@.len(),
                self.view().memories == batch_deleted(m0, ids@, i as int),
                result.success_count + result.failure_count == i,
                result.errors@.map_values(|s: String| s@) == delete_failures(m0, ids@, i as int),
            decreases ids.len() - i,
        {
            let id = ids[i];
            let ghost prev = self.view().memories;
            match table_take(&mut self.memories, id) {
                Some(_) => {
                    result.add_success();
                },
                None => {
                    proof {
                        assert(self.view().memories =~= prev);
                    }
                    let t = uuid_string(id);
                    let msg = join2("Memory not found: ", t.as_str());
                    let ghost errs = result.errors@;
                    result.add_failure(msg);
                    proof {
                        assert(result.errors@.map_values(|s: String| s@) =~= errs.map_values(
                            |s: String| s@,
                        ).push(msg@));
                    }
                },
            }
            i = i + 1;
        }
        Ok(result)
    }

    /// The memories of a workspace that have an embedding, in the client's
    /// order (the candidates of a vector search).
    pub fn vector_candidates(&self, workspace_id: WorkspaceId) -> (r: Result<Vec<MemoryEntry>, MemoryError>)
        requires
            self.wf(),
        ensures
            !self.view().config.index_enabled ==> (r matches Err(e) && index_disabled(e)),
            self.view().config.index_enabled ==> (r matches Ok(v) && v@.map_values(|e: MemoryEntry| e@)
                == embedded_in(self.stored(), workspace_id)),
    {
        if !self.config.index_enabled {
            return Err(MemoryError::IndexError("Index is disabled".to_string()));
        }
        let ghost s = self.stored();
        let mut out: Vec<MemoryEntry> = Vec::new();
        let mut i: usize = 0;
        while i < self.memories.len()
            invariant
                i <= self.memories@.len(),
                s == self.memories@.map_values(|e: MemoryEntry| e@),
                out@.map_values(|e: MemoryEntry| e@) == embedded_in(s.take(i as int), workspace_id),
            decreases self.memories.len() - i,
        {
            let m = &self.memories[i];
            proof {
                assert(s.take(i + 1).drop_last() =~= s.take(i as int));
                assert(s.take(i + 1).last() == m@);
            }
            let ghost prev = out@.map_values(|e: MemoryEntry| e@);
            if m.workspace_id == workspace_id && m.embedding.is_some() {
                let c = m.clone();
                out.push(c);
                assert(out@.map_values(|e: MemoryEntry| e@) =~= prev.push(m@));
            } else {
                assert(out@.map_values(|e: MemoryEntry| e@) =~= prev);
            }
            i = i + 1;
        }
        proof {
            assert(s.take(self.memories@.len() as int) =~= s);
        }
        Ok(out)
    }

    /// Stores a workspace (replacing one with the same identifier).
    pub fn create_workspace(&mut self, workspace: Workspace) -> (r: Result<WorkspaceId, MemoryError>)
        requires
            old(self).wf(),
        ensures
            final(self).wf(),
            r == Ok::<WorkspaceId, MemoryError>(workspace.id),
            final(self).view() == (ClientView {
                workspaces: old(self).view().workspaces.insert(workspace.id, workspace),
                ..old(self).view()
            }),
    {
        let id = workspace.id;
        table_upsert(&mut self.workspaces, workspace);
        Ok(id)
    }

    /// A copy of a stored workspace.
    pub fn get_workspace(&self, id: WorkspaceId) -> (r: Result<Workspace, MemoryError>)
        requires
            self.wf(),
        ensures
            self.view().workspaces.contains_key(id) ==> r == Ok::<Workspace, MemoryError>(
                self.view().workspaces[id],
            ),
            !self.view().workspaces.contains_key(id) ==> (r matches Err(MemoryError::WorkspaceError(m))
                && m@ == workspace_missing(id)),
    {
        match find_index(&self.workspaces, id) {
            Some(i) => {
                proof {
                    lemma_table_at(self.workspaces@, i as int);
                }
                Ok(self.workspaces[i].clone())
            },
            None => {
                let t = uuid_string(id);
                Err(MemoryError::WorkspaceError(join2("Workspace not found: ", t.as_str())))
            },
        }
    }

    /// Replaces a stored workspace; one not stored is an error.
    pub fn update_workspace(&mut self, workspace: Workspace) -> (r: Result<(), MemoryError>)
        requires
            old(self).wf(),
        ensures
            final(self).wf(),
            old(self).view().workspaces.contains_key(workspace.id) ==> r is Ok && final(self).view() == (
            ClientView {
                workspaces: old(self).view().workspaces.insert(workspace.id, workspace),
                ..old(self).view()
            }),
            !old(self).view().workspaces.contains_key(workspace.id) ==> (r matches Err(
                MemoryError::WorkspaceError(m),
            ) && m@ == workspace_missing(workspace.id)) && final(self).view() == old(self).view(),
    {
        match find_index(&self.workspaces, workspace.id) {
            Some(i) => {
                proof {
                    lemma_table_at(self.workspaces@, i as int);
                }
                table_upsert(&mut self.workspaces, workspace);
                Ok(())
            },
            None => {
                let t = uuid_string(workspace.id);
                Err(MemoryError::WorkspaceError(join2("Workspace not found: ", t.as_str())))
            },
        }
    }

    /// Deletes a workspace: its memories are removed first (even when the
    /// workspace itself is not stored, which is then an error).
    pub fn delete_workspace(&mut self, id: WorkspaceId) -> (r: Result<(), MemoryError>)
        requires
            old(self).wf(),
        ensures
            final(self).wf(),
            final(self).view().config == old(self).view().config,
            final(self).view().memories == without_workspace(old(self).view().memories, id),
            old(self).view().workspaces.contains_key(id) ==> r is Ok && final(self).view().workspaces
                == old(self).view().workspaces.remove(id),
            !old(self).view().workspaces.contains_key(id) ==> (r matches Err(
                MemoryError::WorkspaceError(m),
            ) && m@ == workspace_missing(id)) && final(self).view().workspaces == old(self).view().workspaces,
    {
        let ghost m0 = self.view().memories;
        let ghost keep = m0.dom().filter(|k: MemoryId| m0[k].workspace_id != id);
        let mut kept: Vec<MemoryEntry> = Vec::new();
        let mut input: Vec<MemoryEntry> = Vec::new();
        std::mem::swap(&mut input, &mut self.memories);
        let ghost orig = input@;
        let n = input.len();
        let mut i: usize = 0;
        while input.len() > 0
            invariant
                unique_ids(orig),
                m0 == table_map(orig),
                keep == m0.dom().filter(|k: MemoryId| m0[k].workspace_id != id),
                orig.len() == n,
                i + input@.len() == n,
                input@ == orig.skip(i as int),
                unique_ids(kept@),
                forall|k: int| 0 <= k < kept@.len() ==> exists|j: int| 0 <= j < i && #[trigger] kept@[k] == orig[j],
                table_map(kept@) == m0.restrict(keep.filter(|k: MemoryId| exists|j: int| 0 <= j < i && orig[j].id == k)),
            decreases input.len(),
        {
            let m = input.remove(0);
            proof {
                assert(m == orig[i as int]);
                assert(input@ =~= orig.skip(i + 1));
                lemma_table_at(orig, i as int);
            }
            let ghost before = kept@;
            if m.workspace_id != id {
                proof {
                    if has_id(before, m.id) {
                        let k = choose|k: int| 0 <= k < before.len() && #[trigger] before[k].key() == m.id;
                        let j = choose|j: int| 0 <= j < i && before[k] == orig[j];
                        assert(orig[j].id == orig[i as int].id);
                    }
                    crate::entry_table::lemma_table_push(before, m);
                }
                kept.push(m);
            }
            proof {
                assert(table_map(kept@) =~= m0.restrict(keep.filter(|k: MemoryId| exists|j: int| 0 <= j < i + 1 && orig[j].id == k))) by {
                    assert forall|k: MemoryId| table_map(kept@).contains_key(k) <==> m0.restrict(keep.filter(|k2: MemoryId| exists|j: int| 0 <= j < i + 1 && orig[j].id == k2)).contains_key(k) by {
                        if table_map(kept@).contains_key(k) {
                            if !table_map(before).contains_key(k) {
                                assert(k == m.id);
                            }
                        }
                        if m0.restrict(keep.filter(|k2: MemoryId| exists|j: int| 0 <= j < i + 1 && orig[j].id == k2)).contains_key(k) {
                            let j = choose|j: int| 0 <= j < i + 1 && orig[j].id == k;
                            if j == i {
                                assert(k == m.id);
                            } else {
                                assert(exists|j2: int| 0 <= j2 < i && orig[j2].id == k);
                            }
                        }
                    }
                }
                assert forall|k: int| 0 <= k < kept@.len() implies exists|j: int| 0 <= j < i + 1 && #[trigger] kept@[k] == orig[j] by {
                    if k < before.len() {
                        let j = choose|j: int| 0 <= j < i && before[k] == orig[j];
                        assert(kept@[k] == orig[j]);
                    } else {
                        assert(kept@[k] == orig[i as int]);
                    }
                }
            }
            i = i + 1;
        }
        proof {
            assert(keep.filter(|k: MemoryId| exists|j: int| 0 <= j < n && orig[j].id == k) =~= keep) by {
                assert forall|k: MemoryId| keep.contains(k) implies exists|j: int| 0 <= j < n && orig[j].id == k by {
                    let j = choose|j: int| 0 <= j < orig.len() && #[trigger] orig[j].key() == k;
                }
            }
        }
        self.memories = kept;
        let ghost w0 = self.view().workspaces;
        match table_take(&mut self.workspaces, id) {
            Some(_) => Ok(()),
            None => {
                proof {
                    assert(self.view().workspaces =~= w0);
                }
                let t = uuid_string(id);
                Err(MemoryError::WorkspaceError(join2("Workspace not found: ", t.as_str())))
            },
        }
    }

    /// Copies of the stored workspaces, in the client's order.
    pub fn list_workspaces(&self) -> (r: Result<Vec<Workspace>, MemoryError>)
        ensures
            r matches Ok(v) && v@ == self.stored_workspaces(),
    {
        let mut out: Vec<Workspace> = Vec::new();
        let mut i: usize = 0;
        while i < self.workspaces.len()
            invariant
                i <= self.workspaces@.len(),
                out@ == self.workspaces@.take(i as int),
            decreases self.workspaces.len() - i,
        {
            out.push(self.workspaces[i].clone());
            assert(out@ =~= self.workspaces@.take(i + 1));
            i = i + 1;
        }
        assert(out@ =~= self.workspaces@);
        Ok(out)
    }

    /// The counts behind a workspace's statistics: its memories in all, per
    /// status, and their importances in the client's order; a workspace not
    /// stored is an error.
    pub fn workspace_tally(&self, id: WorkspaceId) -> (r: Result<WorkspaceTally, MemoryError>)
        requires
            self.wf(),
        ensures
            !self.view().workspaces.contains_key(id) ==> (r matches Err(MemoryError::WorkspaceError(m))
                && m@ == workspace_missing(id)),
            self.view().workspaces.contains_key(id) ==> (r matches Ok(t) && t.total_memories
                == count_where(self.stored(), id, None) && t.active_count == count_where(
                self.stored(),
                id,
                Some(MemoryStatus::Active),
            ) && t.cooling_count == count_where(self.stored(), id, Some(MemoryStatus::Cooling))
                && t.cold_count == count_where(self.stored(), id, Some(MemoryStatus::Cold))
                && t.zombie_count == count_where(self.stored(), id, Some(MemoryStatus::Zombie))
                && t.importances@ == importances_in(self.stored(), id)),
    {
        match find_index(&self.workspaces, id) {
            Some(i) => {
                proof {
                    lemma_table_at(self.workspaces@, i as int);
                }
            },
            None => {
                let t = uuid_string(id);
                return Err(MemoryError::WorkspaceError(join2("Workspace not found: ", t.as_str())));
            },
        }
        let ghost s = self.stored();
        let mut total: u64 = 0;
        let mut active: u64 = 0;
        let mut cooling: u64 = 0;
        let mut cold: u64 = 0;
        let mut zombie: u64 = 0;
        let mut importances: Vec<u32> = Vec::new();
        let mut i: usize = 0;
        while i < self.memories.len()
            invariant
                i <= self.memories@.len(),
                s == self.memories@.map_values(|e: MemoryEntry| e@),
                total == count_where(s.take(i as int), id, None),
                active == count_where(s.take(i as int), id, Some(MemoryStatus::Active)),
                cooling == count_where(s.take(i as int), id, Some(MemoryStatus::Cooling)),
                cold == count_where(s.take(i as int), id, Some(MemoryStatus::Cold)),
                zombie == count_where(s.take(i as int), id, Some(MemoryStatus::Zombie)),
                total <= i,
                active <= total && cooling <= total && cold <= total && zombie <= total,
                importances@ == importances_in(s.take(i as int), id),
            decreases self.memories.len() - i,
        {
            let m = &self.memories[i];
            proof {
                assert(s.take(i + 1).drop_last() =~= s.take(i as int));
                assert(s.take(i + 1).last() == m@);
            }
            if m.workspace_id == id {
                total = total + 1;
                match m.status {
                    MemoryStatus::Active => active = active + 1,
                    MemoryStatus::Cooling => cooling = cooling + 1,
                    MemoryStatus::Cold => cold = cold + 1,
                    MemoryStatus::Zombie => zombie = zombie + 1,
                }
                importances.push(m.metadata.importance);
            }
            i = i + 1;
        }
        proof {
            assert(s.take(self.memories@.len() as int) =~= s);
        }
        Ok(
            WorkspaceTally {
                total_memories: total,
                active_count: active,
                cooling_count: cooling,
                cold_count: cold,
                zombie_count: zombie,
                importances,
            },
        )
    }
}

impl Default for MemoryClient {
    fn default() -> (r: Self)
        ensures
            r.wf(),
            r.view().config == (ClientConfig { storage_enabled: true, index_enabled: true }),
            r.view().memories == Map::<MemoryId, EntryView>::empty(),
            r.view().workspaces == Map::<WorkspaceId, Workspace>::empty(),
    {
        MemoryClient::new()
    }
}

/// Every result of the workspace, status and tag filtering is one of the
/// stored memories and passes those filters.
proof fn lemma_prefiltered_sound(s: Seq<EntryView>, ws: WorkspaceId, q: QueryView)
    ensures
        forall|k: int|
            0 <= k < prefiltered(s, ws, q).len() ==> {
                let r = #[trigger] prefiltered(s, ws, q)[k];
                &&& s.contains(r.memory)
                &&& r.memory.workspace_id == ws
                &&& (q.status matches Some(st) ==> r.memory.status == st)
                &&& (q.tags matches Some(t) ==> any_tag_matches(r.memory.metadata.tags, t))
            },
    decreases s.len(),
{
    if s.len() > 0 {
        let init = s.drop_last();
        lemma_prefiltered_sound(init, ws, q);
        let prev = prefiltered(init, ws, q);
        let cur = prefiltered(s, ws, q);
        assert forall|k: int| 0 <= k < cur.len() implies s.contains(#[trigger] cur[k].memory) by {
            if k < prev.len() {
                assert(cur[k] == prev[k]);
                let j = choose|j: int| 0 <= j < init.len() && init[j] == prev[k].memory;
                assert(s[j] == init[j]);
            } else {
                assert(cur[k].memory == s[s.len() - 1]);
            }
        }
    }
}

/// The results kept by the text filter are results of the input that pass
/// it.
proof fn lemma_text_retained_sound(rs: Seq<SearchResultView>, t: Option<Seq<char>>)
    ensures
        forall|k: int|
            0 <= k < text_retained(rs, t).len() ==> rs.contains(#[trigger] text_retained(rs, t)[k])
                && (t matches Some(x) ==> text_retained(rs, t)[k].memory.content is Text && text_matches(
                text_retained(rs, t)[k].memory,
                x,
            )),
    decreases rs.len(),
{
    if rs.len() > 0 {
        let init = rs.drop_last();
        lemma_text_retained_sound(init, t);
        let prev = text_retained(init, t);
        let cur = text_retained(rs, t);
        assert forall|k: int| 0 <= k < cur.len() implies rs.contains(#[trigger] cur[k]) by {
            if k < prev.len() {
                assert(cur[k] == prev[k]);
                let j = choose|j: int| 0 <= j < init.len() && init[j] == prev[k];
                assert(rs[j] == init[j]);
            } else {
                assert(cur[k] == rs[rs.len() - 1]);
            }
        }
    }
}

/// A listing holds only stored memories of the workspace that match the
/// query: each has the query's status, carries one of its tags and has
/// plain-text content containing its text ignoring case; there are at most
/// `limit` of them.
pub proof fn lemma_listing_matches_query(s: Seq<EntryView>, ws: WorkspaceId, q: QueryView)
    ensures
        client_list_spec(s, ws, q).len() <= q.limit,
        forall|k: int|
            0 <= k < client_list_spec(s, ws, q).len() ==> {
                let m = (#[trigger] client_list_spec(s, ws, q)[k]).memory;
                &&& s.contains(m)
                &&& m.workspace_id == ws
                &&& (q.status matches Some(st) ==> m.status == st)
                &&& (q.tags matches Some(t) ==> any_tag_matches(m.metadata.tags, t))
                &&& (q.text matches Some(t) ==> m.content is Text && text_matches(m, t))
            },
{
    let pre = prefiltered(s, ws, q);
    let page = page_spec(pre, q.offset as int, q.limit as int);
    lemma_prefiltered_sound(s, ws, q);
    lemma_text_retained_sound(page, q.text);
    lemma_text_retained_len(page, q.text);
    let out = client_list_spec(s, ws, q);
    assert forall|k: int| 0 <= k < out.len() implies {
        let m = (#[trigger] out[k]).memory;
        &&& s.contains(m)
        &&& m.workspace_id == ws
        &&& (q.status matches Some(st) ==> m.status == st)
        &&& (q.tags matches Some(t) ==> any_tag_matches(m.metadata.tags, t))
        &&& (q.text matches Some(t) ==> m.content is Text && text_matches(m, t))
    } by {
        assert(page.contains(out[k]));
        let j = choose|j: int| 0 <= j < page.len() && page[j] == out[k];
        assert(page[j] == pre[q.offset + j]);
    }
}

/// The text filter keeps at most as many results as it is given.
proof fn lemma_text_retained_len(rs: Seq<SearchResultView>, t: Option<Seq<char>>)
    ensures
        text_retained(rs, t).len() <= rs.len(),
    decreases rs.len(),
{
    if rs.len() > 0 {
        lemma_text_retained_len(rs.drop_last(), t);
    }
}

/// Every stored memory that passes the workspace, status and tag filters
/// is among the filtered results.
proof fn lemma_prefiltered_complete(s: Seq<EntryView>, ws: WorkspaceId, q: QueryView, i: int)
    requires
        0 <= i < s.len(),
        s[i].workspace_id == ws,
        q.status matches Some(st) ==> s[i].status == st,
        q.tags matches Some(t) ==> any_tag_matches(s[i].metadata.tags, t),
    ensures
        exists|k: int| 0 <= k < prefiltered(s, ws, q).len() && #[trigger] prefiltered(s, ws, q)[k] == client_result(s[i]),
    decreases s.len(),
{
    let init = s.drop_last();
    if i < s.len() - 1 {
        lemma_prefiltered_complete(init, ws, q, i);
        let k = choose|k: int| 0 <= k < prefiltered(init, ws, q).len() && #[trigger] prefiltered(init, ws, q)[k] == client_result(init[i]);
        assert(prefiltered(s, ws, q)[k] == prefiltered(init, ws, q)[k]);
    } else {
        let cur = prefiltered(s, ws, q);
        assert(cur[cur.len() - 1] == client_result(s[i]));
    }
}

/// Every result given to the text filter that passes it is kept.
proof fn lemma_text_retained_complete(rs: Seq<SearchResultView>, t: Option<Seq<char>>, i: int)
    requires
        0 <= i < rs.len(),
        t matches Some(x) ==> rs[i].memory.content is Text && text_matches(rs[i].memory, x),
    ensures
        text_retained(rs, t).contains(rs[i]),
    decreases rs.len(),
{
    let init = rs.drop_last();
    if i < rs.len() - 1 {
        lemma_text_retained_complete(init, t, i);
        let prev = text_retained(init, t);
        let k = choose|k: int| 0 <= k < prev.len() && prev[k] == init[i];
        assert(text_retained(rs, t)[k] == prev[k]);
    } else {
        let cur = text_retained(rs, t);
        assert(cur[cur.len() - 1] == rs[i]);
    }
}

/// A listing from the first result whose matches fit in its limit holds
/// every stored memory of the workspace that matches the query.
pub proof fn lemma_listing_holds_every_match(s: Seq<EntryView>, ws: WorkspaceId, q: QueryView, i: int)
    requires
        0 <= i < s.len(),
        q.offset == 0,
        prefiltered(s, ws, q).len() <= q.limit,
        s[i].workspace_id == ws,
        q.status matches Some(st) ==> s[i].status == st,
        q.tags matches Some(t) ==> any_tag_matches(s[i].metadata.tags, t),
        q.text matches Some(t) ==> s[i].content is Text && text_matches(s[i], t),
    ensures
        exists|k: int| 0 <= k < client_list_spec(s, ws, q).len() && (#[trigger] client_list_spec(s, ws, q)[k]).memory == s[i],
{
    let pre = prefiltered(s, ws, q);
    lemma_prefiltered_complete(s, ws, q, i);
    let k = choose|k: int| 0 <= k < pre.len() && #[trigger] pre[k] == client_result(s[i]);
    let page = page_spec(pre, q.offset as int, q.limit as int);
    assert(page =~= pre);
    lemma_text_retained_complete(page, q.text, k);
    let out = client_list_spec(s, ws, q);
    let j = choose|j: int| 0 <= j < out.len() && out[j] == page[k];
    assert(out[j].memory == s[i]);
}

/// Reading a memory right after adding it gives the memory that was added
/// (nothing, while storage is disabled).
pub proof fn lemma_read_after_add(v: ClientView, m: EntryView)
    ensures
        read_spec(add_spec(v, m), m.id) == (if v.config.storage_enabled {
            Some(m)
        } else {
            None::<EntryView>
        }),
{
}

/// Adding a memory leaves every other memory as it was.
pub proof fn lemma_add_leaves_others(v: ClientView, m: EntryView, id: MemoryId)
    requires
        id != m.id,
    ensures
        read_spec(add_spec(v, m), id) == read_spec(v, id),
{
}

/// An update replaces a stored memory and never creates one.
pub proof fn lemma_read_after_update(v: ClientView, m: EntryView)
    ensures
        read_spec(update_spec(v, m), m.id) == (if read_spec(v, m.id) is Some {
            Some(m)
        } else {
            None::<EntryView>
        }),
{
}

/// A deleted memory is not found any more, and deleting it again changes
/// nothing.
pub proof fn lemma_read_after_delete(v: ClientView, id: MemoryId)
    ensures
        read_spec(delete_spec(v, id), id) is None,
        delete_spec(delete_spec(v, id), id) == delete_spec(v, id),
{
    assert(v.memories.remove(id).remove(id) =~= v.memories.remove(id));
}

/// Deleting a workspace removes exactly its memories: none of them
/// remains, and every memory of another workspace stays as it was.
pub proof fn lemma_workspace_delete_cascades(m: Map<MemoryId, EntryView>, ws: WorkspaceId, id: MemoryId)
    ensures
        without_workspace(m, ws).contains_key(id) <==> (m.contains_key(id) && m[id].workspace_id != ws),
        without_workspace(m, ws).contains_key(id) ==> without_workspace(m, ws)[id] == m[id],
{
}

} // verus!
