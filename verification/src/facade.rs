//! The quick-start client: a memory client with its default configuration,
//! and the calls a program makes first: a workspace by name, a text memory
//! with tags, a text search in a workspace, a listing of a workspace.

use vstd::prelude::*;
use crate::client::{
    ClientConfig, ClientView, MemoryClient, WorkspaceTally, add_spec, count_where, delete_spec, importances_in, rviews, search_spec,
    workspace_missing,
};
use crate::error::MemoryError;
use crate::floats::F32_HALF;
use crate::types::{
    ContentView, EntryView, MemoryContent, MemoryEntry, MemoryId, MemoryMetadata, MemorySource,
    MemoryStatus, MetadataView, QueryView, SearchQuery, SearchResult, SourceView, Timestamp, Workspace, WorkspaceId,
    clone_strings, new_entry_spec, texts_view,
};

verus! {

/// The memory the quick-start client stores for a text: the text as its
/// content and as the query it came from, the given tags, importance 0.5.
pub open spec fn text_memory_spec(
    id: MemoryId,
    workspace_id: WorkspaceId,
    text: Seq<char>,
    tags: Seq<Seq<char>>,
    now: Timestamp,
) -> EntryView {
    new_entry_spec(
        id,
        workspace_id,
        ContentView::Text(text),
        MetadataView {
            source: SourceView::UserQuery { query: text },
            tags,
            custom_fields: Seq::empty(),
            importance: F32_HALF,
        },
        now,
    )
}

/// The query of a quick search: the text, in one workspace, the first ten
/// results.
pub open spec fn quick_search_query(text: Seq<char>, workspace_id: WorkspaceId) -> QueryView {
    QueryView {
        text: Some(text),
        tags: None,
        workspace_id: Some(workspace_id),
        status: None,
        date_range: None,
        limit: 10,
        offset: 0,
    }
}

/// The query of a workspace listing: every memory of the workspace, the
/// first hundred.
pub open spec fn workspace_listing_query(workspace_id: WorkspaceId) -> QueryView {
    QueryView {
        text: None,
        tags: None,
        workspace_id: Some(workspace_id),
        status: None,
        date_range: None,
        limit: 100,
        offset: 0,
    }
}

/// A memory client with storage and index enabled.
pub struct MemosClient {
    inner: MemoryClient,
}

impl MemosClient {
    /// The client underneath is well formed and has storage and index
    /// enabled.
    pub closed spec fn wf(&self) -> bool {
        &&& self.inner.wf()
        &&& self.inner.view().config == (ClientConfig { storage_enabled: true, index_enabled: true })
    }

    /// What the client holds.
    pub closed spec fn view(&self) -> ClientView {
        self.inner.view()
    }

    /// The memory client underneath.
    pub closed spec fn client(&self) -> MemoryClient {
        self.inner
    }

    /// A client with no workspace and no memory.
    pub fn new_in_memory() -> (r: Self)
        ensures
            r.wf(),
            r.view().memories == Map::<MemoryId, EntryView>::empty(),
            r.view().workspaces == Map::<WorkspaceId, Workspace>::empty(),
    {
        MemosClient { inner: MemoryClient::new() }
    }

    /// Creates a workspace with the name, the given identifier (a fresh one
    /// is drawn by the caller), created at `now`, with no description and the
    /// default configuration, and returns its identifier.
    pub fn create_workspace(&mut self, name: String, id: WorkspaceId, now: Timestamp) -> (r: Result<
        WorkspaceId,
        MemoryError,
    >)
        requires
            old(self).wf(),
        ensures
            final(self).wf(),
            r == Ok::<WorkspaceId, MemoryError>(id),
            final(self).view() == (ClientView {
                workspaces: old(self).view().workspaces.insert(id, final(self).view().workspaces[id]),
                ..old(self).view()
            }),
            ({
                let w = final(self).view().workspaces[id];
                &&& w.id == id
                &&& w.name == name
                &&& w.description is None
                &&& w.created_at == now
                &&& w.updated_at == now
                &&& w.config.max_memory_size == 10_000_000
                &&& w.config.retention_days == 90
                &&& w.config.auto_archive
                &&& w.config.embedding_model is None
            }),
    {
        let workspace = Workspace::new(id, name, now);
        self.inner.create_workspace(workspace)
    }

    /// Stores a text memory in the workspace under the given identifier (a
    /// fresh one is drawn by the caller), created at `now`, with the text as
    /// its content and as the query it came from, and the tags; returns its
    /// identifier.
    pub fn add_memory(
        &mut self,
        workspace_id: WorkspaceId,
        content: &str,
        tags: &Vec<String>,
        id: MemoryId,
        now: Timestamp,
    ) -> (r: Result<MemoryId, MemoryError>)
        requires
            old(self).wf(),
        ensures
            final(self).wf(),
            r == Ok::<MemoryId, MemoryError>(id),
            final(self).view() == add_spec(
                old(self).view(),
                text_memory_spec(id, workspace_id, content@, texts_view(tags@), now),
            ),
    {
        let source = MemorySource::UserQuery { query: content.to_string() };
        let metadata = MemoryMetadata::new(source).with_tags(clone_strings(tags));
        let entry = MemoryEntry::new(id, workspace_id, MemoryContent::Text(content.to_string()), metadata, now);
        self.inner.add(entry)
    }

    /// Searches the workspace for the text, returning the first ten results.
    pub fn search(&self, query: &str, workspace_id: WorkspaceId) -> (r: Result<Vec<SearchResult>, MemoryError>)
        requires
            self.wf(),
        ensures
            r matches Ok(v) && rviews(v@) == search_spec(
                self.client().stored(),
                seq![workspace_id],
                quick_search_query(query@, workspace_id),
            ),
    {
        let q = SearchQuery {
            text: Some(query.to_string()),
            workspace_id: Some(workspace_id),
            tags: None,
            status: None,
            date_range: None,
            limit: 10,
            offset: 0,
        };
        proof {
            self.inner.lemma_search_named_workspace(q@);
            assert(q@ == quick_search_query(query@, workspace_id));
        }
        self.inner.search(&q)
    }

    /// Lists the first hundred memories of the workspace.
    pub fn list_memories(&self, workspace_id: WorkspaceId) -> (r: Result<Vec<SearchResult>, MemoryError>)
        requires
            self.wf(),
        ensures
            r matches Ok(v) && rviews(v@) == search_spec(
                self.client().stored(),
                seq![workspace_id],
                workspace_listing_query(workspace_id),
            ),
    {
        let q = SearchQuery {
            workspace_id: Some(workspace_id),
            text: None,
            tags: None,
            status: None,
            date_range: None,
            limit: 100,
            offset: 0,
        };
        proof {
            self.inner.lemma_search_named_workspace(q@);
            assert(q@ == workspace_listing_query(workspace_id));
        }
        self.inner.search(&q)
    }

    /// The counts behind the workspace's statistics; an unknown workspace
    /// is a `WorkspaceError`.
    pub fn get_workspace_stats(&self, workspace_id: WorkspaceId) -> (r: Result<WorkspaceTally, MemoryError>)
        requires
            self.wf(),
        ensures
            !self.view().workspaces.contains_key(workspace_id) ==> (r matches Err(
                MemoryError::WorkspaceError(m),
            ) && m@ == workspace_missing(workspace_id)),
            self.view().workspaces.contains_key(workspace_id) ==> (r matches Ok(t) && t.total_memories
                == count_where(self.client().stored(), workspace_id, None) && t.active_count
                == count_where(self.client().stored(), workspace_id, Some(MemoryStatus::Active))
                && t.cooling_count == count_where(
                self.client().stored(),
                workspace_id,
                Some(MemoryStatus::Cooling),
            ) && t.cold_count == count_where(self.client().stored(), workspace_id, Some(MemoryStatus::Cold))
                && t.zombie_count == count_where(
                self.client().stored(),
                workspace_id,
                Some(MemoryStatus::Zombie),
            ) && t.importances@ == importances_in(self.client().stored(), workspace_id)),
    {
        self.inner.workspace_tally(workspace_id)
    }

    /// Deletes a memory; an unknown one is `NotFound`.
    pub fn delete_memory(&mut self, memory_id: MemoryId) -> (r: Result<(), MemoryError>)
        requires
            old(self).wf(),
        ensures
            final(self).wf(),
            final(self).view() == delete_spec(old(self).view(), memory_id),
            r is Ok <==> old(self).view().memories.contains_key(memory_id),
    {
        self.inner.delete(memory_id)
    }
}

} // verus!
