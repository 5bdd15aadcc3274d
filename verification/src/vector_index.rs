//! Bookkeeping of the embedding index: its configuration, which vector
//! slot holds which memory, which workspace each memory belongs to, and the
//! checks made before a vector is inserted or a query is run.
//!
//! The nearest-neighbour graph itself works on floating-point vectors and
//! lives beside this structure; it hands back slot numbers and integer
//! distances, which this module resolves to memories.

use vstd::prelude::*;
use crate::entry_table::{Keyed, unique_ids, table_map, table_upsert, table_take, lemma_table_empty, lemma_table_at, find_index};
use crate::error::IndexError;
use crate::text::{uuid_text, uuid_string, join3};
use crate::types::{MemoryEntry, MemoryId, WorkspaceId};

verus! {

/// The most results one search returns.
pub const MAX_SEARCH_RESULTS: usize = 1000;

/// Configuration of the HNSW graph.
#[derive(Debug, Clone, Copy, PartialEq, Eq)]
pub struct HnswConfig {
    /// Maximum number of connections per element.
    pub m: usize,
    /// Size of the candidate list while building.
    pub ef_construction: usize,
    /// Size of the candidate list while searching.
    pub ef_search: usize,
    /// Number of components of each embedding.
    pub dimension: usize,
}

impl Default for HnswConfig {
    fn default() -> (r: Self)
        ensures
            r.m == 16,
            r.ef_construction == 200,
            r.ef_search == 50,
            r.dimension == 384,
    {
        HnswConfig { m: 16, ef_construction: 200, ef_search: 50, dimension: 384 }
    }
}

/// A vector slot of the graph and the memory stored in it.
#[derive(Debug, Clone, Copy, PartialEq, Eq)]
pub struct VectorSlot {
    pub vector_id: usize,
    pub memory_id: MemoryId,
}

impl View for VectorSlot {
    type V = VectorSlot;

    open spec fn view(&self) -> VectorSlot {
        *self
    }
}

impl Keyed for VectorSlot {
    open spec fn key(&self) -> u128 {
        self.vector_id as u128
    }

    fn get_key(&self) -> (r: u128) {
        self.vector_id as u128
    }
}

/// Where a memory sits: its vector slot and its workspace.
#[derive(Debug, Clone, Copy, PartialEq, Eq)]
pub struct Placement {
    pub memory_id: MemoryId,
    pub vector_id: usize,
    pub workspace_id: WorkspaceId,
}

impl View for Placement {
    type V = Placement;

    open spec fn view(&self) -> Placement {
        *self
    }
}

impl Keyed for Placement {
    open spec fn key(&self) -> u128 {
        self.memory_id
    }

    fn get_key(&self) -> (r: u128) {
        self.memory_id
    }
}

/// A neighbour that search found, resolved to its memory.
#[derive(Debug, Clone, Copy, PartialEq, Eq)]
pub struct VectorHit {
    pub memory_id: MemoryId,
    /// The graph's distance (lower is closer).
    pub distance: u32,
    pub workspace_id: WorkspaceId,
}

/// What the index holds.
pub struct VectorIndexView {
    pub config: HnswConfig,
    pub initialized: bool,
    /// Slot number (as `u128`) to the slot's record.
    pub slots: Map<u128, VectorSlot>,
    /// Memory identifier to where the memory sits.
    pub placements: Map<MemoryId, Placement>,
    pub count: nat,
}

/// The index's bookkeeping.
pub struct VectorIndex {
    config: HnswConfig,
    initialized: bool,
    id_mapping: Vec<VectorSlot>,
    placements: Vec<Placement>,
    count: usize,
}

/// The slot record of a neighbour, resolved to a hit when its slot and its
/// memory are known and the workspace filter lets it through.
pub open spec fn resolve_one(v: VectorIndexView, n: (usize, u32), ws: Option<WorkspaceId>) -> Option<
    VectorHit,
> {
    if n.0 == usize::MAX || !v.slots.contains_key(n.0 as u128) {
        None
    } else {
        let mid = v.slots[n.0 as u128].memory_id;
        if !v.placements.contains_key(mid) {
            None
        } else {
            let wsid = v.placements[mid].workspace_id;
            if ws is Some && ws.unwrap() != wsid {
                None
            } else {
                Some(VectorHit { memory_id: mid, distance: n.1, workspace_id: wsid })
            }
        }
    }
}

/// The hits of a list of neighbours, in the list's order.
pub open spec fn resolve_spec(v: VectorIndexView, ns: Seq<(usize, u32)>, ws: Option<WorkspaceId>) -> Seq<
    VectorHit,
>
    decreases ns.len(),
{
    if ns.len() == 0 {
        Seq::empty()
    } else {
        let rest = resolve_spec(v, ns.drop_last(), ws);
        match resolve_one(v, ns.last(), ws) {
            Some(h) => rest.push(h),
            None => rest,
        }
    }
}

impl VectorIndex {
    pub closed spec fn wf(&self) -> bool {
        &&& unique_ids(self.id_mapping@)
        &&& unique_ids(self.placements@)
    }

    pub closed spec fn view(&self) -> VectorIndexView {
        VectorIndexView {
            config: self.config,
            initialized: self.initialized,
            slots: table_map(self.id_mapping@),
            placements: table_map(self.placements@),
            count: self.count as nat,
        }
    }

    /// An empty index with the configuration, not yet initialized.
    pub fn new(config: HnswConfig) -> (r: Self)
        ensures
            r.wf(),
            r.view().config == config,
            !r.view().initialized,
            r.view().slots == Map::<u128, VectorSlot>::empty(),
            r.view().placements == Map::<MemoryId, Placement>::empty(),
            r.view().count == 0,
    {
        let r = VectorIndex {
            config,
            initialized: false,
            id_mapping: Vec::new(),
            placements: Vec::new(),
            count: 0,
        };
        proof {
            lemma_table_empty(r.id_mapping@);
            lemma_table_empty(r.placements@);
        }
        r
    }

    /// Marks the graph as created; nothing else changes.
    pub fn initialize(&mut self) -> (r: Result<(), IndexError>)
        requires
            old(self).wf(),
        ensures
            final(self).wf(),
            r is Ok,
            final(self).view() == (VectorIndexView { initialized: true, ..old(self).view() }),
    {
        self.initialized = true;
        Ok(())
    }

    /// Whether the graph has been created.
    pub fn is_initialized(&self) -> (r: bool)
        ensures
            r == self.view().initialized,
    {
        self.initialized
    }

    /// The check made before an entry's embedding is inserted: it must have
    /// one, of the configured dimension.
    pub fn check_embedding(&self, memory: &MemoryEntry) -> (r: Result<(), IndexError>)
        ensures
            memory@.embedding is None ==> (r matches Err(e) && e matches IndexError::OperationFailed(
                m,
            ) && m@ == "Memory has no embedding"@),
            memory@.embedding matches Some(e) && e.len() != self.view().config.dimension ==> r
                == Err::<(), IndexError>(
                IndexError::InvalidDimension {
                    expected: self.view().config.dimension,
                    got: memory@.embedding.unwrap().len() as usize,
                },
            ),
            r is Ok <==> (memory@.embedding matches Some(e) && e.len()
                == self.view().config.dimension),
    {
        match &memory.embedding {
            None => Err(IndexError::OperationFailed("Memory has no embedding".to_string())),
            Some(e) => {
                if e.len() != self.config.dimension {
                    Err(IndexError::InvalidDimension { expected: self.config.dimension, got: e.len() })
                } else {
                    Ok(())
                }
            },
        }
    }

    /// Records that the graph stored the memory in slot `vector_id`: the
    /// slot maps to the memory, the memory to the slot and its workspace,
    /// and the count grows by one.
    pub fn record_added(&mut self, memory_id: MemoryId, workspace_id: WorkspaceId, vector_id: usize)
        requires
            old(self).wf(),
            old(self).view().count < usize::MAX,
        ensures
            final(self).wf(),
            final(self).view() == (VectorIndexView {
                slots: old(self).view().slots.insert(
                    vector_id as u128,
                    VectorSlot { vector_id, memory_id },
                ),
                placements: old(self).view().placements.insert(
                    memory_id,
                    Placement { memory_id, vector_id, workspace_id },
                ),
                count: old(self).view().count + 1,
                ..old(self).view()
            }),
    {
        table_upsert(&mut self.id_mapping, VectorSlot { vector_id, memory_id });
        table_upsert(&mut self.placements, Placement { memory_id, vector_id, workspace_id });
        self.count = self.count + 1;
    }

    /// Removes a memory: its placement and its slot go, and the count drops
    /// by one (not below zero). A memory the index does not hold gives
    /// `NotFound`.
    pub fn remove(&mut self, memory_id: MemoryId) -> (r: Result<(), IndexError>)
        requires
            old(self).wf(),
        ensures
            final(self).wf(),
            r is Ok <==> old(self).view().placements.contains_key(memory_id),
            r matches Err(e) ==> e matches IndexError::NotFound(m) && m@ == "Memory "@ + uuid_text(
                memory_id,
            ) + " not in index"@,
            r is Err ==> final(self).view() == old(self).view(),
            r is Ok ==> final(self).view() == (VectorIndexView {
                slots: old(self).view().slots.remove(
                    old(self).view().placements[memory_id].vector_id as u128,
                ),
                placements: old(self).view().placements.remove(memory_id),
                count: if old(self).view().count == 0 {
                    0
                } else {
                    (old(self).view().count - 1) as nat
                },
                ..old(self).view()
            }),
    {
        match table_take(&mut self.placements, memory_id) {
            None => {
                proof {
                    assert(self.view().placements =~= old(self).view().placements);
                }
                let id_text = uuid_string(memory_id);
                Err(IndexError::NotFound(join3("Memory ", id_text.as_str(), " not in index")))
            },
            Some(p) => {
                let _ = table_take(&mut self.id_mapping, p.vector_id as u128);
                self.count = if self.count == 0 {
                    0
                } else {
                    self.count - 1
                };
                Ok(())
            },
        }
    }

    /// The check made before a search: the query must have the configured
    /// dimension and the graph must exist.
    pub fn check_query(&self, query_len: usize) -> (r: Result<(), IndexError>)
        ensures
            query_len != self.view().config.dimension ==> r == Err::<(), IndexError>(
                IndexError::InvalidDimension {
                    expected: self.view().config.dimension,
                    got: query_len,
                },
            ),
            query_len == self.view().config.dimension && !self.view().initialized ==> (r matches Err(
                e,
            ) && e matches IndexError::OperationFailed(m) && m@ == "HNSW index not initialized"@),
            r is Ok <==> (query_len == self.view().config.dimension && self.view().initialized),
    {
        if query_len != self.config.dimension {
            return Err(IndexError::InvalidDimension { expected: self.config.dimension, got: query_len });
        }
        if !self.initialized {
            return Err(IndexError::OperationFailed("HNSW index not initialized".to_string()));
        }
        Ok(())
    }

    /// Resolves the neighbours the graph returned (at most `limit` of them
    /// are read, in order): empty slots (`usize::MAX`), slots or memories
    /// the index no longer knows, and memories outside the workspace filter
    /// are skipped.
    pub fn resolve_neighbors(
        &self,
        neighbors: &Vec<(usize, u32)>,
        workspace_id: Option<WorkspaceId>,
        limit: usize,
    ) -> (r: Vec<VectorHit>)
        requires
            self.wf(),
        ensures
            r@ == resolve_spec(
                self.view(),
                neighbors@.take(if limit < neighbors@.len() {
                    limit as int
                } else {
                    neighbors@.len() as int
                }),
                workspace_id,
            ),
    {
        let n = if limit < neighbors.len() {
            limit
        } else {
            neighbors.len()
        };
        let mut out: Vec<VectorHit> = Vec::new();
        let mut i: usize = 0;
        while i < n
            invariant
                self.wf(),
                n <= neighbors@.len(),
                i <= n,
                out@ == resolve_spec(self.view(), neighbors@.take(i as int), workspace_id),
            decreases n - i,
        {
            let (vid, dist) = neighbors[i];
            proof {
                assert(neighbors@.take(i + 1).drop_last() =~= neighbors@.take(i as int));
                assert(neighbors@.take(i + 1).last() == neighbors@[i as int]);
            }
            if vid != usize::MAX {
                match find_index(&self.id_mapping, vid as u128) {
                    Some(si) => {
                        proof {
                            lemma_table_at(self.id_mapping@, si as int);
                        }
                        let mid = self.id_mapping[si].memory_id;
                        match find_index(&self.placements, mid) {
                            Some(pi) => {
                                proof {
                                    lemma_table_at(self.placements@, pi as int);
                                }
                                let wsid = self.placements[pi].workspace_id;
                                let keep = match workspace_id {
                                    Some(w) => w == wsid,
                                    None => true,
                                };
                                if keep {
                                    out.push(VectorHit { memory_id: mid, distance: dist, workspace_id: wsid });
                                }
                            },
                            None => {},
                        }
                    },
                    None => {},
                }
            }
            i = i + 1;
        }
        out
    }

    /// The number of memories recorded (additions minus removals).
    pub fn len(&self) -> (r: usize)
        ensures
            r == self.view().count,
    {
        self.count
    }

    /// Whether the count is zero.
    pub fn is_empty(&self) -> (r: bool)
        ensures
            r == (self.view().count == 0),
    {
        self.count == 0
    }

    /// The configuration.
    pub fn config(&self) -> (r: &HnswConfig)
        ensures
            *r == self.view().config,
    {
        &self.config
    }
}

/// The number of results a search asks the graph for: at most
/// `MAX_SEARCH_RESULTS`.
pub fn search_limit(limit: usize) -> (r: usize)
    ensures
        r == if limit < MAX_SEARCH_RESULTS {
            limit
        } else {
            MAX_SEARCH_RESULTS
        },
{
    if limit < MAX_SEARCH_RESULTS {
        limit
    } else {
        MAX_SEARCH_RESULTS
    }
}

/// Builds a vector index with a fluent configuration.
pub struct VectorIndexBuilder {
    config: HnswConfig,
}

impl VectorIndexBuilder {
    /// A builder with the default configuration.
    pub fn new() -> (r: Self)
        ensures
            r.config_spec() == (HnswConfig { m: 16, ef_construction: 200, ef_search: 50, dimension: 384 }),
    {
        VectorIndexBuilder { config: HnswConfig::default() }
    }

    pub closed spec fn config_spec(&self) -> HnswConfig {
        self.config
    }

    /// Sets the dimension.
    pub fn with_dimension(self, dimension: usize) -> (r: Self)
        ensures
            r.config_spec() == (HnswConfig { dimension, ..self.config_spec() }),
    {
        let mut b = self;
        b.config.dimension = dimension;
        b
    }

    /// Sets the number of connections per element.
    pub fn with_m(self, m: usize) -> (r: Self)
        ensures
            r.config_spec() == (HnswConfig { m, ..self.config_spec() }),
    {
        let mut b = self;
        b.config.m = m;
        b
    }

    /// Sets the candidate list size while building.
    pub fn with_ef_construction(self, ef: usize) -> (r: Self)
        ensures
            r.config_spec() == (HnswConfig { ef_construction: ef, ..self.config_spec() }),
    {
        let mut b = self;
        b.config.ef_construction = ef;
        b
    }

    /// Sets the candidate list size while searching.
    pub fn with_ef_search(self, ef: usize) -> (r: Self)
        ensures
            r.config_spec() == (HnswConfig { ef_search: ef, ..self.config_spec() }),
    {
        let mut b = self;
        b.config.ef_search = ef;
        b
    }

    /// The configuration built so far.
    pub fn config(&self) -> (r: &HnswConfig)
        ensures
            *r == self.config_spec(),
    {
        &self.config
    }

    /// An empty index with the configuration.
    pub fn build(self) -> (r: VectorIndex)
        ensures
            r.wf(),
            r.view().config == self.config_spec(),
            !r.view().initialized,
            r.view().slots == Map::<u128, VectorSlot>::empty(),
            r.view().placements == Map::<MemoryId, Placement>::empty(),
            r.view().count == 0,
    {
        VectorIndex::new(self.config)
    }
}

impl Default for VectorIndexBuilder {
    fn default() -> (r: Self)
        ensures
            r.config_spec() == (HnswConfig { m: 16, ef_construction: 200, ef_search: 50, dimension: 384 }),
    {
        VectorIndexBuilder::new()
    }
}

} // verus!
