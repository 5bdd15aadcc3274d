//! The archive tier's own logic: its in-memory index (which file holds
//! each memory, which memories each workspace has filed), the checks on
//! what it accepts, and the filters of a listing. Reading and writing the
//! archive files is done by the caller.

use vstd::prelude::*;
use crate::entry_table::{Keyed, unique_ids, table_map, table_upsert, table_take, lemma_table_empty, find_index, lemma_table_at};
use crate::error::MemoryError;
use crate::floats::F32_ONE;
use crate::query::{any_tag_matches, tags_match, text_matches, text_matches_entry};
use crate::text::{join3, uuid_string, uuid_text};
use crate::types::{EntryView, MemoryEntry, MemoryId, MemoryStatus, QueryView, SearchQuery, SearchResult, SearchResultView, WorkspaceId};

verus! {

/// The file that holds an archived memory.
#[derive(Debug)]
pub struct FiledMemory {
    pub id: MemoryId,
    pub path: String,
}

impl View for FiledMemory {
    type V = (MemoryId, Seq<char>);

    open spec fn view(&self) -> (MemoryId, Seq<char>) {
        (self.id, self.path@)
    }
}

impl Keyed for FiledMemory {
    open spec fn key(&self) -> u128 {
        self.id
    }

    fn get_key(&self) -> (r: u128) {
        self.id
    }
}

/// The memories a workspace has filed, in filing order.
#[derive(Debug)]
pub struct WorkspaceFiles {
    pub workspace_id: WorkspaceId,
    pub ids: Vec<MemoryId>,
}

impl View for WorkspaceFiles {
    type V = Seq<MemoryId>;

    open spec fn view(&self) -> Seq<MemoryId> {
        self.ids@
    }
}

impl Keyed for WorkspaceFiles {
    open spec fn key(&self) -> u128 {
        self.workspace_id
    }

    fn get_key(&self) -> (r: u128) {
        self.workspace_id
    }
}

/// What the archive index holds.
pub struct ZombieIndexView {
    /// Memory identifier to (identifier, file path).
    pub paths: Map<MemoryId, (MemoryId, Seq<char>)>,
    /// Workspace identifier to the memories it filed (a memory filed twice
    /// appears twice).
    pub workspaces: Map<WorkspaceId, Seq<MemoryId>>,
}

/// The index after filing a memory: its path recorded (replacing an
/// earlier one), its identifier appended to its workspace's list.
pub open spec fn filed_spec(v: ZombieIndexView, id: MemoryId, ws: WorkspaceId, path: Seq<char>) -> ZombieIndexView {
    ZombieIndexView {
        paths: v.paths.insert(id, (id, path)),
        workspaces: v.workspaces.insert(
            ws,
            (if v.workspaces.contains_key(ws) {
                v.workspaces[ws]
            } else {
                Seq::empty()
            }).push(id),
        ),
    }
}

/// The index after forgetting a memory: its path gone, and every
/// occurrence of it gone from the workspace's list (when the workspace is
/// known).
pub open spec fn unfiled_spec(v: ZombieIndexView, id: MemoryId, ws: WorkspaceId) -> ZombieIndexView {
    ZombieIndexView {
        paths: v.paths.remove(id),
        workspaces: if v.workspaces.contains_key(ws) {
            v.workspaces.insert(ws, without(v.workspaces[ws], id))
        } else {
            v.workspaces
        },
    }
}

/// The archive's in-memory index.
pub struct ZombieIndex {
    id_to_path: Vec<FiledMemory>,
    workspace_to_ids: Vec<WorkspaceFiles>,
}

/// The list without any occurrence of `id`.
pub open spec fn without(s: Seq<MemoryId>, id: MemoryId) -> Seq<MemoryId> {
    s.filter(|x: MemoryId| x != id)
}

impl ZombieIndex {
    pub closed spec fn wf(&self) -> bool {
        &&& unique_ids(self.id_to_path@)
        &&& unique_ids(self.workspace_to_ids@)
    }

    pub closed spec fn view(&self) -> ZombieIndexView {
        ZombieIndexView { paths: table_map(self.id_to_path@), workspaces: table_map(self.workspace_to_ids@) }
    }

    /// An empty index.
    pub fn new() -> (r: Self)
        ensures
            r.wf(),
            r.view().paths == Map::<MemoryId, (MemoryId, Seq<char>)>::empty(),
            r.view().workspaces == Map::<WorkspaceId, Seq<MemoryId>>::empty(),
    {
        let r = ZombieIndex { id_to_path: Vec::new(), workspace_to_ids: Vec::new() };
        proof {
            lemma_table_empty(r.id_to_path@);
            lemma_table_empty(r.workspace_to_ids@);
        }
        r
    }

    /// Forgets everything (before the index is rebuilt from the files).
    pub fn clear(&mut self)
        ensures
            final(self).wf(),
            final(self).view().paths == Map::<MemoryId, (MemoryId, Seq<char>)>::empty(),
            final(self).view().workspaces == Map::<WorkspaceId, Seq<MemoryId>>::empty(),
    {
        self.id_to_path = Vec::new();
        self.workspace_to_ids = Vec::new();
        proof {
            lemma_table_empty(self.id_to_path@);
            lemma_table_empty(self.workspace_to_ids@);
        }
    }

    /// Records a filed memory: its path (replacing an earlier one), and its
    /// identifier at the end of its workspace's list.
    pub fn index_memory(&mut self, id: MemoryId, workspace_id: WorkspaceId, path: String)
        requires
            old(self).wf(),
        ensures
            final(self).wf(),
            final(self).view() == filed_spec(old(self).view(), id, workspace_id, path@),
            final(self).view().paths == old(self).view().paths.insert(id, (id, path@)),
            final(self).view().workspaces == old(self).view().workspaces.insert(
                workspace_id,
                (if old(self).view().workspaces.contains_key(workspace_id) {
                    old(self).view().workspaces[workspace_id]
                } else {
                    Seq::empty()
                }).push(id),
            ),
    {
        table_upsert(&mut self.id_to_path, FiledMemory { id, path });
        let mut ids = match table_take(&mut self.workspace_to_ids, workspace_id) {
            Some(w) => w.ids,
            None => Vec::new(),
        };
        ids.push(id);
        proof {
            lemma_table_take_insert(old(self).view().workspaces, workspace_id);
        }
        table_upsert(&mut self.workspace_to_ids, WorkspaceFiles { workspace_id, ids });
    }

    /// Forgets a memory: its path is removed (and returned, so the file can
    /// be deleted) and every occurrence of it leaves its workspace's list.
    pub fn unindex_memory(&mut self, id: MemoryId, workspace_id: WorkspaceId) -> (r: Option<String>)
        requires
            old(self).wf(),
        ensures
            final(self).wf(),
            final(self).view() == unfiled_spec(old(self).view(), id, workspace_id),
            final(self).view().paths == old(self).view().paths.remove(id),
            r is Some <==> old(self).view().paths.contains_key(id),
            r matches Some(p) ==> p@ == old(self).view().paths[id].1,
            old(self).view().workspaces.contains_key(workspace_id) ==> final(self).view().workspaces
                == old(self).view().workspaces.insert(
                workspace_id,
                without(old(self).view().workspaces[workspace_id], id),
            ),
            !old(self).view().workspaces.contains_key(workspace_id) ==> final(self).view().workspaces
                == old(self).view().workspaces,
    {
        let path = match table_take(&mut self.id_to_path, id) {
            Some(f) => Some(f.path),
            None => None,
        };
        let ghost ws0 = self.view().workspaces;
        match table_take(&mut self.workspace_to_ids, workspace_id) {
            Some(w) => {
                let mut kept: Vec<MemoryId> = Vec::new();
                let mut i: usize = 0;
                while i < w.ids.len()
                    invariant
                        i <= w.ids@.len(),
                        kept@ == without(w.ids@.take(i as int), id),
                    decreases w.ids.len() - i,
                {
                    proof {
                        assert(w.ids@.take(i + 1).drop_last() =~= w.ids@.take(i as int));
                        reveal(Seq::filter);
                    }
                    if w.ids[i] != id {
                        kept.push(w.ids[i]);
                    }
                    i = i + 1;
                }
                proof {
                    assert(w.ids@.take(w.ids@.len() as int) =~= w.ids@);
                    lemma_table_take_insert(ws0, workspace_id);
                }
                table_upsert(&mut self.workspace_to_ids, WorkspaceFiles { workspace_id, ids: kept });
            },
            None => {
                proof {
                    assert(self.view().workspaces =~= ws0);
                }
            },
        }
        path
    }

    /// The path of a filed memory.
    pub fn path_of(&self, id: MemoryId) -> (r: Option<String>)
        requires
            self.wf(),
        ensures
            r is Some <==> self.view().paths.contains_key(id),
            r matches Some(p) ==> p@ == self.view().paths[id].1,
    {
        match find_index(&self.id_to_path, id) {
            Some(i) => {
                proof {
                    lemma_table_at(self.id_to_path@, i as int);
                }
                Some(self.id_to_path[i].path.clone())
            },
            None => None,
        }
    }

    /// The memories a workspace has filed, in filing order (none for a
    /// workspace the index does not know).
    pub fn workspace_ids(&self, workspace_id: WorkspaceId) -> (r: Vec<MemoryId>)
        requires
            self.wf(),
        ensures
            self.view().workspaces.contains_key(workspace_id) ==> r@ == self.view().workspaces[workspace_id],
            !self.view().workspaces.contains_key(workspace_id) ==> r@.len() == 0,
    {
        match find_index(&self.workspace_to_ids, workspace_id) {
            Some(i) => {
                proof {
                    lemma_table_at(self.workspace_to_ids@, i as int);
                }
                self.workspace_to_ids[i].ids.clone()
            },
            None => Vec::new(),
        }
    }
}

/// Removing a key from a map and putting it back with a value is putting
/// that value in the map it started from.
proof fn lemma_table_take_insert<V>(m: Map<u128, V>, k: u128)
    ensures
        forall|v: V| #[trigger] m.remove(k).insert(k, v) == m.insert(k, v),
{
    assert forall|v: V| #[trigger] m.remove(k).insert(k, v) == m.insert(k, v) by {
        assert(m.remove(k).insert(k, v) =~= m.insert(k, v));
    }
}

/// The check on a memory the archive is asked to add.
pub fn check_add(memory: &MemoryEntry) -> (r: Result<(), MemoryError>)
    ensures
        r is Ok <==> memory.status == MemoryStatus::Zombie,
        r matches Err(e) ==> e matches MemoryError::InvalidOperation(m) && m@
            == "Zombie storage only accepts Zombie memories"@,
{
    if memory.status != MemoryStatus::Zombie {
        return Err(MemoryError::InvalidOperation("Zombie storage only accepts Zombie memories".to_string()));
    }
    Ok(())
}

/// The checks on a memory the archive is asked to update: it must be a
/// Zombie memory, and one the archive holds.
pub fn check_update(memory: &MemoryEntry, indexed: bool) -> (r: Result<(), MemoryError>)
    ensures
        memory.status != MemoryStatus::Zombie ==> (r matches Err(e) && e matches MemoryError::InvalidOperation(m)
            && m@ == "Zombie storage only holds Zombie memories"@),
        memory.status == MemoryStatus::Zombie && !indexed ==> (r matches Err(e) && e matches MemoryError::NotFound(
            m,
        ) && m@ == uuid_text(memory.id)),
        r is Ok <==> (memory.status == MemoryStatus::Zombie && indexed),
{
    if memory.status != MemoryStatus::Zombie {
        return Err(MemoryError::InvalidOperation("Zombie storage only holds Zombie memories".to_string()));
    }
    if !indexed {
        return Err(MemoryError::NotFound(uuid_string(memory.id)));
    }
    Ok(())
}

/// The failure text of a batch member that is not a Zombie memory.
pub fn not_zombie_text(id: MemoryId) -> (r: String)
    ensures
        r@ == "Memory "@ + uuid_text(id) + " is not Zombie"@,
{
    let t = uuid_string(id);
    join3("Memory ", t.as_str(), " is not Zombie")
}

/// The failure text of a batch deletion of a memory the archive does not
/// hold.
pub fn not_found_text(id: MemoryId) -> (r: String)
    ensures
        r@ == "Memory "@ + uuid_text(id) + " not found"@,
{
    let t = uuid_string(id);
    join3("Memory ", t.as_str(), " not found")
}

/// An archived memory passes a listing's filters: the query's status, one
/// of its tags, and its text in the memory's plain text ignoring case.
pub open spec fn archived_passes(m: EntryView, q: QueryView) -> bool {
    &&& (q.status matches Some(s) ==> m.status == s)
    &&& (q.tags matches Some(t) ==> any_tag_matches(m.metadata.tags, t))
    &&& (q.text matches Some(t) ==> text_matches(m, t))
}

/// The results of the archived memories that pass the filters, in order.
pub open spec fn archived_results(ms: Seq<EntryView>, q: QueryView) -> Seq<SearchResultView>
    decreases ms.len(),
{
    if ms.len() == 0 {
        Seq::empty()
    } else {
        let prev = archived_results(ms.drop_last(), q);
        if archived_passes(ms.last(), q) {
            prev.push(SearchResultView { memory: ms.last(), score: F32_ONE, highlights: Seq::empty() })
        } else {
            prev
        }
    }
}

/// The results of the archived memories a listing read that pass its
/// filters, each with score 1.0 and no highlights, in the order read.
pub fn filter_archived(memories: Vec<MemoryEntry>, query: &SearchQuery) -> (r: Vec<SearchResult>)
    ensures
        r@.map_values(|x: SearchResult| x@) == archived_results(
            memories@.map_values(|e: MemoryEntry| e@),
            query@,
        ),
{
    let ghost mv = memories@.map_values(|e: MemoryEntry| e@);
    let mut out: Vec<SearchResult> = Vec::new();
    let mut input = memories;
    let n = input.len();
    let mut i: usize = 0;
    while input.len() > 0
        invariant
            mv.len() == n,
            i + input@.len() == n,
            input@.map_values(|e: MemoryEntry| e@) == mv.skip(i as int),
            out@.map_values(|x: SearchResult| x@) == archived_results(mv.take(i as int), query@),
        decreases input.len(),
    {
        let ghost before = input@;
        let m = input.remove(0);
        proof {
            assert(before.map_values(|e: MemoryEntry| e@)[0] == m@);
            assert(mv.take(i + 1).drop_last() =~= mv.take(i as int));
            assert(mv.take(i + 1).last() == m@);
            assert forall|k: int| 0 <= k < input@.len() implies #[trigger] input@[k]@ == mv.skip(i + 1)[k] by {
                assert(input@[k] == before[k + 1]);
                assert(before.map_values(|e: MemoryEntry| e@)[k + 1] == mv.skip(i as int)[k + 1]);
            }
            assert(input@.map_values(|e: MemoryEntry| e@) =~= mv.skip(i + 1));
        }
        let status_ok = match query.status {
            Some(s) => m.status == s,
            None => true,
        };
        let tags_ok = match &query.tags {
            Some(t) => tags_match(&m.metadata.tags, t),
            None => true,
        };
        let text_ok = match &query.text {
            Some(t) => text_matches_entry(&m, t.as_str()),
            None => true,
        };
        let ghost prev = out@.map_values(|x: SearchResult| x@);
        if status_ok && tags_ok && text_ok {
            let sr = SearchResult { memory: m, score: F32_ONE, highlights: Vec::new() };
            assert(sr@.highlights =~= Seq::<Seq<char>>::empty());
            out.push(sr);
            assert(out@.map_values(|x: SearchResult| x@) =~= prev.push(sr@));
        } else {
            assert(out@.map_values(|x: SearchResult| x@) =~= prev);
        }
        i = i + 1;
    }
    proof {
        assert(mv.take(n as int) =~= mv);
    }
    out
}

/// An archive listing keeps exactly the archived memories that match the
/// query: every result is one of the memories read, has the query's status,
/// carries one of its tags and contains its text ignoring case (plain text
/// only); and every memory read that matches all three is among the results.
pub proof fn lemma_archive_listing_matches_query(ms: Seq<EntryView>, q: QueryView)
    ensures
        forall|k: int|
            0 <= k < archived_results(ms, q).len() ==> {
                let m = #[trigger] archived_results(ms, q)[k].memory;
                &&& ms.contains(m)
                &&& (q.status matches Some(st) ==> m.status == st)
                &&& (q.tags matches Some(t) ==> any_tag_matches(m.metadata.tags, t))
                &&& (q.text matches Some(t) ==> text_matches(m, t))
            },
        forall|i: int|
            0 <= i < ms.len() && (q.status matches Some(st) ==> ms[i].status == st) && (
            q.tags matches Some(t) ==> any_tag_matches(ms[i].metadata.tags, t)) && (q.text matches Some(
                t,
            ) ==> text_matches(ms[i], t)) ==> exists|k: int|
                0 <= k < archived_results(ms, q).len() && #[trigger] archived_results(ms, q)[k].memory
                    == #[trigger] ms[i],
    decreases ms.len(),
{
    if ms.len() > 0 {
        let init = ms.drop_last();
        lemma_archive_listing_matches_query(init, q);
        let prev = archived_results(init, q);
        let cur = archived_results(ms, q);
        assert forall|k: int| 0 <= k < cur.len() implies ms.contains(#[trigger] cur[k].memory) by {
            if k < prev.len() {
                assert(cur[k] == prev[k]);
                let m = prev[k].memory;
                let j = choose|j: int| 0 <= j < init.len() && init[j] == m;
                assert(ms[j] == m);
            } else {
                assert(cur[k].memory == ms[ms.len() - 1]);
            }
        }
        assert forall|i: int|
            0 <= i < ms.len() && (q.status matches Some(st) ==> ms[i].status == st) && (
            q.tags matches Some(t) ==> any_tag_matches(ms[i].metadata.tags, t)) && (q.text matches Some(
                t,
            ) ==> text_matches(ms[i], t)) implies exists|k: int|
            0 <= k < cur.len() && #[trigger] cur[k].memory == #[trigger] ms[i] by {
            if i < init.len() {
                assert(init[i] == ms[i]);
                let k = choose|k: int| 0 <= k < prev.len() && #[trigger] prev[k].memory == init[i];
                assert(cur[k] == prev[k]);
            } else {
                assert(archived_passes(ms.last(), q));
                assert(cur[cur.len() - 1].memory == ms[i]);
            }
        }
    }
}

/// A filed memory's path is the one it was filed under; filing a memory
/// and then forgetting it leaves no path for it and no occurrence of it in
/// its workspace's list, and every other memory's path is as it was.
pub proof fn lemma_index_then_unindex(v: ZombieIndexView, id: MemoryId, ws: WorkspaceId, path: Seq<char>, other: MemoryId)
    requires
        other != id,
    ensures
        filed_spec(v, id, ws, path).paths.contains_key(id),
        filed_spec(v, id, ws, path).paths[id].1 == path,
        !unfiled_spec(filed_spec(v, id, ws, path), id, ws).paths.contains_key(id),
        !unfiled_spec(filed_spec(v, id, ws, path), id, ws).workspaces[ws].contains(id),
        unfiled_spec(filed_spec(v, id, ws, path), id, ws).paths.contains_key(other) == v.paths.contains_key(other),
        v.paths.contains_key(other) ==> unfiled_spec(filed_spec(v, id, ws, path), id, ws).paths[other]
            == v.paths[other],
{
    let s = (if v.workspaces.contains_key(ws) {
        v.workspaces[ws]
    } else {
        Seq::empty()
    }).push(id);
    if without(s, id).contains(id) {
        let k = choose|k: int| 0 <= k < without(s, id).len() && without(s, id)[k] == id;
        s.lemma_filter_pred(|x: MemoryId| x != id, k);
    }
}

} // verus!
