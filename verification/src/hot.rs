//! Hot storage: the in-memory tier that holds Active memories, bounded in
//! size by evicting the least recently used entries.

use vstd::prelude::*;
use crate::entry_table::{
    Keyed,
    find_index, has_id, index_of_id, lemma_table_at, lemma_table_empty, lemma_table_len,
    lemma_table_push, lemma_table_remove, lemma_table_set, table_map, unique_ids,
};
use crate::error::{ErrorKind, MemoryError, memory_error_parts};
use crate::floats::F32_ONE;
use crate::query::{
    WorkspaceScope, entry_matches_query, is_newest_first, matches_query, results_view,
    sort_by_created_desc, sort_newest_first, lemma_sort_newest_first,
};
use crate::text::{join2, join3, uuid_string, uuid_text};
use crate::types::{
    BatchResult, EntryView, MemoryEntry, MemoryId, MemoryStatus, SearchQuery, SearchResult,
    SearchResultView, Timestamp, WorkspaceId, accessed_spec,
};

verus! {

/// The instant an entry was last used: its last access, or its creation.
pub open spec fn recency(e: EntryView) -> Timestamp {
    match e.last_accessed {
        Some(t) => t,
        None => e.created_at,
    }
}

/// The size a table of `n` entries shrinks to before an insertion when it
/// may hold at most `max` entries: below `max`, or empty when `max` is 0.
pub open spec fn evicted_len(n: nat, max: nat) -> nat {
    if n < max {
        n
    } else if max == 0 {
        0
    } else {
        (max - 1) as nat
    }
}

/// `after` is `before` with its least recently used entries removed down to
/// `evicted_len`: it keeps a part of `before`, and no removed entry was used
/// later than a kept one.
pub open spec fn evicted(before: Map<MemoryId, EntryView>, after: Map<MemoryId, EntryView>, max: nat) -> bool {
    &&& after.submap_of(before)
    &&& after.len() == evicted_len(before.len(), max)
    &&& forall|a: MemoryId, b: MemoryId|
        before.contains_key(a) && !after.contains_key(a) && after.contains_key(b) ==> recency(
            before[a],
        ) <= recency(after[b])
}

/// Every memory of the map is Active.
pub open spec fn all_active(m: Map<MemoryId, EntryView>) -> bool {
    forall|id: MemoryId| m.contains_key(id) ==> (#[trigger] m[id]).status == MemoryStatus::Active
}

/// Hot storage: Active memories in memory, at most `max_entries` of them
/// before an insertion.
pub struct HotStorage {
    entries: Vec<MemoryEntry>,
    max_entries: usize,
}

impl HotStorage {
    /// The storage is well formed: no identifier is stored twice, and
    /// every stored memory is Active.
    pub closed spec fn wf(&self) -> bool {
        unique_ids(self.entries@) && all_active(self@)
    }

    /// The maximum number of entries kept before an insertion.
    pub closed spec fn max(&self) -> usize {
        self.max_entries
    }

    /// The maximum number of entries kept before an insertion.
    pub fn max_entries(&self) -> (r: usize)
        requires
            self.wf(),
        ensures
            r == self.max(),
    {
        self.max_entries
    }

    /// The stored memories by identifier.
    pub closed spec fn view(&self) -> Map<MemoryId, EntryView> {
        table_map(self.entries@)
    }

    /// Empty storage that holds at most `max_entries` entries.
    pub fn new(max_entries: usize) -> (r: Self)
        ensures
            r.wf(),
            r@ == Map::<MemoryId, EntryView>::empty(),
            r.max() == max_entries,
    {
        proof {
            lemma_table_empty(Seq::<MemoryEntry>::empty());
        }
        HotStorage { entries: Vec::new(), max_entries }
    }

    /// Empty storage with room reserved for `capacity` entries.
    pub fn with_capacity(capacity: usize, max_entries: usize) -> (r: Self)
        ensures
            r.wf(),
            r@ == Map::<MemoryId, EntryView>::empty(),
            r.max() == max_entries,
    {
        let entries: Vec<MemoryEntry> = Vec::with_capacity(capacity);
        proof {
            lemma_table_empty(entries@);
        }
        HotStorage { entries, max_entries }
    }

    /// Whether a memory is in hot storage.
    pub fn contains(&self, id: MemoryId) -> (r: bool)
        requires
            self.wf(),
        ensures
            r == self@.contains_key(id),
    {
        find_index(&self.entries, id).is_some()
    }

    /// The number of memories in hot storage.
    pub fn len(&self) -> (r: usize)
        requires
            self.wf(),
        ensures
            r == self@.len(),
    {
        proof {
            lemma_table_len(self.entries@);
        }
        self.entries.len()
    }

    /// Whether hot storage holds no memory.
    pub fn is_empty(&self) -> (r: bool)
        requires
            self.wf(),
        ensures
            r == (self@.len() == 0),
    {
        self.len() == 0
    }

    /// The identifiers of the memories in hot storage, each once.
    pub fn ids(&self) -> (r: Vec<MemoryId>)
        requires
            self.wf(),
        ensures
            r@.to_set() == self@.dom(),
            r@.no_duplicates(),
    {
        let mut out: Vec<MemoryId> = Vec::new();
        let mut i: usize = 0;
        while i < self.entries.len()
            invariant
                unique_ids(self.entries@),
                i <= self.entries@.len(),
                out@.len() == i,
                forall|j: int| 0 <= j < i ==> out@[j] == self.entries@[j].id,
            decreases self.entries.len() - i,
        {
            out.push(self.entries[i].id);
            i = i + 1;
        }
        proof {
            assert forall|id: MemoryId| out@.to_set().contains(id) == self@.dom().contains(id) by {
                if out@.contains(id) {
                    let j = choose|j: int| 0 <= j < out@.len() && out@[j] == id;
                    assert(self.entries@[j].key() == id);
                }
                if has_id(self.entries@, id) {
                    let j = index_of_id(self.entries@, id);
                    assert(out@[j] == id);
                }
            }
            assert(out@.to_set() =~= self@.dom());
        }
        out
    }

    /// The position of a least recently used entry, when there is one.
    fn least_recent_index(&self) -> (r: Option<usize>)
        requires
            self.wf(),
        ensures
            r is None <==> self.entries@.len() == 0,
            r matches Some(i) ==> i < self.entries@.len() && forall|j: int|
                0 <= j < self.entries@.len() ==> recency(self.entries@[i as int]@) <= recency(
                    #[trigger] self.entries@[j]@,
                ),
    {
        if self.entries.len() == 0 {
            return None;
        }
        let mut best: usize = 0;
        let mut i: usize = 1;
        while i < self.entries.len()
            invariant
                1 <= i <= self.entries@.len(),
                best < i,
                forall|j: int| 0 <= j < i ==> recency(self.entries@[best as int]@) <= recency(
                    #[trigger] self.entries@[j]@,
                ),
            decreases self.entries.len() - i,
        {
            let e = &self.entries[i];
            let b = &self.entries[best];
            let ke = match e.last_accessed {
                Some(t) => t,
                None => e.created_at,
            };
            let kb = match b.last_accessed {
                Some(t) => t,
                None => b.created_at,
            };
            if ke < kb {
                best = i;
            }
            i = i + 1;
        }
        Some(best)
    }

    /// Removes least recently used entries until fewer than `max_entries`
    /// remain (or none, when `max_entries` is 0).
    fn evict_if_needed(&mut self)
        requires
            old(self).wf(),
        ensures
            final(self).wf(),
            evicted(old(self)@, final(self)@, old(self).max() as nat),
            final(self).max() == old(self).max(),
    {
        proof {
            lemma_table_len(self.entries@);
        }
        let ghost start = self@;
        while self.entries.len() >= self.max_entries
            invariant
                unique_ids(self.entries@),
                all_active(self@),
                self.max_entries == old(self).max_entries,
                self@.submap_of(start),
                self@.len() == self.entries@.len(),
                self@.len() <= start.len(),
                start.len() >= self.max_entries ==> (self.max_entries == 0 || self@.len() >= (self.max_entries - 1) as nat),
                start.len() < self.max_entries ==> self@ == start,
                forall|a: MemoryId, b: MemoryId|
                    start.contains_key(a) && !self@.contains_key(a) && self@.contains_key(b)
                        ==> recency(start[a]) <= recency(self@[b]),
            ensures
                self.entries@.len() < self.max_entries || self.entries@.len() == 0,
            decreases self.entries@.len(),
        {
            match self.least_recent_index() {
                Some(i) => {
                    let ghost before = self@;
                    let ghost bs = self.entries@;
                    let ghost victim = bs[i as int].id;
                    proof {
                        lemma_table_remove(bs, i as int);
                        lemma_table_at(bs, i as int);
                        assert forall|b: MemoryId| before.contains_key(b) implies recency(before[victim])
                            <= recency(before[b]) by {
                            let k = index_of_id(bs, b);
                            lemma_table_at(bs, k);
                        }
                    }
                    self.entries.remove(i);
                    proof {
                        lemma_table_len(self.entries@);
                        assert forall|a: MemoryId, b: MemoryId|
                            start.contains_key(a) && !self@.contains_key(a) && self@.contains_key(b)
                                implies recency(start[a]) <= recency(self@[b]) by {
                            if before.contains_key(a) {
                                assert(a == victim);
                                assert(recency(before[victim]) <= recency(before[b]));
                            }
                        }
                    }
                },
                None => {
                    break;
                },
            }
        }
        proof {
            lemma_table_len(self.entries@);
        }
    }

    /// Loads entries into hot storage without eviction; entries that are not
    /// Active are skipped, and an entry replaces a stored one with its
    /// identifier.
    pub fn load_batch(&mut self, entries: Vec<MemoryEntry>)
        requires
            old(self).wf(),
        ensures
            final(self).wf(),
            final(self)@ == load_active_spec(old(self)@, entries@),
            final(self).max() == old(self).max(),
    {
        let mut input = entries;
        let ghost all = input@;
        let mut done: usize = 0;
        let total = input.len();
        while input.len() > 0
            invariant
                total == all.len(),
                done + input@.len() == all.len(),
                input@ == all.skip(done as int),
                self@ == load_active_spec(old(self)@, all.take(done as int)),
                self.wf(),
                self.max() == old(self).max(),
            decreases input@.len(),
        {
            let e = input.remove(0);
            assert(e == all[done as int]);
            if e.status == MemoryStatus::Active {
                self.put(e);
            }
            proof {
                assert(all.take(done as int + 1).drop_last() =~= all.take(done as int));
            }
            done = done + 1;
            assert(input@ =~= all.skip(done as int));
        }
        assert(all.take(done as int) =~= all);
    }

    /// Stores an Active entry, replacing the one with the same identifier.
    fn put(&mut self, e: MemoryEntry)
        requires
            old(self).wf(),
            e.status == MemoryStatus::Active,
        ensures
            final(self).wf(),
            final(self)@ == old(self)@.insert(e.id, e@),
            final(self).max() == old(self).max(),
    {
        match find_index(&self.entries, e.id) {
            Some(i) => {
                proof {
                    lemma_table_set(self.entries@, i as int, e);
                }
                self.entries.set(i, e);
            },
            None => {
                proof {
                    lemma_table_push(self.entries@, e);
                }
                self.entries.push(e);
            },
        }
    }

    /// Removes a memory from hot storage, returning it if it was there.
    pub fn remove(&mut self, id: MemoryId) -> (r: Option<MemoryEntry>)
        requires
            old(self).wf(),
        ensures
            final(self).wf(),
            final(self)@ == old(self)@.remove(id),
            final(self).max() == old(self).max(),
            r is Some <==> old(self)@.contains_key(id),
            r matches Some(e) ==> e@ == old(self)@[id],
    {
        match find_index(&self.entries, id) {
            Some(i) => {
                proof {
                    lemma_table_remove(self.entries@, i as int);
                    lemma_table_at(self.entries@, i as int);
                }
                let e = self.entries.remove(i);
                Some(e)
            },
            None => {
                assert(self@.remove(id) =~= self@);
                None
            },
        }
    }

    /// Adds an Active memory, first evicting least recently used entries
    /// down to below `max_entries`. A memory that is not Active is refused
    /// and nothing changes.
    pub fn add(&mut self, memory: MemoryEntry) -> (r: Result<MemoryId, MemoryError>)
        requires
            old(self).wf(),
        ensures
            final(self).wf(),
            final(self).max() == old(self).max(),
            memory.status != MemoryStatus::Active ==> r is Err && final(self)@ == old(self)@
                && memory_error_parts(r->Err_0) == Some(
                (ErrorKind::InvalidOperation, "Hot storage only accepts Active memories"@),
            ),
            memory.status == MemoryStatus::Active ==> r == Ok::<MemoryId, MemoryError>(memory.id)
                && exists|kept: Map<MemoryId, EntryView>|
                evicted(old(self)@, kept, old(self).max() as nat) && final(self)@
                    == kept.insert(memory.id, memory@),
    {
        if memory.status != MemoryStatus::Active {
            return Err(
                MemoryError::InvalidOperation("Hot storage only accepts Active memories".to_string()),
            );
        }
        self.evict_if_needed();
        let ghost kept = self@;
        let id = memory.id;
        self.put(memory);
        Ok(id)
    }

    /// The access count of a stored memory.
    pub fn access_count(&self, id: MemoryId) -> (r: Option<u64>)
        requires
            self.wf(),
        ensures
            r is Some <==> self@.contains_key(id),
            r matches Some(n) ==> n == self@[id].access_count,
    {
        match find_index(&self.entries, id) {
            Some(i) => {
                proof {
                    lemma_table_at(self.entries@, i as int);
                }
                Some(self.entries[i].access_count)
            },
            None => None,
        }
    }

    /// Reads a memory and counts one access to it, made at `now`.
    pub fn get(&mut self, id: MemoryId, now: Timestamp) -> (r: Result<MemoryEntry, MemoryError>)
        requires
            old(self).wf(),
            old(self)@.contains_key(id) ==> old(self)@[id].access_count < u64::MAX,
        ensures
            final(self).wf(),
            final(self).max() == old(self).max(),
            !old(self)@.contains_key(id) ==> final(self)@ == old(self)@ && r is Err
                && memory_error_parts(r->Err_0) == Some((ErrorKind::NotFound, uuid_text(id))),
            old(self)@.contains_key(id) ==> r is Ok && r->Ok_0@ == accessed_spec(old(self)@[id], now)
                && final(self)@ == old(self)@.insert(id, accessed_spec(old(self)@[id], now)),
    {
        match find_index(&self.entries, id) {
            Some(i) => {
                proof {
                    lemma_table_at(self.entries@, i as int);
                }
                let mut e = self.entries[i].clone();
                e.increment_access(now);
                let out = e.clone();
                proof {
                    lemma_table_set(self.entries@, i as int, e);
                }
                self.entries.set(i, e);
                Ok(out)
            },
            None => Err(MemoryError::NotFound(uuid_string(id))),
        }
    }

    /// Replaces a stored Active memory. A memory that is not Active is
    /// refused; one that is not stored is not found.
    pub fn update(&mut self, memory: MemoryEntry) -> (r: Result<(), MemoryError>)
        requires
            old(self).wf(),
        ensures
            final(self).wf(),
            final(self).max() == old(self).max(),
            memory.status != MemoryStatus::Active ==> r is Err && final(self)@ == old(self)@
                && memory_error_parts(r->Err_0) == Some(
                (ErrorKind::InvalidOperation, "Hot storage only holds Active memories"@),
            ),
            memory.status == MemoryStatus::Active && !old(self)@.contains_key(memory.id) ==> r is Err
                && final(self)@ == old(self)@ && memory_error_parts(r->Err_0) == Some(
                (ErrorKind::NotFound, uuid_text(memory.id)),
            ),
            memory.status == MemoryStatus::Active && old(self)@.contains_key(memory.id) ==> r is Ok
                && final(self)@ == old(self)@.insert(memory.id, memory@),
    {
        if memory.status != MemoryStatus::Active {
            return Err(
                MemoryError::InvalidOperation("Hot storage only holds Active memories".to_string()),
            );
        }
        if self.contains(memory.id) {
            self.put(memory);
            Ok(())
        } else {
            Err(MemoryError::NotFound(uuid_string(memory.id)))
        }
    }

    /// Deletes a memory; one that is not stored is not found.
    pub fn delete(&mut self, id: MemoryId) -> (r: Result<(), MemoryError>)
        requires
            old(self).wf(),
        ensures
            final(self).wf(),
            final(self).max() == old(self).max(),
            final(self)@ == old(self)@.remove(id),
            r is Ok <==> old(self)@.contains_key(id),
            r is Err ==> memory_error_parts(r->Err_0) == Some((ErrorKind::NotFound, uuid_text(id))),
    {
        match self.remove(id) {
            Some(_) => Ok(()),
            None => Err(MemoryError::NotFound(uuid_string(id))),
        }
    }

    /// The stored memories of a workspace (every workspace for the nil
    /// identifier) that pass the query's status, tag and text filters, each
    /// with score 1.0 and no highlights, newest first. Every match is
    /// returned: the query's offset and limit do not cut the list.
    pub fn list(&self, workspace_id: WorkspaceId, query: &SearchQuery) -> (r: Vec<SearchResult>)
        requires
            self.wf(),
        ensures
            is_newest_first(results_view(r@)),
            results_view(r@).no_duplicates(),
            results_view(r@).to_set() == listed_set(self@, workspace_id, query@),
    {
        let mut found: Vec<SearchResult> = Vec::new();
        let mut i: usize = 0;
        while i < self.entries.len()
            invariant
                unique_ids(self.entries@),
                i <= self.entries@.len(),
                results_view(found@) == matching_prefix(self.entries@, i as int, workspace_id, query@),
                forall|k: int| 0 <= k < found@.len() ==> (#[trigger] found@[k]).score == F32_ONE
                    && found@[k].highlights@.len() == 0,
            decreases self.entries.len() - i,
        {
            let e = &self.entries[i];
            let ghost prev = results_view(found@);
            if entry_matches_query(e, workspace_id, WorkspaceScope::NilMeansAll, query) {
                let sr = SearchResult { memory: e.clone(), score: F32_ONE, highlights: Vec::new() };
                assert(sr@.highlights =~= Seq::<Seq<char>>::empty());
                assert(sr@ == hot_result(self.entries@[i as int]@));
                found.push(sr);
                assert(results_view(found@) =~= prev.push(sr@));
            } else {
                assert(results_view(found@) =~= prev);
            }
            assert(results_view(found@) == matching_prefix(self.entries@, i as int + 1, workspace_id, query@));
            i = i + 1;
        }
        let ghost unsorted = results_view(found@);
        let sorted = sort_by_created_desc(found);
        proof {
            let n = self.entries@.len() as int;
            assert(i == n);
            lemma_sort_newest_first(unsorted);
            lemma_matching_prefix(self.entries@, n, workspace_id, query@);
            let sv = results_view(sorted@);
            assert(sv == sort_newest_first(unsorted));
            unsorted.lemma_multiset_has_no_duplicates();
            assert forall|x: SearchResultView| sv.to_multiset().contains(x) implies sv.to_multiset().count(x) == 1 by {
                assert(unsorted.to_multiset().contains(x));
            }
            sv.lemma_multiset_has_no_duplicates_conv();
            assert forall|x: SearchResultView| sv.to_set().contains(x) == listed_set(self@, workspace_id, query@).contains(x) by {
                broadcast use vstd::seq_lib::group_to_multiset_ensures;
                assert(sv.contains(x) == sv.to_multiset().contains(x));
                assert(unsorted.contains(x) == unsorted.to_multiset().contains(x));
                if unsorted.contains(x) {
                    let k = choose|k: int| 0 <= k < n && matches_query(self.entries@[k]@, workspace_id, WorkspaceScope::NilMeansAll, query@) && x == hot_result(self.entries@[k]@);
                    lemma_table_at(self.entries@, k);
                }
                if listed_set(self@, workspace_id, query@).contains(x) {
                    let k = index_of_id(self.entries@, x.memory.id);
                    lemma_table_at(self.entries@, k);
                }
            }
            assert(sv.to_set() =~= listed_set(self@, workspace_id, query@));
        }
        sorted
    }

    /// Adds each memory in turn as `add` does, recording a failure for each
    /// memory that is not Active and for each whose identifier was still
    /// stored once eviction had run (the entry is then replaced), and a
    /// success for the others.
    pub fn batch_add(&mut self, memories: Vec<MemoryEntry>) -> (r: BatchResult)
        requires
            old(self).wf(),
            memories@.len() <= u32::MAX,
        ensures
            final(self).wf(),
            final(self).max() == old(self).max(),
            r.success_count + r.failure_count == memories@.len(),
            r.errors@.len() == r.failure_count,
            exists|maps: Seq<Map<MemoryId, EntryView>>, fresh: Seq<bool>|
                #[trigger] batch_run(old(self)@, memories@, old(self).max() as nat, maps, fresh)
                    && final(self)@ == maps.last()
                    && strings_of(r.errors@) == batch_failures(memories@, fresh),
    {
        let mut result = BatchResult::new();
        let mut input = memories;
        let ghost all = input@;
        let ghost max = old(self).max() as nat;
        let ghost mut maps: Seq<Map<MemoryId, EntryView>> = seq![self@];
        let ghost mut fresh: Seq<bool> = Seq::empty();
        let mut done: usize = 0;
        let total = input.len();
        proof {
            assert(all.take(0) =~= Seq::<MemoryEntry>::empty());
            assert(strings_of(result.errors@) =~= Seq::<Seq<char>>::empty());
            assert(batch_run(old(self)@, all.take(0), max, maps, fresh));
        }
        while input.len() > 0
            invariant
                total == all.len(),
                total <= u32::MAX,
                done + input@.len() == all.len(),
                input@ == all.skip(done as int),
                self.max() == old(self).max(),
                max == old(self).max() as nat,
                result.success_count + result.failure_count == done,
                result.errors@.len() == result.failure_count,
                self.wf(),
                batch_run(old(self)@, all.take(done as int), max, maps, fresh),
                self@ == maps.last(),
                strings_of(result.errors@) == batch_failures(all.take(done as int), fresh),
            decreases input@.len(),
        {
            let memory = input.remove(0);
            assert(memory == all[done as int]);
            let ghost before = self@;
            let ghost errs = result.errors@;
            let ghost f: bool;
            let id = memory.id;
            if memory.status != MemoryStatus::Active {
                let sid = uuid_string(id);
                result.add_failure(join3("Memory ", sid.as_str(), " is not Active"));
                proof {
                    f = false;
                    assert(batch_step(before, self@, all[done as int], max, f));
                }
            } else {
                self.evict_if_needed();
                let is_new = !self.contains(id);
                let ghost mid = self@;
                self.put(memory);
                proof {
                    f = is_new;
                    assert(evicted(before, mid, max));
                    assert(batch_step(before, self@, all[done as int], max, f));
                }
                if is_new {
                    result.add_success();
                } else {
                    let sid = uuid_string(id);
                    result.add_failure(join2("Failed to add memory ", sid.as_str()));
                }
            }
            proof {
                let prev_maps = maps;
                let prev_fresh = fresh;
                let prev_batch = all.take(done as int);
                let next_batch = all.take(done as int + 1);
                maps = maps.push(self@);
                fresh = fresh.push(f);
                assert(next_batch.drop_last() =~= prev_batch);
                assert(fresh.take(done as int) =~= prev_fresh);
                assert forall|j: int| 0 <= j < next_batch.len() implies #[trigger] batch_step(
                    maps[j],
                    maps[j + 1],
                    next_batch[j],
                    max,
                    fresh[j],
                ) by {
                    if j < done {
                        assert(maps[j] == prev_maps[j]);
                        assert(maps[j + 1] == prev_maps[j + 1]);
                        assert(next_batch[j] == prev_batch[j]);
                        assert(fresh[j] == prev_fresh[j]);
                    } else {
                        assert(maps[j] == before);
                        assert(next_batch[j] == all[done as int]);
                    }
                }
                assert(batch_run(old(self)@, next_batch, max, maps, fresh));
                assert(strings_of(result.errors@) =~= batch_failures(next_batch, fresh));
            }
            done = done + 1;
            assert(input@ =~= all.skip(done as int));
        }
        assert(all.take(done as int) =~= all);
        result
    }

    /// Deletes each identifier in turn, recording a success for each that
    /// was stored and a failure for each that was not.
    pub fn batch_delete(&mut self, ids: Vec<MemoryId>) -> (r: BatchResult)
        requires
            old(self).wf(),
            ids@.len() <= u32::MAX,
        ensures
            final(self).wf(),
            final(self).max() == old(self).max(),
            final(self)@ == old(self)@.remove_keys(ids@.to_set()),
            r.success_count + r.failure_count == ids@.len(),
            r.errors@.len() == r.failure_count,
            r.success_count == count_present(old(self)@.dom(), ids@),
    {
        let mut result = BatchResult::new();
        let mut i: usize = 0;
        while i < ids.len()
            invariant
                ids@.len() <= u32::MAX,
                i <= ids@.len(),
                self.max() == old(self).max(),
                self@ == old(self)@.remove_keys(ids@.take(i as int).to_set()),
                result.success_count + result.failure_count == i,
                result.errors@.len() == result.failure_count,
                result.success_count == count_present(old(self)@.dom(), ids@.take(i as int)),
                self.wf(),
            decreases ids.len() - i,
        {
            let id = ids[i];
            let ghost before = self@;
            let ghost seen = ids@.take(i as int);
            let removed = self.remove(id);
            proof {
                let next = ids@.take(i as int + 1);
                assert(next =~= seen.push(id));
                assert forall|x: MemoryId| next.contains(x) <==> (seen.contains(x) || x == id) by {
                    if next.contains(x) {
                        let j = choose|j: int| 0 <= j < next.len() && next[j] == x;
                        if j < seen.len() {
                            assert(seen[j] == x);
                        }
                    }
                    if seen.contains(x) {
                        let j = choose|j: int| 0 <= j < seen.len() && seen[j] == x;
                        assert(next[j] == x);
                    }
                    if x == id {
                        assert(next[seen.len() as int] == x);
                    }
                }
                assert(next.to_set() =~= seen.to_set().insert(id));
                assert(self@ =~= old(self)@.remove_keys(next.to_set()));
                lemma_count_present_push(old(self)@.dom(), seen, id);
                assert(before.contains_key(id) == (old(self)@.dom().contains(id) && !seen.to_set().contains(id)));
            }
            match removed {
                Some(_) => result.add_success(),
                None => {
                    let sid = uuid_string(id);
                    result.add_failure(join3("Memory ", sid.as_str(), " not found"));
                },
            }
            i = i + 1;
        }
        assert(ids@.take(i as int) =~= ids@);
        result
    }
}

/// The table after loading the Active entries of a batch in order.
pub open spec fn load_active_spec(m: Map<MemoryId, EntryView>, batch: Seq<MemoryEntry>) -> Map<
    MemoryId,
    EntryView,
>
    decreases batch.len(),
{
    if batch.len() == 0 {
        m
    } else {
        let before = load_active_spec(m, batch.drop_last());
        let e = batch.last();
        if e.status == MemoryStatus::Active {
            before.insert(e.id, e@)
        } else {
            before
        }
    }
}

/// The results a listing finds, in table order, before sorting.
pub open spec fn matching_prefix(
    s: Seq<MemoryEntry>,
    n: int,
    ws: WorkspaceId,
    q: crate::types::QueryView,
) -> Seq<SearchResultView>
    decreases n,
{
    if n <= 0 || n > s.len() {
        Seq::empty()
    } else {
        let before = matching_prefix(s, n - 1, ws, q);
        if matches_query(s[n - 1]@, ws, WorkspaceScope::NilMeansAll, q) {
            before.push(
                SearchResultView { memory: s[n - 1]@, score: F32_ONE, highlights: Seq::empty() },
            )
        } else {
            before
        }
    }
}

/// The result a hot listing gives for a stored memory: score 1.0 and no
/// highlights.
pub open spec fn hot_result(e: EntryView) -> SearchResultView {
    SearchResultView { memory: e, score: F32_ONE, highlights: Seq::empty() }
}

/// The results a hot listing returns: one for each stored memory that
/// passes the filters.
pub open spec fn listed_set(m: Map<MemoryId, EntryView>, ws: WorkspaceId, q: crate::types::QueryView) -> Set<SearchResultView> {
    Set::new(
        |x: SearchResultView|
            m.contains_key(x.memory.id) && m[x.memory.id] == x.memory && x == hot_result(x.memory)
                && matches_query(x.memory, ws, WorkspaceScope::NilMeansAll, q),
    )
}

proof fn lemma_matching_prefix(s: Seq<MemoryEntry>, n: int, ws: WorkspaceId, q: crate::types::QueryView)
    requires
        unique_ids(s),
        0 <= n <= s.len(),
    ensures
        forall|x: SearchResultView| #[trigger] matching_prefix(s, n, ws, q).contains(x) <==> exists|k: int|
            0 <= k < n && matches_query(s[k]@, ws, WorkspaceScope::NilMeansAll, q) && x == hot_result(s[k]@),
        forall|x: SearchResultView| #[trigger] matching_prefix(s, n, ws, q).contains(x) ==> exists|k: int| 0 <= k < n && s[k].id == x.memory.id,
        matching_prefix(s, n, ws, q).no_duplicates(),
    decreases n,
{
    if n > 0 {
        lemma_matching_prefix(s, n - 1, ws, q);
        let before = matching_prefix(s, n - 1, ws, q);
        if matches_query(s[n - 1]@, ws, WorkspaceScope::NilMeansAll, q) {
            let y = hot_result(s[n - 1]@);
            let after = before.push(y);
            assert forall|x: SearchResultView| after.contains(x) <==> (before.contains(x) || x == y) by {
                if after.contains(x) {
                    let j = choose|j: int| 0 <= j < after.len() && after[j] == x;
                    if j < before.len() {
                        assert(before[j] == x);
                    }
                }
                if before.contains(x) {
                    let j = choose|j: int| 0 <= j < before.len() && before[j] == x;
                    assert(after[j] == x);
                }
                if x == y {
                    assert(after[before.len() as int] == x);
                }
            }
            assert(!before.contains(y)) by {
                if before.contains(y) {
                    let k = choose|k: int| 0 <= k < n - 1 && s[k].id == y.memory.id;
                    assert(s[k].id == s[n - 1].id);
                }
            }
        }
    }
}

/// The texts of a list of strings.
pub open spec fn strings_of(v: Seq<String>) -> Seq<Seq<char>> {
    v.map_values(|s: String| s@)
}

/// One step of a batch insertion: a memory that is not Active changes
/// nothing; an Active one is stored as `add` stores it, after an eviction
/// pass, and `fresh` says whether its identifier was absent once that pass
/// had run.
pub open spec fn batch_step(
    before: Map<MemoryId, EntryView>,
    after: Map<MemoryId, EntryView>,
    e: MemoryEntry,
    max: nat,
    fresh: bool,
) -> bool {
    if e.status != MemoryStatus::Active {
        after == before && !fresh
    } else {
        exists|kept: Map<MemoryId, EntryView>|
            #[trigger] evicted(before, kept, max) && after == kept.insert(e.id, e@) && fresh
                == !kept.contains_key(e.id)
    }
}

/// The states a batch insertion passes through: `maps[j]` before the
/// memory at position `j`, and `fresh[j]` for that memory.
pub open spec fn batch_run(
    start: Map<MemoryId, EntryView>,
    batch: Seq<MemoryEntry>,
    max: nat,
    maps: Seq<Map<MemoryId, EntryView>>,
    fresh: Seq<bool>,
) -> bool {
    &&& maps.len() == batch.len() + 1
    &&& fresh.len() == batch.len()
    &&& maps[0] == start
    &&& forall|j: int|
        0 <= j < batch.len() ==> #[trigger] batch_step(maps[j], maps[j + 1], batch[j], max, fresh[j])
}

/// The failure recorded for a memory of a batch insertion, if any.
pub open spec fn batch_add_failure(e: MemoryEntry, fresh: bool) -> Option<Seq<char>> {
    if e.status != MemoryStatus::Active {
        Some("Memory "@ + uuid_text(e.id) + " is not Active"@)
    } else if fresh {
        None
    } else {
        Some("Failed to add memory "@ + uuid_text(e.id))
    }
}

/// The failures of a batch insertion, in order.
pub open spec fn batch_failures(batch: Seq<MemoryEntry>, fresh: Seq<bool>) -> Seq<Seq<char>>
    decreases batch.len(),
{
    if batch.len() == 0 || fresh.len() < batch.len() {
        Seq::empty()
    } else {
        let prev = batch_failures(batch.drop_last(), fresh.take(batch.len() - 1));
        match batch_add_failure(batch.last(), fresh[batch.len() - 1]) {
            Some(t) => prev.push(t),
            None => prev,
        }
    }
}

/// How many identifiers of a list, counting each only on its first
/// occurrence, are in the set.
pub open spec fn count_present(d: Set<MemoryId>, ids: Seq<MemoryId>) -> nat
    decreases ids.len(),
{
    if ids.len() == 0 {
        0
    } else {
        let before = ids.drop_last();
        count_present(d, before) + if d.contains(ids.last()) && !before.contains(ids.last()) {
            1nat
        } else {
            0nat
        }
    }
}

proof fn lemma_count_present_push(d: Set<MemoryId>, s: Seq<MemoryId>, id: MemoryId)
    ensures
        count_present(d, s.push(id)) == count_present(d, s) + if d.contains(id) && !s.contains(id) {
            1nat
        } else {
            0nat
        },
{
    assert(s.push(id).drop_last() =~= s);
}

/// Hot storage holds only Active memories: every operation that stores a
/// memory refuses or skips the others, and reading one keeps its status.
pub proof fn lemma_holds_only_active(h: &HotStorage)
    requires
        h.wf(),
    ensures
        all_active(h@),
{
}

/// An insertion keeps hot storage within its bound: after the eviction
/// pass and the insertion it holds at most `max` memories (one, when the
/// bound is 0).
pub proof fn lemma_add_stays_bounded(
    before: Map<MemoryId, EntryView>,
    kept: Map<MemoryId, EntryView>,
    m: EntryView,
    max: nat,
)
    requires
        before.dom().finite(),
        evicted(before, kept, max),
    ensures
        kept.insert(m.id, m).len() <= if max == 0 {
            1
        } else {
            max
        },
{
    vstd::set_lib::lemma_len_subset(kept.dom(), before.dom());
    assert(kept.dom().subset_of(before.dom()));
    assert(kept.dom().finite());
    assert(kept.insert(m.id, m).dom() =~= kept.dom().insert(m.id));
}

/// A hot listing of `ws` holds exactly the stored memories of `ws` (of
/// every workspace when `ws` is nil) that have the query's status, carry one
/// of its tags and contain its text ignoring case, each as stored, with score
/// 1.0 and no highlights.
pub proof fn lemma_hot_listing_matches_query(m: Map<MemoryId, EntryView>, ws: WorkspaceId, q: crate::types::QueryView, x: SearchResultView)
    ensures
        listed_set(m, ws, q).contains(x) <==> {
            &&& m.contains_key(x.memory.id)
            &&& m[x.memory.id] == x.memory
            &&& x.score == F32_ONE
            &&& x.highlights == Seq::<Seq<char>>::empty()
            &&& (ws == 0 || x.memory.workspace_id == ws)
            &&& (q.status matches Some(st) ==> x.memory.status == st)
            &&& (q.tags matches Some(t) ==> crate::query::any_tag_matches(x.memory.metadata.tags, t))
            &&& (q.text matches Some(t) ==> crate::query::text_matches(x.memory, t))
        },
{
}

} // verus!
