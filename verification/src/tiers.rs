//! The decisions of the tiered store: which tier holds a memory of each
//! status, how a listing is split over the tiers and merged back, how batch
//! outcomes are combined, where a memory is found, which memories are due
//! to move on, and what a moved memory looks like.
//!
//! The hot tier is `crate::hot::HotStorage`; the cold (database) and
//! zombie (file) tiers are run by the caller, which follows the plans made
//! here and hands the outcomes back.

use vstd::prelude::*;
use crate::error::MemoryError;
use crate::cold::{lemma_status_round_trip, parse_status_spec, status_column};
use crate::policy::{threshold_at, threshold_spec};
use crate::query::{is_newest_first, page_spec, paginate, results_view, sort_by_created_desc, sort_newest_first, lemma_sort_newest_first};
use crate::text::{join2, join3, uuid_string, uuid_text};
use crate::types::{
    BatchResult, EntryView, MemoryEntry, MemoryId, MemoryStatus, QueryView, SearchQuery, SearchResult,
    SearchResultView, Timestamp, WorkspaceId, texts_view,
};

verus! {

/// A storage tier.
#[derive(PartialEq, Eq, Structural, Clone, Copy, Debug)]
pub enum Tier {
    /// In memory: Active memories.
    Hot,
    /// The database: Cooling and Cold memories.
    Cold,
    /// Archive files: Zombie memories.
    Zombie,
}

/// The tier that holds memories of a status.
pub open spec fn tier_of(s: MemoryStatus) -> Tier {
    match s {
        MemoryStatus::Active => Tier::Hot,
        MemoryStatus::Cooling | MemoryStatus::Cold => Tier::Cold,
        MemoryStatus::Zombie => Tier::Zombie,
    }
}

/// The tier that holds memories of a status.
pub fn tier_for_status(status: MemoryStatus) -> (r: Tier)
    ensures
        r == tier_of(status),
{
    match status {
        MemoryStatus::Active => Tier::Hot,
        MemoryStatus::Cooling | MemoryStatus::Cold => Tier::Cold,
        MemoryStatus::Zombie => Tier::Zombie,
    }
}

/// A query addressed to one tier.
#[derive(Debug)]
pub struct TierQuery {
    pub tier: Tier,
    pub query: SearchQuery,
}

/// The query a listing sends to a tier for one status: the workspace and
/// status set, the limit kept, from the first result, and the tag, text and
/// date filters of the query it was given.
pub open spec fn tier_query_view(ws: WorkspaceId, s: MemoryStatus, q: QueryView) -> QueryView {
    QueryView {
        text: q.text,
        tags: q.tags,
        workspace_id: Some(ws),
        status: Some(s),
        date_range: q.date_range,
        limit: q.limit,
        offset: 0,
    }
}

/// How a listing is split over the tiers: a query with a status goes, as
/// it is, to that status's tier; otherwise the hot tier is asked for Active
/// memories, the database for Cooling and then Cold ones, and the archive
/// for Zombie ones, each with the query's filters.
pub open spec fn list_plan_spec(ws: WorkspaceId, q: QueryView) -> Seq<(Tier, QueryView)> {
    match q.status {
        Some(s) => seq![(tier_of(s), q)],
        None => seq![
            (Tier::Hot, tier_query_view(ws, MemoryStatus::Active, q)),
            (Tier::Cold, tier_query_view(ws, MemoryStatus::Cooling, q)),
            (Tier::Cold, tier_query_view(ws, MemoryStatus::Cold, q)),
            (Tier::Zombie, tier_query_view(ws, MemoryStatus::Zombie, q)),
        ],
    }
}

/// The plan's entries seen through their views.
pub open spec fn plan_view(v: Seq<TierQuery>) -> Seq<(Tier, QueryView)> {
    v.map_values(|t: TierQuery| (t.tier, t.query@))
}

fn tier_query(ws: WorkspaceId, s: MemoryStatus, q: &SearchQuery) -> (r: SearchQuery)
    ensures
        r@ == tier_query_view(ws, s, q@),
{
    let c = q.clone();
    SearchQuery {
        text: c.text,
        tags: c.tags,
        workspace_id: Some(ws),
        status: Some(s),
        date_range: c.date_range,
        limit: q.limit,
        offset: 0,
    }
}

/// How a listing of a workspace is split over the tiers.
pub fn list_plan(workspace_id: WorkspaceId, query: &SearchQuery) -> (r: Vec<TierQuery>)
    ensures
        plan_view(r@) == list_plan_spec(workspace_id, query@),
{
    let mut out: Vec<TierQuery> = Vec::new();
    match query.status {
        Some(s) => {
            out.push(TierQuery { tier: tier_for_status(s), query: query.clone() });
        },
        None => {
            out.push(TierQuery { tier: Tier::Hot, query: tier_query(workspace_id, MemoryStatus::Active, query) });
            out.push(TierQuery { tier: Tier::Cold, query: tier_query(workspace_id, MemoryStatus::Cooling, query) });
            out.push(TierQuery { tier: Tier::Cold, query: tier_query(workspace_id, MemoryStatus::Cold, query) });
            out.push(TierQuery { tier: Tier::Zombie, query: tier_query(workspace_id, MemoryStatus::Zombie, query) });
        },
    }
    assert(plan_view(out@) =~= list_plan_spec(workspace_id, query@));
    out
}

/// Merges the tiers' results of a listing without status: all of them,
/// newest first (results created at the same instant keep their order),
/// then the page at the query's offset of at most its limit.
pub fn merge_listing(results: Vec<SearchResult>, offset: usize, limit: usize) -> (r: Vec<SearchResult>)
    requires
        offset + limit <= usize::MAX,
    ensures
        results_view(r@) == page_spec(sort_newest_first(results_view(results@)), offset as int, limit as int),
{
    let sorted = sort_by_created_desc(results);
    let ghost sv = sorted@;
    let page = paginate(sorted, offset, limit);
    proof {
        let n = sv.len() as int;
        if offset < n {
            let end = if offset + limit < n { offset + limit } else { n };
            assert(results_view(page@) =~= results_view(sv).subrange(offset as int, end as int));
        } else {
            assert(results_view(page@) =~= Seq::<SearchResultView>::empty());
        }
    }
    page
}

/// The memories of a batch that go to a tier, in order.
pub open spec fn for_tier(v: Seq<MemoryEntry>, t: Tier) -> Seq<MemoryEntry> {
    v.filter(|e: MemoryEntry| tier_of(e.status) == t)
}

/// Splits a batch by tier, keeping the order within each tier.
pub fn split_by_tier(memories: Vec<MemoryEntry>) -> (r: (Vec<MemoryEntry>, Vec<MemoryEntry>, Vec<MemoryEntry>))
    ensures
        r.0@ == for_tier(memories@, Tier::Hot),
        r.1@ == for_tier(memories@, Tier::Cold),
        r.2@ == for_tier(memories@, Tier::Zombie),
{
    let ghost orig = memories@;
    let mut hot: Vec<MemoryEntry> = Vec::new();
    let mut cold: Vec<MemoryEntry> = Vec::new();
    let mut zombie: Vec<MemoryEntry> = Vec::new();
    let n = memories.len();
    let mut input = memories;
    let mut i: usize = 0;
    while input.len() > 0
        invariant
            orig.len() == n,
            i + input@.len() == orig.len(),
            input@ == orig.skip(i as int),
            hot@ == for_tier(orig.take(i as int), Tier::Hot),
            cold@ == for_tier(orig.take(i as int), Tier::Cold),
            zombie@ == for_tier(orig.take(i as int), Tier::Zombie),
        decreases input.len(),
    {
        let m = input.remove(0);
        proof {
            assert(m == orig[i as int]);
            assert(orig.take(i + 1).drop_last() =~= orig.take(i as int));
            assert(orig.take(i + 1).last() == m);
            reveal(Seq::filter);
            assert(input@ =~= orig.skip(i + 1));
        }
        match m.status {
            MemoryStatus::Active => hot.push(m),
            MemoryStatus::Cooling | MemoryStatus::Cold => cold.push(m),
            MemoryStatus::Zombie => zombie.push(m),
        }
        i = i + 1;
    }
    proof {
        assert(orig.take(orig.len() as int) =~= orig);
    }
    (hot, cold, zombie)
}

/// Adds a tier's batch outcome to the running total: counts add up and
/// the tier's errors follow those already recorded.
pub fn absorb_batch(total: &mut BatchResult, part: BatchResult)
    requires
        old(total).success_count + part.success_count <= u32::MAX,
        old(total).failure_count + part.failure_count <= u32::MAX,
    ensures
        final(total).success_count == old(total).success_count + part.success_count,
        final(total).failure_count == old(total).failure_count + part.failure_count,
        final(total).errors@ == old(total).errors@ + part.errors@,
{
    total.success_count = total.success_count + part.success_count;
    total.failure_count = total.failure_count + part.failure_count;
    let mut errs = part.errors;
    total.errors.append(&mut errs);
}

/// The number of tiers a memory was removed from.
pub open spec fn removed_count(hot: bool, cold: bool, zombie: bool) -> int {
    (if hot { 1int } else { 0 }) + (if cold { 1int } else { 0 }) + (if zombie { 1int } else { 0 })
}

/// Records the outcome of deleting one memory from every tier: a success
/// for each tier it was removed from, or one failure when it was in none.
pub fn record_delete(result: &mut BatchResult, id: MemoryId, hot: bool, cold: bool, zombie: bool)
    requires
        old(result).success_count + removed_count(hot, cold, zombie) <= u32::MAX,
        !(hot || cold || zombie) ==> old(result).failure_count < u32::MAX,
    ensures
        final(result).success_count == old(result).success_count + (if hot { 1int } else { 0 }) + (
        if cold {
            1int
        } else {
            0
        }) + (if zombie {
            1int
        } else {
            0
        }),
        (hot || cold || zombie) ==> final(result).failure_count == old(result).failure_count
            && final(result).errors@ == old(result).errors@,
        !(hot || cold || zombie) ==> final(result).failure_count == old(result).failure_count + 1
            && final(result).errors@.len() == old(result).errors@.len() + 1 && final(result).errors@.drop_last() == old(result).errors@ && final(result).errors@.last()@ == "Memory "@
            + uuid_text(id) + " not found in any tier"@,
{
    if hot {
        result.add_success();
    }
    if cold {
        result.add_success();
    }
    if zombie {
        result.add_success();
    }
    if !(hot || cold || zombie) {
        let id_text = uuid_string(id);
        let msg = join3("Memory ", id_text.as_str(), " not found in any tier");
        result.add_failure(msg);
        assert(result.errors@.drop_last() =~= old(result).errors@);
    }
}

/// The status a memory is stored with, from what each tier reports, asked
/// in order: the hot tier holds only Active memories; otherwise the status
/// of the database tier's copy, then that of the archive's; `None` when no
/// tier holds it.
pub open spec fn stored_status_spec(in_hot: bool, cold: Option<MemoryStatus>, zombie: Option<MemoryStatus>) -> Option<
    MemoryStatus,
> {
    if in_hot {
        Some(MemoryStatus::Active)
    } else if cold is Some {
        cold
    } else {
        zombie
    }
}

/// The status a memory is stored with, from what each tier reports.
pub fn stored_status(in_hot: bool, cold: Option<MemoryStatus>, zombie: Option<MemoryStatus>) -> (r: Option<
    MemoryStatus,
>)
    ensures
        r == stored_status_spec(in_hot, cold, zombie),
{
    if in_hot {
        Some(MemoryStatus::Active)
    } else if cold.is_some() {
        cold
    } else {
        zombie
    }
}

/// The plan of a status change, given the status the memory is stored
/// with (`None` when no tier holds it): not found is an error; a memory
/// already at the new status needs nothing (`Ok(None)`); otherwise it moves
/// from its stored status (`Ok(Some)`).
pub fn plan_transition(id: MemoryId, stored: Option<MemoryStatus>, new_status: MemoryStatus) -> (r: Result<
    Option<MemoryStatus>,
    MemoryError,
>)
    ensures
        stored is None ==> (r matches Err(MemoryError::NotFound(m)) && m@ == uuid_text(id)),
        stored matches Some(s) ==> r == Ok::<Option<MemoryStatus>, MemoryError>(
            if s == new_status {
                None
            } else {
                Some(s)
            },
        ),
{
    match stored {
        None => Err(MemoryError::NotFound(uuid_string(id))),
        Some(s) => if s == new_status {
            Ok(None)
        } else {
            Ok(Some(s))
        },
    }
}

/// The memory as it is stored after a move: the new status, updated at
/// `now`, everything else kept.
pub open spec fn moved_spec(m: EntryView, to: MemoryStatus, now: Timestamp) -> EntryView {
    EntryView { status: to, updated_at: now, ..m }
}

/// The memory as it is stored after a move to `to_status` at `now`.
pub fn moved(memory: MemoryEntry, to_status: MemoryStatus, now: Timestamp) -> (r: MemoryEntry)
    ensures
        r@ == moved_spec(memory@, to_status, now),
{
    let mut m = memory;
    m.status = to_status;
    m.updated_at = now;
    m
}

/// The number of days without access after which a memory is due.
pub const INACTIVE_DAYS: i64 = 7;

/// The access count at or under which a memory is due.
pub const LOW_ACCESS_COUNT: u64 = 3;

/// A memory is due to move on when it has not been accessed since the
/// threshold (or never), has been accessed at most three times, or was
/// last updated before the threshold; the threshold is seven days before
/// `now`.
pub open spec fn is_due_spec(m: EntryView, now: Timestamp) -> bool {
    let t = threshold_spec(now, INACTIVE_DAYS);
    ||| (match m.last_accessed {
        Some(l) => l < t,
        None => true,
    })
    ||| m.access_count <= LOW_ACCESS_COUNT
    ||| m.updated_at < t
}

/// Whether a memory is due to move on at `now`.
pub fn is_due(memory: &MemoryEntry, now: Timestamp) -> (r: bool)
    ensures
        r == is_due_spec(memory@, now),
{
    let t = threshold_at(now, INACTIVE_DAYS);
    let inactive = match memory.last_accessed {
        Some(l) => (l as i128) < t,
        None => true,
    };
    inactive || memory.access_count <= LOW_ACCESS_COUNT || (memory.updated_at as i128) < t
}

/// The identifiers of the listed memories that are due at `now`, in order.
pub open spec fn due_ids(rs: Seq<SearchResultView>, now: Timestamp) -> Seq<MemoryId>
    decreases rs.len(),
{
    if rs.len() == 0 {
        Seq::empty()
    } else {
        let prev = due_ids(rs.drop_last(), now);
        if is_due_spec(rs.last().memory, now) {
            prev.push(rs.last().memory.id)
        } else {
            prev
        }
    }
}

/// The identifiers of the listed memories that are due at `now`, in order.
pub fn due_candidates(results: &Vec<SearchResult>, now: Timestamp) -> (r: Vec<MemoryId>)
    ensures
        r@ == due_ids(results_view(results@), now),
{
    let ghost rv = results_view(results@);
    let mut out: Vec<MemoryId> = Vec::new();
    let mut i: usize = 0;
    while i < results.len()
        invariant
            i <= results@.len(),
            rv == results_view(results@),
            out@ == due_ids(rv.take(i as int), now),
        decreases results.len() - i,
    {
        proof {
            assert(rv.take(i + 1).drop_last() =~= rv.take(i as int));
            assert(rv.take(i + 1).last() == results@[i as int]@);
        }
        if is_due(&results[i].memory, now) {
            out.push(results[i].memory.id);
        }
        i = i + 1;
    }
    proof {
        assert(rv.take(results@.len() as int) =~= rv);
    }
    out
}

/// The tier asked for candidates of a status: the hot tier for Active, the
/// database for Cooling and Cold; Zombie memories have no next status.
pub open spec fn candidate_tier_spec(s: MemoryStatus) -> Option<Tier> {
    match s {
        MemoryStatus::Active => Some(Tier::Hot),
        MemoryStatus::Cooling | MemoryStatus::Cold => Some(Tier::Cold),
        MemoryStatus::Zombie => None,
    }
}

/// The tier asked for candidates of a status.
pub fn candidate_tier(status: MemoryStatus) -> (r: Option<Tier>)
    ensures
        r == candidate_tier_spec(status),
{
    match status {
        MemoryStatus::Active => Some(Tier::Hot),
        MemoryStatus::Cooling | MemoryStatus::Cold => Some(Tier::Cold),
        MemoryStatus::Zombie => None,
    }
}

/// The query that lists the candidates of a status: that status, every
/// workspace, at most 1000 from the first.
pub fn candidate_query(status: MemoryStatus) -> (r: SearchQuery)
    ensures
        r@ == (QueryView {
            text: None,
            tags: None,
            workspace_id: None,
            status: Some(status),
            date_range: None,
            limit: 1000,
            offset: 0,
        }),
{
    SearchQuery {
        text: None,
        tags: None,
        workspace_id: None,
        status: Some(status),
        date_range: None,
        limit: 1000,
        offset: 0,
    }
}

/// The query that lists a workspace's Cold memories for archiving: at most
/// 1000, from the first.
pub fn archive_query(workspace_id: WorkspaceId) -> (r: SearchQuery)
    ensures
        r@ == (QueryView {
            text: None,
            tags: None,
            workspace_id: Some(workspace_id),
            status: Some(MemoryStatus::Cold),
            date_range: None,
            limit: 1000,
            offset: 0,
        }),
{
    SearchQuery {
        text: None,
        tags: None,
        workspace_id: Some(workspace_id),
        status: Some(MemoryStatus::Cold),
        date_range: None,
        limit: 1000,
        offset: 0,
    }
}

/// The statuses whose candidates an automatic run moves, in order.
pub fn transition_statuses() -> (r: Vec<MemoryStatus>)
    ensures
        r@ == seq![MemoryStatus::Active, MemoryStatus::Cooling, MemoryStatus::Cold],
{
    let mut v: Vec<MemoryStatus> = Vec::new();
    v.push(MemoryStatus::Active);
    v.push(MemoryStatus::Cooling);
    v.push(MemoryStatus::Cold);
    assert(v@ =~= seq![MemoryStatus::Active, MemoryStatus::Cooling, MemoryStatus::Cold]);
    v
}

/// The status an automatic run moves a memory to: one step down the
/// lifecycle (none from Zombie).
pub fn auto_next_status(status: MemoryStatus) -> (r: Option<MemoryStatus>)
    ensures
        r == crate::policy::successor(status),
{
    match status {
        MemoryStatus::Active => Some(MemoryStatus::Cooling),
        MemoryStatus::Cooling => Some(MemoryStatus::Cold),
        MemoryStatus::Cold => Some(MemoryStatus::Zombie),
        MemoryStatus::Zombie => None,
    }
}

/// The first `n` identifiers of a list (all of them when it is shorter):
/// an automatic run moves at most that many per status.
pub fn take_ids(v: Vec<MemoryId>, n: usize) -> (r: Vec<MemoryId>)
    ensures
        r@ == v@.take(if n < v@.len() {
            n as int
        } else {
            v@.len() as int
        }),
{
    let mut out = v;
    if n < out.len() {
        out.truncate(n);
    }
    proof {
        if n >= v@.len() {
            assert(out@ =~= v@.take(v@.len() as int));
        }
    }
    out
}

/// The text recorded for a failed operation on a memory: its identifier,
/// a colon and a space, and the error's text.
pub fn failure_text(id: MemoryId, message: &str) -> (r: String)
    ensures
        r@ == uuid_text(id) + ": "@ + message@,
{
    let id_text = uuid_string(id);
    join3(id_text.as_str(), ": ", message)
}

/// Listing with a status asks only that status's tier, unchanged; listing
/// without one asks each tier for exactly one status, every status once,
/// and every tier gets the query's tag, text and date filters.
pub proof fn lemma_list_plan_covers_each_status(ws: WorkspaceId, q: QueryView)
    ensures
        q.status matches Some(s) ==> list_plan_spec(ws, q) == seq![(tier_of(s), q)],
        q.status is None ==> {
            let p = list_plan_spec(ws, q);
            &&& p.len() == 4
            &&& forall|i: int| 0 <= i < 4 ==> #[trigger] tier_of(p[i].1.status.unwrap()) == p[i].0
            &&& p[0].1.status == Some(MemoryStatus::Active)
            &&& p[1].1.status == Some(MemoryStatus::Cooling)
            &&& p[2].1.status == Some(MemoryStatus::Cold)
            &&& p[3].1.status == Some(MemoryStatus::Zombie)
            &&& forall|i: int| 0 <= i < 4 ==> #[trigger] p[i].1.workspace_id == Some(ws) && p[i].1.offset == 0
                && p[i].1.limit == q.limit && p[i].1.tags == q.tags && p[i].1.text == q.text
                && p[i].1.date_range == q.date_range
        },
{
}

/// A merged listing is newest first and holds at most `limit` results,
/// each one of the tiers' results.
pub proof fn lemma_merged_listing_sorted(rs: Seq<SearchResultView>, offset: int, limit: int)
    requires
        0 <= offset,
        0 <= limit,
    ensures
        is_newest_first(page_spec(sort_newest_first(rs), offset, limit)),
        page_spec(sort_newest_first(rs), offset, limit).len() <= limit,
        forall|x: SearchResultView| page_spec(sort_newest_first(rs), offset, limit).contains(x) ==> rs.contains(x),
{
    lemma_sort_newest_first(rs);
    let s = sort_newest_first(rs);
    let p = page_spec(s, offset, limit);
    if offset < s.len() {
        let end = if offset + limit < s.len() { offset + limit } else { s.len() as int };
        assert forall|i: int, j: int| 0 <= i < j < p.len() implies crate::query::created_key(p[j])
            <= crate::query::created_key(p[i]) by {
            assert(p[i] == s[offset + i]);
            assert(p[j] == s[offset + j]);
        }
        assert forall|x: SearchResultView| p.contains(x) implies rs.contains(x) by {
            let k = choose|k: int| 0 <= k < p.len() && p[k] == x;
            assert(s[offset + k] == x);
            vstd::seq_lib::to_multiset_contains(s, x);
            vstd::seq_lib::to_multiset_contains(rs, x);
        }
    }
}

/// A migration keeps the memory: the moved memory has the new status (and
/// so belongs to the new status's tier), and its identity, content,
/// metadata, embedding, counts and other instants are unchanged; where the
/// database tier stores it, its status column reads back as the new status.
pub proof fn lemma_migration_keeps_memory(m: EntryView, to: MemoryStatus, now: Timestamp)
    ensures
        ({
            let g = moved_spec(m, to, now);
            &&& g.status == to
            &&& tier_of(g.status) == tier_of(to)
            &&& g.id == m.id
            &&& g.workspace_id == m.workspace_id
            &&& g.content == m.content
            &&& g.metadata == m.metadata
            &&& g.embedding == m.embedding
            &&& g.access_count == m.access_count
            &&& g.created_at == m.created_at
            &&& g.last_accessed == m.last_accessed
            &&& parse_status_spec(status_column(g.status)) == Some(to)
        }),
{
    lemma_status_round_trip(to);
}

/// A status change of a memory the tiers report with another status: a
/// memory found in the hot tier is Active, and the moved memory keeps its
/// identity, carries the new status, belongs to the new status's tier, and
/// where the database tier stores it its column reads back as the new
/// status.
pub proof fn lemma_transition_reaches_new_status(
    in_hot: bool,
    cold: Option<MemoryStatus>,
    zombie: Option<MemoryStatus>,
    m: EntryView,
    to: MemoryStatus,
    now: Timestamp,
)
    requires
        stored_status_spec(in_hot, cold, zombie) == Some(m.status),
        m.status != to,
    ensures
        in_hot ==> tier_of(m.status) == Tier::Hot,
        moved_spec(m, to, now).status == to,
        moved_spec(m, to, now).id == m.id,
        tier_of(moved_spec(m, to, now).status) == tier_of(to),
        parse_status_spec(status_column(moved_spec(m, to, now).status)) == Some(to),
{
    lemma_status_round_trip(to);
}

/// When a memory is due, with seven days of 86 400 000 000 microseconds:
/// never accessed or not accessed in the seven days before `now`, accessed
/// at most three times, or last updated more than seven days before `now`;
/// any one of these suffices.
pub proof fn lemma_due_by_fields(m: EntryView, now: Timestamp)
    ensures
        is_due_spec(m, now) == ((m.last_accessed matches Some(l) ==> l < now - 604_800_000_000)
            || m.access_count <= 3 || m.updated_at < now - 604_800_000_000),
{
}

/// The position of the listed memory a candidate comes from.
proof fn due_source(rs: Seq<SearchResultView>, now: Timestamp, k: int) -> (i: int)
    requires
        0 <= k < due_ids(rs, now).len(),
    ensures
        0 <= i < rs.len(),
        is_due_spec(rs[i].memory, now),
        rs[i].memory.id == due_ids(rs, now)[k],
    decreases rs.len(),
{
    let init = rs.drop_last();
    let prev = due_ids(init, now);
    if k < prev.len() {
        let i = due_source(init, now, k);
        assert(rs[i] == init[i]);
        i
    } else {
        (rs.len() - 1) as int
    }
}

/// Every due listed memory's identifier is among the listing's candidates
/// (in particular one last updated more than seven days before `now`,
/// whatever its accesses), and there are no more candidates than listed
/// memories.
pub proof fn lemma_candidates_are_the_due(rs: Seq<SearchResultView>, now: Timestamp)
    ensures
        due_ids(rs, now).len() <= rs.len(),
        forall|i: int|
            0 <= i < rs.len() && is_due_spec(#[trigger] rs[i].memory, now) ==> due_ids(rs, now).contains(
                rs[i].memory.id,
            ),
        forall|i: int|
            0 <= i < rs.len() && (#[trigger] rs[i]).memory.updated_at < now - 604_800_000_000
                ==> due_ids(rs, now).contains(rs[i].memory.id),
    decreases rs.len(),
{
    if rs.len() > 0 {
        let init = rs.drop_last();
        lemma_candidates_are_the_due(init, now);
        let prev = due_ids(init, now);
        let cur = due_ids(rs, now);
        assert forall|i: int|
            0 <= i < rs.len() && is_due_spec(#[trigger] rs[i].memory, now) implies cur.contains(
            rs[i].memory.id,
        ) by {
            if i < init.len() {
                assert(init[i] == rs[i]);
                let k = choose|k: int| 0 <= k < prev.len() && prev[k] == init[i].memory.id;
                assert(cur[k] == prev[k]);
            } else {
                assert(cur[cur.len() - 1] == rs[i].memory.id);
            }
        }
        assert forall|i: int|
            0 <= i < rs.len() && (#[trigger] rs[i]).memory.updated_at < now - 604_800_000_000 implies cur.contains(
            rs[i].memory.id,
        ) by {
            assert(is_due_spec(rs[i].memory, now));
        }
    }
}

/// Every candidate of a listing is the identifier of a listed memory that
/// is due.
pub proof fn lemma_candidate_is_due(rs: Seq<SearchResultView>, now: Timestamp, k: int)
    requires
        0 <= k < due_ids(rs, now).len(),
    ensures
        exists|i: int| #![trigger rs[i]] 0 <= i < rs.len() && is_due_spec(rs[i].memory, now) && rs[i].memory.id == due_ids(rs, now)[k],
{
    let i = due_source(rs, now, k);
    assert(rs[i] == rs[i]);
}

} // verus!
