//! The decisions of the lifecycle manager: which status changes it
//! accepts and the error it gives for the others, what a policy-driven
//! step does with the policy's answer, which listed memories the policy
//! selects, and the queries and failure texts of its runs.

use vstd::prelude::*;
use crate::error::MemoryError;
use crate::policy::{TransitionPolicy, is_valid_transition, is_valid_transition_spec};
use crate::text::{join2, join3};
use crate::tiers::{moved, moved_spec};
use crate::types::{MemoryEntry, MemoryId, MemoryStatus, QueryView, SearchQuery, SearchResult, Timestamp, WorkspaceId, status_name};

verus! {

/// The text of a refused status change.
pub open spec fn invalid_transition_text(from: MemoryStatus, to: MemoryStatus) -> Seq<char> {
    "Invalid transition from "@ + status_name(from) + " to "@ + status_name(to)
}

/// Accepts an allowed status change and refuses the others with
/// `InvalidOperation`.
pub fn check_transition(from: MemoryStatus, to: MemoryStatus) -> (r: Result<(), MemoryError>)
    ensures
        r is Ok <==> is_valid_transition_spec(from, to),
        r matches Err(e) ==> e matches MemoryError::InvalidOperation(m) && m@
            == invalid_transition_text(from, to),
{
    if !is_valid_transition(from, to) {
        let head = join3("Invalid transition from ", from.as_str(), " to ");
        return Err(MemoryError::InvalidOperation(join2(head.as_str(), to.as_str())));
    }
    Ok(())
}

/// What a policy-driven step does with the status the policy proposes for
/// a memory: nothing when it proposes none (`Ok(None)`); a refusal when
/// the change is not allowed; otherwise the memory to write back, moved to
/// the proposed status and updated at `now`.
pub fn policy_step(memory: MemoryEntry, proposed: Option<MemoryStatus>, now: Timestamp) -> (r: Result<
    Option<MemoryEntry>,
    MemoryError,
>)
    ensures
        proposed is None ==> r matches Ok(None),
        proposed is Some && is_valid_transition_spec(memory.status, proposed.unwrap()) ==> (r matches Ok(
            Some(e),
        ) && e@ == moved_spec(memory@, proposed.unwrap(), now)),
        proposed is Some && !is_valid_transition_spec(memory.status, proposed.unwrap()) ==> (r matches Err(
            e,
        ) && e matches MemoryError::InvalidOperation(m) && m@ == invalid_transition_text(
            memory.status,
            proposed.unwrap(),
        )),
{
    match proposed {
        None => Ok(None),
        Some(s) => match check_transition(memory.status, s) {
            Ok(()) => Ok(Some(moved(memory, s, now))),
            Err(e) => Err(e),
        },
    }
}

/// The identifiers of the listed memories whose flag is set, in order.
pub open spec fn flagged_ids(rs: Seq<MemoryId>, flags: Seq<bool>) -> Seq<MemoryId>
    decreases rs.len(),
{
    if rs.len() == 0 || flags.len() < rs.len() {
        Seq::empty()
    } else {
        let prev = flagged_ids(rs.drop_last(), flags.take(rs.len() - 1));
        if flags[rs.len() - 1] {
            prev.push(rs.last())
        } else {
            prev
        }
    }
}

/// The identifiers of a list of results.
pub open spec fn result_ids(v: Seq<SearchResult>) -> Seq<MemoryId> {
    v.map_values(|r: SearchResult| r.memory.id)
}

/// The listed memories the policy selected, given its answer for each
/// one, in order.
pub fn select_flagged(results: &Vec<SearchResult>, flags: &Vec<bool>) -> (r: Vec<MemoryId>)
    requires
        flags@.len() == results@.len(),
    ensures
        r@ == flagged_ids(result_ids(results@), flags@),
{
    let ghost ids = result_ids(results@);
    let mut out: Vec<MemoryId> = Vec::new();
    let mut i: usize = 0;
    while i < results.len()
        invariant
            i <= results@.len(),
            flags@.len() == results@.len(),
            ids == result_ids(results@),
            out@ == flagged_ids(ids.take(i as int), flags@.take(i as int)),
        decreases results.len() - i,
    {
        proof {
            assert(ids.take(i + 1).drop_last() =~= ids.take(i as int));
            assert(flags@.take(i + 1).take(i as int) =~= flags@.take(i as int));
            assert(ids.take(i + 1).last() == results@[i as int].memory.id);
        }
        if flags[i] {
            out.push(results[i].memory.id);
        }
        i = i + 1;
    }
    proof {
        assert(ids.take(results@.len() as int) =~= ids);
        assert(flags@.take(results@.len() as int) =~= flags@);
    }
    out
}

/// The listed memories that the policy says should move at `now`, in order.
pub fn policy_candidates<P: TransitionPolicy>(policy: &P, results: &Vec<SearchResult>, now: Timestamp) -> (r: Vec<
    MemoryId,
>)
    ensures
        exists|flags: Seq<bool>|
            flags.len() == results@.len() && r@ == #[trigger] flagged_ids(result_ids(results@), flags),
{
    let mut flags: Vec<bool> = Vec::new();
    let mut i: usize = 0;
    while i < results.len()
        invariant
            i <= results@.len(),
            flags@.len() == i,
        decreases results.len() - i,
    {
        flags.push(policy.should_transition(&results[i].memory, now));
        i = i + 1;
    }
    select_flagged(results, &flags)
}

/// The query that lists a workspace's memories for archiving: every
/// status, at most 1000, from the first.
pub fn archive_all_query(workspace_id: WorkspaceId) -> (r: SearchQuery)
    ensures
        r@ == (QueryView {
            text: None,
            tags: None,
            workspace_id: Some(workspace_id),
            status: None,
            date_range: None,
            limit: 1000,
            offset: 0,
        }),
{
    SearchQuery {
        text: None,
        tags: None,
        workspace_id: Some(workspace_id),
        status: None,
        date_range: None,
        limit: 1000,
        offset: 0,
    }
}

/// The text recorded when the candidates of a status could not be listed.
pub fn candidates_failure_text(status: MemoryStatus, message: &str) -> (r: String)
    ensures
        r@ == "Failed to get candidates for "@ + status_name(status) + ": "@ + message@,
{
    let head = join3("Failed to get candidates for ", status.as_str(), ": ");
    join2(head.as_str(), message)
}

/// The policy only ever proposes allowed changes, so a policy-driven step
/// with the default policy never refuses.
pub proof fn lemma_policy_step_never_refused(
    c: crate::policy::PolicyConfig,
    m: crate::types::EntryView,
    now: crate::types::Timestamp,
)
    ensures
        crate::policy::next_status_spec(c, m, now) matches Some(s) ==> is_valid_transition_spec(
            m.status,
            s,
        ),
{
    crate::policy::lemma_policy_moves_one_step(c, m, now);
}

} // verus!
