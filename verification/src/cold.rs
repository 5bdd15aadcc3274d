//! The database tier's own logic: where its database lives, the statement
//! and parameters of a listing, how a stored status is read back, and the
//! filters applied to the rows a listing returns. Opening the database and
//! running the statements is done by the caller.

use vstd::prelude::*;
use crate::error::StorageError;
use crate::floats::F32_ONE;
use crate::query::{any_tag_matches, tags_match, text_matches, text_matches_entry};
use crate::model::{format_rfc3339, four_digit_year, parse_rfc3339, rfc3339_micros, rfc3339_text};
use crate::text::{decimal, decimal_spec, join2, join3, parse_uuid, uuid_parse, uuid_string, uuid_text};
use crate::types::{
    EntryView, MemoryContent, MemoryEntry, MemoryMetadata, MemoryStatus, Timestamp, QueryView, SearchQuery, SearchResult, SearchResultView,
    WorkspaceId, status_name,
};

verus! {

/// The start of every listing statement: the columns read, in order.
pub open spec fn select_columns_spec() -> Seq<char> {
    "SELECT id, workspace_id, content, embedding, metadata, status, created_at, updated_at, access_count, last_accessed FROM memories"@
}

/// The start of every listing statement.
pub fn select_columns() -> (r: &'static str)
    ensures
        r@ == select_columns_spec(),
{
    "SELECT id, workspace_id, content, embedding, metadata, status, created_at, updated_at, access_count, last_accessed FROM memories"
}

/// The database tier: a database file.
#[derive(Debug)]
pub struct ColdStorage {
    db_path: String,
}

impl ColdStorage {
    pub closed spec fn db_path_spec(&self) -> Seq<char> {
        self.db_path@
    }

    /// The tier kept in the database file at `db_path`.
    pub fn new(db_path: String) -> (r: Self)
        ensures
            r.db_path_spec() == db_path@,
    {
        ColdStorage { db_path }
    }

    /// The path of the database file.
    pub fn db_path(&self) -> (r: &str)
        ensures
            r@ == self.db_path_spec(),
    {
        self.db_path.as_str()
    }
}

/// How a status is stored: its name in double quotes (a JSON string).
pub open spec fn status_column(s: MemoryStatus) -> Seq<char> {
    "\""@ + status_name(s) + "\""@
}

/// The stored form of a status.
pub fn status_to_column(status: MemoryStatus) -> (r: String)
    ensures
        r@ == status_column(status),
{
    join3("\"", status.as_str(), "\"")
}

/// A text with its leading and trailing double quotes removed (every one
/// of them, as `trim_matches('"')` does).
pub open spec fn trim_quotes(s: Seq<char>) -> Seq<char>
    decreases s.len(),
{
    if s.len() > 0 && s[0] == '"' {
        trim_quotes(s.drop_first())
    } else if s.len() > 0 && s.last() == '"' {
        trim_quotes(s.drop_last())
    } else {
        s
    }
}

/// The status a stored text names, after its quotes are trimmed.
pub open spec fn parse_status_spec(s: Seq<char>) -> Option<MemoryStatus> {
    let t = trim_quotes(s);
    if t == "Active"@ {
        Some(MemoryStatus::Active)
    } else if t == "Cooling"@ {
        Some(MemoryStatus::Cooling)
    } else if t == "Cold"@ {
        Some(MemoryStatus::Cold)
    } else if t == "Zombie"@ {
        Some(MemoryStatus::Zombie)
    } else {
        None
    }
}

/// Reads a stored status back: the quotes around it are trimmed, and a
/// name other than the four statuses is a `SerializationError`.
pub fn parse_status(text: &str) -> (r: Result<MemoryStatus, StorageError>)
    ensures
        match parse_status_spec(text@) {
            Some(s) => r == Ok::<MemoryStatus, StorageError>(s),
            None => r matches Err(StorageError::SerializationError(m)) && m@ == "Invalid status: "@
                + trim_quotes(text@),
        },
{
    let n = text.unicode_len();
    let mut start: usize = 0;
    let mut end: usize = n;
    assert(text@.subrange(0, n as int) =~= text@);
    while start < end && text.get_char(start) == '"'
        invariant
            n == text@.len(),
            start <= end <= n,
            end == n,
            trim_quotes(text@) == trim_quotes(text@.subrange(start as int, end as int)),
        decreases end - start,
    {
        proof {
            assert(text@.subrange(start as int, end as int).drop_first() =~= text@.subrange(
                start + 1,
                end as int,
            ));
        }
        start = start + 1;
    }
    while start < end && text.get_char(end - 1) == '"'
        invariant
            n == text@.len(),
            start <= end <= n,
            start < end ==> text@[start as int] != '"',
            trim_quotes(text@) == trim_quotes(text@.subrange(start as int, end as int)),
        decreases end - start,
    {
        proof {
            let sub = text@.subrange(start as int, end as int);
            assert(sub.drop_last() =~= text@.subrange(start as int, end - 1));
            assert(sub[0] != '"');
        }
        end = end - 1;
    }
    let trimmed = text.substring_char(start, end);
    proof {
        let sub = text@.subrange(start as int, end as int);
        assert(sub.len() == 0 || (sub[0] != '"' && sub.last() != '"'));
        assert(trim_quotes(sub) == sub);
    }
    let t: &str = trimmed;
    if crate::text::str_eq(t, "Active") {
        Ok(MemoryStatus::Active)
    } else if crate::text::str_eq(t, "Cooling") {
        Ok(MemoryStatus::Cooling)
    } else if crate::text::str_eq(t, "Cold") {
        Ok(MemoryStatus::Cold)
    } else if crate::text::str_eq(t, "Zombie") {
        Ok(MemoryStatus::Zombie)
    } else {
        Err(StorageError::SerializationError(join2("Invalid status: ", t)))
    }
}

/// A listing's statement and its parameters, in order.
#[derive(Debug)]
pub struct ColdListStatement {
    pub sql: String,
    pub params: Vec<String>,
}

/// The statement of a listing: every row (nil workspace) or the
/// workspace's rows, of the query's status if it has one, newest first,
/// with the query's limit and offset when they are positive.
pub open spec fn list_sql_spec(ws: WorkspaceId, q: QueryView) -> Seq<char> {
    let base = select_columns_spec() + (if ws == 0 {
        " WHERE 1=1"@
    } else {
        " WHERE workspace_id = ?1"@
    });
    let with_status = base + (if q.status is Some {
        " AND status = ?"@
    } else {
        Seq::empty()
    });
    let ordered = with_status + " ORDER BY created_at DESC"@;
    let limited = ordered + (if q.limit > 0 {
        " LIMIT "@ + decimal_spec(q.limit as nat)
    } else {
        Seq::empty()
    });
    limited + (if q.offset > 0 {
        " OFFSET "@ + decimal_spec(q.offset as nat)
    } else {
        Seq::empty()
    })
}

/// The parameters of a listing: the workspace (unless nil), then the
/// stored form of the status (if the query has one).
pub open spec fn list_params_spec(ws: WorkspaceId, q: QueryView) -> Seq<Seq<char>> {
    let p: Seq<Seq<char>> = if ws == 0 {
        Seq::empty()
    } else {
        seq![uuid_text(ws)]
    };
    match q.status {
        Some(s) => p.push(status_column(s)),
        None => p,
    }
}

/// The statement and parameters of a listing.
pub fn list_statement(workspace_id: WorkspaceId, query: &SearchQuery) -> (r: ColdListStatement)
    ensures
        r.sql@ == list_sql_spec(workspace_id, query@),
        r.params@.map_values(|s: String| s@) == list_params_spec(workspace_id, query@),
{
    let mut sql = select_columns().to_string();
    let mut params: Vec<String> = Vec::new();
    if workspace_id == 0 {
        sql.append(" WHERE 1=1");
    } else {
        sql.append(" WHERE workspace_id = ?1");
        params.push(uuid_string(workspace_id));
    }
    match query.status {
        Some(s) => {
            sql.append(" AND status = ?");
            params.push(status_to_column(s));
        },
        None => {},
    }
    sql.append(" ORDER BY created_at DESC");
    if query.limit > 0 {
        sql.append(" LIMIT ");
        let d = decimal(query.limit as u64);
        sql.append(d.as_str());
    }
    if query.offset > 0 {
        sql.append(" OFFSET ");
        let d = decimal(query.offset as u64);
        sql.append(d.as_str());
    }
    proof {
        let ws = workspace_id;
        let q = query@;
        assert(params@.map_values(|s: String| s@) =~= list_params_spec(ws, q));
        reveal_strlit("");
        assert(sql@ =~= list_sql_spec(ws, q));
    }
    ColdListStatement { sql, params }
}

/// A row of a listing passes the in-memory filters: one of the query's
/// tags among its tags (an empty tag list lets every row through), and
/// the query's text in its plain text, ignoring case.
pub open spec fn row_passes(m: EntryView, q: QueryView) -> bool {
    &&& (q.tags matches Some(t) ==> (t.len() == 0 || any_tag_matches(m.metadata.tags, t)))
    &&& (q.text matches Some(t) ==> text_matches(m, t))
}

/// The result a listing gives for a row: score 1.0, no highlights.
pub open spec fn cold_result(m: EntryView) -> SearchResultView {
    SearchResultView { memory: m, score: F32_ONE, highlights: Seq::empty() }
}

/// The results of the rows that pass the filters, in order.
pub open spec fn filtered_rows(rows: Seq<EntryView>, q: QueryView) -> Seq<SearchResultView>
    decreases rows.len(),
{
    if rows.len() == 0 {
        Seq::empty()
    } else {
        let prev = filtered_rows(rows.drop_last(), q);
        if row_passes(rows.last(), q) {
            prev.push(cold_result(rows.last()))
        } else {
            prev
        }
    }
}

/// The in-memory filtering of a listing keeps exactly the rows that match:
/// every result is one of the rows, carries one of the query's tags (any
/// row when the tag list is empty) and contains its text ignoring case;
/// every row that matches both is among the results.
pub proof fn lemma_filtered_rows_match_query(rows: Seq<EntryView>, q: QueryView)
    ensures
        forall|k: int|
            0 <= k < filtered_rows(rows, q).len() ==> {
                let m = #[trigger] filtered_rows(rows, q)[k].memory;
                &&& rows.contains(m)
                &&& (q.tags matches Some(t) ==> (t.len() == 0 || any_tag_matches(m.metadata.tags, t)))
                &&& (q.text matches Some(t) ==> text_matches(m, t))
            },
        forall|i: int|
            0 <= i < rows.len() && (q.tags matches Some(t) ==> (t.len() == 0 || any_tag_matches(
                rows[i].metadata.tags,
                t,
            ))) && (q.text matches Some(t) ==> text_matches(rows[i], t)) ==> filtered_rows(rows, q).contains(
                cold_result(rows[i]),
            ),
    decreases rows.len(),
{
    if rows.len() > 0 {
        let init = rows.drop_last();
        lemma_filtered_rows_match_query(init, q);
        let prev = filtered_rows(init, q);
        let cur = filtered_rows(rows, q);
        assert forall|k: int| 0 <= k < cur.len() implies rows.contains(#[trigger] cur[k].memory) by {
            if k < prev.len() {
                assert(cur[k] == prev[k]);
                let j = choose|j: int| 0 <= j < init.len() && init[j] == prev[k].memory;
                assert(rows[j] == init[j]);
            } else {
                assert(cur[k].memory == rows[rows.len() - 1]);
            }
        }
        assert forall|i: int|
            0 <= i < rows.len() && (q.tags matches Some(t) ==> (t.len() == 0 || any_tag_matches(
                rows[i].metadata.tags,
                t,
            ))) && (q.text matches Some(t) ==> text_matches(rows[i], t)) implies cur.contains(
            cold_result(rows[i]),
        ) by {
            if i < init.len() {
                assert(init[i] == rows[i]);
                let k = choose|k: int| 0 <= k < prev.len() && prev[k] == cold_result(init[i]);
                assert(cur[k] == prev[k]);
            } else {
                assert(row_passes(rows.last(), q));
                assert(cur[cur.len() - 1] == cold_result(rows[i]));
            }
        }
    }
}

/// The results of the rows a listing read back that pass the in-memory
/// filters, in the rows' order.
pub fn filter_rows(rows: Vec<MemoryEntry>, query: &SearchQuery) -> (r: Vec<SearchResult>)
    ensures
        r@.map_values(|x: SearchResult| x@) == filtered_rows(rows@.map_values(|e: MemoryEntry| e@), query@),
{
    let ghost rv = rows@.map_values(|e: MemoryEntry| e@);
    let mut out: Vec<SearchResult> = Vec::new();
    let mut input = rows;
    let n = input.len();
    let mut i: usize = 0;
    while input.len() > 0
        invariant
            rv.len() == n,
            i + input@.len() == n,
            input@.map_values(|e: MemoryEntry| e@) == rv.skip(i as int),
            out@.map_values(|x: SearchResult| x@) == filtered_rows(rv.take(i as int), query@),
        decreases input.len(),
    {
        let ghost before = input@;
        let m = input.remove(0);
        proof {
            assert(before.map_values(|e: MemoryEntry| e@)[0] == m@);
            assert(rv[i as int] == m@);
            assert(rv.take(i + 1).drop_last() =~= rv.take(i as int));
            assert(rv.take(i + 1).last() == m@);
            assert forall|k: int| 0 <= k < input@.len() implies #[trigger] input@[k]@ == rv.skip(i + 1)[k] by {
                assert(input@[k] == before[k + 1]);
                assert(before.map_values(|e: MemoryEntry| e@)[k + 1] == rv.skip(i as int)[k + 1]);
            }
            assert(input@.map_values(|e: MemoryEntry| e@) =~= rv.skip(i + 1));
        }
        let tags_ok = match &query.tags {
            Some(t) => t.len() == 0 || tags_match(&m.metadata.tags, t),
            None => true,
        };
        let text_ok = match &query.text {
            Some(t) => text_matches_entry(&m, t.as_str()),
            None => true,
        };
        let ghost prev = out@.map_values(|x: SearchResult| x@);
        if tags_ok && text_ok {
            let sr = SearchResult { memory: m, score: F32_ONE, highlights: Vec::new() };
            assert(sr@.highlights =~= Seq::<Seq<char>>::empty());
            out.push(sr);
            assert(out@.map_values(|x: SearchResult| x@) =~= prev.push(sr@));
        } else {
            assert(out@.map_values(|x: SearchResult| x@) =~= prev);
        }
        i = i + 1;
    }
    proof {
        assert(rv.take(n as int) =~= rv);
    }
    out
}

/// The instant an optional stored time names: `None` when absent or not
/// an RFC 3339 instant.
pub open spec fn opt_instant(t: Option<&str>) -> Option<Timestamp> {
    match t {
        Some(x) => rfc3339_micros(x@),
        None => None,
    }
}

/// Every part of a row that can be refused reads back: its status, its two
/// instants and its two identifiers.
pub open spec fn row_readable(
    id: Seq<char>,
    workspace_id: Seq<char>,
    status: Seq<char>,
    created_at: Seq<char>,
    updated_at: Seq<char>,
) -> bool {
    &&& parse_status_spec(status) is Some
    &&& rfc3339_micros(created_at) is Some
    &&& rfc3339_micros(updated_at) is Some
    &&& uuid_parse(id) is Some
    &&& uuid_parse(workspace_id) is Some
}

/// The memory a stored row holds, given its text columns and its content,
/// embedding and metadata already decoded. The status is read first (an
/// unknown one is refused with its text), then the creation and update
/// instants, then the two identifiers; a part that does not read is a
/// serialization error. A last-access time that does not read is taken as
/// none.
pub fn parse_row(
    id: &str,
    workspace_id: &str,
    content: MemoryContent,
    embedding: Option<Vec<u32>>,
    metadata: MemoryMetadata,
    status: &str,
    created_at: &str,
    updated_at: &str,
    access_count: u64,
    last_accessed: Option<&str>,
) -> (r: Result<MemoryEntry, StorageError>)
    ensures
        parse_status_spec(status@) is None ==> (r matches Err(StorageError::SerializationError(m)) && m@
            == "Invalid status: "@ + trim_quotes(status@)),
        parse_status_spec(status@) is Some && !row_readable(id@, workspace_id@, status@, created_at@, updated_at@)
            ==> r matches Err(StorageError::SerializationError(_)),
        row_readable(id@, workspace_id@, status@, created_at@, updated_at@) ==> (r matches Ok(e) && e.id
            == uuid_parse(id@).unwrap() && e.workspace_id == uuid_parse(workspace_id@).unwrap()
            && e.content == content && e.embedding == embedding && e.metadata == metadata && e.status
            == parse_status_spec(status@).unwrap() && e.created_at == rfc3339_micros(created_at@).unwrap()
            && e.updated_at == rfc3339_micros(updated_at@).unwrap() && e.access_count == access_count
            && e.last_accessed == opt_instant(last_accessed)),
{
    let status = parse_status(status)?;
    let created = match parse_rfc3339(created_at) {
        Ok(t) => t,
        Err(m) => return Err(StorageError::SerializationError(m)),
    };
    let updated = match parse_rfc3339(updated_at) {
        Ok(t) => t,
        Err(m) => return Err(StorageError::SerializationError(m)),
    };
    let last = match last_accessed {
        Some(t) => match parse_rfc3339(t) {
            Ok(v) => Some(v),
            Err(_) => None,
        },
        None => None,
    };
    let mid = match parse_uuid(id) {
        Ok(u) => u,
        Err(m) => return Err(StorageError::SerializationError(m)),
    };
    let wid = match parse_uuid(workspace_id) {
        Ok(u) => u,
        Err(m) => return Err(StorageError::SerializationError(m)),
    };
    Ok(MemoryEntry {
        id: mid,
        workspace_id: wid,
        content,
        embedding,
        metadata,
        status,
        created_at: created,
        updated_at: updated,
        access_count,
        last_accessed: last,
    })
}

/// The text columns a memory is stored under: its two identifiers, its
/// status and its instants. Content, embedding and metadata are encoded
/// by the caller.
#[derive(Debug, Clone)]
pub struct StoredColumns {
    pub id: String,
    pub workspace_id: String,
    pub status: String,
    pub created_at: String,
    pub updated_at: String,
    pub last_accessed: Option<String>,
}

/// The instant an optional stored text names.
pub open spec fn opt_stored_instant(t: Option<String>) -> Option<Timestamp> {
    match t {
        Some(x) => rfc3339_micros(x@),
        None => None,
    }
}

/// The written form of an optional instant.
pub open spec fn opt_rfc3339_text(t: Option<Timestamp>) -> Option<Seq<char>> {
    match t {
        Some(x) => rfc3339_text(x),
        None => None,
    }
}

/// Every instant of the memory lies in the four-digit years.
pub open spec fn instants_in_four_digit_years(m: EntryView) -> bool {
    &&& four_digit_year(m.created_at)
    &&& four_digit_year(m.updated_at)
    &&& (m.last_accessed matches Some(t) ==> four_digit_year(t))
}

/// The columns read back as the memory's identifiers, status and instants.
pub open spec fn columns_read_back(c: StoredColumns, m: EntryView) -> bool {
    &&& row_readable(c.id@, c.workspace_id@, c.status@, c.created_at@, c.updated_at@)
    &&& uuid_parse(c.id@) == Some(m.id)
    &&& uuid_parse(c.workspace_id@) == Some(m.workspace_id)
    &&& parse_status_spec(c.status@) == Some(m.status)
    &&& rfc3339_micros(c.created_at@) == Some(m.created_at)
    &&& rfc3339_micros(c.updated_at@) == Some(m.updated_at)
    &&& opt_stored_instant(c.last_accessed) == m.last_accessed
}

/// The columns a memory is written under: identifiers in their hyphenated
/// form, the status as a quoted name and the instants in RFC 3339. `None`
/// when an instant has no calendar form. Within the four-digit years the
/// columns read back as the memory, so `parse_row` on them (with the same
/// content, embedding, metadata and count) gives the memory again.
pub fn stored_columns(memory: &MemoryEntry) -> (r: Option<StoredColumns>)
    ensures
        r is None <==> (rfc3339_text(memory.created_at) is None || rfc3339_text(memory.updated_at) is None
            || (memory.last_accessed matches Some(t) && rfc3339_text(t) is None)),
        r matches Some(c) ==> (c.id@ == uuid_text(memory.id) && c.workspace_id@ == uuid_text(
            memory.workspace_id,
        ) && c.status@ == status_column(memory.status) && Some(c.created_at@) == rfc3339_text(
            memory.created_at,
        ) && Some(c.updated_at@) == rfc3339_text(memory.updated_at) && crate::types::opt_text(
            c.last_accessed,
        ) == opt_rfc3339_text(memory.last_accessed)),
        instants_in_four_digit_years(memory@) ==> (r matches Some(c) && columns_read_back(c, memory@)),
{
    let created = match format_rfc3339(memory.created_at) {
        Some(t) => t,
        None => return None,
    };
    let updated = match format_rfc3339(memory.updated_at) {
        Some(t) => t,
        None => return None,
    };
    let last = match memory.last_accessed {
        Some(t) => match format_rfc3339(t) {
            Some(x) => Some(x),
            None => return None,
        },
        None => None,
    };
    proof {
        lemma_status_round_trip(memory.status);
    }
    Some(
        StoredColumns {
            id: uuid_string(memory.id),
            workspace_id: uuid_string(memory.workspace_id),
            status: status_to_column(memory.status),
            created_at: created,
            updated_at: updated,
            last_accessed: last,
        },
    )
}

/// A status written to the database reads back as the same status.
pub proof fn lemma_status_round_trip(s: MemoryStatus)
    ensures
        parse_status_spec(status_column(s)) == Some(s),
{
    reveal_strlit("\"");
    reveal_strlit("Active");
    reveal_strlit("Cooling");
    reveal_strlit("Cold");
    reveal_strlit("Zombie");
    let n = status_name(s);
    let c = status_column(s);
    assert(c.drop_first() =~= n + "\""@);
    assert((n + "\""@).drop_last() =~= n);
    assert(trim_quotes(n) == n);
    assert(trim_quotes(n + "\""@) == n);
    assert(trim_quotes(c) == n);
}

} // verus!
