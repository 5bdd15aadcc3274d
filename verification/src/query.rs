//! Listing memories: the filters a query applies, the newest-first order
//! and paging.

use vstd::prelude::*;
use crate::text::{lowercase_text, to_lowercase};
use crate::types::{
    ContentView, EntryView, MemoryEntry, MemoryStatus, QueryView, SearchQuery, SearchResult,
    SearchResultView, Timestamp, WorkspaceId, texts_view,
};

verus! {

/// `needle` occurs in `hay` as a contiguous run of characters.
pub open spec fn seq_contains(hay: Seq<char>, needle: Seq<char>) -> bool {
    exists|i: int| 0 <= i <= hay.len() - needle.len() && #[trigger] hay.subrange(i, i + needle.len()) == needle
}

/// `needle` occurs in `hay` starting at `i`.
pub open spec fn occurs_at(hay: Seq<char>, needle: Seq<char>, i: int) -> bool {
    0 <= i && i + needle.len() <= hay.len() && forall|k: int| 0 <= k < needle.len() ==> hay[i + k] == #[trigger] needle[k]
}

/// Whether `needle` occurs in `hay` (what `str::contains` answers for a
/// text pattern).
pub fn contains_text(hay: &str, needle: &str) -> (r: bool)
    ensures
        r == seq_contains(hay@, needle@),
{
    let h = hay.unicode_len();
    let n = needle.unicode_len();
    if n > h {
        proof {
            assert(!seq_contains(hay@, needle@));
        }
        return false;
    }
    let mut i: usize = 0;
    while i <= h - n
        invariant
            h == hay@.len(),
            n == needle@.len(),
            n <= h,
            i <= h - n + 1,
            forall|j: int| 0 <= j < i ==> !occurs_at(hay@, needle@, j),
        decreases h - n + 1 - i,
    {
        let mut k: usize = 0;
        let mut ok = true;
        while k < n
            invariant
                h == hay@.len(),
                n == needle@.len(),
                n <= h,
                i <= h - n,
                k <= n,
                ok ==> forall|q: int| 0 <= q < k ==> hay@[i + q] == needle@[q],
                !ok ==> !occurs_at(hay@, needle@, i as int),
            decreases n - k,
        {
            if ok && hay.get_char(i + k) != needle.get_char(k) {
                ok = false;
            }
            k = k + 1;
        }
        if ok {
            assert(hay@.subrange(i as int, i + n) =~= needle@);
            return true;
        }
        i = i + 1;
    }
    proof {
        assert forall|j: int| 0 <= j <= hay@.len() - needle@.len() implies #[trigger] hay@.subrange(
            j,
            j + needle@.len(),
        ) != needle@ by {
            if hay@.subrange(j, j + needle@.len()) == needle@ {
                assert(occurs_at(hay@, needle@, j)) by {
                    assert forall|k: int| 0 <= k < needle@.len() implies hay@[j + k]
                        == #[trigger] needle@[k] by {
                        assert(hay@.subrange(j, j + needle@.len())[k] == hay@[j + k]);
                    }
                }
            }
        }
    }
    false
}

/// The text a memory offers to text search: its plain text, or nothing.
pub open spec fn searchable_text(m: EntryView) -> Seq<char> {
    match m.content {
        ContentView::Text(t) => t,
        _ => Seq::empty(),
    }
}

/// The memory's searchable text contains the query text, both lower-cased.
pub open spec fn text_matches(m: EntryView, text: Seq<char>) -> bool {
    seq_contains(lowercase_text(searchable_text(m)), lowercase_text(text))
}

/// Case-insensitive containment of the query text in the memory's text.
pub fn text_matches_entry(m: &MemoryEntry, text: &str) -> (r: bool)
    ensures
        r == text_matches(m@, text@),
{
    let content_text: &str = match m.content.as_text() {
        Some(t) => t,
        None => {
            proof {
                reveal_strlit("");
            }
            assert(""@ =~= Seq::<char>::empty());
            ""
        },
    };
    assert(content_text@ == searchable_text(m@));
    let lower_content = to_lowercase(content_text);
    let lower_text = to_lowercase(text);
    contains_text(lower_content.as_str(), lower_text.as_str())
}

/// At least one of the query tags is among the memory's tags.
pub open spec fn any_tag_matches(mtags: Seq<Seq<char>>, qtags: Seq<Seq<char>>) -> bool {
    exists|i: int| 0 <= i < qtags.len() && mtags.contains(#[trigger] qtags[i])
}

/// Whether a text is among a list of texts.
pub fn contains_string(v: &Vec<String>, s: &str) -> (r: bool)
    ensures
        r == texts_view(v@).contains(s@),
{
    let mut i: usize = 0;
    while i < v.len()
        invariant
            i <= v.len(),
            forall|j: int| 0 <= j < i ==> v@[j]@ != s@,
        decreases v.len() - i,
    {
        if crate::text::str_eq(v[i].as_str(), s) {
            assert(texts_view(v@)[i as int] == s@);
            return true;
        }
        i = i + 1;
    }
    proof {
        if texts_view(v@).contains(s@) {
            let j = choose|j: int| 0 <= j < texts_view(v@).len() && texts_view(v@)[j] == s@;
            assert(v@[j]@ == s@);
        }
    }
    false
}

/// Whether one of the query tags is among the memory's tags.
pub fn tags_match(mtags: &Vec<String>, qtags: &Vec<String>) -> (r: bool)
    ensures
        r == any_tag_matches(texts_view(mtags@), texts_view(qtags@)),
{
    let mut i: usize = 0;
    while i < qtags.len()
        invariant
            i <= qtags.len(),
            forall|j: int| 0 <= j < i ==> !texts_view(mtags@).contains(#[trigger] texts_view(qtags@)[j]),
        decreases qtags.len() - i,
    {
        if contains_string(mtags, qtags[i].as_str()) {
            assert(texts_view(mtags@).contains(texts_view(qtags@)[i as int]));
            return true;
        }
        i = i + 1;
    }
    false
}

/// How a store treats the nil workspace identifier in a listing.
#[derive(PartialEq, Eq, Structural, Clone, Copy, Debug)]
pub enum WorkspaceScope {
    /// Only memories of exactly the given workspace.
    Exact,
    /// The nil identifier (zero) selects every workspace.
    NilMeansAll,
}

/// The memory belongs to the listed workspace.
pub open spec fn in_scope(m: EntryView, ws: WorkspaceId, scope: WorkspaceScope) -> bool {
    (scope == WorkspaceScope::NilMeansAll && ws == 0) || m.workspace_id == ws
}

/// The memory passes the query's status, tag and text filters, and belongs
/// to the listed workspace.
pub open spec fn matches_query(
    m: EntryView,
    ws: WorkspaceId,
    scope: WorkspaceScope,
    q: QueryView,
) -> bool {
    &&& in_scope(m, ws, scope)
    &&& (q.status matches Some(s) ==> m.status == s)
    &&& (q.tags matches Some(t) ==> any_tag_matches(m.metadata.tags, t))
    &&& (q.text matches Some(t) ==> text_matches(m, t))
}

/// Whether the memory passes the query's filters for a listing of `ws`.
pub fn entry_matches_query(
    m: &MemoryEntry,
    ws: WorkspaceId,
    scope: WorkspaceScope,
    q: &SearchQuery,
) -> (r: bool)
    ensures
        r == matches_query(m@, ws, scope, q@),
{
    let scoped = match scope {
        WorkspaceScope::NilMeansAll => ws == 0 || m.workspace_id == ws,
        WorkspaceScope::Exact => m.workspace_id == ws,
    };
    if !scoped {
        return false;
    }
    if let Some(s) = q.status {
        if m.status != s {
            return false;
        }
    }
    if let Some(t) = &q.tags {
        if !tags_match(&m.metadata.tags, t) {
            return false;
        }
    }
    if let Some(t) = &q.text {
        if !text_matches_entry(m, t.as_str()) {
            return false;
        }
    }
    true
}

/// The creation instant a result is ordered by.
pub open spec fn created_key(r: SearchResultView) -> Timestamp {
    r.memory.created_at
}

/// Where `x` goes in a newest-first list: after every result created at
/// the same time or later.
pub open spec fn insert_position(s: Seq<SearchResultView>, x: SearchResultView, from: int) -> int
    decreases s.len() - from,
{
    if from < 0 || from >= s.len() {
        s.len() as int
    } else if created_key(s[from]) < created_key(x) {
        from
    } else {
        insert_position(s, x, from + 1)
    }
}

/// `x` inserted into a newest-first list after its equals.
pub open spec fn insert_newest_first(s: Seq<SearchResultView>, x: SearchResultView) -> Seq<
    SearchResultView,
> {
    let p = insert_position(s, x, 0);
    s.take(p).push(x) + s.skip(p)
}

/// The results ordered newest first; results created at the same time keep
/// their order (a stable sort by descending creation time).
pub open spec fn sort_newest_first(s: Seq<SearchResultView>) -> Seq<SearchResultView>
    decreases s.len(),
{
    if s.len() == 0 {
        s
    } else {
        insert_newest_first(sort_newest_first(s.drop_last()), s.last())
    }
}

/// The list is ordered newest first.
pub open spec fn is_newest_first(s: Seq<SearchResultView>) -> bool {
    forall|i: int, j: int| 0 <= i < j < s.len() ==> created_key(s[j]) <= created_key(s[i])
}

proof fn lemma_insert_position_bounds(s: Seq<SearchResultView>, x: SearchResultView, from: int)
    requires
        0 <= from <= s.len(),
    ensures
        from <= insert_position(s, x, from) <= s.len(),
        forall|k: int| from <= k < insert_position(s, x, from) ==> created_key(x) <= created_key(#[trigger] s[k]),
        insert_position(s, x, from) < s.len() ==> created_key(s[insert_position(s, x, from)]) < created_key(x),
    decreases s.len() - from,
{
    if from < s.len() && created_key(s[from]) >= created_key(x) {
        lemma_insert_position_bounds(s, x, from + 1);
    }
}

/// Inserting into a newest-first list keeps it newest first and adds
/// exactly the inserted result.
proof fn lemma_insert_sorted(s: Seq<SearchResultView>, x: SearchResultView)
    requires
        is_newest_first(s),
    ensures
        is_newest_first(insert_newest_first(s, x)),
        insert_newest_first(s, x).to_multiset() == s.to_multiset().insert(x),
        insert_newest_first(s, x).len() == s.len() + 1,
{
    let p = insert_position(s, x, 0);
    lemma_insert_position_bounds(s, x, 0);
    let r = insert_newest_first(s, x);
    assert(r.len() == s.len() + 1);
    assert forall|k: int| 0 <= k < r.len() implies #[trigger] r[k] == (if k < p {
        s[k]
    } else if k == p {
        x
    } else {
        s[k - 1]
    }) by {}
    assert forall|i: int, j: int| 0 <= i < j < r.len() implies created_key(r[j]) <= created_key(
        r[i],
    ) by {
        if j < p {
        } else if j == p {
        } else if i < p {
            assert(created_key(s[j - 1]) <= created_key(s[p]) || j - 1 == p || true);
            if j - 1 >= p && p < s.len() {
                assert(created_key(s[j - 1]) <= created_key(s[p]));
            }
        } else if i == p {
            assert(created_key(s[j - 1]) <= created_key(s[p]));
        } else {
        }
    }
    vstd::seq_lib::lemma_multiset_commutative(s.take(p).push(x), s.skip(p));
    vstd::seq_lib::lemma_multiset_commutative(s.take(p), s.skip(p));
    assert(s.take(p) + s.skip(p) =~= s);
    vstd::seq_lib::to_multiset_build(s.take(p), x);
}

/// The stable newest-first sort orders its results newest first and keeps
/// exactly the same results.
pub proof fn lemma_sort_newest_first(s: Seq<SearchResultView>)
    ensures
        is_newest_first(sort_newest_first(s)),
        sort_newest_first(s).to_multiset() == s.to_multiset(),
        sort_newest_first(s).len() == s.len(),
    decreases s.len(),
{
    if s.len() == 0 {
    } else {
        lemma_sort_newest_first(s.drop_last());
        lemma_insert_sorted(sort_newest_first(s.drop_last()), s.last());
        assert(s.drop_last().push(s.last()) =~= s);
        vstd::seq_lib::to_multiset_build(s.drop_last(), s.last());
    }
}

/// A list of results, seen through their views.
pub open spec fn results_view(v: Seq<SearchResult>) -> Seq<SearchResultView> {
    v.map_values(|r: SearchResult| r@)
}

/// Sorts results newest first, keeping the order of results created at the
/// same time.
pub fn sort_by_created_desc(v: Vec<SearchResult>) -> (r: Vec<SearchResult>)
    ensures
        results_view(r@) == sort_newest_first(results_view(v@)),
{
    let mut input = v;
    let mut out: Vec<SearchResult> = Vec::new();
    let ghost orig = results_view(input@);
    let mut done: usize = 0;
    let total = input.len();
    while input.len() > 0
        invariant
            total == orig.len(),
            done + input@.len() == orig.len(),
            results_view(input@) == orig.skip(done as int),
            results_view(out@) == sort_newest_first(orig.take(done as int)),
        decreases input@.len(),
    {
        let ghost before_in = input@;
        let x = input.remove(0);
        let ghost xv = x@;
        assert(results_view(before_in)[0] == before_in[0]@);
        assert(xv == orig[done as int]);
        let mut p: usize = 0;
        while p < out.len() && out[p].memory.created_at >= x.memory.created_at
            invariant
                p <= out@.len(),
                results_view(out@) == sort_newest_first(orig.take(done as int)),
                forall|k: int| 0 <= k < p ==> created_key(results_view(out@)[k]) >= xv.memory.created_at,
                xv == x@,
            decreases out@.len() - p,
        {
            p = p + 1;
        }
        let ghost before = results_view(out@);
        proof {
            lemma_insert_position_exact(before, xv, p as int);
        }
        out.insert(p, x);
        proof {
            assert(orig.take(done as int + 1).drop_last() =~= orig.take(done as int));
            assert(orig.take(done as int + 1).last() == xv);
            assert(results_view(out@) =~= before.take(p as int).push(xv) + before.skip(p as int));
        }
        done = done + 1;
        proof {
            assert forall|k: int| 0 <= k < input@.len() implies #[trigger] results_view(input@)[k]
                == orig.skip(done as int)[k] by {
                assert(input@[k] == before_in[k + 1]);
                assert(results_view(before_in)[k + 1] == before_in[k + 1]@);
            }
            assert(results_view(input@) =~= orig.skip(done as int));
        }
    }
    assert(orig.take(done as int) =~= orig);
    out
}

proof fn lemma_insert_position_exact(s: Seq<SearchResultView>, x: SearchResultView, p: int)
    requires
        0 <= p <= s.len(),
        forall|k: int| 0 <= k < p ==> created_key(#[trigger] s[k]) >= created_key(x),
        p < s.len() ==> created_key(s[p]) < created_key(x),
    ensures
        insert_position(s, x, 0) == p,
{
    lemma_insert_position_from(s, x, 0, p);
}

proof fn lemma_insert_position_from(s: Seq<SearchResultView>, x: SearchResultView, from: int, p: int)
    requires
        0 <= from <= p <= s.len(),
        forall|k: int| from <= k < p ==> created_key(#[trigger] s[k]) >= created_key(x),
        p < s.len() ==> created_key(s[p]) < created_key(x),
    ensures
        insert_position(s, x, from) == p,
    decreases p - from,
{
    if from < p {
        lemma_insert_position_from(s, x, from + 1, p);
    }
}

/// The page of a list that starts at `offset` and holds at most `limit`
/// items; empty when `offset` is past the end.
pub open spec fn page_spec<T>(s: Seq<T>, offset: int, limit: int) -> Seq<T> {
    if offset < s.len() {
        let end = if offset + limit < s.len() { offset + limit } else { s.len() as int };
        s.subrange(offset, end)
    } else {
        Seq::empty()
    }
}

/// The page of results that starts at `offset` and holds at most `limit`.
pub fn paginate(v: Vec<SearchResult>, offset: usize, limit: usize) -> (r: Vec<SearchResult>)
    requires
        offset + limit <= usize::MAX,
    ensures
        r@ == page_spec(v@, offset as int, limit as int),
{
    let len = v.len();
    let end = if offset + limit < len { offset + limit } else { len };
    if offset < len {
        let mut input = v;
        let ghost orig = input@;
        input.truncate(end);
        let tail = input.split_off(offset);
        assert(tail@ =~= orig.subrange(offset as int, end as int));
        tail
    } else {
        Vec::new()
    }
}


/// The page of results that starts at `offset` and holds at most `limit`
/// (what skipping `offset` and taking `limit` gives).
pub fn take_page(v: Vec<SearchResult>, offset: usize, limit: usize) -> (r: Vec<SearchResult>)
    ensures
        r@ == page_spec(v@, offset as int, limit as int),
{
    if offset >= v.len() {
        return Vec::new();
    }
    let ghost orig = v@;
    let mut input = v;
    let mut rest = input.split_off(offset);
    if limit < rest.len() {
        rest.truncate(limit);
    }
    assert(rest@ =~= page_spec(orig, offset as int, limit as int));
    rest
}

} // verus!
