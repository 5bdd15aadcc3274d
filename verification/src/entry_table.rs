//! Tables of records keyed by 128-bit identifiers, kept as lists in which
//! no identifier occurs twice.

use vstd::prelude::*;
use crate::types::MemoryEntry;

verus! {

/// A record with a 128-bit identifier.
pub trait Keyed: View + Sized {
    /// The record's identifier.
    spec fn key(&self) -> u128;

    /// The record's identifier.
    fn get_key(&self) -> (r: u128)
        ensures
            r == self.key(),
    ;
}

impl Keyed for MemoryEntry {
    open spec fn key(&self) -> u128 {
        self.id
    }

    fn get_key(&self) -> (r: u128) {
        self.id
    }
}

/// No identifier occurs twice in the list.
pub open spec fn unique_ids<T: Keyed>(s: Seq<T>) -> bool {
    forall|i: int, j: int| 0 <= i < s.len() && 0 <= j < s.len() && i != j ==> s[i].key() != s[j].key()
}

/// Some position of the list holds the identifier.
pub open spec fn has_id<T: Keyed>(s: Seq<T>, id: u128) -> bool {
    exists|i: int| 0 <= i < s.len() && #[trigger] s[i].key() == id
}

/// A position of the list that holds the identifier (if any does).
pub open spec fn index_of_id<T: Keyed>(s: Seq<T>, id: u128) -> int {
    choose|i: int| 0 <= i < s.len() && #[trigger] s[i].key() == id
}

/// The list seen as a map from identifier to entry.
pub open spec fn table_map<T: Keyed>(s: Seq<T>) -> Map<u128, T::V> {
    Map::new(|id: u128| has_id(s, id), |id: u128| s[index_of_id(s, id)].view())
}

/// In a list without repeated identifiers, the entry at a position is the
/// one the map gives for its identifier.
pub proof fn lemma_table_at<T: Keyed>(s: Seq<T>, i: int)
    requires
        unique_ids(s),
        0 <= i < s.len(),
    ensures
        table_map(s).contains_key(s[i].key()),
        table_map(s)[s[i].key()] == s[i].view(),
        index_of_id(s, s[i].key()) == i,
{
    assert(has_id(s, s[i].key()));
    let j = index_of_id(s, s[i].key());
    assert(0 <= j < s.len() && s[j].key() == s[i].key());
}

/// Appending an entry with a new identifier adds it to the map.
pub proof fn lemma_table_push<T: Keyed>(s: Seq<T>, e: T)
    requires
        unique_ids(s),
        !has_id(s, e.key()),
    ensures
        unique_ids(s.push(e)),
        table_map(s.push(e)) == table_map(s).insert(e.key(), e.view()),
{
    let t = s.push(e);
    assert forall|i: int, j: int| 0 <= i < t.len() && 0 <= j < t.len() && i != j implies t[i].key()
        != t[j].key() by {
        if i == s.len() {
            assert(s[j].key() == t[j].key());
        } else if j == s.len() {
            assert(s[i].key() == t[i].key());
        }
    }
    assert forall|id: u128| #[trigger] has_id(t, id) == (has_id(s, id) || id == e.key()) by {
        if has_id(s, id) {
            let k = index_of_id(s, id);
            assert(t[k].key() == id);
        }
        if id == e.key() {
            assert(t[s.len() as int].key() == id);
        }
        if has_id(t, id) && id != e.key() {
            let k = index_of_id(t, id);
            assert(k < s.len());
            assert(s[k].key() == id);
        }
    }
    assert forall|id: u128| #[trigger] table_map(t).contains_key(id) implies table_map(t)[id]
        == table_map(s).insert(e.key(), e.view())[id] by {
        if id == e.key() {
            lemma_table_at(t, s.len() as int);
        } else {
            let k = index_of_id(s, id);
            lemma_table_at(s, k);
            assert(t[k] == s[k]);
            lemma_table_at(t, k);
        }
    }
    assert(table_map(t) =~= table_map(s).insert(e.key(), e.view()));
}

/// Replacing the entry at a position with one of the same identifier
/// replaces it in the map.
pub proof fn lemma_table_set<T: Keyed>(s: Seq<T>, i: int, e: T)
    requires
        unique_ids(s),
        0 <= i < s.len(),
        s[i].key() == e.key(),
    ensures
        unique_ids(s.update(i, e)),
        table_map(s.update(i, e)) == table_map(s).insert(e.key(), e.view()),
{
    let t = s.update(i, e);
    assert forall|a: int, b: int| 0 <= a < t.len() && 0 <= b < t.len() && a != b implies t[a].key()
        != t[b].key() by {
        assert(t[a].key() == s[a].key());
        assert(t[b].key() == s[b].key());
    }
    assert forall|id: u128| #[trigger] has_id(t, id) == has_id(s, id) by {
        if has_id(s, id) {
            let k = index_of_id(s, id);
            assert(t[k].key() == id);
        }
        if has_id(t, id) {
            let k = index_of_id(t, id);
            assert(s[k].key() == id);
        }
    }
    assert forall|id: u128| #[trigger] table_map(t).contains_key(id) implies table_map(t)[id]
        == table_map(s).insert(e.key(), e.view())[id] by {
        let k = index_of_id(t, id);
        lemma_table_at(t, k);
        if k != i {
            assert(t[k] == s[k]);
            lemma_table_at(s, k);
        }
    }
    assert(table_map(t) =~= table_map(s).insert(e.key(), e.view()));
}

/// Removing the entry at a position removes its identifier from the map.
pub proof fn lemma_table_remove<T: Keyed>(s: Seq<T>, i: int)
    requires
        unique_ids(s),
        0 <= i < s.len(),
    ensures
        unique_ids(s.remove(i)),
        table_map(s.remove(i)) == table_map(s).remove(s[i].key()),
{
    let t = s.remove(i);
    assert forall|k: int| 0 <= k < t.len() implies #[trigger] t[k] == (if k < i {
        s[k]
    } else {
        s[k + 1]
    }) by {}
    assert forall|a: int, b: int| 0 <= a < t.len() && 0 <= b < t.len() && a != b implies t[a].key()
        != t[b].key() by {
        let a2 = if a < i { a } else { a + 1 };
        let b2 = if b < i { b } else { b + 1 };
        assert(t[a] == s[a2]);
        assert(t[b] == s[b2]);
    }
    assert forall|id: u128| #[trigger] has_id(t, id) == (has_id(s, id) && id != s[i].key()) by {
        if has_id(t, id) {
            let k = index_of_id(t, id);
            let k2 = if k < i { k } else { k + 1 };
            assert(s[k2].key() == id);
        }
        if has_id(s, id) && id != s[i].key() {
            let k = index_of_id(s, id);
            assert(k != i);
            let k2 = if k < i { k } else { k - 1 };
            assert(t[k2].key() == id);
        }
    }
    assert forall|id: u128| #[trigger] table_map(t).contains_key(id) implies table_map(t)[id]
        == table_map(s)[id] by {
        let k = index_of_id(t, id);
        lemma_table_at(t, k);
        let k2 = if k < i { k } else { k + 1 };
        assert(t[k] == s[k2]);
        lemma_table_at(s, k2);
    }
    assert(table_map(t) =~= table_map(s).remove(s[i].key()));
}

/// An empty list is an empty map.
pub proof fn lemma_table_empty<T: Keyed>(s: Seq<T>)
    requires
        s.len() == 0,
    ensures
        unique_ids(s),
        table_map(s) == Map::<u128, T::V>::empty(),
{
    assert(table_map(s) =~= Map::<u128, T::V>::empty());
}

/// A list without repeated identifiers has as many entries as its map.
pub proof fn lemma_table_len<T: Keyed>(s: Seq<T>)
    requires
        unique_ids(s),
    ensures
        table_map(s).dom().finite(),
        table_map(s).len() == s.len(),
    decreases s.len(),
{
    if s.len() == 0 {
        lemma_table_empty(s);
    } else {
        let t = s.drop_last();
        assert(unique_ids(t));
        lemma_table_len(t);
        assert(!has_id(t, s.last().key())) by {
            if has_id(t, s.last().key()) {
                let k = index_of_id(t, s.last().key());
                assert(s[k].key() == s[s.len() - 1].key());
            }
        }
        lemma_table_push(t, s.last());
        assert(t.push(s.last()) =~= s);
    }
}

/// The position of an identifier in the list, if it is there.
pub fn find_index<T: Keyed>(v: &Vec<T>, id: u128) -> (r: Option<usize>)
    ensures
        r matches Some(i) ==> i < v@.len() && v@[i as int].key() == id,
        r is None ==> !has_id(v@, id),
{
    let mut i: usize = 0;
    while i < v.len()
        invariant
            i <= v@.len(),
            forall|j: int| 0 <= j < i ==> v@[j].key() != id,
        decreases v.len() - i,
    {
        if v[i].get_key() == id {
            return Some(i);
        }
        i = i + 1;
    }
    proof {
        if has_id(v@, id) {
            let k = index_of_id(v@, id);
            assert(v@[k].key() == id);
        }
    }
    None
}


/// Puts the record in the table: it replaces the record with the same
/// identifier, or joins the end of the list.
pub fn table_upsert<T: Keyed>(v: &mut Vec<T>, e: T)
    requires
        unique_ids(old(v)@),
    ensures
        unique_ids(final(v)@),
        table_map(final(v)@) == table_map(old(v)@).insert(e.key(), e.view()),
{
    let id = e.get_key();
    match find_index(v, id) {
        Some(i) => {
            proof {
                lemma_table_set(v@, i as int, e);
            }
            v.set(i, e);
        },
        None => {
            proof {
                lemma_table_push(v@, e);
            }
            v.push(e);
        },
    }
}

/// Takes the record with the identifier out of the table, if it holds one.
pub fn table_take<T: Keyed>(v: &mut Vec<T>, id: u128) -> (r: Option<T>)
    requires
        unique_ids(old(v)@),
    ensures
        unique_ids(final(v)@),
        table_map(final(v)@) == table_map(old(v)@).remove(id),
        r is Some <==> table_map(old(v)@).contains_key(id),
        r matches Some(e) ==> e.key() == id && e.view() == table_map(old(v)@)[id],
{
    match find_index(v, id) {
        Some(i) => {
            proof {
                lemma_table_at(v@, i as int);
                lemma_table_remove(v@, i as int);
            }
            let e = v.remove(i);
            Some(e)
        },
        None => {
            proof {
                assert(table_map(v@).remove(id) =~= table_map(v@));
            }
            None
        },
    }
}

} // verus!
