//! Maps from keys to sets of values, kept as lists: each key occurs once
//! among the entries, and each value once in its entry's list.

use vstd::prelude::*;
use crate::text::str_eq;

verus! {

/// A value that can be compared with another and copied.
pub trait Item: View + Sized {
    /// Whether the two values are the same.
    fn same(&self, other: &Self) -> (r: bool)
        ensures
            r == (self@ == other@),
    ;

    /// A copy of the value.
    fn duplicate(&self) -> (r: Self)
        ensures
            r@ == self@,
    ;
}

impl Item for u128 {
    fn same(&self, other: &Self) -> (r: bool) {
        *self == *other
    }

    fn duplicate(&self) -> (r: Self) {
        *self
    }
}

impl Item for crate::types::MemoryStatus {
    fn same(&self, other: &Self) -> (r: bool) {
        *self == *other
    }

    fn duplicate(&self) -> (r: Self) {
        *self
    }
}

impl Item for String {
    fn same(&self, other: &Self) -> (r: bool) {
        str_eq(self.as_str(), other.as_str())
    }

    fn duplicate(&self) -> (r: Self) {
        self.clone()
    }
}

/// The views of a list of values.
pub open spec fn views<V: View>(s: Seq<V>) -> Seq<V::V> {
    s.map_values(|v: V| v@)
}

/// No value occurs twice in the list (compared by view).
pub open spec fn distinct<V: View>(s: Seq<V>) -> bool {
    views(s).no_duplicates()
}

/// The position of a value in a list, if it is there.
pub fn position_of<V: Item>(v: &Vec<V>, x: &V) -> (r: Option<usize>)
    ensures
        r matches Some(i) ==> i < v@.len() && v@[i as int]@ == x@,
        r is None ==> !views(v@).contains(x@),
{
    let mut i: usize = 0;
    while i < v.len()
        invariant
            i <= v@.len(),
            forall|j: int| 0 <= j < i ==> v@[j]@ != x@,
        decreases v.len() - i,
    {
        if v[i].same(x) {
            return Some(i);
        }
        i = i + 1;
    }
    proof {
        if views(v@).contains(x@) {
            let j = choose|j: int| 0 <= j < views(v@).len() && views(v@)[j] == x@;
            assert(v@[j]@ == x@);
        }
    }
    None
}

/// Adds a value to a list that holds each value once, unless it is there.
pub fn set_insert<V: Item>(v: &mut Vec<V>, x: V)
    requires
        distinct(old(v)@),
    ensures
        distinct(final(v)@),
        views(final(v)@).to_set() == views(old(v)@).to_set().insert(x@),
{
    let ghost xv = x@;
    match position_of(v, &x) {
        Some(i) => {
            assert(views(v@).to_set() =~= views(v@).to_set().insert(xv)) by {
                assert(views(v@)[i as int] == xv);
            }
        },
        None => {
            let ghost before = views(v@);
            v.push(x);
            assert(views(v@) =~= before.push(xv));
            assert forall|a: V::V| views(v@).to_set().contains(a) == before.to_set().insert(xv).contains(a) by {
                if before.contains(a) {
                    let j = choose|j: int| 0 <= j < before.len() && before[j] == a;
                    assert(views(v@)[j] == a);
                }
                if views(v@).contains(a) {
                    let j = choose|j: int| 0 <= j < views(v@).len() && views(v@)[j] == a;
                    if j < before.len() {
                        assert(before[j] == a);
                    }
                }
                if a == xv {
                    assert(views(v@)[before.len() as int] == a);
                }
            }
            assert(views(v@).to_set() =~= before.to_set().insert(xv));
        },
    }
}

/// Removes a value from a list that holds each value once.
pub fn set_remove<V: Item>(v: &mut Vec<V>, x: &V)
    requires
        distinct(old(v)@),
    ensures
        distinct(final(v)@),
        views(final(v)@).to_set() == views(old(v)@).to_set().remove(x@),
{
    match position_of(v, x) {
        Some(i) => {
            let ghost before = views(v@);
            v.remove(i);
            assert(views(v@) =~= before.remove(i as int));
            assert forall|a: V::V| views(v@).to_set().contains(a) == before.to_set().remove(x@).contains(a) by {
                let after = views(v@);
                if after.contains(a) {
                    let j = choose|j: int| 0 <= j < after.len() && after[j] == a;
                    let j2 = if j < i { j } else { j + 1 };
                    assert(before[j2] == a);
                    assert(j2 != i as int);
                    assert(before[i as int] == x@);
                    assert(before.no_duplicates());
                    assert(a != x@);
                }
                if before.contains(a) && a != x@ {
                    let j = choose|j: int| 0 <= j < before.len() && before[j] == a;
                    assert(j != i as int);
                    let j2 = if j < i { j } else { j - 1 };
                    assert(after[j2] == a);
                }
            }
            assert(views(v@).to_set() =~= before.to_set().remove(x@));
        },
        None => {
            assert(views(v@).to_set() =~= views(v@).to_set().remove(x@));
        },
    }
}

/// A copy of a list of values.
pub fn copy_all<V: Item>(v: &Vec<V>) -> (r: Vec<V>)
    ensures
        views(r@) == views(v@),
{
    let mut out: Vec<V> = Vec::new();
    let mut i: usize = 0;
    while i < v.len()
        invariant
            i <= v@.len(),
            out@.len() == i,
            forall|j: int| 0 <= j < i ==> out@[j]@ == v@[j]@,
        decreases v.len() - i,
    {
        out.push(v[i].duplicate());
        i = i + 1;
    }
    assert(views(out@) =~= views(v@));
    out
}

/// A map from keys to sets of values.
pub struct SetMap<K, V> {
    entries: Vec<(K, Vec<V>)>,
}

/// A position of the entries that holds the key (if any does).
pub open spec fn key_index<K: View, V>(s: Seq<(K, Vec<V>)>, k: K::V) -> int {
    choose|i: int| 0 <= i < s.len() && #[trigger] s[i].0@ == k
}

/// Some entry holds the key.
pub open spec fn has_key<K: View, V>(s: Seq<(K, Vec<V>)>, k: K::V) -> bool {
    exists|i: int| 0 <= i < s.len() && #[trigger] s[i].0@ == k
}

impl<K: Item, V: Item> SetMap<K, V> {
    /// Each key occurs once, and each value once in its entry.
    pub closed spec fn wf(&self) -> bool {
        &&& forall|i: int, j: int|
            0 <= i < self.entries@.len() && 0 <= j < self.entries@.len() && i != j
                ==> self.entries@[i].0@ != self.entries@[j].0@
        &&& forall|i: int| 0 <= i < self.entries@.len() ==> distinct(#[trigger] self.entries@[i].1@)
    }

    /// The sets of values by key.
    pub closed spec fn view(&self) -> Map<K::V, Set<V::V>> {
        Map::new(
            |k: K::V| has_key(self.entries@, k),
            |k: K::V| views(self.entries@[key_index(self.entries@, k)].1@).to_set(),
        )
    }

    proof fn lemma_at(&self, i: int)
        requires
            self.wf(),
            0 <= i < self.entries@.len(),
        ensures
            self@.contains_key(self.entries@[i].0@),
            self@[self.entries@[i].0@] == views(self.entries@[i].1@).to_set(),
            key_index(self.entries@, self.entries@[i].0@) == i,
    {
        assert(has_key(self.entries@, self.entries@[i].0@));
        let j = key_index(self.entries@, self.entries@[i].0@);
        assert(self.entries@[j].0@ == self.entries@[i].0@);
    }

    /// The empty map.
    pub fn new() -> (r: Self)
        ensures
            r.wf(),
            r@ == Map::<K::V, Set<V::V>>::empty(),
    {
        let r = SetMap { entries: Vec::new() };
        assert(r@ =~= Map::<K::V, Set<V::V>>::empty());
        r
    }

    fn find(&self, k: &K) -> (r: Option<usize>)
        requires
            self.wf(),
        ensures
            r matches Some(i) ==> i < self.entries@.len() && self.entries@[i as int].0@ == k@,
            r is None ==> !self@.contains_key(k@),
    {
        let mut i: usize = 0;
        while i < self.entries.len()
            invariant
                i <= self.entries@.len(),
                forall|j: int| 0 <= j < i ==> self.entries@[j].0@ != k@,
            decreases self.entries.len() - i,
        {
            if self.entries[i].0.same(k) {
                return Some(i);
            }
            i = i + 1;
        }
        proof {
            if has_key(self.entries@, k@) {
                let j = key_index(self.entries@, k@);
                assert(self.entries@[j].0@ == k@);
            }
        }
        None
    }

    /// Adds a value to the set of a key (creating the set when the key is new).
    pub fn insert(&mut self, k: &K, x: V)
        requires
            old(self).wf(),
        ensures
            final(self).wf(),
            final(self)@ == old(self)@.insert(
                k@,
                if old(self)@.contains_key(k@) {
                    old(self)@[k@].insert(x@)
                } else {
                    Set::empty().insert(x@)
                },
            ),
    {
        let ghost old_map = self@;
        let ghost xv = x@;
        match self.find(k) {
            Some(i) => {
                proof {
                    self.lemma_at(i as int);
                }
                let ghost old_entries = self.entries@;
                let mut pair = self.entries.remove(i);
                set_insert(&mut pair.1, x);
                self.entries.insert(i, pair);
                proof {
                    assert(self.entries@ =~= old_entries.update(i as int, self.entries@[i as int]));
                    assert forall|a: int, b: int|
                        0 <= a < self.entries@.len() && 0 <= b < self.entries@.len() && a != b
                            implies self.entries@[a].0@ != self.entries@[b].0@ by {
                        assert(self.entries@[a].0@ == old_entries[a].0@);
                        assert(self.entries@[b].0@ == old_entries[b].0@);
                    }
                    assert forall|a: int| 0 <= a < self.entries@.len() implies distinct(
                        #[trigger] self.entries@[a].1@,
                    ) by {
                        if a != i as int {
                            assert(self.entries@[a] == old_entries[a]);
                        }
                    }
                    assert forall|kk: K::V| #[trigger] has_key(self.entries@, kk) == has_key(old_entries, kk) by {
                        if has_key(old_entries, kk) {
                            let j = key_index(old_entries, kk);
                            assert(self.entries@[j].0@ == kk);
                        }
                        if has_key(self.entries@, kk) {
                            let j = key_index(self.entries@, kk);
                            assert(old_entries[j].0@ == kk);
                        }
                    }
                    assert forall|kk: K::V| #[trigger] self@.contains_key(kk) implies self@[kk]
                        == old_map.insert(k@, old_map[k@].insert(xv))[kk] by {
                        let j = key_index(self.entries@, kk);
                        self.lemma_at(j);
                        if j != i as int {
                            assert(self.entries@[j] == old_entries[j]);
                            assert(old_entries[j].0@ == kk);
                            assert(has_key(old_entries, kk));
                            let j2 = key_index(old_entries, kk);
                            assert(old_entries[j2].0@ == kk);
                            if j2 != j {
                                assert(self.entries@[j2].0@ == kk);
                            }
                        }
                    }
                    assert(self@ =~= old_map.insert(k@, old_map[k@].insert(xv)));
                }
            },
            None => {
                let mut vals: Vec<V> = Vec::new();
                let ghost old_entries = self.entries@;
                set_insert(&mut vals, x);
                let kk = k.duplicate();
                self.entries.push((kk, vals));
                proof {
                    let n = old_entries.len() as int;
                    assert(self.entries@ =~= old_entries.push(self.entries@[n]));
                    assert forall|a: int, b: int|
                        0 <= a < self.entries@.len() && 0 <= b < self.entries@.len() && a != b
                            implies self.entries@[a].0@ != self.entries@[b].0@ by {
                        if a == n {
                            assert(!has_key(old_entries, k@));
                            assert(old_entries[b].0@ == self.entries@[b].0@);
                        } else if b == n {
                            assert(!has_key(old_entries, k@));
                            assert(old_entries[a].0@ == self.entries@[a].0@);
                        } else {
                            assert(old_entries[a].0@ == self.entries@[a].0@);
                            assert(old_entries[b].0@ == self.entries@[b].0@);
                        }
                    }
                    assert forall|a: int| 0 <= a < self.entries@.len() implies distinct(
                        #[trigger] self.entries@[a].1@,
                    ) by {
                        if a != n {
                            assert(self.entries@[a] == old_entries[a]);
                        }
                    }
                    assert forall|kk2: K::V| #[trigger] has_key(self.entries@, kk2) == (has_key(old_entries, kk2) || kk2 == k@) by {
                        if has_key(old_entries, kk2) {
                            let j = key_index(old_entries, kk2);
                            assert(self.entries@[j].0@ == kk2);
                        }
                        if kk2 == k@ {
                            assert(self.entries@[n].0@ == kk2);
                        }
                        if has_key(self.entries@, kk2) && kk2 != k@ {
                            let j = key_index(self.entries@, kk2);
                            assert(j != n);
                            assert(old_entries[j].0@ == kk2);
                        }
                    }
                    assert(Set::<V::V>::empty().insert(xv) =~= views(self.entries@[n].1@).to_set());
                    assert forall|kk2: K::V| #[trigger] self@.contains_key(kk2) implies self@[kk2]
                        == old_map.insert(k@, Set::empty().insert(xv))[kk2] by {
                        let j = key_index(self.entries@, kk2);
                        self.lemma_at(j);
                        if j != n {
                            assert(self.entries@[j] == old_entries[j]);
                            let j2 = key_index(old_entries, kk2);
                            assert(old_entries[j2].0@ == kk2);
                            assert(self.entries@[j2].0@ == kk2);
                        }
                    }
                    assert(self@ =~= old_map.insert(k@, Set::empty().insert(xv)));
                }
            },
        }
    }

    /// Removes a value from the set of a key; a key without a set is left
    /// alone. The key's (possibly empty) set remains.
    pub fn remove_value(&mut self, k: &K, x: &V)
        requires
            old(self).wf(),
        ensures
            final(self).wf(),
            final(self)@ == if old(self)@.contains_key(k@) {
                old(self)@.insert(k@, old(self)@[k@].remove(x@))
            } else {
                old(self)@
            },
    {
        let ghost old_map = self@;
        match self.find(k) {
            Some(i) => {
                proof {
                    self.lemma_at(i as int);
                }
                let ghost old_entries = self.entries@;
                let mut pair = self.entries.remove(i);
                set_remove(&mut pair.1, x);
                self.entries.insert(i, pair);
                proof {
                    assert(self.entries@ =~= old_entries.update(i as int, self.entries@[i as int]));
                    assert forall|a: int, b: int|
                        0 <= a < self.entries@.len() && 0 <= b < self.entries@.len() && a != b
                            implies self.entries@[a].0@ != self.entries@[b].0@ by {
                        assert(self.entries@[a].0@ == old_entries[a].0@);
                        assert(self.entries@[b].0@ == old_entries[b].0@);
                    }
                    assert forall|a: int| 0 <= a < self.entries@.len() implies distinct(
                        #[trigger] self.entries@[a].1@,
                    ) by {
                        if a != i as int {
                            assert(self.entries@[a] == old_entries[a]);
                        }
                    }
                    assert forall|kk: K::V| #[trigger] has_key(self.entries@, kk) == has_key(old_entries, kk) by {
                        if has_key(old_entries, kk) {
                            let j = key_index(old_entries, kk);
                            assert(self.entries@[j].0@ == kk);
                        }
                        if has_key(self.entries@, kk) {
                            let j = key_index(self.entries@, kk);
                            assert(old_entries[j].0@ == kk);
                        }
                    }
                    assert forall|kk: K::V| #[trigger] self@.contains_key(kk) implies self@[kk]
                        == old_map.insert(k@, old_map[k@].remove(x@))[kk] by {
                        let j = key_index(self.entries@, kk);
                        self.lemma_at(j);
                        if j != i as int {
                            assert(self.entries@[j] == old_entries[j]);
                            let j2 = key_index(old_entries, kk);
                            assert(old_entries[j2].0@ == kk);
                            if j2 != j {
                                assert(self.entries@[j2].0@ == kk);
                            }
                        }
                    }
                    assert(self@ =~= old_map.insert(k@, old_map[k@].remove(x@)));
                }
            },
            None => {},
        }
    }

    /// The values of a key's set (none when the key has no set), each once.
    pub fn get(&self, k: &K) -> (r: Vec<V>)
        requires
            self.wf(),
        ensures
            distinct(r@),
            views(r@).to_set() == if self@.contains_key(k@) {
                self@[k@]
            } else {
                Set::empty()
            },
    {
        match self.find(k) {
            Some(i) => {
                proof {
                    self.lemma_at(i as int);
                }
                copy_all(&self.entries[i].1)
            },
            None => {
                let r: Vec<V> = Vec::new();
                assert(views(r@).to_set() =~= Set::empty());
                r
            },
        }
    }
}

} // verus!
