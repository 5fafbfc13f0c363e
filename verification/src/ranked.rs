//! Maps over small key types, kept in the order of the keys' ranks.

use vstd::prelude::*;

verus! {

/// A key type whose values are told apart and ordered by a number.
pub trait Ranked: Sized + Copy {
    /// The place of a key in the order.
    spec fn rank_of(self) -> nat;

    /// Keys of one rank are one key.
    proof fn rank_injective(a: Self, b: Self)
        requires
            a.rank_of() == b.rank_of(),
        ensures
            a == b,
    ;

    /// The place of a key in the order.
    fn rank(self) -> (r: u8)
        ensures
            r == self.rank_of(),
    ;
}

/// The ranks of the entries' keys strictly ascend.
pub open spec fn ranks_ascend<K: Ranked, V>(entries: Seq<(K, V)>) -> bool {
    forall|i: int, j: int|
        #![trigger entries[i], entries[j]]
        0 <= i < j < entries.len() ==> entries[i].0.rank_of() < entries[j].0.rank_of()
}

/// The place of the entry with the given key.
pub open spec fn ranked_index<K: Ranked, V>(entries: Seq<(K, V)>, key: K) -> int {
    choose|i: int| 0 <= i < entries.len() && (#[trigger] entries[i]).0 == key
}

/// The map that a list of entries stands for.
pub open spec fn ranked_entries_map<K: Ranked, V>(entries: Seq<(K, V)>) -> Map<K, V> {
    Map::new(
        |key: K| exists|i: int| 0 <= i < entries.len() && (#[trigger] entries[i]).0 == key,
        |key: K| entries[ranked_index(entries, key)].1,
    )
}

/// A map that is walked in the order of its keys' ranks.
#[derive(Debug)]
pub struct RankedMap<K: Ranked, V> {
    items: Vec<(K, V)>,
}

impl<K: Ranked, V> View for RankedMap<K, V> {
    type V = Map<K, V>;

    open spec fn view(&self) -> Map<K, V> {
        ranked_entries_map(self.entries())
    }
}

impl<K: Ranked, V> RankedMap<K, V> {
    /// The entries in the order of their keys.
    pub closed spec fn entries(&self) -> Seq<(K, V)> {
        self.items@
    }

    #[verifier::type_invariant]
    spec fn keys_ascend(self) -> bool {
        ranks_ascend(self.entries())
    }

    /// The empty map.
    pub fn new() -> (map: Self)
        ensures
            map.entries().len() == 0,
            map@ == Map::<K, V>::empty(),
    {
        let items: Vec<(K, V)> = Vec::new();
        let map = RankedMap { items };
        proof {
            assert(map@ =~= Map::<K, V>::empty());
        }
        map
    }

    /// How many entries there are.
    pub fn len(&self) -> (n: usize)
        ensures
            n == self.entries().len(),
            ranks_ascend(self.entries()),
    {
        proof {
            use_type_invariant(self);
        }
        self.items.len()
    }

    /// Whether there is no entry.
    pub fn is_empty(&self) -> (result: bool)
        ensures
            result == (self.entries().len() == 0),
    {
        self.items.len() == 0
    }

    /// The key of the entry at place `i`.
    pub fn key_at(&self, i: usize) -> (key: K)
        requires
            i < self.entries().len(),
        ensures
            key == self.entries()[i as int].0,
    {
        self.items[i].0
    }

    /// The value of the entry at place `i`.
    pub fn value_at(&self, i: usize) -> (value: &V)
        requires
            i < self.entries().len(),
        ensures
            *value == self.entries()[i as int].1,
    {
        &self.items[i].1
    }

    fn search(&self, key: K) -> (found: (bool, usize))
        ensures
            ranks_ascend(self.entries()),
            found.1 <= self.entries().len(),
            found.0 ==> found.1 < self.entries().len() && self.entries()[found.1 as int].0 == key,
            !found.0 ==> forall|k: int|
                0 <= k < found.1 ==> (#[trigger] self.entries()[k]).0.rank_of() < key.rank_of(),
            !found.0 ==> forall|k: int|
                found.1 <= k < self.entries().len() ==> key.rank_of() < (
                #[trigger] self.entries()[k]).0.rank_of(),
    {
        proof {
            use_type_invariant(self);
        }
        let ghost entries = self.entries();
        let mut i: usize = 0;
        while i < self.items.len()
            invariant
                entries == self.entries(),
                entries == self.items@,
                ranks_ascend(entries),
                i <= entries.len(),
                forall|k: int| 0 <= k < i ==> (#[trigger] entries[k]).0.rank_of() < key.rank_of(),
            decreases entries.len() - i,
        {
            let r: u8 = self.items[i].0.rank();
            if r == key.rank() {
                proof {
                    K::rank_injective(entries[i as int].0, key);
                }
                return (true, i);
            }
            if r > key.rank() {
                return (false, i);
            }
            i += 1;
        }
        (false, i)
    }

    /// The value of a key.
    pub fn get(&self, key: K) -> (value: Option<&V>)
        ensures
            match value {
                Some(v) => self@.contains_key(key) && *v == self@[key],
                None => !self@.contains_key(key),
            },
    {
        let (found, i) = self.search(key);
        proof {
            lemma_ranked_lookup(self.entries(), key);
        }
        if found {
            proof {
                assert(self.entries()[i as int].0 == key);
            }
            Some(&self.items[i].1)
        } else {
            None
        }
    }

    /// Gives a key its value, in place of the one that it had.
    pub fn insert(&mut self, key: K, value: V)
        ensures
            final(self)@ == old(self)@.insert(key, value),
            ranks_ascend(final(self).entries()),
    {
        let (found, i) = self.search(key);
        let ghost before = self.entries();
        let mut items: Vec<(K, V)> = Vec::new();
        std::mem::swap(&mut items, &mut self.items);
        if found {
            items.set(i, (key, value));
        } else {
            items.insert(i, (key, value));
        }
        proof {
            let after = items@;
            assert(ranks_ascend(after)) by {
                assert forall|a: int, b: int|
                    #![trigger after[a], after[b]]
                    0 <= a < b < after.len() implies after[a].0.rank_of()
                    < after[b].0.rank_of() by {
                    if found {
                        assert(after[a].0 == before[a].0);
                        assert(after[b].0 == before[b].0);
                    } else {
                        let x = if a < i { a } else { a - 1 };
                        let y = if b < i { b } else { b - 1 };
                        if a == i {
                            assert(after[b] == before[y]);
                        } else if b == i {
                            assert(after[a] == before[x]);
                        } else {
                            assert(after[a] == before[x]);
                            assert(after[b] == before[y]);
                        }
                    }
                }
            }
            lemma_ranked_inserted(before, after, key, value, i as int, found);
        }
        self.items = items;
    }
}

/// Keys whose ranks ascend are found at one place only.
pub proof fn lemma_ranked_lookup<K: Ranked, V>(entries: Seq<(K, V)>, key: K)
    requires
        ranks_ascend(entries),
    ensures
        forall|i: int|
            0 <= i < entries.len() && (#[trigger] entries[i]).0 == key ==> ranked_entries_map(
                entries,
            ).contains_key(key) && ranked_entries_map(entries)[key] == entries[i].1
                && ranked_index(entries, key) == i,
{
    assert forall|i: int| 0 <= i < entries.len() && (#[trigger] entries[i]).0 == key implies
        ranked_entries_map(entries).contains_key(key) && ranked_entries_map(entries)[key]
        == entries[i].1 && ranked_index(entries, key) == i by {
        let j = ranked_index(entries, key);
        assert(0 <= j < entries.len() && entries[j].0 == key);
    }
}

proof fn lemma_ranked_inserted<K: Ranked, V>(
    before: Seq<(K, V)>,
    after: Seq<(K, V)>,
    key: K,
    value: V,
    i: int,
    found: bool,
)
    requires
        ranks_ascend(before),
        ranks_ascend(after),
        found ==> 0 <= i < before.len() && before[i].0 == key && after == before.update(
            i,
            (key, value),
        ),
        !found ==> 0 <= i <= before.len() && after == before.insert(i, (key, value)),
    ensures
        ranked_entries_map(after) == ranked_entries_map(before).insert(key, value),
{
    let a = ranked_entries_map(after);
    let b = ranked_entries_map(before).insert(key, value);
    assert(after[i] == (key, value));
    assert forall|k: K|
        #![trigger a.dom().contains(k)]
        #![trigger b.dom().contains(k)]
        a.dom().contains(k) == b.dom().contains(k) && (a.dom().contains(k) ==> a[k] == b[k]) by {
        lemma_ranked_lookup(before, k);
        lemma_ranked_lookup(after, k);
        if a.contains_key(k) {
            let j = ranked_index(after, k);
            assert(0 <= j < after.len() && after[j].0 == k);
            if j == i {
                assert(after[i].0 == key);
            } else if found {
                assert(after[j] == before[j]);
            } else if j < i {
                assert(after[j] == before[j]);
            } else {
                assert(after[j] == before[j - 1]);
            }
            if k == key && j != i {
                if j < i {
                    assert(after[j].0.rank_of() < after[i].0.rank_of());
                } else {
                    assert(after[i].0.rank_of() < after[j].0.rank_of());
                }
            }
        }
        if b.contains_key(k) && k != key {
            let j = ranked_index(before, k);
            assert(0 <= j < before.len() && before[j].0 == k);
            if found || j < i {
                assert(after[j] == before[j]);
            } else {
                assert(after[j + 1] == before[j]);
            }
        }
    }
    assert(a =~= b);
}

} // verus!
