//! Values that can be compared and copied, and maps of them.

use vstd::prelude::*;
use vstd::string::*;
use crate::ordered::{ascending, entries_map, entry_index, lemma_lookup, OrderedMap};
use crate::text::same;

verus! {

/// A value that is told by its view.
pub trait Plain: View + Sized {
    /// Whether two values are the same.
    fn same_as(&self, other: &Self) -> (result: bool)
        ensures
            result == (self@ == other@),
    ;

    /// A second value that is the same.
    fn copy(&self) -> (other: Self)
        ensures
            other@ == self@,
    ;
}

impl Plain for String {
    fn same_as(&self, other: &Self) -> (result: bool) {
        same(self.as_str(), other.as_str())
    }

    fn copy(&self) -> (other: Self) {
        self.clone()
    }
}

impl Plain for u32 {
    fn same_as(&self, other: &Self) -> (result: bool) {
        *self == *other
    }

    fn copy(&self) -> (other: Self) {
        *self
    }
}

impl Plain for Vec<u8> {
    fn same_as(&self, other: &Self) -> (result: bool) {
        same_bytes(self, other)
    }

    fn copy(&self) -> (other: Self) {
        copy_bytes(self)
    }
}

/// Whether two rows of bytes are the same.
pub fn same_bytes(a: &Vec<u8>, b: &Vec<u8>) -> (result: bool)
    ensures
        result == (a@ == b@),
{
    if a.len() != b.len() {
        return false;
    }
    let mut i: usize = 0;
    while i < a.len()
        invariant
            i <= a.len() == b.len(),
            forall|k: int| 0 <= k < i ==> a@[k] == b@[k],
        decreases a.len() - i,
    {
        if a[i] != b[i] {
            return false;
        }
        i += 1;
    }
    proof {
        assert(a@ =~= b@);
    }
    true
}

/// A second row of the same bytes.
pub fn copy_bytes(bytes: &Vec<u8>) -> (copies: Vec<u8>)
    ensures
        copies@ == bytes@,
{
    let mut copies: Vec<u8> = Vec::new();
    let mut i: usize = 0;
    while i < bytes.len()
        invariant
            i <= bytes.len(),
            copies@ == bytes@.take(i as int),
        decreases bytes.len() - i,
    {
        copies.push(bytes[i]);
        proof {
            assert(bytes@.take(i + 1) =~= bytes@.take(i as int).push(bytes@[i as int]));
        }
        i += 1;
    }
    proof {
        assert(bytes@.take(i as int) =~= bytes@);
    }
    copies
}

/// The views of the values of a map.
pub open spec fn deep<T: View>(map: Map<Seq<char>, T>) -> Map<Seq<char>, T::V> {
    map.map_values(|value: T| value@)
}

fn stands_in<T: Plain>(a: &OrderedMap<T>, b: &OrderedMap<T>) -> (result: bool)
    ensures
        result == deep(a@).submap_of(deep(b@)),
{
    let n: usize = a.len();
    let ghost entries = a.entries();
    let mut i: usize = 0;
    while i < n
        invariant
            i <= n == entries.len(),
            entries == a.entries(),
            ascending(entries),
            forall|k: int|
                0 <= k < i ==> b@.contains_key((#[trigger] entries[k]).0)
                    && b@[entries[k].0]@ == entries[k].1@,
        decreases n - i,
    {
        let ghost key = entries[i as int].0;
        proof {
            lemma_lookup(entries, key);
            assert(a@.contains_key(key));
            assert(deep(a@).dom().contains(key));
            assert(deep(a@)[key] == entries[i as int].1@);
        }
        match b.get(a.key_at(i).as_str()) {
            Some(other) => {
                if !other.same_as(a.value_at(i)) {
                    proof {
                        assert(b@.dom().contains(key));
                        assert(deep(b@).dom().contains(key));
                        assert(deep(b@)[key] == other@);
                        assert(deep(a@)[key] != deep(b@)[key]);
                    }
                    return false;
                }
            },
            None => {
                proof {
                    assert(!deep(b@).dom().contains(key));
                }
                return false;
            },
        }
        i += 1;
    }
    proof {
        assert forall|k: Seq<char>| #[trigger] deep(a@).dom().contains(k) implies deep(
            b@,
        ).dom().contains(k) && deep(a@)[k] == deep(b@)[k] by {
            lemma_lookup(entries, k);
            let j = entry_index(entries, k);
            assert(0 <= j < entries.len() && entries[j].0 == k);
        }
    }
    true
}

/// Whether two maps hold the same values.
pub fn same_maps<T: Plain>(a: &OrderedMap<T>, b: &OrderedMap<T>) -> (result: bool)
    ensures
        result == (deep(a@) == deep(b@)),
{
    let x = stands_in(a, b);
    let y = stands_in(b, a);
    proof {
        if x && y {
            assert(deep(a@) =~= deep(b@));
        }
    }
    x && y
}

/// The first entries of a map, as a map.
pub proof fn lemma_first_entries<V>(entries: Seq<(Seq<char>, V)>, n: int)
    requires
        ascending(entries),
        0 <= n < entries.len(),
    ensures
        entries_map(entries.take(n + 1)) == entries_map(entries.take(n)).insert(
            entries[n].0,
            entries[n].1,
        ),
        !entries_map(entries.take(n)).contains_key(entries[n].0),
{
    let shorter = entries.take(n);
    let longer = entries.take(n + 1);
    let a = entries_map(longer);
    let b = entries_map(shorter).insert(entries[n].0, entries[n].1);
    assert(longer[n] == entries[n]);
    assert forall|i: int, j: int|
        #![trigger longer[i], longer[j]]
        0 <= i < j < longer.len() implies crate::ordered::precedes(longer[i].0, longer[j].0) by {
        assert(longer[i] == entries[i] && longer[j] == entries[j]);
    }
    assert forall|i: int, j: int|
        #![trigger shorter[i], shorter[j]]
        0 <= i < j < shorter.len() implies crate::ordered::precedes(shorter[i].0, shorter[j].0) by {
        assert(shorter[i] == entries[i] && shorter[j] == entries[j]);
    }
    assert forall|k: Seq<char>|
        #![trigger a.dom().contains(k)]
        #![trigger b.dom().contains(k)]
        a.dom().contains(k) == b.dom().contains(k) && (a.dom().contains(k) ==> a[k] == b[k]) by {
        lemma_lookup(longer, k);
        lemma_lookup(shorter, k);
        if a.contains_key(k) {
            let j = entry_index(longer, k);
            assert(0 <= j < longer.len() && longer[j].0 == k);
            if j < n {
                assert(shorter[j] == longer[j]);
            }
        }
        if entries_map(shorter).contains_key(k) {
            let j = entry_index(shorter, k);
            assert(0 <= j < shorter.len() && shorter[j].0 == k);
            assert(longer[j] == shorter[j]);
        }
    }
    assert(a =~= b);
    if entries_map(shorter).contains_key(entries[n].0) {
        let j = entry_index(shorter, entries[n].0);
        assert(0 <= j < shorter.len() && shorter[j].0 == entries[n].0);
        assert(entries[j] == shorter[j]);
        crate::ordered::lemma_precedes_irreflexive(entries[n].0);
        assert(crate::ordered::precedes(entries[j].0, entries[n].0));
    }
}

/// A second map of the same values.
pub fn copy_map<T: Plain>(map: &OrderedMap<T>) -> (copies: OrderedMap<T>)
    ensures
        deep(copies@) == deep(map@),
{
    let mut copies: OrderedMap<T> = OrderedMap::new();
    let n: usize = map.len();
    let ghost entries = map.entries();
    let mut i: usize = 0;
    proof {
        assert(deep(copies@) =~= deep(entries_map(entries.take(0))));
    }
    while i < n
        invariant
            i <= n == entries.len(),
            entries == map.entries(),
            ascending(entries),
            deep(copies@) == deep(entries_map(entries.take(i as int))),
        decreases n - i,
    {
        let ghost before = copies@;
        let value = map.value_at(i).copy();
        let ghost view = value@;
        copies.insert(map.key_at(i).clone(), value);
        proof {
            lemma_first_entries(entries, i as int);
            let key = entries[i as int].0;
            assert(deep(copies@) =~= deep(before).insert(key, view));
            assert(deep(entries_map(entries.take(i + 1))) =~= deep(
                entries_map(entries.take(i as int)),
            ).insert(key, view));
        }
        i += 1;
    }
    proof {
        assert(entries.take(i as int) =~= entries);
    }
    copies
}

} // verus!
