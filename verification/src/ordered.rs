//! Maps that keep their entries in the order of their keys.

use vstd::prelude::*;
use vstd::string::*;
use crate::text::to_chars;

verus! {

/// Strictly before, by the first character in which two texts differ; a text
/// comes before its continuations.
pub open spec fn precedes(a: Seq<char>, b: Seq<char>) -> bool
    decreases a.len(),
{
    if b.len() == 0 {
        false
    } else if a.len() == 0 {
        true
    } else if a[0] != b[0] {
        a[0] < b[0]
    } else {
        precedes(a.drop_first(), b.drop_first())
    }
}

/// No text precedes itself.
pub proof fn lemma_precedes_irreflexive(a: Seq<char>)
    ensures
        !precedes(a, a),
    decreases a.len(),
{
    if a.len() > 0 {
        lemma_precedes_irreflexive(a.drop_first());
    }
}

/// The order of texts is transitive.
pub proof fn lemma_precedes_transitive(a: Seq<char>, b: Seq<char>, c: Seq<char>)
    requires
        precedes(a, b),
        precedes(b, c),
    ensures
        precedes(a, c),
    decreases a.len(),
{
    if a.len() > 0 && a[0] == b[0] && b[0] == c[0] {
        lemma_precedes_transitive(a.drop_first(), b.drop_first(), c.drop_first());
    }
}

/// Of two different texts one precedes the other.
pub proof fn lemma_precedes_total(a: Seq<char>, b: Seq<char>)
    ensures
        a == b || precedes(a, b) || precedes(b, a),
    decreases a.len(),
{
    if a.len() == 0 || b.len() == 0 {
        assert(a.len() == 0 && b.len() == 0 ==> a =~= b);
    } else if a[0] == b[0] {
        lemma_precedes_total(a.drop_first(), b.drop_first());
        if a.drop_first() == b.drop_first() {
            assert(a =~= b) by {
                assert forall|i: int| 0 <= i < a.len() implies a[i] == b[i] by {
                    if i > 0 {
                        assert(a[i] == a.drop_first()[i - 1]);
                        assert(b[i] == b.drop_first()[i - 1]);
                    }
                }
                assert(a.drop_first().len() == b.drop_first().len());
            }
        }
    }
}

/// How one text stands to another.
#[derive(Debug, Clone, Copy, PartialEq, Eq, Structural)]
pub enum Place {
    Before,
    Same,
    After,
}

/// How `a` stands to `b` in the order of texts.
pub fn place(a: &str, b: &str) -> (result: Place)
    ensures
        match result {
            Place::Before => precedes(a@, b@) && a@ != b@,
            Place::Same => a@ == b@,
            Place::After => precedes(b@, a@) && a@ != b@,
        },
{
    let x = to_chars(a);
    let y = to_chars(b);
    let mut i: usize = 0;
    proof {
        assert(a@.skip(0) =~= a@);
        assert(b@.skip(0) =~= b@);
        lemma_precedes_irreflexive(a@);
    }
    while i < x.len() && i < y.len()
        invariant
            x@ == a@,
            y@ == b@,
            i <= a@.len(),
            i <= b@.len(),
            !precedes(a@, a@),
            forall|k: int| 0 <= k < i ==> a@[k] == b@[k],
            precedes(a@, b@) == precedes(a@.skip(i as int), b@.skip(i as int)),
            precedes(b@, a@) == precedes(b@.skip(i as int), a@.skip(i as int)),
        decreases x.len() - i,
    {
        proof {
            assert(a@.skip(i as int).drop_first() =~= a@.skip(i + 1));
            assert(b@.skip(i as int).drop_first() =~= b@.skip(i + 1));
        }
        if x[i] < y[i] {
            return Place::Before;
        }
        if y[i] < x[i] {
            return Place::After;
        }
        i += 1;
    }
    if i < y.len() {
        Place::Before
    } else if i < x.len() {
        Place::After
    } else {
        proof {
            assert(a@ =~= b@);
        }
        Place::Same
    }
}

/// The keys of the entries strictly ascend.
pub open spec fn ascending<V>(entries: Seq<(Seq<char>, V)>) -> bool {
    forall|i: int, j: int|
        #![trigger entries[i], entries[j]]
        0 <= i < j < entries.len() ==> precedes(entries[i].0, entries[j].0)
}

/// The place of the entry with the given key.
pub open spec fn entry_index<V>(entries: Seq<(Seq<char>, V)>, key: Seq<char>) -> int {
    choose|i: int| 0 <= i < entries.len() && (#[trigger] entries[i]).0 == key
}

/// The map that a list of entries stands for.
pub open spec fn entries_map<V>(entries: Seq<(Seq<char>, V)>) -> Map<Seq<char>, V> {
    Map::new(
        |key: Seq<char>| exists|i: int| 0 <= i < entries.len() && (#[trigger] entries[i]).0 == key,
        |key: Seq<char>| entries[entry_index(entries, key)].1,
    )
}

/// A map from strings, walked in the order of its keys.
#[derive(Debug)]
pub struct OrderedMap<V> {
    items: Vec<(String, V)>,
}

impl<V> View for OrderedMap<V> {
    type V = Map<Seq<char>, V>;

    open spec fn view(&self) -> Map<Seq<char>, V> {
        entries_map(self.entries())
    }
}

impl<V> OrderedMap<V> {
    /// The entries in the order of their keys.
    pub closed spec fn entries(&self) -> Seq<(Seq<char>, V)> {
        self.items@.map_values(|item: (String, V)| (item.0@, item.1))
    }

    /// A value of the map is smaller than the map.
    pub proof fn lemma_entry_decreases(self, i: int)
        requires
            0 <= i < self.entries().len(),
        ensures
            decreases_to!(self => self.entries()[i].1),
    {
        assert(self.entries()[i].1 == self.items@[i].1);
        assert(decreases_to!(self.items@ => self.items@[i]));
        assert(decreases_to!(self.items@[i] => self.items@[i].1));
        assert(decreases_to!(self => self.items));
        assert(decreases_to!(self.items => self.items@));
    }

    /// The entries stand in the order of their keys.
    #[verifier::type_invariant]
    pub open spec fn keys_ascend(self) -> bool {
        ascending(self.entries())
    }

    /// The empty map.
    pub fn new() -> (map: Self)
        ensures
            map.entries().len() == 0,
            map@ == Map::<Seq<char>, V>::empty(),
    {
        let items: Vec<(String, V)> = Vec::new();
        let map = OrderedMap { items };
        proof {
            assert(map@ =~= Map::<Seq<char>, V>::empty());
        }
        map
    }

    /// How many entries there are.
    pub fn len(&self) -> (n: usize)
        ensures
            n == self.entries().len(),
            ascending(self.entries()),
    {
        proof {
            use_type_invariant(self);
        }
        self.items.len()
    }

    /// Whether there is no entry.
    pub fn is_empty(&self) -> (result: bool)
        ensures
            result == (self.entries().len() == 0),
    {
        self.items.len() == 0
    }

    /// The key of the entry at place `i`.
    pub fn key_at(&self, i: usize) -> (key: &String)
        requires
            i < self.entries().len(),
        ensures
            key@ == self.entries()[i as int].0,
    {
        &self.items[i].0
    }

    /// The value of the entry at place `i`.
    pub fn value_at(&self, i: usize) -> (value: &V)
        requires
            i < self.entries().len(),
        ensures
            *value == self.entries()[i as int].1,
    {
        &self.items[i].1
    }

    /// The place of a key, or the place at which it belongs.
    fn search(&self, key: &str) -> (found: (bool, usize))
        ensures
            ascending(self.entries()),
            found.1 <= self.entries().len(),
            found.0 ==> found.1 < self.entries().len() && self.entries()[found.1 as int].0 == key@,
            !found.0 ==> forall|k: int|
                0 <= k < found.1 ==> precedes((#[trigger] self.entries()[k]).0, key@),
            !found.0 ==> forall|k: int|
                found.1 <= k < self.entries().len() ==> precedes(
                    key@,
                    (#[trigger] self.entries()[k]).0,
                ),
    {
        proof {
            use_type_invariant(self);
        }
        let ghost entries = self.entries();
        let mut i: usize = 0;
        while i < self.items.len()
            invariant
                entries == self.entries(),
                ascending(entries),
                i <= entries.len() == self.items.len(),
                forall|k: int| 0 <= k < i ==> precedes((#[trigger] entries[k]).0, key@),
            decreases self.items.len() - i,
        {
            match place(self.items[i].0.as_str(), key) {
                Place::Same => {
                    return (true, i);
                },
                Place::After => {
                    proof {
                        assert forall|k: int| i <= k < entries.len() implies precedes(
                            key@,
                            (#[trigger] entries[k]).0,
                        ) by {
                            if k > i {
                                assert(precedes(entries[i as int].0, entries[k].0));
                                lemma_precedes_transitive(
                                    key@,
                                    entries[i as int].0,
                                    entries[k].0,
                                );
                            }
                        }
                    }
                    return (false, i);
                },
                Place::Before => {},
            }
            i += 1;
        }
        (false, i)
    }

    /// The value of a key.
    pub fn get(&self, key: &str) -> (value: Option<&V>)
        ensures
            match value {
                Some(v) => self@.contains_key(key@) && *v == self@[key@],
                None => !self@.contains_key(key@),
            },
    {
        let (found, i) = self.search(key);
        proof {
            lemma_lookup(self.entries(), key@);
        }
        if found {
            proof {
                assert(self.entries()[i as int].0 == key@);
            }
            Some(&self.items[i].1)
        } else {
            proof {
                assert forall|k: int| 0 <= k < self.entries().len() implies (
                #[trigger] self.entries()[k]).0 != key@ by {
                    lemma_precedes_irreflexive(key@);
                }
            }
            None
        }
    }

    /// Whether a key has a value.
    pub fn contains_key(&self, key: &str) -> (result: bool)
        ensures
            result == self@.contains_key(key@),
    {
        match self.get(key) {
            Some(_) => true,
            None => false,
        }
    }

    /// Gives a key its value, in place of the one that it had.
    pub fn insert(&mut self, key: String, value: V)
        ensures
            final(self)@ == old(self)@.insert(key@, value),
            ascending(final(self).entries()),
    {
        let (found, i) = self.search(key.as_str());
        let ghost before = self.entries();
        let ghost name = key@;
        let mut items: Vec<(String, V)> = Vec::new();
        std::mem::swap(&mut items, &mut self.items);
        let ghost old_items = items@;
        if found {
            items.set(i, (key, value));
        } else {
            items.insert(i, (key, value));
        }
        proof {
            let after = items@.map_values(|item: (String, V)| (item.0@, item.1));
            if found {
                assert(after =~= before.update(i as int, (name, value)));
            } else {
                assert(after =~= before.insert(i as int, (name, value)));
            }
            assert(ascending(after)) by {
                assert forall|a: int, b: int|
                    #![trigger after[a], after[b]]
                    0 <= a < b < after.len() implies precedes(after[a].0, after[b].0) by {
                    if found {
                        assert(after[a].0 == before[a].0);
                        assert(after[b].0 == before[b].0);
                    } else {
                        let x = if a < i { a } else { a - 1 };
                        let y = if b < i { b } else { b - 1 };
                        if a == i {
                            assert(after[b] == before[y]);
                        } else if b == i {
                            assert(after[a] == before[x]);
                        } else {
                            assert(after[a] == before[x]);
                            assert(after[b] == before[y]);
                        }
                    }
                }
            }
            assert(entries_map(after) =~= entries_map(before).insert(name, value)) by {
                lemma_inserted(before, after, name, value, i as int, found);
            }
        }
        self.items = items;
    }

    /// Takes a key and its value out.
    pub fn remove(&mut self, key: &str)
        ensures
            final(self)@ == old(self)@.remove(key@),
            ascending(final(self).entries()),
    {
        let (found, i) = self.search(key);
        let ghost before = self.entries();
        proof {
            lemma_lookup(before, key@);
            if !found {
                assert forall|k: int| 0 <= k < before.len() implies (#[trigger] before[k]).0
                    != key@ by {
                    lemma_precedes_irreflexive(key@);
                }
                assert(self@ =~= self@.remove(key@));
            }
        }
        if found {
            let mut items: Vec<(String, V)> = Vec::new();
            std::mem::swap(&mut items, &mut self.items);
            items.remove(i);
            proof {
                let after = items@.map_values(|item: (String, V)| (item.0@, item.1));
                assert(after =~= before.remove(i as int));
                assert(ascending(after)) by {
                    assert forall|a: int, b: int|
                        #![trigger after[a], after[b]]
                        0 <= a < b < after.len() implies precedes(after[a].0, after[b].0) by {
                        let x = if a < i { a } else { a + 1 };
                        let y = if b < i { b } else { b + 1 };
                        assert(after[a] == before[x]);
                        assert(after[b] == before[y]);
                    }
                }
                assert(entries_map(after) =~= entries_map(before).remove(key@)) by {
                    lemma_removed(before, after, i as int);
                }
            }
            self.items = items;
        }
    }
}

/// Keys that ascend are found at one place only.
pub proof fn lemma_lookup<V>(entries: Seq<(Seq<char>, V)>, key: Seq<char>)
    requires
        ascending(entries),
    ensures
        forall|i: int|
            0 <= i < entries.len() && (#[trigger] entries[i]).0 == key ==> entries_map(
                entries,
            ).contains_key(key) && entries_map(entries)[key] == entries[i].1 && entry_index(
                entries,
                key,
            ) == i,
{
    assert forall|i: int| 0 <= i < entries.len() && (#[trigger] entries[i]).0 == key implies
        entries_map(entries).contains_key(key) && entries_map(entries)[key] == entries[i].1
        && entry_index(entries, key) == i by {
        let j = entry_index(entries, key);
        assert(0 <= j < entries.len() && entries[j].0 == key);
        lemma_precedes_irreflexive(key);
        if i < j {
            assert(precedes(entries[i].0, entries[j].0));
        }
        if j < i {
            assert(precedes(entries[j].0, entries[i].0));
        }
    }
}

proof fn lemma_inserted<V>(
    before: Seq<(Seq<char>, V)>,
    after: Seq<(Seq<char>, V)>,
    key: Seq<char>,
    value: V,
    i: int,
    found: bool,
)
    requires
        ascending(before),
        ascending(after),
        found ==> 0 <= i < before.len() && before[i].0 == key && after == before.update(
            i,
            (key, value),
        ),
        !found ==> 0 <= i <= before.len() && after == before.insert(i, (key, value)),
    ensures
        entries_map(after) == entries_map(before).insert(key, value),
{
    let a = entries_map(after);
    let b = entries_map(before).insert(key, value);
    assert(after[i] == (key, value));
    assert forall|k: Seq<char>|
        #![trigger a.dom().contains(k)]
        #![trigger b.dom().contains(k)]
        a.dom().contains(k) == b.dom().contains(k) && (a.dom().contains(k) ==> a[k] == b[k]) by {
        lemma_lookup(before, k);
        lemma_lookup(after, k);
        if a.contains_key(k) {
            let j = entry_index(after, k);
            assert(0 <= j < after.len() && after[j].0 == k);
            if j == i {
                assert(after[i].0 == key);
            } else if found {
                assert(after[j] == before[j]);
            } else if j < i {
                assert(after[j] == before[j]);
            } else {
                assert(after[j] == before[j - 1]);
            }
            lemma_precedes_irreflexive(k);
            if k == key && j != i {
                if j < i {
                    assert(precedes(after[j].0, after[i].0));
                } else {
                    assert(precedes(after[i].0, after[j].0));
                }
            }
        }
        if b.contains_key(k) && k != key {
            let j = entry_index(before, k);
            assert(0 <= j < before.len() && before[j].0 == k);
            if found {
                assert(after[j] == before[j]);
            } else if j < i {
                assert(after[j] == before[j]);
            } else {
                assert(after[j + 1] == before[j]);
            }
        }
    }
    assert(a =~= b);
}

proof fn lemma_removed<V>(
    before: Seq<(Seq<char>, V)>,
    after: Seq<(Seq<char>, V)>,
    i: int,
)
    requires
        ascending(before),
        ascending(after),
        0 <= i < before.len(),
        after == before.remove(i),
    ensures
        entries_map(after) == entries_map(before).remove(before[i].0),
{
    let key = before[i].0;
    let a = entries_map(after);
    let b = entries_map(before).remove(key);
    assert forall|k: Seq<char>|
        #![trigger a.dom().contains(k)]
        #![trigger b.dom().contains(k)]
        a.dom().contains(k) == b.dom().contains(k) && (a.dom().contains(k) ==> a[k] == b[k]) by {
        lemma_lookup(before, k);
        lemma_lookup(after, k);
        lemma_precedes_irreflexive(k);
        if a.contains_key(k) {
            let j = entry_index(after, k);
            assert(0 <= j < after.len() && after[j].0 == k);
            let x = if j < i { j } else { j + 1 };
            assert(after[j] == before[x]);
            if k == key {
                if x < i {
                    assert(precedes(before[x].0, before[i].0));
                } else {
                    assert(precedes(before[i].0, before[x].0));
                }
            }
        }
        if b.contains_key(k) {
            let j = entry_index(before, k);
            assert(0 <= j < before.len() && before[j].0 == k);
            if j < i {
                assert(after[j] == before[j]);
            } else if j > i {
                assert(after[j - 1] == before[j]);
            }
        }
    }
    assert(a =~= b);
}

/// A set of strings.
#[derive(Debug)]
pub struct StringSet {
    map: OrderedMap<()>,
}

impl View for StringSet {
    type V = Set<Seq<char>>;

    closed spec fn view(&self) -> Set<Seq<char>> {
        self.map@.dom()
    }
}

impl StringSet {
    /// The empty set.
    pub fn new() -> (set: StringSet)
        ensures
            set@ == Set::<Seq<char>>::empty(),
    {
        let set = StringSet { map: OrderedMap::new() };
        proof {
            assert(set@ =~= Set::<Seq<char>>::empty());
        }
        set
    }

    /// Whether a string is in the set.
    pub fn contains(&self, item: &str) -> (result: bool)
        ensures
            result == self@.contains(item@),
    {
        self.map.contains_key(item)
    }

    /// Puts a string into the set.
    pub fn insert(&mut self, item: String)
        ensures
            final(self)@ == old(self)@.insert(item@),
    {
        let ghost name = item@;
        let ghost before = self@;
        self.map.insert(item, ());
        proof {
            assert(self@ =~= before.insert(name));
        }
    }

    /// Whether there is no string in the set.
    pub fn is_empty(&self) -> (result: bool)
        ensures
            result == (self@ == Set::<Seq<char>>::empty()),
    {
        let n: usize = self.map.len();
        proof {
            if n > 0 {
                let key = self.map.entries()[0].0;
                lemma_lookup(self.map.entries(), key);
                assert(self.map.entries()[0].0 == key);
                assert(self@.contains(key));
            } else {
                assert(self@ =~= Set::<Seq<char>>::empty());
            }
        }
        n == 0
    }

    /// The strings of the set in their order.
    pub fn sorted(&self) -> (items: Vec<String>)
        ensures
            crate::text::texts(items@).to_set() == self@,
            forall|i: int, j: int|
                0 <= i < j < items@.len() ==> precedes(
                    (#[trigger] items@[i])@,
                    (#[trigger] items@[j])@,
                ),
    {
        let n: usize = self.map.len();
        let ghost entries = self.map.entries();
        let mut items: Vec<String> = Vec::new();
        let mut i: usize = 0;
        while i < n
            invariant
                i <= n == entries.len(),
                entries == self.map.entries(),
                items.len() == i,
                forall|k: int| 0 <= k < i ==> (#[trigger] items@[k])@ == entries[k].0,
            decreases n - i,
        {
            items.push(self.map.key_at(i).clone());
            i += 1;
        }
        proof {
            let all = crate::text::texts(items@);
            assert forall|x: Seq<char>| all.to_set().contains(x) == self@.contains(x) by {
                if all.contains(x) {
                    let k = choose|k: int| 0 <= k < all.len() && all[k] == x;
                    assert(items@[k]@ == x);
                    lemma_lookup(entries, x);
                    assert(entries[k].0 == x);
                }
                if self@.contains(x) {
                    let k = entry_index(entries, x);
                    assert(0 <= k < entries.len() && entries[k].0 == x);
                    assert(items@[k]@ == x);
                    assert(all[k] == x);
                }
            }
            assert(all.to_set() =~= self@);
            assert forall|i: int, j: int| 0 <= i < j < items@.len() implies precedes(
                (#[trigger] items@[i])@,
                (#[trigger] items@[j])@,
            ) by {
                assert(precedes(entries[i].0, entries[j].0));
            }
        }
        items
    }

    /// Whether every string of the set is in `other`.
    pub fn is_subset(&self, other: &StringSet) -> (result: bool)
        ensures
            result == self@.subset_of(other@),
    {
        let n: usize = self.map.len();
        let ghost entries = self.map.entries();
        let mut i: usize = 0;
        while i < n
            invariant
                i <= n == entries.len(),
                entries == self.map.entries(),
                ascending(entries),
                forall|k: int| 0 <= k < i ==> other@.contains((#[trigger] entries[k]).0),
            decreases n - i,
        {
            if !other.contains(self.map.key_at(i).as_str()) {
                proof {
                    lemma_lookup(entries, entries[i as int].0);
                    assert(self@.contains(entries[i as int].0));
                }
                return false;
            }
            i += 1;
        }
        proof {
            assert forall|x: Seq<char>| self@.contains(x) implies other@.contains(x) by {
                let k = entry_index(entries, x);
                assert(0 <= k < entries.len() && entries[k].0 == x);
            }
        }
        true
    }

    /// Whether two sets hold the same strings.
    pub fn same_as(&self, other: &StringSet) -> (result: bool)
        ensures
            result == (self@ == other@),
    {
        let a = self.is_subset(other);
        let b = other.is_subset(self);
        proof {
            if a && b {
                assert(self@ =~= other@);
            }
        }
        a && b
    }
}

/// The texts of a map, by key.
pub open spec fn text_map(map: Map<Seq<char>, String>) -> Map<Seq<char>, Seq<char>> {
    map.map_values(|value: String| value@)
}

fn texts_stand_in(a: &OrderedMap<String>, b: &OrderedMap<String>) -> (result: bool)
    ensures
        result == text_map(a@).submap_of(text_map(b@)),
{
    let n: usize = a.len();
    let ghost entries = a.entries();
    let mut i: usize = 0;
    while i < n
        invariant
            i <= n == entries.len(),
            entries == a.entries(),
            ascending(entries),
            forall|k: int|
                0 <= k < i ==> b@.contains_key((#[trigger] entries[k]).0)
                    && b@[entries[k].0]@ == entries[k].1@,
        decreases n - i,
    {
        let ghost key = entries[i as int].0;
        proof {
            lemma_lookup(entries, key);
            assert(a@.contains_key(key));
            assert(text_map(a@).dom().contains(key));
            assert(text_map(a@)[key] == entries[i as int].1@);
        }
        match b.get(a.key_at(i).as_str()) {
            Some(other) => {
                if !crate::text::same(other.as_str(), a.value_at(i).as_str()) {
                    proof {
                        assert(b@.dom().contains(key));
                        assert(text_map(b@).dom().contains(key));
                        assert(text_map(b@)[key] == other@);
                        assert(text_map(a@)[key] != text_map(b@)[key]);
                    }
                    return false;
                }
            },
            None => {
                proof {
                    assert(!text_map(b@).dom().contains(key));
                }
                return false;
            },
        }
        i += 1;
    }
    proof {
        assert forall|k: Seq<char>| #[trigger] text_map(a@).dom().contains(k) implies text_map(
            b@,
        ).dom().contains(k) && text_map(a@)[k] == text_map(b@)[k] by {
            lemma_lookup(entries, k);
            let j = entry_index(entries, k);
            assert(0 <= j < entries.len() && entries[j].0 == k);
        }
    }
    true
}

/// Whether two maps hold the same texts.
pub fn same_texts(a: &OrderedMap<String>, b: &OrderedMap<String>) -> (result: bool)
    ensures
        result == (text_map(a@) == text_map(b@)),
{
    let x = texts_stand_in(a, b);
    let y = texts_stand_in(b, a);
    proof {
        if x && y {
            assert(text_map(a@) =~= text_map(b@));
        }
    }
    x && y
}

} // verus!
