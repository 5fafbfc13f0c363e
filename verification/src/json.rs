//! JSON values.

use vstd::prelude::*;
use vstd::string::*;
use crate::ordered::{ascending, entry_index, lemma_lookup, OrderedMap};
use crate::text::same;

verus! {

/// A JSON value. A number is kept as its text.
#[derive(Debug)]
pub enum Json {
    Null,
    Bool(bool),
    Number(String),
    Text(String),
    Array(Vec<Json>),
    Object(OrderedMap<Json>),
}

/// What a JSON value holds. Two values are the same value exactly when their views are equal.
pub enum JsonView {
    Null,
    Bool(bool),
    Number(Seq<char>),
    Text(Seq<char>),
    Array(Seq<JsonView>),
    Object(Map<Seq<char>, JsonView>),
}

impl View for Json {
    type V = JsonView;

    open spec fn view(&self) -> JsonView {
        json_view(*self)
    }
}

/// The view of a value.
pub open spec fn json_view(value: Json) -> JsonView
    decreases value, 0nat,
{
    match value {
        Json::Null => JsonView::Null,
        Json::Bool(b) => JsonView::Bool(b),
        Json::Number(n) => JsonView::Number(n@),
        Json::Text(s) => JsonView::Text(s@),
        Json::Array(items) => JsonView::Array(
            Seq::new(
                items@.len(),
                |i: int|
                    if 0 <= i < items@.len() {
                        json_view(items@[i])
                    } else {
                        JsonView::Null
                    },
            ),
        ),
        Json::Object(map) => JsonView::Object(members(map, map.entries().len())),
    }
}

/// The views of the first `n` members of an object.
pub open spec fn members(map: OrderedMap<Json>, n: nat) -> Map<Seq<char>, JsonView>
    decreases map, n,
{
    if n == 0 || n > map.entries().len() {
        Map::empty()
    } else {
        proof {
            map.lemma_entry_decreases(n - 1);
        }
        members(map, (n - 1) as nat).insert(
            map.entries()[n - 1].0,
            json_view(map.entries()[n - 1].1),
        )
    }
}

/// The members of an object, by key.
pub open spec fn all_members(map: OrderedMap<Json>) -> Map<Seq<char>, JsonView> {
    members(map, map.entries().len())
}

proof fn lemma_members(map: OrderedMap<Json>, n: nat)
    requires
        ascending(map.entries()),
        n <= map.entries().len(),
    ensures
        forall|k: Seq<char>|
            #![trigger members(map, n).dom().contains(k)]
            members(map, n).dom().contains(k) <==> (exists|i: int|
                0 <= i < n && (#[trigger] map.entries()[i]).0 == k),
        forall|i: int|
            0 <= i < n ==> members(map, n)[(#[trigger] map.entries()[i]).0] == json_view(
                map.entries()[i].1,
            ),
    decreases n,
{
    let entries = map.entries();
    if n > 0 {
        lemma_members(map, (n - 1) as nat);
        let m = members(map, n);
        let p = members(map, (n - 1) as nat);
        assert(m == p.insert(entries[n - 1].0, json_view(entries[n - 1].1)));
        assert forall|k: Seq<char>| #![trigger m.dom().contains(k)]
            m.dom().contains(k) <==> (exists|i: int|
                0 <= i < n && (#[trigger] entries[i]).0 == k) by {
            if m.dom().contains(k) {
                if k == entries[n - 1].0 {
                    assert(entries[n - 1].0 == k);
                } else {
                    assert(p.dom().contains(k));
                    let i = choose|i: int| 0 <= i < n - 1 && (#[trigger] entries[i]).0 == k;
                    assert(entries[i].0 == k);
                }
            }
            if exists|i: int| 0 <= i < n && (#[trigger] entries[i]).0 == k {
                let i = choose|i: int| 0 <= i < n && (#[trigger] entries[i]).0 == k;
                if i < n - 1 {
                    assert(entries[i].0 == k);
                    assert(p.dom().contains(k));
                }
            }
        }
        assert forall|i: int| 0 <= i < n implies m[(#[trigger] entries[i]).0] == json_view(
            entries[i].1,
        ) by {
            if i < n - 1 {
                assert(crate::ordered::precedes(entries[i].0, entries[n - 1].0));
                crate::ordered::lemma_precedes_irreflexive(entries[i].0);
            }
        }
    }
}

/// The members of an object are the views of the map's values.
pub proof fn lemma_all_members(map: OrderedMap<Json>)
    requires
        ascending(map.entries()),
    ensures
        all_members(map).dom() == map@.dom(),
        forall|k: Seq<char>|
            map@.dom().contains(k) ==> #[trigger] all_members(map)[k] == json_view(map@[k]),
{
    let entries = map.entries();
    lemma_members(map, entries.len());
    assert(all_members(map).dom() =~= map@.dom());
    assert forall|k: Seq<char>| map@.dom().contains(k) implies #[trigger] all_members(map)[k]
        == json_view(map@[k]) by {
        lemma_lookup(entries, k);
        let i = entry_index(entries, k);
        assert(0 <= i < entries.len() && entries[i].0 == k);
    }
}

/// The members of `a` that do not stand with the same value in `b`.
pub open spec fn not_standing(
    a: Map<Seq<char>, JsonView>,
    b: Map<Seq<char>, JsonView>,
) -> Map<Seq<char>, JsonView> {
    Map::new(
        |k: Seq<char>| a.dom().contains(k) && !(b.dom().contains(k) && b[k] == a[k]),
        |k: Seq<char>| a[k],
    )
}

/// An object under construction.
#[derive(Debug)]
pub struct Members {
    map: OrderedMap<Json>,
}

impl View for Members {
    type V = Map<Seq<char>, JsonView>;

    closed spec fn view(&self) -> Map<Seq<char>, JsonView> {
        all_members(self.map)
    }
}

impl Members {
    /// No members.
    pub fn new() -> (members: Members)
        ensures
            members@ == Map::<Seq<char>, JsonView>::empty(),
    {
        Members { map: OrderedMap::new() }
    }

    /// The members of an object.
    pub fn of_object(map: OrderedMap<Json>) -> (members: Members)
        ensures
            Json::Object(map)@ == JsonView::Object(members@),
    {
        Members { map }
    }

    /// Gives a member its value.
    pub fn put(&mut self, key: &str, value: Json)
        ensures
            final(self)@ == old(self)@.insert(key@, value@),
    {
        let ghost before = self.map;
        proof {
            use_type_invariant(&self.map);
            lemma_all_members(before);
        }
        self.map.insert(key.to_owned(), value);
        proof {
            lemma_all_members(self.map);
            let a = all_members(self.map);
            let b = all_members(before).insert(key@, value@);
            assert(a.dom() =~= b.dom());
            assert forall|k: Seq<char>| a.dom().contains(k) implies a[k] == b[k] by {
                assert(self.map@.dom().contains(k));
                if k != key@ {
                    assert(before@.dom().contains(k));
                }
            }
            assert(a =~= b);
        }
    }

    /// Gives several members their values.
    pub fn put_all(&mut self, more: Members)
        ensures
            final(self)@ == old(self)@.union_prefer_right(more@),
    {
        let ghost before = self@;
        let n: usize = more.map.len();
        let mut i: usize = 0;
        proof {
            assert(before.union_prefer_right(members(more.map, 0)) =~= before);
        }
        while i < n
            invariant
                i <= n == more.map.entries().len(),
                self@ == before.union_prefer_right(members(more.map, i as nat)),
            decreases n - i,
        {
            let value = more.map.value_at(i).copy();
            self.put(more.map.key_at(i).as_str(), value);
            proof {
                assert(self@ =~= before.union_prefer_right(members(more.map, (i + 1) as nat)));
            }
            i += 1;
        }
    }

    /// Whether there is no member.
    pub fn is_empty(&self) -> (result: bool)
        ensures
            result == (self@ == Map::<Seq<char>, JsonView>::empty()),
    {
        let n: usize = self.map.len();
        proof {
            lemma_members(self.map, self.map.entries().len());
            if n > 0 {
                assert(self.map.entries()[0].0 == self.map.entries()[0].0);
                assert(self@.dom().contains(self.map.entries()[0].0));
            } else {
                assert(self@ =~= Map::<Seq<char>, JsonView>::empty());
            }
        }
        n == 0
    }

    /// Whether each member stands with the same value in an object.
    pub fn stands_in(&self, other: &OrderedMap<Json>) -> (result: bool)
        ensures
            result == self@.submap_of(all_members(*other)),
    {
        let n: usize = self.map.len();
        let ghost entries = self.map.entries();
        let ghost theirs = all_members(*other);
        proof {
            use_type_invariant(other);
            lemma_all_members(self.map);
            lemma_all_members(*other);
        }
        let mut i: usize = 0;
        while i < n
            invariant
                i <= n == entries.len(),
                entries == self.map.entries(),
                ascending(entries),
                theirs == all_members(*other),
                theirs.dom() == other@.dom(),
                self@.dom() == self.map@.dom(),
                forall|k: Seq<char>|
                    self.map@.dom().contains(k) ==> #[trigger] self@[k] == json_view(self.map@[k]),
                forall|k: Seq<char>|
                    other@.dom().contains(k) ==> #[trigger] theirs[k] == json_view(other@[k]),
                forall|k: int|
                    0 <= k < i ==> theirs.dom().contains((#[trigger] entries[k]).0)
                        && theirs[entries[k].0] == self@[entries[k].0],
            decreases n - i,
        {
            let ghost key = entries[i as int].0;
            proof {
                lemma_lookup(entries, key);
                assert(self@.dom().contains(key));
                assert(self@[key] == json_view(entries[i as int].1));
            }
            match other.get(self.map.key_at(i).as_str()) {
                Some(value) => {
                    proof {
                        assert(theirs[key] == json_view(*value));
                    }
                    if !value.same_as(self.map.value_at(i)) {
                        return false;
                    }
                },
                None => {
                    proof {
                        assert(!theirs.dom().contains(key));
                    }
                    return false;
                },
            }
            i += 1;
        }
        proof {
            assert forall|k: Seq<char>| #[trigger] self@.dom().contains(k) implies
                theirs.dom().contains(k) && self@[k] == theirs[k] by {
                let j = entry_index(entries, k);
                assert(0 <= j < entries.len() && entries[j].0 == k);
            }
        }
        true
    }

    /// The members that do not stand with the same value in an object.
    pub fn differing(&self, other: &OrderedMap<Json>) -> (rest: Members)
        ensures
            rest@ == not_standing(self@, all_members(*other)),
    {
        let n: usize = self.map.len();
        let ghost entries = self.map.entries();
        let ghost theirs = all_members(*other);
        proof {
            use_type_invariant(other);
            lemma_all_members(self.map);
            lemma_all_members(*other);
        }
        let mut rest = Members::new();
        let mut i: usize = 0;
        while i < n
            invariant
                i <= n == entries.len(),
                entries == self.map.entries(),
                ascending(entries),
                theirs == all_members(*other),
                theirs.dom() == other@.dom(),
                self@.dom() == self.map@.dom(),
                forall|k: Seq<char>|
                    self.map@.dom().contains(k) ==> #[trigger] self@[k] == json_view(self.map@[k]),
                forall|k: Seq<char>|
                    other@.dom().contains(k) ==> #[trigger] theirs[k] == json_view(other@[k]),
                forall|k: Seq<char>| #[trigger]
                    rest@.dom().contains(k) <==> (exists|j: int|
                        0 <= j < i && (#[trigger] entries[j]).0 == k) && !(theirs.dom().contains(k)
                        && theirs[k] == self@[k]),
                forall|k: Seq<char>| #[trigger] rest@.dom().contains(k) ==> rest@[k] == self@[k],
            decreases n - i,
        {
            let ghost key = entries[i as int].0;
            let ghost before = rest@;
            proof {
                lemma_lookup(entries, key);
                assert(self@.dom().contains(key));
                assert(self@[key] == json_view(entries[i as int].1));
                if before.dom().contains(key) {
                    let j = choose|j: int| 0 <= j < i && (#[trigger] entries[j]).0 == key;
                    assert(crate::ordered::precedes(entries[j].0, entries[i as int].0));
                    crate::ordered::lemma_precedes_irreflexive(key);
                }
            }
            let stands = match other.get(self.map.key_at(i).as_str()) {
                Some(value) => {
                    proof {
                        assert(theirs[key] == json_view(*value));
                    }
                    value.same_as(self.map.value_at(i))
                },
                None => false,
            };
            if !stands {
                rest.put(self.map.key_at(i).as_str(), self.map.value_at(i).copy());
            }
            proof {
                assert forall|k: Seq<char>| #[trigger]
                    rest@.dom().contains(k) <==> (exists|j: int|
                        0 <= j < i
                            + 1 && (#[trigger] entries[j]).0 == k) && !(theirs.dom().contains(
                        k,
                    ) && theirs[k] == self@[k]) by {
                    if k == key {
                        assert(entries[i as int].0 == k);
                    } else {
                        assert(rest@.dom().contains(k) == before.dom().contains(k));
                        if exists|j: int| 0 <= j < i + 1 && (#[trigger] entries[j]).0 == k {
                            let j = choose|j: int| 0 <= j < i + 1 && (#[trigger] entries[j]).0 == k;
                            assert(j < i);
                            assert(entries[j].0 == k);
                        }
                    }
                }
            }
            i += 1;
        }
        proof {
            let expected = not_standing(self@, theirs);
            assert forall|k: Seq<char>|
                #![trigger rest@.dom().contains(k)]
                #![trigger expected.dom().contains(k)]
                rest@.dom().contains(k) == expected.dom().contains(k) && (rest@.dom().contains(k)
                    ==> rest@[k] == expected[k]) by {
                if self@.dom().contains(k) {
                    let j = entry_index(entries, k);
                    assert(0 <= j < entries.len() && entries[j].0 == k);
                }
                if rest@.dom().contains(k) {
                    let j = choose|j: int| 0 <= j < n && (#[trigger] entries[j]).0 == k;
                    lemma_lookup(entries, k);
                    assert(entries[j].0 == k);
                }
            }
            assert(rest@ =~= expected);
        }
        rest
    }

    /// The object.
    pub fn into_json(self) -> (value: Json)
        ensures
            value@ == JsonView::Object(self@),
    {
        Json::Object(self.map)
    }
}

/// The array of some values, in their order.
pub open spec fn array_view(items: Seq<Json>) -> JsonView {
    JsonView::Array(items.map_values(|item: Json| item@))
}

/// An array.
pub fn array(items: Vec<Json>) -> (value: Json)
    ensures
        value@ == array_view(items@),
{
    let value = Json::Array(items);
    proof {
        match value@ {
            JsonView::Array(a) => {
                assert(a =~= items@.map_values(|item: Json| item@));
            },
            _ => {},
        }
    }
    value
}

/// A string.
pub fn text(s: &str) -> (value: Json)
    ensures
        value@ == JsonView::Text(s@),
{
    Json::Text(s.to_owned())
}

/// The member of an object; no other value has one.
pub open spec fn member(value: JsonView, key: Seq<char>) -> Option<JsonView> {
    match value {
        JsonView::Object(map) => if map.contains_key(key) {
            Some(map[key])
        } else {
            None
        },
        _ => None,
    }
}

impl Json {
    /// The member of an object; no other value has one.
    pub fn get(&self, key: &str) -> (value: Option<&Json>)
        ensures
            match value {
                Some(found) => member(self@, key@) == Some(found@),
                None => member(self@, key@) is None,
            },
    {
        match self {
            Json::Object(map) => {
                proof {
                    use_type_invariant(map);
                    lemma_all_members(*map);
                }
                map.get(key)
            },
            _ => None,
        }
    }

    /// The text of a string.
    pub fn as_str(&self) -> (value: Option<&str>)
        ensures
            match value {
                Some(s) => self@ == JsonView::Text(s@),
                None => !(self@ is Text),
            },
    {
        match self {
            Json::Text(s) => Some(s.as_str()),
            _ => None,
        }
    }

    /// The value of a Boolean.
    pub fn as_bool(&self) -> (value: Option<bool>)
        ensures
            match value {
                Some(b) => self@ == JsonView::Bool(b),
                None => !(self@ is Bool),
            },
    {
        match self {
            Json::Bool(b) => Some(*b),
            _ => None,
        }
    }

    /// Whether this is `null`.
    pub fn is_null(&self) -> (result: bool)
        ensures
            result == (self@ == JsonView::Null),
    {
        match self {
            Json::Null => true,
            _ => false,
        }
    }

    /// Whether two values are the same value.
    pub fn same_as(&self, other: &Json) -> (result: bool)
        ensures
            result == (self@ == other@),
        decreases self,
    {
        match (self, other) {
            (Json::Null, Json::Null) => true,
            (Json::Bool(a), Json::Bool(b)) => *a == *b,
            (Json::Number(a), Json::Number(b)) => same(a.as_str(), b.as_str()),
            (Json::Text(a), Json::Text(b)) => same(a.as_str(), b.as_str()),
            (Json::Array(a), Json::Array(b)) => same_items(a, b),
            (Json::Object(a), Json::Object(b)) => same_objects(a, b),
            _ => false,
        }
    }

    /// A copy of the value.
    pub fn copy(&self) -> (result: Json)
        ensures
            result@ == self@,
        decreases self,
    {
        match self {
            Json::Null => Json::Null,
            Json::Bool(b) => Json::Bool(*b),
            Json::Number(n) => Json::Number(n.clone()),
            Json::Text(s) => Json::Text(s.clone()),
            Json::Array(items) => {
                let mut copies: Vec<Json> = Vec::new();
                let mut i: usize = 0;
                while i < items.len()
                    invariant
                        self matches Json::Array(own) && own == items,
                        i <= items.len(),
                        copies.len() == i,
                        forall|k: int| 0 <= k < i ==> (#[trigger] copies@[k])@ == items@[k]@,
                    decreases items.len() - i,
                {
                    let copy = items[i].copy();
                    copies.push(copy);
                    i += 1;
                }
                let result = Json::Array(copies);
                proof {
                    match (result@, self@) {
                        (JsonView::Array(a), JsonView::Array(b)) => {
                            assert(a =~= b);
                        },
                        _ => {},
                    }
                }
                result
            },
            Json::Object(map) => {
                let n: usize = map.len();
                let mut copies = Members::new();
                let mut i: usize = 0;
                while i < n
                    invariant
                        self matches Json::Object(own) && own == map,
                        n == map.entries().len(),
                        i <= n,
                        copies@ == members(*map, i as nat),
                    decreases n - i,
                {
                    proof {
                        map.lemma_entry_decreases(i as int);
                    }
                    let copy = map.value_at(i).copy();
                    copies.put(map.key_at(i).as_str(), copy);
                    i += 1;
                }
                copies.into_json()
            },
        }
    }
}

fn same_items(a: &Vec<Json>, b: &Vec<Json>) -> (result: bool)
    ensures
        result == (json_view(Json::Array(*a)) == json_view(Json::Array(*b))),
    decreases a,
{
    let ghost va = json_view(Json::Array(*a))->Array_0;
    let ghost vb = json_view(Json::Array(*b))->Array_0;
    if a.len() != b.len() {
        proof {
            assert(va.len() != vb.len());
        }
        return false;
    }
    let mut i: usize = 0;
    while i < a.len()
        invariant
            i <= a.len() == b.len(),
            va == json_view(Json::Array(*a))->Array_0,
            vb == json_view(Json::Array(*b))->Array_0,
            va.len() == a.len(),
            vb.len() == b.len(),
            forall|k: int| 0 <= k < i ==> va[k] == vb[k],
        decreases a.len() - i,
    {
        proof {
            assert(va[i as int] == a@[i as int]@);
            assert(vb[i as int] == b@[i as int]@);
        }
        if !a[i].same_as(&b[i]) {
            return false;
        }
        i += 1;
    }
    proof {
        assert(va =~= vb);
    }
    true
}

fn same_objects(a: &OrderedMap<Json>, b: &OrderedMap<Json>) -> (result: bool)
    ensures
        result == (all_members(*a) == all_members(*b)),
    decreases a,
{
    let n: usize = a.len();
    let m: usize = b.len();
    let ghost ma = all_members(*a);
    let ghost mb = all_members(*b);
    proof {
        lemma_all_members(*a);
        lemma_all_members(*b);
    }
    let mut i: usize = 0;
    while i < n
        invariant
            i <= n == a.entries().len(),
            ascending(a.entries()),
            ascending(b.entries()),
            ma == all_members(*a),
            mb == all_members(*b),
            ma.dom() == a@.dom(),
            mb.dom() == b@.dom(),
            forall|k: Seq<char>| a@.dom().contains(k) ==> #[trigger] ma[k] == json_view(a@[k]),
            forall|k: Seq<char>| b@.dom().contains(k) ==> #[trigger] mb[k] == json_view(b@[k]),
            forall|k: int|
                0 <= k < i ==> mb.dom().contains((#[trigger] a.entries()[k]).0)
                    && mb[a.entries()[k].0] == ma[a.entries()[k].0],
        decreases n - i,
    {
        let ghost key = a.entries()[i as int].0;
        proof {
            lemma_lookup(a.entries(), key);
            a.lemma_entry_decreases(i as int);
            assert(ma.dom().contains(key));
            assert(ma[key] == json_view(a.entries()[i as int].1));
        }
        match b.get(a.key_at(i).as_str()) {
            Some(other) => {
                if !a.value_at(i).same_as(other) {
                    proof {
                        assert(mb[key] == json_view(*other));
                    }
                    return false;
                }
                proof {
                    assert(mb[key] == json_view(*other));
                }
            },
            None => {
                proof {
                    assert(!mb.dom().contains(key));
                }
                return false;
            },
        }
        i += 1;
    }
    let mut j: usize = 0;
    while j < m
        invariant
            j <= m == b.entries().len(),
            ascending(b.entries()),
            ma == all_members(*a),
            mb == all_members(*b),
            ma.dom() == a@.dom(),
            mb.dom() == b@.dom(),
            forall|k: int| 0 <= k < j ==> ma.dom().contains((#[trigger] b.entries()[k]).0),
        decreases m - j,
    {
        let ghost key = b.entries()[j as int].0;
        proof {
            lemma_lookup(b.entries(), key);
            assert(mb.dom().contains(key));
        }
        if !a.contains_key(b.key_at(j).as_str()) {
            proof {
                assert(!ma.dom().contains(key));
            }
            return false;
        }
        j += 1;
    }
    proof {
        assert forall|k: Seq<char>| #![trigger ma.dom().contains(k)] #![trigger mb.dom().contains(k)]
            ma.dom().contains(k) == mb.dom().contains(k) && (ma.dom().contains(k) ==> ma[k]
            == mb[k]) by {
            lemma_lookup(a.entries(), k);
            lemma_lookup(b.entries(), k);
            if ma.dom().contains(k) {
                let i = entry_index(a.entries(), k);
                assert(0 <= i < a.entries().len() && a.entries()[i].0 == k);
            }
            if mb.dom().contains(k) {
                let i = entry_index(b.entries(), k);
                assert(0 <= i < b.entries().len() && b.entries()[i].0 == k);
            }
        }
        assert(ma =~= mb);
    }
    true
}

} // verus!
