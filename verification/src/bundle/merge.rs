//! Two bundles that grew from one, put together again.

use vstd::prelude::*;
use vstd::string::*;
use crate::bundle::{
    certificate_scope, has_certificate, has_profile, is_scope, managed_certificate_scope,
    managed_profile_scope, profile_scope, BundleContents,
};
use crate::ordered::{
    ascending, entries_map, entry_index, lemma_lookup, lemma_precedes_irreflexive, precedes,
    OrderedMap, StringSet,
};
use crate::ranked::RankedMap;
use crate::scope::{scope_name, Scope};
use crate::state::{
    BundleIdView, CertificateView, DeviceView, ManagedBundleId, ManagedCertificate, ManagedDevice,
    ManagedProfile, ProfileView, State, StateView,
};
use crate::text::{cat, cat3, earlier, failure, texts, Error};
use crate::values::{copy_bytes, copy_map, deep, same_bytes, same_maps, Plain};

verus! {

/// The side whose value is taken where both sides changed it.
#[derive(Debug, Clone, Copy, PartialEq, Eq, Structural)]
pub enum MergeChoice {
    Base,
    Ours,
    Theirs,
}

/// Why a merge stops: a value that both sides changed, each in its own way, or a bundle that lacks
/// something.
#[derive(Debug)]
pub enum MergeStop {
    Conflict(String),
    Failed(Error),
}

/// The value under a key, if there is one.
pub open spec fn lookup<V>(map: Map<Seq<char>, V>, key: Seq<char>) -> Option<V> {
    if map.contains_key(key) {
        Some(map[key])
    } else {
        None
    }
}

/// The value that a merge takes, or nothing where both sides changed it and no choice is made.
pub open spec fn merged<V>(
    base: Option<V>,
    ours: Option<V>,
    theirs: Option<V>,
    choice: Option<MergeChoice>,
) -> Result<Option<V>, ()> {
    if ours == theirs {
        Ok(ours)
    } else if ours == base {
        Ok(theirs)
    } else if theirs == base {
        Ok(ours)
    } else {
        match choice {
            Some(MergeChoice::Base) => Ok(base),
            Some(MergeChoice::Ours) => Ok(ours),
            Some(MergeChoice::Theirs) => Ok(theirs),
            None => Err(()),
        }
    }
}

/// The view of a value that may be missing.
pub open spec fn seen<T: View>(value: Option<&T>) -> Option<T::V> {
    match value {
        Some(found) => Some(found@),
        None => None,
    }
}

/// The view of a value that may be missing.
pub open spec fn kept<T: View>(value: Option<T>) -> Option<T::V> {
    match value {
        Some(found) => Some(found@),
        None => None,
    }
}

fn same_values<T: Plain>(a: Option<&T>, b: Option<&T>) -> (result: bool)
    ensures
        result == (seen(a) == seen(b)),
{
    match (a, b) {
        (Some(x), Some(y)) => x.same_as(y),
        (None, None) => true,
        _ => false,
    }
}

fn copy_value<T: Plain>(value: Option<&T>) -> (copy: Option<T>)
    ensures
        kept(copy) == seen(value),
{
    match value {
        Some(found) => Some(found.copy()),
        None => None,
    }
}

/// The value that a merge takes.
pub fn merge_optional<T: Plain>(
    label: &str,
    base: Option<&T>,
    ours: Option<&T>,
    theirs: Option<&T>,
    choices: &OrderedMap<MergeChoice>,
) -> (result: Result<Option<T>, String>)
    ensures
        match merged(seen(base), seen(ours), seen(theirs), lookup(choices@, label@)) {
            Ok(value) => result matches Ok(found) && kept(found) == value,
            Err(_) => result matches Err(conflict) && conflict@ == label@,
        },
{
    if same_values(ours, theirs) {
        return Ok(copy_value(ours));
    }
    if same_values(ours, base) {
        return Ok(copy_value(theirs));
    }
    if same_values(theirs, base) {
        return Ok(copy_value(ours));
    }
    match choices.get(label) {
        Some(MergeChoice::Base) => Ok(copy_value(base)),
        Some(MergeChoice::Ours) => Ok(copy_value(ours)),
        Some(MergeChoice::Theirs) => Ok(copy_value(theirs)),
        None => Err(label.to_owned()),
    }
}

/// The value that a merge takes of three that are all there.
pub open spec fn merged_value<V>(
    base: V,
    ours: V,
    theirs: V,
    choice: Option<MergeChoice>,
) -> Result<
    V,
    (),
> {
    match merged(Some(base), Some(ours), Some(theirs), choice) {
        Ok(value) => Ok(value->0),
        Err(_) => Err(()),
    }
}

/// The value that a merge takes of three that are all there.
pub fn merge_scalar<T: Plain>(
    label: &str,
    base: &T,
    ours: &T,
    theirs: &T,
    choices: &OrderedMap<MergeChoice>,
) -> (result: Result<T, String>)
    ensures
        match merged_value(base@, ours@, theirs@, lookup(choices@, label@)) {
            Ok(value) => result matches Ok(found) && found@ == value,
            Err(_) => result matches Err(conflict) && conflict@ == label@,
        },
{
    match merge_optional(label, Some(base), Some(ours), Some(theirs), choices) {
        Ok(Some(value)) => Ok(value),
        Ok(None) => Err(label.to_owned()),
        Err(conflict) => Err(conflict),
    }
}

/// The label of a value in a map.
pub open spec fn key_label(label: Seq<char>, key: Seq<char>) -> Seq<char> {
    label + "."@ + key
}

/// The value that a merge takes under a key.
pub open spec fn merged_at<V>(
    label: Seq<char>,
    base: Map<Seq<char>, V>,
    ours: Map<Seq<char>, V>,
    theirs: Map<Seq<char>, V>,
    choices: Map<Seq<char>, MergeChoice>,
    key: Seq<char>,
) -> Result<Option<V>, ()> {
    merged(
        lookup(base, key),
        lookup(ours, key),
        lookup(theirs, key),
        lookup(choices, key_label(label, key)),
    )
}

/// The first key, in the order of texts, whose value both sides changed.
pub open spec fn first_conflict<V>(
    label: Seq<char>,
    base: Map<Seq<char>, V>,
    ours: Map<Seq<char>, V>,
    theirs: Map<Seq<char>, V>,
    choices: Map<Seq<char>, MergeChoice>,
    key: Seq<char>,
) -> bool {
    &&& merged_at(label, base, ours, theirs, choices, key) is Err
    &&& forall|other: Seq<char>| #[trigger]
        merged_at(label, base, ours, theirs, choices, other) is Err ==> other == key || precedes(
            key,
            other,
        )
}

/// The label of the first value of a map that both sides changed.
pub open spec fn map_conflict<V>(
    label: Seq<char>,
    base: Map<Seq<char>, V>,
    ours: Map<Seq<char>, V>,
    theirs: Map<Seq<char>, V>,
    choices: Map<Seq<char>, MergeChoice>,
) -> Option<Seq<char>> {
    if exists|key: Seq<char>| first_conflict(label, base, ours, theirs, choices, key) {
        let key = choose|key: Seq<char>| first_conflict(label, base, ours, theirs, choices, key);
        Some(key_label(label, key))
    } else {
        None
    }
}

/// The map that a merge makes.
pub open spec fn merged_map<V>(
    label: Seq<char>,
    base: Map<Seq<char>, V>,
    ours: Map<Seq<char>, V>,
    theirs: Map<Seq<char>, V>,
    choices: Map<Seq<char>, MergeChoice>,
) -> Map<Seq<char>, V> {
    Map::new(
        |key: Seq<char>|
            merged_at(label, base, ours, theirs, choices, key) matches Ok(value) && value is Some,
        |key: Seq<char>| merged_at(label, base, ours, theirs, choices, key)->Ok_0->0,
    )
}

/// There is one first conflict at most.
proof fn lemma_one_first_conflict<V>(
    label: Seq<char>,
    base: Map<Seq<char>, V>,
    ours: Map<Seq<char>, V>,
    theirs: Map<Seq<char>, V>,
    choices: Map<Seq<char>, MergeChoice>,
    a: Seq<char>,
    b: Seq<char>,
)
    requires
        first_conflict(label, base, ours, theirs, choices, a),
        first_conflict(label, base, ours, theirs, choices, b),
    ensures
        a == b,
{
    if a != b {
        assert(merged_at(label, base, ours, theirs, choices, a) is Err);
        assert(merged_at(label, base, ours, theirs, choices, b) is Err);
        crate::ordered::lemma_precedes_transitive(a, b, a);
        lemma_precedes_irreflexive(a);
    }
}

fn add_keys<T>(keys: &mut StringSet, map: &OrderedMap<T>)
    ensures
        final(keys)@ == old(keys)@.union(map@.dom()),
{
    let ghost start = keys@;
    let ghost entries = map.entries();
    let n: usize = map.len();
    let mut i: usize = 0;
    proof {
        assert(start.union(entries_map(entries.take(0)).dom()) =~= start);
    }
    while i < n
        invariant
            i <= n == entries.len(),
            entries == map.entries(),
            ascending(entries),
            keys@ == start.union(entries_map(entries.take(i as int)).dom()),
        decreases n - i,
    {
        keys.insert(map.key_at(i).clone());
        proof {
            crate::values::lemma_first_entries(entries, i as int);
            assert(start.union(entries_map(entries.take(i + 1)).dom()) =~= start.union(
                entries_map(entries.take(i as int)).dom(),
            ).insert(entries[i as int].0));
        }
        i += 1;
    }
    proof {
        assert(entries.take(i as int) =~= entries);
    }
}

/// Merges maps key by key. Where both sides changed a value and no choice is made, the first such
/// value stops the merge.
pub fn merge_map<T: Plain>(
    label: &str,
    base: &OrderedMap<T>,
    ours: &OrderedMap<T>,
    theirs: &OrderedMap<T>,
    choices: &OrderedMap<MergeChoice>,
) -> (result: Result<OrderedMap<T>, String>)
    ensures
        match map_conflict(label@, deep(base@), deep(ours@), deep(theirs@), choices@) {
            Some(conflict) => result matches Err(found) && found@ == conflict,
            None => result matches Ok(map) && deep(map@) == merged_map(
                label@,
                deep(base@),
                deep(ours@),
                deep(theirs@),
                choices@,
            ),
        },
{
    let ghost b = deep(base@);
    let ghost o = deep(ours@);
    let ghost t = deep(theirs@);
    let ghost c = choices@;
    let mut set = StringSet::new();
    add_keys(&mut set, base);
    add_keys(&mut set, ours);
    add_keys(&mut set, theirs);
    let keys = set.sorted();
    let mut map: OrderedMap<T> = OrderedMap::new();
    let mut i: usize = 0;
    proof {
        assert(deep(map@) =~= Map::empty());
        assert forall|key: Seq<char>| !texts(keys@).contains(key) implies (#[trigger] merged_at(
            label@,
            b,
            o,
            t,
            c,
            key,
        )) == Ok::<Option<T::V>, ()>(None) by {
            assert(!texts(keys@).to_set().contains(key));
            assert(!base@.contains_key(key) && !ours@.contains_key(key) && !theirs@.contains_key(
                key,
            ));
        }
    }
    while i < keys.len()
        invariant
            i <= keys.len(),
            b == deep(base@),
            o == deep(ours@),
            t == deep(theirs@),
            c == choices@,
            forall|x: int, y: int|
                0 <= x < y < keys@.len() ==> precedes(
                    (#[trigger] keys@[x])@,
                    (#[trigger] keys@[y])@,
                ),
            forall|key: Seq<char>|
                !texts(keys@).contains(key) ==> (#[trigger] merged_at(label@, b, o, t, c, key))
                    == Ok::<Option<T::V>, ()>(None),
            forall|k: int|
                0 <= k < i ==> merged_at(label@, b, o, t, c, (#[trigger] keys@[k])@) is Ok,
            forall|key: Seq<char>| #[trigger]
                deep(map@).contains_key(key) ==> exists|k: int|
                    0 <= k < i && (#[trigger] keys@[k])@ == key,
            forall|k: int|
                0 <= k < i ==> lookup(deep(map@), (#[trigger] keys@[k])@) == merged_at(
                    label@,
                    b,
                    o,
                    t,
                    c,
                    keys@[k]@,
                )->Ok_0,
        decreases keys.len() - i,
    {
        let key = keys[i].as_str();
        let name = cat3(label, ".", key);
        let x = base.get(key);
        let y = ours.get(key);
        let z = theirs.get(key);
        proof {
            assert(b.contains_key(key@) == base@.contains_key(key@));
            assert(o.contains_key(key@) == ours@.contains_key(key@));
            assert(t.contains_key(key@) == theirs@.contains_key(key@));
            assert(seen(x) == lookup(b, key@));
            assert(seen(y) == lookup(o, key@));
            assert(seen(z) == lookup(t, key@));
        }
        match merge_optional(name.as_str(), x, y, z, choices) {
            Err(conflict) => {
                proof {
                    assert(merged_at(label@, b, o, t, c, key@) is Err);
                    assert forall|other: Seq<char>| #[trigger]
                        merged_at(label@, b, o, t, c, other) is Err implies other == key@
                        || precedes(key@, other) by {
                        assert(texts(keys@).contains(other));
                        let k = choose|k: int|
                            0 <= k < texts(keys@).len() && texts(keys@)[k] == other;
                        assert(texts(keys@)[k] == keys@[k]@);
                        if k < i {
                            assert(merged_at(label@, b, o, t, c, keys@[k]@) is Ok);
                        }
                    }
                    assert(first_conflict(label@, b, o, t, c, key@));
                    let chosen = choose|other: Seq<char>|
                        first_conflict(label@, b, o, t, c, other);
                    lemma_one_first_conflict(label@, b, o, t, c, key@, chosen);
                }
                return Err(conflict);
            },
            Ok(value) => {
                let ghost before = deep(map@);
                proof {
                    if before.contains_key(key@) {
                        let k = choose|k: int| 0 <= k < i && (#[trigger] keys@[k])@ == key@;
                        lemma_precedes_irreflexive(key@);
                        assert(precedes(keys@[k]@, keys@[i as int]@));
                    }
                }
                let ghost taken = kept(value);
                if let Some(found) = value {
                    map.insert(key.to_owned(), found);
                    proof {
                        assert(deep(map@) =~= before.insert(key@, taken->0));
                    }
                }
                proof {
                    assert forall|k: int| 0 <= k < i + 1 implies lookup(
                        deep(map@),
                        (#[trigger] keys@[k])@,
                    ) == merged_at(label@, b, o, t, c, keys@[k]@)->Ok_0 by {
                        if k < i {
                            lemma_precedes_irreflexive(key@);
                            assert(precedes(keys@[k]@, keys@[i as int]@));
                        }
                    }
                    assert forall|other: Seq<char>| #[trigger]
                        deep(map@).contains_key(other) implies exists|k: int|
                        0 <= k < i + 1 && (#[trigger] keys@[k])@ == other by {
                        if other == key@ {
                            assert(keys@[i as int]@ == other);
                        } else {
                            assert(before.contains_key(other));
                        }
                    }
                }
            },
        }
        i += 1;
    }
    proof {
        assert forall|key: Seq<char>| #[trigger] merged_at(label@, b, o, t, c, key) is Ok by {
            if texts(keys@).contains(key) {
                let k = choose|k: int| 0 <= k < texts(keys@).len() && texts(keys@)[k] == key;
                assert(texts(keys@)[k] == keys@[k]@);
            }
        }
        assert forall|key: Seq<char>| !first_conflict(label@, b, o, t, c, key) by {
            assert(merged_at(label@, b, o, t, c, key) is Ok);
        }
        let goal = merged_map(label@, b, o, t, c);
        assert forall|key: Seq<char>|
            #![trigger goal.dom().contains(key)]
            #![trigger deep(map@).dom().contains(key)]
            goal.dom().contains(key) == deep(map@).dom().contains(key) && (goal.dom().contains(key)
                ==> goal[key] == deep(map@)[key]) by {
            if texts(keys@).contains(key) {
                let k = choose|k: int| 0 <= k < texts(keys@).len() && texts(keys@)[k] == key;
                assert(texts(keys@)[k] == keys@[k]@);
                assert(lookup(deep(map@), keys@[k]@) == merged_at(
                    label@,
                    b,
                    o,
                    t,
                    c,
                    keys@[k]@,
                )->Ok_0);
            } else {
                if deep(map@).contains_key(key) {
                    let k = choose|k: int| 0 <= k < i && (#[trigger] keys@[k])@ == key;
                    assert(texts(keys@)[k] == key);
                }
            }
        }
        assert(deep(map@) =~= goal);
    }
    Ok(map)
}

/// The part of a bundle that belongs to one scope.
#[derive(Debug)]
pub struct ScopeSigningState {
    pub certs: OrderedMap<ManagedCertificate>,
    pub profiles: OrderedMap<ManagedProfile>,
    pub payload: Vec<u8>,
}

/// What the part of a bundle that belongs to one scope holds.
pub struct ScopeStateView {
    pub certs: Map<Seq<char>, CertificateView>,
    pub profiles: Map<Seq<char>, ProfileView>,
    pub payload: Seq<u8>,
}

impl View for ScopeSigningState {
    type V = ScopeStateView;

    open spec fn view(&self) -> ScopeStateView {
        ScopeStateView {
            certs: deep(self.certs@),
            profiles: deep(self.profiles@),
            payload: self.payload@,
        }
    }
}

impl Plain for ScopeSigningState {
    fn same_as(&self, other: &Self) -> (result: bool) {
        same_maps(&self.certs, &other.certs) && same_maps(&self.profiles, &other.profiles)
            && same_bytes(&self.payload, &other.payload)
    }

    fn copy(&self) -> (other: Self) {
        ScopeSigningState {
            certs: copy_map(&self.certs),
            profiles: copy_map(&self.profiles),
            payload: copy_bytes(&self.payload),
        }
    }
}

/// The certificates of a scope.
pub open spec fn scope_certs(state: StateView, scope: Scope) -> Map<Seq<char>, CertificateView> {
    Map::new(
        |name: Seq<char>| has_certificate(state, scope, name),
        |name: Seq<char>| state.certs[name],
    )
}

/// The profiles of a scope.
pub open spec fn scope_profiles(state: StateView, scope: Scope) -> Map<Seq<char>, ProfileView> {
    Map::new(
        |name: Seq<char>| has_profile(state, scope, name),
        |name: Seq<char>| state.profiles[name],
    )
}

/// The part of a bundle that belongs to a scope.
pub open spec fn scope_part(contents: BundleContents, scope: Scope) -> ScopeStateView {
    ScopeStateView {
        certs: scope_certs(contents.state@, scope),
        profiles: scope_profiles(contents.state@, scope),
        payload: contents.scopes@[scope]@,
    }
}

fn certs_of_scope(state: &State, scope: Scope) -> (certs: OrderedMap<ManagedCertificate>)
    ensures
        deep(certs@) == scope_certs(state@, scope),
{
    let ghost entries = state.certs.entries();
    let mut certs: OrderedMap<ManagedCertificate> = OrderedMap::new();
    let n: usize = state.certs.len();
    let mut i: usize = 0;
    while i < n
        invariant
            i <= n == entries.len(),
            entries == state.certs.entries(),
            ascending(entries),
            forall|name: Seq<char>| #[trigger]
                certs@.contains_key(name) ==> exists|k: int|
                    0 <= k < i && (#[trigger] entries[k]).0 == name,
            forall|k: int|
                0 <= k < i ==> (certs@.contains_key((#[trigger] entries[k]).0) == (
                certificate_scope(entries[k].1.kind@) == Some(scope))) && (certs@.contains_key(
                    entries[k].0,
                ) ==> certs@[entries[k].0]@ == entries[k].1@),
        decreases n - i,
    {
        let ghost before = certs@;
        let ghost key = entries[i as int].0;
        let managed = state.certs.value_at(i);
        proof {
            if before.contains_key(key) {
                let k = choose|k: int| 0 <= k < i && (#[trigger] entries[k]).0 == key;
                lemma_precedes_irreflexive(key);
                assert(precedes(entries[k].0, entries[i as int].0));
            }
        }
        if is_scope(managed_certificate_scope(managed.kind.as_str()), scope) {
            certs.insert(state.certs.key_at(i).clone(), managed.copy());
        }
        proof {
            assert forall|k: int| 0 <= k < i + 1 implies (certs@.contains_key(
                (#[trigger] entries[k]).0,
            ) == (certificate_scope(entries[k].1.kind@) == Some(scope))) && (certs@.contains_key(
                entries[k].0,
            ) ==> certs@[entries[k].0]@ == entries[k].1@) by {
                if k < i {
                    lemma_precedes_irreflexive(key);
                    assert(precedes(entries[k].0, entries[i as int].0));
                }
            }
            assert forall|name: Seq<char>| #[trigger] certs@.contains_key(name) implies exists|
                k: int,
            | 0 <= k < i + 1 && (#[trigger] entries[k]).0 == name by {
                if name == key {
                    assert(entries[i as int].0 == name);
                } else {
                    assert(before.contains_key(name));
                }
            }
        }
        i += 1;
    }
    proof {
        let goal = scope_certs(state@, scope);
        assert forall|name: Seq<char>|
            #![trigger goal.dom().contains(name)]
            #![trigger deep(certs@).dom().contains(name)]
            goal.dom().contains(name) == deep(certs@).dom().contains(name) && (goal.dom().contains(
                name,
            ) ==> goal[name] == deep(certs@)[name]) by {
            lemma_lookup(entries, name);
            assert(state@.certs.contains_key(name) == state.certs@.contains_key(name));
            assert(deep(certs@).contains_key(name) == certs@.contains_key(name));
            if state.certs@.contains_key(name) {
                let k = entry_index(entries, name);
                assert(0 <= k < entries.len() && entries[k].0 == name);
            }
        }
        assert(deep(certs@) =~= goal);
    }
    certs
}

fn profiles_of_scope(state: &State, scope: Scope) -> (profiles: OrderedMap<ManagedProfile>)
    ensures
        deep(profiles@) == scope_profiles(state@, scope),
{
    let ghost entries = state.profiles.entries();
    let mut profiles: OrderedMap<ManagedProfile> = OrderedMap::new();
    let n: usize = state.profiles.len();
    let mut i: usize = 0;
    while i < n
        invariant
            i <= n == entries.len(),
            entries == state.profiles.entries(),
            ascending(entries),
            forall|name: Seq<char>| #[trigger]
                profiles@.contains_key(name) ==> exists|k: int|
                    0 <= k < i && (#[trigger] entries[k]).0 == name,
            forall|k: int|
                0 <= k < i ==> (profiles@.contains_key((#[trigger] entries[k]).0) == (profile_scope(
                    entries[k].1.kind@,
                ) == Some(scope))) && (profiles@.contains_key(entries[k].0)
                    ==> profiles@[entries[k].0]@ == entries[k].1@),
        decreases n - i,
    {
        let ghost before = profiles@;
        let ghost key = entries[i as int].0;
        let managed = state.profiles.value_at(i);
        proof {
            if before.contains_key(key) {
                let k = choose|k: int| 0 <= k < i && (#[trigger] entries[k]).0 == key;
                lemma_precedes_irreflexive(key);
                assert(precedes(entries[k].0, entries[i as int].0));
            }
        }
        if is_scope(managed_profile_scope(managed.kind.as_str()), scope) {
            profiles.insert(state.profiles.key_at(i).clone(), managed.copy());
        }
        proof {
            assert forall|k: int| 0 <= k < i + 1 implies (profiles@.contains_key(
                (#[trigger] entries[k]).0,
            ) == (profile_scope(entries[k].1.kind@) == Some(scope))) && (profiles@.contains_key(
                entries[k].0,
            ) ==> profiles@[entries[k].0]@ == entries[k].1@) by {
                if k < i {
                    lemma_precedes_irreflexive(key);
                    assert(precedes(entries[k].0, entries[i as int].0));
                }
            }
            assert forall|name: Seq<char>| #[trigger] profiles@.contains_key(name) implies exists|
                k: int,
            | 0 <= k < i + 1 && (#[trigger] entries[k]).0 == name by {
                if name == key {
                    assert(entries[i as int].0 == name);
                } else {
                    assert(before.contains_key(name));
                }
            }
        }
        i += 1;
    }
    proof {
        let goal = scope_profiles(state@, scope);
        assert forall|name: Seq<char>|
            #![trigger goal.dom().contains(name)]
            #![trigger deep(profiles@).dom().contains(name)]
            goal.dom().contains(name) == deep(profiles@).dom().contains(name)
                && (goal.dom().contains(name) ==> goal[name] == deep(profiles@)[name]) by {
            lemma_lookup(entries, name);
            assert(state@.profiles.contains_key(name) == state.profiles@.contains_key(name));
            assert(deep(profiles@).contains_key(name) == profiles@.contains_key(name));
            if state.profiles@.contains_key(name) {
                let k = entry_index(entries, name);
                assert(0 <= k < entries.len() && entries[k].0 == name);
            }
        }
        assert(deep(profiles@) =~= goal);
    }
    profiles
}

/// The message of a bundle without the payload of a scope.
pub open spec fn no_scope_message(scope: Scope) -> Seq<char> {
    "bundle is missing "@ + scope_name(scope) + " scope"@
}

/// The part of a bundle that belongs to a scope.
pub fn scope_signing_state(contents: &BundleContents, scope: Scope) -> (result: Result<
    ScopeSigningState,
    Error,
>)
    ensures
        if contents.scopes@.contains_key(scope) {
            result matches Ok(part) && part@ == scope_part(*contents, scope)
        } else {
            result matches Err(error) && error@ == no_scope_message(scope)
        },
{
    match contents.scopes.get(scope) {
        Some(payload) => Ok(
            ScopeSigningState {
                certs: certs_of_scope(&contents.state, scope),
                profiles: profiles_of_scope(&contents.state, scope),
                payload: copy_bytes(payload),
            },
        ),
        None => Err(failure(cat3("bundle is missing ", scope.bundle_segment(), " scope"))),
    }
}

/// The part of a state that all scopes share.
#[derive(Debug)]
pub struct SharedState {
    pub version: u32,
    pub team_id: String,
    pub bundle_ids: OrderedMap<ManagedBundleId>,
    pub devices: OrderedMap<ManagedDevice>,
}

/// What the shared part of a state holds.
pub struct SharedView {
    pub version: u32,
    pub team_id: Seq<char>,
    pub bundle_ids: Map<Seq<char>, BundleIdView>,
    pub devices: Map<Seq<char>, DeviceView>,
}

impl View for SharedState {
    type V = SharedView;

    open spec fn view(&self) -> SharedView {
        SharedView {
            version: self.version,
            team_id: self.team_id@,
            bundle_ids: deep(self.bundle_ids@),
            devices: deep(self.devices@),
        }
    }
}

/// A conflict in one value, if there is one.
pub open spec fn value_conflict<V>(
    label: Seq<char>,
    base: V,
    ours: V,
    theirs: V,
    choices: Map<Seq<char>, MergeChoice>,
) -> Option<Seq<char>> {
    match merged_value(base, ours, theirs, lookup(choices, label)) {
        Ok(_) => None,
        Err(_) => Some(label),
    }
}

/// The first conflict in the shared part of three states.
pub open spec fn shared_conflict(
    base: StateView,
    ours: StateView,
    theirs: StateView,
    choices: Map<Seq<char>, MergeChoice>,
) -> Option<Seq<char>> {
    earlier(
        value_conflict("state.version"@, base.version, ours.version, theirs.version, choices),
        earlier(
            value_conflict("state.team_id"@, base.team_id, ours.team_id, theirs.team_id, choices),
            earlier(
                map_conflict(
                    "state.bundle_ids"@,
                    base.bundle_ids,
                    ours.bundle_ids,
                    theirs.bundle_ids,
                    choices,
                ),
                map_conflict(
                    "state.devices"@,
                    base.devices,
                    ours.devices,
                    theirs.devices,
                    choices,
                ),
            ),
        ),
    )
}

/// The shared part of the merged state.
pub open spec fn merged_shared(
    base: StateView,
    ours: StateView,
    theirs: StateView,
    choices: Map<Seq<char>, MergeChoice>,
) -> SharedView {
    SharedView {
        version: merged_value(
            base.version,
            ours.version,
            theirs.version,
            lookup(choices, "state.version"@),
        )->Ok_0,
        team_id: merged_value(
            base.team_id,
            ours.team_id,
            theirs.team_id,
            lookup(choices, "state.team_id"@),
        )->Ok_0,
        bundle_ids: merged_map(
            "state.bundle_ids"@,
            base.bundle_ids,
            ours.bundle_ids,
            theirs.bundle_ids,
            choices,
        ),
        devices: merged_map(
            "state.devices"@,
            base.devices,
            ours.devices,
            theirs.devices,
            choices,
        ),
    }
}

/// Merges the shared part of three states.
pub fn merge_shared_state(
    base: &State,
    ours: &State,
    theirs: &State,
    choices: &OrderedMap<MergeChoice>,
) -> (result: Result<SharedState, String>)
    ensures
        match shared_conflict(base@, ours@, theirs@, choices@) {
            Some(label) => result matches Err(conflict) && conflict@ == label,
            None => result matches Ok(shared) && shared@ == merged_shared(
                base@,
                ours@,
                theirs@,
                choices@,
            ),
        },
{
    let version = match merge_scalar(
        "state.version",
        &base.version,
        &ours.version,
        &theirs.version,
        choices,
    ) {
        Ok(value) => value,
        Err(conflict) => {
            return Err(conflict);
        },
    };
    let team_id = match merge_scalar(
        "state.team_id",
        &base.team_id,
        &ours.team_id,
        &theirs.team_id,
        choices,
    ) {
        Ok(value) => value,
        Err(conflict) => {
            return Err(conflict);
        },
    };
    let bundle_ids = match merge_map(
        "state.bundle_ids",
        &base.bundle_ids,
        &ours.bundle_ids,
        &theirs.bundle_ids,
        choices,
    ) {
        Ok(map) => map,
        Err(conflict) => {
            return Err(conflict);
        },
    };
    match merge_map("state.devices", &base.devices, &ours.devices, &theirs.devices, choices) {
        Ok(devices) => Ok(SharedState { version, team_id, bundle_ids, devices }),
        Err(conflict) => Err(conflict),
    }
}

/// The label of the part of a scope.
pub open spec fn scope_label(scope: Scope) -> Seq<char> {
    "state+payload."@ + scope_name(scope)
}

/// Why the part of a scope is not merged, if it is not.
pub open spec fn scope_stop(
    scope: Scope,
    base: BundleContents,
    ours: BundleContents,
    theirs: BundleContents,
    choices: Map<Seq<char>, MergeChoice>,
) -> Option<Result<Seq<char>, Seq<char>>> {
    if !base.scopes@.contains_key(scope) || !ours.scopes@.contains_key(scope)
        || !theirs.scopes@.contains_key(scope) {
        Some(Err(no_scope_message(scope)))
    } else {
        match value_conflict(
            scope_label(scope),
            scope_part(base, scope),
            scope_part(ours, scope),
            scope_part(theirs, scope),
            choices,
        ) {
            Some(label) => Some(Ok(label)),
            None => None,
        }
    }
}

/// The merged part of a scope.
pub open spec fn merged_scope(
    scope: Scope,
    base: BundleContents,
    ours: BundleContents,
    theirs: BundleContents,
    choices: Map<Seq<char>, MergeChoice>,
) -> ScopeStateView {
    merged_value(
        scope_part(base, scope),
        scope_part(ours, scope),
        scope_part(theirs, scope),
        lookup(choices, scope_label(scope)),
    )->Ok_0
}

/// What a merge stopped at: a conflict's label, or a message.
pub open spec fn stop_view(stop: MergeStop) -> Result<Seq<char>, Seq<char>> {
    match stop {
        MergeStop::Conflict(label) => Ok(label@),
        MergeStop::Failed(error) => Err(error@),
    }
}

/// Merges the part of a scope.
pub fn merge_scope_signing_state(
    scope: Scope,
    base: &BundleContents,
    ours: &BundleContents,
    theirs: &BundleContents,
    choices: &OrderedMap<MergeChoice>,
) -> (result: Result<ScopeSigningState, MergeStop>)
    ensures
        match scope_stop(scope, *base, *ours, *theirs, choices@) {
            Some(stop) => result matches Err(found) && stop_view(found) == stop,
            None => result matches Ok(part) && part@ == merged_scope(
                scope,
                *base,
                *ours,
                *theirs,
                choices@,
            ),
        },
{
    let a = match scope_signing_state(base, scope) {
        Ok(part) => part,
        Err(error) => {
            return Err(MergeStop::Failed(error));
        },
    };
    let b = match scope_signing_state(ours, scope) {
        Ok(part) => part,
        Err(error) => {
            return Err(MergeStop::Failed(error));
        },
    };
    let c = match scope_signing_state(theirs, scope) {
        Ok(part) => part,
        Err(error) => {
            return Err(MergeStop::Failed(error));
        },
    };
    let label = cat("state+payload.", scope.bundle_segment());
    match merge_scalar(label.as_str(), &a, &b, &c, choices) {
        Ok(part) => Ok(part),
        Err(conflict) => Err(MergeStop::Conflict(conflict)),
    }
}

fn extend<T: Plain>(map: &mut OrderedMap<T>, more: &OrderedMap<T>)
    ensures
        deep(final(map)@) == deep(old(map)@).union_prefer_right(deep(more@)),
{
    let ghost start = deep(map@);
    let ghost entries = more.entries();
    let n: usize = more.len();
    let mut i: usize = 0;
    proof {
        assert(start.union_prefer_right(deep(entries_map(entries.take(0)))) =~= start);
    }
    while i < n
        invariant
            i <= n == entries.len(),
            entries == more.entries(),
            ascending(entries),
            deep(map@) == start.union_prefer_right(deep(entries_map(entries.take(i as int)))),
        decreases n - i,
    {
        let ghost before = deep(map@);
        let value = more.value_at(i).copy();
        let ghost view = value@;
        map.insert(more.key_at(i).clone(), value);
        proof {
            let key = entries[i as int].0;
            crate::values::lemma_first_entries(entries, i as int);
            assert(deep(map@) =~= before.insert(key, view));
            assert(deep(entries_map(entries.take(i + 1))) =~= deep(
                entries_map(entries.take(i as int)),
            ).insert(key, view));
            assert(start.union_prefer_right(deep(entries_map(entries.take(i + 1))))
                =~= start.union_prefer_right(deep(entries_map(entries.take(i as int)))).insert(
                key,
                view,
            ));
        }
        i += 1;
    }
    proof {
        assert(entries.take(i as int) =~= entries);
    }
}

/// Why bundles are not merged, if they are not: the first thing in the way, of the shared part, of
/// the developer scope, then of the release scope.
pub open spec fn merge_stop(
    base: BundleContents,
    ours: BundleContents,
    theirs: BundleContents,
    choices: Map<Seq<char>, MergeChoice>,
) -> Option<Result<Seq<char>, Seq<char>>> {
    match shared_conflict(base.state@, ours.state@, theirs.state@, choices) {
        Some(label) => Some(Ok(label)),
        None => match scope_stop(Scope::Developer, base, ours, theirs, choices) {
            Some(stop) => Some(stop),
            None => scope_stop(Scope::Release, base, ours, theirs, choices),
        },
    }
}

/// The merged bundle.
pub open spec fn merged_bundle(
    base: BundleContents,
    ours: BundleContents,
    theirs: BundleContents,
    choices: Map<Seq<char>, MergeChoice>,
    result: BundleContents,
) -> bool {
    let shared = merged_shared(base.state@, ours.state@, theirs.state@, choices);
    let developer = merged_scope(Scope::Developer, base, ours, theirs, choices);
    let release = merged_scope(Scope::Release, base, ours, theirs, choices);
    &&& result.state@ == StateView {
        version: shared.version,
        team_id: shared.team_id,
        bundle_ids: shared.bundle_ids,
        devices: shared.devices,
        certs: developer.certs.union_prefer_right(release.certs),
        profiles: developer.profiles.union_prefer_right(release.profiles),
    }
    &&& result.scopes@.dom() == set![Scope::Developer, Scope::Release]
    &&& result.scopes@[Scope::Developer]@ == developer.payload
    &&& result.scopes@[Scope::Release]@ == release.payload
}

/// Merges two bundles that grew from one.
pub fn merge_bundle_contents(
    base: &BundleContents,
    ours: &BundleContents,
    theirs: &BundleContents,
    choices: &OrderedMap<MergeChoice>,
) -> (result: Result<BundleContents, MergeStop>)
    ensures
        match merge_stop(*base, *ours, *theirs, choices@) {
            Some(stop) => result matches Err(found) && stop_view(found) == stop,
            None => result matches Ok(contents) && merged_bundle(
                *base,
                *ours,
                *theirs,
                choices@,
                contents,
            ),
        },
{
    let shared = match merge_shared_state(&base.state, &ours.state, &theirs.state, choices) {
        Ok(shared) => shared,
        Err(conflict) => {
            return Err(MergeStop::Conflict(conflict));
        },
    };
    let developer = match merge_scope_signing_state(Scope::Developer, base, ours, theirs, choices) {
        Ok(part) => part,
        Err(stop) => {
            return Err(stop);
        },
    };
    let release = match merge_scope_signing_state(Scope::Release, base, ours, theirs, choices) {
        Ok(part) => part,
        Err(stop) => {
            return Err(stop);
        },
    };
    let mut certs = developer.certs;
    extend(&mut certs, &release.certs);
    let mut profiles = developer.profiles;
    extend(&mut profiles, &release.profiles);
    let mut scopes: RankedMap<Scope, Vec<u8>> = RankedMap::new();
    scopes.insert(Scope::Developer, developer.payload);
    scopes.insert(Scope::Release, release.payload);
    proof {
        assert(scopes@.dom() =~= set![Scope::Developer, Scope::Release]);
    }
    Ok(
        BundleContents {
            state: State {
                version: shared.version,
                team_id: shared.team_id,
                bundle_ids: shared.bundle_ids,
                devices: shared.devices,
                certs,
                profiles,
            },
            scopes,
        },
    )
}

/// The message of a conflict that nobody can be asked about.
pub fn conflict_message(label: &str) -> (error: Error)
    ensures
        error@ == label@

                + " has conflicting changes in ours and theirs; rerun `signing merge` in an interactive terminal to choose"@,
{
    failure(
        cat(
            label,
            " has conflicting changes in ours and theirs; rerun `signing merge` in an interactive terminal to choose",
        ),
    )
}

/// The side that an answer names.
pub open spec fn answer_of(answer: Seq<char>) -> Option<MergeChoice> {
    let word = crate::text::lowered(crate::text::trimmed(answer));
    if word == "b"@ || word == "base"@ {
        Some(MergeChoice::Base)
    } else if word == "o"@ || word == "ours"@ {
        Some(MergeChoice::Ours)
    } else if word == "t"@ || word == "theirs"@ {
        Some(MergeChoice::Theirs)
    } else {
        None
    }
}

/// The side that an answer names.
pub fn merge_answer(answer: &str) -> (choice: Option<MergeChoice>)
    ensures
        choice == answer_of(answer@),
{
    let word = crate::text::to_lower(crate::text::trim(answer));
    let name = word.as_str();
    if crate::text::same(name, "b") || crate::text::same(name, "base") {
        Some(MergeChoice::Base)
    } else if crate::text::same(name, "o") || crate::text::same(name, "ours") {
        Some(MergeChoice::Ours)
    } else if crate::text::same(name, "t") || crate::text::same(name, "theirs") {
        Some(MergeChoice::Theirs)
    } else {
        None
    }
}

/// What only one side changed is taken from that side; what neither changed stays.
pub proof fn law_merge_takes_the_only_change<V>(
    base: Option<V>,
    changed: Option<V>,
    choice: Option<MergeChoice>,
)
    ensures
        merged(base, base, changed, choice) == Ok::<Option<V>, ()>(changed),
        merged(base, changed, base, choice) == Ok::<Option<V>, ()>(changed),
        merged(base, changed, changed, choice) == Ok::<Option<V>, ()>(changed),
{
}

/// Without choices it does not matter which side is which.
pub proof fn law_merge_is_symmetric<V>(base: Option<V>, ours: Option<V>, theirs: Option<V>)
    ensures
        merged(base, ours, theirs, None) == merged(base, theirs, ours, None),
{
}

/// A merge needs a choice just where both sides changed a value, each in its own way.
pub proof fn law_merge_conflicts<V>(base: Option<V>, ours: Option<V>, theirs: Option<V>)
    ensures
        merged(base, ours, theirs, None) is Err <==> ours != base && theirs != base && ours
            != theirs,
{
}

/// A map that only one side changed, or both in the same way, is taken whole.
pub proof fn law_merge_takes_the_only_changed_map<V>(
    label: Seq<char>,
    base: Map<Seq<char>, V>,
    changed: Map<Seq<char>, V>,
    choices: Map<Seq<char>, MergeChoice>,
)
    ensures
        map_conflict(label, base, base, changed, choices) is None,
        merged_map(label, base, base, changed, choices) == changed,
        map_conflict(label, base, changed, base, choices) is None,
        merged_map(label, base, changed, base, choices) == changed,
        map_conflict(label, base, changed, changed, choices) is None,
        merged_map(label, base, changed, changed, choices) == changed,
{
    assert forall|key: Seq<char>| #[trigger] merged_at(label, base, changed, changed, choices, key)
        == Ok::<Option<V>, ()>(lookup(changed, key)) by {}
    assert forall|key: Seq<char>| !first_conflict(label, base, changed, changed, choices, key) by {
        assert(merged_at(label, base, changed, changed, choices, key) is Ok);
    }
    assert(merged_map(label, base, changed, changed, choices) =~= changed);
    assert forall|key: Seq<char>| #[trigger] merged_at(label, base, base, changed, choices, key)
        == Ok::<Option<V>, ()>(lookup(changed, key)) by {}
    assert forall|key: Seq<char>| #[trigger] merged_at(label, base, changed, base, choices, key)
        == Ok::<Option<V>, ()>(lookup(changed, key)) by {}
    assert forall|key: Seq<char>| !first_conflict(label, base, base, changed, choices, key) by {
        assert(merged_at(label, base, base, changed, choices, key) is Ok);
    }
    assert forall|key: Seq<char>| !first_conflict(label, base, changed, base, choices, key) by {
        assert(merged_at(label, base, changed, base, choices, key) is Ok);
    }
    assert(merged_map(label, base, base, changed, choices) =~= changed);
    assert(merged_map(label, base, changed, base, choices) =~= changed);
}

/// Two bundles hold the same.
pub open spec fn alike(a: BundleContents, b: BundleContents) -> bool {
    &&& a.state@ == b.state@
    &&& a.scopes@.dom() == b.scopes@.dom()
    &&& forall|scope: Scope|
        #![trigger a.scopes@[scope]]
        #![trigger b.scopes@[scope]]
        a.scopes@[scope]@ == b.scopes@[scope]@
}

/// A bundle was taken whole: its shared state, its payloads, and the certificates and profiles that
/// belong to a scope.
pub open spec fn taken_whole(result: BundleContents, changed: BundleContents) -> bool {
    &&& result.state@.version == changed.state@.version
    &&& result.state@.team_id == changed.state@.team_id
    &&& result.state@.bundle_ids == changed.state@.bundle_ids
    &&& result.state@.devices == changed.state@.devices
    &&& forall|scope: Scope| #[trigger] result.scopes@[scope]@ == changed.scopes@[scope]@
    &&& forall|name: Seq<char>| #[trigger]
        result.state@.certs.contains_key(name) <==> (exists|scope: Scope| #[trigger]
            has_certificate(changed.state@, scope, name))
    &&& forall|name: Seq<char>| #[trigger]
        result.state@.certs.contains_key(name) ==> result.state@.certs[name]
            == changed.state@.certs[name]
    &&& forall|name: Seq<char>| #[trigger]
        result.state@.profiles.contains_key(name) <==> (exists|scope: Scope| #[trigger]
            has_profile(changed.state@, scope, name))
    &&& forall|name: Seq<char>| #[trigger]
        result.state@.profiles.contains_key(name) ==> result.state@.profiles[name]
            == changed.state@.profiles[name]
}

/// Only one side changed a bundle, or both did in the same way.
pub open spec fn one_change(
    base: BundleContents,
    ours: BundleContents,
    theirs: BundleContents,
    changed: BundleContents,
) -> bool {
    ||| alike(ours, base) && alike(theirs, changed)
    ||| alike(ours, changed) && alike(theirs, base)
    ||| alike(ours, changed) && alike(theirs, changed)
}

/// A bundle that only one side changed, or both in the same way, is taken whole, and nothing stops
/// its merge.
pub proof fn law_merge_takes_the_only_changed_bundle(
    base: BundleContents,
    ours: BundleContents,
    theirs: BundleContents,
    changed: BundleContents,
    choices: Map<Seq<char>, MergeChoice>,
)
    requires
        forall|scope: Scope| #[trigger] base.scopes@.contains_key(scope),
        forall|scope: Scope| #[trigger] changed.scopes@.contains_key(scope),
        one_change(base, ours, theirs, changed),
    ensures
        merge_stop(base, ours, theirs, choices) is None,
        forall|result: BundleContents| #[trigger]
            merged_bundle(base, ours, theirs, choices, result) ==> taken_whole(result, changed),
{
    law_merge_takes_the_only_changed_map(
        "state.bundle_ids"@,
        base.state@.bundle_ids,
        changed.state@.bundle_ids,
        choices,
    );
    law_merge_takes_the_only_changed_map(
        "state.devices"@,
        base.state@.devices,
        changed.state@.devices,
        choices,
    );
    assert forall|scope: Scope| #[trigger] scope_stop(scope, base, ours, theirs, choices) is None
        && merged_scope(scope, base, ours, theirs, choices) == scope_part(changed, scope) by {
        assert(base.scopes@.contains_key(scope) && changed.scopes@.contains_key(scope));
        assert(ours.scopes@.dom().contains(scope) && theirs.scopes@.dom().contains(scope));
        if alike(ours, base) {
            assert(scope_part(ours, scope) == scope_part(base, scope));
        }
        if alike(theirs, base) {
            assert(scope_part(theirs, scope) == scope_part(base, scope));
        }
        if alike(ours, changed) {
            assert(scope_part(ours, scope) == scope_part(changed, scope));
        }
        if alike(theirs, changed) {
            assert(scope_part(theirs, scope) == scope_part(changed, scope));
        }
    }
    assert(scope_stop(Scope::Developer, base, ours, theirs, choices) is None);
    assert(scope_stop(Scope::Release, base, ours, theirs, choices) is None);
    assert forall|result: BundleContents| #[trigger]
        merged_bundle(base, ours, theirs, choices, result) implies taken_whole(result, changed) by {
        lemma_parts_taken(result, changed);
    }
}

/// A bundle of the two parts of another one, and of its shared state, is that one taken whole.
proof fn lemma_parts_taken(result: BundleContents, changed: BundleContents)
    requires
        result.state@.version == changed.state@.version,
        result.state@.team_id == changed.state@.team_id,
        result.state@.bundle_ids == changed.state@.bundle_ids,
        result.state@.devices == changed.state@.devices,
        result.state@.certs == scope_part(changed, Scope::Developer).certs.union_prefer_right(
            scope_part(changed, Scope::Release).certs,
        ),
        result.state@.profiles == scope_part(changed, Scope::Developer).profiles.union_prefer_right(
            scope_part(changed, Scope::Release).profiles,
        ),
        result.scopes@[Scope::Developer]@ == scope_part(changed, Scope::Developer).payload,
        result.scopes@[Scope::Release]@ == scope_part(changed, Scope::Release).payload,
    ensures
        taken_whole(result, changed),
{
    let developer = scope_part(changed, Scope::Developer);
    let release = scope_part(changed, Scope::Release);
    assert forall|name: Seq<char>| #[trigger] result.state@.certs.contains_key(name) <==> (exists|
        scope: Scope,
    | #[trigger] has_certificate(changed.state@, scope, name)) by {
        assert(developer.certs.contains_key(name) == has_certificate(
            changed.state@,
            Scope::Developer,
            name,
        ));
        assert(release.certs.contains_key(name) == has_certificate(
            changed.state@,
            Scope::Release,
            name,
        ));
        if exists|scope: Scope| #[trigger] has_certificate(changed.state@, scope, name) {
            let scope = choose|scope: Scope| #[trigger]
                has_certificate(changed.state@, scope, name);
            assert(scope == Scope::Developer || scope == Scope::Release);
        }
    }
    assert forall|name: Seq<char>| #[trigger] result.state@.profiles.contains_key(name) <==> (
    exists|scope: Scope| #[trigger] has_profile(changed.state@, scope, name)) by {
        assert(developer.profiles.contains_key(name) == has_profile(
            changed.state@,
            Scope::Developer,
            name,
        ));
        assert(release.profiles.contains_key(name) == has_profile(
            changed.state@,
            Scope::Release,
            name,
        ));
        if exists|scope: Scope| #[trigger] has_profile(changed.state@, scope, name) {
            let scope = choose|scope: Scope| #[trigger] has_profile(changed.state@, scope, name);
            assert(scope == Scope::Developer || scope == Scope::Release);
        }
    }
    assert forall|scope: Scope| #[trigger] result.scopes@[scope]@ == changed.scopes@[scope]@ by {
        assert(scope == Scope::Developer || scope == Scope::Release);
    }
}

/// Changes to the developer scope on one side and to the release scope on the other are both taken.
pub proof fn law_changes_to_different_scopes_combine(
    base: BundleContents,
    ours: BundleContents,
    theirs: BundleContents,
    choices: Map<Seq<char>, MergeChoice>,
)
    requires
        forall|scope: Scope| #[trigger] base.scopes@.contains_key(scope),
        forall|scope: Scope| #[trigger] ours.scopes@.contains_key(scope),
        forall|scope: Scope| #[trigger] theirs.scopes@.contains_key(scope),
        ours.state@.version == base.state@.version == theirs.state@.version,
        ours.state@.team_id == base.state@.team_id,
        theirs.state@.team_id == base.state@.team_id,
        ours.state@.bundle_ids == base.state@.bundle_ids,
        theirs.state@.bundle_ids == base.state@.bundle_ids,
        ours.state@.devices == base.state@.devices,
        theirs.state@.devices == base.state@.devices,
        scope_part(ours, Scope::Release) == scope_part(base, Scope::Release),
        scope_part(theirs, Scope::Developer) == scope_part(base, Scope::Developer),
    ensures
        merge_stop(base, ours, theirs, choices) is None,
        merged_scope(Scope::Developer, base, ours, theirs, choices) == scope_part(
            ours,
            Scope::Developer,
        ),
        merged_scope(Scope::Release, base, ours, theirs, choices) == scope_part(
            theirs,
            Scope::Release,
        ),
{
    law_merge_takes_the_only_changed_map(
        "state.bundle_ids"@,
        base.state@.bundle_ids,
        base.state@.bundle_ids,
        choices,
    );
    law_merge_takes_the_only_changed_map(
        "state.devices"@,
        base.state@.devices,
        base.state@.devices,
        choices,
    );
    assert(base.scopes@.contains_key(Scope::Developer));
    assert(ours.scopes@.contains_key(Scope::Developer));
    assert(theirs.scopes@.contains_key(Scope::Developer));
    assert(base.scopes@.contains_key(Scope::Release));
    assert(ours.scopes@.contains_key(Scope::Release));
    assert(theirs.scopes@.contains_key(Scope::Release));
}

/// Changes to one scope on both sides, each in its own way, stop a merge at that scope.
pub proof fn law_changes_to_one_scope_conflict(
    scope: Scope,
    base: BundleContents,
    ours: BundleContents,
    theirs: BundleContents,
)
    requires
        base.scopes@.contains_key(scope),
        ours.scopes@.contains_key(scope),
        theirs.scopes@.contains_key(scope),
        scope_part(ours, scope) != scope_part(base, scope),
        scope_part(theirs, scope) != scope_part(base, scope),
        scope_part(ours, scope) != scope_part(theirs, scope),
    ensures
        scope_stop(scope, base, ours, theirs, Map::empty()) == Some(
            Ok::<Seq<char>, Seq<char>>(scope_label(scope)),
        ),
        merge_stop(base, ours, theirs, Map::empty()) is Some,
{
}

/// Where both sides changed a value, each in its own way, the choice names the side that is kept.
pub proof fn law_choices_decide<V>(base: Option<V>, ours: Option<V>, theirs: Option<V>)
    requires
        ours != theirs,
        ours != base,
        theirs != base,
    ensures
        merged(base, ours, theirs, Some(MergeChoice::Base)) == Ok::<Option<V>, ()>(base),
        merged(base, ours, theirs, Some(MergeChoice::Ours)) == Ok::<Option<V>, ()>(ours),
        merged(base, ours, theirs, Some(MergeChoice::Theirs)) == Ok::<Option<V>, ()>(theirs),
{
}

/// The same of values that are all there.
pub proof fn law_choices_decide_values<V>(base: V, ours: V, theirs: V)
    requires
        ours != theirs,
        ours != base,
        theirs != base,
    ensures
        merged_value(base, ours, theirs, Some(MergeChoice::Base)) == Ok::<V, ()>(base),
        merged_value(base, ours, theirs, Some(MergeChoice::Ours)) == Ok::<V, ()>(ours),
        merged_value(base, ours, theirs, Some(MergeChoice::Theirs)) == Ok::<V, ()>(theirs),
        merged_value(base, ours, theirs, None) is Err,
{
}

/// Choices play no part where at most one side changed a value, or both did in the same way.
pub proof fn law_choices_are_asked_only_in_conflicts<V>(
    base: Option<V>,
    ours: Option<V>,
    theirs: Option<V>,
    choice: Option<MergeChoice>,
)
    requires
        ours == theirs || ours == base || theirs == base,
    ensures
        merged(base, ours, theirs, choice) == merged(base, ours, theirs, None),
        merged(base, ours, theirs, choice) is Ok,
{
}

/// A side of a merge.
pub open spec fn side<V>(base: V, ours: V, theirs: V, choice: MergeChoice) -> V {
    match choice {
        MergeChoice::Base => base,
        MergeChoice::Ours => ours,
        MergeChoice::Theirs => theirs,
    }
}

/// A value of a map that both sides changed, each in its own way, is that of the side that was chosen
/// for the map's label, a dot and its key. Nothing stands there where the chosen side has nothing.
pub proof fn law_map_choices_decide<V>(
    label: Seq<char>,
    base: Map<Seq<char>, V>,
    ours: Map<Seq<char>, V>,
    theirs: Map<Seq<char>, V>,
    choices: Map<Seq<char>, MergeChoice>,
    key: Seq<char>,
)
    requires
        lookup(ours, key) != lookup(theirs, key),
        lookup(ours, key) != lookup(base, key),
        lookup(theirs, key) != lookup(base, key),
        choices.contains_key(label + "."@ + key),
    ensures
        lookup(merged_map(label, base, ours, theirs, choices), key) == side(
            lookup(base, key),
            lookup(ours, key),
            lookup(theirs, key),
            choices[label + "."@ + key],
        ),
{
}

/// A map without choices is merged just where no key was changed on both sides, each in its own way,
/// and then each of its values is the changed one, or the one of the base.
pub proof fn law_maps_merge_key_by_key<V>(
    label: Seq<char>,
    base: Map<Seq<char>, V>,
    ours: Map<Seq<char>, V>,
    theirs: Map<Seq<char>, V>,
    key: Seq<char>,
)
    ensures
        ({
            let merge = lookup(
                merged_map(label, base, ours, theirs, Map::<Seq<char>, MergeChoice>::empty()),
                key,
            );
            let (b, o, t) = (lookup(base, key), lookup(ours, key), lookup(theirs, key));
            &&& o == b ==> merge == t
            &&& t == b ==> merge == o
            &&& o == t ==> merge == o
        }),
{
}

/// Keys of a map have labels of their own, and so have the scopes.
pub proof fn law_labels_differ(label: Seq<char>, a: Seq<char>, b: Seq<char>)
    ensures
        a != b ==> key_label(label, a) != key_label(label, b),
        scope_label(Scope::Developer) != scope_label(Scope::Release),
        scope_label(Scope::Developer) == "state+payload.developer"@,
        scope_label(Scope::Release) == "state+payload.release"@,
{
    let start = label + "."@;
    if key_label(label, a) == key_label(label, b) {
        assert(key_label(label, a).skip(start.len() as int) =~= a);
        assert(key_label(label, b).skip(start.len() as int) =~= b);
    }
    reveal_strlit("state+payload.");
    reveal_strlit("state+payload.developer");
    reveal_strlit("state+payload.release");
    reveal_strlit("developer");
    reveal_strlit("release");
    assert(scope_label(Scope::Developer) =~= "state+payload.developer"@);
    assert(scope_label(Scope::Release) =~= "state+payload.release"@);
    assert("state+payload.developer"@.len() != "state+payload.release"@.len());
}

/// The certificates, profiles and payload of a scope that both sides changed are those of the side
/// that was chosen for the scope.
pub proof fn law_scope_choices_decide(
    scope: Scope,
    base: BundleContents,
    ours: BundleContents,
    theirs: BundleContents,
    choices: Map<Seq<char>, MergeChoice>,
)
    requires
        scope_part(ours, scope) != scope_part(base, scope),
        scope_part(theirs, scope) != scope_part(base, scope),
        scope_part(ours, scope) != scope_part(theirs, scope),
        choices.contains_key("state+payload."@ + scope_name(scope)),
    ensures
        merged_scope(scope, base, ours, theirs, choices) == scope_part(
            side(base, ours, theirs, choices["state+payload."@ + scope_name(scope)]),
            scope,
        ),
{
}

/// The team and the version of a state that both sides changed are those of the side that was chosen
/// for them.
pub proof fn law_shared_choices_decide(
    base: StateView,
    ours: StateView,
    theirs: StateView,
    choices: Map<Seq<char>, MergeChoice>,
)
    ensures
        ours.team_id != base.team_id && theirs.team_id != base.team_id && ours.team_id
            != theirs.team_id && choices.contains_key("state.team_id"@) ==> merged_shared(
            base,
            ours,
            theirs,
            choices,
        ).team_id == side(base, ours, theirs, choices["state.team_id"@]).team_id,
        ours.version != base.version && theirs.version != base.version && ours.version
            != theirs.version && choices.contains_key("state.version"@) ==> merged_shared(
            base,
            ours,
            theirs,
            choices,
        ).version == side(base, ours, theirs, choices["state.version"@]).version,
{
}

/// A device or a bundle id that both sides changed is that of the side that was chosen for it.
pub proof fn law_shared_map_choices_decide(
    base: StateView,
    ours: StateView,
    theirs: StateView,
    choices: Map<Seq<char>, MergeChoice>,
    key: Seq<char>,
)
    ensures
        lookup(ours.devices, key) != lookup(base.devices, key) && lookup(theirs.devices, key)
            != lookup(base.devices, key) && lookup(ours.devices, key) != lookup(theirs.devices, key)
            && choices.contains_key("state.devices"@ + "."@ + key) ==> lookup(
            merged_shared(base, ours, theirs, choices).devices,
            key,
        ) == lookup(
            side(base, ours, theirs, choices["state.devices"@ + "."@ + key]).devices,
            key,
        ),
        lookup(ours.bundle_ids, key) != lookup(base.bundle_ids, key) && lookup(
            theirs.bundle_ids,
            key,
        ) != lookup(base.bundle_ids, key) && lookup(ours.bundle_ids, key) != lookup(
            theirs.bundle_ids,
            key,
        ) && choices.contains_key("state.bundle_ids"@ + "."@ + key) ==> lookup(
            merged_shared(base, ours, theirs, choices).bundle_ids,
            key,
        ) == lookup(
            side(base, ours, theirs, choices["state.bundle_ids"@ + "."@ + key]).bundle_ids,
            key,
        ),
{
}

/// The part of a scope holds just the certificates and profiles that belong to the scope, as the
/// state has them, and the scope's payload.
pub proof fn law_scope_parts(contents: BundleContents, scope: Scope, name: Seq<char>)
    ensures
        ({
            let part = scope_part(contents, scope);
            let state = contents.state@;
            &&& part.certs.contains_key(name) == has_certificate(state, scope, name)
            &&& part.certs.contains_key(name) ==> part.certs[name] == state.certs[name]
            &&& part.profiles.contains_key(name) == has_profile(state, scope, name)
            &&& part.profiles.contains_key(name) ==> part.profiles[name] == state.profiles[name]
            &&& part.payload == contents.scopes@[scope]@
        }),
{
}

/// An answer names a side by the side's first letter or by its whole name, in any case and with
/// white space around it.
pub proof fn law_answers_name_sides(answer: Seq<char>, choice: MergeChoice)
    ensures
        ({
            let word = crate::text::lowered(crate::text::trimmed(answer));
            let name = side("base"@, "ours"@, "theirs"@, choice);
            (answer_of(answer) == Some(choice)) == (word == name || word == name.take(1))
        }),
{
    reveal_strlit("b");
    reveal_strlit("base");
    reveal_strlit("o");
    reveal_strlit("ours");
    reveal_strlit("t");
    reveal_strlit("theirs");
    assert("base"@.take(1) =~= "b"@);
    assert("ours"@.take(1) =~= "o"@);
    assert("theirs"@.take(1) =~= "t"@);
    assert("b"@[0] == 'b' && "base"@[0] == 'b');
    assert("o"@[0] == 'o' && "ours"@[0] == 'o');
    assert("t"@[0] == 't' && "theirs"@[0] == 't');
}

} // verus!
