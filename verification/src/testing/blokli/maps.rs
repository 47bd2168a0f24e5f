//! The concurrent maps and sets that the connector keeps its state in.

use std::collections::hash_map::RandomState;

use dashmap::{DashMap, DashSet};
use vstd::prelude::*;

verus! {

/// `dashmap::DashMap`, as an opaque type.
#[verifier::external_type_specification]
#[verifier::external_body]
#[verifier::reject_recursive_types(K)]
#[verifier::reject_recursive_types(V)]
#[verifier::reject_recursive_types(S)]
pub struct ExDashMap<K, V, S>(dashmap::DashMap<K, V, S>);

/// `dashmap::DashSet`, as an opaque type.
#[verifier::external_type_specification]
#[verifier::external_body]
#[verifier::reject_recursive_types(K)]
#[verifier::reject_recursive_types(S)]
pub struct ExDashSet<K, S>(dashmap::DashSet<K, S>);

/// What a map holds, its keys by their bytes.
pub uninterp spec fn map_contents(map: DashMap<Vec<u8>, usize, RandomState>) -> Map<Seq<u8>, usize>;

/// What a set holds.
pub uninterp spec fn set_contents(set: DashSet<u64, RandomState>) -> Set<u64>;

/// The map without entries.
pub open spec fn no_entries() -> Map<Seq<u8>, usize> {
    Map::empty()
}

/// The set without members.
pub open spec fn no_members() -> Set<u64> {
    Set::empty()
}

/// `DashMap::new`: an empty map.
#[verifier::external_body]
pub(crate) fn new_map() -> (map: DashMap<Vec<u8>, usize, RandomState>)
    ensures
        map_contents(map) == no_entries(),
{
    DashMap::new()
}

/// `DashMap::insert`: the key holds the value, whatever it held before.
#[verifier::external_body]
pub(crate) fn map_insert(map: &mut DashMap<Vec<u8>, usize, RandomState>, key: Vec<u8>, value: usize)
    ensures
        map_contents(*final(map)) == map_contents(*old(map)).insert(key@, value),
{
    map.insert(key, value);
}

/// `DashMap::get`: the value of a key, where it has one.
#[verifier::external_body]
pub(crate) fn map_get(map: &DashMap<Vec<u8>, usize, RandomState>, key: &Vec<u8>) -> (value: Option<usize>)
    ensures
        value == (if map_contents(*map).contains_key(key@) {
            Some(map_contents(*map)[key@])
        } else {
            None
        }),
{
    map.get(key).map(|entry| *entry)
}

/// `DashMap::remove`: the key holds nothing any more.
#[verifier::external_body]
pub(crate) fn map_remove(map: &mut DashMap<Vec<u8>, usize, RandomState>, key: &Vec<u8>)
    ensures
        map_contents(*final(map)) == map_contents(*old(map)).remove(key@),
{
    map.remove(key);
}

/// `DashSet::new`: an empty set.
#[verifier::external_body]
pub(crate) fn new_set() -> (set: DashSet<u64, RandomState>)
    ensures
        set_contents(set) == no_members(),
{
    DashSet::new()
}

/// `DashSet::insert`: the set has the member.
#[verifier::external_body]
pub(crate) fn set_insert(set: &mut DashSet<u64, RandomState>, member: u64)
    ensures
        set_contents(*final(set)) == set_contents(*old(set)).insert(member),
{
    set.insert(member);
}

/// `DashSet::remove`: the set has the member no more.
#[verifier::external_body]
pub(crate) fn set_remove(set: &mut DashSet<u64, RandomState>, member: u64)
    ensures
        set_contents(*final(set)) == set_contents(*old(set)).remove(member),
{
    set.remove(&member);
}

/// `DashSet::contains`: whether the set has the member.
#[verifier::external_body]
pub(crate) fn set_contains(set: &DashSet<u64, RandomState>, member: u64) -> (found: bool)
    ensures
        found == set_contents(*set).contains(member),
{
    set.contains(&member)
}

/// A keyed collection that remembers the order in which its keys first came.
///
/// A concurrent map finds the place of a key; the entries stand side by side in that order.
pub struct Table<V> {
    places: DashMap<Vec<u8>, usize, RandomState>,
    entries: Vec<(Vec<u8>, V)>,
}

/// The keys of `entries`, in their order.
pub open spec fn keys_of<K, V>(entries: Seq<(K, V)>) -> Seq<K> {
    entries.map_values(|entry: (K, V)| entry.0)
}

/// The first place of `key` among `entries`, where it has one.
pub open spec fn place_of<K, V>(entries: Seq<(K, V)>, key: K) -> Option<int> {
    keys_of(entries).index_of_first(key)
}

/// The value under `key`, where there is one.
pub open spec fn value_of<K, V>(entries: Seq<(K, V)>, key: K) -> Option<V> {
    match place_of(entries, key) {
        Some(i) => Some(entries[i].1),
        None => None,
    }
}

/// The entries with `value` under `key`: in the place that the key has, or behind the last where it
/// is new.
pub open spec fn put<K, V>(entries: Seq<(K, V)>, key: K, value: V) -> Seq<(K, V)> {
    match place_of(entries, key) {
        Some(i) => entries.update(i, (key, value)),
        None => entries.push((key, value)),
    }
}

/// Whether no key occurs twice.
pub open spec fn keys_are_unique<K, V>(entries: Seq<(K, V)>) -> bool {
    forall|i: int, j: int|
        0 <= i < j < entries.len() ==> (#[trigger] entries[i]).0 != (#[trigger] entries[j]).0
}

/// What a place is: the first entry with the key; where there is none, no entry has it.
pub proof fn lemma_place<K, V>(entries: Seq<(K, V)>, key: K)
    ensures
        match place_of(entries, key) {
            Some(i) => {
                &&& 0 <= i < entries.len()
                &&& entries[i].0 == key
                &&& forall|j: int| 0 <= j < i ==> (#[trigger] entries[j]).0 != key
            },
            None => forall|j: int| 0 <= j < entries.len() ==> (#[trigger] entries[j]).0 != key,
        },
{
    let keys = keys_of(entries);
    keys.index_of_first_ensures(key);
    assert forall|j: int| 0 <= j < entries.len() implies keys[j] == (#[trigger] entries[j]).0 by {}
    if place_of(entries, key) is None {
        assert forall|j: int| 0 <= j < entries.len() implies (#[trigger] entries[j]).0 != key by {
            assert(keys[j] != key);
        }
    } else {
        let i = place_of(entries, key)->0;
        assert forall|j: int| 0 <= j < i implies (#[trigger] entries[j]).0 != key by {
            assert(keys[j] != key);
        }
    }
}

/// A place is known by its key alone where no key occurs twice.
pub proof fn lemma_only_place<K, V>(entries: Seq<(K, V)>, key: K, place: int)
    requires
        keys_are_unique(entries),
        0 <= place < entries.len(),
        entries[place].0 == key,
    ensures
        place_of(entries, key) == Some(place),
{
    lemma_place(entries, key);
}

/// Putting a value leaves the keys unique, is read back under its key, and changes nothing under the
/// others.
pub proof fn a_put_value_is_read_back<K, V>(entries: Seq<(K, V)>, key: K, value: V, other: K)
    requires
        keys_are_unique(entries),
    ensures
        keys_are_unique(put(entries, key, value)),
        value_of(put(entries, key, value), key) == Some(value),
        other != key ==> value_of(put(entries, key, value), other) == value_of(entries, other),
{
    let after = put(entries, key, value);
    lemma_place(entries, key);
    lemma_place(entries, other);
    lemma_place(after, other);
    match place_of(entries, key) {
        Some(i) => {
            lemma_only_place(after, key, i);
        },
        None => {
            lemma_only_place(after, key, entries.len() as int);
        },
    }
    if other != key && place_of(entries, other) is Some {
        lemma_only_place(after, other, place_of(entries, other)->0);
    }
}

/// A value that was put is found under its key, and what the others lead to is as it was, whatever the
/// entries are.
pub proof fn a_put_value_is_found<K, V>(entries: Seq<(K, V)>, key: K, value: V, other: K)
    ensures
        value_of(put(entries, key, value), key) == Some(value),
        other != key ==> value_of(put(entries, key, value), other) == value_of(entries, other),
{
    let after = put(entries, key, value);
    lemma_place(entries, key);
    lemma_place(after, key);
    lemma_place(entries, other);
    lemma_place(after, other);
    match place_of(entries, key) {
        Some(i) => {
            assert(after[i] == (key, value));
            assert forall|j: int| 0 <= j < entries.len() && j != i implies #[trigger] after[j] == entries[j] by {}
        },
        None => {
            assert(after[entries.len() as int] == (key, value));
            assert forall|j: int| 0 <= j < entries.len() implies #[trigger] after[j] == entries[j] by {}
        },
    }
    if let Some(j) = place_of(entries, other) {
        assert(entries[j].0 == other);
        if other != key {
            assert(after[j] == entries[j]);
        }
    }
    if let Some(j) = place_of(after, other) {
        if other != key {
            assert(j < entries.len());
            assert(after[j] == entries[j]);
        }
    }
    if let Some(j) = place_of(after, key) {
        assert(after[j].0 == key);
    }
}

/// A new key comes behind all others, and one that is there keeps its place.
pub proof fn a_key_keeps_its_place<K, V>(entries: Seq<(K, V)>, key: K, value: V)
    ensures
        place_of(entries, key) is Some ==> put(entries, key, value).len() == entries.len() && place_of(
            put(entries, key, value),
            key,
        ) == place_of(entries, key),
        place_of(entries, key) is None ==> put(entries, key, value).len() == entries.len() + 1 && place_of(
            put(entries, key, value),
            key,
        ) == Some(entries.len() as int),
        forall|i: int|
            0 <= i < entries.len() ==> (#[trigger] put(entries, key, value)[i]).0 == entries[i].0,
{
    let after = put(entries, key, value);
    lemma_place(entries, key);
    lemma_place(after, key);
    if let Some(i) = place_of(entries, key) {
        assert(after[i].0 == key);
        assert forall|j: int| 0 <= j < i implies (#[trigger] after[j]).0 != key by {
            assert(after[j] == entries[j]);
        }
    } else {
        assert(after[entries.len() as int].0 == key);
        assert forall|j: int| 0 <= j < entries.len() implies (#[trigger] after[j]).0 != key by {
            assert(after[j] == entries[j]);
        }
    }
}

/// Values may be looked at before they are put or after.
pub proof fn lemma_put_commutes<K, V, W>(entries: Seq<(K, V)>, key: K, value: V, look: spec_fn(V) -> W)
    ensures
        put(entries, key, value).map_values(|entry: (K, V)| (entry.0, look(entry.1))) == put(
            entries.map_values(|entry: (K, V)| (entry.0, look(entry.1))),
            key,
            look(value),
        ),
        place_of(entries.map_values(|entry: (K, V)| (entry.0, look(entry.1))), key) == place_of(entries, key),
{
    let seen = entries.map_values(|entry: (K, V)| (entry.0, look(entry.1)));
    assert(keys_of(seen) =~= keys_of(entries));
    lemma_place(entries, key);
    assert(put(entries, key, value).map_values(|entry: (K, V)| (entry.0, look(entry.1))) =~= put(
        seen,
        key,
        look(value),
    ));
}

impl<V> Table<V> {
    /// The entries, each key with its value, in the order in which the keys first came.
    pub closed spec fn entries(self) -> Seq<(Seq<u8>, V)> {
        self.entries@.map_values(|entry: (Vec<u8>, V)| (entry.0@, entry.1))
    }

    /// The map finds every entry, and nothing else.
    pub closed spec fn well_formed(self) -> bool {
        let places = map_contents(self.places);
        &&& forall|i: int|
            0 <= i < self.entries@.len() ==> {
                &&& places.contains_key((#[trigger] self.entries@[i]).0@)
                &&& places[self.entries@[i].0@] == i
            }
        &&& forall|key: Seq<u8>|
            places.contains_key(key) ==> {
                &&& (#[trigger] places[key]) < self.entries@.len()
                &&& self.entries@[places[key] as int].0@ == key
            }
    }

    /// No key occurs twice.
    pub proof fn keys_occur_once(self)
        requires
            self.well_formed(),
        ensures
            keys_are_unique(self.entries()),
    {
        let entries = self.entries();
        assert forall|i: int, j: int| 0 <= i < j < entries.len() implies (#[trigger] entries[i]).0 != (
        #[trigger] entries[j]).0 by {
            assert(map_contents(self.places)[self.entries@[i].0@] == i);
            assert(map_contents(self.places)[self.entries@[j].0@] == j);
        }
    }

    /// A table without entries.
    pub fn new() -> (table: Self)
        ensures
            table.well_formed(),
            table.entries() == Seq::<(Seq<u8>, V)>::empty(),
    {
        let table = Table { places: new_map(), entries: Vec::new() };
        assert(table.entries() =~= Seq::empty());
        table
    }

    /// The number of keys.
    pub fn len(&self) -> (count: usize)
        ensures
            count == self.entries().len(),
    {
        self.entries.len()
    }

    /// The place of `key`, where it has one.
    pub fn find(&self, key: &Vec<u8>) -> (place: Option<usize>)
        requires
            self.well_formed(),
        ensures
            match place {
                Some(i) => i < self.entries().len() && place_of(self.entries(), key@) == Some(i as int)
                    && self.entries()[i as int].0 == key@,
                None => place_of(self.entries(), key@) is None,
            },
    {
        let place: Option<usize> = map_get(&self.places, key);
        proof {
            let entries = self.entries();
            let places = map_contents(self.places);
            lemma_place(entries, key@);
            match place_of(entries, key@) {
                Some(i) => {
                    assert(self.entries@[i].0@ == key@);
                    assert(places[self.entries@[i].0@] == i);
                },
                None => {
                    if place is Some {
                        let i = places[key@] as int;
                        assert(self.entries@[i].0@ == key@);
                        assert(entries[i].0 == key@);
                    }
                },
            }
        }
        place
    }

    /// The value at a place.
    pub fn at(&self, place: usize) -> (value: &V)
        requires
            place < self.entries().len(),
        ensures
            *value == self.entries()[place as int].1,
    {
        &self.entries[place].1
    }

    /// The value under `key`, where there is one.
    pub fn get(&self, key: &Vec<u8>) -> (value: Option<&V>)
        requires
            self.well_formed(),
        ensures
            match value {
                Some(found) => value_of(self.entries(), key@) == Some(*found),
                None => value_of(self.entries(), key@) is None,
            },
    {
        match self.find(key) {
            Some(place) => Some(self.at(place)),
            None => None,
        }
    }

    /// Puts `value` under `key`.
    pub fn put(&mut self, key: Vec<u8>, value: V)
        requires
            old(self).well_formed(),
        ensures
            final(self).well_formed(),
            final(self).entries() == put(old(self).entries(), key@, value),
    {
        let place: Option<usize> = self.find(&key);
        let ghost bytes = key@;
        proof {
            lemma_place(self.entries(), bytes);
        }
        match place {
            Some(i) => {
                self.entries.set(i, (key, value));
            },
            None => {
                let next: usize = self.entries.len();
                map_insert(&mut self.places, copy_key(&key), next);
                self.entries.push((key, value));
                proof {
                    assert forall|i: int| 0 <= i < next implies (#[trigger] self.entries@[i]).0@ != bytes by {
                        assert(old(self).entries()[i].0 == self.entries@[i].0@);
                    }
                }
            },
        }
        assert(self.entries() =~= put(old(self).entries(), bytes, value));
        proof {
            let places = map_contents(self.places);
            assert forall|k: Seq<u8>| places.contains_key(k) implies {
                &&& (#[trigger] places[k]) < self.entries@.len()
                &&& self.entries@[places[k] as int].0@ == k
            } by {
                if k != bytes {
                    assert(map_contents(old(self).places).contains_key(k));
                    assert(places[k] == map_contents(old(self).places)[k]);
                }
            }
        }
    }
}

/// A copy of a key.
fn copy_key(key: &Vec<u8>) -> (copy: Vec<u8>)
    ensures
        copy@ == key@,
{
    let mut copy: Vec<u8> = Vec::new();
    copy.extend_from_slice(key.as_slice());
    assert(copy@ =~= key@);
    copy
}

} // verus!
