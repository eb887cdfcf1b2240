//! A map from account keys to values. The entries lie in one dense vector; a hash map from the
//! leading bytes of a key to positions in that vector finds them.

use std::collections::HashMap;
use vstd::bytes::u64_from_le_bytes;
use vstd::prelude::*;

use crate::keys::Pubkey;

verus! {

broadcast use vstd::std_specs::hash::group_hash_axioms;

/// The number under which the positions of a key are listed.
pub closed spec fn key_prefix(key: Seq<u8>) -> u64 {
    vstd::bytes::spec_u64_from_le_bytes(key.subrange(0, 8))
}

fn prefix_of(key: &Pubkey) -> (prefix: u64)
    ensures
        prefix == key_prefix(key@),
{
    broadcast use Pubkey::lemma_view;

    let bytes = key.to_bytes();
    assert(key@.len() == 32);
    u64_from_le_bytes(vstd::slice::slice_subrange(bytes.as_slice(), 0, 8))
}

/// Whether `position` is listed under `prefix`.
spec fn listed(index: Map<u64, Vec<usize>>, prefix: u64, position: usize) -> bool {
    index.contains_key(prefix) && index[prefix]@.contains(position)
}

/// No position is listed twice under one prefix.
spec fn lists_once(index: Map<u64, Vec<usize>>) -> bool {
    forall|prefix: u64|
        #![trigger index[prefix]]
        index.contains_key(prefix) ==> index[prefix]@.no_duplicates()
}

/// Lists `position` under `prefix`.
fn list_position(index: &mut HashMap<u64, Vec<usize>>, prefix: u64, position: usize)
    requires
        lists_once(old(index)@),
        !listed(old(index)@, prefix, position),
    ensures
        lists_once(final(index)@),
        forall|h: u64, p: usize|
            #![trigger listed(final(index)@, h, p)]
            listed(final(index)@, h, p) <==> (listed(old(index)@, h, p) || (h == prefix && p
                == position)),
{
    let ghost before = index@;
    let mut positions: Vec<usize> = match index.remove(&prefix) {
        Some(positions) => positions,
        None => Vec::new(),
    };
    let ghost had = positions@;
    assert(had.no_duplicates());
    assert(!had.contains(position));
    positions.push(position);
    let ghost has = positions@;
    assert(has.no_duplicates());
    index.insert(prefix, positions);
    assert forall|h: u64, p: usize|
        #![trigger listed(index@, h, p)]
        listed(index@, h, p) <==> (listed(before, h, p) || (h == prefix && p == position)) by {
        if h == prefix {
            if has.contains(p) && p != position {
                let j = choose|j: int| 0 <= j < has.len() && has[j] == p;
                assert(had[j] == p);
            }
            if had.contains(p) {
                let j = choose|j: int| 0 <= j < had.len() && had[j] == p;
                assert(has[j] == p);
            }
            assert(has[had.len() as int] == position);
        }
    }
}

/// Strikes `position` from under `prefix`.
fn strike_position(index: &mut HashMap<u64, Vec<usize>>, prefix: u64, position: usize)
    requires
        lists_once(old(index)@),
        listed(old(index)@, prefix, position),
    ensures
        lists_once(final(index)@),
        forall|h: u64, p: usize|
            #![trigger listed(final(index)@, h, p)]
            listed(final(index)@, h, p) <==> (listed(old(index)@, h, p) && !(h == prefix && p
                == position)),
{
    let ghost before = index@;
    let mut positions: Vec<usize> = match index.remove(&prefix) {
        Some(positions) => positions,
        None => Vec::new(),
    };
    let ghost had = positions@;
    let mut i: usize = 0;
    while positions[i] != position
        invariant
            positions@ == had,
            had.contains(position),
            i < positions.len(),
            forall|j: int| 0 <= j < i ==> had[j] != position,
        decreases had.len() - i,
    {
        proof {
            let k = choose|k: int| 0 <= k < had.len() && had[k] == position;
            assert(k > i);
        }
        i += 1;
    }
    let _ = positions.swap_remove(i);
    let ghost has = positions@;
    proof {
        assert(had.no_duplicates());
        assert forall|p: usize| has.contains(p) <==> (had.contains(p) && p != position) by {
            if has.contains(p) {
                let j = choose|j: int| 0 <= j < has.len() && has[j] == p;
                if j == i {
                    assert(had[had.len() - 1] == p);
                } else {
                    assert(had[j] == p);
                }
            }
            if had.contains(p) && p != position {
                let j = choose|j: int| 0 <= j < had.len() && had[j] == p;
                if j == had.len() - 1 {
                    assert(has[i as int] == p);
                } else {
                    assert(has[j] == p);
                }
            }
        }
        assert(has.no_duplicates());
    }
    if positions.len() > 0 {
        index.insert(prefix, positions);
    }
}

/// `Vec::capacity` gives the number of elements that a vector can hold without reallocating,
/// which is never less than the number that it holds. How much more it is, is the allocator's
/// choice, and is left open.
#[verifier::external_body]
fn vec_capacity<T>(vec: &Vec<T>) -> (capacity: usize)
    ensures
        capacity >= vec@.len(),
{
    vec.capacity()
}

/// A map from account keys to values.
#[derive(Debug)]
#[verifier::reject_recursive_types(V)]
pub struct KeyMap<V> {
    entries: Vec<(Pubkey, V)>,
    index: HashMap<u64, Vec<usize>>,
}

/// Whether `values` are the values of `map`, one for each key, in the order of `keys`.
pub open spec fn lists_values<V>(map: Map<Seq<u8>, V>, keys: Seq<Seq<u8>>, values: Seq<V>) -> bool {
    &&& keys.no_duplicates()
    &&& keys.len() == values.len()
    &&& forall|i: int|
        0 <= i < keys.len() ==> map.contains_key(#[trigger] keys[i]) && map[keys[i]] == values[i]
    &&& forall|key: Seq<u8>| #[trigger] map.contains_key(key) ==> keys.contains(key)
}

impl<V> View for KeyMap<V> {
    type V = Map<Seq<u8>, V>;

    closed spec fn view(&self) -> Map<Seq<u8>, V> {
        Map::new(|key: Seq<u8>| self.holds(key), |key: Seq<u8>| self.entries@[self.place(key)].1)
    }
}

impl<V> KeyMap<V> {
    spec fn holds(&self, key: Seq<u8>) -> bool {
        exists|i: int| 0 <= i < self.entries@.len() && #[trigger] self.entries@[i].0@ == key
    }

    spec fn place(&self, key: Seq<u8>) -> int {
        choose|i: int| 0 <= i < self.entries@.len() && #[trigger] self.entries@[i].0@ == key
    }

    /// Every entry is listed under its prefix, and nothing else is; no key has two entries.
    pub closed spec fn wf(&self) -> bool {
        &&& lists_once(self.index@)
        &&& forall|h: u64, p: usize|
            #![trigger listed(self.index@, h, p)]
            listed(self.index@, h, p) <==> (p < self.entries@.len() && key_prefix(
                self.entries@[p as int].0@,
            ) == h)
        &&& forall|i: int, j: int|
            0 <= i < j < self.entries@.len() ==> #[trigger] self.entries@[i].0@
                != #[trigger] self.entries@[j].0@
    }

    /// The entry at a position is what the map holds for its key.
    proof fn lemma_entry(&self, i: int)
        requires
            self.wf(),
            0 <= i < self.entries@.len(),
        ensures
            self@.contains_key(self.entries@[i].0@),
            self@[self.entries@[i].0@] == self.entries@[i].1,
            self.place(self.entries@[i].0@) == i,
    {
        let key = self.entries@[i].0@;
        assert(self.holds(key));
        let j = self.place(key);
        assert(self.entries@[j].0@ == key);
    }

    /// An empty map.
    pub fn new() -> (map: Self)
        ensures
            map.wf(),
            map@ == Map::<Seq<u8>, V>::empty(),
    {
        let map = KeyMap { entries: Vec::new(), index: HashMap::new() };
        assert(map@ =~= Map::<Seq<u8>, V>::empty());
        map
    }

    /// The position of a key.
    fn find(&self, key: &Pubkey) -> (position: Option<usize>)
        requires
            self.wf(),
        ensures
            match position {
                Some(p) => p < self.entries@.len() && self.entries@[p as int].0@ == key@,
                None => !self@.contains_key(key@),
            },
    {
        let prefix = prefix_of(key);
        let positions: &Vec<usize> = match self.index.get(&prefix) {
            Some(positions) => positions,
            None => {
                proof {
                    if self@.contains_key(key@) {
                        assert(self.place(key@) < self.entries.len());
                        assert(listed(self.index@, prefix, self.place(key@) as usize));
                    }
                }
                return None;
            },
        };
        let mut i: usize = 0;
        while i < positions.len()
            invariant
                self.wf(),
                prefix == key_prefix(key@),
                self.index@.contains_key(prefix),
                self.index@[prefix] == *positions,
                i <= positions@.len(),
                forall|j: int|
                    0 <= j < i ==> self.entries@[(#[trigger] positions@[j]) as int].0@ != key@,
            decreases positions@.len() - i,
        {
            let p: usize = positions[i];
            assert(positions@.contains(p));
            assert(listed(self.index@, prefix, p));
            if self.entries[p].0 == *key {
                return Some(p);
            }
            i += 1;
        }
        proof {
            if self@.contains_key(key@) {
                assert(self.place(key@) < self.entries.len());
                let p = self.place(key@) as usize;
                assert(listed(self.index@, prefix, p));
                let j = choose|j: int| 0 <= j < positions@.len() && positions@[j] == p;
                assert(self.entries@[positions@[j] as int].0@ != key@);
            }
        }
        None
    }

    /// The number of keys.
    pub fn len(&self) -> (len: usize)
        requires
            self.wf(),
        ensures
            len == self@.len(),
            self@.dom().finite(),
    {
        proof {
            self.lemma_len();
        }
        self.entries.len()
    }

    proof fn lemma_len(&self)
        requires
            self.wf(),
        ensures
            self@.len() == self.entries@.len(),
            self@.dom().finite(),
    {
        let keys = self.entries@.map_values(|e: (Pubkey, V)| e.0@);
        assert(keys.no_duplicates());
        assert(keys.to_set() =~= self@.dom()) by {
            assert forall|key: Seq<u8>| keys.to_set().contains(key) <==> self@.dom().contains(
                key,
            ) by {
                if keys.contains(key) {
                    let i = choose|i: int| 0 <= i < keys.len() && keys[i] == key;
                    assert(self.entries@[i].0@ == key);
                }
                if self.holds(key) {
                    assert(keys[self.place(key)] == key);
                }
            }
        }
        keys.unique_seq_to_set();
        vstd::seq_lib::seq_to_set_is_finite(keys);
    }

    /// Makes room for `additional` more entries, if the memory can be had; the index grows only
    /// when they come. There is always room for none, and never for more than can be counted;
    /// whether the memory for any other number can be had is up to the machine.
    pub fn try_reserve(&mut self, additional: usize) -> (reserved: bool)
        requires
            old(self).wf(),
        ensures
            final(self).wf(),
            final(self)@ == old(self)@,
            additional == 0 ==> reserved,
            old(self)@.len() + additional > usize::MAX ==> !reserved,
    {
        proof {
            self.lemma_len();
        }
        let ghost before = *self;
        if additional > usize::MAX - self.entries.len() {
            return false;
        }
        if additional == 0 {
            return true;
        }
        let reserved: bool = self.entries.try_reserve(additional).is_ok();
        assert(self.wf());
        assert forall|k: Seq<u8>| self.holds(k) == before.holds(k) by {
            if self.holds(k) {
                assert(before.entries@[self.place(k)].0@ == k);
            }
            if before.holds(k) {
                assert(self.entries@[before.place(k)].0@ == k);
            }
        }
        assert(self@ =~= before@);
        reserved
    }

    /// The number of entries for which there is room, the index not counted.
    pub fn capacity(&self) -> (capacity: usize)
        requires
            self.wf(),
        ensures
            capacity >= self@.len(),
    {
        proof {
            self.lemma_len();
        }
        vec_capacity(&self.entries)
    }

    /// The keys of the map, each once.
    pub fn keys(&self) -> (keys: Vec<Pubkey>)
        requires
            self.wf(),
        ensures
            keys@.len() == self@.len(),
            forall|key: Seq<u8>|
                #![trigger self@.contains_key(key)]
                self@.contains_key(key) <==> exists|i: int|
                    0 <= i < keys@.len() && #[trigger] keys@[i]@ == key,
            forall|i: int, j: int|
                0 <= i < j < keys@.len() ==> #[trigger] keys@[i]@ != #[trigger] keys@[j]@,
    {
        let mut keys: Vec<Pubkey> = Vec::new();
        let mut i: usize = 0;
        while i < self.entries.len()
            invariant
                i <= self.entries@.len(),
                keys@.len() == i,
                forall|j: int| 0 <= j < i ==> #[trigger] keys@[j] == self.entries@[j].0,
            decreases self.entries@.len() - i,
        {
            keys.push(self.entries[i].0);
            i += 1;
        }
        proof {
            self.lemma_len();
            assert forall|key: Seq<u8>|
                #![trigger self@.contains_key(key)]
                self@.contains_key(key) <==> exists|i: int|
                    0 <= i < keys@.len() && #[trigger] keys@[i]@ == key by {
                if self.holds(key) {
                    assert(keys@[self.place(key)]@ == key);
                }
                if exists|i: int| 0 <= i < keys@.len() && #[trigger] keys@[i]@ == key {
                    let i = choose|i: int| 0 <= i < keys@.len() && #[trigger] keys@[i]@ == key;
                    assert(self.entries@[i].0@ == key);
                }
            }
        }
        keys
    }

    /// The values of the map, taken out of it.
    pub fn into_values(self) -> (values: Vec<V>)
        requires
            self.wf(),
        ensures
            values@.len() == self@.len(),
            exists|keys: Seq<Seq<u8>>| #[trigger] lists_values(self@, keys, values@),
    {
        proof {
            self.lemma_len();
        }
        let ghost whole = self;
        let ghost entries = self.entries@;
        let mut rest: Vec<(Pubkey, V)> = self.entries;
        let mut values: Vec<V> = Vec::new();
        while rest.len() > 0
            invariant
                rest@.len() + values@.len() == entries.len(),
                rest@ == entries.take(rest@.len() as int),
                forall|j: int|
                    0 <= j < values@.len() ==> #[trigger] values@[j] == entries[entries.len() - 1
                        - j].1,
            decreases rest@.len(),
        {
            match rest.pop() {
                Some((_, value)) => values.push(value),
                None => {},
            }
            assert(rest@ =~= entries.take(rest@.len() as int));
        }
        proof {
            let reversed: Seq<Seq<u8>> = Seq::new(
                entries.len(),
                |i: int| entries[entries.len() - 1 - i].0@,
            );
            assert forall|i: int| 0 <= i < reversed.len() implies whole@.contains_key(
                #[trigger] reversed[i],
            ) && whole@[reversed[i]] == values@[i] by {
                whole.lemma_entry(entries.len() - 1 - i);
            }
            assert forall|key: Seq<u8>| #[trigger] whole@.contains_key(key) implies reversed.contains(
                key,
            ) by {
                assert(reversed[entries.len() - 1 - whole.place(key)] == key);
            }
            assert(lists_values(whole@, reversed, values@));
        }
        values
    }

    /// Whether the map holds nothing.
    pub fn is_empty(&self) -> (empty: bool)
        requires
            self.wf(),
        ensures
            empty == (self@ == Map::<Seq<u8>, V>::empty()),
    {
        proof {
            if self.entries@.len() == 0 {
                assert(self@ =~= Map::<Seq<u8>, V>::empty());
            } else {
                self.lemma_entry(0);
            }
        }
        self.entries.len() == 0
    }

    /// Whether the map holds something for `key`.
    pub fn contains_key(&self, key: &Pubkey) -> (found: bool)
        requires
            self.wf(),
        ensures
            found == self@.contains_key(key@),
    {
        match self.find(key) {
            Some(p) => {
                proof {
                    self.lemma_entry(p as int);
                }
                true
            },
            None => false,
        }
    }

    /// What the map holds for `key`.
    pub fn get(&self, key: &Pubkey) -> (value: Option<&V>)
        requires
            self.wf(),
        ensures
            match value {
                Some(v) => self@.contains_key(key@) && *v == self@[key@],
                None => !self@.contains_key(key@),
            },
    {
        match self.find(key) {
            Some(p) => {
                proof {
                    self.lemma_entry(p as int);
                }
                Some(&self.entries[p].1)
            },
            None => None,
        }
    }

    /// Holds `value` for `key`, in place of what was held before.
    pub fn insert(&mut self, key: Pubkey, value: V)
        requires
            old(self).wf(),
        ensures
            final(self).wf(),
            final(self)@ == old(self)@.insert(key@, value),
    {
        let ghost before = *self;
        match self.find(&key) {
            Some(p) => {
                self.entries.set(p, (key, value));
                proof {
                    assert forall|h: u64, q: usize|
                        #![trigger listed(self.index@, h, q)]
                        listed(self.index@, h, q) <==> (q < self.entries@.len() && key_prefix(
                            self.entries@[q as int].0@,
                        ) == h) by {
                        assert(listed(before.index@, h, q) == listed(self.index@, h, q));
                    }
                    assert forall|i: int, j: int| 0 <= i < j < self.entries@.len() implies
                        #[trigger] self.entries@[i].0@ != #[trigger] self.entries@[j].0@ by {
                        assert(before.entries@[i].0@ != before.entries@[j].0@);
                    }
                    assert forall|k: Seq<u8>| self.holds(k) == before.holds(k) by {
                        if self.holds(k) {
                            assert(before.entries@[self.place(k)].0@ == k);
                        }
                        if before.holds(k) {
                            assert(self.entries@[before.place(k)].0@ == k);
                        }
                    }
                    assert forall|k: Seq<u8>| self.holds(k) implies self@[k] == before@.insert(
                        key@,
                        value,
                    )[k] by {
                        let i = self.place(k);
                        self.lemma_entry(i);
                        before.lemma_entry(i);
                    }
                    before.lemma_entry(p as int);
                    assert(self@ =~= before@.insert(key@, value));
                }
            },
            None => {
                let position: usize = self.entries.len();
                let prefix = prefix_of(&key);
                list_position(&mut self.index, prefix, position);
                self.entries.push((key, value));
                proof {
                    assert forall|h: u64, q: usize|
                        #![trigger listed(self.index@, h, q)]
                        listed(self.index@, h, q) <==> (q < self.entries@.len() && key_prefix(
                            self.entries@[q as int].0@,
                        ) == h) by {
                        assert(listed(before.index@, h, q) ==> q < before.entries@.len());
                    }
                    assert forall|i: int, j: int| 0 <= i < j < self.entries@.len() implies
                        #[trigger] self.entries@[i].0@ != #[trigger] self.entries@[j].0@ by {
                        assert(self.entries@[i] == before.entries@[i]);
                        if j < before.entries@.len() {
                            assert(before.entries@[i].0@ != before.entries@[j].0@);
                        } else {
                            before.lemma_entry(i);
                        }
                    }
                    self.lemma_entry(position as int);
                    assert forall|k: Seq<u8>| self.holds(k) == (before.holds(k) || k == key@) by {
                        if self.holds(k) && k != key@ {
                            assert(before.entries@[self.place(k)].0@ == k);
                        }
                        if before.holds(k) {
                            assert(self.entries@[before.place(k)].0@ == k);
                        }
                    }
                    assert forall|k: Seq<u8>| self.holds(k) implies self@[k] == before@.insert(
                        key@,
                        value,
                    )[k] by {
                        let i = self.place(k);
                        self.lemma_entry(i);
                        if k != key@ {
                            before.lemma_entry(i);
                        }
                    }
                    assert(self@ =~= before@.insert(key@, value));
                }
            },
        }
    }

    /// Drops `key`, and hands out what was held for it.
    pub fn remove(&mut self, key: &Pubkey) -> (value: Option<V>)
        requires
            old(self).wf(),
        ensures
            final(self).wf(),
            final(self)@ == old(self)@.remove(key@),
            match value {
                Some(v) => old(self)@.contains_key(key@) && v == old(self)@[key@],
                None => !old(self)@.contains_key(key@),
            },
    {
        let ghost before = *self;
        let p: usize = match self.find(key) {
            Some(p) => p,
            None => {
                assert(self@ =~= before@.remove(key@));
                return None;
            },
        };
        let last: usize = self.entries.len() - 1;
        let prefix = prefix_of(key);
        let last_prefix = prefix_of(&self.entries[last].0);
        assert(listed(self.index@, prefix, p));
        strike_position(&mut self.index, prefix, p);
        if p != last {
            assert(listed(before.index@, last_prefix, last));
            assert(listed(self.index@, last_prefix, last));
            strike_position(&mut self.index, last_prefix, last);
            list_position(&mut self.index, last_prefix, p);
        }
        let (_, value) = self.entries.swap_remove(p);
        proof {
            before.lemma_entry(p as int);
            assert forall|h: u64, q: usize|
                #![trigger listed(self.index@, h, q)]
                listed(self.index@, h, q) <==> (q < self.entries@.len() && key_prefix(
                    self.entries@[q as int].0@,
                ) == h) by {
                assert(listed(before.index@, h, q) <==> (q < before.entries@.len() && key_prefix(
                    before.entries@[q as int].0@,
                ) == h));
            }
            assert forall|i: int, j: int| 0 <= i < j < self.entries@.len() implies
                #[trigger] self.entries@[i].0@ != #[trigger] self.entries@[j].0@ by {
                let bi = if i == p { last as int } else { i };
                let bj = if j == p { last as int } else { j };
                assert(self.entries@[i] == before.entries@[bi]);
                assert(self.entries@[j] == before.entries@[bj]);
                if bi < bj {
                    assert(before.entries@[bi].0@ != before.entries@[bj].0@);
                } else {
                    assert(before.entries@[bj].0@ != before.entries@[bi].0@);
                }
            }
            assert forall|k: Seq<u8>| self.holds(k) == (before.holds(k) && k != key@) by {
                if self.holds(k) {
                    let i = self.place(k);
                    let bi = if i == p { last as int } else { i };
                    assert(before.entries@[bi].0@ == k);
                    before.lemma_entry(bi);
                }
                if before.holds(k) && k != key@ {
                    let bi = before.place(k);
                    let i = if bi == last { p as int } else { bi };
                    assert(self.entries@[i].0@ == k);
                }
            }
            assert forall|k: Seq<u8>| self.holds(k) implies self@[k] == before@.remove(key@)[k] by {
                let i = self.place(k);
                let bi = if i == p { last as int } else { i };
                self.lemma_entry(i);
                before.lemma_entry(bi);
            }
            assert(self@ =~= before@.remove(key@));
        }
        Some(value)
    }
}

/// The keys in a list.
pub open spec fn keys_in(keys: Seq<Pubkey>) -> Set<Seq<u8>> {
    Set::new(|key: Seq<u8>| exists|i: int| 0 <= i < keys.len() && #[trigger] keys[i]@ == key)
}

/// A set of account keys.
#[derive(Debug)]
pub struct KeySet {
    keys: KeyMap<()>,
}

impl View for KeySet {
    type V = Set<Seq<u8>>;

    closed spec fn view(&self) -> Set<Seq<u8>> {
        self.keys@.dom()
    }
}

impl KeySet {
    /// The entries of the set are in order.
    #[verifier::type_invariant]
    spec fn in_order(self) -> bool {
        self.keys.wf()
    }

    /// An empty set.
    pub fn new() -> (set: Self)
        ensures
            set@ == Set::<Seq<u8>>::empty(),
    {
        let set = KeySet { keys: KeyMap::new() };
        assert(set@ =~= Set::<Seq<u8>>::empty());
        set
    }

    /// The set of the keys in a list.
    pub fn from_keys(keys: &Vec<Pubkey>) -> (set: KeySet)
        ensures
            set@ == keys_in(keys@),
    {
        let mut set = KeySet::new();
        let mut i: usize = 0;
        assert(set@ =~= keys_in(keys@.take(0)));
        while i < keys.len()
            invariant
                i <= keys@.len(),
                set@ == keys_in(keys@.take(i as int)),
            decreases keys@.len() - i,
        {
            let ghost before = set@;
            set.insert(keys[i]);
            proof {
                let old_part = keys@.take(i as int);
                let new_part = keys@.take(i + 1);
                assert forall|key: Seq<u8>| keys_in(new_part).contains(key) <==> before.insert(
                    keys@[i as int]@,
                ).contains(key) by {
                    if keys_in(new_part).contains(key) && key != keys@[i as int]@ {
                        let j = choose|j: int| 0 <= j < new_part.len() && #[trigger] new_part[j]@ == key;
                        assert(old_part[j]@ == key);
                    }
                    if keys_in(old_part).contains(key) {
                        let j = choose|j: int| 0 <= j < old_part.len() && #[trigger] old_part[j]@ == key;
                        assert(new_part[j]@ == key);
                    }
                    assert(new_part[i as int] == keys@[i as int]);
                }
                assert(set@ =~= keys_in(new_part));
            }
            i += 1;
        }
        assert(keys@.take(i as int) =~= keys@);
        set
    }

    /// Adds a key.
    pub fn insert(&mut self, key: Pubkey)
        ensures
            final(self)@ == old(self)@.insert(key@),
    {
        proof {
            use_type_invariant(&*self);
        }
        let mut keys = KeyMap::new();
        std::mem::swap(&mut keys, &mut self.keys);
        keys.insert(key, ());
        self.keys = keys;
        assert(self@ =~= old(self)@.insert(key@));
    }

    /// Whether the set has a key.
    pub fn contains(&self, key: &Pubkey) -> (found: bool)
        ensures
            found == self@.contains(key@),
    {
        proof {
            use_type_invariant(self);
        }
        self.keys.contains_key(key)
    }

    /// The number of keys.
    pub fn len(&self) -> (len: usize)
        ensures
            len == self@.len(),
            self@.finite(),
    {
        proof {
            use_type_invariant(self);
        }
        self.keys.len()
    }

    /// Whether the other set has all keys of this one.
    fn is_within(&self, other: &Self) -> (within: bool)
        ensures
            within == self@.subset_of(other@),
    {
        proof {
            use_type_invariant(self);
        }
        let keys = self.keys.keys();
        let mut i: usize = 0;
        while i < keys.len()
            invariant
                i <= keys@.len(),
                forall|key: Seq<u8>|
                    #![trigger self.keys@.contains_key(key)]
                    self.keys@.contains_key(key) <==> exists|i: int|
                        0 <= i < keys@.len() && #[trigger] keys@[i]@ == key,
                forall|j: int| 0 <= j < i ==> other@.contains(#[trigger] keys@[j]@),
            decreases keys@.len() - i,
        {
            if !other.contains(&keys[i]) {
                assert(keys@[i as int]@ == keys@[i as int]@);
                assert(self.keys@.contains_key(keys@[i as int]@));
                assert(self@.contains(keys@[i as int]@));
                return false;
            }
            i += 1;
        }
        assert forall|key: Seq<u8>| self@.contains(key) implies other@.contains(key) by {
            assert(self.keys@.contains_key(key));
        }
        true
    }
}

impl Clone for KeySet {
    fn clone(&self) -> (copy: Self)
        ensures
            copy@ == self@,
    {
        proof {
            use_type_invariant(self);
        }
        let keys = self.keys.keys();
        assert(keys_in(keys@) =~= self@) by {
            assert forall|key: Seq<u8>| keys_in(keys@).contains(key) == self@.contains(key) by {
                assert(self.keys@.contains_key(key) == self@.contains(key));
            }
        }
        Self::from_keys(&keys)
    }
}

impl PartialEq for KeySet {
    fn eq(&self, other: &Self) -> (same: bool) {
        let same: bool = self.is_within(other) && other.is_within(self);
        assert(same == (self@ =~= other@));
        same
    }
}

impl vstd::std_specs::cmp::PartialEqSpecImpl for KeySet {
    open spec fn obeys_eq_spec() -> bool {
        true
    }

    open spec fn eq_spec(&self, other: &Self) -> bool {
        self@ == other@
    }
}

} // verus!
