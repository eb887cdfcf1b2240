//! Safe, tracked wrapper around [`CuckooFilter`] for building filters on the client.
//!
//! [`CompressedAccountFilterSet`] keeps the exact set of keys beside the filter, so that `remove`
//! never strikes the fingerprint of another key, and `contains` is exact. The filter is only
//! used on the wire.

use vstd::prelude::*;

use crate::cuckoo::error::{CuckooBuildError, TableFullError};
use crate::cuckoo::filter::{capacity_overflows, carries, is_bucket_count_for, CuckooFilter};
use crate::cuckoo::model::{free_tag, Geometry, Tag};
use crate::geyser::{
    CuckooFilter as ProtoCuckooFilter, SubscribeRequest, SubscribeRequestFilterAccounts,
};
use crate::key_map::KeyMap;
use crate::keys::Pubkey;

verus! {

/// The keys of `keys` that are counted under `tag`.
pub open spec fn keys_with_tag(keys: Set<Seq<u8>>, geometry: Geometry, tag: Tag) -> Set<Seq<u8>> {
    keys.filter(|key: Seq<u8>| geometry.item_tag(key) == tag)
}

/// Whether a filter holds, for each tag, one slot for every key with that tag, and nothing else.
pub open spec fn mirrors(filter: CuckooFilter, keys: Set<Seq<u8>>) -> bool {
    forall|tag: Tag|
        tag != free_tag() ==> #[trigger] filter.contents().count(tag) == keys_with_tag(
            keys,
            filter.geometry(),
            tag,
        ).len()
}

/// No item is counted among the free slots.
proof fn lemma_item_tag_not_free(geometry: Geometry, item: Seq<u8>)
    ensures
        geometry.item_tag(item) != free_tag(),
{
}

/// What one more key does to the keys under a tag.
proof fn lemma_tag_insert(keys: Set<Seq<u8>>, key: Seq<u8>, geometry: Geometry, tag: Tag)
    requires
        keys.finite(),
        !keys.contains(key),
    ensures
        keys_with_tag(keys.insert(key), geometry, tag).len() == keys_with_tag(
            keys,
            geometry,
            tag,
        ).len() + (if geometry.item_tag(key) == tag {
            1nat
        } else {
            0nat
        }),
{
    let f = |k: Seq<u8>| geometry.item_tag(k) == tag;
    let had = keys.filter(f);
    let has = keys.insert(key).filter(f);
    keys.lemma_len_filter(f);
    if f(key) {
        assert(has =~= had.insert(key));
    } else {
        assert(has =~= had);
    }
}

/// Safe builder for the cuckoo filters sent in subscribe requests: the exact set of keys, and
/// the filter that mirrors it.
pub struct CompressedAccountFilterSet {
    items: KeyMap<()>,
    filter: CuckooFilter,
    dirty: bool,
    max_capacity: usize,
}

impl CompressedAccountFilterSet {
    /// The keys in the set.
    pub closed spec fn keys(&self) -> Set<Seq<u8>> {
        self.items@.dom()
    }

    /// The filter that goes on the wire.
    pub closed spec fn filter(&self) -> CuckooFilter {
        self.filter
    }

    /// Whether the set changed since it was last taken for transmission.
    pub closed spec fn dirty(&self) -> bool {
        self.dirty
    }

    /// The number of keys that the set was made for.
    pub closed spec fn max_capacity(&self) -> usize {
        self.max_capacity
    }

    /// The filter mirrors the keys.
    pub closed spec fn wf(&self) -> bool {
        &&& self.items.wf()
        &&& self.items@.dom().finite()
        &&& self.filter.wf()
        &&& mirrors(self.filter, self.items@.dom())
    }

    /// A well-formed set has a well-formed filter that mirrors its keys, of which there are
    /// finitely many.
    pub proof fn lemma_wf(&self)
        requires
            self.wf(),
        ensures
            self.filter().wf(),
            self.keys().finite(),
            mirrors(self.filter(), self.keys()),
    {
    }

    /// The set that a built filter and a reservation for the keys give.
    pub fn from_parts(
        filter: Result<CuckooFilter, CuckooBuildError>,
        max_capacity: usize,
        reserved: bool,
        items: KeyMap<()>,
    ) -> (result: Result<Self, CuckooBuildError>)
        requires
            items.wf(),
            items@ == Map::<Seq<u8>, ()>::empty(),
            filter matches Ok(f) ==> f.wf() && (forall|i: int|
                0 <= i < f.slots().len() ==> f.slots()[i] == 0),
        ensures
            result is Ok <==> filter is Ok && reserved,
            result matches Ok(set) ==> {
                &&& set.wf()
                &&& set.keys() == Set::<Seq<u8>>::empty()
                &&& !set.dirty()
                &&& set.max_capacity() == max_capacity
                &&& set.filter() == filter->Ok_0
            },
    {
        let filter = match filter {
            Ok(filter) => filter,
            Err(error) => {
                return Err(error);
            },
        };
        if !reserved {
            return Err(CuckooBuildError::CapacityOverflow);
        }
        let set = CompressedAccountFilterSet { items, filter, dirty: false, max_capacity };
        proof {
            assert(set.items@.dom() =~= Set::<Seq<u8>>::empty());
            assert forall|tag: Tag| tag != free_tag() implies #[trigger] filter.contents().count(tag)
                == keys_with_tag(set.keys(), filter.geometry(), tag).len() by {
                let tags = filter.geometry().tags(filter.slots());
                vstd::seq_lib::to_multiset_contains(tags, tag);
                assert(keys_with_tag(set.keys(), filter.geometry(), tag) =~= Set::<Seq<u8>>::empty());
            }
        }
        Ok(set)
    }

    /// Empty set for `max_capacity` keys: the filter is made for so many, and room for the keys
    /// themselves is reserved; the index by which keys are found grows with them. Whether the
    /// memory can be had is up to the machine.
    pub fn with_capacity(max_capacity: usize) -> (result: Result<Self, CuckooBuildError>)
        ensures
            capacity_overflows(max_capacity) ==> result is Err,
            result matches Ok(set) ==> {
                &&& set.wf()
                &&& set.keys() == Set::<Seq<u8>>::empty()
                &&& !set.dirty()
                &&& set.max_capacity() == max_capacity
                &&& is_bucket_count_for(set.filter().geometry().buckets, max_capacity)
                &&& set.filter().geometry().seed == crate::cuckoo::constants::DEFAULT_HASH_SEED
            },
    {
        let filter = match CuckooFilter::with_capacity(max_capacity) {
            Ok(filter) => filter,
            Err(error) => {
                return Err(error);
            },
        };
        let mut items: KeyMap<()> = KeyMap::new();
        let reserved: bool = items.try_reserve(max_capacity);
        Self::from_parts(Ok(filter), max_capacity, reserved, items)
    }

    /// Inserts a key. `Ok(true)` if it was added, `Ok(false)` if it was there already. If the
    /// filter is full, the set is left as it was.
    pub fn insert(&mut self, key: Pubkey) -> (result: Result<bool, TableFullError>)
        requires
            old(self).wf(),
        ensures
            final(self).wf(),
            final(self).max_capacity() == old(self).max_capacity(),
            final(self).filter().geometry() == old(self).filter().geometry(),
            old(self).keys().contains(key@) ==> result == Ok::<bool, TableFullError>(false)
                && *final(self) == *old(self),
            !old(self).keys().contains(key@) ==> match old(self).filter().geometry().inserted(
                old(self).filter().slots(),
                old(self).filter().geometry().home(key@),
                old(self).filter().geometry().fingerprint(key@),
            ) {
                Some(after) => {
                    &&& result == Ok::<bool, TableFullError>(true)
                    &&& final(self).keys() == old(self).keys().insert(key@)
                    &&& final(self).filter().slots() == after
                    &&& final(self).dirty()
                },
                None => {
                    &&& result is Err
                    &&& final(self).keys() == old(self).keys()
                    &&& final(self).filter().slots() == old(self).filter().slots()
                    &&& final(self).dirty() == old(self).dirty()
                },
            },
    {
        if self.items.contains_key(&key) {
            return Ok(false);
        }
        let ghost before = *self;
        let bytes = key.to_bytes();
        match self.filter.insert(bytes.as_slice()) {
            Ok(()) => {},
            Err(error) => {
                proof {
                    assert(self.filter.contents() == before.filter.contents());
                    assert forall|tag: Tag| tag != free_tag() implies
                        #[trigger] self.filter.contents().count(tag) == keys_with_tag(
                        self.keys(),
                        self.filter.geometry(),
                        tag,
                    ).len() by {
                        assert(before.filter.contents().count(tag) == keys_with_tag(
                            before.keys(),
                            before.filter.geometry(),
                            tag,
                        ).len());
                    }
                }
                return Err(error);
            },
        }
        self.items.insert(key, ());
        self.dirty = true;
        proof {
            let geometry = before.filter.geometry();
            lemma_item_tag_not_free(geometry, key@);
            assert(self.keys() =~= before.keys().insert(key@));
            assert forall|tag: Tag| tag != free_tag() implies #[trigger] self.filter.contents().count(
                tag,
            ) == keys_with_tag(self.keys(), geometry, tag).len() by {
                assert(before.filter.contents().count(tag) == keys_with_tag(
                    before.keys(),
                    geometry,
                    tag,
                ).len());
                lemma_tag_insert(before.keys(), key@, geometry, tag);
            }
        }
        Ok(true)
    }

    /// Removes a key, and says whether it was there. The filter is only touched if it was.
    pub fn remove(&mut self, key: Pubkey) -> (found: bool)
        requires
            old(self).wf(),
        ensures
            final(self).wf(),
            final(self).max_capacity() == old(self).max_capacity(),
            final(self).filter().geometry() == old(self).filter().geometry(),
            found == old(self).keys().contains(key@),
            final(self).keys() == old(self).keys().remove(key@),
            final(self).dirty() == (found || old(self).dirty()),
            final(self).filter().slots() == (if found {
                old(self).filter().geometry().removed(
                    old(self).filter().slots(),
                    old(self).filter().geometry().home(key@),
                    old(self).filter().geometry().fingerprint(key@),
                )
            } else {
                old(self).filter().slots()
            }),
    {
        let ghost before = *self;
        match self.items.remove(&key) {
            Some(_) => {
                let bytes = key.to_bytes();
                proof {
                    lemma_has_slot(before.filter, before.keys(), key@);
                }
                let _ = self.filter.remove(bytes.as_slice());
                self.dirty = true;
                proof {
                    let geometry = before.filter.geometry();
                    lemma_item_tag_not_free(geometry, key@);
                    assert(self.keys() =~= before.keys().remove(key@));
                    assert(self.keys().insert(key@) =~= before.keys());
                    assert forall|tag: Tag| tag != free_tag() implies
                        #[trigger] self.filter.contents().count(tag) == keys_with_tag(
                        self.keys(),
                        geometry,
                        tag,
                    ).len() by {
                        assert(before.filter.contents().count(tag) == keys_with_tag(
                            before.keys(),
                            geometry,
                            tag,
                        ).len());
                        lemma_tag_insert(self.keys(), key@, geometry, tag);
                    }
                }
                true
            },
            None => {
                assert(self.keys() =~= before.keys());
                assert(before.keys().remove(key@) =~= before.keys());
                false
            },
        }
    }

    /// Exact membership, without false positives.
    pub fn contains(&self, key: Pubkey) -> (found: bool)
        requires
            self.wf(),
        ensures
            found == self.keys().contains(key@),
    {
        self.items.contains_key(&key)
    }

    /// The number of keys in the set.
    pub fn len(&self) -> (len: usize)
        requires
            self.wf(),
        ensures
            len == self.keys().len(),
    {
        self.items.len()
    }

    /// The number of keys for which there is room; the index by which keys are found is not
    /// counted. It is at least the number that the set was made for.
    pub fn capacity(&self) -> (capacity: usize)
        requires
            self.wf(),
        ensures
            capacity >= self.max_capacity(),
            capacity >= self.keys().len(),
    {
        let capacity: usize = self.items.capacity();
        if capacity < self.max_capacity {
            self.max_capacity
        } else {
            capacity
        }
    }

    /// The keys in the set, each once, in no particular order.
    pub fn iter(&self) -> (keys: Vec<[u8; 32]>)
        requires
            self.wf(),
        ensures
            keys@.len() == self.keys().len(),
            forall|key: Seq<u8>|
                #![trigger self.keys().contains(key)]
                self.keys().contains(key) <==> exists|i: int|
                    0 <= i < keys@.len() && #[trigger] keys@[i]@ == key,
            forall|i: int, j: int|
                0 <= i < j < keys@.len() ==> #[trigger] keys@[i]@ != #[trigger] keys@[j]@,
    {
        let held: Vec<Pubkey> = self.items.keys();
        let mut keys: Vec<[u8; 32]> = Vec::new();
        let mut i: usize = 0;
        while i < held.len()
            invariant
                i <= held@.len(),
                keys@.len() == i,
                forall|j: int| 0 <= j < i ==> #[trigger] keys@[j]@ == held@[j]@,
            decreases held@.len() - i,
        {
            keys.push(held[i].to_bytes());
            i += 1;
        }
        proof {
            assert forall|key: Seq<u8>|
                #![trigger self.keys().contains(key)]
                self.keys().contains(key) <==> exists|i: int|
                    0 <= i < keys@.len() && #[trigger] keys@[i]@ == key by {
                assert(self.keys().contains(key) == self.items@.contains_key(key));
                if self.items@.contains_key(key) {
                    let i = choose|i: int| 0 <= i < held@.len() && #[trigger] held@[i]@ == key;
                    assert(keys@[i]@ == key);
                }
                if exists|i: int| 0 <= i < keys@.len() && #[trigger] keys@[i]@ == key {
                    let i = choose|i: int| 0 <= i < keys@.len() && #[trigger] keys@[i]@ == key;
                    assert(held@[i]@ == key);
                }
            }
        }
        keys
    }

    /// Whether the set holds no keys.
    pub fn is_empty(&self) -> (empty: bool)
        requires
            self.wf(),
        ensures
            empty == (self.keys() == Set::<Seq<u8>>::empty()),
    {
        proof {
            if self.keys() == Set::<Seq<u8>>::empty() {
                assert(self.items@ =~= Map::<Seq<u8>, ()>::empty());
            }
        }
        self.items.is_empty()
    }

    /// Whether the set changed since the last `take_dirty`. The flag stays as it is.
    pub fn is_dirty(&self) -> (dirty: bool)
        ensures
            dirty == self.dirty(),
    {
        self.dirty
    }

    /// Hands out the dirty flag and clears it.
    pub fn take_dirty(&mut self) -> (dirty: bool)
        ensures
            dirty == old(self).dirty(),
            !final(self).dirty(),
            old(self).wf() ==> final(self).wf(),
            final(self).keys() == old(self).keys(),
            final(self).filter() == old(self).filter(),
            final(self).max_capacity() == old(self).max_capacity(),
    {
        let dirty: bool = self.dirty;
        self.dirty = false;
        dirty
    }

    /// The filter on the wire.
    pub fn to_proto(&self) -> (proto: ProtoCuckooFilter)
        requires
            self.wf(),
        ensures
            carries(proto, self.filter().slots(), self.filter().geometry()),
    {
        self.filter.to_proto()
    }

    /// An account filter that carries this cuckoo filter and nothing else.
    pub fn to_account_filter(&self) -> (accounts: SubscribeRequestFilterAccounts)
        requires
            self.wf(),
        ensures
            accounts.account@.len() == 0,
            accounts.owner@.len() == 0,
            accounts.filters@.len() == 0,
            accounts.nonempty_txn_signature is None,
            accounts.account_state == 0,
            accounts.cuckoo_accounts_filter matches Some(proto) && carries(
                proto,
                self.filter().slots(),
                self.filter().geometry(),
            ),
    {
        SubscribeRequestFilterAccounts {
            account: Vec::new(),
            owner: Vec::new(),
            filters: Vec::new(),
            nonempty_txn_signature: None,
            cuckoo_accounts_filter: Some(self.to_proto()),
            account_state: 0,
        }
    }

    /// Puts this filter into `req.accounts` under `name`, in place of what was there under that
    /// name, and marks the set clean.
    pub fn insert_into_subscribe_request(&mut self, req: &mut SubscribeRequest, name: &str)
        requires
            old(self).wf(),
        ensures
            final(self).wf(),
            !final(self).dirty(),
            final(self).keys() == old(self).keys(),
            final(self).filter() == old(self).filter(),
            final(self).max_capacity() == old(self).max_capacity(),
            final(req).accounts@.contains_key(name@),
            final(req).accounts@ == old(req).accounts@.insert(
                name@,
                final(req).accounts@[name@],
            ),
            ({
                let accounts = final(req).accounts@[name@];
                &&& accounts.account@.len() == 0
                &&& accounts.owner@.len() == 0
                &&& accounts.filters@.len() == 0
                &&& accounts.nonempty_txn_signature is None
                &&& accounts.account_state == 0
                &&& accounts.cuckoo_accounts_filter matches Some(proto) && carries(
                    proto,
                    old(self).filter().slots(),
                    old(self).filter().geometry(),
                )
            }),
    {
        req.accounts.insert(name.to_owned(), self.to_account_filter());
        self.dirty = false;
    }
}

/// A key of a mirrored set has a slot.
proof fn lemma_has_slot(filter: CuckooFilter, keys: Set<Seq<u8>>, key: Seq<u8>)
    requires
        mirrors(filter, keys),
        keys.finite(),
        keys.contains(key),
    ensures
        filter.matches_item(key),
{
    let geometry = filter.geometry();
    let tag = geometry.item_tag(key);
    let same = keys_with_tag(keys, geometry, tag);
    let f = |k: Seq<u8>| geometry.item_tag(k) == tag;
    lemma_item_tag_not_free(geometry, key);
    keys.lemma_len_filter(f);
    assert(same.contains(key));
    assert(filter.contents().count(tag) == same.len());
    assert(same.len() > 0) by {
        if same.len() == 0 {
            assert(same =~= Set::<Seq<u8>>::empty());
        }
    }
}

/// The filter of a set has no false negatives: it matches every key in the set.
pub proof fn law_no_false_negatives(set: CompressedAccountFilterSet, key: Seq<u8>)
    requires
        set.wf(),
        set.keys().contains(key),
    ensures
        set.filter().matches_item(key),
{
    lemma_has_slot(set.filter, set.keys(), key);
}

/// The filter of a set matches a key exactly when some key in the set shares its tag, that is
/// its fingerprint and its pair of candidate buckets.
pub proof fn law_match_means_shared_tag(set: CompressedAccountFilterSet, key: Seq<u8>)
    requires
        set.wf(),
    ensures
        set.filter().matches_item(key) <==> exists|held: Seq<u8>| #[trigger]
            set.keys().contains(held) && set.filter().item_tag(held) == set.filter().item_tag(key),
{
    let geometry = set.filter.geometry();
    let tag = geometry.item_tag(key);
    let same = keys_with_tag(set.keys(), geometry, tag);
    lemma_item_tag_not_free(geometry, key);
    assert(set.filter.contents().count(tag) == same.len());
    set.keys().lemma_len_filter(|k: Seq<u8>| geometry.item_tag(k) == tag);
    if set.filter().matches_item(key) {
        let held = same.choose();
        assert(same.contains(held));
        assert(set.keys().contains(held));
    }
    if exists|held: Seq<u8>| #[trigger]
        set.keys().contains(held) && set.filter().item_tag(held) == set.filter().item_tag(key) {
        let held = choose|held: Seq<u8>| #[trigger]
            set.keys().contains(held) && set.filter().item_tag(held) == set.filter().item_tag(key);
        lemma_has_slot(set.filter, set.keys(), held);
    }
}

/// What a receiver rebuilds from the message of a set matches every key in the set.
pub proof fn law_receiver_matches_every_key(
    set: CompressedAccountFilterSet,
    proto: ProtoCuckooFilter,
    received: CuckooFilter,
    key: Seq<u8>,
)
    requires
        set.wf(),
        set.keys().contains(key),
        carries(proto, set.filter().slots(), set.filter().geometry()),
        carries(proto, received.slots(), received.geometry()),
    ensures
        received.matches_item(key),
{
    crate::cuckoo::filter::law_proto_round_trip(set.filter(), proto, received);
    law_no_false_negatives(set, key);
}

/// Removing a key leaves every other key matched: no fingerprint of another key is struck.
pub proof fn law_remove_spares_other_keys(
    before: CompressedAccountFilterSet,
    after: CompressedAccountFilterSet,
    removed: Seq<u8>,
    other: Seq<u8>,
)
    requires
        before.wf(),
        after.wf(),
        after.keys() == before.keys().remove(removed),
        before.keys().contains(other),
        other != removed,
    ensures
        after.keys().contains(other),
        after.filter().matches_item(other),
{
    law_no_false_negatives(after, other);
}

/// Removing a key that was just added gives back the set of keys, and a filter that matches the
/// same items as before.
pub proof fn law_remove_undoes_insert(
    before: CompressedAccountFilterSet,
    after: CompressedAccountFilterSet,
    key: Seq<u8>,
)
    requires
        before.wf(),
        after.wf(),
        !before.keys().contains(key),
        after.keys() == before.keys().insert(key).remove(key),
        after.filter().geometry() == before.filter().geometry(),
    ensures
        after.keys() == before.keys(),
        forall|item: Seq<u8>| #[trigger]
            after.filter().matches_item(item) == before.filter().matches_item(item),
{
    assert(after.keys() =~= before.keys());
    assert forall|item: Seq<u8>| #[trigger]
        after.filter().matches_item(item) == before.filter().matches_item(item) by {
        let tag = before.filter().item_tag(item);
        lemma_item_tag_not_free(before.filter().geometry(), item);
        assert(after.filter().contents().count(tag) == before.filter().contents().count(tag));
    }
}

} // verus!
