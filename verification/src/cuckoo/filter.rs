//! The raw cuckoo filter.

use std::hash::BuildHasher;
use vstd::prelude::*;

use crate::cuckoo::constants::{
    ENTRIES_PER_BUCKET, FINGERPRINT_BITS, LOAD_FACTOR_PERCENT, MAX_KICKS,
};
use crate::cuckoo::error::{CuckooBuildError, TableFullError};
use crate::cuckoo::hasher::YellowstoneHasherBuilder;
use crate::cuckoo::model::{
    bucket_has, bucket_of_hash, fingerprint_bytes, fingerprint_of_hash, free_tag, is_bucket_count,
    kicked_slot, partner_bucket, put, slot_with, Geometry, Tag,
};
use crate::geyser::CuckooFilter as ProtoCuckooFilter;

verus! {

/// Whether `buckets` buckets hold `capacity` items at the target load factor.
pub open spec fn holds_capacity(buckets: int, capacity: int) -> bool {
    buckets * ENTRIES_PER_BUCKET * LOAD_FACTOR_PERCENT >= capacity * 100
}

/// Whether `buckets` is the number of buckets of a filter made for `capacity` items: the least
/// power of two that holds them at the target load factor.
pub open spec fn is_bucket_count_for(buckets: u64, capacity: usize) -> bool {
    &&& is_bucket_count(buckets)
    &&& holds_capacity(buckets as int, capacity as int)
    &&& buckets == 1 || !holds_capacity(buckets as int / 2, capacity as int)
}

/// Whether every number of buckets that holds `capacity` items has more slots than can be
/// counted.
pub open spec fn capacity_overflows(capacity: usize) -> bool {
    forall|buckets: u64| #[trigger]
        is_bucket_count(buckets) && buckets * ENTRIES_PER_BUCKET <= usize::MAX
            ==> !holds_capacity(buckets as int, capacity as int)
}

proof fn lemma_half(m: u64, n: u64)
    requires
        is_bucket_count(m),
        is_bucket_count(n),
        m < n,
    ensures
        m <= n / 2,
{
    assert(m <= n / 2) by (bit_vector)
        requires
            m & ((m - 1) as u64) == 0,
            n & ((n - 1) as u64) == 0,
            m > 0,
            m < n,
    ;
}

/// The fingerprint of an item with the given hash.
pub fn fingerprint_from_hash(hash: u64) -> (fingerprint: u16)
    ensures
        fingerprint == fingerprint_of_hash(hash),
        fingerprint != 0,
{
    let low: u64 = hash % 0x1_0000;
    if low == 0 {
        1
    } else {
        low as u16
    }
}

/// The first candidate bucket of an item with the given hash.
pub fn bucket_from_hash(hash: u64, buckets: u64) -> (bucket: u64)
    requires
        buckets > 0,
    ensures
        bucket == bucket_of_hash(hash, buckets),
        bucket < buckets,
{
    (hash / 0x1_0000_0000) % buckets
}

/// The other candidate bucket of a fingerprint with the given hash.
pub fn partner_from_hash(bucket: u64, fingerprint_hash: u64, buckets: u64) -> (partner: u64)
    requires
        buckets > 0,
    ensures
        partner == partner_bucket(bucket, fingerprint_hash, buckets),
{
    bucket ^ (fingerprint_hash % buckets)
}

/// The number of buckets of a filter for `capacity` items; nothing where its slots can't be
/// counted.
pub fn bucket_count_for(capacity: usize) -> (buckets: Option<u64>)
    ensures
        match buckets {
            Some(n) => is_bucket_count_for(n, capacity) && n * ENTRIES_PER_BUCKET <= usize::MAX,
            None => capacity_overflows(capacity),
        },
{
    let needed: u128 = capacity as u128 * 100;
    let mut n: u64 = 1;
    assert(1u64 & 0u64 == 0) by (bit_vector);
    assert(is_bucket_count(1));
    while (n as u128) * 380 < needed
        invariant
            needed == capacity * 100,
            is_bucket_count(n),
            n == 1 || !holds_capacity(n as int / 2, capacity as int),
            n <= 0x8000_0000_0000_0000,
        decreases 0x8000_0000_0000_0000 - n,
    {
        assert(n < 0x4400_0000_0000_0000);
        assert(n <= 0x4000_0000_0000_0000 && (2 * n) as u64 & ((2 * n - 1) as u64) == 0)
            by (bit_vector)
            requires
                n > 0,
                n < 0x4400_0000_0000_0000,
                n & ((n - 1) as u64) == 0,
        ;
        n = 2 * n;
    }
    proof {
        assert forall|m: u64| #[trigger]
            is_bucket_count(m) && m < n implies !holds_capacity(m as int, capacity as int) by {
            lemma_half(m, n);
        }
    }
    if n as u128 * 4 <= usize::MAX as u128 {
        Some(n)
    } else {
        None
    }
}

/// The bytes of a table: each slot as two bytes, the low one first.
pub open spec fn slot_bytes(slots: Seq<u16>) -> Seq<u8> {
    Seq::new(
        slots.len() * 2,
        |i: int|
            if i % 2 == 0 {
                (slots[i / 2] % 0x100) as u8
            } else {
                (slots[i / 2] / 0x100) as u8
            },
    )
}

/// The table that a byte string spells.
fn slots_of_bytes(data: &Vec<u8>) -> (slots: Vec<u16>)
    requires
        data@.len() % 2 == 0,
    ensures
        slot_bytes(slots@) == data@,
        slots@.len() * 2 == data@.len(),
{
    let count: usize = data.len() / 2;
    let mut slots: Vec<u16> = Vec::new();
    let mut i: usize = 0;
    while i < count
        invariant
            i <= count,
            data@.len() == 2 * count,
            slots@.len() == i,
            forall|j: int|
                0 <= j < i ==> {
                    &&& #[trigger] slots@[j] % 0x100 == data@[2 * j]
                    &&& slots@[j] / 0x100 == data@[2 * j + 1]
                },
        decreases count - i,
    {
        assert(2 * i + 1 < data.len());
        let low: u16 = data[2 * i] as u16;
        let high: u16 = data[2 * i + 1] as u16;
        slots.push(high * 0x100 + low);
        i += 1;
    }
    assert forall|j: int| 0 <= j < data@.len() implies slot_bytes(slots@)[j] == data@[j] by {
        assert(slots@[j / 2] % 0x100 == data@[2 * (j / 2)]);
    }
    assert(slot_bytes(slots@) =~= data@);
    slots
}

/// Whether a message carries a table of the given geometry.
pub open spec fn carries(proto: ProtoCuckooFilter, slots: Seq<u16>, geometry: Geometry) -> bool {
    &&& proto.data@ == slot_bytes(slots)
    &&& proto.bucket_count == geometry.buckets
    &&& proto.entries_per_bucket == ENTRIES_PER_BUCKET
    &&& proto.fingerprint_bits == FINGERPRINT_BITS
    &&& proto.hash_seed == geometry.seed
}

/// The table before a path of relocations, and the fingerprint that set out on it, from the
/// table and the evicted fingerprint at its end.
spec fn unwound(slots: Seq<u16>, hand: u16, path: Seq<usize>) -> (Seq<u16>, u16)
    decreases path.len(),
{
    if path.len() == 0 {
        (slots, hand)
    } else {
        let slot = path.last() as int;
        unwound(slots.update(slot, hand), slots[slot], path.drop_last())
    }
}

/// A cuckoo filter over byte strings.
pub struct CuckooFilter {
    slots: Vec<u16>,
    buckets: u64,
    hasher: YellowstoneHasherBuilder,
}

impl CuckooFilter {
    /// The slots of the table, four to a bucket; zero marks a free slot.
    pub closed spec fn slots(&self) -> Seq<u16> {
        self.slots@
    }

    /// The seed of the hasher and the number of buckets.
    pub closed spec fn geometry(&self) -> Geometry {
        Geometry { seed: self.hasher.spec_seed(), buckets: self.buckets }
    }

    /// The table has the size that its geometry says.
    pub open spec fn wf(&self) -> bool {
        self.geometry().wf() && self.geometry().is_table(self.slots())
    }

    /// How many slots hold each tag.
    pub open spec fn contents(&self) -> vstd::multiset::Multiset<Tag> {
        self.geometry().contents(self.slots())
    }

    /// The tag under which the filter counts an item.
    pub open spec fn item_tag(&self, item: Seq<u8>) -> Tag {
        self.geometry().item_tag(item)
    }

    /// Whether the filter matches an item: some slot holds its tag.
    pub open spec fn matches_item(&self, item: Seq<u8>) -> bool {
        self.contents().count(self.item_tag(item)) > 0
    }

    /// An empty filter of `buckets` buckets in the given storage, if the storage could be
    /// reserved.
    pub fn from_reservation(
        buckets: u64,
        hasher: YellowstoneHasherBuilder,
        storage: Vec<u16>,
        reserved: bool,
    ) -> (result: Result<Self, CuckooBuildError>)
        requires
            is_bucket_count(buckets),
            buckets * ENTRIES_PER_BUCKET <= usize::MAX,
        ensures
            result is Ok <==> reserved,
            result matches Ok(filter) ==> {
                &&& filter.wf()
                &&& filter.geometry() == (Geometry { seed: hasher.spec_seed(), buckets })
                &&& forall|i: int| 0 <= i < filter.slots().len() ==> filter.slots()[i] == 0
            },
    {
        if !reserved {
            return Err(CuckooBuildError::CapacityOverflow);
        }
        let mut slots = storage;
        slots.clear();
        slots.resize(buckets as usize * 4, 0u16);
        let filter = CuckooFilter { slots, buckets, hasher };
        assert(filter.geometry().is_table(filter.slots()));
        Ok(filter)
    }

    /// An empty filter for `max_capacity` items with the default seed.
    pub fn with_capacity(max_capacity: usize) -> (result: Result<Self, CuckooBuildError>)
        ensures
            capacity_overflows(max_capacity) ==> result is Err,
            result matches Ok(filter) ==> {
                &&& filter.wf()
                &&& is_bucket_count_for(filter.geometry().buckets, max_capacity)
                &&& filter.geometry().seed == crate::cuckoo::constants::DEFAULT_HASH_SEED
                &&& forall|i: int| 0 <= i < filter.slots().len() ==> filter.slots()[i] == 0
            },
    {
        Self::with_capacity_and_hasher(max_capacity, YellowstoneHasherBuilder::default())
    }

    /// An empty filter for `max_capacity` items that hashes with `hasher`. Whether the memory
    /// can be had is up to the machine.
    pub fn with_capacity_and_hasher(max_capacity: usize, hasher: YellowstoneHasherBuilder) -> (result:
        Result<Self, CuckooBuildError>)
        ensures
            capacity_overflows(max_capacity) ==> result is Err,
            result matches Ok(filter) ==> {
                &&& filter.wf()
                &&& is_bucket_count_for(filter.geometry().buckets, max_capacity)
                &&& filter.geometry().seed == hasher.spec_seed()
                &&& forall|i: int| 0 <= i < filter.slots().len() ==> filter.slots()[i] == 0
            },
    {
        match bucket_count_for(max_capacity) {
            Some(buckets) => {
                let mut storage: Vec<u16> = Vec::new();
                let reserved: bool = storage.try_reserve(buckets as usize * 4).is_ok();
                Self::from_reservation(buckets, hasher, storage, reserved)
            },
            None => Err(CuckooBuildError::CapacityOverflow),
        }
    }

    /// The hash of a byte string.
    fn hash(&self, message: &[u8]) -> (hash: u64)
        ensures
            hash == self.geometry().hash(message@),
    {
        let hasher = self.hasher.build_hasher();
        assert(Seq::<u8>::empty() + message@ =~= message@);
        assert(message@.len() == message.len());
        hasher.hash(message)
    }

    /// The other candidate bucket of `fingerprint`.
    fn partner(&self, bucket: u64, fingerprint: u16) -> (partner: u64)
        requires
            self.wf(),
            bucket < self.geometry().buckets,
        ensures
            partner == self.geometry().partner(bucket, fingerprint),
            partner < self.geometry().buckets,
    {
        let low: u8 = (fingerprint % 0x100) as u8;
        let high: u8 = (fingerprint / 0x100) as u8;
        let bytes: [u8; 2] = [low, high];
        assert(bytes@ =~= fingerprint_bytes(fingerprint));
        proof {
            self.geometry().lemma_partner(bucket, fingerprint);
        }
        partner_from_hash(bucket, self.hash(bytes.as_slice()), self.buckets)
    }

    /// The slot of `bucket` that holds `fingerprint`, if there is one.
    fn find_in_bucket(&self, bucket: u64, fingerprint: u16) -> (slot: Option<usize>)
        requires
            self.wf(),
            bucket < self.geometry().buckets,
        ensures
            match slot {
                Some(s) => {
                    &&& bucket_has(self.slots(), bucket, fingerprint)
                    &&& s == slot_with(self.slots(), bucket, fingerprint)
                    &&& s < self.slots().len()
                },
                None => !bucket_has(self.slots(), bucket, fingerprint),
            },
    {
        assert(bucket * 4 + 4 <= self.slots.len());
        let start: usize = bucket as usize * 4;
        if self.slots[start] == fingerprint {
            Some(start)
        } else if self.slots[start + 1] == fingerprint {
            Some(start + 1)
        } else if self.slots[start + 2] == fingerprint {
            Some(start + 2)
        } else if self.slots[start + 3] == fingerprint {
            Some(start + 3)
        } else {
            None
        }
    }

    /// Puts `fingerprint` into the first free slot of `bucket`, if there is one.
    fn put_in_bucket(&mut self, bucket: u64, fingerprint: u16) -> (done: bool)
        requires
            old(self).wf(),
            bucket < old(self).geometry().buckets,
        ensures
            final(self).wf(),
            final(self).geometry() == old(self).geometry(),
            done == bucket_has(old(self).slots(), bucket, 0),
            done ==> final(self).slots() == put(old(self).slots(), bucket, fingerprint),
            !done ==> *final(self) == *old(self),
    {
        match self.find_in_bucket(bucket, 0) {
            Some(slot) => {
                self.slots.set(slot, fingerprint);
                true
            },
            None => false,
        }
    }

    /// Inserts a fingerprint whose first candidate is `bucket`. If the table is full, it is left
    /// as it was.
    pub fn insert_fingerprint(&mut self, bucket: u64, fingerprint: u16) -> (result: Result<
        (),
        TableFullError,
    >)
        requires
            old(self).wf(),
            bucket < old(self).geometry().buckets,
            fingerprint != 0,
        ensures
            final(self).wf(),
            final(self).geometry() == old(self).geometry(),
            match old(self).geometry().inserted(old(self).slots(), bucket, fingerprint) {
                Some(after) => result is Ok && final(self).slots() == after,
                None => result is Err && final(self).slots() == old(self).slots(),
            },
    {
        let ghost geometry = self.geometry();
        let ghost before = self.slots();
        if self.put_in_bucket(bucket, fingerprint) {
            return Ok(());
        }
        let partner: u64 = self.partner(bucket, fingerprint);
        if self.put_in_bucket(partner, fingerprint) {
            return Ok(());
        }
        let mut path: Vec<usize> = Vec::new();
        let mut hand: u16 = fingerprint;
        let mut at: u64 = bucket;
        let mut kicks: usize = 0;
        while kicks < MAX_KICKS
            invariant
                geometry == old(self).geometry(),
                before == old(self).slots(),
                self.wf(),
                self.geometry() == geometry,
                at < geometry.buckets,
                kicks <= MAX_KICKS,
                hand != 0,
                !bucket_has(self.slots(), at, 0),
                geometry.kick(before, bucket, fingerprint, 0) == geometry.kick(
                    self.slots(),
                    at,
                    hand,
                    kicks as nat,
                ),
                before.len() == self.slots().len(),
                forall|i: int| 0 <= i < path@.len() ==> #[trigger] path@[i] < before.len(),
                unwound(self.slots(), hand, path@) == (before, fingerprint),
                geometry.inserted(before, bucket, fingerprint) == geometry.kick(
                    before,
                    bucket,
                    fingerprint,
                    0,
                ),
            decreases MAX_KICKS - kicks,
        {
            let ghost slots_before = self.slots();
            let ghost hand_before = hand;
            let ghost path_before = path@;
            assert(at * 4 + 4 <= self.slots.len());
            let slot: usize = at as usize * 4 + (hand as usize + kicks) % 4;
            assert(slot == kicked_slot(at, hand, kicks as nat));
            let evicted: u16 = self.slots[slot];
            self.slots.set(slot, hand);
            path.push(slot);
            proof {
                assert(path@.drop_last() =~= path_before);
                assert(self.slots().update(slot as int, evicted) =~= slots_before);
                assert(unwound(self.slots(), evicted, path@) == unwound(
                    slots_before,
                    hand_before,
                    path_before,
                ));
            }
            at = self.partner(at, evicted);
            hand = evicted;
            kicks += 1;
            if self.put_in_bucket(at, hand) {
                return Ok(());
            }
        }
        while path.len() > 0
            invariant
                geometry == old(self).geometry(),
                before == old(self).slots(),
                self.wf(),
                self.geometry() == geometry,
                before.len() == self.slots().len(),
                forall|i: int| 0 <= i < path@.len() ==> #[trigger] path@[i] < before.len(),
                unwound(self.slots(), hand, path@) == (before, fingerprint),
            decreases path@.len(),
        {
            let ghost path_before = path@;
            let slot: usize = path[path.len() - 1];
            let _ = path.pop();
            let put_back: u16 = hand;
            hand = self.slots[slot];
            self.slots.set(slot, put_back);
            assert(path@ =~= path_before.drop_last());
        }
        Err(TableFullError)
    }

    /// Whether the table holds a fingerprint whose first candidate is `bucket`.
    pub fn contains_fingerprint(&self, bucket: u64, fingerprint: u16) -> (found: bool)
        requires
            self.wf(),
            bucket < self.geometry().buckets,
        ensures
            found == self.geometry().found(self.slots(), bucket, fingerprint),
    {
        if self.find_in_bucket(bucket, fingerprint).is_some() {
            return true;
        }
        let partner: u64 = self.partner(bucket, fingerprint);
        self.find_in_bucket(partner, fingerprint).is_some()
    }

    /// Strikes one occurrence of a fingerprint whose first candidate is `bucket`.
    pub fn remove_fingerprint(&mut self, bucket: u64, fingerprint: u16) -> (found: bool)
        requires
            old(self).wf(),
            bucket < old(self).geometry().buckets,
        ensures
            final(self).wf(),
            final(self).geometry() == old(self).geometry(),
            found == old(self).geometry().found(old(self).slots(), bucket, fingerprint),
            final(self).slots() == old(self).geometry().removed(
                old(self).slots(),
                bucket,
                fingerprint,
            ),
    {
        match self.find_in_bucket(bucket, fingerprint) {
            Some(slot) => {
                self.slots.set(slot, 0);
                true
            },
            None => {
                let partner: u64 = self.partner(bucket, fingerprint);
                match self.find_in_bucket(partner, fingerprint) {
                    Some(slot) => {
                        self.slots.set(slot, 0);
                        true
                    },
                    None => false,
                }
            },
        }
    }

    /// Inserts an item. If the table is full, the filter is left as it was.
    pub fn insert(&mut self, item: &[u8]) -> (result: Result<(), TableFullError>)
        requires
            old(self).wf(),
        ensures
            final(self).wf(),
            final(self).geometry() == old(self).geometry(),
            match old(self).geometry().inserted(
                old(self).slots(),
                old(self).geometry().home(item@),
                old(self).geometry().fingerprint(item@),
            ) {
                Some(after) => result is Ok && final(self).slots() == after,
                None => result is Err && final(self).slots() == old(self).slots(),
            },
            result is Ok ==> {
                &&& final(self).contents() == old(self).contents().insert(
                    old(self).item_tag(item@),
                ).remove(free_tag())
                &&& old(self).contents().count(free_tag()) > 0
            },
    {
        let hash: u64 = self.hash(item);
        let fingerprint: u16 = fingerprint_from_hash(hash);
        let bucket: u64 = bucket_from_hash(hash, self.buckets);
        proof {
            self.geometry().lemma_inserted(self.slots(), bucket, fingerprint);
        }
        self.insert_fingerprint(bucket, fingerprint)
    }

    /// Whether the filter matches an item. It does for each item that was inserted and not
    /// removed; it may for others.
    pub fn contains(&self, item: &[u8]) -> (found: bool)
        requires
            self.wf(),
        ensures
            found == self.matches_item(item@),
    {
        let hash: u64 = self.hash(item);
        let fingerprint: u16 = fingerprint_from_hash(hash);
        let bucket: u64 = bucket_from_hash(hash, self.buckets);
        proof {
            self.geometry().lemma_found(self.slots(), bucket, fingerprint);
        }
        self.contains_fingerprint(bucket, fingerprint)
    }

    /// Strikes one occurrence of the tag of an item, if there is one. Where the item was never
    /// inserted, that is an occurrence that another item with the same tag put there.
    pub fn remove(&mut self, item: &[u8]) -> (found: bool)
        requires
            old(self).wf(),
        ensures
            final(self).wf(),
            final(self).geometry() == old(self).geometry(),
            found == old(self).matches_item(item@),
            final(self).slots() == old(self).geometry().removed(
                old(self).slots(),
                old(self).geometry().home(item@),
                old(self).geometry().fingerprint(item@),
            ),
            found ==> final(self).contents() == old(self).contents().insert(free_tag()).remove(
                old(self).item_tag(item@),
            ),
            !found ==> final(self).slots() == old(self).slots(),
    {
        let hash: u64 = self.hash(item);
        let fingerprint: u16 = fingerprint_from_hash(hash);
        let bucket: u64 = bucket_from_hash(hash, self.buckets);
        proof {
            self.geometry().lemma_found(self.slots(), bucket, fingerprint);
            self.geometry().lemma_removed(self.slots(), bucket, fingerprint);
        }
        self.remove_fingerprint(bucket, fingerprint)
    }

    /// The filter on the wire.
    pub fn to_proto(&self) -> (proto: ProtoCuckooFilter)
        requires
            self.wf(),
        ensures
            carries(proto, self.slots(), self.geometry()),
    {
        let mut data: Vec<u8> = Vec::new();
        let mut i: usize = 0;
        while i < self.slots.len()
            invariant
                i <= self.slots@.len(),
                data@.len() == 2 * i,
                forall|j: int| 0 <= j < data@.len() ==> data@[j] == slot_bytes(self.slots@)[j],
            decreases self.slots@.len() - i,
        {
            let slot: u16 = self.slots[i];
            data.push((slot % 0x100) as u8);
            data.push((slot / 0x100) as u8);
            i += 1;
        }
        assert(data@ =~= slot_bytes(self.slots()));
        ProtoCuckooFilter {
            data,
            bucket_count: self.buckets,
            entries_per_bucket: 4,
            fingerprint_bits: FINGERPRINT_BITS,
            hash_seed: self.hasher.seed(),
        }
    }

    /// The filter that a message carries; nothing where the message has another geometry than
    /// filters are written with, or its data another length than its geometry says.
    pub fn from_proto(proto: &ProtoCuckooFilter) -> (filter: Option<Self>)
        ensures
            filter is Some <==> {
                &&& is_bucket_count(proto.bucket_count)
                &&& proto.entries_per_bucket == ENTRIES_PER_BUCKET
                &&& proto.fingerprint_bits == FINGERPRINT_BITS
                &&& proto.data@.len() == proto.bucket_count * ENTRIES_PER_BUCKET * 2
            },
            filter matches Some(f) ==> f.wf() && carries(*proto, f.slots(), f.geometry()),
    {
        let buckets: u64 = proto.bucket_count;
        if buckets == 0 || buckets & (buckets - 1) != 0 || proto.entries_per_bucket != 4
            || proto.fingerprint_bits != FINGERPRINT_BITS || proto.data.len() as u128
            != buckets as u128 * 8 {
            return None;
        }
        Some(
            CuckooFilter {
                slots: slots_of_bytes(&proto.data),
                buckets,
                hasher: YellowstoneHasherBuilder::new(proto.hash_seed),
            },
        )
    }
}

/// A table is determined by its bytes.
proof fn lemma_slot_bytes_injective(a: Seq<u16>, b: Seq<u16>)
    requires
        slot_bytes(a) == slot_bytes(b),
    ensures
        a == b,
{
    assert(slot_bytes(a).len() == a.len() * 2 && slot_bytes(b).len() == b.len() * 2);
    assert forall|i: int| 0 <= i < a.len() implies a[i] == b[i] by {
        assert(slot_bytes(a)[2 * i] == slot_bytes(b)[2 * i]);
        assert(slot_bytes(a)[2 * i + 1] == slot_bytes(b)[2 * i + 1]);
        assert((2 * i) / 2 == i && (2 * i + 1) / 2 == i);
        assert(slot_bytes(a)[2 * i] == (a[i] % 0x100) as u8);
        assert(slot_bytes(b)[2 * i] == (b[i] % 0x100) as u8);
        assert(slot_bytes(a)[2 * i + 1] == (a[i] / 0x100) as u8);
        assert(slot_bytes(b)[2 * i + 1] == (b[i] / 0x100) as u8);
    }
    assert(a =~= b);
}

/// A filter read back from its own message is the filter that wrote it: it has the same table
/// and geometry, and so matches the same items.
pub proof fn law_proto_round_trip(
    written: CuckooFilter,
    proto: ProtoCuckooFilter,
    read: CuckooFilter,
)
    requires
        carries(proto, written.slots(), written.geometry()),
        carries(proto, read.slots(), read.geometry()),
    ensures
        read.geometry() == written.geometry(),
        read.slots() == written.slots(),
        forall|item: Seq<u8>| #[trigger] read.matches_item(item) == written.matches_item(item),
{
    lemma_slot_bytes_injective(read.slots(), written.slots());
}

/// Whether `after` is `before` once an item was inserted into it.
pub open spec fn is_inserted(before: CuckooFilter, after: CuckooFilter, item: Seq<u8>) -> bool {
    &&& after.geometry() == before.geometry()
    &&& before.contents().count(free_tag()) > 0
    &&& after.contents() == before.contents().insert(before.item_tag(item)).remove(free_tag())
}

/// Whether `after` is `before` once an item that it matches was removed from it.
pub open spec fn is_removed(before: CuckooFilter, after: CuckooFilter, item: Seq<u8>) -> bool {
    &&& after.geometry() == before.geometry()
    &&& before.matches_item(item)
    &&& after.contents() == before.contents().insert(free_tag()).remove(before.item_tag(item))
}

/// A filter matches an item that was inserted, and still all that it matched before.
pub proof fn law_insert_keeps_matches(
    before: CuckooFilter,
    after: CuckooFilter,
    item: Seq<u8>,
    other: Seq<u8>,
)
    requires
        is_inserted(before, after, item),
    ensures
        after.matches_item(item),
        before.matches_item(other) ==> after.matches_item(other),
{
    assert(before.item_tag(item) != free_tag());
    assert(before.item_tag(other) != free_tag());
}

/// Removing an item that was inserted gives back what the filter held.
pub proof fn law_filter_remove_undoes_insert(
    before: CuckooFilter,
    between: CuckooFilter,
    after: CuckooFilter,
    item: Seq<u8>,
)
    requires
        is_inserted(before, between, item),
        is_removed(between, after, item),
    ensures
        after.contents() == before.contents(),
        after.geometry() == before.geometry(),
{
    assert(before.item_tag(item) != free_tag());
    assert(after.contents() =~= before.contents());
}

} // verus!
