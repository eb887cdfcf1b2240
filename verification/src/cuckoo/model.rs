//! The mathematical model of a cuckoo filter.
//!
//! A filter is a table of fingerprint slots, four to a bucket. An item has a fingerprint and two
//! candidate buckets, each the partner of the other under that fingerprint. Moving a fingerprint
//! to its partner bucket does not change its [`Tag`], so the multiset of the tags in a table is
//! all that lookups depend on.

use vstd::multiset::Multiset;
use vstd::prelude::*;

use crate::cuckoo::constants::{ENTRIES_PER_BUCKET, MAX_KICKS};
use crate::cuckoo::hasher::{siphash_2_4, swap_halves};

verus! {

/// Whether `n` is a number of buckets that a filter can have: a power of two.
pub open spec fn is_bucket_count(n: u64) -> bool {
    n > 0 && n & ((n - 1) as u64) == 0
}

/// The fingerprint of an item with hash `hash`: the low sixteen bits, where zero, which marks a
/// free slot, gives way to one.
pub open spec fn fingerprint_of_hash(hash: u64) -> u16 {
    if hash % 0x1_0000 == 0 {
        1
    } else {
        (hash % 0x1_0000) as u16
    }
}

/// The first candidate bucket of an item with hash `hash`, among `buckets`: the high half of the
/// hash picks it.
pub open spec fn bucket_of_hash(hash: u64, buckets: u64) -> u64 {
    (hash / 0x1_0000_0000) % buckets
}

/// The partner of `bucket` for a fingerprint whose own hash is `fingerprint_hash`.
pub open spec fn partner_bucket(bucket: u64, fingerprint_hash: u64, buckets: u64) -> u64 {
    bucket ^ (fingerprint_hash % buckets)
}

/// The two bytes of a fingerprint, the low one first.
pub open spec fn fingerprint_bytes(fingerprint: u16) -> Seq<u8> {
    seq![(fingerprint % 0x100) as u8, (fingerprint / 0x100) as u8]
}

/// What is left of a slot when it is forgotten which of its two candidate buckets it lies in:
/// the fingerprint, and the lower of the two buckets.
pub struct Tag {
    pub fingerprint: u16,
    pub low_bucket: u64,
}

/// The tag that counts the free slots.
pub open spec fn free_tag() -> Tag {
    Tag { fingerprint: 0, low_bucket: 0 }
}

/// What decides where items go: the seed of the hasher and the number of buckets.
pub struct Geometry {
    pub seed: u64,
    pub buckets: u64,
}

impl Geometry {
    pub open spec fn wf(self) -> bool {
        is_bucket_count(self.buckets)
    }

    /// The hash of a byte string under the seed.
    pub open spec fn hash(self, message: Seq<u8>) -> u64 {
        siphash_2_4(self.seed, swap_halves(self.seed), message)
    }

    /// The fingerprint of an item.
    pub open spec fn fingerprint(self, item: Seq<u8>) -> u16 {
        fingerprint_of_hash(self.hash(item))
    }

    /// The first candidate bucket of an item.
    pub open spec fn home(self, item: Seq<u8>) -> u64 {
        bucket_of_hash(self.hash(item), self.buckets)
    }

    /// The other candidate bucket of a fingerprint that may lie in `bucket`.
    pub open spec fn partner(self, bucket: u64, fingerprint: u16) -> u64 {
        partner_bucket(bucket, self.hash(fingerprint_bytes(fingerprint)), self.buckets)
    }

    /// The tag of a slot of `bucket` that holds `fingerprint`.
    pub open spec fn slot_tag(self, bucket: u64, fingerprint: u16) -> Tag {
        if fingerprint == 0 {
            free_tag()
        } else {
            let partner = self.partner(bucket, fingerprint);
            Tag {
                fingerprint,
                low_bucket: if bucket <= partner {
                    bucket
                } else {
                    partner
                },
            }
        }
    }

    /// The tag under which an item is counted.
    pub open spec fn item_tag(self, item: Seq<u8>) -> Tag {
        self.slot_tag(self.home(item), self.fingerprint(item))
    }

    /// The tags of all slots, in their order.
    pub open spec fn tags(self, slots: Seq<u16>) -> Seq<Tag> {
        Seq::new(
            slots.len(),
            |i: int| self.slot_tag((i / (ENTRIES_PER_BUCKET as int)) as u64, slots[i]),
        )
    }

    /// How often each tag occurs in a table; the free slots count too.
    pub open spec fn contents(self, slots: Seq<u16>) -> Multiset<Tag> {
        self.tags(slots).to_multiset()
    }

    /// Whether `slots` is a table of this geometry.
    pub open spec fn is_table(self, slots: Seq<u16>) -> bool {
        slots.len() == self.buckets * ENTRIES_PER_BUCKET
    }
}

/// The first slot of `bucket` that holds `fingerprint`, or its last slot where none does.
pub open spec fn slot_with(slots: Seq<u16>, bucket: u64, fingerprint: u16) -> int {
    let start = bucket * 4;
    if slots[start] == fingerprint {
        start
    } else if slots[start + 1] == fingerprint {
        start + 1
    } else if slots[start + 2] == fingerprint {
        start + 2
    } else {
        start + 3
    }
}

/// Whether some slot of `bucket` holds `fingerprint`.
pub open spec fn bucket_has(slots: Seq<u16>, bucket: u64, fingerprint: u16) -> bool {
    slots[slot_with(slots, bucket, fingerprint)] == fingerprint
}

/// The table after `fingerprint` took the first free slot of `bucket`.
pub open spec fn put(slots: Seq<u16>, bucket: u64, fingerprint: u16) -> Seq<u16> {
    slots.update(slot_with(slots, bucket, 0), fingerprint)
}

/// The slot that gives way to `fingerprint` in a full `bucket`, at the relocation that follows
/// `kicks` others.
pub open spec fn kicked_slot(bucket: u64, fingerprint: u16, kicks: nat) -> int {
    bucket * 4 + (fingerprint + kicks) % 4
}

impl Geometry {
    /// The table after `fingerprint` pushed its way into the full `bucket`: it takes a slot, and
    /// what lay there goes to its own partner bucket, where it may have to push in turn. Nothing
    /// if that does not end within the allowed number of relocations.
    pub open spec fn kick(self, slots: Seq<u16>, bucket: u64, fingerprint: u16, kicks: nat) -> Option<
        Seq<u16>,
    >
        decreases MAX_KICKS - kicks,
    {
        if kicks >= MAX_KICKS {
            None
        } else {
            let slot = kicked_slot(bucket, fingerprint, kicks);
            let evicted = slots[slot];
            let pushed = slots.update(slot, fingerprint);
            let next = self.partner(bucket, evicted);
            if bucket_has(pushed, next, 0) {
                Some(put(pushed, next, evicted))
            } else {
                self.kick(pushed, next, evicted, kicks + 1)
            }
        }
    }

    /// The table after an insertion of `fingerprint` with first candidate `bucket`: the first
    /// candidate with a free slot takes it, or else relocations make room. Nothing if the table
    /// is full.
    pub open spec fn inserted(self, slots: Seq<u16>, bucket: u64, fingerprint: u16) -> Option<
        Seq<u16>,
    > {
        let partner = self.partner(bucket, fingerprint);
        if bucket_has(slots, bucket, 0) {
            Some(put(slots, bucket, fingerprint))
        } else if bucket_has(slots, partner, 0) {
            Some(put(slots, partner, fingerprint))
        } else {
            self.kick(slots, bucket, fingerprint, 0)
        }
    }

    /// Whether `fingerprint` lies in one of its candidate buckets.
    pub open spec fn found(self, slots: Seq<u16>, bucket: u64, fingerprint: u16) -> bool {
        ||| bucket_has(slots, bucket, fingerprint)
        ||| bucket_has(slots, self.partner(bucket, fingerprint), fingerprint)
    }

    /// The table after one occurrence of `fingerprint` was struck from its candidate buckets.
    pub open spec fn removed(self, slots: Seq<u16>, bucket: u64, fingerprint: u16) -> Seq<u16> {
        let partner = self.partner(bucket, fingerprint);
        if bucket_has(slots, bucket, fingerprint) {
            slots.update(slot_with(slots, bucket, fingerprint), 0)
        } else if bucket_has(slots, partner, fingerprint) {
            slots.update(slot_with(slots, partner, fingerprint), 0)
        } else {
            slots
        }
    }
}

proof fn lemma_xor_in_range(a: u64, b: u64, n: u64)
    requires
        is_bucket_count(n),
        a < n,
        b < n,
    ensures
        a ^ b < n,
        (a ^ b) ^ b == a,
{
    assert(a ^ b < n) by (bit_vector)
        requires
            n > 0,
            n & ((n - 1) as u64) == 0,
            a < n,
            b < n,
    ;
    assert((a ^ b) ^ b == a) by (bit_vector);
}

impl Geometry {
    /// The partner of a bucket is a bucket, and a bucket is the partner of its partner.
    pub proof fn lemma_partner(self, bucket: u64, fingerprint: u16)
        requires
            self.wf(),
            bucket < self.buckets,
        ensures
            self.partner(bucket, fingerprint) < self.buckets,
            self.partner(self.partner(bucket, fingerprint), fingerprint) == bucket,
            self.slot_tag(self.partner(bucket, fingerprint), fingerprint) == self.slot_tag(
                bucket,
                fingerprint,
            ),
    {
        let offset = self.hash(fingerprint_bytes(fingerprint)) % self.buckets;
        lemma_xor_in_range(bucket, offset, self.buckets);
    }

    /// The slots of one fingerprint with the tag of `bucket` are those in its two candidates.
    proof fn lemma_same_tag(self, a: u64, b: u64, fingerprint: u16)
        requires
            self.wf(),
            a < self.buckets,
            b < self.buckets,
            fingerprint != 0,
            self.slot_tag(a, fingerprint) == self.slot_tag(b, fingerprint),
        ensures
            a == b || a == self.partner(b, fingerprint),
    {
        self.lemma_partner(a, fingerprint);
        self.lemma_partner(b, fingerprint);
    }

    /// Slots belong to buckets in groups of four.
    proof fn lemma_slot_of_bucket(self, slots: Seq<u16>, bucket: u64, offset: int)
        requires
            self.is_table(slots),
            bucket < self.buckets,
            0 <= offset < 4,
        ensures
            0 <= bucket * 4 + offset < slots.len(),
            (bucket * 4 + offset) / 4 == bucket,
            self.tags(slots)[bucket * 4 + offset] == self.slot_tag(
                bucket,
                slots[bucket * 4 + offset],
            ),
    {
    }

    /// Overwriting a slot exchanges one occurrence of its old tag for one of its new.
    proof fn lemma_update(self, slots: Seq<u16>, bucket: u64, offset: int, fingerprint: u16)
        requires
            self.is_table(slots),
            bucket < self.buckets,
            0 <= offset < 4,
        ensures
            self.is_table(slots.update(bucket * 4 + offset, fingerprint)),
            self.contents(slots.update(bucket * 4 + offset, fingerprint)) == self.contents(
                slots,
            ).insert(self.slot_tag(bucket, fingerprint)).remove(
                self.slot_tag(bucket, slots[bucket * 4 + offset]),
            ),
            self.contents(slots).count(self.slot_tag(bucket, slots[bucket * 4 + offset])) > 0,
    {
        let i = bucket * 4 + offset;
        self.lemma_slot_of_bucket(slots, bucket, offset);
        let tag = self.slot_tag(bucket, fingerprint);
        assert(self.tags(slots.update(i, fingerprint)) =~= self.tags(slots).update(i, tag));
        vstd::seq_lib::to_multiset_update(self.tags(slots), i, tag);
        vstd::seq_lib::to_multiset_contains(self.tags(slots), self.tags(slots)[i]);
        assert(self.tags(slots).contains(self.tags(slots)[i]));
    }

    /// Taking a free slot of either candidate turns one free slot into the fingerprint's tag.
    proof fn lemma_put(self, slots: Seq<u16>, bucket: u64, fingerprint: u16)
        requires
            self.is_table(slots),
            bucket < self.buckets,
            bucket_has(slots, bucket, 0),
        ensures
            self.is_table(put(slots, bucket, fingerprint)),
            self.contents(put(slots, bucket, fingerprint)) == self.contents(slots).insert(
                self.slot_tag(bucket, fingerprint),
            ).remove(free_tag()),
            self.contents(slots).count(free_tag()) > 0,
    {
        let slot = slot_with(slots, bucket, 0);
        self.lemma_update(slots, bucket, slot - bucket * 4, fingerprint);
    }

    /// Relocations neither lose nor change what the table holds.
    proof fn lemma_kick(self, slots: Seq<u16>, bucket: u64, fingerprint: u16, kicks: nat)
        requires
            self.wf(),
            self.is_table(slots),
            bucket < self.buckets,
            fingerprint != 0,
            !bucket_has(slots, bucket, 0),
        ensures
            self.kick(slots, bucket, fingerprint, kicks) matches Some(after) ==> {
                &&& self.is_table(after)
                &&& self.contents(after) == self.contents(slots).insert(
                    self.slot_tag(bucket, fingerprint),
                ).remove(free_tag())
                &&& self.contents(slots).count(free_tag()) > 0
            },
        decreases MAX_KICKS - kicks,
    {
        if kicks < MAX_KICKS {
            let slot = kicked_slot(bucket, fingerprint, kicks);
            let offset = (fingerprint + kicks) % 4;
            let evicted = slots[slot];
            let pushed = slots.update(slot, fingerprint);
            let next = self.partner(bucket, evicted);
            let tag = self.slot_tag(bucket, fingerprint);
            let evicted_tag = self.slot_tag(bucket, evicted);
            assert(evicted != 0);
            self.lemma_update(slots, bucket, offset, fingerprint);
            self.lemma_partner(bucket, evicted);
            if bucket_has(pushed, next, 0) {
                self.lemma_put(pushed, next, evicted);
            } else {
                self.lemma_kick(pushed, next, evicted, kicks + 1);
            }
            if self.kick(slots, bucket, fingerprint, kicks) is Some {
                let after = self.kick(slots, bucket, fingerprint, kicks)->0;
                let before = self.contents(slots);
                assert(tag != free_tag());
                assert(evicted_tag != free_tag());
                assert(self.contents(pushed) == before.insert(tag).remove(evicted_tag));
                assert(self.contents(after) == self.contents(pushed).insert(evicted_tag).remove(
                    free_tag(),
                ));
                assert(self.contents(pushed).count(free_tag()) > 0);
                assert(self.contents(after) =~= before.insert(tag).remove(free_tag()));
            }
        }
    }

    /// An insertion turns one free slot into the tag of the fingerprint.
    pub proof fn lemma_inserted(self, slots: Seq<u16>, bucket: u64, fingerprint: u16)
        requires
            self.wf(),
            self.is_table(slots),
            bucket < self.buckets,
            fingerprint != 0,
        ensures
            self.inserted(slots, bucket, fingerprint) matches Some(after) ==> {
                &&& self.is_table(after)
                &&& self.contents(after) == self.contents(slots).insert(
                    self.slot_tag(bucket, fingerprint),
                ).remove(free_tag())
                &&& self.contents(slots).count(free_tag()) > 0
            },
    {
        let partner = self.partner(bucket, fingerprint);
        self.lemma_partner(bucket, fingerprint);
        if bucket_has(slots, bucket, 0) {
            self.lemma_put(slots, bucket, fingerprint);
        } else if bucket_has(slots, partner, 0) {
            self.lemma_put(slots, partner, fingerprint);
        } else {
            self.lemma_kick(slots, bucket, fingerprint, 0);
        }
    }

    /// A lookup finds a fingerprint exactly when its tag occurs.
    pub proof fn lemma_found(self, slots: Seq<u16>, bucket: u64, fingerprint: u16)
        requires
            self.wf(),
            self.is_table(slots),
            bucket < self.buckets,
            fingerprint != 0,
        ensures
            self.found(slots, bucket, fingerprint) <==> self.contents(slots).count(
                self.slot_tag(bucket, fingerprint),
            ) > 0,
    {
        let partner = self.partner(bucket, fingerprint);
        let tag = self.slot_tag(bucket, fingerprint);
        self.lemma_partner(bucket, fingerprint);
        vstd::seq_lib::to_multiset_contains(self.tags(slots), tag);
        if self.found(slots, bucket, fingerprint) {
            let b = if bucket_has(slots, bucket, fingerprint) {
                bucket
            } else {
                partner
            };
            let i = slot_with(slots, b, fingerprint);
            self.lemma_slot_of_bucket(slots, b, i - b * 4);
            assert(self.tags(slots)[i] == tag);
        }
        if self.tags(slots).contains(tag) {
            let i = choose|i: int| 0 <= i < slots.len() && self.tags(slots)[i] == tag;
            let b = (i / 4) as u64;
            assert(self.slot_tag(b, slots[i]) == tag);
            assert(slots[i] == fingerprint);
            assert(b < self.buckets);
            self.lemma_same_tag(b, bucket, fingerprint);
            assert(bucket_has(slots, b, fingerprint));
        }
    }

    /// Striking a fingerprint that is found turns one occurrence of its tag into a free slot.
    pub proof fn lemma_removed(self, slots: Seq<u16>, bucket: u64, fingerprint: u16)
        requires
            self.wf(),
            self.is_table(slots),
            bucket < self.buckets,
            fingerprint != 0,
        ensures
            self.is_table(self.removed(slots, bucket, fingerprint)),
            self.found(slots, bucket, fingerprint) ==> self.contents(
                self.removed(slots, bucket, fingerprint),
            ) == self.contents(slots).insert(free_tag()).remove(
                self.slot_tag(bucket, fingerprint),
            ),
    {
        let partner = self.partner(bucket, fingerprint);
        self.lemma_partner(bucket, fingerprint);
        if bucket_has(slots, bucket, fingerprint) {
            let slot = slot_with(slots, bucket, fingerprint);
            self.lemma_update(slots, bucket, slot - bucket * 4, 0);
        } else if bucket_has(slots, partner, fingerprint) {
            let slot = slot_with(slots, partner, fingerprint);
            self.lemma_update(slots, partner, slot - partner * 4, 0);
        }
    }
}

} // verus!
