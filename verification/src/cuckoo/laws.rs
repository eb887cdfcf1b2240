//! What the parts of the cuckoo filter promise, each by itself.

use vstd::prelude::*;

use crate::cuckoo::constants::{
    DEFAULT_HASH_SEED, ENTRIES_PER_BUCKET, FINGERPRINT_BITS, LOAD_FACTOR_PERCENT, MAX_KICKS,
};
use crate::cuckoo::filter::{
    capacity_overflows, carries, holds_capacity, is_bucket_count_for, slot_bytes, CuckooFilter,
};
use crate::cuckoo::hasher::{siphash_2_4, swap_halves};
use crate::cuckoo::model::{
    bucket_has, bucket_of_hash, fingerprint_bytes, fingerprint_of_hash, is_bucket_count,
    kicked_slot, partner_bucket, slot_with, Geometry,
};
use crate::geyser::CuckooFilter as ProtoCuckooFilter;

verus! {

/// A filter has four slots to a bucket, is filled to ninety-five hundredths, gives up after five
/// hundred relocations, holds fingerprints of sixteen bits, and hashes with a fixed seed unless
/// another is given.
pub proof fn law_parameters_of_a_filter()
    ensures
        ENTRIES_PER_BUCKET == 4,
        LOAD_FACTOR_PERCENT == 95,
        MAX_KICKS == 500,
        FINGERPRINT_BITS == 16,
        DEFAULT_HASH_SEED == 0x796c_6c77_7374_6e21,
{
}

/// No item has the fingerprint that marks a free slot.
pub proof fn law_fingerprint_is_never_free(hash: u64)
    ensures
        fingerprint_of_hash(hash) != 0,
{
}

/// Two hashes whose low sixteen bits differ, and are not all zero, have different fingerprints;
/// those with the same low sixteen bits have the same.
pub proof fn law_fingerprints_tell_hashes_apart(a: u64, b: u64)
    ensures
        a % 0x1_0000 != b % 0x1_0000 && a % 0x1_0000 != 0 && b % 0x1_0000 != 0
            ==> fingerprint_of_hash(a) != fingerprint_of_hash(b),
        a % 0x1_0000 == b % 0x1_0000 ==> fingerprint_of_hash(a) == fingerprint_of_hash(b),
{
}

/// Every fingerprint but that of a free slot is taken, and with it every bucket that half a hash
/// can name: none of the sixteen bits is wasted, and the bucket does not hang on them.
pub proof fn law_every_fingerprint_and_bucket_is_taken(
    fingerprint: u16,
    bucket: u64,
    buckets: u64,
) -> (hash: u64)
    requires
        fingerprint != 0,
        bucket < buckets,
        bucket < 0x1_0000_0000,
    ensures
        fingerprint_of_hash(hash) == fingerprint,
        bucket_of_hash(hash, buckets) == bucket,
{
    let hash = (bucket * 0x1_0000_0000 + fingerprint) as u64;
    assert(hash / 0x1_0000_0000 == bucket);
    assert(hash % 0x1_0000 == fingerprint);
    vstd::arithmetic::div_mod::lemma_small_mod(bucket as nat, buckets as nat);
    hash
}

/// The first candidate of an item is a bucket, and hangs on the high half of its hash alone: two
/// hashes whose high halves differ by less than there are buckets have different first candidates.
pub proof fn law_high_half_picks_the_bucket(a: u64, b: u64, buckets: u64)
    requires
        buckets > 0,
    ensures
        bucket_of_hash(a, buckets) < buckets,
        a / 0x1_0000_0000 == b / 0x1_0000_0000 ==> bucket_of_hash(a, buckets) == bucket_of_hash(
            b,
            buckets,
        ),
        a / 0x1_0000_0000 < b / 0x1_0000_0000 < a / 0x1_0000_0000 + buckets ==> bucket_of_hash(
            a,
            buckets,
        ) != bucket_of_hash(b, buckets),
        a / 0x1_0000_0000 < buckets ==> bucket_of_hash(a, buckets) == a / 0x1_0000_0000,
{
    let x = a as int / 0x1_0000_0000;
    let y = b as int / 0x1_0000_0000;
    let n = buckets as int;
    if x < y < x + n && x % n == y % n {
        vstd::arithmetic::div_mod::lemma_fundamental_div_mod(x, n);
        vstd::arithmetic::div_mod::lemma_fundamental_div_mod(y, n);
        let d = y / n - x / n;
        assert(y - x == n * d) by (nonlinear_arith)
            requires
                x == n * (x / n) + x % n,
                y == n * (y / n) + y % n,
                x % n == y % n,
                d == y / n - x / n,
        ;
        assert(false) by (nonlinear_arith)
            requires
                0 < n * d < n,
                n > 0,
        ;
    }
    if x < n {
        vstd::arithmetic::div_mod::lemma_small_mod(x as nat, buckets as nat);
    }
    assert(0 <= x % n < n) by {
        vstd::arithmetic::div_mod::lemma_mod_bound(x, n);
    }
}

/// The partner of a bucket is a bucket, and a bucket is the partner of its partner.
pub proof fn law_partners_are_mutual(bucket: u64, fingerprint_hash: u64, buckets: u64)
    requires
        is_bucket_count(buckets),
        bucket < buckets,
    ensures
        partner_bucket(bucket, fingerprint_hash, buckets) < buckets,
        partner_bucket(
            partner_bucket(bucket, fingerprint_hash, buckets),
            fingerprint_hash,
            buckets,
        ) == bucket,
        partner_bucket(bucket, fingerprint_hash, buckets) == bucket <==> fingerprint_hash % buckets
            == 0,
{
    let offset = fingerprint_hash % buckets;
    assert(bucket ^ offset < buckets && (bucket ^ offset) ^ offset == bucket) by (bit_vector)
        requires
            buckets > 0,
            buckets & ((buckets - 1) as u64) == 0,
            bucket < buckets,
            offset < buckets,
    ;
    assert(bucket ^ offset == bucket <==> offset == 0) by (bit_vector);
}

/// Any two buckets are partners under some hash of a fingerprint.
pub proof fn law_any_two_buckets_can_be_partners(a: u64, b: u64, buckets: u64) -> (hash: u64)
    requires
        is_bucket_count(buckets),
        a < buckets,
        b < buckets,
    ensures
        partner_bucket(a, hash, buckets) == b,
        partner_bucket(b, hash, buckets) == a,
{
    let hash = a ^ b;
    assert(hash < buckets && a ^ hash == b && b ^ hash == a) by (bit_vector)
        requires
            buckets > 0,
            buckets & ((buckets - 1) as u64) == 0,
            a < buckets,
            b < buckets,
            hash == a ^ b,
    ;
    vstd::arithmetic::div_mod::lemma_small_mod(hash as nat, buckets as nat);
    hash
}

/// The bytes of a fingerprint are two, and spell it with the low one first.
pub proof fn law_fingerprint_bytes_spell_it(fingerprint: u16)
    ensures
        fingerprint_bytes(fingerprint).len() == 2,
        fingerprint_bytes(fingerprint)[0] + 256 * fingerprint_bytes(fingerprint)[1] == fingerprint,
{
}

/// The second key of the hasher has the halves of the seed, each in the place of the other.
pub proof fn law_second_key_swaps_the_halves(seed: u64)
    ensures
        swap_halves(seed) as int % 0x1_0000_0000 == seed as int / 0x1_0000_0000,
        swap_halves(seed) as int / 0x1_0000_0000 == seed as int % 0x1_0000_0000,
        swap_halves(swap_halves(seed)) == seed,
{
}

/// Where an item goes hangs on one hash of it, under both keys: its low bits are the fingerprint,
/// its high half picks the first bucket, and the hash of the fingerprint's own two bytes leads
/// from there to the second.
pub proof fn law_item_goes_where_its_hash_says(geometry: Geometry, item: Seq<u8>, bucket: u64)
    requires
        geometry.wf(),
    ensures
        ({
            let hash = siphash_2_4(geometry.seed, swap_halves(geometry.seed), item);
            let fingerprint = geometry.fingerprint(item);
            &&& hash % 0x1_0000 != 0 ==> fingerprint == hash % 0x1_0000
            &&& hash % 0x1_0000 == 0 ==> fingerprint == 1
            &&& geometry.home(item) == (hash / 0x1_0000_0000) % geometry.buckets
            &&& geometry.home(item) < geometry.buckets
            &&& geometry.partner(bucket, fingerprint) == bucket ^ (siphash_2_4(
                geometry.seed,
                swap_halves(geometry.seed),
                seq![(fingerprint % 256) as u8, (fingerprint / 256) as u8],
            ) % geometry.buckets)
        }),
{
}

/// Two slots count alike exactly where they hold the same fingerprint in the same bucket or in its
/// partner, or are both free.
pub proof fn law_tags_are_shared_by_candidates(
    geometry: Geometry,
    a: u64,
    fingerprint: u16,
    b: u64,
    other: u16,
)
    requires
        geometry.wf(),
        a < geometry.buckets,
        b < geometry.buckets,
    ensures
        geometry.slot_tag(a, fingerprint) == geometry.slot_tag(b, other) <==> {
            &&& fingerprint == other
            &&& fingerprint == 0 || a == b || a == geometry.partner(b, fingerprint)
        },
{
    geometry.lemma_partner(a, fingerprint);
    geometry.lemma_partner(b, other);
    geometry.lemma_partner(b, fingerprint);
}

/// A number of buckets is a power of two: one is, an odd number above one is not, and an even
/// number is where its half is.
pub proof fn law_bucket_counts_are_powers_of_two(n: u64)
    ensures
        n % 2 == 1 ==> (is_bucket_count(n) <==> n == 1),
        n % 2 == 0 && n > 0 ==> (is_bucket_count(n) <==> is_bucket_count(n / 2)),
        !is_bucket_count(0),
{
    if n > 0 {
        let less = (n - 1) as u64;
        assert(n % 2 == 1 ==> (n & less == 0 <==> n == 1)) by (bit_vector)
            requires
                n > 0,
                less == n - 1,
        ;
        if n % 2 == 0 {
            let half = n / 2;
            let half_less = (half - 1) as u64;
            assert(n & less == 0 <==> half & half_less == 0) by (bit_vector)
                requires
                    n > 0,
                    n % 2 == 0,
                    less == n - 1,
                    half == n / 2,
                    half_less == half - 1,
            ;
        }
    }
}

/// A filter made for so many items has so many slots that they fill ninety-five hundredths of them
/// at most, and half as many buckets would not do.
pub proof fn law_filter_is_as_large_as_needed(buckets: u64, capacity: usize)
    requires
        is_bucket_count_for(buckets, capacity),
    ensures
        is_bucket_count(buckets),
        capacity * 100 <= buckets * 4 * 95,
        capacity <= buckets * 4,
        buckets > 1 ==> (buckets / 2) * 4 * 95 < capacity * 100,
        holds_capacity(buckets as int, capacity as int) <==> capacity * 100 <= buckets * 380,
{
}

/// For each number of items there is one number of buckets at most.
pub proof fn law_bucket_count_is_one(a: u64, b: u64, capacity: usize)
    requires
        is_bucket_count_for(a, capacity),
        is_bucket_count_for(b, capacity),
    ensures
        a == b,
{
    if a < b {
        assert(a <= b / 2) by (bit_vector)
            requires
                a & ((a - 1) as u64) == 0,
                b & ((b - 1) as u64) == 0,
                a > 0,
                a < b,
        ;
    }
    if b < a {
        assert(b <= a / 2) by (bit_vector)
            requires
                a & ((a - 1) as u64) == 0,
                b & ((b - 1) as u64) == 0,
                b > 0,
                b < a,
        ;
    }
}

/// There is no room for so many items exactly where no table whose slots can be counted is large
/// enough for them; then there is none for more.
pub proof fn law_too_many_items(capacity: usize, more: usize, buckets: u64)
    requires
        capacity_overflows(capacity),
        capacity <= more,
        is_bucket_count(buckets),
        buckets * 4 <= usize::MAX,
    ensures
        buckets * 380 < capacity * 100,
        capacity_overflows(more),
        !(is_bucket_count_for(buckets, capacity)),
{
}

/// A bucket has a fingerprint exactly where one of its four slots holds it, and the slot with it is
/// the first of them.
pub proof fn law_bucket_is_four_slots(slots: Seq<u16>, bucket: u64, fingerprint: u16)
    ensures
        bucket_has(slots, bucket, fingerprint) <==> exists|j: int|
            0 <= j < 4 && #[trigger] slots[bucket * 4 + j] == fingerprint,
        bucket_has(slots, bucket, fingerprint) ==> {
            let slot = slot_with(slots, bucket, fingerprint);
            &&& bucket * 4 <= slot < bucket * 4 + 4
            &&& slots[slot] == fingerprint
            &&& forall|i: int| bucket * 4 <= i < slot ==> slots[i] != fingerprint
        },
{
    let start = bucket * 4;
    if bucket_has(slots, bucket, fingerprint) {
        let j = slot_with(slots, bucket, fingerprint) - start;
        assert(slots[bucket * 4 + j] == fingerprint);
    }
    if exists|j: int| 0 <= j < 4 && #[trigger] slots[bucket * 4 + j] == fingerprint {
        let j = choose|j: int| 0 <= j < 4 && #[trigger] slots[bucket * 4 + j] == fingerprint;
        assert(j == 0 || j == 1 || j == 2 || j == 3);
    }
}

/// Where one of its candidates has a free slot, a fingerprint is inserted, and just one slot
/// changes: the first free one of the first candidate, or of the second where the first is full.
pub proof fn law_free_slot_is_taken(
    geometry: Geometry,
    slots: Seq<u16>,
    bucket: u64,
    fingerprint: u16,
)
    requires
        geometry.wf(),
        geometry.is_table(slots),
        bucket < geometry.buckets,
        bucket_has(slots, bucket, 0) || bucket_has(
            slots,
            geometry.partner(bucket, fingerprint),
            0,
        ),
    ensures
        geometry.inserted(slots, bucket, fingerprint) matches Some(after) && {
            let taken = if bucket_has(slots, bucket, 0) {
                bucket
            } else {
                geometry.partner(bucket, fingerprint)
            };
            &&& after.len() == slots.len()
            &&& exists|slot: int|
                #![trigger slots[slot]]
                {
                    &&& taken * 4 <= slot < taken * 4 + 4
                    &&& slots[slot] == 0
                    &&& after[slot] == fingerprint
                    &&& forall|i: int| taken * 4 <= i < slot ==> slots[i] != 0
                    &&& forall|i: int|
                        0 <= i < slots.len() && i != slot ==> #[trigger] after[i] == slots[i]
                }
        },
{
    geometry.lemma_partner(bucket, fingerprint);
    let taken = if bucket_has(slots, bucket, 0) {
        bucket
    } else {
        geometry.partner(bucket, fingerprint)
    };
    law_bucket_is_four_slots(slots, taken, 0);
    let slot = slot_with(slots, taken, 0);
    let after = geometry.inserted(slots, bucket, fingerprint).unwrap();
    assert(after == slots.update(slot, fingerprint));
    assert(slots[slot] == 0 && after[slot] == fingerprint);
}

/// Where a fingerprint cannot be inserted, both its candidates are full.
pub proof fn law_full_means_both_candidates(
    geometry: Geometry,
    slots: Seq<u16>,
    bucket: u64,
    fingerprint: u16,
    j: int,
)
    requires
        geometry.inserted(slots, bucket, fingerprint) is None,
        0 <= j < 4,
    ensures
        slots[bucket * 4 + j] != 0,
        slots[geometry.partner(bucket, fingerprint) * 4 + j] != 0,
{
    law_bucket_is_four_slots(slots, bucket, 0);
    law_bucket_is_four_slots(slots, geometry.partner(bucket, fingerprint), 0);
}

/// A relocation pushes a fingerprint out of a slot of the full bucket, and one after the other out
/// of each of the four. It ends well where the other candidate of what was pushed out has a free
/// slot, and is given up where five hundred came before it.
pub proof fn law_relocation(
    geometry: Geometry,
    slots: Seq<u16>,
    bucket: u64,
    fingerprint: u16,
    kicks: nat,
)
    ensures
        bucket * 4 <= kicked_slot(bucket, fingerprint, kicks) < bucket * 4 + 4,
        forall|i: int, j: int|
            0 <= i < j < 4 ==> #[trigger] kicked_slot(bucket, fingerprint, (kicks + i) as nat)
                != #[trigger] kicked_slot(bucket, fingerprint, (kicks + j) as nat),
        kicks >= 500 ==> geometry.kick(slots, bucket, fingerprint, kicks) is None,
        kicks < 500 ==> {
            let slot = kicked_slot(bucket, fingerprint, kicks);
            let pushed_out = slots[slot];
            let next = geometry.partner(bucket, pushed_out);
            let between = slots.update(slot, fingerprint);
            geometry.kick(slots, bucket, fingerprint, kicks) == if bucket_has(between, next, 0) {
                Some(between.update(slot_with(between, next, 0), pushed_out))
            } else {
                geometry.kick(between, next, pushed_out, kicks + 1)
            }
        },
{
}

/// What a fingerprint that has to push its way in sets off is counted from its first candidate on.
pub proof fn law_pushing_starts_at_the_first_candidate(
    geometry: Geometry,
    slots: Seq<u16>,
    bucket: u64,
    fingerprint: u16,
)
    requires
        !bucket_has(slots, bucket, 0),
        !bucket_has(slots, geometry.partner(bucket, fingerprint), 0),
    ensures
        geometry.inserted(slots, bucket, fingerprint) == geometry.kick(
            slots,
            bucket,
            fingerprint,
            0,
        ),
{
}

/// A fingerprint is found exactly where one of the eight slots of its candidates holds it.
pub proof fn law_found_in_one_of_eight_slots(
    geometry: Geometry,
    slots: Seq<u16>,
    bucket: u64,
    fingerprint: u16,
)
    ensures
        geometry.found(slots, bucket, fingerprint) <==> {
            ||| exists|j: int| 0 <= j < 4 && #[trigger] slots[bucket * 4 + j] == fingerprint
            ||| exists|j: int|
                0 <= j < 4 && #[trigger] slots[geometry.partner(bucket, fingerprint) * 4 + j]
                    == fingerprint
        },
{
    law_bucket_is_four_slots(slots, bucket, fingerprint);
    law_bucket_is_four_slots(slots, geometry.partner(bucket, fingerprint), fingerprint);
}

/// A removal frees one slot that held the fingerprint in one of its candidates, and leaves all
/// others as they were; where none held it, the table stays.
pub proof fn law_removal_frees_one_slot(
    geometry: Geometry,
    slots: Seq<u16>,
    bucket: u64,
    fingerprint: u16,
)
    requires
        geometry.wf(),
        geometry.is_table(slots),
        bucket < geometry.buckets,
    ensures
        !geometry.found(slots, bucket, fingerprint) ==> geometry.removed(
            slots,
            bucket,
            fingerprint,
        ) == slots,
        geometry.found(slots, bucket, fingerprint) ==> {
            let after = geometry.removed(slots, bucket, fingerprint);
            &&& after.len() == slots.len()
            &&& exists|slot: int|
                #![trigger slots[slot]]
                {
                    &&& 0 <= slot < slots.len()
                    &&& slot / 4 == bucket || slot / 4 == geometry.partner(bucket, fingerprint)
                    &&& slots[slot] == fingerprint
                    &&& after[slot] == 0
                    &&& forall|i: int|
                        0 <= i < slots.len() && i != slot ==> #[trigger] after[i] == slots[i]
                }
        },
{
    geometry.lemma_partner(bucket, fingerprint);
    if geometry.found(slots, bucket, fingerprint) {
        let held = if bucket_has(slots, bucket, fingerprint) {
            bucket
        } else {
            geometry.partner(bucket, fingerprint)
        };
        law_bucket_is_four_slots(slots, held, fingerprint);
        let slot = slot_with(slots, held, fingerprint);
        let after = geometry.removed(slots, bucket, fingerprint);
        assert(after == slots.update(slot, 0));
        assert(slots[slot] == fingerprint && after[slot] == 0);
        assert(slot / 4 == held);
    }
}

/// A filter matches an item exactly where one of the eight slots of the item's candidates holds its
/// fingerprint.
pub proof fn law_match_is_a_slot(filter: CuckooFilter, item: Seq<u8>)
    requires
        filter.wf(),
    ensures
        ({
            let home = filter.geometry().home(item);
            let fingerprint = filter.geometry().fingerprint(item);
            let partner = filter.geometry().partner(home, fingerprint);
            filter.matches_item(item) <==> {
                ||| exists|j: int|
                    0 <= j < 4 && #[trigger] filter.slots()[home * 4 + j] == fingerprint
                ||| exists|j: int|
                    0 <= j < 4 && #[trigger] filter.slots()[partner * 4 + j] == fingerprint
            }
        }),
{
    let geometry = filter.geometry();
    let home = geometry.home(item);
    let fingerprint = geometry.fingerprint(item);
    law_high_half_picks_the_bucket(geometry.hash(item), 0, geometry.buckets);
    geometry.lemma_found(filter.slots(), home, fingerprint);
    law_found_in_one_of_eight_slots(geometry, filter.slots(), home, fingerprint);
}

/// The bytes of a table spell its slots one after the other, each in two bytes with the low one
/// first.
pub proof fn law_bytes_spell_the_slots(slots: Seq<u16>, i: int)
    requires
        0 <= i < slots.len(),
    ensures
        slot_bytes(slots).len() == 2 * slots.len(),
        slot_bytes(slots)[2 * i] + 256 * slot_bytes(slots)[2 * i + 1] == slots[i],
{
    assert((2 * i) / 2 == i && (2 * i + 1) / 2 == i);
}

/// A message that carries a table says how it is made, and spells every slot of it.
pub proof fn law_message_says_how_the_table_is_made(
    proto: ProtoCuckooFilter,
    slots: Seq<u16>,
    geometry: Geometry,
)
    requires
        carries(proto, slots, geometry),
    ensures
        proto.bucket_count == geometry.buckets,
        proto.hash_seed == geometry.seed,
        proto.entries_per_bucket == 4,
        proto.fingerprint_bits == 16,
        proto.data@.len() == 2 * slots.len(),
        forall|i: int|
            0 <= i < slots.len() ==> #[trigger] slots[i] == proto.data@[2 * i] + 256 * proto.data@[2
                * i + 1],
{
    assert forall|i: int| 0 <= i < slots.len() implies #[trigger] slots[i] == proto.data@[2 * i]
        + 256 * proto.data@[2 * i + 1] by {
        law_bytes_spell_the_slots(slots, i);
    }
}

} // verus!
