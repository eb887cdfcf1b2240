//! Stable, wire-compatible hasher for the cuckoo filter: SipHash-2-4 with the seed carried on
//! the wire, so that client and server hash identically.

use siphasher::sip::SipHasher24;
use std::hash::BuildHasher;
use vstd::prelude::*;

use crate::cuckoo::constants::DEFAULT_HASH_SEED;

verus! {

/// The SipHash-2-4 state of the `siphasher` crate. Its two keys and the bytes that it has
/// absorbed are named by [`sip_keys`] and [`sip_absorbed`].
#[verifier::external_type_specification]
#[verifier::external_body]
pub struct ExSipHasher24(SipHasher24);

/// The two keys that a hasher was made with.
pub uninterp spec fn sip_keys(hasher: SipHasher24) -> (u64, u64);

/// The bytes that a hasher has absorbed so far.
pub uninterp spec fn sip_absorbed(hasher: SipHasher24) -> Seq<u8>;

/// SipHash-2-4 of `message` under the keys `k0` and `k1`.
pub uninterp spec fn siphash_2_4(k0: u64, k1: u64, message: Seq<u8>) -> u64;

/// `SipHasher24::new_with_keys` gives a hasher that holds those keys and has absorbed nothing.
pub assume_specification[ SipHasher24::new_with_keys ](key0: u64, key1: u64) -> (hasher: SipHasher24)
    ensures
        sip_keys(hasher) == (key0, key1),
        sip_absorbed(hasher) == Seq::<u8>::empty(),
;

/// `SipHasher24::hash` gives the SipHash-2-4 of what the hasher has absorbed followed by
/// `bytes`, and leaves the hasher as it was.
pub assume_specification[ SipHasher24::hash ](hasher: &SipHasher24, bytes: &[u8]) -> (digest: u64)
    requires
        sip_absorbed(*hasher).len() + bytes@.len() <= usize::MAX,
    ensures
        digest == siphash_2_4(
            sip_keys(*hasher).0,
            sip_keys(*hasher).1,
            sip_absorbed(*hasher) + bytes@,
        ),
;

/// `value` with its two 32-bit halves exchanged.
pub open spec fn swap_halves(value: u64) -> u64 {
    ((value as int % 0x1_0000_0000) * 0x1_0000_0000 + value as int / 0x1_0000_0000) as u64
}

/// Deterministic builder of SipHash-2-4 hashers. The seed is serialized to the proto
/// `hash_seed`, so that the receiver reconstructs a matching hasher.
#[derive(Debug, Clone, Copy)]
pub struct YellowstoneHasherBuilder {
    seed: u64,
}

impl YellowstoneHasherBuilder {
    /// The seed, which is all that a builder holds.
    pub closed spec fn spec_seed(&self) -> u64 {
        self.seed
    }

    /// Builds a hasher with `seed`.
    pub fn new(seed: u64) -> (builder: Self)
        ensures
            builder.spec_seed() == seed,
    {
        Self { seed }
    }

    /// The seed this builder hashes with.
    pub fn seed(&self) -> (seed: u64)
        ensures
            seed == self.spec_seed(),
    {
        self.seed
    }

    /// SipHash-2-4 takes two 64-bit keys; one seed is carried on the wire, and the second key
    /// is the seed with its halves exchanged. The derivation is part of the wire contract.
    pub fn keys_from_seed(seed: u64) -> (keys: (u64, u64))
        ensures
            keys == (seed, swap_halves(seed)),
    {
        let low: u64 = seed & 0xffff_ffff;
        let high: u64 = seed >> 32u64;
        assert(low == seed % 0x1_0000_0000 && high == seed / 0x1_0000_0000) by (bit_vector)
            requires
                low == seed & 0xffff_ffff,
                high == seed >> 32u64,
        ;
        (seed, low * 0x1_0000_0000 + high)
    }
}

impl Default for YellowstoneHasherBuilder {
    /// A builder with the default seed.
    fn default() -> (builder: Self)
        ensures
            builder.spec_seed() == DEFAULT_HASH_SEED,
    {
        Self::new(DEFAULT_HASH_SEED)
    }
}

impl BuildHasher for YellowstoneHasherBuilder {
    type Hasher = SipHasher24;

    fn build_hasher(&self) -> (hasher: SipHasher24)
        ensures
            sip_keys(hasher) == (self.spec_seed(), swap_halves(self.spec_seed())),
            sip_absorbed(hasher) == Seq::<u8>::empty(),
    {
        let (k0, k1) = Self::keys_from_seed(self.seed);
        SipHasher24::new_with_keys(k0, k1)
    }
}

} // verus!
