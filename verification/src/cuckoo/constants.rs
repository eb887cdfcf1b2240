use vstd::prelude::*;

verus! {

/// Slots per bucket.
pub const ENTRIES_PER_BUCKET: usize = 4;

/// Target load factor, in hundredths: 95% occupancy is achievable with 4 entries per bucket.
pub const LOAD_FACTOR_PERCENT: usize = 95;

/// Maximum relocations before declaring the table full.
pub const MAX_KICKS: usize = 500;

/// Fingerprint width in bits.
pub const FINGERPRINT_BITS: u32 = 16;

/// Default SipHash seed (ASCII "yllwstn!"). The seed in use is always serialized into the
/// proto `hash_seed`, so filters built with it stay readable even if this default changes.
pub const DEFAULT_HASH_SEED: u64 = 0x796c_6c77_7374_6e21;

} // verus!
