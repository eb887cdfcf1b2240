use siphasher::sip::SipHasher24;
use std::hash::BuildHasher;
use yellowstone_grpc::cuckoo::constants::DEFAULT_HASH_SEED;
use yellowstone_grpc::cuckoo::error::{CuckooBuildError, TableFullError};
use yellowstone_grpc::cuckoo::filter::{
    bucket_count_for, bucket_from_hash, fingerprint_from_hash, partner_from_hash, CuckooFilter,
};
use yellowstone_grpc::cuckoo::hasher::YellowstoneHasherBuilder;
use yellowstone_grpc::cuckoo::set::CompressedAccountFilterSet;
use yellowstone_grpc::geyser::{SubscribeRequest, SubscribeRequestFilterAccounts};
use yellowstone_grpc::keys::Pubkey;

// helper: a 32-byte key from a single seed byte
fn key(b: u8) -> Pubkey {
    Pubkey::new_from_array([b; 32])
}

#[test]
fn basic_insert_contains() {
    let mut filter = CompressedAccountFilterSet::with_capacity(100).unwrap();
    assert!(filter.insert(key(1)).unwrap());
    assert!(filter.contains(key(1)));
    assert!(!filter.contains(key(2)));
}

#[test]
fn insert_duplicate_returns_false() {
    let mut filter = CompressedAccountFilterSet::with_capacity(100).unwrap();
    assert!(filter.insert(key(1)).unwrap());
    assert!(!filter.insert(key(1)).unwrap());
}

#[test]
fn remove_existing() {
    let mut filter = CompressedAccountFilterSet::with_capacity(100).unwrap();
    filter.insert(key(1)).unwrap();
    assert!(filter.remove(key(1)));
    assert!(!filter.contains(key(1)));
}

#[test]
fn remove_nonexistent_is_safe() {
    let mut filter = CompressedAccountFilterSet::with_capacity(100).unwrap();
    filter.insert(key(1)).unwrap();

    assert!(!filter.remove(key(2)));
    assert!(filter.contains(key(1)));
}

#[test]
fn len_and_is_empty() {
    let mut filter = CompressedAccountFilterSet::with_capacity(100).unwrap();
    assert!(filter.is_empty());
    assert_eq!(filter.len(), 0);

    filter.insert(key(1)).unwrap();
    filter.insert(key(2)).unwrap();
    assert!(!filter.is_empty());
    assert_eq!(filter.len(), 2);

    filter.remove(key(1));
    assert_eq!(filter.len(), 1);
}

#[test]
fn to_proto_round_trip() {
    let mut filter = CompressedAccountFilterSet::with_capacity(100).unwrap();
    filter.insert(key(1)).unwrap();
    filter.insert(key(2)).unwrap();

    let proto = filter.to_proto();
    assert!(!proto.data.is_empty());
    assert!(proto.bucket_count > 0);
}

#[test]
fn to_account_filter_carries_cuckoo_and_no_other_matchers() {
    let mut filter = CompressedAccountFilterSet::with_capacity(100).unwrap();
    filter.insert(key(1)).unwrap();

    let f = filter.to_account_filter();

    assert!(f.cuckoo_accounts_filter.is_some());
    assert!(f.account.is_empty());
    assert!(f.owner.is_empty());
    assert!(f.filters.is_empty());
    assert_eq!(f.nonempty_txn_signature, None);
}

#[test]
fn insert_into_subscribe_request_uses_given_name_and_preserves_other_filters() {
    let mut filter = CompressedAccountFilterSet::with_capacity(100).unwrap();
    filter.insert(key(1)).unwrap();

    let mut req = SubscribeRequest::default();
    req.accounts.insert(
        "pre_existing".to_string(),
        SubscribeRequestFilterAccounts::default(),
    );

    filter.insert_into_subscribe_request(&mut req, "tracked_accounts");

    assert!(req.accounts.contains_key("tracked_accounts"));
    assert!(req.accounts.contains_key("pre_existing"));
    assert_eq!(req.accounts.len(), 2);
    assert!(req
        .accounts
        .get("tracked_accounts")
        .unwrap()
        .cuckoo_accounts_filter
        .is_some());
}

#[test]
fn insert_into_subscribe_request_clears_dirty_flag() {
    let mut filter = CompressedAccountFilterSet::with_capacity(100).unwrap();
    filter.insert(key(1)).unwrap();
    assert!(filter.is_dirty());

    let mut req = SubscribeRequest::default();
    filter.insert_into_subscribe_request(&mut req, "accounts");

    assert!(!filter.is_dirty());
}

#[test]
fn pubkey_like_usage() {
    let mut filter = CompressedAccountFilterSet::with_capacity(1000).unwrap();

    for i in 0..100u8 {
        filter.insert(key(i)).unwrap();
    }

    assert_eq!(filter.len(), 100);

    for i in 0..100u8 {
        assert!(filter.contains(key(i)));
    }

    assert!(!filter.contains(key(255)));
}

#[test]
fn capacity_overflow() {
    let result = CompressedAccountFilterSet::with_capacity(usize::MAX);
    assert!(matches!(result, Err(CuckooBuildError::CapacityOverflow)));
}

#[test]
fn error_texts() {
    assert_eq!(
        CuckooBuildError::CapacityOverflow.message(),
        "capacity overflow: requested capacity exceeds maximum"
    );
    assert_eq!(
        TableFullError.message(),
        "cuckoo table full after 500 kicks"
    );
}

#[test]
fn hasher_keys_come_from_the_seed() {
    assert_eq!(DEFAULT_HASH_SEED, 0x796c_6c77_7374_6e21);
    assert_eq!(YellowstoneHasherBuilder::default().seed(), DEFAULT_HASH_SEED);
    let seed = 0x0123_4567_89ab_cdef;
    assert_eq!(
        YellowstoneHasherBuilder::keys_from_seed(seed),
        (seed, seed.rotate_left(32))
    );
    let built = YellowstoneHasherBuilder::new(seed).build_hasher();
    let expected = SipHasher24::new_with_keys(seed, seed.rotate_left(32));
    assert_eq!(built.hash(b"account"), expected.hash(b"account"));
}

#[test]
fn siphash_of_the_published_vector() {
    // The first of the published vectors: keys 00..0f, messages 00, 00 01, ..
    let hasher = SipHasher24::new_with_keys(0x0706_0504_0302_0100, 0x0f0e_0d0c_0b0a_0908);
    assert_eq!(hasher.hash(&[]), 0x726f_db47_dd0e_0e31);
    assert_eq!(hasher.hash(&[0]), 0x74f8_39c5_93dc_67fd);
}

#[test]
fn inserted_item_lies_in_one_of_its_buckets() {
    let hasher = YellowstoneHasherBuilder::default();
    let mut filter = CuckooFilter::with_capacity(100).unwrap();
    filter.insert(&[7; 32]).unwrap();
    let proto = filter.to_proto();
    let hash = hasher.build_hasher().hash(&[7; 32]);
    let fingerprint = fingerprint_from_hash(hash);
    let bucket = bucket_from_hash(hash, proto.bucket_count);
    let fingerprint_hash = hasher.build_hasher().hash(&fingerprint.to_le_bytes());
    let partner = partner_from_hash(bucket, fingerprint_hash, proto.bucket_count);
    assert_eq!(
        partner_from_hash(partner, fingerprint_hash, proto.bucket_count),
        bucket
    );
    let mut found = Vec::new();
    for (i, slot) in proto.data.chunks(2).enumerate() {
        if slot[0] != 0 || slot[1] != 0 {
            found.push((i as u64 / 4, u16::from_le_bytes([slot[0], slot[1]])));
        }
    }
    assert_eq!(found, vec![(bucket, fingerprint)]);
    assert_ne!(fingerprint, 0);
}

#[test]
fn buckets_are_a_power_of_two_with_room() {
    for capacity in [0, 1, 4, 100, 1000, 250_000] {
        let buckets = bucket_count_for(capacity).unwrap();
        assert!(buckets.is_power_of_two());
        assert!(buckets as u128 * 4 * 95 >= capacity as u128 * 100);
    }
    assert_eq!(bucket_count_for(100), Some(32));
    assert_eq!(bucket_count_for(usize::MAX), None);
}

#[test]
fn filter_survives_the_wire() {
    let mut filter =
        CuckooFilter::with_capacity_and_hasher(500, YellowstoneHasherBuilder::new(42)).unwrap();
    for i in 0..500u32 {
        filter.insert(&i.to_le_bytes()).unwrap();
    }
    let proto = filter.to_proto();
    assert_eq!(proto.hash_seed, 42);
    assert_eq!(proto.entries_per_bucket, 4);
    assert_eq!(proto.fingerprint_bits, 16);
    let received = CuckooFilter::from_proto(&proto).unwrap();
    for i in 0..500u32 {
        assert!(received.contains(&i.to_le_bytes()));
    }
    assert_eq!(received.to_proto().data, proto.data);
}

#[test]
fn malformed_filter_is_refused() {
    let filter = CuckooFilter::with_capacity(10).unwrap();
    let mut proto = filter.to_proto();
    proto.data.pop();
    assert!(CuckooFilter::from_proto(&proto).is_none());
    let mut proto = filter.to_proto();
    proto.bucket_count += 1;
    assert!(CuckooFilter::from_proto(&proto).is_none());
}

#[test]
fn full_table_refuses_and_keeps_what_it_had() {
    let mut filter = CuckooFilter::with_capacity(4).unwrap();
    let mut kept: Vec<[u8; 4]> = Vec::new();
    let mut refused = false;
    for i in 0..1000u32 {
        match filter.insert(&i.to_le_bytes()) {
            Ok(()) => kept.push(i.to_le_bytes()),
            Err(TableFullError) => {
                refused = true;
                break;
            }
        }
    }
    assert!(refused);
    for item in &kept {
        assert!(filter.contains(item));
    }
}

#[test]
fn removing_a_key_spares_the_others() {
    let mut set = CompressedAccountFilterSet::with_capacity(300).unwrap();
    for i in 0..200u8 {
        set.insert(key(i)).unwrap();
    }
    for i in 0..100u8 {
        assert!(set.remove(key(i)));
    }
    let received = CuckooFilter::from_proto(&set.to_proto()).unwrap();
    for i in 100..200u8 {
        assert!(set.contains(key(i)));
        assert!(received.contains(&[i; 32]));
    }
    assert_eq!(set.len(), 100);
    let mut keys = set.iter();
    keys.sort();
    assert_eq!(keys, (100..200u8).map(|i| [i; 32]).collect::<Vec<_>>());
}

#[test]
fn capacity_holds_at_least_the_keys() {
    let mut set = CompressedAccountFilterSet::with_capacity(10).unwrap();
    for i in 0..10u8 {
        set.insert(key(i)).unwrap();
    }
    assert!(set.capacity() >= set.len());
}

#[test]
fn take_dirty_tells_once() {
    let mut set = CompressedAccountFilterSet::with_capacity(10).unwrap();
    assert!(!set.take_dirty());
    set.insert(key(1)).unwrap();
    assert!(set.take_dirty());
    assert!(!set.take_dirty());
    assert!(!set.remove(key(2)));
    assert!(!set.is_dirty());
    assert!(set.remove(key(1)));
    assert!(set.is_dirty());
}

#[test]
fn listed_keys_are_distinct_and_the_filter_is_readable() {
    let mut set = CompressedAccountFilterSet::with_capacity(50).unwrap();
    for n in 0..40 {
        set.insert(key(n)).unwrap();
        set.insert(key(n / 2)).unwrap();
    }
    let mut keys = set.iter();
    keys.sort();
    keys.dedup();
    assert_eq!(keys.len(), 40);
    assert_eq!(set.len(), 40);
    let filter = CuckooFilter::from_proto(&set.to_proto()).unwrap();
    for bytes in keys {
        assert!(filter.contains(&bytes));
    }
}
