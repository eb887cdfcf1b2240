use yellowstone_grpc::key_map::KeyMap;
use yellowstone_grpc::keys::Pubkey;
use yellowstone_grpc::latency::{print_statistics, sorted, LatencyStats, LatencySummary};
use yellowstone_grpc::timestamp::Timestamp;

#[test]
fn nothing_measured_tells_nothing() {
    assert_eq!(print_statistics(&LatencyStats::new()), None);
}

#[test]
fn summary_of_a_hundred() {
    let stats = LatencyStats {
        latencies: (1..=100u128).rev().collect(),
        total_messages: 100,
    };
    assert!(stats.is_summable());
    assert_eq!(
        print_statistics(&stats),
        Some(LatencySummary {
            average: 50,
            min: 1,
            p50: 51,
            p90: 91,
            p95: 96,
            p99: 100,
            max: 100,
        })
    );
}

#[test]
fn summary_of_one() {
    let stats = LatencyStats {
        latencies: vec![7],
        total_messages: 1,
    };
    assert_eq!(
        print_statistics(&stats),
        Some(LatencySummary {
            average: 7,
            min: 7,
            p50: 7,
            p90: 7,
            p95: 7,
            p99: 7,
            max: 7,
        })
    );
}

#[test]
fn sums_that_are_too_long_are_found() {
    let longest = u64::MAX as u128 * 1_000_000_000 + 999_999_999;
    let mut stats = LatencyStats {
        latencies: vec![longest],
        total_messages: 1,
    };
    assert!(stats.is_summable());
    stats.latencies.push(1);
    assert!(!stats.is_summable());
    stats.latencies = vec![u128::MAX, u128::MAX];
    assert!(!stats.is_summable());
}

#[test]
fn lists_are_sorted() {
    let list: Vec<u128> = (0..1000).map(|i: u128| i * 7919 % 1009).collect();
    let mut expected = list.clone();
    expected.sort();
    assert_eq!(sorted(&list), expected);
    assert!(sorted(&Vec::new()).is_empty());
}

#[test]
fn latencies_are_measured_from_when_messages_were_made() {
    let mut stats = LatencyStats::new();
    let created = Timestamp {
        seconds: 2,
        nanos: 5,
    };
    assert!(!stats.on_message(Some(created), 2_000_000_105));
    assert!(!stats.on_message(Some(created), 2_000_000_004));
    assert!(!stats.on_message(None, 2_000_000_105));
    // Negative nanoseconds lie centuries ahead.
    let ahead = Timestamp {
        seconds: 2,
        nanos: -1,
    };
    assert!(!stats.on_message(Some(ahead), 2_000_000_105));
    assert_eq!(stats.latencies, vec![100]);
    assert_eq!(stats.total_messages, 4);
    assert!(!stats.on_message(Some(ahead), 2_000_000_000 + u64::MAX as u128 + 7));
    assert_eq!(stats.latencies, vec![100, 7]);
    stats.total_messages = 999;
    assert!(stats.on_message(None, 0));
}

#[test]
fn key_map_holds_what_it_was_given() {
    // Keys that share their leading bytes, and keys that do not.
    let key = |n: u8| {
        let mut bytes = [n % 3; 32];
        bytes[31] = n;
        Pubkey::new_from_array(bytes)
    };
    let mut map: KeyMap<u8> = KeyMap::new();
    assert!(map.is_empty());
    for n in 0..60 {
        map.insert(key(n), n);
    }
    map.insert(key(5), 105);
    assert_eq!(map.len(), 60);
    assert_eq!(map.get(&key(5)), Some(&105));
    assert_eq!(map.remove(&key(5)), Some(105));
    assert_eq!(map.remove(&key(5)), None);
    for n in (0..60).filter(|n| *n != 5) {
        assert!(map.contains_key(&key(n)));
        assert_eq!(map.get(&key(n)), Some(&n));
    }
    assert_eq!(map.keys().len(), 59);
    let mut values = map.into_values();
    values.sort();
    assert_eq!(values, (0..60).filter(|n| *n != 5).collect::<Vec<u8>>());
}

#[test]
fn key_map_makes_room_for_what_can_be_counted() {
    let mut map: KeyMap<u8> = KeyMap::new();
    map.insert(Pubkey::new_from_array([1; 32]), 1);
    assert!(map.try_reserve(0));
    assert!(map.try_reserve(100));
    assert!(map.capacity() >= 101);
    assert!(!map.try_reserve(usize::MAX));
    assert_eq!(map.len(), 1);
    assert_eq!(map.get(&Pubkey::new_from_array([1; 32])), Some(&1));
}
