use std::collections::VecDeque;
use std::sync::Arc;
use yellowstone_grpc::account_buffer::{AccountBuffer, BufferTask, WriteVersionTracker};
use yellowstone_grpc::geyser::SubscribeUpdateBlockMeta;
use yellowstone_grpc::keys::Pubkey;
use yellowstone_grpc::message::{
    Message, MessageAccount, MessageAccountInfo, MessageBlockMeta, MessageSlot,
    SlotStatus as MessageSlotStatus,
};
use yellowstone_grpc::timestamp::Timestamp;

struct TestHarness {
    task: BufferTask,
    out: VecDeque<Message>,
}

fn make_test_harness(threshold: usize) -> TestHarness {
    TestHarness {
        task: BufferTask::new(threshold),
        out: VecDeque::new(),
    }
}

impl TestHarness {
    fn send(&mut self, msg: Message) {
        assert!(self.task.accepts(&msg));
        self.out.extend(self.task.on_message(msg));
    }

    fn try_recv(&mut self) -> Option<Message> {
        self.out.pop_front()
    }
}

fn unique(n: u8) -> Pubkey {
    let mut bytes = [0; 32];
    bytes[31] = n;
    Pubkey::new_from_array(bytes)
}

fn make_account(pubkey: Pubkey, slot: u64, data_len: usize, write_version: u64) -> MessageAccount {
    MessageAccount {
        account: Arc::new(MessageAccountInfo {
            pubkey,
            lamports: 1,
            owner: Pubkey::default(),
            executable: false,
            rent_epoch: 0,
            data: vec![0u8; data_len],
            write_version,
            txn_signature: None,
            transaction_index: u64::MAX,
        }),
        slot,
        bank_id: None,
        is_startup: false,
        created_at: Timestamp::default(),
        sequence_number: 0,
    }
}

fn make_slot(slot: u64, status: MessageSlotStatus) -> Message {
    Message::Slot(MessageSlot {
        slot,
        parent: Some(slot - 1),
        status,
        dead_error: None,
        created_at: Timestamp::default(),
        sequence_number: 0,
    })
}

fn make_block_meta(slot: u64) -> Message {
    Message::BlockMeta(Arc::new(MessageBlockMeta::from_update_oneof(
        SubscribeUpdateBlockMeta {
            slot,
            ..Default::default()
        },
        Timestamp::default(),
    )))
}

#[test]
fn account_buffer_test_small_account_passes_through() {
    let mut h = make_test_harness(1000);
    h.send(Message::Account(make_account(unique(1), 1, 500, 1)));
    assert!(matches!(h.try_recv(), Some(Message::Account(_))));
}

#[test]
fn account_buffer_test_large_account_is_buffered() {
    let mut h = make_test_harness(1000);
    h.send(Message::Account(make_account(unique(1), 1, 2000, 1)));
    assert!(h.try_recv().is_none());
}

#[test]
fn account_buffer_test_dedup_keeps_highest_write_version() {
    let mut h = make_test_harness(1000);
    let pk = unique(1);

    // 3 unique write_versions for slot 1 → normalized to 1*10_000_000 + 1, +2, +3
    // Buffer keeps highest normalized version (10_000_003)
    h.send(Message::Account(make_account(pk, 1, 2000, 1)));
    h.send(Message::Account(make_account(pk, 1, 2000, 3)));
    h.send(Message::Account(make_account(pk, 1, 2000, 2)));
    h.send(make_block_meta(1));

    if let Some(Message::Account(account)) = h.try_recv() {
        assert_eq!(account.account.write_version, 10_000_003);
    } else {
        panic!("expected Account message");
    }
    assert!(matches!(h.try_recv(), Some(Message::BlockMeta(_))));
    assert!(h.try_recv().is_none());
}

#[test]
fn account_buffer_test_block_meta_flushes_slot() {
    let mut h = make_test_harness(1000);
    let pk1 = unique(1);
    let pk2 = unique(2);

    h.send(Message::Account(make_account(pk1, 1, 2000, 1)));
    h.send(Message::Account(make_account(pk2, 2, 2000, 1)));
    h.send(make_block_meta(1));

    if let Some(Message::Account(account)) = h.try_recv() {
        assert_eq!(account.slot, 1);
    } else {
        panic!("expected Account message");
    }
    assert!(matches!(h.try_recv(), Some(Message::BlockMeta(_))));
    assert!(h.try_recv().is_none());
}

#[test]
fn account_buffer_test_shrinking_account_evicts_stale_entry() {
    let mut h = make_test_harness(1000);
    let pk = unique(1);

    h.send(Message::Account(make_account(pk, 1, 2000, 1)));
    h.send(Message::Account(make_account(pk, 1, 500, 2)));

    if let Some(Message::Account(account)) = h.try_recv() {
        assert_eq!(account.account.data.len(), 500);
        // 2 unique write_versions seen → normalized to 1*10_000_000 + 2
        assert_eq!(account.account.write_version, 10_000_002);
    } else {
        panic!("expected Account message");
    }

    h.send(make_block_meta(1));

    assert!(matches!(h.try_recv(), Some(Message::BlockMeta(_))));
    assert!(h.try_recv().is_none());
}

#[test]
fn account_buffer_test_non_account_messages_pass_through() {
    let mut h = make_test_harness(1000);

    h.send(make_slot(1, MessageSlotStatus::Processed));

    assert!(matches!(h.try_recv(), Some(Message::Slot(_))));
}

#[test]
fn test_slot_processed_flushes_buffer() {
    let mut h = make_test_harness(1000);
    let pk1 = unique(1);
    let pk2 = unique(2);

    // Buffer large accounts in two different slots
    h.send(Message::Account(make_account(pk1, 1, 2000, 1)));
    h.send(Message::Account(make_account(pk2, 2, 2000, 1)));

    // Slot processed for slot 1 should flush only slot 1
    h.send(make_slot(1, MessageSlotStatus::Processed));

    if let Some(Message::Account(account)) = h.try_recv() {
        assert_eq!(account.slot, 1);
    } else {
        panic!("expected Account message for slot 1");
    }
    assert!(matches!(h.try_recv(), Some(Message::Slot(_))));
    // Slot 2 should still be buffered
    assert!(h.try_recv().is_none());
}

#[test]
fn test_slot_confirmed_does_not_flush_buffer() {
    let mut h = make_test_harness(1000);
    let pk = unique(1);

    h.send(Message::Account(make_account(pk, 1, 2000, 1)));

    // Confirmed status should NOT flush the buffer
    h.send(make_slot(1, MessageSlotStatus::Confirmed));

    // Only the slot message should pass through, not the buffered account
    if let Some(Message::Slot(slot_msg)) = h.try_recv() {
        assert_eq!(slot_msg.status, MessageSlotStatus::Confirmed);
    } else {
        panic!("expected Slot message");
    }
    assert!(h.try_recv().is_none());
}

#[test]
fn test_slot_processed_dedup_then_flush() {
    let mut h = make_test_harness(1000);
    let pk = unique(1);

    // Send multiple updates for the same account, buffer should keep highest write_version
    // 3 unique write_versions → normalized to 10_000_001, 10_000_002, 10_000_003
    h.send(Message::Account(make_account(pk, 1, 2000, 1)));
    h.send(Message::Account(make_account(pk, 1, 2000, 5)));
    h.send(Message::Account(make_account(pk, 1, 2000, 3)));

    // Flush via slot processed
    h.send(make_slot(1, MessageSlotStatus::Processed));

    if let Some(Message::Account(account)) = h.try_recv() {
        // Buffer keeps highest normalized write_version
        assert_eq!(account.account.write_version, 10_000_003);
    } else {
        panic!("expected Account message");
    }
    assert!(matches!(h.try_recv(), Some(Message::Slot(_))));
    assert!(h.try_recv().is_none());
}

#[test]
fn test_write_version_normalization() {
    let mut h = make_test_harness(1000);
    let pk1 = unique(1);
    let pk2 = unique(2);

    // pk1 gets 2 updates in slot 5, pk2 gets 1 update
    h.send(Message::Account(make_account(pk1, 5, 100, 100)));
    h.send(Message::Account(make_account(pk1, 5, 100, 200)));
    h.send(Message::Account(make_account(pk2, 5, 100, 300)));

    // pk1 first update: 5*10_000_000 + 1 = 50_000_001
    let msg1 = h.try_recv().unwrap();
    if let Message::Account(a) = msg1 {
        assert_eq!(a.account.pubkey, pk1);
        assert_eq!(a.account.write_version, 50_000_001);
    } else {
        panic!("expected Account");
    }

    // pk1 second update: 5*10_000_000 + 2 = 50_000_002
    let msg2 = h.try_recv().unwrap();
    if let Message::Account(a) = msg2 {
        assert_eq!(a.account.pubkey, pk1);
        assert_eq!(a.account.write_version, 50_000_002);
    } else {
        panic!("expected Account");
    }

    // pk2 first update: 5*10_000_000 + 1 = 50_000_001
    let msg3 = h.try_recv().unwrap();
    if let Message::Account(a) = msg3 {
        assert_eq!(a.account.pubkey, pk2);
        assert_eq!(a.account.write_version, 50_000_001);
    } else {
        panic!("expected Account");
    }
}

#[test]
fn test_finalized_slot_cleans_tracker() {
    let mut tracker = WriteVersionTracker::new();
    let pk = unique(1);

    // Simulate normalizing accounts in slots 1, 2, 3
    for slot in 1..=3 {
        let account = make_account(pk, slot, 100, 1);
        tracker.normalize(account);
    }
    assert_eq!(tracker.tracked_slots(), 3);

    // Finalize at slot 3 → slots 1, 2 pruned
    tracker.on_finalized(3);
    assert_eq!(tracker.tracked_slots(), 1);
    assert!(tracker.tracks(3));
}

#[test]
fn repeated_version_keeps_its_number() {
    let mut tracker = WriteVersionTracker::new();
    let pk = unique(1);
    let mut numbers = Vec::new();
    for version in [7, 9, 7, 9, 11] {
        let account = make_account(pk, 2, 10, version);
        let expected = tracker.normalized_version(&account);
        let counted = tracker.normalize(account);
        assert_eq!(expected, Some(counted.account.write_version));
        numbers.push(counted.account.write_version);
    }
    assert_eq!(
        numbers,
        vec![20_000_001, 20_000_002, 20_000_002, 20_000_002, 20_000_003]
    );
}

#[test]
fn nodes_with_other_numbering_agree() {
    let writes = [(1, 1, 100), (1, 2, 101), (1, 1, 102), (2, 1, 103), (1, 1, 100)];
    let run = |shift: u64| -> Vec<u64> {
        let mut tracker = WriteVersionTracker::new();
        writes
            .iter()
            .map(|(slot, k, version)| {
                tracker
                    .normalize(make_account(unique(*k), *slot, 1, version * 3 + shift))
                    .account
                    .write_version
            })
            .collect()
    };
    assert_eq!(run(0), run(5000));
}

#[test]
fn normalization_keeps_all_else() {
    let mut tracker = WriteVersionTracker::new();
    let mut account = make_account(unique(3), 4, 5, 6);
    account.bank_id = Some(8);
    account.sequence_number = 9;
    account.created_at = Timestamp { seconds: 1, nanos: 2 };
    let counted = tracker.normalize(account.clone());
    assert_eq!(counted.slot, 4);
    assert_eq!(counted.bank_id, Some(8));
    assert_eq!(counted.sequence_number, 9);
    assert_eq!(counted.created_at, account.created_at);
    assert_eq!(counted.account.data, account.account.data);
    assert_eq!(counted.account.pubkey, account.account.pubkey);
    assert_eq!(account.account.write_version, 6);
}

#[test]
fn number_that_does_not_fit_is_refused() {
    let tracker = WriteVersionTracker::new();
    let last = u64::MAX / 10_000_000;
    assert_eq!(
        tracker.normalized_version(&make_account(unique(1), last, 1, 1)),
        Some(last * 10_000_000 + 1)
    );
    assert_eq!(
        tracker.normalized_version(&make_account(unique(1), last + 1, 1, 1)),
        None
    );
    let task = BufferTask::new(10);
    assert!(!task.accepts(&Message::Account(make_account(unique(1), u64::MAX, 1, 1))));
    assert!(task.accepts(&make_block_meta(1)));
}

#[test]
fn tick_flushes_all_slots() {
    let mut h = make_test_harness(10);
    for slot in 1..=3 {
        for k in 1..=4 {
            h.send(Message::Account(make_account(unique(k), slot, 20, 1)));
        }
    }
    let mut seen: Vec<(u64, [u8; 32])> = h
        .task
        .on_tick()
        .into_iter()
        .map(|message| match message {
            Message::Account(account) => (account.slot, account.account.pubkey.to_bytes()),
            _ => panic!("expected Account message"),
        })
        .collect();
    seen.sort();
    let mut expected = Vec::new();
    for slot in 1..=3 {
        for k in 1..=4 {
            expected.push((slot, unique(k).to_bytes()));
        }
    }
    assert_eq!(seen, expected);
    assert!(h.task.on_tick().is_empty());
}

#[test]
fn buffer_entries_come_and_go() {
    let mut buffer = AccountBuffer::new();
    buffer.upsert(make_account(unique(1), 1, 10, 5));
    buffer.upsert(make_account(unique(1), 1, 20, 5));
    let kept = buffer.remove_entry(1, &unique(1)).unwrap();
    assert_eq!(kept.account.data.len(), 10);
    assert!(buffer.remove_entry(1, &unique(1)).is_none());
    assert!(buffer.drain_slot(1).is_empty());
    buffer.upsert(make_account(unique(1), 1, 10, 5));
    buffer.upsert(make_account(unique(2), 1, 10, 5));
    buffer.upsert(make_account(unique(1), 2, 10, 5));
    assert_eq!(buffer.drain_slot(1).len(), 2);
    assert_eq!(buffer.drain_all().len(), 1);
}

#[test]
fn later_slots_number_higher() {
    let mut tracker = WriteVersionTracker::new();
    let mut last = 0;
    for slot in 1..5 {
        for version in 0..50 {
            let number = tracker
                .normalize(make_account(unique(1), slot, 1, version))
                .account
                .write_version;
            assert!(number > last);
            last = number;
        }
    }
}

#[test]
fn latest_new_write_is_the_one_flushed() {
    let mut h = make_test_harness(10);
    // The node's own numbers go down; the last write still wins.
    for (version, data_len) in [(30, 11), (20, 12), (10, 13)] {
        h.send(Message::Account(make_account(unique(1), 3, data_len, version)));
    }
    // A repeated version does not replace the write that is held back.
    h.send(Message::Account(make_account(unique(1), 3, 14, 30)));
    h.send(make_block_meta(3));
    match h.try_recv() {
        Some(Message::Account(account)) => {
            assert_eq!(account.account.data.len(), 13);
            assert_eq!(account.account.write_version, 30_000_003);
        }
        _ => panic!("expected Account message"),
    }
    assert!(matches!(h.try_recv(), Some(Message::BlockMeta(_))));
}

#[test]
fn finalized_slot_passes_and_forgets_earlier_counts() {
    let mut h = make_test_harness(1000);
    h.send(Message::Account(make_account(unique(1), 1, 10, 7)));
    h.send(Message::Account(make_account(unique(1), 2, 10, 7)));
    h.send(make_slot(2, MessageSlotStatus::Finalized));
    h.send(Message::Account(make_account(unique(1), 1, 10, 8)));
    h.send(Message::Account(make_account(unique(1), 2, 10, 8)));
    let numbers: Vec<Option<u64>> = std::iter::from_fn(|| h.try_recv())
        .map(|message| match message {
            Message::Account(account) => Some(account.account.write_version),
            _ => None,
        })
        .collect();
    assert_eq!(
        numbers,
        vec![
            Some(10_000_001),
            Some(20_000_001),
            None,
            Some(10_000_001),
            Some(20_000_002)
        ]
    );
}

#[test]
fn held_account_goes_out_or_stays() {
    let mut h = make_test_harness(10);
    h.send(Message::Account(make_account(unique(1), 1, 20, 1)));
    h.send(make_slot(1, MessageSlotStatus::Confirmed));
    h.send(make_slot(2, MessageSlotStatus::Processed));
    h.send(make_block_meta(2));
    assert_eq!(h.out.len(), 3);
    h.send(make_slot(1, MessageSlotStatus::Processed));
    assert_eq!(h.out.len(), 5);
}

#[test]
fn every_account_of_a_slot_goes_out_before_its_end() {
    let mut h = make_test_harness(50);
    for n in 0..200u64 {
        let data_len = ((n * 37) % 100) as usize;
        h.send(Message::Account(make_account(
            unique((n % 17) as u8),
            1 + n % 3,
            data_len,
            n,
        )));
    }
    h.send(make_slot(2, MessageSlotStatus::Processed));
    let mut seen = std::collections::BTreeSet::new();
    let mut done = false;
    while let Some(message) = h.try_recv() {
        match message {
            Message::Account(account) => {
                if account.slot == 2 {
                    assert!(!done);
                    seen.insert(account.account.pubkey.to_bytes());
                }
            }
            Message::Slot(_) => done = true,
            _ => panic!("unexpected message"),
        }
    }
    assert!(done);
    assert_eq!(seen.len(), 17);
}

#[test]
fn earliest_of_equal_versions_is_kept() {
    let key = unique(9);
    let mut buffer = AccountBuffer::new();
    for (data_len, version) in [(1, 3), (2, 7), (3, 7), (4, 5), (5, 7)] {
        buffer.upsert(make_account(key, 1, data_len, version));
    }
    let kept = buffer.drain_slot(1);
    assert_eq!(kept.len(), 1);
    assert_eq!(kept[0].account.write_version, 7);
    assert_eq!(kept[0].account.data.len(), 2);
}
