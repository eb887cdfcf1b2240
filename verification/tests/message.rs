use std::sync::Arc;
use std::time::SystemTime;
use yellowstone_grpc::confirmed_block::{Transaction, TransactionMessage, TransactionStatusMeta};
use yellowstone_grpc::geyser::CommitmentLevel as CommitmentLevelProto;
use yellowstone_grpc::geyser::SlotStatus as SlotStatusProto;
use yellowstone_grpc::geyser::{SubscribeUpdateAccountInfo, SubscribeUpdateBlockMeta};
use yellowstone_grpc::geyser_plugin_interface::SlotStatus as GeyserSlotStatus;
use yellowstone_grpc::geyser_plugin_interface::{
    ReplicaAccountInfoV3, ReplicaEntryInfoV2, ReplicaTransactionInfoV2,
};
use yellowstone_grpc::keys::{BlockHash, Pubkey, Signature};
use yellowstone_grpc::message::{
    CommitmentLevel, Message, MessageAccount, MessageAccountInfo, MessageBlock, MessageBlockMeta,
    MessageEntry, MessageSlot, MessageTransaction, MessageTransactionInfo, SlotStatus,
};
use yellowstone_grpc::timestamp::Timestamp;

const STATUSES: [(SlotStatus, SlotStatusProto, &str); 7] = [
    (SlotStatus::Processed, SlotStatusProto::SlotProcessed, "processed"),
    (SlotStatus::Confirmed, SlotStatusProto::SlotConfirmed, "confirmed"),
    (SlotStatus::Finalized, SlotStatusProto::SlotFinalized, "finalized"),
    (
        SlotStatus::FirstShredReceived,
        SlotStatusProto::SlotFirstShredReceived,
        "first_shread_received",
    ),
    (SlotStatus::Completed, SlotStatusProto::SlotCompleted, "completed"),
    (SlotStatus::CreatedBank, SlotStatusProto::SlotCreatedBank, "created_bank"),
    (SlotStatus::Dead, SlotStatusProto::SlotDead, "dead"),
];

#[test]
fn slot_statuses_have_names_and_wire_forms() {
    for (status, proto, name) in STATUSES {
        assert_eq!(status.as_str(), name);
        assert_eq!(SlotStatusProto::from(status), proto);
        assert_eq!(SlotStatus::from(proto), status);
    }
}

#[test]
fn commitment_levels_have_names_and_wire_forms() {
    for (level, proto, name) in [
        (CommitmentLevel::Processed, CommitmentLevelProto::Processed, "processed"),
        (CommitmentLevel::Confirmed, CommitmentLevelProto::Confirmed, "confirmed"),
        (CommitmentLevel::Finalized, CommitmentLevelProto::Finalized, "finalized"),
    ] {
        assert_eq!(level.as_str(), name);
        assert_eq!(CommitmentLevelProto::from(level), proto);
        assert_eq!(CommitmentLevel::from(proto), level);
        for (status, _, status_name) in STATUSES {
            assert_eq!(level == status, name == status_name);
        }
    }
    assert!(CommitmentLevel::Processed < CommitmentLevel::Confirmed);
    assert!(CommitmentLevel::Confirmed < CommitmentLevel::Finalized);
}

#[test]
fn validator_statuses_become_ours() {
    let at = Timestamp { seconds: 3, nanos: 4 };
    for (status, expected) in [
        (GeyserSlotStatus::Processed, SlotStatus::Processed),
        (GeyserSlotStatus::Confirmed, SlotStatus::Confirmed),
        (GeyserSlotStatus::Rooted, SlotStatus::Finalized),
        (GeyserSlotStatus::FirstShredReceived, SlotStatus::FirstShredReceived),
        (GeyserSlotStatus::Completed, SlotStatus::Completed),
        (GeyserSlotStatus::CreatedBank, SlotStatus::CreatedBank),
    ] {
        let message = MessageSlot::from_geyser_at(5, Some(4), &status, 6, at);
        assert_eq!(
            message,
            MessageSlot {
                slot: 5,
                parent: Some(4),
                status: expected,
                dead_error: None,
                created_at: at,
                sequence_number: 6
            }
        );
    }
    let dead = GeyserSlotStatus::Dead("why".to_string());
    let message = MessageSlot::from_geyser_at(5, None, &dead, 6, at);
    assert_eq!(message.status, SlotStatus::Dead);
    assert_eq!(message.dead_error.as_deref(), Some("why"));
}

fn nanos(timestamp: Timestamp) -> i128 {
    timestamp.seconds as i128 * 1_000_000_000 + timestamp.nanos as i128
}

fn now() -> i128 {
    SystemTime::now()
        .duration_since(SystemTime::UNIX_EPOCH)
        .unwrap()
        .as_nanos() as i128
}

#[test]
fn messages_carry_the_time_they_were_made_at() {
    let before = now();
    let slot = MessageSlot::from_geyser(1, None, &GeyserSlotStatus::Processed, 0);
    let after = now();
    assert!(before <= nanos(slot.created_at) && nanos(slot.created_at) <= after);
    assert!(0 <= slot.created_at.nanos && slot.created_at.nanos < 1_000_000_000);
}

#[test]
fn elapsed_time_counts_seconds_and_nanos_apart() {
    let later = Timestamp { seconds: 10, nanos: 1 };
    let earlier = Timestamp { seconds: 7, nanos: 5 };
    assert_eq!(later.since(earlier), (3, -4));
}

fn update() -> SubscribeUpdateAccountInfo {
    SubscribeUpdateAccountInfo {
        pubkey: vec![1; 32],
        lamports: 2,
        owner: vec![3; 32],
        executable: true,
        rent_epoch: 4,
        data: vec![5, 6],
        write_version: 7,
        txn_signature: Some(vec![8; 64]),
        transaction_index: 9,
    }
}

#[test]
fn accounts_come_from_the_wire() {
    let account = MessageAccountInfo::from_update_oneof(update()).unwrap();
    assert_eq!(
        account,
        MessageAccountInfo {
            pubkey: Pubkey::new_from_array([1; 32]),
            lamports: 2,
            owner: Pubkey::new_from_array([3; 32]),
            executable: true,
            rent_epoch: 4,
            data: vec![5, 6],
            write_version: 7,
            txn_signature: Some(Signature::new_from_array([8; 64])),
            transaction_index: 9,
        }
    );
}

#[test]
fn accounts_of_the_wrong_width_are_refused() {
    let mut info = update();
    info.txn_signature = Some(vec![8; 63]);
    assert_eq!(
        MessageAccountInfo::from_update_oneof(info.clone()),
        Err("invalid signature length")
    );
    info.owner = vec![3; 33];
    assert_eq!(
        MessageAccountInfo::from_update_oneof(info.clone()),
        Err("invalid owner length")
    );
    info.pubkey = Vec::new();
    assert_eq!(
        MessageAccountInfo::from_update_oneof(info),
        Err("invalid pubkey length")
    );
}

fn transaction_info() -> MessageTransactionInfo {
    MessageTransactionInfo::from_geyser(
        ReplicaTransactionInfoV2 {
            signature: Signature::new_from_array([1; 64]),
            is_vote: false,
            account_keys: vec![Pubkey::new_from_array([9; 32])],
            transaction: Transaction {
                message: Some(TransactionMessage {
                    account_keys: vec![vec![1; 32], vec![2; 32]],
                }),
                stored: vec![1],
            },
            transaction_status_meta: TransactionStatusMeta {
                loaded_writable_addresses: vec![vec![2; 32], vec![3; 32]],
                loaded_readonly_addresses: vec![vec![4; 32]],
                stored: vec![2],
            },
            index: 3,
        },
        5,
    )
}

#[test]
fn account_keys_are_filled_from_all_parts() {
    let mut info = transaction_info();
    assert_eq!(info.account_keys.len(), 1);
    info.fill_account_keys().unwrap();
    assert_eq!(info.account_keys.len(), 4);
    for n in 1..=4 {
        assert!(info.account_keys.contains(&Pubkey::new_from_array([n; 32])));
    }
    assert!(!info.account_keys.contains(&Pubkey::new_from_array([9; 32])));
}

#[test]
fn account_keys_stay_where_one_is_none() {
    for part in 0..3 {
        let mut info = transaction_info();
        let bad = vec![1; 31];
        match part {
            0 => info.transaction.message.as_mut().unwrap().account_keys.push(bad),
            1 => info.meta.loaded_writable_addresses.push(bad),
            _ => info.meta.loaded_readonly_addresses.push(bad),
        }
        assert_eq!(info.fill_account_keys(), Err("invalid pubkey length"));
        assert_eq!(info.account_keys.len(), 1);
        assert!(info.account_keys.contains(&Pubkey::new_from_array([9; 32])));
    }
}

fn all_messages() -> Vec<(Message, &'static str)> {
    let at = |nanos| Timestamp { seconds: 0, nanos };
    let key = [1; 32];
    let account = MessageAccount::from_geyser_at(
        &ReplicaAccountInfoV3 {
            pubkey: &key,
            lamports: 0,
            owner: &key,
            executable: false,
            rent_epoch: 0,
            data: &[],
            write_version: 0,
            txn: None,
        },
        12,
        false,
        22,
        at(32),
    );
    let entry = MessageEntry::from_geyser_at(
        &ReplicaEntryInfoV2 {
            slot: 14,
            index: 0,
            num_hashes: 1,
            hash: &key,
            executed_transaction_count: 2,
            starting_transaction_index: 3,
        },
        24,
        at(34),
    );
    assert_eq!(entry.hash, BlockHash::new_from_array(key));
    let mut meta = MessageBlockMeta::from_update_oneof(
        SubscribeUpdateBlockMeta {
            slot: 15,
            ..Default::default()
        },
        at(35),
    );
    assert_eq!(meta.sequence_number, 0);
    meta.sequence_number = 25;
    assert_eq!(meta.slot(), 15);
    assert_eq!(meta.entries_count, 0);
    meta.entries_count = 3;
    assert_eq!(meta.block_meta.entries_count, 3);
    let transaction = MessageTransaction {
        transaction: Arc::new(MessageTransactionInfo {
            sequence_number: 23,
            ..transaction_info()
        }),
        slot: 13,
        created_at: at(33),
    };
    let mut block_meta = meta.clone();
    block_meta.block_meta.slot = 16;
    block_meta.sequence_number = 26;
    let block = MessageBlock::new_at(
        Arc::new(block_meta),
        vec![transaction.transaction.clone()],
        vec![account.account.clone(), account.account.clone()],
        vec![Arc::new(entry)],
        at(36),
    );
    assert_eq!(block.updated_account_count, 2);
    vec![
        (
            Message::Slot(MessageSlot::from_geyser_at(
                11,
                None,
                &GeyserSlotStatus::Processed,
                21,
                at(31),
            )),
            "slot",
        ),
        (Message::Account(account), "account"),
        (Message::Transaction(transaction), "transaction"),
        (Message::Entry(Arc::new(entry)), "entry"),
        (Message::BlockMeta(Arc::new(meta)), "block_meta"),
        (Message::Block(Arc::new(block)), "block"),
    ]
}

#[test]
fn messages_tell_slot_number_time_and_kind() {
    for (i, (message, kind)) in all_messages().iter().enumerate() {
        let i = i as u64;
        assert_eq!(message.get_slot(), 11 + i);
        assert_eq!(message.get_sequence_number(), 21 + i);
        assert_eq!(message.created_at().nanos, 31 + i as i32);
        assert_eq!(message.kind_name(), *kind);
    }
}

#[test]
fn messages_are_compared_by_what_they_hold() {
    let messages: Vec<Message> = all_messages().into_iter().map(|(message, _)| message).collect();
    for (i, a) in messages.iter().enumerate() {
        for (j, b) in messages.iter().enumerate() {
            assert_eq!(a == &b.clone(), i == j);
        }
    }
    let mut info = transaction_info();
    let same = transaction_info();
    assert_eq!(info, same);
    info.fill_account_keys().unwrap();
    assert_ne!(info, same);
    assert_eq!(info.clone().account_keys, info.account_keys);
}

#[test]
fn keys_have_their_width() {
    assert!(Pubkey::try_from_slice(&[1; 31]).is_none());
    assert!(Pubkey::try_from_slice(&[1; 33]).is_none());
    assert_eq!(
        Pubkey::try_from_slice(&[1; 32]),
        Some(Pubkey::new_from_array([1; 32]))
    );
    assert_ne!(Pubkey::default(), Pubkey::new_from_array([1; 32]));
    assert!(Signature::try_from_slice(&[1; 63]).is_none());
    assert_eq!(
        Signature::try_from_slice(&[2; 64]).unwrap().to_bytes(),
        [2; 64]
    );
    assert!(BlockHash::try_from_slice(&[]).is_none());
}
