use prost::bytes::Buf;
use prost::encoding::{decode_key, skip_field, DecodeContext, WireType};
use prost::Message as ProstMessage;
use std::sync::Arc;
use yellowstone_grpc::account_index::AccountIndex;
use yellowstone_grpc::account_transaction_index::{
    AccountTransactionIndex, ReservedTransactionIndex,
};
use yellowstone_grpc::confirmed_block::{
    BlockHeight, NumPartitions, Reward, Rewards, Transaction, TransactionStatusMeta, UnixTimestamp,
};
use yellowstone_grpc::filtered::{raw_update, FilteredUpdate, FilteredUpdateOneof};
use yellowstone_grpc::geyser::{
    SlotStatus as SlotStatusProto, SubscribeUpdate, SubscribeUpdateAccount,
    SubscribeUpdateAccountInfo, SubscribeUpdateBlock, SubscribeUpdateBlockMeta,
    SubscribeUpdateEntry, SubscribeUpdateSlot, SubscribeUpdateTransaction,
    SubscribeUpdateTransactionInfo, UpdateOneof,
};
use yellowstone_grpc::geyser_plugin_interface::ReplicaAccountInfoV3;
use yellowstone_grpc::key_map::KeySet;
use yellowstone_grpc::keys::{BlockHash, Signature};
use yellowstone_grpc::message::{
    Message, MessageAccount, MessageAccountInfo, MessageBlockMeta, MessageEntry, MessageSlot,
    MessageTransaction, MessageTransactionInfo, SlotStatus,
};
use yellowstone_grpc::timestamp::Timestamp;
use yellowstone_grpc::wire::{read_varint, write_varint, DecodeError};

fn decode(wire: &[u8]) -> AccountIndex {
    SubscribeUpdateAccountInfo::decode(wire)
        .unwrap()
        .account_index()
}

#[test]
fn account_index() {
    assert_eq!(decode(&[]), AccountIndex::Transaction(0));
    assert_eq!(decode(&[0x80, 0x02, 0]), AccountIndex::Transaction(0));
    assert_eq!(decode(&[0x80, 0x02, 42]), AccountIndex::Transaction(42));
    assert_eq!(
        decode(&[0x80, 0x02, 255, 255, 255, 255, 255, 255, 255, 255, 255, 1]),
        AccountIndex::NoTransaction
    );
}

#[test]
fn native_v3_write_has_no_transaction() {
    let info = ReplicaAccountInfoV3 {
        pubkey: &[1; 32],
        lamports: 1,
        owner: &[2; 32],
        executable: false,
        rent_epoch: 0,
        data: &[],
        write_version: 1,
        txn: None,
    };
    let account = MessageAccountInfo::from_geyser(&info);
    assert_eq!(
        AccountIndex::from_wire(account.transaction_index),
        AccountIndex::NoTransaction
    );
}

#[test]
fn account_index_manual_encoder_parity() {
    for transaction_index in [0, 42, u64::MAX, u64::MAX - 1] {
        let account = MessageAccountInfo::from_update_oneof(SubscribeUpdateAccountInfo {
            pubkey: vec![1; 32],
            owner: vec![2; 32],
            transaction_index,

            ..Default::default()
        })
        .unwrap();
        let message = MessageAccount {
            bank_id: None,
            account: Arc::new(account),
            slot: 42,
            is_startup: false,
            created_at: Default::default(),
            sequence_number: 0,
        };
        let filtered = FilteredUpdate::new_empty(FilteredUpdateOneof::Account(message));
        let expected = filtered.as_subscribe_update();
        assert_eq!(filtered.encode_to_vec(), expected.encode_to_vec());
        assert_eq!(filtered.encoded_len(), expected.encoded_len());
        let decoded = SubscribeUpdate::decode(filtered.encode_to_vec().as_slice()).unwrap();
        let Some(UpdateOneof::Account(update)) = decoded.update_oneof else {
            panic!("account expected")
        };
        let account = update.account.unwrap();
        assert_eq!(account.transaction_index, transaction_index);
    }
}

#[test]
fn scalar32_independent_wire_and_legacy_schema() {
    // Independent bytes for the first eight fields, then field 32.
    let old = vec![
        0x0a, 1, 1, 0x10, 7, 0x1a, 1, 2, 0x20, 1, 0x28, 8, 0x32, 1, 3, 0x38, 9, 0x42, 1, 4,
    ];
    for (suffix, value) in [
        (vec![], 0),
        (vec![0x80, 2, 0], 0),
        (vec![0x80, 2, 42], 42),
        (
            vec![0x80, 2, 255, 255, 255, 255, 255, 255, 255, 255, 255, 1],
            u64::MAX,
        ),
        (
            vec![0x80, 2, 254, 255, 255, 255, 255, 255, 255, 255, 255, 1],
            u64::MAX - 1,
        ),
    ] {
        let info = [old.clone(), suffix].concat();
        let expected = if value == u64::MAX {
            AccountTransactionIndex::NoTransaction
        } else {
            AccountTransactionIndex::Transaction(value)
        };
        assert_eq!(AccountTransactionIndex::from_wire(value), expected);
        let raw = SubscribeUpdateAccountInfo::decode(info.as_slice()).unwrap();
        assert_eq!(raw.account_transaction_index(), expected);
        assert_eq!(raw.transaction_index, value);
        for block in [false, true] {
            let inner = [
                vec![if block { 0x5a } else { 0x0a }, info.len() as u8],
                info.clone(),
            ]
            .concat();
            let wire = [
                vec![if block { 0x2a } else { 0x12 }, inner.len() as u8],
                inner,
            ]
            .concat();
            let decoded = SubscribeUpdate::decode(wire.as_slice()).unwrap();
            let account = match decoded.update_oneof.unwrap() {
                UpdateOneof::Account(a) => a.account.unwrap(),
                UpdateOneof::Block(b) => b.accounts[0].clone(),
                _ => panic!("wrong update"),
            };
            assert_eq!(account.account_transaction_index(), expected);
            let legacy = LegacyAccount::decode(account.encode_to_vec().as_slice());
            assert_eq!(legacy.encode_to_vec(), old);
            let roundtrip =
                SubscribeUpdateAccountInfo::decode(account.encode_to_vec().as_slice()).unwrap();
            assert_eq!(roundtrip, account);
        }
    }
}

// The account without the transaction index: all other fields with their tags.
#[derive(Default)]
struct LegacyAccount {
    pubkey: Vec<u8>,
    lamports: u64,
    owner: Vec<u8>,
    executable: bool,
    rent_epoch: u64,
    data: Vec<u8>,
    write_version: u64,
    txn_signature: Option<Vec<u8>>,
}

impl LegacyAccount {
    fn decode(mut wire: &[u8]) -> Self {
        let mut account = LegacyAccount::default();
        while wire.has_remaining() {
            let (tag, wire_type) = decode_key(&mut wire).unwrap();
            let ctx = DecodeContext::default();
            let buf = &mut wire;
            match tag {
                1 => prost::encoding::bytes::merge(wire_type, &mut account.pubkey, buf, ctx),
                2 => prost::encoding::uint64::merge(wire_type, &mut account.lamports, buf, ctx),
                3 => prost::encoding::bytes::merge(wire_type, &mut account.owner, buf, ctx),
                4 => prost::encoding::bool::merge(wire_type, &mut account.executable, buf, ctx),
                5 => prost::encoding::uint64::merge(wire_type, &mut account.rent_epoch, buf, ctx),
                6 => prost::encoding::bytes::merge(wire_type, &mut account.data, buf, ctx),
                7 => {
                    prost::encoding::uint64::merge(wire_type, &mut account.write_version, buf, ctx)
                }
                8 => prost::encoding::bytes::merge(
                    wire_type,
                    account.txn_signature.get_or_insert_with(Vec::new),
                    buf,
                    ctx,
                ),
                _ => skip_field(wire_type, tag, buf, ctx),
            }
            .unwrap();
        }
        account
    }

    fn encode_to_vec(&self) -> Vec<u8> {
        let mut out = Vec::new();
        prost::encoding::bytes::encode(1, &self.pubkey, &mut out);
        prost::encoding::uint64::encode(2, &self.lamports, &mut out);
        prost::encoding::bytes::encode(3, &self.owner, &mut out);
        prost::encoding::bool::encode(4, &self.executable, &mut out);
        prost::encoding::uint64::encode(5, &self.rent_epoch, &mut out);
        prost::encoding::bytes::encode(6, &self.data, &mut out);
        prost::encoding::uint64::encode(7, &self.write_version, &mut out);
        if let Some(signature) = &self.txn_signature {
            prost::encoding::bytes::encode(8, signature, &mut out);
        }
        out
    }
}

#[test]
fn varints_are_written_as_everywhere() {
    for value in [0, 1, 127, 128, 300, 16383, 16384, u32::MAX as u64, u64::MAX - 1, u64::MAX] {
        let mut expected = Vec::new();
        prost::encoding::encode_varint(value, &mut expected);
        let mut bytes = Vec::new();
        write_varint(&mut bytes, value);
        assert_eq!(bytes, expected);
        assert_eq!(read_varint(&bytes, 0), Ok((value, bytes.len())));
    }
}

#[test]
fn varints_that_are_none() {
    let cases: [&[u8]; 4] = [
        &[],
        &[0x80],
        &[255, 255, 255, 255, 255, 255, 255, 255, 255, 2],
        &[255, 255, 255, 255, 255, 255, 255, 255, 255, 255, 1],
    ];
    for case in cases {
        assert_eq!(read_varint(case, 0), Err(DecodeError::InvalidVarint));
        let mut buf = case;
        assert!(prost::encoding::decode_varint(&mut buf).is_err());
    }
}

fn group(tag: u32, inner: &[u8]) -> Vec<u8> {
    let mut out = Vec::new();
    prost::encoding::encode_key(tag, WireType::StartGroup, &mut out);
    out.extend_from_slice(inner);
    prost::encoding::encode_key(tag, WireType::EndGroup, &mut out);
    out
}

#[test]
fn unknown_fields_are_skipped_as_everywhere() {
    let mut nested = Vec::new();
    for _ in 0..99 {
        nested = group(20, &nested);
    }
    let deep = group(20, &nested);
    let mut cases: Vec<Vec<u8>> = vec![
        // varint, eight bytes, four bytes, byte string
        vec![0xa0, 1, 5],
        vec![0xa1, 1, 1, 2, 3, 4, 5, 6, 7, 8],
        vec![0xa5, 1, 1, 2, 3, 4],
        vec![0xa2, 1, 3, 7, 7, 7],
        group(20, &[]),
        group(20, &[0xa8, 1, 5, 0xb2, 1, 2, 9, 9]),
        nested,
        deep.clone(),
        group(20, &deep),
        // cut off
        vec![0xa1, 1, 1, 2, 3],
        vec![0xa5, 1, 1, 2, 3],
        vec![0xa2, 1, 3, 7, 7],
        vec![0xa3, 1],
        vec![0xa3, 1, 0xa8],
        // a group that ends under another tag, or did not begin
        vec![0xa3, 1, 0xac, 1],
        vec![0xa4, 1],
        // keys that are none: wire types six and seven, tag zero, more than 32 bits
        vec![0xa6, 1, 0],
        vec![0xa7, 1, 0],
        vec![0x00, 0],
        vec![0x80, 0x80, 0x80, 0x80, 0x10, 0],
    ];
    cases.push(cases.concat());
    for case in cases {
        let expected = prost_types::Timestamp::decode(case.as_slice());
        let result = SubscribeUpdateAccountInfo::decode(&case);
        assert_eq!(result.is_ok(), expected.is_ok(), "{case:?}");
        if let Ok(info) = result {
            assert_eq!(info, SubscribeUpdateAccountInfo::default());
        }
    }
}

#[test]
fn each_decode_error_has_its_input() {
    let error = |wire: &[u8]| SubscribeUpdateAccountInfo::decode(wire).unwrap_err();
    assert_eq!(error(&[0x80]), DecodeError::InvalidVarint);
    assert_eq!(
        error(&[0x80, 0x80, 0x80, 0x80, 0x10, 0]),
        DecodeError::InvalidKey
    );
    assert_eq!(error(&[0x0e, 0]), DecodeError::InvalidWireType);
    assert_eq!(error(&[0x00, 0]), DecodeError::InvalidTag);
    assert_eq!(error(&[0x08, 0]), DecodeError::WireTypeMismatch);
    assert_eq!(error(&[0x0a, 2, 1]), DecodeError::BufferUnderflow);
    assert_eq!(error(&[0xa4, 1]), DecodeError::UnexpectedEndGroup);
    let mut nested = Vec::new();
    for _ in 0..101 {
        nested = group(20, &nested);
    }
    assert_eq!(error(&nested), DecodeError::RecursionLimit);
}

#[test]
fn last_value_of_a_field_counts() {
    let info = SubscribeUpdateAccountInfo::decode(&[0x10, 1, 0x0a, 1, 5, 0x10, 2, 0x0a, 2, 6, 7])
        .unwrap();
    assert_eq!(info.lamports, 2);
    assert_eq!(info.pubkey, vec![6, 7]);
}

#[test]
fn updates_of_one_kind_are_merged_and_of_another_replaced() {
    // account update with slot 9, then one whose account has lamports 3
    let first = [0x12, 2, 0x10, 9];
    let second = [0x12, 4, 0x0a, 2, 0x10, 3];
    let merged = SubscribeUpdate::decode(&[first.as_slice(), &second].concat()).unwrap();
    assert_eq!(
        merged.update_oneof,
        Some(UpdateOneof::Account(SubscribeUpdateAccount {
            account: Some(SubscribeUpdateAccountInfo {
                lamports: 3,
                ..Default::default()
            }),
            slot: 9,
            is_startup: false,
        }))
    );
    let block = [0x2a, 4, 0x5a, 2, 0x10, 3];
    let replaced = SubscribeUpdate::decode(&[first.as_slice(), &block].concat()).unwrap();
    assert_eq!(
        replaced.update_oneof,
        Some(UpdateOneof::Block(SubscribeUpdateBlock {
            accounts: vec![SubscribeUpdateAccountInfo {
                lamports: 3,
                ..Default::default()
            }],
        }))
    );
}

fn entry_update() -> SubscribeUpdateEntry {
    SubscribeUpdateEntry {
        slot: 1,
        index: 2,
        num_hashes: 3,
        hash: vec![4; 32],
        executed_transaction_count: 5,
        starting_transaction_index: 0,
    }
}

fn block_meta() -> SubscribeUpdateBlockMeta {
    SubscribeUpdateBlockMeta {
        slot: 10,
        blockhash: "hash".to_string(),
        rewards: Some(Rewards {
            rewards: vec![
                Reward {
                    pubkey: "one".to_string(),
                    lamports: -5,
                    post_balance: 6,
                    reward_type: 4,
                    commission: "7".to_string(),
                },
                Reward {
                    pubkey: String::new(),
                    lamports: 0,
                    post_balance: 0,
                    reward_type: 0,
                    commission: String::new(),
                },
            ],
            num_partitions: Some(NumPartitions { num_partitions: 8 }),
        }),
        block_time: Some(UnixTimestamp { timestamp: -9 }),
        block_height: Some(BlockHeight { block_height: 0 }),
        parent_slot: 11,
        parent_blockhash: "parent".to_string(),
        executed_transaction_count: 12,
        entries_count: 13,
    }
}

fn message_field(tag: u32, inner: &[u8], out: &mut Vec<u8>) {
    prost::encoding::bytes::encode(tag, &inner.to_vec(), out);
}

fn update(update_oneof: UpdateOneof) -> SubscribeUpdate {
    SubscribeUpdate {
        filters: Vec::new(),
        update_oneof: Some(update_oneof),
        created_at: None,
    }
}

#[test]
fn updates_are_written_as_everywhere() {
    let mut slot = Vec::new();
    prost::encoding::uint64::encode(1, &5, &mut slot);
    prost::encoding::uint64::encode(2, &4, &mut slot);
    prost::encoding::int32::encode(3, &2, &mut slot);
    prost::encoding::string::encode(4, &"dead".to_string(), &mut slot);
    let mut expected = Vec::new();
    message_field(3, &slot, &mut expected);
    assert_eq!(
        update(UpdateOneof::Slot(SubscribeUpdateSlot {
            slot: 5,
            parent: Some(4),
            status: 2,
            dead_error: Some("dead".to_string()),
        }))
        .encode_to_vec(),
        expected
    );

    let mut info = Vec::new();
    prost::encoding::bytes::encode(1, &vec![1u8; 64], &mut info);
    prost::encoding::bool::encode(2, &true, &mut info);
    message_field(3, &[0x0a, 1, 7], &mut info);
    message_field(4, &[], &mut info);
    prost::encoding::uint64::encode(5, &9, &mut info);
    let mut transaction = Vec::new();
    message_field(1, &info, &mut transaction);
    prost::encoding::uint64::encode(2, &8, &mut transaction);
    let mut expected = Vec::new();
    message_field(4, &transaction, &mut expected);
    assert_eq!(
        update(UpdateOneof::Transaction(SubscribeUpdateTransaction {
            transaction: Some(SubscribeUpdateTransactionInfo {
                signature: vec![1; 64],
                is_vote: true,
                transaction: Some(vec![0x0a, 1, 7]),
                meta: Some(vec![]),
                index: 9,
            }),
            slot: 8,
        }))
        .encode_to_vec(),
        expected
    );

    let mut entry = Vec::new();
    prost::encoding::uint64::encode(1, &1, &mut entry);
    prost::encoding::uint64::encode(2, &2, &mut entry);
    prost::encoding::uint64::encode(3, &3, &mut entry);
    prost::encoding::bytes::encode(4, &vec![4u8; 32], &mut entry);
    prost::encoding::uint64::encode(5, &5, &mut entry);
    let mut expected = Vec::new();
    message_field(8, &entry, &mut expected);
    assert_eq!(
        update(UpdateOneof::Entry(entry_update())).encode_to_vec(),
        expected
    );

    let mut reward = Vec::new();
    prost::encoding::string::encode(1, &"one".to_string(), &mut reward);
    prost::encoding::int64::encode(2, &-5, &mut reward);
    prost::encoding::uint64::encode(3, &6, &mut reward);
    prost::encoding::int32::encode(4, &4, &mut reward);
    prost::encoding::string::encode(5, &"7".to_string(), &mut reward);
    let mut partitions = Vec::new();
    prost::encoding::uint64::encode(1, &8, &mut partitions);
    let mut rewards = Vec::new();
    message_field(1, &reward, &mut rewards);
    message_field(1, &[], &mut rewards);
    message_field(2, &partitions, &mut rewards);
    let mut block_time = Vec::new();
    prost::encoding::int64::encode(1, &-9, &mut block_time);
    let mut meta = Vec::new();
    prost::encoding::uint64::encode(1, &10, &mut meta);
    prost::encoding::string::encode(2, &"hash".to_string(), &mut meta);
    message_field(3, &rewards, &mut meta);
    message_field(4, &block_time, &mut meta);
    message_field(5, &[], &mut meta);
    prost::encoding::uint64::encode(6, &11, &mut meta);
    prost::encoding::string::encode(7, &"parent".to_string(), &mut meta);
    prost::encoding::uint64::encode(8, &12, &mut meta);
    prost::encoding::uint64::encode(9, &13, &mut meta);
    let mut expected = Vec::new();
    message_field(7, &meta, &mut expected);
    assert_eq!(
        update(UpdateOneof::BlockMeta(block_meta())).encode_to_vec(),
        expected
    );
}

#[test]
fn updates_carry_their_filters_and_their_time() {
    for (seconds, nanos) in [(0, 0), (1_700_000_000, 5), (-1, -1), (i64::MIN, i32::MIN)] {
        let update = SubscribeUpdate {
            filters: vec!["a".to_string(), String::new()],
            update_oneof: None,
            created_at: Some(Timestamp { seconds, nanos }),
        };
        let time = prost_types::Timestamp { seconds, nanos };
        let mut expected = Vec::new();
        prost::encoding::string::encode_repeated(1, &update.filters, &mut expected);
        prost::encoding::message::encode(11, &time, &mut expected);
        assert_eq!(update.encode_to_vec(), expected);
        assert_eq!(SubscribeUpdate::decode(&expected).unwrap(), update);
    }
}

#[test]
fn texts_are_utf8() {
    let mut name = "n\u{e4}me \u{1f600}".as_bytes().to_vec();
    let mut wire = Vec::new();
    prost::encoding::bytes::encode(1, &name, &mut wire);
    let update = SubscribeUpdate::decode(&wire).unwrap();
    assert_eq!(update.filters, vec!["n\u{e4}me \u{1f600}".to_string()]);
    name.pop();
    wire.clear();
    prost::encoding::bytes::encode(1, &name, &mut wire);
    assert_eq!(
        SubscribeUpdate::decode(&wire),
        Err(DecodeError::InvalidUtf8)
    );
}

#[test]
fn raw_updates_of_every_kind_survive_the_wire() {
    let at = |seconds| Timestamp { seconds, nanos: 7 };
    let transaction = MessageTransaction {
        transaction: Arc::new(MessageTransactionInfo {
            signature: Signature::new_from_array([3; 64]),
            is_vote: true,
            transaction: Transaction {
                message: None,
                stored: vec![0x0a, 1, 7],
            },
            meta: TransactionStatusMeta {
                loaded_writable_addresses: Vec::new(),
                loaded_readonly_addresses: Vec::new(),
                stored: vec![0x10, 5],
            },
            index: 4,
            account_keys: KeySet::new(),
            sequence_number: 0,
        }),
        slot: 12,
        created_at: at(2),
    };
    let entry = MessageEntry {
        slot: 1,
        index: 2,
        num_hashes: 3,
        hash: BlockHash::new_from_array([4; 32]),
        executed_transaction_count: 5,
        starting_transaction_index: 0,
        created_at: at(3),
        sequence_number: 0,
    };
    let slot = MessageSlot {
        slot: 9,
        parent: None,
        status: SlotStatus::Completed,
        dead_error: None,
        created_at: at(1),
        sequence_number: 0,
    };
    let cases = [
        (
            Message::Slot(slot),
            UpdateOneof::Slot(SubscribeUpdateSlot {
                slot: 9,
                parent: None,
                status: 4,
                dead_error: None,
            }),
        ),
        (
            Message::Transaction(transaction),
            UpdateOneof::Transaction(SubscribeUpdateTransaction {
                transaction: Some(SubscribeUpdateTransactionInfo {
                    signature: vec![3; 64],
                    is_vote: true,
                    transaction: Some(vec![0x0a, 1, 7]),
                    meta: Some(vec![0x10, 5]),
                    index: 4,
                }),
                slot: 12,
            }),
        ),
        (
            Message::Entry(Arc::new(entry)),
            UpdateOneof::Entry(entry_update()),
        ),
        (
            Message::BlockMeta(Arc::new(MessageBlockMeta::from_update_oneof(
                block_meta(),
                at(4),
            ))),
            UpdateOneof::BlockMeta(block_meta()),
        ),
    ];
    for (message, told) in cases {
        let created_at = message.created_at();
        let update = raw_update(message);
        assert_eq!(update.created_at, created_at);
        let expected = SubscribeUpdate {
            filters: Vec::new(),
            update_oneof: Some(told),
            created_at: Some(created_at),
        };
        assert_eq!(update.as_subscribe_update(), expected);
        assert_eq!(update.encode_to_vec(), expected.encode_to_vec());
        assert_eq!(update.encoded_len(), update.encode_to_vec().len());
        assert_eq!(
            SubscribeUpdate::decode(&update.encode_to_vec()).unwrap(),
            expected
        );
    }
}

#[test]
fn slot_statuses_have_their_numbers() {
    for (number, status) in [
        SlotStatusProto::SlotProcessed,
        SlotStatusProto::SlotConfirmed,
        SlotStatusProto::SlotFinalized,
        SlotStatusProto::SlotFirstShredReceived,
        SlotStatusProto::SlotCompleted,
        SlotStatusProto::SlotCreatedBank,
        SlotStatusProto::SlotDead,
    ]
    .into_iter()
    .enumerate()
    {
        assert_eq!(status.number(), number as i32);
    }
}

fn sample(n: u8) -> SubscribeUpdateAccountInfo {
    SubscribeUpdateAccountInfo {
        pubkey: vec![n; 32],
        lamports: n as u64 * 1000,
        owner: vec![n + 1; 32],
        executable: n % 2 == 1,
        rent_epoch: u64::MAX,
        data: vec![n; 300],
        write_version: n as u64,
        txn_signature: if n == 0 { None } else { Some(vec![]) },
        transaction_index: n as u64,
    }
}

#[test]
fn updates_survive_the_wire() {
    for update_oneof in [
        None,
        Some(UpdateOneof::Account(SubscribeUpdateAccount {
            account: Some(sample(1)),
            slot: 77,
            is_startup: true,
        })),
        Some(UpdateOneof::Account(SubscribeUpdateAccount {
            account: None,
            slot: 0,
            is_startup: false,
        })),
        Some(UpdateOneof::Block(SubscribeUpdateBlock {
            accounts: vec![sample(0), sample(2), sample(3)],
        })),
        Some(UpdateOneof::Slot(SubscribeUpdateSlot {
            slot: 5,
            parent: Some(0),
            status: 6,
            dead_error: Some(String::new()),
        })),
        Some(UpdateOneof::Transaction(SubscribeUpdateTransaction {
            transaction: Some(SubscribeUpdateTransactionInfo {
                signature: vec![1; 64],
                is_vote: true,
                transaction: Some(vec![0x0a, 1, 7]),
                meta: Some(vec![]),
                index: 3,
            }),
            slot: 8,
        })),
        Some(UpdateOneof::Entry(entry_update())),
        Some(UpdateOneof::BlockMeta(block_meta())),
    ] {
        let update = SubscribeUpdate {
            filters: vec!["one".to_string(), String::new(), "zw\u{f6}lf".to_string()],
            update_oneof,
            created_at: Some(Timestamp {
                seconds: -1,
                nanos: 999_999_999,
            }),
        };
        assert_eq!(
            SubscribeUpdate::decode(&update.encode_to_vec()).unwrap(),
            update
        );
    }
}

#[test]
fn origin_setter_refuses_the_reserved_index() {
    let mut info = sample(4);
    let before = info.clone();
    assert_eq!(
        info.set_account_transaction_index(AccountTransactionIndex::Transaction(u64::MAX)),
        Err(ReservedTransactionIndex)
    );
    assert_eq!(info, before);
    assert_eq!(
        ReservedTransactionIndex.message(),
        "transaction index is reserved for NoTransaction"
    );
    info.set_account_transaction_index(AccountTransactionIndex::NoTransaction)
        .unwrap();
    assert_eq!(info.transaction_index, u64::MAX);
    info.set_account_transaction_index(AccountTransactionIndex::Transaction(u64::MAX - 1))
        .unwrap();
    assert_eq!(
        info.account_transaction_index(),
        AccountTransactionIndex::Transaction(u64::MAX - 1)
    );
    assert_eq!(
        AccountTransactionIndex::Transaction(u64::MAX).to_wire(),
        u64::MAX
    );
}

#[test]
fn raw_update_carries_the_message() {
    let account = MessageAccountInfo::from_update_oneof(SubscribeUpdateAccountInfo {
        txn_signature: Some(vec![7; 64]),
        ..sample(5)
    })
    .unwrap();
    assert_eq!(account.txn_signature, Some(Signature::new_from_array([7; 64])));
    let message = MessageAccount {
        bank_id: None,
        account: Arc::new(account),
        slot: 6,
        is_startup: true,
        created_at: Default::default(),
        sequence_number: 0,
    };
    let update = raw_update(Message::Account(message));
    assert!(update.filters.is_empty());
    assert_eq!(update.created_at, Timestamp::default());
    let Some(UpdateOneof::Account(update)) = update.as_subscribe_update().update_oneof else {
        panic!("account expected")
    };
    assert_eq!(update.slot, 6);
    assert!(update.is_startup);
    let written = update.account.unwrap();
    assert_eq!(
        written,
        SubscribeUpdateAccountInfo {
            txn_signature: Some(vec![7; 64]),
            ..sample(5)
        }
    );
    assert!(MessageAccountInfo::from_update_oneof(written).is_ok());
}

#[test]
fn fields_of_later_producers_change_nothing() {
    let info = sample(6);
    let mut bytes = info.encode_to_vec();
    prost::encoding::uint64::encode(100, &7, &mut bytes);
    prost::encoding::bytes::encode(31, &vec![1, 2], &mut bytes);
    assert_eq!(SubscribeUpdateAccountInfo::decode(&bytes).unwrap(), info);
}

#[test]
fn both_views_of_an_origin_agree() {
    for value in [0, 1, 42, u64::MAX - 1, u64::MAX] {
        let same = match AccountTransactionIndex::from_wire(value) {
            AccountTransactionIndex::Transaction(index) => AccountIndex::Transaction(index),
            AccountTransactionIndex::NoTransaction => AccountIndex::NoTransaction,
        };
        assert_eq!(AccountIndex::from_wire(value), same);
        assert_eq!(AccountTransactionIndex::from_wire(value).to_wire(), value);
    }
}
