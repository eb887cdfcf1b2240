use std::sync::Arc;
use yellowstone_grpc::confirmed_block::{Transaction, TransactionStatusMeta};
use yellowstone_grpc::forward::{forward_message, note_of, SendNote, Target};
use yellowstone_grpc::geyser::SubscribeUpdateBlockMeta;
use yellowstone_grpc::geyser_plugin_interface::SlotStatus as GeyserSlotStatus;
use yellowstone_grpc::geyser_plugin_interface::{
    ReplicaAccountInfoV3, ReplicaAccountInfoVersions, ReplicaBlockInfoV4, ReplicaBlockInfoVersions,
    ReplicaEntryInfoV2, ReplicaEntryInfoVersions, ReplicaTransactionInfoV2,
    ReplicaTransactionInfoV3, ReplicaTransactionInfoVersions, RewardsAndNumPartitions,
};
use yellowstone_grpc::keys::{BlockHash, Pubkey, Signature};
use yellowstone_grpc::message::{
    Message, MessageAccount, MessageAccountInfo, MessageBlockMeta, MessageSlot, SlotStatus,
};
use yellowstone_grpc::clickhouse_sink::config::ClickhouseConfig;
use yellowstone_grpc::plugin::{
    next_load_action, AccountBufferConfig, Config, Delivery, LoadAction, LoadFailure, LoadStep,
    Plugin, PluginBufferTask, PluginInner, SnapshotNote, UnloadStep,
};
use yellowstone_grpc::timestamp::Timestamp;

struct Inner {
    inner: PluginInner,
    task: Option<PluginBufferTask>,
    out: Vec<Message>,
}

fn make_test_inner(threshold: Option<usize>) -> Inner {
    Inner {
        inner: PluginInner {
            snapshot_channel: false,
            snapshot_channel_closed: false,
            buffering: threshold.is_some(),
        },
        task: threshold.map(PluginBufferTask::new),
        out: Vec::new(),
    }
}

impl Inner {
    fn send_message(&mut self, message: Message) {
        match self.inner.send_message(message) {
            Delivery::Buffer(message) => {
                self.out.extend(self.task.as_mut().unwrap().on_message(message));
            }
            Delivery::Direct(message) => self.out.push(message),
            _ => panic!("unexpected delivery"),
        }
    }

    fn try_recv(&mut self) -> Option<Message> {
        if self.out.is_empty() {
            None
        } else {
            Some(self.out.remove(0))
        }
    }
}

fn unique(n: u8) -> Pubkey {
    Pubkey::new_from_array([n; 32])
}

fn make_account(pubkey: Pubkey, slot: u64, data_len: usize, write_version: u64) -> MessageAccount {
    MessageAccount {
        account: Arc::new(MessageAccountInfo {
            pubkey,
            lamports: 1,
            owner: Pubkey::default(),
            executable: false,
            rent_epoch: 0,
            data: vec![0u8; data_len],
            write_version,
            txn_signature: None,
            transaction_index: u64::MAX,
        }),
        slot,
        bank_id: None,
        is_startup: false,
        created_at: Timestamp::default(),
        sequence_number: 0,
    }
}

fn make_block_meta(slot: u64) -> Message {
    Message::BlockMeta(Arc::new(MessageBlockMeta::from_update_oneof(
        SubscribeUpdateBlockMeta {
            slot,
            ..Default::default()
        },
        Timestamp::default(),
    )))
}

#[test]
fn plugin_test_small_account_passes_through() {
    let mut inner = make_test_inner(Some(1000));
    inner.send_message(Message::Account(make_account(unique(1), 1, 500, 1)));

    let msg = inner.try_recv().unwrap();
    assert!(matches!(msg, Message::Account(_)));
}

#[test]
fn plugin_test_large_account_is_buffered() {
    let mut inner = make_test_inner(Some(1000));
    inner.send_message(Message::Account(make_account(unique(1), 1, 2000, 1)));

    // Large account should be buffered, not forwarded yet
    assert!(inner.try_recv().is_none());
}

#[test]
fn plugin_test_dedup_keeps_highest_write_version() {
    let mut inner = make_test_inner(Some(1000));
    let pk = unique(1);

    inner.send_message(Message::Account(make_account(pk, 1, 2000, 1)));
    inner.send_message(Message::Account(make_account(pk, 1, 2000, 3)));
    inner.send_message(Message::Account(make_account(pk, 1, 2000, 2)));

    // Flush via BlockMeta
    inner.send_message(make_block_meta(1));

    // Should get one account (highest write_version) then block_meta
    if let Some(Message::Account(account)) = inner.try_recv() {
        assert_eq!(account.account.write_version, 3);
    } else {
        panic!("expected Account message");
    }
    assert!(matches!(inner.try_recv(), Some(Message::BlockMeta(_))));
    assert!(inner.try_recv().is_none());
}

#[test]
fn plugin_test_block_meta_flushes_slot() {
    let mut inner = make_test_inner(Some(1000));
    let pk1 = unique(1);
    let pk2 = unique(2);

    // Buffer accounts for two different slots
    inner.send_message(Message::Account(make_account(pk1, 1, 2000, 1)));
    inner.send_message(Message::Account(make_account(pk2, 2, 2000, 1)));

    // BlockMeta for slot 1 should only flush slot 1
    inner.send_message(make_block_meta(1));

    // Should get: Account(slot=1), BlockMeta(slot=1)
    if let Some(Message::Account(account)) = inner.try_recv() {
        assert_eq!(account.slot, 1);
    } else {
        panic!("expected Account message");
    }
    assert!(matches!(inner.try_recv(), Some(Message::BlockMeta(_))));
    // Slot 2 still buffered
    assert!(inner.try_recv().is_none());
}

#[test]
fn plugin_test_shrinking_account_evicts_stale_entry() {
    let mut inner = make_test_inner(Some(1000));
    let pk = unique(1);

    // Large account gets buffered
    inner.send_message(Message::Account(make_account(pk, 1, 2000, 1)));
    // Same account shrinks below threshold — should evict and forward
    inner.send_message(Message::Account(make_account(pk, 1, 500, 2)));

    // Small account should have been forwarded
    if let Some(Message::Account(account)) = inner.try_recv() {
        assert_eq!(account.account.data.len(), 500);
        assert_eq!(account.account.write_version, 2);
    } else {
        panic!("expected Account message");
    }

    // Flush via BlockMeta — nothing should come out (stale entry was evicted)
    inner.send_message(make_block_meta(1));

    assert!(matches!(inner.try_recv(), Some(Message::BlockMeta(_))));
    assert!(inner.try_recv().is_none());
}

#[test]
fn test_no_buffering_when_disabled() {
    let mut inner = make_test_inner(None);
    inner.send_message(Message::Account(make_account(unique(1), 1, 999999, 1)));

    // Without buffering, goes straight to grpc_channel
    let msg = inner.try_recv().unwrap();
    assert!(matches!(msg, Message::Account(_)));
}

#[test]
fn plugin_test_non_account_messages_pass_through() {
    let mut inner = make_test_inner(Some(1000));

    inner.send_message(Message::Slot(MessageSlot {
        slot: 1,
        parent: Some(0),
        status: SlotStatus::Processed,
        dead_error: None,
        created_at: Timestamp::default(),
        sequence_number: 0,
    }));

    assert!(matches!(inner.try_recv(), Some(Message::Slot(_))));
}

#[test]
fn processed_slot_does_not_flush_the_plain_buffer() {
    let mut inner = make_test_inner(Some(10));
    inner.send_message(Message::Account(make_account(unique(1), 1, 20, 1)));
    inner.send_message(Message::Slot(MessageSlot {
        slot: 1,
        parent: Some(0),
        status: SlotStatus::Processed,
        dead_error: None,
        created_at: Timestamp::default(),
        sequence_number: 0,
    }));
    assert!(matches!(inner.try_recv(), Some(Message::Slot(_))));
    assert!(inner.try_recv().is_none());
    assert_eq!(inner.task.as_mut().unwrap().on_tick().len(), 1);
}

#[test]
fn startup_accounts_pass_the_plain_buffer() {
    let mut inner = make_test_inner(Some(10));
    let mut account = make_account(unique(1), 1, 2000, 1);
    account.is_startup = true;
    inner.send_message(Message::Account(account));
    assert!(matches!(inner.try_recv(), Some(Message::Account(_))));
}

#[test]
fn raw_clients_come_before_grpc() {
    assert_eq!(
        forward_message(Some(&[3, 1, 2])),
        vec![
            Target::RawClient(3),
            Target::RawClient(1),
            Target::RawClient(2),
            Target::Grpc
        ]
    );
    assert_eq!(forward_message(None), vec![Target::Grpc]);
    assert_eq!(
        note_of(Target::RawClient(4), false),
        SendNote::RawClientDisconnected(4)
    );
    assert_eq!(note_of(Target::RawClient(4), true), SendNote::Nothing);
    assert_eq!(note_of(Target::Grpc, true), SendNote::QueueGrew);
    assert_eq!(note_of(Target::Grpc, false), SendNote::Nothing);
}

fn config(buffer: Option<AccountBufferConfig>) -> Config {
    Config {
        log_level: "info".to_string(),
        worker_threads: Some(4),
        affinity: None,
        clickhouse: None,
        debug_clients_http: true,
        account_buffer: buffer,
    }
}

#[test]
fn load_steps_follow_the_config() {
    let buffer = AccountBufferConfig {
        size_threshold: 1000,
        flush_interval_ms: 50,
    };
    assert_eq!(
        config(Some(buffer)).list_load_steps(true),
        vec![
            LoadStep::SetupLogger,
            LoadStep::SetWorkerThreads(4),
            LoadStep::BuildRuntime,
            LoadStep::CreateGrpc {
                debug_clients: true,
                is_reload: true
            },
            LoadStep::StartPrometheus {
                debug_clients: true
            },
            LoadStep::SpawnBufferTask(buffer),
        ]
    );
    let mut other = config(None);
    other.worker_threads = None;
    other.affinity = Some(vec![0, 1]);
    other.debug_clients_http = false;
    assert_eq!(
        other.list_load_steps(false),
        vec![
            LoadStep::SetupLogger,
            LoadStep::PinThreads,
            LoadStep::BuildRuntime,
            LoadStep::CreateGrpc {
                debug_clients: false,
                is_reload: false
            },
            LoadStep::StartPrometheus {
                debug_clients: false
            },
        ]
    );
}

#[test]
fn loading_stops_at_the_first_step_that_fails() {
    let mut config = config(Some(AccountBufferConfig {
        size_threshold: 1,
        flush_interval_ms: 1,
    }));
    config.clickhouse = Some(ClickhouseConfig {
        url: "http://localhost".to_string(),
        user: "default".to_string(),
        password: String::new(),
        database: "default".to_string(),
        env: None,
        host: None,
    });
    let steps = config.list_load_steps(false);
    for (index, step) in steps.iter().enumerate() {
        let next = match steps.get(index + 1) {
            Some(next) => LoadAction::Take(*next),
            None => LoadAction::Done,
        };
        assert_eq!(next_load_action(&steps, index, true), next);
        let failed = match step {
            LoadStep::BuildRuntime
            | LoadStep::CreateGrpc { .. }
            | LoadStep::StartPrometheus { .. } => LoadAction::Stop(*step),
            _ => LoadAction::Abort(*step),
        };
        assert_eq!(next_load_action(&steps, index, false), failed);
    }
    assert!(steps.contains(&LoadStep::InitClickhouse));
}

#[test]
fn failed_load_changes_nothing() {
    for failure in [
        LoadFailure::Config,
        LoadFailure::Step(LoadStep::BuildRuntime),
        LoadFailure::Step(LoadStep::StartPrometheus {
            debug_clients: false,
        }),
    ] {
        let mut plugin = Plugin::default();
        assert_eq!(plugin.on_load(Err(failure)), Err(failure));
        assert_eq!(plugin.inner, None);
        plugin.on_load(Ok((&config(None), true))).unwrap();
        let before = plugin;
        assert_eq!(plugin.on_load(Err(failure)), Err(failure));
        assert_eq!(plugin, before);
    }
}

#[test]
fn unloading_takes_the_plugin_down_once() {
    let mut plugin = Plugin::default();
    assert!(plugin.on_unload().is_empty());
    plugin.on_load(Ok((&config(None), true))).unwrap();
    assert_eq!(
        plugin.inner,
        Some(PluginInner {
            snapshot_channel: true,
            snapshot_channel_closed: false,
            buffering: false
        })
    );
    assert_eq!(
        plugin.on_unload(),
        vec![
            UnloadStep::NotifyGrpcShutdown,
            UnloadStep::DropBufferChannel,
            UnloadStep::DropGrpcChannel,
            UnloadStep::ShutdownPrometheus,
            UnloadStep::ShutdownRuntime(30),
        ]
    );
    assert!(plugin.on_unload().is_empty());
}

#[test]
fn startup_accounts_go_to_the_snapshot() {
    let key = [5; 32];
    let owner = [6; 32];
    let info = ReplicaAccountInfoVersions::V0_0_3(ReplicaAccountInfoV3 {
        pubkey: &key,
        lamports: 7,
        owner: &owner,
        executable: true,
        rent_epoch: 8,
        data: &[1, 2, 3],
        write_version: 9,
        txn: Some(Signature::new_from_array([4; 64])),
    });
    let mut plugin = Plugin::default();
    plugin.on_load(Ok((&config(None), true))).unwrap();
    match plugin.update_account(info, 11, true, 12) {
        Delivery::Snapshot(Message::Account(news)) => {
            assert!(news.is_startup);
            assert_eq!(news.slot, 11);
            assert_eq!(news.sequence_number, 12);
            assert_eq!(news.account.pubkey.to_bytes(), key);
            assert_eq!(news.account.owner.to_bytes(), owner);
            assert_eq!(news.account.data, vec![1, 2, 3]);
            assert_eq!(news.account.lamports, 7);
            assert!(news.account.executable);
            assert_eq!(news.account.rent_epoch, 8);
            assert_eq!(news.account.write_version, 9);
            assert_eq!(
                news.account.txn_signature.unwrap().to_bytes(),
                [4; 64]
            );
        }
        _ => panic!("expected a snapshot message"),
    }
    plugin.notify_end_of_startup();
    assert!(matches!(
        plugin.update_account(info, 11, true, 12),
        Delivery::Nothing
    ));
    assert!(matches!(
        plugin.update_account(info, 11, false, 12),
        Delivery::Direct(Message::Account(_))
    ));
}

#[test]
fn closed_snapshot_channel_is_told_once() {
    let mut inner = make_test_inner(None).inner;
    assert_eq!(inner.on_snapshot_sent(true), SnapshotNote::QueueGrew);
    assert_eq!(inner.on_snapshot_sent(false), SnapshotNote::ChannelClosed);
    assert_eq!(inner.on_snapshot_sent(false), SnapshotNote::Nothing);
    assert!(inner.snapshot_channel_closed);
}

#[test]
fn notifications_become_messages() {
    let mut plugin = Plugin::default();
    let buffer = AccountBufferConfig {
        size_threshold: 1,
        flush_interval_ms: 1,
    };
    plugin.on_load(Ok((&config(Some(buffer)), false))).unwrap();
    match plugin.update_slot_status(3, Some(2), &GeyserSlotStatus::Rooted, 1) {
        Delivery::Buffer(Message::Slot(news)) => {
            assert_eq!(news.slot, 3);
            assert_eq!(news.status, SlotStatus::Finalized);
        }
        _ => panic!("expected a slot"),
    }
    let hash = [9; 32];
    let entry = ReplicaEntryInfoVersions::V0_0_2(ReplicaEntryInfoV2 {
        slot: 3,
        index: 4,
        num_hashes: 5,
        hash: &hash,
        executed_transaction_count: 6,
        starting_transaction_index: 7,
    });
    match plugin.notify_entry(entry, 2) {
        Delivery::Buffer(Message::Entry(news)) => {
            assert_eq!(news.hash, BlockHash::new_from_array(hash));
            assert_eq!(news.starting_transaction_index, 7);
            assert_eq!(news.index, 4);
        }
        _ => panic!("expected an entry"),
    }
    let transaction = || Transaction {
        message: None,
        stored: vec![1],
    };
    let meta = || TransactionStatusMeta {
        loaded_writable_addresses: Vec::new(),
        loaded_readonly_addresses: Vec::new(),
        stored: vec![2],
    };
    let v2 = ReplicaTransactionInfoVersions::V0_0_2(ReplicaTransactionInfoV2 {
        signature: Signature::new_from_array([1; 64]),
        is_vote: true,
        account_keys: vec![unique(1), unique(2), unique(1)],
        transaction: transaction(),
        transaction_status_meta: meta(),
        index: 5,
    });
    match plugin.notify_transaction(v2, 8, 3) {
        Delivery::Buffer(Message::Transaction(news)) => {
            assert_eq!(news.slot, 8);
            assert_eq!(news.transaction.account_keys.len(), 2);
            assert!(news.transaction.account_keys.contains(&unique(2)));
            assert!(!news.transaction.account_keys.contains(&unique(3)));
            assert_eq!(news.transaction.sequence_number, 3);
        }
        _ => panic!("expected a transaction"),
    }
    let v3 = ReplicaTransactionInfoVersions::V0_0_3(ReplicaTransactionInfoV3 {
        signature: Signature::new_from_array([1; 64]),
        message_hash: BlockHash::new_from_array([2; 32]),
        is_vote: false,
        account_keys: vec![unique(4)],
        transaction: transaction(),
        transaction_status_meta: meta(),
        index: 6,
    });
    match plugin.notify_transaction(v3, 9, 4) {
        Delivery::Buffer(Message::Transaction(news)) => {
            assert!(!news.transaction.is_vote);
            assert!(news.transaction.account_keys.contains(&unique(4)));
            assert_eq!(news.transaction.index, 6);
        }
        _ => panic!("expected a transaction"),
    }
    let block = ReplicaBlockInfoVersions::V0_0_4(ReplicaBlockInfoV4 {
        parent_slot: 1,
        parent_blockhash: "p".to_string(),
        slot: 2,
        blockhash: "b".to_string(),
        rewards: RewardsAndNumPartitions {
            rewards: Vec::new(),
            num_partitions: Some(3),
        },
        block_time: Some(4),
        block_height: None,
        executed_transaction_count: 5,
        entry_count: 6,
    });
    match plugin.notify_block_metadata(block, 7) {
        Delivery::Buffer(Message::BlockMeta(news)) => {
            assert_eq!(news.block_meta.parent_slot, 1);
            assert_eq!(news.block_meta.slot, 2);
            assert_eq!(news.block_meta.parent_blockhash, "p");
            assert_eq!(news.block_meta.blockhash, "b");
            assert_eq!(news.block_meta.block_time.unwrap().timestamp, 4);
            assert_eq!(news.block_meta.block_height, None);
            let rewards = news.block_meta.rewards.as_ref().unwrap();
            assert_eq!(rewards.num_partitions.unwrap().num_partitions, 3);
            assert_eq!(news.block_meta.entries_count, 6);
            assert_eq!(news.sequence_number, 7);
        }
        _ => panic!("expected a block description"),
    }
    assert!(plugin.account_data_notifications_enabled());
    assert!(!plugin.account_data_snapshot_notifications_enabled());
    assert!(plugin.transaction_notifications_enabled());
    assert!(plugin.entry_notifications_enabled());
}

#[test]
fn plain_buffer_keeps_the_highest_version_of_a_series() {
    let mut inner = make_test_inner(Some(10));
    for version in [5, 9, 3, 9, 7] {
        inner.send_message(Message::Account(make_account(
            unique(1),
            4,
            10 + version as usize,
            version,
        )));
    }
    inner.send_message(make_block_meta(5));
    assert!(matches!(inner.try_recv(), Some(Message::BlockMeta(_))));
    inner.send_message(make_block_meta(4));
    match inner.try_recv() {
        Some(Message::Account(account)) => assert_eq!(account.account.write_version, 9),
        _ => panic!("expected Account message"),
    }
    assert!(matches!(inner.try_recv(), Some(Message::BlockMeta(_))));
}
