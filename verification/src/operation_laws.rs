//! What calls promise, told by what goes in and what comes out.

use crate::account_buffer::{held_of, seen, AccountBuffer, BufferTask, WriteVersionTracker};
use crate::account_codec::{fits_wire, law_account_round_trip};
use crate::account_transaction_index::{AccountTransactionIndex, ReservedTransactionIndex};
use crate::buffer_laws::{
    is_account_but_for_its_version, is_held_alike, law_final_slot_forgets_those_before,
    law_large_account_waits, law_other_news_moves_nothing, law_plain_large_account_waits,
    law_plain_news_passes, law_plain_small_account_passes_at_once, law_slot_is_let_go,
    law_small_account_passes_at_once,
};
use crate::clickhouse_sink::config::{default_database, default_user, ClickhouseConfig};
use crate::clickhouse_sink::event::{
    json_is_object, json_strings, json_text, record_with_time, Event, EventContext, EventRow,
    RecordStep,
};
use crate::clickhouse_sink::sink::{FlushPlan, Flushable, Sink};
use crate::cuckoo::error::{CuckooBuildError, TableFullError};
use crate::cuckoo::filter::{
    bucket_count_for, bucket_from_hash, fingerprint_from_hash, is_inserted, is_removed,
    law_insert_keeps_matches, partner_from_hash, CuckooFilter,
};
use crate::cuckoo::hasher::YellowstoneHasherBuilder;
use crate::cuckoo::model::is_bucket_count;
use crate::cuckoo::set::CompressedAccountFilterSet;
use crate::filtered::{FilteredUpdate, FilteredUpdateOneof};
use crate::geyser::{
    AccountInfoView, CuckooFilter as ProtoCuckooFilter, SubscribeRequest,
    SubscribeRequestFilterAccounts, SubscribeUpdate, SubscribeUpdateAccountInfo, UpdateOneof,
    UpdateView,
};
use crate::geyser_plugin_interface::{
    ReplicaAccountInfoVersions, ReplicaBlockInfoVersions, ReplicaEntryInfoVersions,
    ReplicaTransactionInfoVersions, SlotStatus as GeyserSlotStatus,
};
use crate::grpc::{
    disabled, subscribe_raw_reply, text_of, ClientCommand, ClientRegistry, CommandOutcome,
    ConfigGrpc, GrpcService, ServerOption, ServerSetup, Status,
};
use crate::key_map::{KeyMap, KeySet};
use crate::keys::Pubkey;
use crate::latency::{ascends, print_statistics, summary_of, LatencyStats, LatencySummary};
use crate::message::{
    Message, MessageAccount, MessageAccountInfo, MessageBlock, MessageBlockMeta, MessageEntry,
    MessageTransactionInfo, MessageView,
};
use crate::monitor::run_forced_disconnection_monitor;
use crate::plugin::{
    Config, Delivery, LoadFailure, Plugin, PluginBufferTask, PluginInner, SnapshotNote, UnloadStep,
};
use crate::preprocessed::{SubscribePreprocessedRequest, Subscriber};
use crate::simulation::Simulation;
use crate::timestamp::Timestamp;
use crate::update_codec::{fits_update, law_update_round_trip};
use crate::wire::{decoded, DecodeError};
use std::sync::Arc;
use vstd::prelude::*;

verus! {

/// A buffer task sends an account that is shorter than its threshold on at once, with nothing
/// changed but its version, and keeps one that is not.
pub proof fn law_task_sends_small_accounts_on(
    task: &mut BufferTask,
    account: MessageAccount,
    out: Vec<Message>,
)
    requires
        call_ensures(BufferTask::on_message, (task, Message::Account(account)), out),
    ensures
        final(task).threshold() == old(task).threshold(),
        account.account.data@.len() < old(task).threshold() ==> {
            &&& out@.len() == 1
            &&& out@[0] matches Message::Account(sent) && is_account_but_for_its_version(
                sent@,
                account,
            )
            &&& account.slot * 10_000_000 + seen(
                final(task)@.versions,
                account.slot,
                account.account.pubkey@,
            ).len() <= u64::MAX ==> (out@[0] matches Message::Account(sent)
                && sent.account.write_version == account.slot * 10_000_000 + seen(
                final(task)@.versions,
                account.slot,
                account.account.pubkey@,
            ).len())
            &&& !held_of(final(task)@.held, account.slot).contains_key(account.account.pubkey@)
        },
        account.account.data@.len() >= old(task).threshold() ==> out@.len() == 0 && held_of(
            final(task)@.held,
            account.slot,
        ).contains_key(account.account.pubkey@),
        forall|slot: u64, key: Seq<u8>|
            slot != account.slot || key != account.account.pubkey@ ==> is_held_alike(
                old(task)@.held,
                final(task)@.held,
                slot,
                key,
            ),
        seen(final(task)@.versions, account.slot, account.account.pubkey@) == seen(
            old(task)@.versions,
            account.slot,
            account.account.pubkey@,
        ).insert(account.account.write_version),
{
    let views = crate::account_buffer::message_views(out@);
    assert(views.len() == out@.len());
    if account.account.data@.len() < old(task).threshold() {
        law_small_account_passes_at_once(
            old(task)@,
            old(task).threshold(),
            account,
            final(task)@,
            views,
        );
        assert(views[0] == out@[0]@);
    } else {
        law_large_account_waits(
            old(task)@,
            old(task).threshold(),
            account,
            final(task)@,
            views,
        );
    }
}

/// A buffer task that does not number writes anew sends an account that is shorter than its
/// threshold or loaded at startup on at once and as it came, and keeps any other.
pub proof fn law_plain_task_sends_small_accounts_on(
    task: &mut PluginBufferTask,
    account: MessageAccount,
    out: Vec<Message>,
)
    requires
        call_ensures(PluginBufferTask::on_message, (task, Message::Account(account)), out),
    ensures
        final(task).threshold() == old(task).threshold(),
        account.is_startup || account.account.data@.len() < old(task).threshold() ==> {
            &&& out@.len() == 1
            &&& out@[0] matches Message::Account(sent) && sent@ == account@
            &&& !account.is_startup ==> !held_of(final(task)@, account.slot).contains_key(
                account.account.pubkey@,
            )
        },
        !account.is_startup && account.account.data@.len() >= old(task).threshold() ==> out@.len()
            == 0 && held_of(final(task)@, account.slot).contains_key(account.account.pubkey@),
{
    let views = crate::account_buffer::message_views(out@);
    assert(views.len() == out@.len());
    if account.is_startup || account.account.data@.len() < old(task).threshold() {
        law_plain_small_account_passes_at_once(
            old(task)@,
            old(task).threshold(),
            account,
            final(task)@,
            views,
        );
        assert(views[0] == out@[0]@);
        assert(views[0]->Account_0 =~= account@);
    } else {
        law_plain_large_account_waits(
            old(task)@,
            old(task).threshold(),
            account,
            final(task)@,
            views,
        );
    }
}

/// Whatever is not on an account goes out as the last of what goes out.
pub proof fn law_tasks_pass_other_messages(
    task: &mut BufferTask,
    plain: &mut PluginBufferTask,
    message: Message,
    out: Vec<Message>,
    plain_out: Vec<Message>,
)
    requires
        !(message is Account),
        call_ensures(BufferTask::on_message, (task, message), out),
        call_ensures(PluginBufferTask::on_message, (plain, message), plain_out),
    ensures
        out@.len() > 0,
        out@.last()@ == MessageView::Other(message),
        plain_out@.len() > 0,
        plain_out@.last()@ == MessageView::Other(message),
{
    let views = crate::account_buffer::message_views(out@);
    assert(views.len() == out@.len());
    assert(views.last() == out@.last()@);
    let plain_views = crate::account_buffer::message_views(plain_out@);
    assert(plain_views.len() == plain_out@.len());
    assert(plain_views.last() == plain_out@.last()@);
    law_plain_news_passes(
        old(plain)@,
        old(plain).threshold(),
        message,
        final(plain)@,
        plain_views,
    );
}

/// A tick leaves nothing held back, and as many messages go out as accounts were: each is on an
/// account that was held back.
pub proof fn law_tick_leaves_nothing(task: &mut BufferTask, out: Vec<Message>, i: int)
    requires
        call_ensures(BufferTask::on_tick, (task,), out),
        0 <= i < out@.len(),
    ensures
        forall|slot: u64, key: Seq<u8>| !#[trigger]
            held_of(final(task)@.held, slot).contains_key(key),
        out@[i] is Account,
        exists|slot: u64, key: Seq<u8>| #[trigger]
            held_of(old(task)@.held, slot).contains_key(key) && out@[i]@ == MessageView::Account(
                held_of(old(task)@.held, slot)[key],
            ),
{
    let views = crate::account_buffer::message_views(out@);
    assert(views.len() == out@.len());
    assert(views[i] == out@[i]@);
    let held = old(task)@.held;
    let (places, accounts) = choose|
        places: Seq<(u64, Seq<u8>)>,
        accounts: Seq<crate::message::MessageAccountView>,
    | #[trigger]
        crate::account_buffer::lists_held(held, places, accounts) && views
            == crate::account_buffer::account_messages(accounts);
    assert(views.len() == crate::account_buffer::account_messages(accounts).len());
    assert(views[i] == MessageView::Account(accounts[i]));
    let (slot, key) = places[i];
    assert(held_of(held, slot).contains_key(key));
}

/// A write that is counted changes in its version alone, which becomes the number of different
/// writes of its account seen in its slot, this one too, on top of ten million times the slot.
pub proof fn law_counting_changes_the_version_alone(
    tracker: &mut WriteVersionTracker,
    account: MessageAccount,
    counted: MessageAccount,
)
    requires
        call_ensures(WriteVersionTracker::normalize, (tracker, account), counted),
        account.slot * 10_000_000 + seen(
            old(tracker)@,
            account.slot,
            account.account.pubkey@,
        ).insert(account.account.write_version).len() <= u64::MAX,
    ensures
        is_account_but_for_its_version(counted@, account),
        counted.account.write_version == account.slot * 10_000_000 + seen(
            old(tracker)@,
            account.slot,
            account.account.pubkey@,
        ).insert(account.account.write_version).len(),
        seen(final(tracker)@, account.slot, account.account.pubkey@) == seen(
            old(tracker)@,
            account.slot,
            account.account.pubkey@,
        ).insert(account.account.write_version),
{
    crate::account_buffer::lemma_with_seen(
        old(tracker)@,
        account.slot,
        account.account.pubkey@,
        account.account.write_version,
    );
    assert(counted@.account.write_version == counted.account.write_version);
}

/// When a slot is final, all slots before it are forgotten, and none from it on.
pub proof fn law_final_slot_is_remembered(
    tracker: &mut WriteVersionTracker,
    slot: u64,
    other: u64,
    key: Seq<u8>,
)
    requires
        call_ensures(WriteVersionTracker::on_finalized, (tracker, slot), ()),
    ensures
        other < slot ==> !final(tracker)@.contains_key(other),
        other >= slot ==> (final(tracker)@.contains_key(other) <==> old(tracker)@.contains_key(
            other,
        )) && seen(final(tracker)@, other, key) == seen(old(tracker)@, other, key),
{
}

/// Of two writes of an account in a slot, a buffer holds the one with the higher version back.
pub proof fn law_buffer_holds_the_higher_version(
    buffer: &mut AccountBuffer,
    account: MessageAccount,
)
    requires
        call_ensures(AccountBuffer::upsert, (buffer, account), ()),
    ensures
        held_of(final(buffer)@, account.slot).contains_key(account.account.pubkey@),
        held_of(final(buffer)@, account.slot)[account.account.pubkey@].account.write_version
            >= account.account.write_version,
        held_of(old(buffer)@, account.slot).contains_key(account.account.pubkey@) ==> held_of(
            final(buffer)@,
            account.slot,
        )[account.account.pubkey@].account.write_version >= held_of(
            old(buffer)@,
            account.slot,
        )[account.account.pubkey@].account.write_version,
        !held_of(old(buffer)@, account.slot).contains_key(account.account.pubkey@) ==> held_of(
            final(buffer)@,
            account.slot,
        )[account.account.pubkey@] == account@,
{
}

/// What is taken out of a buffer is what it held back of the account, and then it holds nothing of
/// it in that slot.
pub proof fn law_buffer_gives_what_it_held(
    buffer: &mut AccountBuffer,
    slot: u64,
    key: &Pubkey,
    entry: Option<MessageAccount>,
)
    requires
        call_ensures(AccountBuffer::remove_entry, (buffer, slot, key), entry),
    ensures
        entry is Some <==> held_of(old(buffer)@, slot).contains_key(key@),
        entry matches Some(account) ==> account@ == held_of(old(buffer)@, slot)[key@],
        !held_of(final(buffer)@, slot).contains_key(key@),
{
}

/// That nobody takes the snapshot any more is told the first time only, and remembered.
pub proof fn law_closed_snapshot_is_told_once(
    inner: &mut PluginInner,
    sent: bool,
    note: SnapshotNote,
)
    requires
        call_ensures(PluginInner::on_snapshot_sent, (inner, sent), note),
    ensures
        note is QueueGrew <==> sent,
        note is ChannelClosed <==> !sent && !old(inner).snapshot_channel_closed,
        final(inner).snapshot_channel_closed <==> old(inner).snapshot_channel_closed || !sent,
        final(inner).snapshot_channel == old(inner).snapshot_channel,
        final(inner).buffering == old(inner).buffering,
{
}

/// A plugin runs once it was loaded, with the snapshot that it was given, and holds accounts back
/// where that is configured. Where loading failed, it stays as it was and the failure is the error.
pub proof fn law_loaded_plugin_runs(
    plugin: &mut Plugin,
    loaded: Result<(&Config, bool), LoadFailure>,
    result: Result<(), LoadFailure>,
)
    requires
        call_ensures(Plugin::on_load, (plugin, loaded), result),
    ensures
        result is Ok <==> loaded is Ok,
        loaded matches Err(failure) ==> result == Err::<(), LoadFailure>(failure) && *final(plugin)
            == *old(plugin),
        loaded matches Ok((config, snapshot)) ==> (final(plugin).inner matches Some(inner)
            && inner.snapshot_channel == snapshot && !inner.snapshot_channel_closed
            && (inner.buffering <==> config.account_buffer is Some)),
{
}

/// A plugin that is unloaded does not run. There is something to do only where it ran: the server
/// is told first, and the runtime stopped last, within thirty seconds.
pub proof fn law_unloaded_plugin_stops(plugin: &mut Plugin, steps: Vec<UnloadStep>)
    requires
        call_ensures(Plugin::on_unload, (plugin,), steps),
    ensures
        final(plugin).inner is None,
        old(plugin).inner is None ==> steps@.len() == 0,
        old(plugin).inner is Some ==> steps@.len() == 5 && steps@[0] is NotifyGrpcShutdown
            && steps@[1] is DropBufferChannel && steps@[2] is DropGrpcChannel
            && steps@[3] is ShutdownPrometheus && steps@[4] == UnloadStep::ShutdownRuntime(30),
{
}

/// When startup is over, nobody takes the snapshot any more, and nothing else changes.
pub proof fn law_snapshot_ends_with_startup(plugin: &mut Plugin)
    requires
        old(plugin).inner is Some,
        call_ensures(Plugin::notify_end_of_startup, (plugin,), ()),
    ensures
        final(plugin).inner matches Some(inner) && !inner.snapshot_channel && inner.buffering
            == old(plugin).inner.unwrap().buffering && inner.snapshot_channel_closed
            == old(plugin).inner.unwrap().snapshot_channel_closed,
{
}

/// An account that is loaded at startup goes to the snapshot where somebody takes it, and nowhere
/// else; any other goes through the buffer task where there is one, and straight on where not.
pub proof fn law_accounts_go_where_they_should(
    plugin: &Plugin,
    account: ReplicaAccountInfoVersions,
    slot: u64,
    is_startup: bool,
    sequence_number: u64,
    delivery: Delivery,
)
    requires
        plugin.inner is Some,
        call_ensures(
            Plugin::update_account,
            (plugin, account, slot, is_startup, sequence_number),
            delivery,
        ),
    ensures
        delivery is Nothing <==> is_startup && !plugin.inner.unwrap().snapshot_channel,
        delivery is Snapshot <==> is_startup && plugin.inner.unwrap().snapshot_channel,
        delivery is Buffer <==> !is_startup && plugin.inner.unwrap().buffering,
        delivery is Direct <==> !is_startup && !plugin.inner.unwrap().buffering,
        !(delivery is Nothing) ==> {
            let message = match delivery {
                Delivery::Snapshot(message) => message,
                Delivery::Buffer(message) => message,
                Delivery::Direct(message) => message,
                Delivery::Nothing => arbitrary(),
            };
            message matches Message::Account(news) && (account matches
                ReplicaAccountInfoVersions::V0_0_3(info) && news.account.pubkey@ == info.pubkey@
                && news.account.data@ == info.data@ && news.account.lamports == info.lamports
                && news.account.write_version == info.write_version && news.slot == slot
                && news.is_startup == is_startup && news.sequence_number == sequence_number)
        },
{
}

/// The news of a slot goes through the buffer task where there is one, and straight on where not,
/// and tells what was said.
pub proof fn law_slot_news_goes_on(
    plugin: &Plugin,
    slot: u64,
    parent: Option<u64>,
    status: &GeyserSlotStatus,
    sequence_number: u64,
    delivery: Delivery,
)
    requires
        plugin.inner is Some,
        call_ensures(
            Plugin::update_slot_status,
            (plugin, slot, parent, status, sequence_number),
            delivery,
        ),
    ensures
        match delivery {
            Delivery::Buffer(Message::Slot(news)) => plugin.inner.unwrap().buffering && news.slot
                == slot && news.parent == parent && news.sequence_number == sequence_number && (
            news.status is Finalized <==> *status is Rooted) && (news.status is Dead <==> *status
                is Dead),
            Delivery::Direct(Message::Slot(news)) => !plugin.inner.unwrap().buffering && news.slot
                == slot && news.parent == parent && news.sequence_number == sequence_number && (
            news.status is Finalized <==> *status is Rooted) && (news.status is Dead <==> *status
                is Dead),
            _ => false,
        },
{
}

/// Transactions, entries and descriptions of blocks go through the buffer task where there is one,
/// and straight on where not.
pub proof fn law_other_news_goes_on(
    plugin: &Plugin,
    transaction: ReplicaTransactionInfoVersions,
    entry: ReplicaEntryInfoVersions,
    block: ReplicaBlockInfoVersions,
    slot: u64,
    sequence_number: u64,
    of_transaction: Delivery,
    of_entry: Delivery,
    of_block: Delivery,
)
    requires
        plugin.inner is Some,
        call_ensures(
            Plugin::notify_transaction,
            (plugin, transaction, slot, sequence_number),
            of_transaction,
        ),
        entry is V0_0_2,
        call_ensures(Plugin::notify_entry, (plugin, entry, sequence_number), of_entry),
        block is V0_0_4,
        call_ensures(Plugin::notify_block_metadata, (plugin, block, sequence_number), of_block),
    ensures
        match of_transaction {
            Delivery::Buffer(Message::Transaction(news)) => plugin.inner.unwrap().buffering
                && news.slot == slot && news.transaction.sequence_number == sequence_number,
            Delivery::Direct(Message::Transaction(news)) => !plugin.inner.unwrap().buffering
                && news.slot == slot && news.transaction.sequence_number == sequence_number,
            _ => false,
        },
        match of_entry {
            Delivery::Buffer(Message::Entry(news)) => plugin.inner.unwrap().buffering
                && news.sequence_number == sequence_number && news.slot == entry->V0_0_2_0.slot
                && news.index == entry->V0_0_2_0.index,
            Delivery::Direct(Message::Entry(news)) => !plugin.inner.unwrap().buffering
                && news.sequence_number == sequence_number && news.slot == entry->V0_0_2_0.slot
                && news.index == entry->V0_0_2_0.index,
            _ => false,
        },
        match of_block {
            Delivery::Buffer(Message::BlockMeta(news)) => plugin.inner.unwrap().buffering
                && news.sequence_number == sequence_number && news.block_meta.slot
                == block->V0_0_4_0.slot && news.block_meta.executed_transaction_count
                == block->V0_0_4_0.executed_transaction_count && news.block_meta.entries_count
                == block->V0_0_4_0.entry_count,
            Delivery::Direct(Message::BlockMeta(news)) => !plugin.inner.unwrap().buffering
                && news.sequence_number == sequence_number && news.block_meta.slot
                == block->V0_0_4_0.slot && news.block_meta.executed_transaction_count
                == block->V0_0_4_0.executed_transaction_count && news.block_meta.entries_count
                == block->V0_0_4_0.entry_count,
            _ => false,
        },
{
}

/// The fingerprint that is computed of a hash is its low sixteen bits, or one where they are zero;
/// the bucket is the high half of the hash, modulo the number of buckets.
pub proof fn law_hash_is_split(
    hash: u64,
    buckets: u64,
    fingerprint: u16,
    bucket: u64,
)
    requires
        buckets > 0,
        call_ensures(fingerprint_from_hash, (hash,), fingerprint),
        call_ensures(bucket_from_hash, (hash, buckets), bucket),
    ensures
        hash % 0x1_0000 != 0 ==> fingerprint == hash % 0x1_0000,
        hash % 0x1_0000 == 0 ==> fingerprint == 1,
        bucket == (hash / 0x1_0000_0000) % buckets,
        bucket < buckets,
{
}

/// From the partner that is computed of a bucket, the same computation leads back to the bucket.
pub proof fn law_partner_leads_back(
    bucket: u64,
    hash: u64,
    buckets: u64,
    partner: u64,
    back: u64,
)
    requires
        is_bucket_count(buckets),
        bucket < buckets,
        call_ensures(partner_from_hash, (bucket, hash, buckets), partner),
        call_ensures(partner_from_hash, (partner, hash, buckets), back),
    ensures
        back == bucket,
        partner < buckets,
        partner == bucket <==> hash % buckets == 0,
{
    crate::cuckoo::laws::law_partners_are_mutual(bucket, hash, buckets);
}

/// The number of buckets that is computed for so many items holds them at ninety-five hundredths,
/// with four to a bucket, and is the least power of two that does. There is none only where the
/// slots could not be counted.
pub proof fn law_computed_size_is_the_least(capacity: usize, buckets: Option<u64>, other: u64)
    requires
        call_ensures(bucket_count_for, (capacity,), buckets),
        is_bucket_count(other),
        other * 4 <= usize::MAX,
        other * 380 >= capacity * 100,
    ensures
        buckets matches Some(n) && is_bucket_count(n) && n * 380 >= capacity * 100 && n * 4
            <= usize::MAX && n <= other,
{
    let n = buckets.unwrap();
    if other < n {
        assert(other <= n / 2) by (bit_vector)
            requires
                other & ((other - 1) as u64) == 0,
                n & ((n - 1) as u64) == 0,
                other > 0,
                other < n,
        ;
    }
}

/// The keys of the hasher are the seed and the seed with its halves exchanged.
pub proof fn law_keys_are_the_seed_both_ways(seed: u64, keys: (u64, u64))
    requires
        call_ensures(YellowstoneHasherBuilder::keys_from_seed, (seed,), keys),
    ensures
        keys.0 == seed,
        keys.1 as int / 0x1_0000_0000 == seed as int % 0x1_0000_0000,
        keys.1 as int % 0x1_0000_0000 == seed as int / 0x1_0000_0000,
{
}

/// Once an item was inserted, the filter matches it, and still all that it matched; where the table
/// is full, the filter stays as it was.
pub proof fn law_inserted_item_is_matched(
    filter: &mut CuckooFilter,
    item: &[u8],
    result: Result<(), TableFullError>,
    other: Seq<u8>,
)
    requires
        old(filter).wf(),
        call_ensures(CuckooFilter::insert, (filter, item), result),
    ensures
        final(filter).geometry() == old(filter).geometry(),
        result is Ok ==> final(filter).matches_item(item@),
        old(filter).matches_item(other) ==> final(filter).matches_item(other),
        result is Err ==> final(filter).slots() == old(filter).slots(),
{
    if result is Ok {
        assert(is_inserted(*old(filter), *final(filter), item@));
        law_insert_keeps_matches(*old(filter), *final(filter), item@, other);
    }
}

/// An item is removed exactly where the filter matched it; else the filter stays as it was.
pub proof fn law_matched_item_is_removed(
    filter: &mut CuckooFilter,
    item: &[u8],
    found: bool,
)
    requires
        old(filter).wf(),
        call_ensures(CuckooFilter::remove, (filter, item), found),
    ensures
        found <==> old(filter).matches_item(item@),
        found ==> is_removed(*old(filter), *final(filter), item@),
        !found ==> final(filter).slots() == old(filter).slots(),
        final(filter).geometry() == old(filter).geometry(),
{
}

/// Each client gets a number of its own, one above that of the client before, until the numbers run
/// out.
pub proof fn law_clients_are_numbered_in_turn(
    service: &mut GrpcService,
    client_id: u64,
)
    requires
        call_ensures(GrpcService::subscribe_raw, (service,), client_id),
    ensures
        client_id == old(service).upcoming(),
        old(service).upcoming() < usize::MAX ==> final(service).upcoming() == client_id + 1,
        old(service).upcoming() == usize::MAX ==> final(service).upcoming() == 0,
{
}

/// A client that could not be registered is told so; no other is refused.
pub proof fn law_registration_is_answered(registered: bool, result: Result<(), Status>)
    requires
        call_ensures(subscribe_raw_reply, (registered,), result),
    ensures
        result is Ok <==> registered,
        result matches Err(status) ==> status.code is Internal && status.message@
            == "failed to register raw client"@,
{
}

/// A client that subscribes gets messages from then on, one that unsubscribes gets none, and the
/// others stay; a broadcast goes to each client once, and changes nothing.
pub proof fn law_commands_are_obeyed<S>(
    registry: &mut ClientRegistry<S>,
    command: ClientCommand<S>,
    outcome: CommandOutcome,
    other: u64,
)
    requires
        call_ensures(ClientRegistry::<S>::on_command, (registry, command), outcome),
    ensures
        match command {
            ClientCommand::Subscribe { client_id, sender } => {
                &&& final(registry)@.contains_key(client_id)
                &&& final(registry)@[client_id] == sender
                &&& other != client_id ==> (final(registry)@.contains_key(other)
                    <==> old(registry)@.contains_key(other))
                &&& outcome matches CommandOutcome::Subscribed { client_id: id, .. } && id
                    == client_id
            },
            ClientCommand::Unsubscribe { client_id } => {
                &&& !final(registry)@.contains_key(client_id)
                &&& other != client_id ==> (final(registry)@.contains_key(other)
                    <==> old(registry)@.contains_key(other))
                &&& outcome matches CommandOutcome::Unsubscribed { client_id: id, .. } && id
                    == client_id
            },
            ClientCommand::Broadcast { message } => {
                &&& final(registry)@ == old(registry)@
                &&& outcome matches CommandOutcome::Send { message: sent, client_ids } && sent
                    == message && client_ids@.no_duplicates() && (client_ids@.contains(other)
                    <==> old(registry)@.contains_key(other))
            },
        },
{
    if let CommandOutcome::Send { message, client_ids } = outcome {
        assert(client_ids@.to_set().contains(other) <==> client_ids@.contains(other));
    }
}

/// A client to whom a message could not be sent is dropped, with a warning, and no other.
pub proof fn law_lost_client_is_dropped<S>(
    registry: &mut ClientRegistry<S>,
    client_id: u64,
    sent: bool,
    warn: bool,
    other: u64,
)
    requires
        call_ensures(ClientRegistry::<S>::on_sent, (registry, client_id, sent), warn),
    ensures
        warn <==> !sent,
        sent ==> final(registry)@ == old(registry)@,
        !sent ==> !final(registry)@.contains_key(client_id),
        other != client_id ==> (final(registry)@.contains_key(other)
            <==> old(registry)@.contains_key(other)),
{
}

/// Each message counts, and the thousandth, two thousandth and so on are worth a line; its latency
/// is noted behind those before where it says when it was made and did not come before that.
pub proof fn law_latency_is_noted(
    stats: &mut LatencyStats,
    created_at: Option<Timestamp>,
    now: u128,
    log: bool,
)
    requires
        created_at matches Some(time) ==> time.seconds >= 0 && time.nanos >= 0,
        call_ensures(LatencyStats::on_message, (stats, created_at, now), log),
    ensures
        final(stats).total_messages == old(stats).total_messages + 1,
        log <==> final(stats).total_messages % 1000 == 0,
        created_at is None ==> final(stats).latencies@ == old(stats).latencies@,
        created_at matches Some(time) ==> {
            let made = time.seconds * 1_000_000_000 + time.nanos;
            &&& made > now ==> final(stats).latencies@ == old(stats).latencies@
            &&& made <= now ==> {
                &&& final(stats).latencies@.len() == old(stats).latencies@.len() + 1
                &&& final(stats).latencies@.last() == now - made
                &&& final(stats).latencies@.drop_last() == old(stats).latencies@
            }
        },
{
    if let Some(time) = created_at {
        if time.seconds * 1_000_000_000 + time.nanos <= now {
            assert(final(stats).latencies@.drop_last() =~= old(stats).latencies@);
        }
    }
}

/// The simulation goes from slot to slot, and tells each as processed after the one before, at the
/// time that it is given; each thousandth slot is worth a line.
pub proof fn law_simulation_goes_from_slot_to_slot(
    simulation: &mut Simulation,
    created_at: Timestamp,
    step: (Message, bool),
)
    requires
        old(simulation).can_go_on(),
        call_ensures(Simulation::next_at, (simulation, created_at), step),
    ensures
        final(simulation).slot() == old(simulation).slot() + 1,
        step.0 matches Message::Slot(news) && news.slot == old(simulation).slot() && news.parent
            == Some((news.slot - 1) as u64) && news.status is Processed && news.dead_error is None
            && news.created_at == created_at,
        step.1 <==> (old(simulation).slot() + 1) % 1000 == 0,
{
}

/// Each ping has the number that follows that of the last, and asks for nothing else.
pub proof fn law_pings_are_numbered_in_turn(
    subscriber: &mut Subscriber,
    request: SubscribePreprocessedRequest,
)
    requires
        call_ensures(Subscriber::next_ping, (subscriber,), request),
    ensures
        final(subscriber).last_ping() == old(subscriber).last_ping() + 1,
        request.ping matches Some(ping) && ping.id == old(subscriber).last_ping() + 1,
        request.transactions@ == Map::<
            Seq<char>,
            crate::preprocessed::SubscribePreprocessedRequestFilterTransactions,
        >::empty(),
{
}

/// A sink keeps an item behind those it has, and asks for a flush when they are half a million.
pub proof fn law_sink_keeps_items_in_turn<F: Flushable>(
    sink: &mut Sink<F>,
    item: F,
    flush: bool,
)
    requires
        call_ensures(Sink::<F>::on_item, (sink, item), flush),
    ensures
        final(sink).gathered().len() == old(sink).gathered().len() + 1,
        final(sink).gathered().last() == item,
        final(sink).gathered().drop_last() == old(sink).gathered(),
        flush <==> old(sink).gathered().len() + 1 >= 500_000,
{
    assert(final(sink).gathered().drop_last() =~= old(sink).gathered());
}

/// A sink that is flushed has nothing left. All rows are written, one for each item in its order,
/// or all are dropped and counted; there is nothing to do only where there was nothing.
pub proof fn law_sink_is_flushed_whole<F: Flushable>(
    sink: &mut Sink<F>,
    insert_created: bool,
    plan: FlushPlan<F::Row>,
)
    requires
        call_ensures(Sink::<F>::flush_rows, (sink, insert_created), plan),
    ensures
        final(sink).gathered().len() == 0,
        plan is Nothing <==> old(sink).gathered().len() == 0,
        plan is Dropped <==> old(sink).gathered().len() > 0 && !insert_created,
        plan matches FlushPlan::Dropped { count, .. } ==> count == old(sink).gathered().len(),
        plan matches FlushPlan::Write { rows, .. } ==> {
            &&& insert_created
            &&& rows@.len() == old(sink).gathered().len()
            &&& forall|i: int|
                0 <= i < rows@.len() ==> call_ensures(
                    F::to_row,
                    (old(sink).gathered()[i],),
                    #[trigger] rows@[i],
                )
        },
{
}

/// Recording sends the event wherever there is a channel; it has the time that was given, and its
/// data is what was recorded, with the context added where it is an object.
pub proof fn law_recorded_event_is_sent(
    data: serde_json::Value,
    timestamp: i128,
    context: Option<&EventContext>,
    cached: bool,
    initialized: bool,
    step: RecordStep,
)
    requires
        call_ensures(record_with_time, (data, timestamp, context, cached, initialized), step),
    ensures
        step is SendCached <==> cached,
        step is CacheAndSend <==> !cached && initialized,
        step is NotInitialized <==> !cached && !initialized,
        cached || initialized ==> {
            let event = match step {
                RecordStep::SendCached(event) => event,
                RecordStep::CacheAndSend(event) => event,
                RecordStep::NotInitialized => arbitrary(),
            };
            &&& event.timestamp == timestamp
            &&& context is None || !json_is_object(data) ==> event.data == data
            &&& context matches Some(given) ==> (json_is_object(data) ==> (given.host matches Some(
                host,
            ) ==> json_strings(event.data)["host"@] == host@))
        },
{
}

/// The origin of a write that is set is the one that is read from then on, unless it is the one
/// that no transaction can have; nothing else of the account changes.
pub proof fn law_origin_that_is_set_is_read(
    account: &mut SubscribeUpdateAccountInfo,
    index: AccountTransactionIndex,
    result: Result<(), ReservedTransactionIndex>,
)
    requires
        call_ensures(
            SubscribeUpdateAccountInfo::set_account_transaction_index,
            (account, index),
            result,
        ),
    ensures
        result is Err <==> index == AccountTransactionIndex::Transaction(0xffff_ffff_ffff_ffff),
        result is Err ==> *final(account) == *old(account),
        result is Ok ==> AccountTransactionIndex::of_wire(final(account).transaction_index)
            == index,
        final(account).pubkey == old(account).pubkey,
        final(account).lamports == old(account).lamports,
        final(account).owner == old(account).owner,
        final(account).executable == old(account).executable,
        final(account).rent_epoch == old(account).rent_epoch,
        final(account).data == old(account).data,
        final(account).write_version == old(account).write_version,
        final(account).txn_signature == old(account).txn_signature,
{
}

/// The accounts of a transaction become those that its own parts name, unless one of them is no
/// key; nothing else of it changes.
pub proof fn law_accounts_are_filled_in(
    transaction: &mut MessageTransactionInfo,
    result: Result<(), &'static str>,
    key: Seq<u8>,
)
    requires
        call_ensures(MessageTransactionInfo::fill_account_keys, (transaction,), result),
    ensures
        result is Ok <==> old(transaction).names_keys(),
        result is Ok ==> (final(transaction).account_keys@.contains(key)
            <==> old(transaction).named_keys().contains(key)),
        result is Err ==> final(transaction).account_keys == old(transaction).account_keys,
        final(transaction).signature == old(transaction).signature,
        final(transaction).is_vote == old(transaction).is_vote,
        final(transaction).transaction == old(transaction).transaction,
        final(transaction).meta == old(transaction).meta,
        final(transaction).index == old(transaction).index,
        final(transaction).sequence_number == old(transaction).sequence_number,
{
}

/// What a subscriber reads of an update is what its message says, part by part.
pub proof fn law_subscriber_reads_the_message(update: &FilteredUpdateOneof, read: UpdateOneof)
    requires
        call_ensures(FilteredUpdateOneof::as_update_oneof, (update,), read),
    ensures
        match (*update, read) {
            (FilteredUpdateOneof::Slot(message), UpdateOneof::Slot(told)) => {
                &&& told.slot == message.slot
                &&& told.parent == message.parent
                &&& told.status == crate::filtered::status_on_wire(message.status)
                &&& told.dead_error is Some <==> message.dead_error is Some
                &&& message.dead_error matches Some(text) ==> told.dead_error.unwrap()@ == text@
            },
            (FilteredUpdateOneof::Account(message), UpdateOneof::Account(told)) => {
                &&& told.slot == message.slot
                &&& told.is_startup == message.is_startup
                &&& told.account matches Some(account) && account.pubkey@ == message.account.pubkey@
                    && account.lamports == message.account.lamports && account.owner@
                    == message.account.owner@ && account.executable == message.account.executable
                    && account.rent_epoch == message.account.rent_epoch && account.data@
                    == message.account.data@ && account.write_version
                    == message.account.write_version && account.transaction_index
                    == message.account.transaction_index
            },
            (FilteredUpdateOneof::Transaction(message), UpdateOneof::Transaction(told)) => {
                &&& told.slot == message.slot
                &&& told.transaction matches Some(part) && part.signature@
                    == message.transaction.signature@ && part.is_vote == message.transaction.is_vote
                    && part.index == message.transaction.index && part.transaction is Some
                    && part.transaction.unwrap()@ == message.transaction.transaction.stored@
                    && part.meta is Some && part.meta.unwrap()@ == message.transaction.meta.stored@
            },
            (FilteredUpdateOneof::Entry(message), UpdateOneof::Entry(told)) => {
                &&& told.slot == message.slot
                &&& told.index == message.index
                &&& told.num_hashes == message.num_hashes
                &&& told.hash@ == message.hash@
                &&& told.executed_transaction_count == message.executed_transaction_count
                &&& told.starting_transaction_index == message.starting_transaction_index
            },
            (FilteredUpdateOneof::BlockMeta(message), UpdateOneof::BlockMeta(told)) => {
                &&& told@ == message.block_meta@
            },
            _ => false,
        },
{
    match (*update, read) {
        (FilteredUpdateOneof::Slot(message), UpdateOneof::Slot(told)) => {
            assert(told@ == crate::filtered::slot_on_wire(message));
            if told.dead_error is Some {
                assert(told@.dead_error == Some(told.dead_error.unwrap()@));
            }
        },
        (FilteredUpdateOneof::Account(message), UpdateOneof::Account(told)) => {
            assert(told@ == crate::filtered::account_update_on_wire(message@));
            assert(told@.account == Some(told.account.unwrap()@));
            assert(told.account.unwrap()@ == crate::filtered::account_on_wire(message@.account));
        },
        (FilteredUpdateOneof::Transaction(message), UpdateOneof::Transaction(told)) => {
            assert(told@ == crate::filtered::transaction_on_wire(message));
            assert(told@.transaction == Some(told.transaction.unwrap()@));
            let part = told.transaction.unwrap();
            assert(part@.transaction == Some(part.transaction.unwrap()@));
            assert(part@.meta == Some(part.meta.unwrap()@));
        },
        (FilteredUpdateOneof::Entry(message), UpdateOneof::Entry(told)) => {
            assert(told@ == crate::filtered::entry_on_wire(*message));
        },
        _ => {},
    }
}

/// What is written of an update is read as that update again, by whoever reads it.
pub proof fn law_written_update_is_read_again(
    update: &FilteredUpdate,
    bytes: Vec<u8>,
    data: &[u8],
    result: Result<SubscribeUpdate, DecodeError>,
)
    requires
        fits_update(update.on_wire()),
        call_ensures(FilteredUpdate::encode_to_vec, (update,), bytes),
        data@ == bytes@,
        call_ensures(SubscribeUpdate::decode, (data,), result),
    ensures
        result matches Ok(read) && read@ == update.on_wire(),
{
    law_update_round_trip(update.on_wire());
}

/// A task that is new has the threshold that it was given, and holds nothing back.
pub proof fn law_new_tasks_hold_nothing(
    size_threshold: usize,
    task: BufferTask,
    plain: PluginBufferTask,
    slot: u64,
    key: Seq<u8>,
)
    requires
        call_ensures(BufferTask::new, (size_threshold,), task),
        call_ensures(PluginBufferTask::new, (size_threshold,), plain),
    ensures
        task.threshold() == size_threshold,
        plain.threshold() == size_threshold,
        !held_of(task@.held, slot).contains_key(key),
        seen(task@.versions, slot, key) == Set::<u64>::empty(),
        !held_of(plain@, slot).contains_key(key),
{
}

/// A tick leaves a task that does not number writes anew with nothing held back, and each message
/// that goes out is on an account that was.
pub proof fn law_plain_tick_leaves_nothing(task: &mut PluginBufferTask, out: Vec<Message>, i: int)
    requires
        call_ensures(PluginBufferTask::on_tick, (task,), out),
        0 <= i < out@.len(),
    ensures
        forall|slot: u64, key: Seq<u8>| !#[trigger] held_of(final(task)@, slot).contains_key(key),
        out@[i] is Account,
        exists|slot: u64, key: Seq<u8>| #[trigger]
            held_of(old(task)@, slot).contains_key(key) && out@[i]@ == MessageView::Account(
                held_of(old(task)@, slot)[key],
            ),
{
    let views = crate::account_buffer::message_views(out@);
    assert(views.len() == out@.len());
    assert(views[i] == out@[i]@);
    let held = old(task)@;
    let (places, accounts) = choose|
        places: Seq<(u64, Seq<u8>)>,
        accounts: Seq<crate::message::MessageAccountView>,
    | #[trigger]
        crate::account_buffer::lists_held(held, places, accounts) && views
            == crate::account_buffer::account_messages(accounts);
    assert(views.len() == crate::account_buffer::account_messages(accounts).len());
    assert(views[i] == MessageView::Account(accounts[i]));
    let (slot, key) = places[i];
    assert(held_of(held, slot).contains_key(key));
}

/// What is drained of a slot is each account that was held back of it, once. Nothing of the slot
/// is held back then; the other slots stay.
pub proof fn law_slot_is_drained_whole(
    buffer: &mut AccountBuffer,
    slot: u64,
    accounts: Vec<MessageAccount>,
    other: u64,
    key: Seq<u8>,
)
    requires
        call_ensures(AccountBuffer::drain_slot, (buffer, slot), accounts),
    ensures
        !held_of(final(buffer)@, slot).contains_key(key),
        other != slot ==> held_of(final(buffer)@, other) == held_of(old(buffer)@, other),
        held_of(old(buffer)@, slot).contains_key(key) ==> exists|i: int|
            0 <= i < accounts@.len() && #[trigger] accounts@[i]@
                == held_of(old(buffer)@, slot)[key],
        accounts@.len() == held_of(old(buffer)@, slot).dom().len(),
{
    let held = held_of(old(buffer)@, slot);
    let values = crate::account_buffer::views(accounts@);
    let keys = choose|keys: Seq<Seq<u8>>| #[trigger]
        crate::key_map::lists_values(held, keys, values);
    assert(values.len() == accounts@.len());
    if held.contains_key(key) {
        assert(keys.contains(key));
        let i = choose|i: int| 0 <= i < keys.len() && keys[i] == key;
        assert(values[i] == accounts@[i]@);
        assert(accounts@[i]@ == held[key]);
    }
    assert(keys.to_set() =~= held.dom()) by {
        assert forall|k: Seq<u8>| keys.to_set().contains(k) <==> held.dom().contains(k) by {
            if keys.contains(k) {
                let i = choose|i: int| 0 <= i < keys.len() && keys[i] == k;
                assert(held.contains_key(keys[i]));
            }
        }
    }
    keys.unique_seq_to_set();
}

/// How many slots a tracker remembers, and whether it remembers one, is told as it is.
pub proof fn law_tracker_tells_what_it_remembers(
    tracker: &WriteVersionTracker,
    slot: u64,
    count: usize,
    known: bool,
)
    requires
        call_ensures(WriteVersionTracker::tracked_slots, (tracker,), count),
        call_ensures(WriteVersionTracker::tracks, (tracker, slot), known),
    ensures
        count == tracker@.dom().len(),
        known <==> tracker@.contains_key(slot),
{
}

/// A set of keys takes a key that it does not hold unless its filter is full, tells whether it was
/// new, and holds exactly that key more then. One that it holds changes nothing.
pub proof fn law_set_takes_new_keys(
    set: &mut CompressedAccountFilterSet,
    key: Pubkey,
    result: Result<bool, TableFullError>,
    other: Seq<u8>,
)
    requires
        old(set).wf(),
        call_ensures(CompressedAccountFilterSet::insert, (set, key), result),
    ensures
        result == Ok::<bool, TableFullError>(false) <==> old(set).keys().contains(key@),
        result == Ok::<bool, TableFullError>(true) ==> final(set).keys().contains(key@)
            && final(set).dirty(),
        result is Err ==> !final(set).keys().contains(key@) && final(set).dirty()
            == old(set).dirty(),
        other != key@ ==> (final(set).keys().contains(other) <==> old(set).keys().contains(other)),
        final(set).max_capacity() == old(set).max_capacity(),
{
}

/// A key that is removed from a set is not in it any more, all others stay, and it is told whether
/// it was in it.
pub proof fn law_set_lets_keys_go(
    set: &mut CompressedAccountFilterSet,
    key: Pubkey,
    found: bool,
    other: Seq<u8>,
)
    requires
        call_ensures(CompressedAccountFilterSet::remove, (set, key), found),
    ensures
        found <==> old(set).keys().contains(key@),
        !final(set).keys().contains(key@),
        other != key@ ==> (final(set).keys().contains(other) <==> old(set).keys().contains(other)),
        found ==> final(set).dirty(),
        !found ==> final(set).dirty() == old(set).dirty(),
{
}

/// A set tells exactly which keys it holds and how many, whatever its filter would match.
pub proof fn law_set_is_exact(
    set: &CompressedAccountFilterSet,
    key: Pubkey,
    found: bool,
    len: usize,
    empty: bool,
    dirty: bool,
)
    requires
        call_ensures(CompressedAccountFilterSet::contains, (set, key), found),
        call_ensures(CompressedAccountFilterSet::len, (set,), len),
        call_ensures(CompressedAccountFilterSet::is_empty, (set,), empty),
        call_ensures(CompressedAccountFilterSet::is_dirty, (set,), dirty),
    ensures
        found <==> set.keys().contains(key@),
        len == set.keys().len(),
        empty ==> !found,
        dirty <==> set.dirty(),
{
}

/// The flag that says that a set changed is handed out once, and the keys stay.
pub proof fn law_flag_is_handed_out_once(set: &mut CompressedAccountFilterSet, dirty: bool)
    requires
        call_ensures(CompressedAccountFilterSet::take_dirty, (set,), dirty),
    ensures
        dirty <==> old(set).dirty(),
        !final(set).dirty(),
        final(set).keys() == old(set).keys(),
        final(set).filter() == old(set).filter(),
{
}

/// The account filter of a set asks for nothing but what its cuckoo filter matches, which it
/// carries slot by slot.
pub proof fn law_account_filter_carries_the_set(
    set: &CompressedAccountFilterSet,
    accounts: SubscribeRequestFilterAccounts,
)
    requires
        call_ensures(CompressedAccountFilterSet::to_account_filter, (set,), accounts),
    ensures
        accounts.account@.len() == 0,
        accounts.owner@.len() == 0,
        accounts.filters@.len() == 0,
        accounts.nonempty_txn_signature is None,
        accounts.account_state == 0,
        accounts.cuckoo_accounts_filter matches Some(proto) && proto.bucket_count
            == set.filter().geometry().buckets && proto.hash_seed == set.filter().geometry().seed
            && proto.entries_per_bucket == 4 && proto.fingerprint_bits == 16 && proto.data@.len()
            == 2 * set.filter().slots().len(),
{
}

/// A set that is put into a request stands there under the name that is given, all other filters
/// stay, and the set is clean then.
pub proof fn law_request_asks_for_the_set(
    set: &mut CompressedAccountFilterSet,
    req: &mut SubscribeRequest,
    name: &str,
    other: Seq<char>,
)
    requires
        call_ensures(
            CompressedAccountFilterSet::insert_into_subscribe_request,
            (set, req, name),
            (),
        ),
    ensures
        !final(set).dirty(),
        final(set).keys() == old(set).keys(),
        final(req).accounts@.contains_key(name@),
        final(req).accounts@[name@].cuckoo_accounts_filter matches Some(proto)
            && proto.bucket_count == old(set).filter().geometry().buckets && proto.hash_seed
                == old(set).filter().geometry().seed,
        other != name@ ==> (final(req).accounts@.contains_key(other)
            <==> old(req).accounts@.contains_key(other))
            && (final(req).accounts@.contains_key(other) ==> final(req).accounts@[other]
            == old(req).accounts@[other]),
{
}

/// A message is taken for a filter exactly where it has a power of two of buckets, four slots to
/// each, fingerprints of sixteen bits, and as many bytes as that makes; then the filter has its
/// seed, its buckets and its slots.
pub proof fn law_message_is_taken_for_a_filter(
    proto: &ProtoCuckooFilter,
    filter: Option<CuckooFilter>,
)
    requires
        call_ensures(CuckooFilter::from_proto, (proto,), filter),
    ensures
        filter is Some <==> is_bucket_count(proto.bucket_count) && proto.entries_per_bucket == 4
            && proto.fingerprint_bits == 16 && proto.data@.len() == proto.bucket_count * 8,
        filter matches Some(read) ==> {
            &&& read.wf()
            &&& read.geometry().seed == proto.hash_seed
            &&& read.geometry().buckets == proto.bucket_count
            &&& forall|i: int|
                0 <= i < read.slots().len() ==> #[trigger] read.slots()[i] == proto.data@[2 * i]
                    + 256 * proto.data@[2 * i + 1]
        },
{
    if let Some(read) = filter {
        crate::cuckoo::laws::law_message_says_how_the_table_is_made(
            *proto,
            read.slots(),
            read.geometry(),
        );
    }
}

/// A filter that is made for so many items is empty, is large enough for them at ninety-five
/// hundredths, not twice as large as needed, and hashes with the seed that it is given.
pub proof fn law_new_filter_is_empty(
    max_capacity: usize,
    hasher: YellowstoneHasherBuilder,
    result: Result<CuckooFilter, CuckooBuildError>,
    item: Seq<u8>,
)
    requires
        call_ensures(
            CuckooFilter::with_capacity_and_hasher,
            (max_capacity, hasher),
            result,
        ),
    ensures
        result matches Ok(filter) ==> {
            &&& filter.geometry().seed == hasher.spec_seed()
            &&& max_capacity * 100 <= filter.geometry().buckets * 380
            &&& filter.geometry().buckets > 1 ==> (filter.geometry().buckets / 2) * 380
                < max_capacity * 100
            &&& filter.slots().len() == filter.geometry().buckets * 4
            &&& forall|i: int| 0 <= i < filter.slots().len() ==> filter.slots()[i] == 0
            &&& !filter.matches_item(item)
        },
{
    if let Ok(filter) = result {
        let geometry = filter.geometry();
        let home = geometry.home(item);
        let fingerprint = geometry.fingerprint(item);
        crate::cuckoo::laws::law_match_is_a_slot(filter, item);
        crate::cuckoo::laws::law_high_half_picks_the_bucket(
            geometry.hash(item),
            0,
            geometry.buckets,
        );
        geometry.lemma_partner(home, fingerprint);
        assert forall|j: int| 0 <= j < 4 implies #[trigger] filter.slots()[home * 4 + j]
            != fingerprint by {
            assert(filter.slots()[home * 4 + j] == 0);
        }
        let partner = geometry.partner(home, fingerprint);
        assert forall|j: int| 0 <= j < 4 implies #[trigger] filter.slots()[partner * 4 + j]
            != fingerprint by {
            assert(filter.slots()[partner * 4 + j] == 0);
        }
    }
}

/// What is told of latencies is none exactly where there are none; else the least is not above any
/// of them, the greatest not below, and both are among them.
pub proof fn law_statistics_tell_of_all(
    stats: &LatencyStats,
    summary: Option<LatencySummary>,
    latency: u128,
)
    requires
        stats.summable(),
        call_ensures(print_statistics, (stats,), summary),
        stats.latencies@.contains(latency),
    ensures
        summary matches Some(told) && told.min <= latency <= told.max && stats.latencies@.contains(
            told.min,
        ) && stats.latencies@.contains(told.max),
{
    broadcast use vstd::seq_lib::group_to_multiset_ensures;

    let list = choose|list: Seq<u128>| #[trigger]
        ascends(list) && list.to_multiset() == stats.latencies@.to_multiset() && summary == Some(
            summary_of(list),
        );
    assert(list.len() == list.to_multiset().len());
    assert(stats.latencies@.len() == stats.latencies@.to_multiset().len());
    vstd::seq_lib::to_multiset_contains(stats.latencies@, latency);
    vstd::seq_lib::to_multiset_contains(list, latency);
    assert(list.contains(latency));
    let i = choose|i: int| 0 <= i < list.len() && list[i] == latency;
    assert(list.contains(list[0]));
    assert(list.contains(list[list.len() - 1]));
    vstd::seq_lib::to_multiset_contains(list, list[0]);
    vstd::seq_lib::to_multiset_contains(stats.latencies@, list[0]);
    vstd::seq_lib::to_multiset_contains(list, list[list.len() - 1]);
    vstd::seq_lib::to_multiset_contains(stats.latencies@, list[list.len() - 1]);
}

/// Subscribers are disconnected exactly while the node is unhealthy.
pub proof fn law_unhealthy_node_disconnects(is_healthy: bool, should_disconnect: bool)
    requires
        call_ensures(run_forced_disconnection_monitor, (is_healthy,), should_disconnect),
    ensures
        should_disconnect <==> !is_healthy,
{
}

/// A service that is created has given no number yet, is set up with what is configured, and asks
/// for the token that is configured.
pub proof fn law_service_is_created_as_configured(config: &ConfigGrpc, setup: ServerSetup)
    requires
        call_ensures(GrpcService::create, (config,), setup),
    ensures
        setup.service.upcoming() == 0,
        setup.x_token is Some <==> config.x_token is Some,
        config.x_token matches Some(token) ==> setup.x_token.unwrap()@ == token@,
        setup.transport_options@.contains(ServerOption::Tls) <==> config.tls,
        setup.service_options@[0] == ServerOption::MaxDecodingMessageSize(
            config.max_decoding_message_size,
        ),
{
    crate::service_laws::law_transport_gets_what_is_given(*config, ServerOption::Tls);
    assert(setup.x_token is Some ==> text_of(setup.x_token) == Some(setup.x_token.unwrap()@));
}

/// The methods that are not offered are refused as not implemented.
pub proof fn law_disabled_methods_are_refused(status: Status)
    requires
        call_ensures(disabled, (), status),
    ensures
        status.code is Unimplemented,
        status.message@ == "method disabled"@,
{
}

/// The first request asks for all transactions but votes, whether they failed or not and whatever
/// accounts they touch, and is no ping.
pub proof fn law_first_request_asks_for_all_but_votes(
    subscriber: &Subscriber,
    request: SubscribePreprocessedRequest,
)
    requires
        call_ensures(Subscriber::first_request, (subscriber,), request),
    ensures
        request.ping is None,
        request.transactions@.contains_key(Seq::empty()),
        request.transactions@.dom().len() == 1,
        request.transactions@[Seq::empty()].vote == Some(false),
        request.transactions@[Seq::empty()].failed is None,
        request.transactions@[Seq::empty()].account_include@.len() == 0,
        request.transactions@[Seq::empty()].account_exclude@.len() == 0,
        request.transactions@[Seq::empty()].account_required@.len() == 0,
{
    assert(request.transactions@.dom() == set![Seq::<char>::empty()]);
    assert(request.transactions@.dom().contains(Seq::<char>::empty()));
}

/// The first slot of a simulation is the thousandth, and it goes on until the numbers run out.
pub proof fn law_simulation_begins_and_goes_on(
    simulation: Simulation,
    any: &Simulation,
    more: bool,
)
    requires
        call_ensures(Simulation::new, (), simulation),
        call_ensures(Simulation::has_next, (any,), more),
    ensures
        simulation.slot() == 1000,
        more <==> 0 < any.slot() < 0xffff_ffff_ffff_ffff,
{
}

/// Accounts, transactions and entries are wanted of the validator, and the accounts of a snapshot
/// are not.
pub proof fn law_what_is_wanted(
    plugin: &Plugin,
    accounts: bool,
    snapshot: bool,
    transactions: bool,
    entries: bool,
)
    requires
        call_ensures(Plugin::account_data_notifications_enabled, (plugin,), accounts),
        call_ensures(Plugin::account_data_snapshot_notifications_enabled, (plugin,), snapshot),
        call_ensures(Plugin::transaction_notifications_enabled, (plugin,), transactions),
        call_ensures(Plugin::entry_notifications_enabled, (plugin,), entries),
    ensures
        accounts && transactions && entries,
        !snapshot,
{
}

/// How far one time lies behind another is told in seconds and nanoseconds, which added to the
/// earlier give the later.
pub proof fn law_elapsed_leads_from_one_to_the_other(
    later: Timestamp,
    earlier: Timestamp,
    elapsed: (i64, i32),
)
    requires
        call_ensures(Timestamp::since, (later, earlier), elapsed),
    ensures
        earlier.seconds + elapsed.0 == later.seconds,
        earlier.nanos + elapsed.1 == later.nanos,
{
}

/// An update that passed no filter yet was made when its message was. As a subscriber reads it, it
/// has the names of the filters that it passed, in their order, and its time.
pub proof fn law_update_is_read_with_its_filters(
    told: FilteredUpdateOneof,
    fresh: FilteredUpdate,
    update: &FilteredUpdate,
    read: SubscribeUpdate,
    i: int,
)
    requires
        call_ensures(FilteredUpdate::new_empty, (told,), fresh),
        call_ensures(FilteredUpdate::as_subscribe_update, (update,), read),
        0 <= i < update.filters@.len(),
    ensures
        fresh.filters@.len() == 0,
        fresh.update_oneof == told,
        fresh.created_at == match told {
            FilteredUpdateOneof::Account(message) => message.created_at,
            FilteredUpdateOneof::Slot(message) => message.created_at,
            FilteredUpdateOneof::Transaction(message) => message.created_at,
            FilteredUpdateOneof::Entry(message) => message.created_at,
            FilteredUpdateOneof::BlockMeta(message) => message.created_at,
        },
        read.filters@.len() == update.filters@.len(),
        read.filters@[i]@ == update.filters@[i]@,
        read.created_at == Some(update.created_at),
        read.update_oneof matches Some(part) && part@ == update.update_oneof.on_wire(),
{
    assert(read@ == update.on_wire());
    assert(read@.filters.len() == read.filters@.len());
    assert(update.on_wire().filters.len() == update.filters@.len());
    assert(read@.filters[i] == read.filters@[i]@);
    assert(update.on_wire().filters[i] == update.filters@[i]@);
    assert(read@.created_at == read.created_at);
    assert(read@.update_oneof == Some(read.update_oneof.unwrap()@));
}

/// A block that is put together counts the accounts that it is given, and keeps its time and parts.
pub proof fn law_block_is_put_together(
    meta: Arc<MessageBlockMeta>,
    transactions: Vec<Arc<MessageTransactionInfo>>,
    accounts: Vec<Arc<MessageAccountInfo>>,
    entries: Vec<Arc<MessageEntry>>,
    created_at: Timestamp,
    block: MessageBlock,
)
    requires
        call_ensures(
            MessageBlock::new_at,
            (meta, transactions, accounts, entries, created_at),
            block,
        ),
    ensures
        block.meta == meta,
        block.transactions == transactions,
        block.accounts == accounts,
        block.entries == entries,
        block.updated_account_count == accounts@.len(),
        block.created_at == created_at,
{
}

/// An event is written to the table of events, with its time and the json text of its data.
pub proof fn law_event_is_written_whole(event: Event, row: EventRow, table: &'static str)
    requires
        call_ensures(<Event as Flushable>::to_row, (event,), row),
        call_ensures(<Event as Flushable>::table_name, (), table),
    ensures
        row.timestamp == event.timestamp,
        row.data@ == json_text(event.data),
        table@ == "events"@,
{
}

/// The client of the database is told that events hold json, which is sent as text, and both the
/// user and the database are called `default` where they are not given.
pub proof fn law_database_settings(
    config: &ClickhouseConfig,
    options: Vec<(&'static str, &'static str)>,
    user: String,
    database: String,
)
    requires
        call_ensures(ClickhouseConfig::client_options, (config,), options),
        call_ensures(default_user, (), user),
        call_ensures(default_database, (), database),
    ensures
        options@.len() == 2,
        options@[0].0@ == "allow_experimental_json_type"@,
        options@[0].1@ == "1"@,
        options@[1].0@ == "input_format_binary_read_json_as_string"@,
        options@[1].1@ == "1"@,
        user@ == "default"@,
        database@ == "default"@,
{
}

/// A task lets go what it holds back of a slot, all of it and of that slot alone, before the news
/// that the slot was processed and before the description of its block; the message goes out last.
pub proof fn law_task_lets_a_slot_go(
    task: &mut BufferTask,
    message: Message,
    out: Vec<Message>,
    slot: u64,
    key: Seq<u8>,
)
    requires
        call_ensures(BufferTask::on_message, (task, message), out),
        match message {
            Message::Slot(news) => news.status is Processed && news.slot == slot,
            Message::BlockMeta(news) => news.block_meta.slot == slot,
            _ => false,
        },
    ensures
        out@.len() == held_of(old(task)@.held, slot).dom().len() + 1,
        out@.last()@ == MessageView::Other(message),
        held_of(old(task)@.held, slot).contains_key(key) ==> exists|i: int|
            0 <= i < out@.len() - 1 && #[trigger] out@[i]@ == MessageView::Account(
                held_of(old(task)@.held, slot)[key],
            ),
        !held_of(final(task)@.held, slot).contains_key(key),
        forall|other: u64, k: Seq<u8>|
            other != slot ==> is_held_alike(old(task)@.held, final(task)@.held, other, k),
        final(task)@.versions == old(task)@.versions,
{
    let views = crate::account_buffer::message_views(out@);
    assert(views.len() == out@.len());
    law_slot_is_let_go(
        old(task)@,
        old(task).threshold(),
        message,
        final(task)@,
        views,
        slot,
    );
    assert(views.last() == out@.last()@);
    if held_of(old(task)@.held, slot).contains_key(key) {
        let sent = MessageView::Account(held_of(old(task)@.held, slot)[key]);
        let i = choose|i: int| 0 <= i < views.len() - 1 && #[trigger] views[i] == sent;
        assert(views[i] == out@[i]@);
    }
}

/// No other news makes a task let anything go, and only that a slot is final makes it forget what
/// it saw in the slots before.
pub proof fn law_task_holds_on(
    task: &mut BufferTask,
    message: Message,
    out: Vec<Message>,
    slot: u64,
    key: Seq<u8>,
)
    requires
        call_ensures(BufferTask::on_message, (task, message), out),
        match message {
            Message::Slot(news) => !(news.status is Processed),
            Message::Transaction(_) | Message::Entry(_) | Message::Block(_) => true,
            Message::Account(_) | Message::BlockMeta(_) => false,
        },
    ensures
        out@.len() == 1,
        out@[0]@ == MessageView::Other(message),
        final(task)@.held == old(task)@.held,
        seen(final(task)@.versions, slot, key) == if message matches Message::Slot(news)
            && news.status is Finalized && slot < news.slot {
            Set::<u64>::empty()
        } else {
            seen(old(task)@.versions, slot, key)
        },
{
    let views = crate::account_buffer::message_views(out@);
    assert(views.len() == out@.len());
    law_other_news_moves_nothing(
        old(task)@,
        old(task).threshold(),
        message,
        final(task)@,
        views,
    );
    law_final_slot_forgets_those_before(
        old(task)@,
        old(task).threshold(),
        message,
        final(task)@,
        views,
        slot,
        key,
    );
    assert(views[0] == out@[0]@);
}

/// The number that a write would get is told exactly where it fits in sixty-four bits, and then a
/// task accepts the write; it accepts whatever is not on an account.
pub proof fn law_number_is_told_where_it_fits(
    tracker: &WriteVersionTracker,
    account: &MessageAccount,
    version: Option<u64>,
    task: &BufferTask,
    message: &Message,
    accepted: bool,
)
    requires
        call_ensures(WriteVersionTracker::normalized_version, (tracker, account), version),
        call_ensures(BufferTask::accepts, (task, message), accepted),
    ensures
        ({
            let number = account.slot * 10_000_000 + seen(
                tracker@,
                account.slot,
                account.account.pubkey@,
            ).insert(account.account.write_version).len();
            &&& version is Some <==> number <= 0xffff_ffff_ffff_ffff
            &&& version matches Some(told) ==> told == number
        }),
        !(*message is Account) ==> accepted,
        *message matches Message::Account(news) ==> (accepted <==> news.slot * 10_000_000 + seen(
            task@.versions,
            news.slot,
            news.account.pubkey@,
        ).insert(news.account.write_version).len() <= 0xffff_ffff_ffff_ffff),
{
}

/// What is read of bytes is what they spell, for updates as for accounts, and what is written of
/// them is what they are written as.
pub proof fn law_reading_is_what_bytes_spell(
    data: &[u8],
    update: Result<SubscribeUpdate, DecodeError>,
    account: Result<SubscribeUpdateAccountInfo, DecodeError>,
)
    requires
        call_ensures(SubscribeUpdate::decode, (data,), update),
        call_ensures(SubscribeUpdateAccountInfo::decode, (data,), account),
    ensures
        match update {
            Ok(read) => decoded::<SubscribeUpdate>(data@) == Ok::<UpdateView, DecodeError>(read@),
            Err(error) => decoded::<SubscribeUpdate>(data@) == Err::<UpdateView, DecodeError>(
                error,
            ),
        },
        match account {
            Ok(read) => decoded::<SubscribeUpdateAccountInfo>(data@) == Ok::<
                AccountInfoView,
                DecodeError,
            >(read@),
            Err(error) => decoded::<SubscribeUpdateAccountInfo>(data@) == Err::<
                AccountInfoView,
                DecodeError,
            >(error),
        },
{
}

/// An account that is written and read again is the account.
pub proof fn law_written_account_is_read_again(
    account: &SubscribeUpdateAccountInfo,
    bytes: Vec<u8>,
    data: &[u8],
    result: Result<SubscribeUpdateAccountInfo, DecodeError>,
)
    requires
        fits_wire(account@),
        call_ensures(SubscribeUpdateAccountInfo::encode_to_vec, (account,), bytes),
        data@ == bytes@,
        call_ensures(SubscribeUpdateAccountInfo::decode, (data,), result),
    ensures
        result matches Ok(read) && read@ == account@,
{
    law_account_round_trip(account@);
}

/// A set of keys holds what is put into it and nothing else, and counts each key once.
pub proof fn law_key_set_holds_what_is_put_in(
    set: &mut KeySet,
    key: Pubkey,
    any: &KeySet,
    asked: &Pubkey,
    found: bool,
    len: usize,
    other: Seq<u8>,
)
    requires
        call_ensures(KeySet::insert, (set, key), ()),
        call_ensures(KeySet::contains, (any, asked), found),
        call_ensures(KeySet::len, (any,), len),
    ensures
        final(set)@.contains(other) <==> other == key@ || old(set)@.contains(other),
        found <==> any@.contains(asked@),
        len == any@.len(),
{
}

/// A set of keys for compression lists each key that it holds once.
pub proof fn law_set_lists_its_keys(
    set: &CompressedAccountFilterSet,
    keys: Vec<[u8; 32]>,
    key: Seq<u8>,
)
    requires
        call_ensures(CompressedAccountFilterSet::iter, (set,), keys),
    ensures
        set.keys().contains(key) <==> exists|i: int|
            0 <= i < keys@.len() && #[trigger] keys@[i]@ == key,
        keys@.len() == set.keys().len(),
{
}

/// A set is made exactly where its filter could be made and room could be had for its keys; it
/// begins empty and clean.
pub proof fn law_set_begins_empty(
    filter: Result<CuckooFilter, CuckooBuildError>,
    max_capacity: usize,
    reserved: bool,
    items: KeyMap<()>,
    result: Result<CompressedAccountFilterSet, CuckooBuildError>,
)
    requires
        call_ensures(
            CompressedAccountFilterSet::from_parts,
            (filter, max_capacity, reserved, items),
            result,
        ),
    ensures
        result is Ok <==> filter is Ok && reserved,
        result matches Ok(set) ==> set.keys() == Set::<Seq<u8>>::empty() && !set.dirty()
            && set.max_capacity() == max_capacity && set.filter() == filter.unwrap(),
{
}

} // verus!
